//! Data types and functions for producing 'Binary Info' metadata blocks:
//! a discoverable, self-describing block embedded in a firmware image,
//! which a host-side inspection tool reads without executing the firmware.
//!
//! The format has four parts:
//! - typed, tagged entry records carrying one metadata fact each,
//! - an entry table: a contiguous run of 32-bit addresses of those records,
//! - a sentinel-terminated address mapping table translating runtime (RAM)
//!   addresses back to their location in the static image,
//! - a fixed-layout discovery header, bounded by two magic words, pointing
//!   at the entry table and the mapping table.
//!
//! Addresses are modelled as plain 32-bit values; the [`image::Image`]
//! builder performs the explicit serialization step that places records at
//! concrete addresses when the final image bytes are emitted.

use vstd::prelude::*;

pub mod bytes;
pub mod entry;
pub mod image;

use crate::bytes::le32;
use crate::bytes::le32_at;
use crate::bytes::lemma_le32_at_depends;
use crate::bytes::lemma_le32_canonical;
use crate::bytes::lemma_le32_round_trip;
use crate::bytes::push_le32;
use crate::bytes::read_le32;
use crate::entry::Addr;
use crate::entry::Common;
use crate::entry::IdAndInt;
use crate::entry::IdAndString;

verus! {

/// First magic word of the discovery header.
pub const MARKER_START: u32 = 0x7188_ebf2;
/// Second magic word of the discovery header.
pub const MARKER_END: u32 = 0xe71a_a390;

/// All standard-namespace IDs carry this tag; it equals `make_tag(b'R', b'P')`.
/// You can create your own tag for custom fields.
pub const TAG_RASPBERRY_PI: u16 = 0x5052;

/// Used to note the program name - use with entry::IdAndString
pub const ID_RP_PROGRAM_NAME: u32 = 0x02031c86;
/// Used to note the program version - use with entry::IdAndString
pub const ID_RP_PROGRAM_VERSION_STRING: u32 = 0x11a9bc3a;
/// Used to note the program build date - use with entry::IdAndString
pub const ID_RP_PROGRAM_BUILD_DATE_STRING: u32 = 0x9da22254;
/// Used to note the size of the binary - use with entry::IdAndInt
pub const ID_RP_BINARY_END: u32 = 0x68f465de;
/// Used to note a URL for the program - use with entry::IdAndString
pub const ID_RP_PROGRAM_URL: u32 = 0x1856239a;
/// Used to note a description of the program - use with entry::IdAndString
pub const ID_RP_PROGRAM_DESCRIPTION: u32 = 0xb6a07c19;
/// Used to note some feature of the program - use with entry::IdAndString
pub const ID_RP_PROGRAM_FEATURE: u32 = 0xa1f4b453;
/// Used to note whether this was a Debug or Release build - use with entry::IdAndString
pub const ID_RP_PROGRAM_BUILD_ATTRIBUTE: u32 = 0x4275f0d3;
/// Used to note the SDK version used - use with entry::IdAndString
pub const ID_RP_SDK_VERSION: u32 = 0x5360b3ab;
/// Used to note which board this program targets - use with entry::IdAndString
pub const ID_RP_PICO_BOARD: u32 = 0xb63cffbb;
/// Used to note which `boot2` image this program uses - use with entry::IdAndString
pub const ID_RP_BOOT2_NAME: u32 = 0x7f8882e1;

/// This is the set of data types that the external reader understands.
/// Each entry record announces its concrete layout with one of these.
#[derive(Clone, Copy, Debug, PartialEq, Eq, Structural)]
pub enum DataType {
    Raw,
    SizedData,
    BinaryInfoListZeroTerminated,
    Bson,
    IdAndInt,
    IdAndString,
    BlockDevice,
    PinsWithFunction,
    PinsWithName,
    PinsWithNames,
}

/// The 16-bit wire code of a data type; the reader dispatches on this value.
pub open spec fn data_type_code(dt: DataType) -> u16 {
    match dt {
        DataType::Raw => 1,
        DataType::SizedData => 2,
        DataType::BinaryInfoListZeroTerminated => 3,
        DataType::Bson => 4,
        DataType::IdAndInt => 5,
        DataType::IdAndString => 6,
        DataType::BlockDevice => 7,
        DataType::PinsWithFunction => 8,
        DataType::PinsWithName => 9,
        DataType::PinsWithNames => 10,
    }
}

/// The data type a 16-bit wire code stands for, if any.
pub open spec fn data_type_of_code(code: u16) -> Option<DataType> {
    if code == 1 {
        Some(DataType::Raw)
    } else if code == 2 {
        Some(DataType::SizedData)
    } else if code == 3 {
        Some(DataType::BinaryInfoListZeroTerminated)
    } else if code == 4 {
        Some(DataType::Bson)
    } else if code == 5 {
        Some(DataType::IdAndInt)
    } else if code == 6 {
        Some(DataType::IdAndString)
    } else if code == 7 {
        Some(DataType::BlockDevice)
    } else if code == 8 {
        Some(DataType::PinsWithFunction)
    } else if code == 9 {
        Some(DataType::PinsWithName)
    } else {
        if code == 10 {
            Some(DataType::PinsWithNames)
        } else {
            None
        }
    }
}

/// Encoding a data type and reading the code back yields the same data type,
/// and decoding succeeds exactly on the wire codes 1 through 10.
pub proof fn lemma_data_type_code_round_trip(dt: DataType, code: u16)
    ensures
        data_type_of_code(data_type_code(dt)) == Some(dt),
        data_type_of_code(code) is Some <==> 1 <= code <= 10,
        data_type_of_code(code) matches Some(d) ==> data_type_code(d) == code,
{
}

impl DataType {
    /// The 16-bit wire code of this data type.
    pub fn code(self) -> (code: u16)
        ensures
            code == data_type_code(self),
    {
        match self {
            DataType::Raw => 1,
            DataType::SizedData => 2,
            DataType::BinaryInfoListZeroTerminated => 3,
            DataType::Bson => 4,
            DataType::IdAndInt => 5,
            DataType::IdAndString => 6,
            DataType::BlockDevice => 7,
            DataType::PinsWithFunction => 8,
            DataType::PinsWithName => 9,
            DataType::PinsWithNames => 10,
        }
    }

    /// The data type announced by a 16-bit wire code, if the code is known.
    pub fn from_code(code: u16) -> (dt: Option<DataType>)
        ensures
            dt == data_type_of_code(code),
    {
        match code {
            1 => Some(DataType::Raw),
            2 => Some(DataType::SizedData),
            3 => Some(DataType::BinaryInfoListZeroTerminated),
            4 => Some(DataType::Bson),
            5 => Some(DataType::IdAndInt),
            6 => Some(DataType::IdAndString),
            7 => Some(DataType::BlockDevice),
            8 => Some(DataType::PinsWithFunction),
            9 => Some(DataType::PinsWithName),
            10 => Some(DataType::PinsWithNames),
            _ => None,
        }
    }
}

/// The tag value packed from two ASCII characters: the second character
/// lands in the high byte, the first in the low byte.
pub open spec fn tag_value(c1: u8, c2: u8) -> u16 {
    (c2 * 256 + c1) as u16
}

/// Create a tag from two ASCII letters.
pub fn make_tag(c1: u8, c2: u8) -> (tag: u16)
    ensures
        tag == tag_value(c1, c2),
        tag == c2 * 256 + c1,
{
    (c2 as u16) * 256 + (c1 as u16)
}

/// Packing two characters into a tag is injective: equal tags come only
/// from equal character pairs.
pub proof fn lemma_make_tag_injective(c1: u8, c2: u8, d1: u8, d2: u8)
    requires
        tag_value(c1, c2) == tag_value(d1, d2),
    ensures
        c1 == d1,
        c2 == d2,
{
}

/// The standard-namespace constant is the tag packed from `'R'` and
/// `'P'`.
pub proof fn lemma_tag_raspberry_pi()
    ensures
        tag_value(0x52, 0x50) == TAG_RASPBERRY_PI,
{
}

/// The number of bytes the discovery header occupies: five 32-bit words.
pub const HEADER_SIZE: usize = 20;

/// This is the discovery header block that the external reader looks for
/// in the finished image to find the rest of the metadata. It should be
/// placed in the first 256 bytes of the image, so the reader can locate
/// it quickly by its two magic words.
pub struct Header {
    /// Always equal to `MARKER_START`.
    marker_start: u32,
    /// The address of the first slot of the entry table.
    entries_start: u32,
    /// The address one past the last slot of the entry table.
    entries_end: u32,
    /// The address of the first entry of a sentinel-terminated RAM/Flash
    /// mapping table.
    mapping_table: u32,
    /// Always equal to `MARKER_END`.
    marker_end: u32,
}

impl Header {
    /// The first magic word of this header.
    pub closed spec fn spec_marker_start(self) -> u32 {
        self.marker_start
    }

    /// The address of the first slot of the entry table.
    pub closed spec fn spec_entries_start(self) -> u32 {
        self.entries_start
    }

    /// The address one past the last slot of the entry table.
    pub closed spec fn spec_entries_end(self) -> u32 {
        self.entries_end
    }

    /// The address of the first mapping table entry.
    pub closed spec fn spec_mapping_table(self) -> u32 {
        self.mapping_table
    }

    /// The second magic word of this header.
    pub closed spec fn spec_marker_end(self) -> u32 {
        self.marker_end
    }

    /// Both magic words hold their reserved constants; the reader treats
    /// a block without them as absent.
    pub open spec fn well_formed(self) -> bool {
        self.spec_marker_start() == MARKER_START && self.spec_marker_end() == MARKER_END
    }

    /// The wire bytes of this header: five little-endian 32-bit words in
    /// field order.
    pub open spec fn encoding(self) -> Seq<u8> {
        le32(self.spec_marker_start()) + le32(self.spec_entries_start()) + le32(
            self.spec_entries_end(),
        ) + le32(self.spec_mapping_table()) + le32(self.spec_marker_end())
    }

    /// Create a new discovery header.
    ///
    /// * `entries_start` - the address of the first slot of the entry table
    /// * `entries_end` - the address one past the last slot of the entry table
    /// * `mapping_table` - the address of the RAM/Flash address mapping table
    pub fn new(entries_start: Addr, entries_end: Addr, mapping_table: u32) -> (header: Header)
        ensures
            header.well_formed(),
            header.spec_entries_start() == entries_start.0,
            header.spec_entries_end() == entries_end.0,
            header.spec_mapping_table() == mapping_table,
    {
        Header {
            marker_start: MARKER_START,
            entries_start: entries_start.0,
            entries_end: entries_end.0,
            mapping_table,
            marker_end: MARKER_END,
        }
    }

    /// The first magic word of this header.
    pub fn marker_start(&self) -> (word: u32)
        ensures
            word == self.spec_marker_start(),
    {
        self.marker_start
    }

    /// The address of the first slot of the entry table.
    pub fn entries_start(&self) -> (addr: u32)
        ensures
            addr == self.spec_entries_start(),
    {
        self.entries_start
    }

    /// The address one past the last slot of the entry table.
    pub fn entries_end(&self) -> (addr: u32)
        ensures
            addr == self.spec_entries_end(),
    {
        self.entries_end
    }

    /// The address of the first mapping table entry.
    pub fn mapping_table(&self) -> (addr: u32)
        ensures
            addr == self.spec_mapping_table(),
    {
        self.mapping_table
    }

    /// The second magic word of this header.
    pub fn marker_end(&self) -> (word: u32)
        ensures
            word == self.spec_marker_end(),
    {
        self.marker_end
    }

    /// Append this header's wire bytes to `out`.
    pub fn encode_into(&self, out: &mut Vec<u8>)
        ensures
            final(out)@ == old(out)@ + self.encoding(),
    {
        push_le32(out, self.marker_start);
        push_le32(out, self.entries_start);
        push_le32(out, self.entries_end);
        push_le32(out, self.mapping_table);
        push_le32(out, self.marker_end);
        proof {
            assert(out@ =~= old(out)@ + self.encoding());
        }
    }

    /// This header's wire bytes.
    pub fn encode(&self) -> (out: Vec<u8>)
        ensures
            out@ == self.encoding(),
    {
        let mut out: Vec<u8> = Vec::new();
        self.encode_into(&mut out);
        out
    }

    /// Read the header stored at `offset`, if both magic words are in
    /// place there; a block whose magic words are corrupted is absent.
    pub fn decode(bytes: &[u8], offset: usize) -> (header: Option<Header>)
        ensures
            header is Some <==> offset + HEADER_SIZE <= bytes@.len() && le32_at(
                bytes@,
                offset as int,
            ) == MARKER_START && le32_at(bytes@, offset as int + 16) == MARKER_END,
            header matches Some(h) ==> h.well_formed() && h.spec_entries_start() == le32_at(
                bytes@,
                offset as int + 4,
            ) && h.spec_entries_end() == le32_at(bytes@, offset as int + 8)
                && h.spec_mapping_table() == le32_at(bytes@, offset as int + 12),
    {
        if bytes.len() < HEADER_SIZE || offset > bytes.len() - HEADER_SIZE {
            return None;
        }
        let marker_start = read_le32(bytes, offset);
        let marker_end = read_le32(bytes, offset + 16);
        if marker_start != MARKER_START || marker_end != MARKER_END {
            return None;
        }
        Some(
            Header {
                marker_start,
                entries_start: read_le32(bytes, offset + 4),
                entries_end: read_le32(bytes, offset + 8),
                mapping_table: read_le32(bytes, offset + 12),
                marker_end,
            },
        )
    }
}

/// The fields read back from an encoded well-formed header are exactly
/// the fields that went in, and the two magic words stand at its ends
/// whatever the pointer fields hold.
pub proof fn lemma_header_round_trip(h: Header)
    requires
        h.well_formed(),
    ensures
        h.encoding().len() == HEADER_SIZE,
        le32_at(h.encoding(), 0) == MARKER_START,
        le32_at(h.encoding(), 4) == h.spec_entries_start(),
        le32_at(h.encoding(), 8) == h.spec_entries_end(),
        le32_at(h.encoding(), 12) == h.spec_mapping_table(),
        le32_at(h.encoding(), 16) == MARKER_END,
{
    let enc = h.encoding();
    let w0 = le32(h.spec_marker_start());
    let w1 = le32(h.spec_entries_start());
    let w2 = le32(h.spec_entries_end());
    let w3 = le32(h.spec_mapping_table());
    let w4 = le32(h.spec_marker_end());
    assert(enc[0] == w0[0] && enc[1] == w0[1] && enc[2] == w0[2] && enc[3] == w0[3]);
    lemma_le32_at_depends(enc, w0, 0, 0);
    lemma_le32_round_trip(h.spec_marker_start());
    assert(enc[4] == w1[0] && enc[5] == w1[1] && enc[6] == w1[2] && enc[7] == w1[3]);
    lemma_le32_at_depends(enc, w1, 4, 0);
    lemma_le32_round_trip(h.spec_entries_start());
    assert(enc[8] == w2[0] && enc[9] == w2[1] && enc[10] == w2[2] && enc[11] == w2[3]);
    lemma_le32_at_depends(enc, w2, 8, 0);
    lemma_le32_round_trip(h.spec_entries_end());
    assert(enc[12] == w3[0] && enc[13] == w3[1] && enc[14] == w3[2] && enc[15] == w3[3]);
    lemma_le32_at_depends(enc, w3, 12, 0);
    lemma_le32_round_trip(h.spec_mapping_table());
    assert(enc[16] == w4[0] && enc[17] == w4[1] && enc[18] == w4[2] && enc[19] == w4[3]);
    lemma_le32_at_depends(enc, w4, 16, 0);
    lemma_le32_round_trip(h.spec_marker_end());
}

/// A decoded header re-encodes to exactly the twenty bytes it was read
/// from: the wire form of a header is unique.
pub proof fn lemma_header_canonical(bytes: Seq<u8>, i: int, h: Header)
    requires
        0 <= i,
        i + HEADER_SIZE <= bytes.len(),
        h.well_formed(),
        le32_at(bytes, i) == MARKER_START,
        le32_at(bytes, i + 16) == MARKER_END,
        h.spec_entries_start() == le32_at(bytes, i + 4),
        h.spec_entries_end() == le32_at(bytes, i + 8),
        h.spec_mapping_table() == le32_at(bytes, i + 12),
    ensures
        h.encoding() =~= bytes.subrange(i, i + HEADER_SIZE as int),
{
    lemma_le32_canonical(bytes, i);
    lemma_le32_canonical(bytes, i + 4);
    lemma_le32_canonical(bytes, i + 8);
    lemma_le32_canonical(bytes, i + 12);
    lemma_le32_canonical(bytes, i + 16);
}

/// The number of bytes one mapping table entry occupies: three 32-bit
/// words.
pub const MAPPING_ENTRY_SIZE: usize = 12;

/// Tells the external reader where values are in the image given their
/// run-time address. The most obvious example is RAM variables, which the
/// reader must find in the initialized-data region of the image.
///
/// Addresses in `[dest_addr_start, dest_addr_end)` as seen at runtime
/// correspond to a region of equal length starting at `source_addr_start`
/// in the static image.
#[derive(Clone, Copy, Debug, PartialEq, Eq, Structural)]
pub struct MappingTableEntry {
    pub source_addr_start: u32,
    pub dest_addr_start: u32,
    pub dest_addr_end: u32,
}

impl MappingTableEntry {
    /// The all-null entry that terminates a mapping table; the reader
    /// stops at the first one.
    pub open spec fn is_sentinel_spec(self) -> bool {
        self.source_addr_start == 0 && self.dest_addr_start == 0 && self.dest_addr_end == 0
    }

    /// Whether this is the all-null entry that terminates a mapping table.
    pub fn is_sentinel(&self) -> (sentinel: bool)
        ensures
            sentinel == self.is_sentinel_spec(),
    {
        self.source_addr_start == 0 && self.dest_addr_start == 0 && self.dest_addr_end == 0
    }

    /// Whether the runtime address `addr` falls in this entry's
    /// destination range.
    pub open spec fn covers(self, addr: u32) -> bool {
        self.dest_addr_start <= addr < self.dest_addr_end
    }

    /// The destination range is a range, and the source region of equal
    /// length lies within the 32-bit address space.
    pub open spec fn well_formed(self) -> bool {
        &&& self.dest_addr_start <= self.dest_addr_end
        &&& self.dest_addr_start < self.dest_addr_end ==> self.source_addr_start + (
        self.dest_addr_end - self.dest_addr_start) - 1 <= u32::MAX
    }

    /// Where a covered runtime address lies in the static image: the same
    /// distance into the source region as into the destination range.
    pub open spec fn translated(self, addr: u32) -> u32
        recommends
            self.well_formed(),
            self.covers(addr),
    {
        (self.source_addr_start + (addr - self.dest_addr_start)) as u32
    }

    /// Translate a runtime address covered by this entry back to its
    /// location in the static image.
    pub fn translate(&self, addr: u32) -> (source: u32)
        requires
            self.well_formed(),
            self.covers(addr),
        ensures
            source == self.translated(addr),
            source == self.source_addr_start + (addr - self.dest_addr_start),
    {
        self.source_addr_start + (addr - self.dest_addr_start)
    }

    /// The wire bytes of this entry: three little-endian 32-bit words in
    /// field order.
    pub open spec fn encoding(self) -> Seq<u8> {
        le32(self.source_addr_start) + le32(self.dest_addr_start) + le32(self.dest_addr_end)
    }

    /// Append this entry's wire bytes to `out`.
    pub fn encode_into(&self, out: &mut Vec<u8>)
        ensures
            final(out)@ == old(out)@ + self.encoding(),
    {
        push_le32(out, self.source_addr_start);
        push_le32(out, self.dest_addr_start);
        push_le32(out, self.dest_addr_end);
        proof {
            assert(out@ =~= old(out)@ + self.encoding());
        }
    }
}

/// What a reader walking the mapping table finds for the runtime address
/// `addr`: the translation of the first entry covering it, stopping
/// without a match at the first all-null sentinel.
pub open spec fn mapping_lookup(table: Seq<MappingTableEntry>, addr: u32) -> Option<u32>
    decreases table.len(),
{
    if table.len() == 0 {
        None
    } else if table[0].is_sentinel_spec() {
        None
    } else if table[0].covers(addr) {
        Some(table[0].translated(addr))
    } else {
        mapping_lookup(table.drop_first(), addr)
    }
}

/// How many entries of the table come before its first all-null sentinel:
/// the entries a reader walking it actually considers.
pub open spec fn live_len(table: Seq<MappingTableEntry>) -> int
    decreases table.len(),
{
    if table.len() == 0 {
        0
    } else if table[0].is_sentinel_spec() {
        0
    } else {
        1 + live_len(table.drop_first())
    }
}

/// The entries before the first sentinel are entries of the table, and
/// none of them is a sentinel.
pub proof fn lemma_live_len(table: Seq<MappingTableEntry>)
    ensures
        0 <= live_len(table) <= table.len(),
        forall|i: int| 0 <= i < live_len(table) ==> !(#[trigger] table[i]).is_sentinel_spec(),
    decreases table.len(),
{
    if table.len() > 0 && !table[0].is_sentinel_spec() {
        lemma_live_len(table.drop_first());
        assert forall|i: int| 0 <= i < live_len(table) implies !(
        #[trigger] table[i]).is_sentinel_spec() by {
            if i > 0 {
                assert(table.drop_first()[i - 1] == table[i]);
            }
        }
    }
}

/// A table whose first `k` entries are no sentinels has at least `k`
/// live entries.
pub proof fn lemma_live_len_lower(table: Seq<MappingTableEntry>, k: int)
    requires
        0 <= k <= table.len(),
        forall|j: int| 0 <= j < k ==> !(#[trigger] table[j]).is_sentinel_spec(),
    ensures
        live_len(table) >= k,
    decreases k,
{
    lemma_live_len(table);
    if k > 0 {
        assert(!table[0].is_sentinel_spec());
        assert forall|j: int| 0 <= j < k - 1 implies !(
        #[trigger] table.drop_first()[j]).is_sentinel_spec() by {
            assert(table.drop_first()[j] == table[j + 1]);
        }
        lemma_live_len_lower(table.drop_first(), k - 1);
        assert(live_len(table) == 1 + live_len(table.drop_first()));
    }
}

/// Walk the mapping table as the external reader does: translate `addr`
/// by the first entry whose destination range covers it, stopping at the
/// first all-null sentinel. Only the entries the walk can reach - those
/// before the first sentinel - need to be well-formed.
pub fn translate_address(table: &[MappingTableEntry], addr: u32) -> (source: Option<u32>)
    requires
        forall|i: int| 0 <= i < live_len(table@) ==> (#[trigger] table@[i]).well_formed(),
    ensures
        source == mapping_lookup(table@, addr),
{
    let n = table.len();
    let mut i: usize = 0;
    proof {
        assert(table@.skip(0) =~= table@);
    }
    while i < n
        invariant
            n == table@.len(),
            i <= n,
            forall|k: int| 0 <= k < live_len(table@) ==> (#[trigger] table@[k]).well_formed(),
            forall|k: int| 0 <= k < i ==> !(#[trigger] table@[k]).is_sentinel_spec(),
            mapping_lookup(table@, addr) == mapping_lookup(table@.skip(i as int), addr),
        decreases n - i,
    {
        let e = &table[i];
        proof {
            assert(table@.skip(i as int)[0] == table@[i as int]);
        }
        if e.is_sentinel() {
            return None;
        }
        if e.dest_addr_start <= addr && addr < e.dest_addr_end {
            proof {
                lemma_live_len_lower(table@, i + 1);
            }
            return Some(e.translate(addr));
        }
        proof {
            assert(table@.skip(i as int).drop_first() =~= table@.skip(i + 1));
        }
        i = i + 1;
    }
    proof {
        assert(table@.skip(n as int).len() == 0);
    }
    None
}

/// A runtime address covered by no entry before the first sentinel finds
/// no mapping: the walk ends at the sentinel without a match.
pub proof fn lemma_lookup_miss(table: Seq<MappingTableEntry>, addr: u32)
    requires
        forall|i: int| 0 <= i < live_len(table) ==> !(#[trigger] table[i]).covers(addr),
    ensures
        mapping_lookup(table, addr) is None,
    decreases table.len(),
{
    if table.len() > 0 && !table[0].is_sentinel_spec() {
        lemma_live_len(table);
        lemma_live_len(table.drop_first());
        assert(live_len(table) >= 1);
        assert(!table[0].covers(addr));
        assert forall|i: int| 0 <= i < live_len(table.drop_first()) implies !(
        #[trigger] table.drop_first()[i]).covers(addr) by {
            assert(table.drop_first()[i] == table[i + 1]);
        }
        lemma_lookup_miss(table.drop_first(), addr);
    }
}

/// A runtime address first covered by the live entry at position `i` is
/// translated by exactly that entry: the same distance into its source
/// region as into its destination range.
pub proof fn lemma_lookup_hit(table: Seq<MappingTableEntry>, addr: u32, i: int)
    requires
        0 <= i < live_len(table),
        table[i].covers(addr),
        forall|j: int| 0 <= j < i ==> !(#[trigger] table[j]).covers(addr),
    ensures
        mapping_lookup(table, addr) == Some(table[i].translated(addr)),
    decreases table.len(),
{
    lemma_live_len(table);
    if i == 0 {
        assert(!table[0].is_sentinel_spec());
    } else {
        assert(!table[0].is_sentinel_spec());
        assert(!table[0].covers(addr));
        assert(table.drop_first()[i - 1] == table[i]);
        assert forall|j: int| 0 <= j < i - 1 implies !(
        #[trigger] table.drop_first()[j]).covers(addr) by {
            assert(table.drop_first()[j] == table[j + 1]);
        }
        lemma_lookup_hit(table.drop_first(), addr, i - 1);
    }
}

/// Create a 'Binary Info' entry containing the program name.
///
/// `name` is the address of the program name in the image; the string
/// stored there must be null-terminated, so put a `\0` at the end of it.
pub fn program_name(name: u32) -> (entry: IdAndString)
    ensures
        entry.header.data_type == DataType::IdAndString,
        entry.header.tag == TAG_RASPBERRY_PI,
        entry.id == ID_RP_PROGRAM_NAME,
        entry.value == name,
{
    IdAndString {
        header: Common { data_type: DataType::IdAndString, tag: TAG_RASPBERRY_PI },
        id: ID_RP_PROGRAM_NAME,
        value: name,
    }
}

/// Create a 'Binary Info' entry containing the program version.
///
/// `name` is the address of the version string in the image; the string
/// stored there must be null-terminated, so put a `\0` at the end of it.
pub fn version(name: u32) -> (entry: IdAndString)
    ensures
        entry.header.data_type == DataType::IdAndString,
        entry.header.tag == TAG_RASPBERRY_PI,
        entry.id == ID_RP_PROGRAM_VERSION_STRING,
        entry.value == name,
{
    IdAndString {
        header: Common { data_type: DataType::IdAndString, tag: TAG_RASPBERRY_PI },
        id: ID_RP_PROGRAM_VERSION_STRING,
        value: name,
    }
}

/// Create a 'Binary Info' entry containing the build date.
///
/// `name` is the address of the build date string in the image; the
/// string stored there must be null-terminated, so put a `\0` at the end
/// of it.
pub fn build_date(name: u32) -> (entry: IdAndString)
    ensures
        entry.header.data_type == DataType::IdAndString,
        entry.header.tag == TAG_RASPBERRY_PI,
        entry.id == ID_RP_PROGRAM_BUILD_DATE_STRING,
        entry.value == name,
{
    IdAndString {
        header: Common { data_type: DataType::IdAndString, tag: TAG_RASPBERRY_PI },
        id: ID_RP_PROGRAM_BUILD_DATE_STRING,
        value: name,
    }
}

/// Create a 'Binary Info' entry containing a custom integer entry.
pub fn custom_integer(tag: u16, id: u32, value: u32) -> (entry: IdAndInt)
    ensures
        entry.header.data_type == DataType::IdAndInt,
        entry.header.tag == tag,
        entry.id == id,
        entry.value == value,
{
    IdAndInt { header: Common { data_type: DataType::IdAndInt, tag }, id, value }
}

/// Create a 'Binary Info' entry containing a custom string entry.
///
/// `value` is the address of the string in the image; the string stored
/// there must be null-terminated, so put a `\0` at the end of it.
pub fn custom_string(tag: u16, id: u32, value: u32) -> (entry: IdAndString)
    ensures
        entry.header.data_type == DataType::IdAndString,
        entry.header.tag == tag,
        entry.id == id,
        entry.value == value,
{
    IdAndString { header: Common { data_type: DataType::IdAndString, tag }, id, value }
}

/// How many entry addresses lie between the two entry table markers: each
/// slot holds one 32-bit address.
pub fn entry_count(entries_start: u32, entries_end: u32) -> (count: u32)
    requires
        entries_start <= entries_end,
        (entries_end - entries_start) % 4 == 0,
    ensures
        count == (entries_end - entries_start) / 4,
{
    (entries_end - entries_start) / 4
}

/// A table of `n` slots of four bytes each spans exactly the distance the
/// reader divides by the slot size: the recovered count is `n`.
pub proof fn lemma_entry_count_recovers(entries_start: u32, entries_end: u32, n: int)
    requires
        entries_start <= entries_end,
        entries_end - entries_start == 4 * n,
    ensures
        (entries_end - entries_start) % 4 == 0,
        (entries_end - entries_start) / 4 == n,
{
}

} // verus!
