//! The image builder: the explicit serialization step of the format.
//!
//! Records, the entry table and the mapping table only have addresses once
//! they are placed in the final image. An [`Image`] models the region of
//! the image being filled: a base address and the bytes appended so far.
//! Appending data returns the 32-bit address the data landed at, which is
//! what the discovery header and the entry table store.

use vstd::prelude::*;

use crate::Header;
use crate::MappingTableEntry;
use crate::HEADER_SIZE;
use crate::MAPPING_ENTRY_SIZE;
use crate::bytes::le32;
use crate::bytes::push_le32;
use crate::entry::Addr;

verus! {

/// The wire bytes of a whole mapping table: each entry's three words, in
/// table order.
pub open spec fn mapping_table_encoding(table: Seq<MappingTableEntry>) -> Seq<u8>
    decreases table.len(),
{
    if table.len() == 0 {
        Seq::empty()
    } else {
        mapping_table_encoding(table.drop_last()) + table.last().encoding()
    }
}

/// A mapping table of `n` entries occupies `12 * n` bytes on the wire.
pub proof fn lemma_mapping_table_encoding_len(table: Seq<MappingTableEntry>)
    ensures
        mapping_table_encoding(table).len() == MAPPING_ENTRY_SIZE * table.len(),
    decreases table.len(),
{
    if table.len() > 0 {
        lemma_mapping_table_encoding_len(table.drop_last());
    }
}

/// The wire bytes of a whole entry table: each slot's 32-bit address, in
/// table order.
pub open spec fn entry_table_encoding(addrs: Seq<Addr>) -> Seq<u8>
    decreases addrs.len(),
{
    if addrs.len() == 0 {
        Seq::empty()
    } else {
        entry_table_encoding(addrs.drop_last()) + le32(addrs.last().0)
    }
}

/// An entry table of `n` slots occupies `4 * n` bytes on the wire.
pub proof fn lemma_entry_table_encoding_len(addrs: Seq<Addr>)
    ensures
        entry_table_encoding(addrs).len() == 4 * addrs.len(),
    decreases addrs.len(),
{
    if addrs.len() > 0 {
        lemma_entry_table_encoding_len(addrs.drop_last());
    }
}

/// A region of the firmware image under construction: the bytes appended
/// so far, laid out consecutively from a fixed base address.
pub struct Image {
    base: u32,
    data: Vec<u8>,
}

impl Image {
    /// The base address of the region.
    pub closed spec fn spec_base(self) -> u32 {
        self.base
    }

    /// The bytes placed in the region so far, in address order.
    pub closed spec fn contents(self) -> Seq<u8> {
        self.data@
    }

    /// Every byte of the region, and the one-past-last position, has a
    /// 32-bit address.
    pub open spec fn well_formed(self) -> bool {
        self.spec_base() + self.contents().len() <= u32::MAX
    }

    /// The address one past the last byte placed so far: where the next
    /// appended byte will land.
    pub open spec fn end(self) -> int {
        self.spec_base() + self.contents().len()
    }

    /// Start an empty image region at `base`.
    pub fn new(base: u32) -> (img: Image)
        ensures
            img.well_formed(),
            img.spec_base() == base,
            img.contents() == Seq::<u8>::empty(),
    {
        Image { base, data: Vec::new() }
    }

    /// The base address of the region.
    pub fn base(&self) -> (b: u32)
        ensures
            b == self.spec_base(),
    {
        self.base
    }

    /// How many bytes have been placed so far.
    pub fn len(&self) -> (n: usize)
        ensures
            n == self.contents().len(),
    {
        self.data.len()
    }

    /// The address the next appended byte will land at.
    pub fn end_addr(&self) -> (addr: u32)
        requires
            self.well_formed(),
        ensures
            addr == self.end(),
    {
        self.base + self.data.len() as u32
    }

    /// The bytes of the region, as an external reader of the finished
    /// image would see them.
    pub fn as_bytes(&self) -> (bytes: &[u8])
        ensures
            bytes@ == self.contents(),
    {
        self.data.as_slice()
    }

    /// The position within the region's bytes that `addr` refers to.
    pub fn addr_to_offset(&self, addr: u32) -> (offset: usize)
        requires
            self.well_formed(),
            self.spec_base() <= addr <= self.end(),
        ensures
            offset == addr - self.spec_base(),
    {
        (addr - self.base) as usize
    }

    /// Place `bytes` at the end of the region and return the address of
    /// its first byte.
    pub fn append(&mut self, bytes: &[u8]) -> (addr: u32)
        requires
            old(self).well_formed(),
            old(self).end() + bytes@.len() <= u32::MAX,
        ensures
            final(self).well_formed(),
            final(self).spec_base() == old(self).spec_base(),
            final(self).contents() == old(self).contents() + bytes@,
            addr == old(self).end(),
            final(self).end() == old(self).end() + bytes@.len(),
    {
        let addr = self.base + self.data.len() as u32;
        let mut i: usize = 0;
        while i < bytes.len()
            invariant
                i <= bytes@.len(),
                self.base == old(self).base,
                self.data@ == old(self).data@ + bytes@.take(i as int),
            decreases bytes@.len() - i,
        {
            self.data.push(bytes[i]);
            proof {
                assert(old(self).data@ + bytes@.take(i + 1) =~= (old(self).data@
                    + bytes@.take(i as int)).push(bytes@[i as int]));
            }
            i = i + 1;
        }
        proof {
            assert(bytes@.take(bytes@.len() as int) =~= bytes@);
        }
        addr
    }

    /// Place a whole mapping table at the end of the region and return
    /// the address of its first entry - what the discovery header's
    /// mapping table pointer stores. The table must be terminated by the
    /// all-null sentinel entry, or a reader walks past its end.
    pub fn place_mapping_table(&mut self, table: &[MappingTableEntry]) -> (addr: u32)
        requires
            old(self).well_formed(),
            old(self).end() + MAPPING_ENTRY_SIZE * table@.len() <= u32::MAX,
            table@.len() > 0,
            table@.last().is_sentinel_spec(),
        ensures
            final(self).well_formed(),
            final(self).spec_base() == old(self).spec_base(),
            final(self).contents() == old(self).contents() + mapping_table_encoding(table@),
            addr == old(self).end(),
    {
        let mut out: Vec<u8> = Vec::new();
        let n = table.len();
        let mut i: usize = 0;
        proof {
            assert(mapping_table_encoding(table@.take(0)) =~= Seq::<u8>::empty());
            assert(out@ =~= mapping_table_encoding(table@.take(0)));
        }
        while i < n
            invariant
                n == table@.len(),
                i <= n,
                out@ == mapping_table_encoding(table@.take(i as int)),
            decreases n - i,
        {
            table[i].encode_into(&mut out);
            proof {
                assert(table@.take(i + 1).drop_last() =~= table@.take(i as int));
                assert(table@.take(i + 1).last() == table@[i as int]);
            }
            i = i + 1;
        }
        proof {
            assert(table@.take(n as int) =~= table@);
            lemma_mapping_table_encoding_len(table@);
        }
        self.append(out.as_slice())
    }

    /// Place a whole entry table at the end of the region and return the
    /// addresses of its first slot and of one past its last slot - the
    /// two entry table bounds the discovery header stores. The recovered
    /// element count, the bound difference divided by the slot size, is
    /// the number of slots placed.
    pub fn place_entry_table(&mut self, addrs: &[Addr]) -> (bounds: (Addr, Addr))
        requires
            old(self).well_formed(),
            old(self).end() + 4 * addrs@.len() <= u32::MAX,
        ensures
            final(self).well_formed(),
            final(self).spec_base() == old(self).spec_base(),
            final(self).contents() == old(self).contents() + entry_table_encoding(addrs@),
            bounds.0.0 == old(self).end(),
            bounds.1.0 == old(self).end() + 4 * addrs@.len(),
            bounds.0.0 <= bounds.1.0,
            (bounds.1.0 - bounds.0.0) % 4 == 0,
            (bounds.1.0 - bounds.0.0) / 4 == addrs@.len(),
    {
        let mut out: Vec<u8> = Vec::new();
        let n = addrs.len();
        let mut i: usize = 0;
        proof {
            assert(out@ =~= entry_table_encoding(addrs@.take(0)));
        }
        while i < n
            invariant
                n == addrs@.len(),
                i <= n,
                out@ == entry_table_encoding(addrs@.take(i as int)),
            decreases n - i,
        {
            push_le32(&mut out, addrs[i].0);
            proof {
                assert(addrs@.take(i + 1).drop_last() =~= addrs@.take(i as int));
                assert(addrs@.take(i + 1).last() == addrs@[i as int]);
            }
            i = i + 1;
        }
        proof {
            assert(addrs@.take(n as int) =~= addrs@);
            lemma_entry_table_encoding_len(addrs@);
        }
        let start = self.append(out.as_slice());
        let end = self.end_addr();
        (Addr(start), Addr(end))
    }

    /// Place the discovery header at the end of the region and return its
    /// address. Convention puts it within the first 256 bytes of the
    /// image, so the reader finds its magic words quickly.
    pub fn place_header(&mut self, header: &Header) -> (addr: u32)
        requires
            old(self).well_formed(),
            old(self).end() + HEADER_SIZE <= u32::MAX,
        ensures
            final(self).well_formed(),
            final(self).spec_base() == old(self).spec_base(),
            final(self).contents() == old(self).contents() + header.encoding(),
            addr == old(self).end(),
    {
        let enc = header.encode();
        proof {
            assert(header.encoding().len() == HEADER_SIZE);
        }
        self.append(enc.as_slice())
    }
}

/// The position of the first null byte at or after position `i`, if the
/// bytes hold one.
pub open spec fn nul_pos(bytes: Seq<u8>, i: int) -> Option<int>
    decreases bytes.len() - i,
{
    if i < 0 || i >= bytes.len() {
        None
    } else if bytes[i] == 0 {
        Some(i)
    } else {
        nul_pos(bytes, i + 1)
    }
}

/// Read back the null-terminated string stored at `offset`, as an
/// external reader following a string-valued entry does: the bytes up to
/// but not including the first null byte, or nothing if no null byte
/// follows before the end.
pub fn read_cstr(bytes: &[u8], offset: usize) -> (value: Option<Vec<u8>>)
    ensures
        match nul_pos(bytes@, offset as int) {
            Some(j) => value matches Some(s) && s@ == bytes@.subrange(offset as int, j),
            None => value is None,
        },
{
    let n = bytes.len();
    let mut end: usize = offset;
    while end < n && bytes[end] != 0
        invariant
            n == bytes@.len(),
            offset <= end,
            end <= n || end == offset,
            nul_pos(bytes@, offset as int) == nul_pos(bytes@, end as int),
        decreases n - end,
    {
        end = end + 1;
    }
    if end >= n {
        return None;
    }
    let mut out: Vec<u8> = Vec::new();
    let mut k: usize = offset;
    while k < end
        invariant
            offset <= k <= end,
            end < bytes@.len(),
            out@ == bytes@.subrange(offset as int, k as int),
        decreases end - k,
    {
        proof {
            assert(bytes@.subrange(offset as int, k + 1) =~= bytes@.subrange(
                offset as int,
                k as int,
            ).push(bytes@[k as int]));
        }
        out.push(bytes[k]);
        k = k + 1;
    }
    Some(out)
}

} // verus!
