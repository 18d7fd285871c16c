//! Entries - the typed records which the entry table points to.
//!
//! Every entry starts with a common header: the data type announcing the
//! record's concrete layout, and a 16-bit namespace tag. The two record
//! shapes produced here pair a 32-bit fact identifier with either a 32-bit
//! integer or the address of a null-terminated string in the image.

use vstd::prelude::*;

use crate::DataType;
use crate::data_type_code;
use crate::bytes::le16;
use crate::bytes::le32;
use crate::bytes::le16_at;
use crate::bytes::le32_at;
use crate::bytes::lemma_le16_at_depends;
use crate::bytes::lemma_le16_canonical;
use crate::bytes::lemma_le16_round_trip;
use crate::bytes::lemma_le32_at_depends;
use crate::bytes::lemma_le32_canonical;
use crate::bytes::lemma_le32_round_trip;
use crate::bytes::push_le16;
use crate::bytes::push_le32;
use crate::bytes::read_le16;
use crate::bytes::read_le32;
use crate::image::Image;

verus! {

/// All entries start with this common header.
#[derive(Clone, Copy, Debug, PartialEq, Eq, Structural)]
pub struct Common {
    pub data_type: DataType,
    pub tag: u16,
}

/// An entry which contains both an ID (e.g. `ID_RP_PROGRAM_NAME`) and the
/// address of a null-terminated string placed in the image.
#[derive(Clone, Copy, Debug, PartialEq, Eq, Structural)]
pub struct IdAndString {
    pub header: Common,
    pub id: u32,
    pub value: u32,
}

/// An entry which contains both an ID (e.g. `ID_RP_BINARY_END`) and an
/// integer.
#[derive(Clone, Copy, Debug, PartialEq, Eq, Structural)]
pub struct IdAndInt {
    pub header: Common,
    pub id: u32,
    pub value: u32,
}

/// A reference to one entry record: the 32-bit address of its first byte
/// in the image. Its only valid use is as an element of the entry table.
#[derive(Clone, Copy, Debug, PartialEq, Eq, Structural)]
pub struct Addr(pub u32);

/// The number of bytes either record occupies on the wire: a two-byte
/// data type, a two-byte tag, and two 32-bit fields.
pub const ENTRY_SIZE: usize = 12;

/// The wire bytes of an `IdAndString` record, in field order,
/// little-endian.
pub open spec fn id_and_string_encoding(e: IdAndString) -> Seq<u8> {
    le16(data_type_code(e.header.data_type)) + le16(e.header.tag) + le32(e.id) + le32(e.value)
}

/// The wire bytes of an `IdAndInt` record, in field order, little-endian.
pub open spec fn id_and_int_encoding(e: IdAndInt) -> Seq<u8> {
    le16(data_type_code(e.header.data_type)) + le16(e.header.tag) + le32(e.id) + le32(e.value)
}

/// The `IdAndString` record stored at position `i` of `bytes`, if the
/// bytes there carry that record shape's wire code.
pub open spec fn decoded_id_and_string(bytes: Seq<u8>, i: int) -> Option<IdAndString> {
    if 0 <= i && i + ENTRY_SIZE <= bytes.len() && le16_at(bytes, i) == data_type_code(
        DataType::IdAndString,
    ) {
        Some(
            IdAndString {
                header: Common { data_type: DataType::IdAndString, tag: le16_at(bytes, i + 2) },
                id: le32_at(bytes, i + 4),
                value: le32_at(bytes, i + 8),
            },
        )
    } else {
        None
    }
}

/// The `IdAndInt` record stored at position `i` of `bytes`, if the bytes
/// there carry that record shape's wire code.
pub open spec fn decoded_id_and_int(bytes: Seq<u8>, i: int) -> Option<IdAndInt> {
    if 0 <= i && i + ENTRY_SIZE <= bytes.len() && le16_at(bytes, i) == data_type_code(
        DataType::IdAndInt,
    ) {
        Some(
            IdAndInt {
                header: Common { data_type: DataType::IdAndInt, tag: le16_at(bytes, i + 2) },
                id: le32_at(bytes, i + 4),
                value: le32_at(bytes, i + 8),
            },
        )
    } else {
        None
    }
}

impl IdAndString {
    /// Append this record's wire bytes to `out`.
    pub fn encode_into(&self, out: &mut Vec<u8>)
        ensures
            final(out)@ == old(out)@ + id_and_string_encoding(*self),
    {
        push_le16(out, self.header.data_type.code());
        push_le16(out, self.header.tag);
        push_le32(out, self.id);
        push_le32(out, self.value);
        proof {
            assert(out@ =~= old(out)@ + id_and_string_encoding(*self));
        }
    }

    /// This record's wire bytes.
    pub fn encode(&self) -> (out: Vec<u8>)
        ensures
            out@ == id_and_string_encoding(*self),
    {
        let mut out: Vec<u8> = Vec::new();
        self.encode_into(&mut out);
        out
    }

    /// Read the record stored at `offset`, if the bytes there announce the
    /// `IdAndString` layout.
    pub fn decode(bytes: &[u8], offset: usize) -> (entry: Option<IdAndString>)
        ensures
            entry == decoded_id_and_string(bytes@, offset as int),
    {
        if bytes.len() < ENTRY_SIZE || offset > bytes.len() - ENTRY_SIZE {
            return None;
        }
        let code = read_le16(bytes, offset);
        if code != DataType::IdAndString.code() {
            return None;
        }
        let tag = read_le16(bytes, offset + 2);
        let id = read_le32(bytes, offset + 4);
        let value = read_le32(bytes, offset + 8);
        Some(
            IdAndString {
                header: Common { data_type: DataType::IdAndString, tag },
                id,
                value,
            },
        )
    }

    /// Place this record at the end of the image and get its address.
    pub fn addr(&self, image: &mut Image) -> (a: Addr)
        requires
            old(image).well_formed(),
            old(image).end() + ENTRY_SIZE <= u32::MAX,
        ensures
            final(image).well_formed(),
            final(image).spec_base() == old(image).spec_base(),
            final(image).contents() == old(image).contents() + id_and_string_encoding(*self),
            a.0 == old(image).end(),
    {
        let enc = self.encode();
        proof {
            assert(id_and_string_encoding(*self).len() == ENTRY_SIZE);
        }
        let location = image.append(enc.as_slice());
        Addr(location)
    }
}

impl IdAndInt {
    /// Append this record's wire bytes to `out`.
    pub fn encode_into(&self, out: &mut Vec<u8>)
        ensures
            final(out)@ == old(out)@ + id_and_int_encoding(*self),
    {
        push_le16(out, self.header.data_type.code());
        push_le16(out, self.header.tag);
        push_le32(out, self.id);
        push_le32(out, self.value);
        proof {
            assert(out@ =~= old(out)@ + id_and_int_encoding(*self));
        }
    }

    /// This record's wire bytes.
    pub fn encode(&self) -> (out: Vec<u8>)
        ensures
            out@ == id_and_int_encoding(*self),
    {
        let mut out: Vec<u8> = Vec::new();
        self.encode_into(&mut out);
        out
    }

    /// Read the record stored at `offset`, if the bytes there announce the
    /// `IdAndInt` layout.
    pub fn decode(bytes: &[u8], offset: usize) -> (entry: Option<IdAndInt>)
        ensures
            entry == decoded_id_and_int(bytes@, offset as int),
    {
        if bytes.len() < ENTRY_SIZE || offset > bytes.len() - ENTRY_SIZE {
            return None;
        }
        let code = read_le16(bytes, offset);
        if code != DataType::IdAndInt.code() {
            return None;
        }
        let tag = read_le16(bytes, offset + 2);
        let id = read_le32(bytes, offset + 4);
        let value = read_le32(bytes, offset + 8);
        Some(
            IdAndInt {
                header: Common { data_type: DataType::IdAndInt, tag },
                id,
                value,
            },
        )
    }

    /// Place this record at the end of the image and get its address.
    pub fn addr(&self, image: &mut Image) -> (a: Addr)
        requires
            old(image).well_formed(),
            old(image).end() + ENTRY_SIZE <= u32::MAX,
        ensures
            final(image).well_formed(),
            final(image).spec_base() == old(image).spec_base(),
            final(image).contents() == old(image).contents() + id_and_int_encoding(*self),
            a.0 == old(image).end(),
    {
        let enc = self.encode();
        proof {
            assert(id_and_int_encoding(*self).len() == ENTRY_SIZE);
        }
        let location = image.append(enc.as_slice());
        Addr(location)
    }
}

/// Decoding an encoded `IdAndString` record yields the record itself.
pub proof fn lemma_id_and_string_round_trip(e: IdAndString)
    requires
        e.header.data_type == DataType::IdAndString,
    ensures
        decoded_id_and_string(id_and_string_encoding(e), 0) == Some(e),
{
    let enc = id_and_string_encoding(e);
    let c = le16(data_type_code(e.header.data_type));
    let t = le16(e.header.tag);
    let idb = le32(e.id);
    let vb = le32(e.value);
    assert(enc[0] == c[0] && enc[1] == c[1]);
    lemma_le16_at_depends(enc, c, 0, 0);
    lemma_le16_round_trip(data_type_code(e.header.data_type));
    assert(enc[2] == t[0] && enc[3] == t[1]);
    lemma_le16_at_depends(enc, t, 2, 0);
    lemma_le16_round_trip(e.header.tag);
    assert(enc[4] == idb[0] && enc[5] == idb[1] && enc[6] == idb[2] && enc[7] == idb[3]);
    lemma_le32_at_depends(enc, idb, 4, 0);
    lemma_le32_round_trip(e.id);
    assert(enc[8] == vb[0] && enc[9] == vb[1] && enc[10] == vb[2] && enc[11] == vb[3]);
    lemma_le32_at_depends(enc, vb, 8, 0);
    lemma_le32_round_trip(e.value);
}

/// A decoded `IdAndString` record re-encodes to exactly the bytes it was
/// read from: the wire form of a record is unique.
pub proof fn lemma_id_and_string_canonical(bytes: Seq<u8>, i: int, e: IdAndString)
    requires
        decoded_id_and_string(bytes, i) == Some(e),
    ensures
        id_and_string_encoding(e) =~= bytes.subrange(i, i + ENTRY_SIZE as int),
{
    lemma_le16_canonical(bytes, i);
    lemma_le16_canonical(bytes, i + 2);
    lemma_le32_canonical(bytes, i + 4);
    lemma_le32_canonical(bytes, i + 8);
}

/// Decoding an encoded `IdAndInt` record yields the record itself.
pub proof fn lemma_id_and_int_round_trip(e: IdAndInt)
    requires
        e.header.data_type == DataType::IdAndInt,
    ensures
        decoded_id_and_int(id_and_int_encoding(e), 0) == Some(e),
{
    let enc = id_and_int_encoding(e);
    let c = le16(data_type_code(e.header.data_type));
    let t = le16(e.header.tag);
    let idb = le32(e.id);
    let vb = le32(e.value);
    assert(enc[0] == c[0] && enc[1] == c[1]);
    lemma_le16_at_depends(enc, c, 0, 0);
    lemma_le16_round_trip(data_type_code(e.header.data_type));
    assert(enc[2] == t[0] && enc[3] == t[1]);
    lemma_le16_at_depends(enc, t, 2, 0);
    lemma_le16_round_trip(e.header.tag);
    assert(enc[4] == idb[0] && enc[5] == idb[1] && enc[6] == idb[2] && enc[7] == idb[3]);
    lemma_le32_at_depends(enc, idb, 4, 0);
    lemma_le32_round_trip(e.id);
    assert(enc[8] == vb[0] && enc[9] == vb[1] && enc[10] == vb[2] && enc[11] == vb[3]);
    lemma_le32_at_depends(enc, vb, 8, 0);
    lemma_le32_round_trip(e.value);
}

/// A decoded `IdAndInt` record re-encodes to exactly the bytes it was
/// read from: the wire form of a record is unique.
pub proof fn lemma_id_and_int_canonical(bytes: Seq<u8>, i: int, e: IdAndInt)
    requires
        decoded_id_and_int(bytes, i) == Some(e),
    ensures
        id_and_int_encoding(e) =~= bytes.subrange(i, i + ENTRY_SIZE as int),
{
    lemma_le16_canonical(bytes, i);
    lemma_le16_canonical(bytes, i + 2);
    lemma_le32_canonical(bytes, i + 4);
    lemma_le32_canonical(bytes, i + 8);
}

} // verus!
