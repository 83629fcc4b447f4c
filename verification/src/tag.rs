use vstd::prelude::*;

verus! {

use crate::errors::Error;

/// The numeric type identifier of a tag record.
///
/// The namespace is open: every 16-bit value is a legal type, and the
/// mapping from type to payload semantics lives outside this crate.
#[derive(Debug, Clone, Copy, PartialEq, Eq, Hash, Structural)]
pub struct TagType(pub u16);

/// The 16-bit little-endian value stored in two consecutive bytes.
pub open spec fn u16_le(lo: u8, hi: u8) -> int {
    lo + 256 * hi
}

/// The declared total length of the record at the head of `b`.
pub open spec fn rec_len(b: Seq<u8>) -> int {
    u16_le(b[0], b[1])
}

/// The type identifier of the record at the head of `b`.
pub open spec fn rec_type(b: Seq<u8>) -> int {
    u16_le(b[2], b[3])
}

/// The payload of a complete record `b`: everything after the 4-byte header.
pub open spec fn rec_payload(b: Seq<u8>) -> Seq<u8> {
    b.subrange(4, b.len() as int)
}

/// A complete well-formed record: at least a header, within the range of the
/// 16-bit length field, and the length field equal to the byte length.
pub open spec fn rec_wf(b: Seq<u8>) -> bool {
    &&& 4 <= b.len() <= 0xFFFF
    &&& rec_len(b) == b.len()
}

/// The encoding of one record: little-endian length, little-endian type,
/// then the payload verbatim.
pub open spec fn rec_bytes(t: int, payload: Seq<u8>) -> Seq<u8> {
    seq![
        (((payload.len() + 4) as int % 256) as u8),
        (((payload.len() + 4) as int / 256) as u8),
        ((t % 256) as u8),
        ((t / 256) as u8),
    ] + payload
}

/// Encoding a record and reading it back yields the same type, the same
/// payload, and a total length of exactly payload length plus four.
pub proof fn lemma_tag_round_trip(t: u16, payload: Seq<u8>)
    requires
        payload.len() + 4 <= 0xFFFF,
    ensures
        rec_bytes(t as int, payload).len() == payload.len() + 4,
        rec_wf(rec_bytes(t as int, payload)),
        rec_type(rec_bytes(t as int, payload)) == t,
        rec_payload(rec_bytes(t as int, payload)) == payload,
{
    let b = rec_bytes(t as int, payload);
    let l = payload.len() + 4;
    assert(b[0] == ((l as int % 256) as u8));
    assert(b[1] == ((l as int / 256) as u8));
    assert(rec_len(b) == l);
    assert(rec_type(b) == t);
    assert(rec_payload(b) =~= payload);
}

/// One validated, self-delimiting binary record: a 4-byte header (length
/// and type, both little-endian) followed by an opaque payload.
#[derive(Debug, Clone, PartialEq, Eq, Hash)]
pub struct Tag {
    bytes: Vec<u8>,
}

impl View for Tag {
    type V = Seq<u8>;

    closed spec fn view(&self) -> Seq<u8> {
        self.bytes@
    }
}

impl Tag {
    /// The structural invariant every constructed `Tag` satisfies.
    pub open spec fn wf(&self) -> bool {
        rec_wf(self@)
    }

    /// Build a new record from a type and a payload.
    ///
    /// Fails with `TagTooLong` exactly when the record would not fit the
    /// 16-bit length field, that is when the payload exceeds 65531 bytes.
    pub fn new(tag_type: TagType, data: &[u8]) -> (r: Result<Tag, Error>)
        ensures
            r is Ok <==> data@.len() + 4 <= 0xFFFF,
            r matches Ok(tag) ==> tag@ == rec_bytes(tag_type.0 as int, data@) && tag.wf(),
            r is Err ==> r == Err::<Tag, Error>(Error::TagTooLong),
    {
        if data.len() > 0xFFFF - 4 {
            return Err(Error::TagTooLong);
        }
        let total: usize = data.len() + 4;
        let mut bytes: Vec<u8> = Vec::new();
        bytes.push((total % 256) as u8);
        bytes.push((total / 256) as u8);
        bytes.push((tag_type.0 % 256) as u8);
        bytes.push((tag_type.0 / 256) as u8);
        let mut i: usize = 0;
        while i < data.len()
            invariant
                i <= data@.len(),
                data@.len() + 4 <= 0xFFFF,
                bytes@.len() == 4 + i,
                bytes@ == rec_bytes(tag_type.0 as int, data@).subrange(0, 4 + i),
            decreases data@.len() - i,
        {
            let b = *vstd::slice::slice_index_get(data, i);
            bytes.push(b);
            assert(bytes@ =~= rec_bytes(tag_type.0 as int, data@).subrange(0, 4 + i + 1));
            i = i + 1;
        }
        assert(bytes@ =~= rec_bytes(tag_type.0 as int, data@));
        proof {
            lemma_tag_round_trip(tag_type.0, data@);
        }
        Ok(Tag { bytes })
    }

    /// Parse one record from the front of `input`.
    ///
    /// Succeeds exactly when `input` holds at least 4 bytes and its declared
    /// length is at least 4 and no more than `input`'s length; the returned
    /// record is then exactly the declared span, even if `input` is longer.
    /// Every failure is `EndOfInput`: the buffer is too short for the record
    /// it was expected or declared to hold.
    pub fn from_bytes(input: &[u8]) -> (r: Result<Tag, Error>)
        ensures
            r is Ok <==> input@.len() >= 4 && 4 <= rec_len(input@) <= input@.len(),
            r matches Ok(tag) ==> tag@ == input@.subrange(0, rec_len(input@)) && tag.wf(),
            r is Err ==> r == Err::<Tag, Error>(Error::EndOfInput),
    {
        if input.len() < 4 {
            return Err(Error::EndOfInput);
        }
        let lo = *vstd::slice::slice_index_get(input, 0);
        let hi = *vstd::slice::slice_index_get(input, 1);
        let l: usize = lo as usize + 256 * (hi as usize);
        if l < 4 || l > input.len() {
            return Err(Error::EndOfInput);
        }
        let bytes: Vec<u8> = vstd::slice::slice_to_vec(vstd::slice::slice_subrange(input, 0, l));
        assert(bytes@[0] == input@[0] && bytes@[1] == input@[1]);
        Ok(Tag { bytes })
    }

    /// Parse one record from the front of `input` without runtime checks.
    ///
    /// The caller must already know that `input` starts with a complete
    /// record; this is for re-reading data that was validated when written.
    pub fn from_bytes_unchecked(input: &[u8]) -> (tag: Tag)
        requires
            input@.len() >= 4,
            4 <= rec_len(input@) <= input@.len(),
        ensures
            tag@ == input@.subrange(0, rec_len(input@)),
            tag.wf(),
    {
        let lo = *vstd::slice::slice_index_get(input, 0);
        let hi = *vstd::slice::slice_index_get(input, 1);
        let l: usize = lo as usize + 256 * (hi as usize);
        let bytes: Vec<u8> = vstd::slice::slice_to_vec(vstd::slice::slice_subrange(input, 0, l));
        assert(bytes@[0] == input@[0] && bytes@[1] == input@[1]);
        Tag { bytes }
    }

    /// The record's type identifier.
    pub fn get_type(&self) -> (r: TagType)
        requires
            self.wf(),
        ensures
            r.0 == rec_type(self@),
    {
        let lo = self.bytes[2];
        let hi = self.bytes[3];
        TagType(lo as u16 + 256 * (hi as u16))
    }

    /// The payload: everything after the 4-byte header.
    pub fn data_bytes(&self) -> (r: &[u8])
        requires
            self.wf(),
        ensures
            r@ == rec_payload(self@),
    {
        vstd::slice::slice_subrange(self.bytes.as_slice(), 4, self.bytes.len())
    }

    /// The full encoded record, header included.
    pub fn as_bytes(&self) -> (r: &[u8])
        ensures
            r@ == self@,
    {
        self.bytes.as_slice()
    }
}

} // verus!

