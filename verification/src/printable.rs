//! The printable text form shared by every key and envelope type: a fixed
//! ASCII type prefix followed by the base-32 body of the raw bytes. Distinct
//! prefixes keep tokens of different types from ever being interchangeable.

use vstd::prelude::*;

verus! {

use crate::base32::{b32_dec, b32_enc, base32_decode, base32_encode};
use crate::errors::Error;
use vstd::string::StrSliceExecFns;
use vstd::string::StringSliceAdditionalSpecFns;

/// The characters of a sequence of ASCII bytes.
pub open spec fn ascii_chars(b: Seq<u8>) -> Seq<char> {
    Seq::new(b.len(), |i: int| b[i] as char)
}

/// The UTF-8 byte form of a printable token: the type prefix, then the
/// base-32 symbols of the payload.
pub open spec fn printable_bytes(prefix: Seq<u8>, payload: Seq<u8>) -> Seq<u8> {
    prefix + b32_enc(payload)
}

/// The payload a token's UTF-8 bytes stand for under a given prefix:
/// `None` when the token does not start with exactly that prefix, or when
/// the remainder is not a base-32 encoder output.
pub open spec fn printable_payload(prefix: Seq<u8>, t: Seq<u8>) -> Option<Seq<u8>> {
    if t.len() >= prefix.len() && t.subrange(0, prefix.len() as int) == prefix {
        b32_dec(t.skip(prefix.len() as int))
    } else {
        None
    }
}

/// The token starts with the prefix.
pub open spec fn has_prefix(prefix: Seq<u8>, t: Seq<u8>) -> bool {
    t.len() >= prefix.len() && t.subrange(0, prefix.len() as int) == prefix
}

/// Relies on `String::from_utf8`: bytes below 128 are single-byte UTF-8
/// scalars, so the call succeeds and the returned string has exactly these
/// bytes, character by character.
#[verifier::external_body]
fn ascii_to_string(v: Vec<u8>) -> (r: String)
    requires
        forall|i: int| 0 <= i < v@.len() ==> v@[i] < 128,
    ensures
        r@ == ascii_chars(v@),
{
    String::from_utf8(v).unwrap()
}

/// Every symbol byte the base-32 encoder produces is ASCII.
pub proof fn lemma_b32_enc_ascii(payload: Seq<u8>)
    ensures
        forall|i: int| 0 <= i < b32_enc(payload).len() ==> #[trigger] b32_enc(payload)[i] < 128,
{
    crate::base32::lemma_enc_fives_valid(payload);
    crate::base32::lemma_sym_round_trip();
}

/// The characters of an all-ASCII byte sequence encode in UTF-8 back to
/// exactly those bytes.
pub proof fn lemma_ascii_chars_bytes(b: Seq<u8>)
    requires
        forall|i: int| 0 <= i < b.len() ==> b[i] < 128,
    ensures
        vstd::utf8::is_ascii_chars(ascii_chars(b)),
        vstd::utf8::encode_utf8(ascii_chars(b)) == b,
{
    let c = ascii_chars(b);
    assert forall|i: int| 0 <= i < c.len() implies '\0' <= #[trigger] c[i] <= '\u{7f}' by {
        assert(c[i] == b[i] as char);
    }
    vstd::utf8::is_ascii_chars_encode_utf8(c);
    assert(vstd::utf8::encode_utf8(c) =~= b);
}

/// Encode `payload` as the printable token with the given ASCII prefix.
pub fn encode_printable(prefix: &[u8], payload: &[u8]) -> (r: String)
    requires
        forall|i: int| 0 <= i < prefix@.len() ==> prefix@[i] < 128,
    ensures
        r@ == ascii_chars(printable_bytes(prefix@, payload@)),
{
    let mut v: Vec<u8> = vstd::slice::slice_to_vec(prefix);
    let syms = base32_encode(payload);
    let mut i: usize = 0;
    while i < syms.len()
        invariant
            syms@ == b32_enc(payload@),
            i <= syms@.len(),
            v@ == prefix@ + syms@.subrange(0, i as int),
        decreases syms@.len() - i,
    {
        let b = syms[i];
        v.push(b);
        assert(v@ =~= prefix@ + syms@.subrange(0, i + 1));
        i = i + 1;
    }
    assert(v@ =~= printable_bytes(prefix@, payload@));
    proof {
        lemma_b32_enc_ascii(payload@);
    }
    ascii_to_string(v)
}

/// Decode a printable token with the given prefix back to its payload.
///
/// Fails with `InvalidPrintable` exactly when the token does not start with
/// the prefix, and with `InvalidBase32` exactly when it does but the
/// remainder is not a base-32 encoder output.
pub fn decode_printable(prefix: &[u8], s: &str) -> (r: Result<Vec<u8>, Error>)
    ensures
        r is Ok <==> printable_payload(prefix@, s.spec_bytes()) is Some,
        r matches Ok(v) ==> printable_payload(prefix@, s.spec_bytes()) == Some(v@),
        !has_prefix(prefix@, s.spec_bytes()) ==> r == Err::<Vec<u8>, Error>(
            Error::InvalidPrintable,
        ),
        has_prefix(prefix@, s.spec_bytes()) && r is Err ==> r == Err::<Vec<u8>, Error>(
            Error::InvalidBase32,
        ),
{
    let bytes: Vec<u8> = s.as_bytes_vec();
    let plen = prefix.len();
    if bytes.len() < plen {
        return Err(Error::InvalidPrintable);
    }
    let mut i: usize = 0;
    while i < plen
        invariant
            plen == prefix@.len(),
            bytes@ == s.spec_bytes(),
            plen <= bytes@.len(),
            i <= plen,
            forall|k: int| 0 <= k < i ==> bytes@[k] == prefix@[k],
        decreases plen - i,
    {
        let b = bytes[i];
        let p = *vstd::slice::slice_index_get(prefix, i);
        if b != p {
            assert(bytes@.subrange(0, plen as int)[i as int] != prefix@[i as int]);
            return Err(Error::InvalidPrintable);
        }
        i = i + 1;
    }
    assert(bytes@.subrange(0, plen as int) =~= prefix@);
    let body = vstd::slice::slice_subrange(bytes.as_slice(), plen, bytes.len());
    assert(body@ == s.spec_bytes().skip(plen as int));
    match base32_decode(body) {
        Some(payload) => Ok(payload),
        None => Err(Error::InvalidBase32),
    }
}

/// A printable token round-trips: the token built from any payload under an
/// ASCII prefix decodes, under the same prefix, back to exactly that
/// payload — and its UTF-8 bytes are the prefix followed by the base-32
/// symbols.
pub proof fn lemma_printable_round_trip(prefix: Seq<u8>, payload: Seq<u8>)
    requires
        forall|i: int| 0 <= i < prefix.len() ==> prefix[i] < 128,
    ensures
        vstd::utf8::encode_utf8(ascii_chars(printable_bytes(prefix, payload)))
            == printable_bytes(prefix, payload),
        printable_payload(prefix, printable_bytes(prefix, payload)) == Some(payload),
{
    let t = printable_bytes(prefix, payload);
    lemma_b32_enc_ascii(payload);
    assert(forall|i: int| 0 <= i < t.len() ==> t[i] < 128);
    lemma_ascii_chars_bytes(t);
    assert(t.subrange(0, prefix.len() as int) =~= prefix);
    assert(t.skip(prefix.len() as int) =~= b32_enc(payload));
    crate::base32::lemma_b32_round_trip(payload);
}

/// A token whose bytes carry one ASCII prefix never decodes under another:
/// if the two prefixes disagree at some position, decoding fails, with
/// `InvalidPrintable` owed by `decode_printable`.
pub proof fn lemma_cross_prefix_rejected(own: Seq<u8>, other: Seq<u8>, payload: Seq<u8>)
    requires
        forall|i: int| 0 <= i < own.len() ==> own[i] < 128,
        other.len() <= own.len(),
        exists|i: int| 0 <= i < other.len() && own[i] != other[i],
    ensures
        !has_prefix(other, printable_bytes(own, payload)),
        printable_payload(other, printable_bytes(own, payload)) is None,
{
    let t = printable_bytes(own, payload);
    let i = choose|i: int| 0 <= i < other.len() && own[i] != other[i];
    assert(t[i] == own[i]);
    if t.len() >= other.len() && t.subrange(0, other.len() as int) == other {
        assert(t.subrange(0, other.len() as int)[i] == t[i]);
        assert(false);
    }
}

} // verus!
