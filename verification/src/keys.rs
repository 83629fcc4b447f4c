//! Signing-key material: a validated public key and a private key with
//! constant-time equality, each with a printable text form under its own
//! type prefix.

use vstd::prelude::*;

verus! {

use crate::errors::Error;
use crate::printable::{
    ascii_chars, decode_printable, encode_printable, has_prefix, printable_bytes,
    printable_payload,
};
use vstd::string::StringSliceAdditionalSpecFns;

/// Whether 32 bytes decode to a valid point on the signing curve. Names the
/// success of `ed25519_dalek::VerifyingKey::from_bytes`, a property of the
/// bytes alone.
pub uninterp spec fn ed25519_valid(b: Seq<u8>) -> bool;

/// The public key derived from 32 bytes of private-key material. Names the
/// result of `ed25519_dalek::SigningKey::verifying_key`, a function of the
/// private bytes alone.
pub uninterp spec fn ed25519_public(sk: Seq<u8>) -> Seq<u8>;

/// The printable type prefix of a public key.
pub open spec fn public_prefix() -> Seq<u8> {
    seq![0x70u8, 0x75u8, 0x62u8, 0x30u8]
}

/// The printable type prefix of a private key.
pub open spec fn private_prefix() -> Seq<u8> {
    seq![0x73u8, 0x65u8, 0x63u8, 0x30u8]
}

/// The printable prefix bytes of a public key: the ASCII text `pub0`.
pub fn public_prefix_bytes() -> (r: Vec<u8>)
    ensures
        r@ == public_prefix(),
        forall|i: int| 0 <= i < r@.len() ==> r@[i] < 128,
{
    let mut v: Vec<u8> = Vec::new();
    v.push(0x70);
    v.push(0x75);
    v.push(0x62);
    v.push(0x30);
    assert(v@ =~= public_prefix());
    v
}

/// The printable prefix bytes of a private key: the ASCII text `sec0`.
pub fn private_prefix_bytes() -> (r: Vec<u8>)
    ensures
        r@ == private_prefix(),
        forall|i: int| 0 <= i < r@.len() ==> r@[i] < 128,
{
    let mut v: Vec<u8> = Vec::new();
    v.push(0x73);
    v.push(0x65);
    v.push(0x63);
    v.push(0x30);
    assert(v@ =~= private_prefix());
    v
}

/// Relies on `ed25519_dalek::VerifyingKey::from_bytes`: it succeeds exactly
/// when the 32 bytes decompress to a curve point, a property of the bytes
/// alone, here named `ed25519_valid`.
#[verifier::external_body]
fn curve_validate(b: &[u8]) -> (r: bool)
    requires
        b@.len() == 32,
    ensures
        r == ed25519_valid(b@),
{
    let arr: &[u8; 32] = b.try_into().unwrap();
    ed25519_dalek::VerifyingKey::from_bytes(arr).is_ok()
}

/// Relies on `ed25519_dalek::SigningKey::verifying_key`: the verifying key
/// is a deterministic function of the signing-key bytes, named
/// `ed25519_public`; it is 32 bytes, and it is the compressed form of a
/// curve point, so `VerifyingKey::from_bytes` accepts it again.
#[verifier::external_body]
fn curve_derive_public(b: &[u8]) -> (r: Vec<u8>)
    requires
        b@.len() == 32,
    ensures
        r@ == ed25519_public(b@),
        r@.len() == 32,
        ed25519_valid(r@),
{
    let arr: &[u8; 32] = b.try_into().unwrap();
    ed25519_dalek::SigningKey::from_bytes(arr).verifying_key().to_bytes().to_vec()
}

/// Relies on `rand_core::RngCore::fill_bytes` to fill a fresh buffer from
/// the caller-supplied randomness source; nothing is promised of the drawn
/// values beyond the length.
#[verifier::external_body]
pub(crate) fn rng_fill<R: rand_core::CryptoRngCore + ?Sized>(csprng: &mut R, n: usize) -> (r: Vec<
    u8,
>)
    ensures
        r@.len() == n,
{
    let mut buf = vec![0u8; n];
    csprng.fill_bytes(&mut buf);
    buf
}

/// A public signing key: 32 bytes that were seen, at some construction
/// point, to decode to a valid curve point. Totally ordered by its bytes,
/// and hashable.
#[derive(Debug, Clone, PartialEq, Eq, PartialOrd, Ord, Hash)]
pub struct PublicKey {
    bytes: Vec<u8>,
}

impl View for PublicKey {
    type V = Seq<u8>;

    closed spec fn view(&self) -> Seq<u8> {
        self.bytes@
    }
}

impl PublicKey {
    /// The structural invariant every constructed `PublicKey` satisfies.
    pub open spec fn wf(&self) -> bool {
        self@.len() == 32
    }

    /// The raw key bytes.
    pub fn as_bytes(&self) -> (r: &[u8])
        ensures
            r@ == self@,
    {
        self.bytes.as_slice()
    }

    /// Validate 32 bytes as a public key.
    ///
    /// Succeeds exactly when the bytes decode to a valid point on the
    /// signing curve; otherwise fails with `InvalidKey`.
    pub fn from_bytes(b: &[u8]) -> (r: Result<PublicKey, Error>)
        requires
            b@.len() == 32,
        ensures
            r is Ok <==> ed25519_valid(b@),
            r matches Ok(k) ==> k@ == b@ && k.wf(),
            r is Err ==> r == Err::<PublicKey, Error>(Error::InvalidKey),
    {
        if curve_validate(b) {
            Ok(Self::from_bytes_unchecked(b))
        } else {
            Err(Error::InvalidKey)
        }
    }

    /// Adopt 32 bytes as a public key without re-validating them.
    ///
    /// For re-reading previously validated storage: the caller owns the
    /// precondition that the bytes are a valid curve point, and any use of
    /// an invalid key as curve material downstream is undefined.
    pub fn from_bytes_unchecked(b: &[u8]) -> (k: PublicKey)
        requires
            b@.len() == 32,
            ed25519_valid(b@),
        ensures
            k@ == b@,
            k.wf(),
    {
        PublicKey { bytes: vstd::slice::slice_to_vec(b) }
    }

    /// The printable token of this key: the `pub0` prefix, then the
    /// base-32 body.
    pub fn printable(&self) -> (r: String)
        requires
            self.wf(),
        ensures
            r@ == ascii_chars(printable_bytes(public_prefix(), self@)),
    {
        let prefix = public_prefix_bytes();
        encode_printable(prefix.as_slice(), self.bytes.as_slice())
    }

    /// Decode a printable token as a public key.
    ///
    /// Fails with `InvalidPrintable` when the token does not start with the
    /// `pub0` prefix, `InvalidBase32` when the body is not a base-32
    /// encoder output, `KeyLength` when the decoded payload is not 32
    /// bytes, and `InvalidKey` when the payload is no valid curve point.
    pub fn from_printable(s: &str) -> (r: Result<PublicKey, Error>)
        ensures
            r is Ok <==> (printable_payload(public_prefix(), s.spec_bytes()) matches Some(d)
                && d.len() == 32 && ed25519_valid(d)),
            r matches Ok(k) ==> printable_payload(public_prefix(), s.spec_bytes()) == Some(k@)
                && k.wf(),
            !has_prefix(public_prefix(), s.spec_bytes()) ==> r == Err::<PublicKey, Error>(
                Error::InvalidPrintable,
            ),
            has_prefix(public_prefix(), s.spec_bytes()) && printable_payload(
                public_prefix(),
                s.spec_bytes(),
            ) is None ==> r == Err::<PublicKey, Error>(Error::InvalidBase32),
            printable_payload(public_prefix(), s.spec_bytes()) matches Some(d) && d.len() != 32
                ==> r == Err::<PublicKey, Error>(Error::KeyLength),
            printable_payload(public_prefix(), s.spec_bytes()) matches Some(d) && d.len() == 32
                && !ed25519_valid(d) ==> r == Err::<PublicKey, Error>(Error::InvalidKey),
    {
        let prefix = public_prefix_bytes();
        let payload = match decode_printable(prefix.as_slice(), s) {
            Ok(p) => p,
            Err(e) => {
                return Err(e);
            },
        };
        if payload.len() != 32 {
            return Err(Error::KeyLength);
        }
        Self::from_bytes(payload.as_slice())
    }
}

/// A private signing key: 32 raw bytes; every bit pattern is valid key
/// material. Equality comparison runs in constant time.
#[derive(Debug, Clone, Hash)]
pub struct PrivateKey {
    bytes: Vec<u8>,
}

impl View for PrivateKey {
    type V = Seq<u8>;

    closed spec fn view(&self) -> Seq<u8> {
        self.bytes@
    }
}

impl PrivateKey {
    /// The structural invariant every constructed `PrivateKey` satisfies.
    pub open spec fn wf(&self) -> bool {
        self@.len() == 32
    }

    /// The raw key bytes.
    pub fn as_bytes(&self) -> (r: &[u8])
        ensures
            r@ == self@,
    {
        self.bytes.as_slice()
    }

    /// Adopt 32 bytes as a private key; any value is acceptable material.
    pub fn from_bytes(b: &[u8]) -> (k: PrivateKey)
        requires
            b@.len() == 32,
        ensures
            k@ == b@,
            k.wf(),
    {
        PrivateKey { bytes: vstd::slice::slice_to_vec(b) }
    }

    /// Draw a fresh private key from a caller-supplied secure randomness
    /// source; nothing ambient is read.
    pub fn generate<R: rand_core::CryptoRngCore + ?Sized>(csprng: &mut R) -> (k: PrivateKey)
        ensures
            k.wf(),
    {
        let bytes = rng_fill(csprng, 32);
        PrivateKey { bytes }
    }

    /// The public key this private key derives, deterministically.
    pub fn public(&self) -> (k: PublicKey)
        requires
            self.wf(),
        ensures
            k@ == ed25519_public(self@),
            k.wf(),
    {
        let b = curve_derive_public(self.bytes.as_slice());
        PublicKey::from_bytes_unchecked(b.as_slice())
    }

    /// The printable token of this key: the `sec0` prefix, then the
    /// base-32 body.
    pub fn printable(&self) -> (r: String)
        requires
            self.wf(),
        ensures
            r@ == ascii_chars(printable_bytes(private_prefix(), self@)),
    {
        let prefix = private_prefix_bytes();
        encode_printable(prefix.as_slice(), self.bytes.as_slice())
    }

    /// Decode a printable token as a private key.
    ///
    /// Fails with `InvalidPrintable` when the token does not start with the
    /// `sec0` prefix, `InvalidBase32` when the body is not a base-32
    /// encoder output, and `KeyLength` when the decoded payload is not 32
    /// bytes. No validity check applies: any 32 bytes are key material.
    pub fn from_printable(s: &str) -> (r: Result<PrivateKey, Error>)
        ensures
            r is Ok <==> (printable_payload(private_prefix(), s.spec_bytes()) matches Some(d)
                && d.len() == 32),
            r matches Ok(k) ==> printable_payload(private_prefix(), s.spec_bytes()) == Some(k@)
                && k.wf(),
            !has_prefix(private_prefix(), s.spec_bytes()) ==> r == Err::<PrivateKey, Error>(
                Error::InvalidPrintable,
            ),
            has_prefix(private_prefix(), s.spec_bytes()) && printable_payload(
                private_prefix(),
                s.spec_bytes(),
            ) is None ==> r == Err::<PrivateKey, Error>(Error::InvalidBase32),
            printable_payload(private_prefix(), s.spec_bytes()) matches Some(d) && d.len() != 32
                ==> r == Err::<PrivateKey, Error>(Error::KeyLength),
    {
        let prefix = private_prefix_bytes();
        let payload = match decode_printable(prefix.as_slice(), s) {
            Ok(p) => p,
            Err(e) => {
                return Err(e);
            },
        };
        if payload.len() != 32 {
            return Err(Error::KeyLength);
        }
        Ok(Self::from_bytes(payload.as_slice()))
    }
}

impl PartialEq for PrivateKey {
    /// Constant-time comparison: the running time does not depend on where
    /// or whether the two keys differ, only on their (fixed) length.
    fn eq(&self, other: &PrivateKey) -> (r: bool) {
        let n = self.bytes.len();
        let m = other.bytes.len();
        if n != m {
            return false;
        }
        let mut diff: u8 = 0;
        let mut i: usize = 0;
        while i < n
            invariant
                n == self@.len(),
                n == other@.len(),
                i <= n,
                diff == 0 <==> (forall|k: int| 0 <= k < i ==> self@[k] == other@[k]),
            decreases n - i,
        {
            let a = self.bytes[i];
            let b = other.bytes[i];
            let ghost diff_old = diff;
            diff = diff | (a ^ b);
            proof {
                assert((diff_old | (a ^ b)) == 0 <==> diff_old == 0 && a == b) by (bit_vector);
            }
            i = i + 1;
        }
        proof {
            if diff == 0 {
                assert(self@ =~= other@);
            }
        }
        diff == 0
    }
}

impl vstd::std_specs::cmp::PartialEqSpecImpl for PrivateKey {
    open spec fn obeys_eq_spec() -> bool {
        true
    }

    open spec fn eq_spec(&self, other: &PrivateKey) -> bool {
        self@ == other@
    }
}

/// A public key's printable token decodes back to an equal key: the token's
/// UTF-8 bytes are the prefix plus the base-32 body, and under the same
/// prefix they decode to exactly the original 32 valid bytes.
pub proof fn lemma_public_printable_round_trip(b: Seq<u8>)
    requires
        b.len() == 32,
        ed25519_valid(b),
    ensures
        vstd::utf8::encode_utf8(ascii_chars(printable_bytes(public_prefix(), b)))
            == printable_bytes(public_prefix(), b),
        printable_payload(public_prefix(), printable_bytes(public_prefix(), b)) == Some(b),
{
    crate::printable::lemma_printable_round_trip(public_prefix(), b);
}

/// A private key's printable token decodes back to an equal key.
pub proof fn lemma_private_printable_round_trip(b: Seq<u8>)
    requires
        b.len() == 32,
    ensures
        vstd::utf8::encode_utf8(ascii_chars(printable_bytes(private_prefix(), b)))
            == printable_bytes(private_prefix(), b),
        printable_payload(private_prefix(), printable_bytes(private_prefix(), b)) == Some(b),
{
    crate::printable::lemma_printable_round_trip(private_prefix(), b);
}

/// A private-key token never decodes through the public-key decoder: the
/// type prefixes differ in their first byte, so the public-key side owes
/// `InvalidPrintable` for every such token.
pub proof fn lemma_private_token_rejected_as_public(b: Seq<u8>)
    ensures
        !has_prefix(public_prefix(), printable_bytes(private_prefix(), b)),
        printable_payload(public_prefix(), printable_bytes(private_prefix(), b)) is None,
{
    assert(private_prefix()[0] != public_prefix()[0]);
    crate::printable::lemma_cross_prefix_rejected(private_prefix(), public_prefix(), b);
}

} // verus!
