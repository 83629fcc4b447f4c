//! The password-based envelope for a private key: a versioned fixed-layout
//! container whose 32 key bytes are masked by XOR with a key stretched from
//! the password. Deliberately, there is no authentication tag: a wrong
//! password decrypts to a wrong key, not to an error.

use vstd::prelude::*;

verus! {

use crate::errors::Error;
use crate::keys::PrivateKey;
use crate::printable::{
    ascii_chars, decode_printable, encode_printable, has_prefix, printable_bytes,
    printable_payload,
};
use vstd::string::StringSliceAdditionalSpecFns;

/// The 32-byte symmetric key the memory-hard stretching function derives
/// from a password, a salt, and the cost exponent (the other two cost
/// sub-parameters are fixed constants). Names the output of
/// `scrypt::scrypt`, a deterministic function of these arguments alone.
pub uninterp spec fn stretched(password: Seq<u8>, salt: Seq<u8>, log_n: u8) -> Seq<u8>;

/// What the key-stretching wrapper hands back: the 32 derived bytes, or
/// the parameter error.
pub type KdfResult = Result<Vec<u8>, Error>;

/// Byte-wise XOR of two equally long sequences.
pub open spec fn xor_seq(a: Seq<u8>, b: Seq<u8>) -> Seq<u8> {
    Seq::new(a.len(), |i: int| a[i] ^ b[i])
}

/// The version byte this crate writes and accepts.
pub open spec fn envelope_version() -> u8 {
    1
}

/// A cost exponent small enough that the stretching function accepts it on
/// every platform; success is promised up to here.
pub open spec fn max_promised_cost() -> u8 {
    21
}

/// The printable type prefix of an encrypted private key.
pub open spec fn envelope_prefix() -> Seq<u8> {
    seq![0x65u8, 0x6eu8, 0x63u8, 0x30u8]
}

/// The printable prefix bytes of an encrypted private key: the ASCII text
/// `enc0`.
pub fn envelope_prefix_bytes() -> (r: Vec<u8>)
    ensures
        r@ == envelope_prefix(),
        forall|i: int| 0 <= i < r@.len() ==> r@[i] < 128,
{
    let mut v: Vec<u8> = Vec::new();
    v.push(0x65);
    v.push(0x6e);
    v.push(0x63);
    v.push(0x30);
    assert(v@ =~= envelope_prefix());
    v
}

/// Relies on `scrypt::scrypt` with the fixed sub-parameters (block size 8,
/// parallelism 1) and a 32-byte output: the result is a deterministic
/// function of password, salt and cost exponent, named `stretched`; per
/// `scrypt::Params::new`, every cost exponent up to `max_promised_cost()`
/// is accepted on 32-bit and 64-bit platforms alike.
#[verifier::external_body]
fn stretch(password: &[u8], salt: &[u8], log_n: u8) -> (r: KdfResult)
    ensures
        r is Ok ==> (r->Ok_0)@ == stretched(password@, salt@, log_n) && (r->Ok_0)@.len() == 32,
        r is Err ==> r == KdfResult::Err(Error::KdfParams),
        log_n <= max_promised_cost() ==> r is Ok,
{
    let params = match scrypt::Params::new(log_n, 8, 1, 32) {
        Ok(p) => p,
        Err(_) => {
            return Err(Error::KdfParams);
        },
    };
    let mut out = vec![0u8; 32];
    match scrypt::scrypt(password, salt, &params, &mut out) {
        Ok(()) => Ok(out),
        Err(_) => Err(Error::KdfParams),
    }
}

/// XOR two equally long byte slices.
fn xor_bytes(a: &[u8], b: &[u8]) -> (r: Vec<u8>)
    requires
        a@.len() == b@.len(),
    ensures
        r@ == xor_seq(a@, b@),
{
    let n = a.len();
    let mut out: Vec<u8> = Vec::new();
    let mut i: usize = 0;
    while i < n
        invariant
            n == a@.len(),
            n == b@.len(),
            i <= n,
            out@ == xor_seq(a@, b@).subrange(0, i as int),
        decreases n - i,
    {
        let x = *vstd::slice::slice_index_get(a, i);
        let y = *vstd::slice::slice_index_get(b, i);
        out.push(x ^ y);
        assert(out@ =~= xor_seq(a@, b@).subrange(0, i + 1));
        i = i + 1;
    }
    assert(out@ =~= xor_seq(a@, b@));
    out
}

/// XOR with the same mask twice gives the original sequence back.
pub proof fn lemma_xor_involution(mask: Seq<u8>, data: Seq<u8>)
    requires
        mask.len() == data.len(),
    ensures
        xor_seq(mask, xor_seq(mask, data)) == data,
{
    assert forall|i: int| 0 <= i < data.len() implies xor_seq(mask, xor_seq(mask, data))[i]
        == data[i] by {
        let m = mask[i];
        let d = data[i];
        assert(m ^ (m ^ d) == d) by (bit_vector);
    }
    assert(xor_seq(mask, xor_seq(mask, data)) =~= data);
}

/// A password-protected private key: an opaque byte envelope. Version 1 is
/// 50 bytes: version, cost exponent, 16 salt bytes, 32 masked key bytes.
#[derive(Debug, Clone, PartialEq, Eq, Hash)]
pub struct EncryptedSecretKey {
    bytes: Vec<u8>,
}

impl View for EncryptedSecretKey {
    type V = Seq<u8>;

    closed spec fn view(&self) -> Seq<u8> {
        self.bytes@
    }
}

impl EncryptedSecretKey {
    /// The raw envelope bytes, whatever length is currently stored.
    pub fn as_bytes(&self) -> (r: &[u8])
        ensures
            r@ == self@,
    {
        self.bytes.as_slice()
    }

    /// Mask `key` with a key stretched from `password`, under a fresh salt
    /// drawn from `csprng` and the given cost exponent.
    ///
    /// Succeeds for every cost exponent up to `max_promised_cost()`; the
    /// only failure is `KdfParams`, surfaced from the stretching
    /// primitive's parameter check. No authentication tag is added.
    pub fn encrypt<R: rand_core::CryptoRngCore + ?Sized>(
        key: &PrivateKey,
        password: &[u8],
        log_n: u8,
        csprng: &mut R,
    ) -> (r: Result<EncryptedSecretKey, Error>)
        requires
            key.wf(),
        ensures
            log_n <= max_promised_cost() ==> r is Ok,
            r is Err ==> r == Err::<EncryptedSecretKey, Error>(Error::KdfParams),
            r matches Ok(env) ==> env@.len() == 50 && env@[0] == envelope_version() && env@[1]
                == log_n && env@.subrange(18, 50) == xor_seq(
                stretched(password@, env@.subrange(2, 18), log_n),
                key@,
            ),
    {
        let salt = crate::keys::rng_fill(csprng, 16);
        let mask = match stretch(password, salt.as_slice(), log_n) {
            Ok(m) => m,
            Err(e) => {
                return Err(e);
            },
        };
        let masked = xor_bytes(mask.as_slice(), key.as_bytes());
        let mut bytes: Vec<u8> = Vec::new();
        bytes.push(1);
        bytes.push(log_n);
        let mut i: usize = 0;
        while i < salt.len()
            invariant
                salt@.len() == 16,
                i <= 16,
                bytes@ == seq![1u8, log_n] + salt@.subrange(0, i as int),
            decreases salt@.len() - i,
        {
            let b = salt[i];
            bytes.push(b);
            assert(bytes@ =~= seq![1u8, log_n] + salt@.subrange(0, i + 1));
            i = i + 1;
        }
        assert(bytes@ =~= seq![1u8, log_n] + salt@);
        let mut j: usize = 0;
        while j < masked.len()
            invariant
                masked@.len() == 32,
                j <= 32,
                bytes@ == seq![1u8, log_n] + salt@ + masked@.subrange(0, j as int),
            decreases masked@.len() - j,
        {
            let b = masked[j];
            bytes.push(b);
            assert(bytes@ =~= seq![1u8, log_n] + salt@ + masked@.subrange(0, j + 1));
            j = j + 1;
        }
        assert(bytes@ =~= seq![1u8, log_n] + salt@ + masked@);
        assert(bytes@.subrange(2, 18) =~= salt@);
        assert(bytes@.subrange(18, 50) =~= masked@);
        Ok(EncryptedSecretKey { bytes })
    }

    /// Unmask the stored key bytes with a key stretched from `password`.
    ///
    /// Rejects an envelope that is not exactly 50 bytes (`BadEnvelope`) or
    /// whose version byte is unrecognized (`UnsupportedVersion`); then
    /// succeeds for every stored cost exponent up to `max_promised_cost()`,
    /// failing only with `KdfParams` beyond it. A wrong password is not an
    /// error: it yields a different, wrong key.
    pub fn decrypt(&self, password: &[u8]) -> (r: Result<PrivateKey, Error>)
        ensures
            self@.len() != 50 ==> r == Err::<PrivateKey, Error>(Error::BadEnvelope),
            self@.len() == 50 && self@[0] != envelope_version() ==> r == Err::<PrivateKey, Error>(
                Error::UnsupportedVersion(self@[0]),
            ),
            self@.len() == 50 && self@[0] == envelope_version() && self@[1] <= max_promised_cost()
                ==> r is Ok,
            self@.len() == 50 && self@[0] == envelope_version() && r is Err ==> r == Err::<
                PrivateKey,
                Error,
            >(Error::KdfParams),
            r matches Ok(k) ==> self@.len() == 50 && self@[0] == envelope_version() && k@
                == xor_seq(
                stretched(password@, self@.subrange(2, 18), self@[1]),
                self@.subrange(18, 50),
            ) && k.wf(),
    {
        if self.bytes.len() != 50 {
            return Err(Error::BadEnvelope);
        }
        let version = self.bytes[0];
        if version != 1 {
            return Err(Error::UnsupportedVersion(version));
        }
        let log_n = self.bytes[1];
        let salt = vstd::slice::slice_subrange(self.bytes.as_slice(), 2, 18);
        let masked = vstd::slice::slice_subrange(self.bytes.as_slice(), 18, 50);
        let mask = match stretch(password, salt, log_n) {
            Ok(m) => m,
            Err(e) => {
                return Err(e);
            },
        };
        let recovered = xor_bytes(mask.as_slice(), masked);
        Ok(PrivateKey::from_bytes(recovered.as_slice()))
    }

    /// The printable token of this envelope: the `enc0` prefix, then the
    /// base-32 body of the stored bytes, whatever their length.
    pub fn printable(&self) -> (r: String)
        ensures
            r@ == ascii_chars(printable_bytes(envelope_prefix(), self@)),
    {
        let prefix = envelope_prefix_bytes();
        encode_printable(prefix.as_slice(), self.bytes.as_slice())
    }

    /// Decode a printable token as an envelope.
    ///
    /// Fails with `InvalidPrintable` when the token does not start with the
    /// `enc0` prefix and `InvalidBase32` when the body is not a base-32
    /// encoder output. The length is not checked here: only `decrypt`
    /// enforces the 50-byte version-1 layout.
    pub fn from_printable(s: &str) -> (r: Result<EncryptedSecretKey, Error>)
        ensures
            r is Ok <==> printable_payload(envelope_prefix(), s.spec_bytes()) is Some,
            r matches Ok(env) ==> printable_payload(envelope_prefix(), s.spec_bytes()) == Some(
                env@,
            ),
            !has_prefix(envelope_prefix(), s.spec_bytes()) ==> r == Err::<
                EncryptedSecretKey,
                Error,
            >(Error::InvalidPrintable),
            has_prefix(envelope_prefix(), s.spec_bytes()) && r is Err ==> r == Err::<
                EncryptedSecretKey,
                Error,
            >(Error::InvalidBase32),
    {
        let prefix = envelope_prefix_bytes();
        match decode_printable(prefix.as_slice(), s) {
            Ok(payload) => Ok(EncryptedSecretKey { bytes: payload }),
            Err(e) => Err(e),
        }
    }
}

/// Decrypting with the password that built the envelope recovers exactly
/// the original key: the unmasking XOR inverts the masking XOR, since both
/// use the key stretched from the same password, salt and cost.
pub proof fn lemma_envelope_round_trip(env: Seq<u8>, key: Seq<u8>, password: Seq<u8>, log_n: u8)
    requires
        env.len() == 50,
        env[1] == log_n,
        key.len() == 32,
        stretched(password, env.subrange(2, 18), log_n).len() == 32,
        env.subrange(18, 50) == xor_seq(stretched(password, env.subrange(2, 18), log_n), key),
    ensures
        xor_seq(stretched(password, env.subrange(2, 18), env[1]), env.subrange(18, 50)) == key,
{
    lemma_xor_involution(stretched(password, env.subrange(2, 18), log_n), key);
}

/// A wrong password is not detected, but is not silently right either:
/// whenever the key it stretches to differs from the right one, the
/// recovered key differs from the original. (Nothing rules out two
/// passwords stretching to the same key; for those, recovery coincides.)
pub proof fn lemma_wrong_password_differs(
    env: Seq<u8>,
    key: Seq<u8>,
    p1: Seq<u8>,
    p2: Seq<u8>,
    log_n: u8,
)
    requires
        env.len() == 50,
        env[1] == log_n,
        key.len() == 32,
        stretched(p1, env.subrange(2, 18), log_n).len() == 32,
        stretched(p2, env.subrange(2, 18), log_n).len() == 32,
        stretched(p1, env.subrange(2, 18), log_n) != stretched(p2, env.subrange(2, 18), log_n),
        env.subrange(18, 50) == xor_seq(stretched(p1, env.subrange(2, 18), log_n), key),
    ensures
        xor_seq(stretched(p2, env.subrange(2, 18), env[1]), env.subrange(18, 50)) != key,
{
    let salt = env.subrange(2, 18);
    let m1 = stretched(p1, salt, log_n);
    let m2 = stretched(p2, salt, log_n);
    let masked = env.subrange(18, 50);
    assert(exists|i: int| 0 <= i < 32 && m1[i] != m2[i]) by {
        if forall|i: int| 0 <= i < 32 ==> m1[i] == m2[i] {
            assert(m1 =~= m2);
        }
    }
    let i = choose|i: int| 0 <= i < 32 && m1[i] != m2[i];
    assert(masked[i] == m1[i] ^ key[i]);
    let a = m1[i];
    let b = m2[i];
    let k = key[i];
    assert(a != b ==> b ^ (a ^ k) != k) by (bit_vector);
    assert(xor_seq(m2, masked)[i] != key[i]);
}

} // verus!
