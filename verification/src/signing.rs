//! Ed25519 detached signatures for erasure reports.
//!
//! Compliance use cases need a tamper-evident artifact: proof that the report
//! you are holding is byte-for-byte what DBAN produced at the end of the
//! session. We sign the exact bytes of the report file with an Ed25519 key and
//! write a detached `.sig` sidecar carrying the public key and signature.
//!
//! The key is **ephemeral**: generated fresh per session from OS entropy. That
//! is deliberate: it proves the report has not been altered since it was
//! written (anyone can verify with the embedded public key), without DBAN
//! having to manage long-lived secrets on a live boot medium. For provenance
//! tying reports to a known signer, export the public key out-of-band.
//!
//! Verification (any Ed25519 tool, e.g. with the bundled public key):
//! the signature covers the raw bytes of `signed_file`; recompute and compare.

use ed25519_dalek::{Signature, Signer, SigningKey, VerifyingKey};
use vstd::prelude::*;

use crate::prng::os_entropy;
use crate::text::{chars_of, hex2_lower, push_hex2_lower, string_of};

verus! {

/// The Ed25519 public key of a 32-byte secret seed.
pub uninterp spec fn ed25519_public_key(seed: Seq<u8>) -> Seq<u8>;

/// The Ed25519 signature of a message under a 32-byte secret seed.
pub uninterp spec fn ed25519_signature(seed: Seq<u8>, message: Seq<u8>) -> Seq<u8>;

/// Whether strict Ed25519 verification accepts a signature of a message under a
/// public key; it accepts none under bytes that are no public key.
pub uninterp spec fn ed25519_accepts(
    public_key: Seq<u8>,
    signature: Seq<u8>,
    message: Seq<u8>,
) -> bool;

/// The encoding of the neutral point. Strict verification rejects a signature
/// whose first half is this point; it comes up with a probability of about
/// one in 2^252.
pub open spec fn neutral_point() -> Seq<u8> {
    Seq::new(32, |i: int| if i == 0 { 1u8 } else { 0u8 })
}

/// `ed25519_dalek::SigningKey::from_bytes` and its `verifying_key`: the public
/// key depends on the seed alone.
#[verifier::external_body]
fn derive_public_key(seed: &[u8; 32]) -> (key: [u8; 32])
    ensures
        key@ == ed25519_public_key(seed@),
{
    SigningKey::from_bytes(seed).verifying_key().to_bytes()
}

/// `ed25519_dalek::SigningKey::sign`, which is deterministic: the signature
/// depends on the seed and the message alone. Strict verification under the
/// seed's public key accepts it, unless its point is the neutral one.
#[verifier::external_body]
fn sign_message(seed: &[u8; 32], message: &[u8]) -> (signature: [u8; 64])
    ensures
        signature@ == ed25519_signature(seed@, message@),
        signature@.take(32) != neutral_point() ==> ed25519_accepts(
            ed25519_public_key(seed@),
            signature@,
            message@,
        ),
{
    SigningKey::from_bytes(seed).sign(message).to_bytes()
}

/// `ed25519_dalek::VerifyingKey::from_bytes` and `verify_strict`: the verdict
/// depends on the key, the signature and the message alone.
#[verifier::external_body]
fn strictly_verifies(key: &[u8; 32], signature: &[u8; 64], message: &[u8]) -> (ok: bool)
    ensures
        ok == ed25519_accepts(key@, signature@, message@),
{
    match VerifyingKey::from_bytes(key) {
        Ok(k) => k.verify_strict(message, &Signature::from_bytes(signature)).is_ok(),
        Err(_) => false,
    }
}

/// Bytes in lower-case hexadecimal.
pub open spec fn hex_text(bytes: Seq<u8>) -> Seq<char>
    decreases bytes.len(),
{
    if bytes.len() == 0 {
        Seq::empty()
    } else {
        hex_text(bytes.drop_last()) + hex2_lower(bytes.last())
    }
}

/// Whether a character is a hexadecimal digit of either case.
pub open spec fn is_hex_digit(c: char) -> bool {
    '0' <= c <= '9' || 'a' <= c <= 'f' || 'A' <= c <= 'F'
}

/// The value of a hexadecimal digit.
pub open spec fn hex_value(c: char) -> int {
    if c <= '9' {
        c as int - 48
    } else if c <= 'F' {
        c as int - 55
    } else {
        c as int - 87
    }
}

/// The bytes that a text spells in hexadecimal of either case, if it is an even
/// number of hexadecimal digits.
pub open spec fn unhex_bytes(s: Seq<char>) -> Option<Seq<u8>> {
    if s.len() % 2 == 0 && (forall|i: int| 0 <= i < s.len() ==> is_hex_digit(#[trigger] s[i])) {
        Some(
            Seq::new(
                s.len() / 2,
                |i: int| (16 * hex_value(s[2 * i]) + hex_value(s[2 * i + 1])) as u8,
            ),
        )
    } else {
        None
    }
}

/// Lower-case hex encoding.
pub fn hex(bytes: &[u8]) -> (s: String)
    ensures
        s@ == hex_text(bytes@),
{
    let mut s = String::new();
    let mut i: usize = 0;
    while i < bytes.len()
        invariant
            i <= bytes@.len(),
            s@ == hex_text(bytes@.take(i as int)),
        decreases bytes@.len() - i,
    {
        push_hex2_lower(&mut s, bytes[i]);
        proof {
            let next = bytes@.take(i + 1);
            assert(next.drop_last() =~= bytes@.take(i as int));
            assert(next.last() == bytes@[i as int]);
        }
        i += 1;
    }
    assert(bytes@.take(i as int) =~= bytes@);
    s
}

/// The value of a hexadecimal digit, if it is one.
fn nib(c: char) -> (v: Option<u8>)
    ensures
        v is Some <==> is_hex_digit(c),
        v matches Some(d) ==> d == hex_value(c) && d < 16,
{
    if '0' <= c && c <= '9' {
        Some(c as u8 - 48)
    } else if 'a' <= c && c <= 'f' {
        Some(c as u8 - 87)
    } else if 'A' <= c && c <= 'F' {
        Some(c as u8 - 55)
    } else {
        None
    }
}

/// The bytes of `out`, if any.
pub open spec fn optional_view(out: Option<Vec<u8>>) -> Option<Seq<u8>> {
    match out {
        Some(v) => Some(v@),
        None => None,
    }
}

/// Decode a lower/upper-case hex string, or `None` if malformed.
pub fn unhex(s: &str) -> (r: Option<Vec<u8>>)
    ensures
        optional_view(r) == unhex_bytes(s@),
{
    let cs = chars_of(s);
    if cs.len() % 2 != 0 {
        return None;
    }
    let mut out: Vec<u8> = Vec::new();
    let mut i: usize = 0;
    while i < cs.len()
        invariant
            cs@ == s@,
            cs@.len() % 2 == 0,
            i <= cs@.len(),
            i % 2 == 0,
            out@.len() == i / 2,
            forall|j: int| 0 <= j < i ==> is_hex_digit(#[trigger] s@[j]),
            forall|j: int|
                0 <= j < out@.len() ==> #[trigger] out@[j] == (16 * hex_value(s@[2 * j]) + hex_value(
                    s@[2 * j + 1],
                )) as u8,
        decreases cs@.len() - i,
    {
        match (nib(cs[i]), nib(cs[i + 1])) {
            (Some(hi), Some(lo)) => {
                out.push(16 * hi + lo);
            },
            (a, b) => {
                assert(!is_hex_digit(s@[i as int]) || !is_hex_digit(s@[i + 1]));
                return None;
            },
        }
        i += 2;
    }
    assert(out@ =~= unhex_bytes(s@)->0);
    Some(out)
}

proof fn lemma_hex_text(bytes: Seq<u8>)
    ensures
        hex_text(bytes).len() == 2 * bytes.len(),
        forall|i: int|
            0 <= i < bytes.len() ==> hex_text(bytes)[2 * i] == hex2_lower(#[trigger] bytes[i])[0]
                && hex_text(bytes)[2 * i + 1] == hex2_lower(bytes[i])[1],
    decreases bytes.len(),
{
    if bytes.len() > 0 {
        lemma_hex_text(bytes.drop_last());
        assert forall|i: int| 0 <= i < bytes.len() implies hex_text(bytes)[2 * i] == hex2_lower(
            #[trigger] bytes[i],
        )[0] && hex_text(bytes)[2 * i + 1] == hex2_lower(bytes[i])[1] by {
            if i < bytes.len() - 1 {
                assert(bytes.drop_last()[i] == bytes[i]);
            }
        }
    }
}

/// Decoding what was encoded gives the bytes back.
pub proof fn law_unhex_undoes_hex(bytes: Seq<u8>)
    ensures
        unhex_bytes(hex_text(bytes)) == Some(bytes),
{
    let t = hex_text(bytes);
    lemma_hex_text(bytes);
    assert forall|i: int| 0 <= i < t.len() implies is_hex_digit(#[trigger] t[i]) by {
        let k = i / 2;
        let b = bytes[k];
        assert(i == 2 * k || i == 2 * k + 1);
    }
    assert forall|k: int| 0 <= k < bytes.len() implies unhex_bytes(t)->0[k] == #[trigger] bytes[k] by {
    }
    assert(unhex_bytes(t)->0 =~= bytes);
}

/// A text with its upper-case hexadecimal digits as lower case.
pub open spec fn lower_hex(s: Seq<char>) -> Seq<char> {
    s.map_values(
        |c: char|
            if 'A' <= c <= 'F' {
                (c as u8 + 32) as u8 as char
            } else {
                c
            },
    )
}

/// Encoding what was decoded gives the text back, in lower case.
pub proof fn law_hex_undoes_unhex(s: Seq<char>)
    ensures
        unhex_bytes(s) matches Some(bytes) ==> hex_text(bytes) == lower_hex(s),
{
    if unhex_bytes(s) is Some {
        let bytes = unhex_bytes(s)->0;
        let t = hex_text(bytes);
        lemma_hex_text(bytes);
        assert forall|i: int| 0 <= i < s.len() implies t[i] == lower_hex(s)[i] by {
            let k = i / 2;
            let hi = s[2 * k];
            let lo = s[2 * k + 1];
            assert(is_hex_digit(hi) && is_hex_digit(lo));
            assert(bytes[k] == 16 * hex_value(hi) + hex_value(lo));
            assert(bytes[k] / 16 == hex_value(hi) && bytes[k] % 16 == hex_value(lo));
            assert(i == 2 * k || i == 2 * k + 1);
        }
        assert(t =~= lower_hex(s));
    }
}

/// A detached signature over a report file, as it goes to the `.sig` sidecar.
#[derive(Debug)]
pub struct ReportSignature {
    /// Always `"Ed25519"`.
    pub algorithm: &'static str,
    /// Name of the file these bytes were signed from.
    pub signed_file: String,
    /// 32-byte Ed25519 public key, hex-encoded (64 chars).
    pub public_key: String,
    /// 64-byte Ed25519 signature, hex-encoded (128 chars).
    pub signature: String,
    /// Human note on how to verify.
    pub note: &'static str,
}

/// A [`ReportSignature`] by its texts.
pub struct SignatureModel {
    pub algorithm: Seq<char>,
    pub signed_file: Seq<char>,
    pub public_key: Seq<char>,
    pub signature: Seq<char>,
    pub note: Seq<char>,
}

impl View for ReportSignature {
    type V = SignatureModel;

    open spec fn view(&self) -> SignatureModel {
        SignatureModel {
            algorithm: self.algorithm@,
            signed_file: self.signed_file@,
            public_key: self.public_key@,
            signature: self.signature@,
            note: self.note@,
        }
    }
}

/// The record of `message`, the contents of `signed_file`, signed under `seed`.
pub open spec fn signed_record(
    signed_file: Seq<char>,
    message: Seq<u8>,
    seed: Seq<u8>,
) -> SignatureModel {
    SignatureModel {
        algorithm: "Ed25519"@,
        signed_file,
        public_key: hex_text(ed25519_public_key(seed)),
        signature: hex_text(ed25519_signature(seed, message)),
        note: "Ed25519 detached signature over the raw bytes of signed_file. \
                   Verify with the public_key above."@,
    }
}

/// Whether a record vouches for `message`: its key and signature are 32 and 64
/// bytes in hexadecimal, and strict verification accepts them.
pub open spec fn record_verifies(r: SignatureModel, message: Seq<u8>) -> bool {
    match (unhex_bytes(r.public_key), unhex_bytes(r.signature)) {
        (Some(key), Some(signature)) => key.len() == 32 && signature.len() == 64
            && ed25519_accepts(key, signature, message),
        _ => false,
    }
}

fn to_array_32(v: &Vec<u8>) -> (a: [u8; 32])
    requires
        v@.len() == 32,
    ensures
        a@ == v@,
{
    let mut a: [u8; 32] = [0; 32];
    let mut i: usize = 0;
    while i < 32
        invariant
            i <= 32,
            v@.len() == 32,
            forall|j: int| 0 <= j < i ==> a@[j] == v@[j],
        decreases 32 - i,
    {
        a[i] = v[i];
        i += 1;
    }
    assert(a@ =~= v@);
    a
}

fn to_array_64(v: &Vec<u8>) -> (a: [u8; 64])
    requires
        v@.len() == 64,
    ensures
        a@ == v@,
{
    let mut a: [u8; 64] = [0; 64];
    let mut i: usize = 0;
    while i < 64
        invariant
            i <= 64,
            v@.len() == 64,
            forall|j: int| 0 <= j < i ==> a@[j] == v@[j],
        decreases 64 - i,
    {
        a[i] = v[i];
        i += 1;
    }
    assert(a@ =~= v@);
    a
}

impl ReportSignature {
    /// Sign `bytes` (the exact contents of `signed_file`) with the key of
    /// `seed` and return the detached signature record. It verifies, unless the
    /// point of the signature is the neutral one.
    pub fn create_with_seed(signed_file: &str, bytes: &[u8], seed: &[u8; 32]) -> (r: Self)
        ensures
            r@ == signed_record(signed_file@, bytes@, seed@),
            r@.public_key.len() == 64,
            r@.signature.len() == 128,
            ed25519_signature(seed@, bytes@).take(32) != neutral_point() ==> record_verifies(
                r@,
                bytes@,
            ),
    {
        let key = derive_public_key(seed);
        let signature = sign_message(seed, bytes);
        proof {
            lemma_hex_text(key@);
            lemma_hex_text(signature@);
            law_unhex_undoes_hex(key@);
            law_unhex_undoes_hex(signature@);
        }
        ReportSignature {
            algorithm: "Ed25519",
            signed_file: signed_file.to_owned(),
            public_key: hex(key.as_slice()),
            signature: hex(signature.as_slice()),
            note: "Ed25519 detached signature over the raw bytes of signed_file. \
                   Verify with the public_key above.",
        }
    }

    /// Sign `bytes` (the exact contents of `signed_file`) with a fresh
    /// ephemeral key and return the detached signature record; `None` where the
    /// operating system has no entropy to give.
    pub fn create(signed_file: &str, bytes: &[u8]) -> (r: Option<Self>)
        ensures
            r matches Some(s) ==> exists|seed: Seq<u8>|
                seed.len() == 32 && s@ == #[trigger] signed_record(signed_file@, bytes@, seed) && (
                ed25519_signature(seed, bytes@).take(32) != neutral_point() ==> record_verifies(
                    s@,
                    bytes@,
                )),
    {
        let mut seed: [u8; 32] = [0; 32];
        if os_entropy(&mut seed) {
            let r = Self::create_with_entropy(signed_file, bytes, Some(seed));
            assert(r matches Some(s) ==> s@ == signed_record(signed_file@, bytes@, seed@));
            r
        } else {
            Self::create_with_entropy(signed_file, bytes, None)
        }
    }

    /// Sign `bytes` (the exact contents of `signed_file`) with the key of the
    /// 32 bytes of entropy, as [`ReportSignature::create_with_seed`] does; `None`
    /// where there are none.
    pub fn create_with_entropy(signed_file: &str, bytes: &[u8], entropy: Option<[u8; 32]>) -> (r:
        Option<Self>)
        ensures
            r is Some <==> entropy is Some,
            r matches Some(s) ==> s@ == signed_record(signed_file@, bytes@, entropy->0@) && (
            ed25519_signature(entropy->0@, bytes@).take(32) != neutral_point() ==> record_verifies(
                s@,
                bytes@,
            )),
    {
        match entropy {
            Some(seed) => Some(Self::create_with_seed(signed_file, bytes, &seed)),
            None => None,
        }
    }

    /// A short fingerprint of the public key (first 16 hex chars) for display.
    pub fn fingerprint(&self) -> (s: String)
        ensures
            s@ == (if self.public_key@.len() < 16 {
                self.public_key@
            } else {
                self.public_key@.take(16)
            }),
    {
        let cs = chars_of(self.public_key.as_str());
        let n: usize = if cs.len() < 16 { cs.len() } else { 16 };
        let s = string_of(&cs, 0, n);
        assert(s@ =~= self.public_key@.take(n as int));
        assert(self.public_key@.len() < 16 ==> s@ =~= self.public_key@);
        s
    }

    /// Verify `bytes` against this record's public key and signature. Used by
    /// tests and any external auditor that re-implements the same check.
    pub fn verify(&self, bytes: &[u8]) -> (ok: bool)
        ensures
            ok == record_verifies(self@, bytes@),
    {
        match (unhex(self.public_key.as_str()), unhex(self.signature.as_str())) {
            (Some(key), Some(signature)) => {
                if key.len() != 32 || signature.len() != 64 {
                    return false;
                }
                strictly_verifies(&to_array_32(&key), &to_array_64(&signature), bytes)
            },
            _ => false,
        }
    }
}

impl Clone for ReportSignature {
    fn clone(&self) -> (r: Self)
        ensures
            r@ == self@,
    {
        ReportSignature {
            algorithm: self.algorithm,
            signed_file: self.signed_file.clone(),
            public_key: self.public_key.clone(),
            signature: self.signature.clone(),
            note: self.note,
        }
    }
}

/// A signature record names the file that it is for and the algorithm, and carries the
/// public key and the signature so that decoding gives them back; a record vouches for
/// a message exactly if that key accepts that signature of it.
pub proof fn law_record_carries_key_and_signature(
    signed_file: Seq<char>,
    message: Seq<u8>,
    seed: Seq<u8>,
    other: Seq<u8>,
)
    ensures
        ({
            let r = signed_record(signed_file, message, seed);
            let key = ed25519_public_key(seed);
            let signature = ed25519_signature(seed, message);
            &&& r.signed_file == signed_file
            &&& r.algorithm == "Ed25519"@
            &&& unhex_bytes(r.public_key) == Some(key)
            &&& unhex_bytes(r.signature) == Some(signature)
            &&& key.len() == 32 && signature.len() == 64 ==> (record_verifies(r, other)
                <==> ed25519_accepts(key, signature, other))
        }),
{
    law_unhex_undoes_hex(ed25519_public_key(seed));
    law_unhex_undoes_hex(ed25519_signature(seed, message));
}

} // verus!
