//! The webhook verifier's cryptographic primitives: HMAC-SHA256 and lowercase
//! hex encoding, each reached through a trusted wrapper around an outside
//! crate, and their verified composition.

use hmac::Mac;
use vstd::prelude::*;

verus! {

/// The HMAC-SHA256 tag of `message` under `key`. The MAC itself is left
/// opaque: it is a function of key and message alone, and nothing further is
/// assumed of its value.
pub uninterp spec fn hmac_sha256_of(key: Seq<u8>, message: Seq<u8>) -> Seq<u8>;

/// Relies on hmac's `Hmac<Sha256>` (`new_from_slice`, `update`, `finalize`):
/// the tag depends on the key and message alone, `new_from_slice` accepts a
/// key of any length, and the SHA-256 output is 32 bytes.
#[verifier::external_body]
fn hmac_sha256(key: &[u8], message: &[u8]) -> (r: Vec<u8>)
    ensures
        r@ == hmac_sha256_of(key@, message@),
        r@.len() == 32,
{
    let mut mac = hmac::Hmac::<sha2::Sha256>::new_from_slice(key)
        .expect("HMAC accepts a key of any length");
    mac.update(message);
    mac.finalize().into_bytes().to_vec()
}

/// The lowercase hex digit for a nibble `n < 16`.
pub open spec fn lower_hex_digit(n: u8) -> u8 {
    if n < 10 {
        (48 + n) as u8  // '0'..='9'
    } else {
        (87 + n) as u8  // 'a'..='f'
    }
}

/// The lowercase hex encoding of a byte sequence: high nibble then low
/// nibble of each byte, in order.
pub open spec fn hex_lower(s: Seq<u8>) -> Seq<u8>
    decreases s.len(),
{
    if s.len() == 0 {
        Seq::empty()
    } else {
        seq![lower_hex_digit((s[0] / 16) as u8), lower_hex_digit((s[0] % 16) as u8)] + hex_lower(
            s.drop_first(),
        )
    }
}

/// Whether `b` is a byte that `hex_lower` can produce: a digit or a
/// lowercase `a`..`f`.
pub open spec fn is_lower_hex_byte(b: u8) -> bool {
    (48 <= b <= 57) || (97 <= b <= 102)
}

/// Every byte of a lowercase hex encoding is a digit or `a`..`f`, and the
/// encoding is twice as long as its input.
pub proof fn lemma_hex_lower_props(s: Seq<u8>)
    ensures
        hex_lower(s).len() == 2 * s.len(),
        forall|i: int| 0 <= i < hex_lower(s).len() ==> is_lower_hex_byte(#[trigger] hex_lower(s)[i]),
    decreases s.len(),
{
    if s.len() == 0 {
    } else {
        lemma_hex_lower_props(s.drop_first());
        assert(is_lower_hex_byte(lower_hex_digit((s[0] / 16) as u8)));
        assert(is_lower_hex_byte(lower_hex_digit((s[0] % 16) as u8)));
    }
}

/// Relies on hex::encode: each byte becomes its two lowercase hex digits, in
/// order. The resulting string is ASCII, so its bytes are returned directly.
#[verifier::external_body]
fn hex_encode_lower(bytes: &[u8]) -> (r: Vec<u8>)
    ensures
        r@ == hex_lower(bytes@),
{
    hex::encode(bytes).into_bytes()
}

/// The lowercase hex encoding of the HMAC-SHA256 tag of `message` under
/// `secret`: the form in which the provider transmits webhook signatures.
pub fn hmac_sha256_hex(secret: &[u8], message: &[u8]) -> (r: Vec<u8>)
    ensures
        r@ == hex_lower(hmac_sha256_of(secret@, message@)),
        r@.len() == 64,
{
    let tag = hmac_sha256(secret, message);
    proof {
        lemma_hex_lower_props(tag@);
    }
    hex_encode_lower(tag.as_slice())
}

} // verus!
