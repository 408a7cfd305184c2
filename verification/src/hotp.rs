//! The HOTP counter-to-code transform of RFC 4226: an HMAC-SHA-1
//! digest of the 8-byte counter, dynamically truncated (RFC 4226 §5.3)
//! to a 31-bit integer and reduced modulo 10^6.
use vstd::prelude::*;

use crate::clock::spec_u64_be_bytes;
use crate::clock::counter_bytes;

verus! {

/// Largest key or message length handed to the HMAC engine; inputs
/// this long are far below the SHA-1 input limit, so signing cannot
/// fail.
pub const HMAC_INPUT_MAX: usize = usize::MAX / 8;

/// The HMAC-SHA-1 digest of `message` under `key`. The digest is a
/// pure function of the two arguments; its definition (RFC 2104) is
/// left to the HMAC engine.
pub uninterp spec fn spec_hmac_sha1(key: Seq<u8>, message: Seq<u8>) -> Seq<u8>;

/// Relies on ring::hmac::Key::new and ring::hmac::sign with
/// HMAC_SHA1_FOR_LEGACY_USE_ONLY (ring's API makes the key and signs
/// in two steps of one computation): the tag is a pure function of key
/// and message, 20 bytes long, SHA-1's output length. Both calls panic
/// only on inputs beyond SHA-1's length limit, which the bounds below
/// exclude. SHA-1 is used purely as the legacy algorithm RFC 4226/6238
/// compatibility mandates, not for any strength property.
#[verifier::external_body]
fn hmac_sha1_tag(key: &[u8], message: &[u8]) -> (tag: Vec<u8>)
    requires
        key@.len() <= HMAC_INPUT_MAX,
        message@.len() <= HMAC_INPUT_MAX,
    ensures
        tag@ == spec_hmac_sha1(key@, message@),
        tag@.len() == 20,
{
    let hmac_key = ring::hmac::Key::new(ring::hmac::HMAC_SHA1_FOR_LEGACY_USE_ONLY, key);
    ring::hmac::sign(&hmac_key, message).as_ref().to_vec()
}

/// Truncation offset of RFC 4226 §5.3: the low 4 bits of the final
/// digest byte.
pub open spec fn spec_dynamic_offset(digest: Seq<u8>) -> int {
    (digest[digest.len() - 1] & 0x0f) as int
}

/// Four bytes read as a big-endian 32-bit unsigned integer.
pub open spec fn spec_be_u32(b0: u8, b1: u8, b2: u8, b3: u8) -> u32 {
    ((b0 as u32) << 24) | ((b1 as u32) << 16) | ((b2 as u32) << 8) | (b3 as u32)
}

/// Dynamic truncation of RFC 4226 §5.3: the 4 bytes at the dynamic
/// offset, read big-endian, with the most significant bit cleared,
/// reduced modulo 10^6.
pub open spec fn spec_truncate(digest: Seq<u8>) -> u32 {
    let offset = spec_dynamic_offset(digest);
    let value = spec_be_u32(digest[offset], digest[offset + 1], digest[offset + 2], digest[offset + 3]);
    ((value & 0x7fffffff) % 1000000) as u32
}

/// The HOTP code for `key` and `counter`: the truncated HMAC-SHA-1
/// digest of the counter's big-endian serialization.
pub open spec fn spec_hotp_code(key: Seq<u8>, counter: u64) -> u32 {
    spec_truncate(spec_hmac_sha1(key, spec_u64_be_bytes(counter)))
}

/// Extracts the code from a digest, exactly as RFC 4226 §5.3 gives it:
/// any change to this byte selection would produce codes incompatible
/// with standard TOTP verifiers. The digest must be long enough for the
/// 4-byte window at the dynamic offset; every standard digest of 20 or
/// more bytes is.
pub fn get_totp_code(hash: &[u8]) -> (code: u32)
    requires
        hash@.len() >= 4,
        spec_dynamic_offset(hash@) + 4 <= hash@.len(),
    ensures
        code == spec_truncate(hash@),
        code < 1000000,
{
    let n = hash.len();
    let offset = (hash[n - 1] & 0x0f) as usize;
    proof {
        assert(offset == spec_dynamic_offset(hash@));
    }
    let value: u32 = ((hash[offset] as u32) << 24) | ((hash[offset + 1] as u32) << 16) | (
    (hash[offset + 2] as u32) << 8) | (hash[offset + 3] as u32);
    let truncated = value & 0x7fffffff;
    truncated % 1000000
}

/// The HOTP code of RFC 4226 for a non-empty key and a counter value.
pub fn hotp_code(key: &[u8], counter: u64) -> (code: u32)
    requires
        0 < key@.len() <= HMAC_INPUT_MAX,
    ensures
        code == spec_hotp_code(key@, counter),
        code < 1000000,
{
    let message = counter_bytes(counter);
    let tag = hmac_sha1_tag(key, message.as_slice());
    proof {
        let last = tag@[tag@.len() - 1];
        assert(last & 0x0f < 16) by (bit_vector);
        assert(spec_dynamic_offset(tag@) + 4 <= tag@.len());
    }
    get_totp_code(tag.as_slice())
}

} // verus!
