//! Time-based one-time passwords (RFC 6238) over the HOTP
//! counter-to-code transform (RFC 4226): a Base32 secret is decoded to
//! key bytes, the clock yields a 30-second time-step counter, an
//! HMAC-SHA-1 digest of the counter is dynamically truncated, and the
//! result is shown as a six-digit decimal code.
//!
//! HMAC-SHA-1 is used solely because RFC 4226/6238 interoperability
//! demands it; substituting a stronger hash would break compatibility
//! with standard TOTP verifiers.
use vstd::prelude::*;

pub mod base32;
pub mod clock;
pub mod hotp;
pub mod totp;

pub use base32::base32_round_trip;
pub use base32::decode_key;
pub use base32::decode_key_bytes;
pub use base32::decode_key_round_trip;
pub use base32::normalize_secret;
pub use clock::counter_bytes;
pub use clock::get_timestamp;
pub use clock::time_step_counter;
pub use clock::TIME_STEP_SECONDS;
pub use hotp::get_totp_code;
pub use hotp::hotp_code;
pub use totp::compute_code;
pub use totp::current_code;
pub use totp::format_code;
pub use totp::totp_code_at;

verus! {

/// Why a code could not be produced. Decoding failures and clock
/// failures are reported distinctly, so a caller can tell a bad secret
/// from a bad clock.
#[derive(Clone, Copy, Debug, PartialEq, Eq, Structural)]
pub enum TotpError {
    /// The secret is not valid unpadded Base32, or decodes to an empty key.
    Decode,
    /// The system clock reads a time before the Unix epoch.
    Clock,
}

} // verus!
