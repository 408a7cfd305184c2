//! The moving factor of RFC 6238: whole 30-second steps since the Unix
//! epoch, serialized as an 8-byte big-endian counter.
use vstd::prelude::*;

verus! {

/// Length in seconds of one TOTP time step (RFC 6238 default).
pub const TIME_STEP_SECONDS: u64 = 30;

/// Counter of the time step that `unix_seconds` falls in.
pub open spec fn spec_time_step_counter(unix_seconds: u64) -> u64 {
    (unix_seconds / TIME_STEP_SECONDS) as u64
}

/// The 8 bytes of `x`, most significant first.
pub open spec fn spec_u64_be_bytes(x: u64) -> Seq<u8> {
    seq![
        ((x >> 56) & 0xff) as u8,
        ((x >> 48) & 0xff) as u8,
        ((x >> 40) & 0xff) as u8,
        ((x >> 32) & 0xff) as u8,
        ((x >> 24) & 0xff) as u8,
        ((x >> 16) & 0xff) as u8,
        ((x >> 8) & 0xff) as u8,
        (x & 0xff) as u8,
    ]
}

/// Number of whole time steps since the Unix epoch.
pub fn time_step_counter(unix_seconds: u64) -> (counter: u64)
    ensures
        counter == spec_time_step_counter(unix_seconds),
{
    unix_seconds / TIME_STEP_SECONDS
}

/// Serializes a counter as exactly 8 bytes, big-endian, zero-extended
/// on the high end.
pub fn counter_bytes(counter: u64) -> (bytes: [u8; 8])
    ensures
        bytes@ == spec_u64_be_bytes(counter),
{
    let bytes: [u8; 8] = [
        ((counter >> 56) & 0xff) as u8,
        ((counter >> 48) & 0xff) as u8,
        ((counter >> 40) & 0xff) as u8,
        ((counter >> 32) & 0xff) as u8,
        ((counter >> 24) & 0xff) as u8,
        ((counter >> 16) & 0xff) as u8,
        ((counter >> 8) & 0xff) as u8,
        (counter & 0xff) as u8,
    ];
    proof {
        assert(bytes@ =~= spec_u64_be_bytes(counter));
    }
    bytes
}

#[verifier::external_type_specification]
#[verifier::external_body]
pub struct ExSystemTime(std::time::SystemTime);

#[verifier::external_type_specification]
#[verifier::external_body]
pub struct ExSystemTimeError(std::time::SystemTimeError);

/// Relies on std::time::SystemTime::now: the clock's current reading.
/// The value depends on the clock, so nothing is promised of it.
pub assume_specification[ std::time::SystemTime::now ]() -> std::time::SystemTime;

/// Relies on SystemTime::duration_since: the span from `earlier` to
/// `t`, or an error when `earlier` is the later of the two. Both
/// instants are opaque here, so nothing is promised of it.
pub assume_specification[ std::time::SystemTime::duration_since ](
    t: &std::time::SystemTime,
    earlier: std::time::SystemTime,
) -> Result<core::time::Duration, std::time::SystemTimeError>;

/// Relies on Duration::as_secs: the whole seconds of the span.
pub assume_specification[ core::time::Duration::as_secs ](
    d: &core::time::Duration,
) -> u64;

/// Relies on std::time::UNIX_EPOCH: the fixed reference instant,
/// 00:00:00 UTC on 1 January 1970.
#[verifier::external_body]
fn unix_epoch() -> std::time::SystemTime {
    std::time::UNIX_EPOCH
}

/// Seconds since the Unix epoch, or `None` when the clock reads a time
/// before it.
pub(crate) fn now_unix_seconds() -> (r: Option<u64>) {
    let now = std::time::SystemTime::now();
    match now.duration_since(unix_epoch()) {
        Ok(elapsed) => Some(elapsed.as_secs()),
        Err(_) => None,
    }
}

/// Reads the clock and serializes the current time-step counter.
/// `None` reports a pre-epoch clock; it is never a silent default,
/// since a wrong counter would yield a wrong code with no indication.
pub fn get_timestamp() -> (r: Option<[u8; 8]>)
    ensures
        r matches Some(bytes) ==> exists|s: u64|
            bytes@ == spec_u64_be_bytes(spec_time_step_counter(s)),
{
    match now_unix_seconds() {
        Some(seconds) => {
            let counter = time_step_counter(seconds);
            let bytes = counter_bytes(counter);
            proof {
                assert(bytes@ == spec_u64_be_bytes(spec_time_step_counter(seconds)));
            }
            Some(bytes)
        },
        None => None,
    }
}

} // verus!
