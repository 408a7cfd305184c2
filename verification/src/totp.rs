//! The assembled pipeline: secret to key bytes, clock reading to
//! time-step counter, HMAC digest to truncated code, code to six
//! displayed digits — and the laws that relate its pieces.
use vstd::prelude::*;

use vstd::string::StringExecFns;
use vstd::string::StringSliceAdditionalSpecFns;
use crate::TotpError;
use crate::base32::B32_DECODE_INPUT_MAX;
use crate::base32::decode_key;
use crate::base32::spec_base32_decode;
use crate::base32::spec_normalize;
use crate::clock::now_unix_seconds;
use crate::clock::spec_time_step_counter;
use crate::clock::time_step_counter;
use crate::hotp::HMAC_INPUT_MAX;
use crate::hotp::hotp_code;
use crate::hotp::spec_hotp_code;

verus! {

/// The code for the 30-second window that `unix_seconds` falls in.
pub open spec fn spec_totp_code(key: Seq<u8>, unix_seconds: u64) -> u32 {
    spec_hotp_code(key, spec_time_step_counter(unix_seconds))
}

/// The character showing one decimal digit.
pub open spec fn spec_digit_char(d: int) -> char {
    if d == 0 {
        '0'
    } else if d == 1 {
        '1'
    } else if d == 2 {
        '2'
    } else if d == 3 {
        '3'
    } else if d == 4 {
        '4'
    } else if d == 5 {
        '5'
    } else if d == 6 {
        '6'
    } else if d == 7 {
        '7'
    } else if d == 8 {
        '8'
    } else {
        '9'
    }
}

/// The six characters that display a code, most significant digit
/// first, zero-padded on the left.
pub open spec fn spec_code_chars(code: u32) -> Seq<char> {
    seq![
        spec_digit_char(code as int / 100000 % 10),
        spec_digit_char(code as int / 10000 % 10),
        spec_digit_char(code as int / 1000 % 10),
        spec_digit_char(code as int / 100 % 10),
        spec_digit_char(code as int / 10 % 10),
        spec_digit_char(code as int % 10),
    ]
}

pub open spec fn spec_is_decimal_digit(c: char) -> bool {
    c == '0' || c == '1' || c == '2' || c == '3' || c == '4' || c == '5' || c == '6' || c == '7'
        || c == '8' || c == '9'
}

/// Digit-count invariant: a displayed code is always exactly six
/// characters, each a decimal digit.
pub proof fn lemma_code_chars_digits(code: u32)
    ensures
        spec_code_chars(code).len() == 6,
        forall|i: int| 0 <= i < 6 ==> spec_is_decimal_digit(#[trigger] spec_code_chars(code)[i]),
{
    assert forall|i: int| 0 <= i < 6 implies spec_is_decimal_digit(
        #[trigger] spec_code_chars(code)[i],
    ) by {
        assert(0 <= code as int / 100000 % 10 < 10);
        assert(0 <= code as int / 10000 % 10 < 10);
        assert(0 <= code as int / 1000 % 10 < 10);
        assert(0 <= code as int / 100 % 10 < 10);
        assert(0 <= code as int / 10 % 10 < 10);
        assert(0 <= code as int % 10 < 10);
    }
}

fn digit_str(d: u32) -> (r: &'static str)
    requires
        d < 10,
    ensures
        r@ == seq![spec_digit_char(d as int)],
{
    match d {
        0 => {
            proof {
                reveal_strlit("0");
                assert(("0")@ =~= seq!['0']);
            }
            "0"
        },
        1 => {
            proof {
                reveal_strlit("1");
                assert(("1")@ =~= seq!['1']);
            }
            "1"
        },
        2 => {
            proof {
                reveal_strlit("2");
                assert(("2")@ =~= seq!['2']);
            }
            "2"
        },
        3 => {
            proof {
                reveal_strlit("3");
                assert(("3")@ =~= seq!['3']);
            }
            "3"
        },
        4 => {
            proof {
                reveal_strlit("4");
                assert(("4")@ =~= seq!['4']);
            }
            "4"
        },
        5 => {
            proof {
                reveal_strlit("5");
                assert(("5")@ =~= seq!['5']);
            }
            "5"
        },
        6 => {
            proof {
                reveal_strlit("6");
                assert(("6")@ =~= seq!['6']);
            }
            "6"
        },
        7 => {
            proof {
                reveal_strlit("7");
                assert(("7")@ =~= seq!['7']);
            }
            "7"
        },
        8 => {
            proof {
                reveal_strlit("8");
                assert(("8")@ =~= seq!['8']);
            }
            "8"
        },
        _ => {
            proof {
                reveal_strlit("9");
                assert(("9")@ =~= seq!['9']);
            }
            "9"
        },
    }
}

/// Formats a code for display: exactly six characters, zero-padded on
/// the left, each a decimal digit.
pub fn format_code(code: u32) -> (shown: String)
    requires
        code < 1000000,
    ensures
        shown@ == spec_code_chars(code),
        shown@.len() == 6,
        forall|i: int| 0 <= i < 6 ==> spec_is_decimal_digit(#[trigger] shown@[i]),
{
    let mut shown = String::new();
    shown.append(digit_str(code / 100000 % 10));
    shown.append(digit_str(code / 10000 % 10));
    shown.append(digit_str(code / 1000 % 10));
    shown.append(digit_str(code / 100 % 10));
    shown.append(digit_str(code / 10 % 10));
    shown.append(digit_str(code % 10));
    proof {
        assert(shown@ =~= spec_code_chars(code));
        lemma_code_chars_digits(code);
    }
    shown
}

/// The code for the window that `unix_seconds` falls in. The clock
/// enters the pipeline only through this value, so a fixed reading can
/// be injected in place of the real time.
pub fn totp_code_at(key: &[u8], unix_seconds: u64) -> (code: u32)
    requires
        0 < key@.len() <= HMAC_INPUT_MAX,
    ensures
        code == spec_totp_code(key@, unix_seconds),
        code < 1000000,
{
    hotp_code(key, time_step_counter(unix_seconds))
}

/// The whole counter-to-code transform for a textual secret and a
/// fixed counter value. Deterministic: the result is a function of the
/// secret and the counter alone.
pub fn compute_code(secret: &str, counter: u64) -> (r: Result<u32, TotpError>)
    requires
        secret.spec_bytes().len() <= B32_DECODE_INPUT_MAX,
    ensures
        ({
            let normalized = spec_normalize(secret.spec_bytes());
            match r {
                Ok(code) => {
                    &&& normalized.len() > 0
                    &&& spec_base32_decode(normalized) matches Some(key)
                    &&& key.len() > 0
                    &&& code == spec_hotp_code(key, counter)
                    &&& code < 1000000
                },
                Err(e) => e == TotpError::Decode && (normalized.len() == 0 || spec_base32_decode(
                    normalized,
                ) is None),
            }
        }),
{
    let key = match decode_key(secret) {
        Ok(key) => key,
        Err(e) => {
            return Err(e);
        },
    };
    Ok(hotp_code(key.as_slice(), counter))
}

/// Computes the code for the current 30-second window and formats it
/// for display. A bad secret and a bad clock are reported distinctly,
/// and neither is defaulted: a silently wrong code would be
/// indistinguishable from a right one until verification fails
/// downstream.
pub fn current_code(secret: &str) -> (r: Result<String, TotpError>)
    requires
        secret.spec_bytes().len() <= B32_DECODE_INPUT_MAX,
    ensures
        ({
            let normalized = spec_normalize(secret.spec_bytes());
            match r {
                Ok(shown) => {
                    &&& normalized.len() > 0
                    &&& spec_base32_decode(normalized) matches Some(key)
                    &&& key.len() > 0
                    &&& exists|t: u64| shown@ == spec_code_chars(spec_totp_code(key, t))
                },
                Err(e) => match e {
                    TotpError::Decode => normalized.len() == 0 || spec_base32_decode(
                        normalized,
                    ) is None,
                    TotpError::Clock => {
                        &&& normalized.len() > 0
                        &&& spec_base32_decode(normalized) matches Some(key)
                        &&& key.len() > 0
                    },
                },
            }
        }),
{
    let key = match decode_key(secret) {
        Ok(key) => key,
        Err(e) => {
            return Err(e);
        },
    };
    let seconds = match now_unix_seconds() {
        Some(seconds) => seconds,
        None => {
            return Err(TotpError::Clock);
        },
    };
    let code = totp_code_at(key.as_slice(), seconds);
    let shown = format_code(code);
    proof {
        assert(shown@ == spec_code_chars(spec_totp_code(key@, seconds)));
    }
    Ok(shown)
}

/// Determinism: two codes computed for the same key and the same
/// counter value are the same code.
pub proof fn lemma_code_deterministic(key: Seq<u8>, counter: u64, first: u32, second: u32)
    requires
        first == spec_hotp_code(key, counter),
        second == spec_hotp_code(key, counter),
    ensures
        first == second,
{
}

/// Time-step stability: two clock readings whose epoch seconds fall in
/// the same 30-second window yield identical codes.
pub proof fn lemma_time_step_stability(key: Seq<u8>, seconds1: u64, seconds2: u64)
    requires
        spec_time_step_counter(seconds1) == spec_time_step_counter(seconds2),
    ensures
        spec_totp_code(key, seconds1) == spec_totp_code(key, seconds2),
{
}

/// Time-step change: of two readings whose counters differ by exactly
/// one, each code is still the one that its own counter determines; the
/// two codes themselves need not differ.
pub proof fn lemma_adjacent_time_steps(key: Seq<u8>, seconds1: u64, seconds2: u64)
    requires
        spec_time_step_counter(seconds2) == spec_time_step_counter(seconds1) + 1,
    ensures
        spec_totp_code(key, seconds1) == spec_hotp_code(key, spec_time_step_counter(seconds1)),
        spec_totp_code(key, seconds2) == spec_hotp_code(key, spec_time_step_counter(seconds2)),
{
}

} // verus!
