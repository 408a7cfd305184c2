//! The secret decoder: unpadded Base32 (RFC 4648, alphabet A-Z 2-7)
//! text, case-insensitive and with surrounding whitespace ignored, is
//! turned into raw key bytes.
use vstd::prelude::*;

use vstd::arithmetic::div_mod::lemma_div_is_ordered;
use vstd::string::StringSliceAdditionalSpecFns;
use vstd::pervasive::unreached;
use crate::TotpError;

verus! {

/// A one-byte whitespace character: the six ASCII members of Unicode
/// White_Space.
pub open spec fn spec_is_ascii_space(b: u8) -> bool {
    b == 32 || b == 9 || b == 10 || b == 11 || b == 12 || b == 13
}

/// Length of the UTF-8-encoded Unicode White_Space character that `s`
/// begins with, or 0 when it begins with none: the six ASCII ones;
/// U+0085 and U+00A0, two bytes each; and U+1680, U+2000 to U+200A,
/// U+2028, U+2029, U+202F, U+205F and U+3000, three bytes each.
pub open spec fn spec_space_prefix_len(s: Seq<u8>) -> nat {
    if s.len() >= 1 && spec_is_ascii_space(s[0]) {
        1
    } else if s.len() >= 2 && s[0] == 0xc2 && (s[1] == 0x85 || s[1] == 0xa0) {
        2
    } else if s.len() >= 3 && s[0] == 0xe1 && s[1] == 0x9a && s[2] == 0x80 {
        3
    } else if s.len() >= 3 && s[0] == 0xe2 && s[1] == 0x80 && ((0x80 <= s[2] && s[2] <= 0x8a)
        || s[2] == 0xa8 || s[2] == 0xa9 || s[2] == 0xaf) {
        3
    } else if s.len() >= 3 && s[0] == 0xe2 && s[1] == 0x81 && s[2] == 0x9f {
        3
    } else if s.len() >= 3 && s[0] == 0xe3 && s[1] == 0x80 && s[2] == 0x80 {
        3
    } else {
        0
    }
}

/// Length of the UTF-8-encoded Unicode White_Space character that `s`
/// ends with, or 0 when it ends with none. On valid UTF-8 this finds
/// exactly the final character, since none of the lead bytes checked
/// can occur as a continuation byte.
pub open spec fn spec_space_suffix_len(s: Seq<u8>) -> nat {
    let n = s.len();
    if n >= 1 && spec_is_ascii_space(s[n - 1]) {
        1
    } else if n >= 2 && s[n - 2] == 0xc2 && (s[n - 1] == 0x85 || s[n - 1] == 0xa0) {
        2
    } else if n >= 3 && s[n - 3] == 0xe1 && s[n - 2] == 0x9a && s[n - 1] == 0x80 {
        3
    } else if n >= 3 && s[n - 3] == 0xe2 && s[n - 2] == 0x80 && ((0x80 <= s[n - 1] && s[n - 1]
        <= 0x8a) || s[n - 1] == 0xa8 || s[n - 1] == 0xa9 || s[n - 1] == 0xaf) {
        3
    } else if n >= 3 && s[n - 3] == 0xe2 && s[n - 2] == 0x81 && s[n - 1] == 0x9f {
        3
    } else if n >= 3 && s[n - 3] == 0xe3 && s[n - 2] == 0x80 && s[n - 1] == 0x80 {
        3
    } else {
        0
    }
}

/// ASCII upper-casing of one byte: the Base32 alphabet is
/// case-insensitive, so secrets are canonicalized before decoding.
pub open spec fn spec_upper_byte(b: u8) -> u8 {
    if 97 <= b && b <= 122 {
        (b - 32) as u8
    } else {
        b
    }
}

/// `s` without its leading whitespace.
pub open spec fn spec_trim_start(s: Seq<u8>) -> Seq<u8>
    decreases s.len(),
{
    let k = spec_space_prefix_len(s);
    if k > 0 {
        spec_trim_start(s.skip(k as int))
    } else {
        s
    }
}

/// `s` without its trailing whitespace.
pub open spec fn spec_trim_end(s: Seq<u8>) -> Seq<u8>
    decreases s.len(),
{
    let k = spec_space_suffix_len(s);
    if k > 0 {
        spec_trim_end(s.take(s.len() - k))
    } else {
        s
    }
}

/// Upper-casing of a whole byte string.
pub open spec fn spec_to_upper(s: Seq<u8>) -> Seq<u8> {
    Seq::new(s.len(), |i: int| spec_upper_byte(s[i]))
}

/// Canonical form of a secret: whitespace trimmed from both ends, then
/// upper-cased.
pub open spec fn spec_normalize(s: Seq<u8>) -> Seq<u8> {
    spec_to_upper(spec_trim_end(spec_trim_start(s)))
}

/// Lengths that unpadded Base32 text can have: 8 symbols make 5 bytes,
/// and a trailing partial group of 2, 4, 5 or 7 symbols makes 1 to 4
/// more; remainders 1, 3 and 6 cannot arise.
pub open spec fn spec_valid_base32_len(n: nat) -> bool {
    n % 8 == 0 || n % 8 == 2 || n % 8 == 4 || n % 8 == 5 || n % 8 == 7
}

/// A symbol of the unpadded Base32 alphabet: A to Z or 2 to 7.
pub open spec fn spec_is_b32_symbol(b: u8) -> bool {
    (65 <= b && b <= 90) || (50 <= b && b <= 55)
}

/// The bytes that unpadded, canonical Base32 text denotes, or `None`
/// where the text is no encoding of any byte string (a symbol outside
/// A-Z 2-7, a length with remainder 1, 3 or 6, or non-zero trailing
/// bits).
pub uninterp spec fn spec_base32_decode(text: Seq<u8>) -> Option<Seq<u8>>;

/// The unpadded Base32 encoding of a byte string.
pub uninterp spec fn spec_base32_encode(bytes: Seq<u8>) -> Seq<u8>;

/// Largest input the decoder accepts; data_encoding documents that
/// `decode` may panic above `usize::MAX / 8`.
pub const B32_DECODE_INPUT_MAX: usize = usize::MAX / 8;

/// Largest input the encoder accepts; data_encoding documents that
/// `encode` may panic above `usize::MAX / 512`.
pub const B32_ENCODE_INPUT_MAX: usize = usize::MAX / 512;

/// Declares data_encoding::DecodeError, the error the decoder returns;
/// it is opaque here and is mapped at once to the library's own error.
#[verifier::external_type_specification]
#[verifier::external_body]
pub struct ExDecodeError(data_encoding::DecodeError);

/// Relies on data_encoding::BASE32_NOPAD.decode: canonical unpadded
/// Base32. It returns the denoted bytes, 5 for every 8 symbols, and
/// errs exactly on the inputs that encode nothing: an invalid symbol,
/// an invalid length, or non-zero trailing bits.
#[verifier::external_body]
fn base32_nopad_decode(input: &[u8]) -> (r: Result<Vec<u8>, data_encoding::DecodeError>)
    requires
        input@.len() <= B32_DECODE_INPUT_MAX,
    ensures
        match r {
            Ok(bytes) => spec_base32_decode(input@) == Some(bytes@) && bytes@.len() == input@.len()
                * 5 / 8 && spec_valid_base32_len(input@.len()),
            Err(_) => spec_base32_decode(input@) is None,
        },
{
    data_encoding::BASE32_NOPAD.decode(input)
}

/// Relies on data_encoding::BASE32_NOPAD.encode: the encoding is 8
/// symbols for every 5 bytes, rounded up, every symbol drawn from the
/// upper-case alphabet A-Z 2-7, and data_encoding documents that
/// decoding an encoding returns the original input.
#[verifier::external_body]
fn base32_nopad_encode(input: &[u8]) -> (r: Vec<u8>)
    requires
        input@.len() <= B32_ENCODE_INPUT_MAX,
    ensures
        r@ == spec_base32_encode(input@),
        spec_base32_decode(r@) == Some(input@),
        r@.len() == (8 * input@.len() + 4) / 5,
        forall|i: int| 0 <= i < r@.len() ==> spec_is_b32_symbol(#[trigger] r@[i]),
{
    data_encoding::BASE32_NOPAD.encode(input).into_bytes()
}

fn is_ascii_space_byte(b: u8) -> (r: bool)
    ensures
        r == spec_is_ascii_space(b),
{
    b == 32 || b == 9 || b == 10 || b == 11 || b == 12 || b == 13
}

/// Length of the whitespace character at the front of `s[start..end]`,
/// or 0 when there is none.
fn space_prefix_len(s: &[u8], start: usize, end: usize) -> (k: usize)
    requires
        start <= end <= s@.len(),
    ensures
        k == spec_space_prefix_len(s@.subrange(start as int, end as int)),
{
    let n = end - start;
    if n >= 1 {
        let b0 = s[start];
        if is_ascii_space_byte(b0) {
            return 1;
        }
        if n >= 2 {
            let b1 = s[start + 1];
            if b0 == 0xc2 && (b1 == 0x85 || b1 == 0xa0) {
                return 2;
            }
            if n >= 3 {
                let b2 = s[start + 2];
                if b0 == 0xe1 && b1 == 0x9a && b2 == 0x80 {
                    return 3;
                }
                if b0 == 0xe2 && b1 == 0x80 && ((0x80 <= b2 && b2 <= 0x8a) || b2 == 0xa8 || b2
                    == 0xa9 || b2 == 0xaf) {
                    return 3;
                }
                if b0 == 0xe2 && b1 == 0x81 && b2 == 0x9f {
                    return 3;
                }
                if b0 == 0xe3 && b1 == 0x80 && b2 == 0x80 {
                    return 3;
                }
            }
        }
    }
    0
}

/// Length of the whitespace character at the back of `s[start..end]`,
/// or 0 when there is none.
fn space_suffix_len(s: &[u8], start: usize, end: usize) -> (k: usize)
    requires
        start <= end <= s@.len(),
    ensures
        k == spec_space_suffix_len(s@.subrange(start as int, end as int)),
{
    let n = end - start;
    if n >= 1 {
        let b0 = s[end - 1];
        if is_ascii_space_byte(b0) {
            return 1;
        }
        if n >= 2 {
            let b1 = s[end - 2];
            if b1 == 0xc2 && (b0 == 0x85 || b0 == 0xa0) {
                return 2;
            }
            if n >= 3 {
                let b2 = s[end - 3];
                if b2 == 0xe1 && b1 == 0x9a && b0 == 0x80 {
                    return 3;
                }
                if b2 == 0xe2 && b1 == 0x80 && ((0x80 <= b0 && b0 <= 0x8a) || b0 == 0xa8 || b0
                    == 0xa9 || b0 == 0xaf) {
                    return 3;
                }
                if b2 == 0xe2 && b1 == 0x81 && b0 == 0x9f {
                    return 3;
                }
                if b2 == 0xe3 && b1 == 0x80 && b0 == 0x80 {
                    return 3;
                }
            }
        }
    }
    0
}

fn upper_byte(b: u8) -> (r: u8)
    ensures
        r == spec_upper_byte(b),
{
    if 97 <= b && b <= 122 {
        b - 32
    } else {
        b
    }
}

/// Trimming never lengthens a byte string.
pub proof fn lemma_trim_start_len(s: Seq<u8>)
    ensures
        spec_trim_start(s).len() <= s.len(),
    decreases s.len(),
{
    let k = spec_space_prefix_len(s);
    if k > 0 {
        lemma_trim_start_len(s.skip(k as int));
    }
}

/// Trimming never lengthens a byte string.
pub proof fn lemma_trim_end_len(s: Seq<u8>)
    ensures
        spec_trim_end(s).len() <= s.len(),
    decreases s.len(),
{
    let k = spec_space_suffix_len(s);
    if k > 0 {
        lemma_trim_end_len(s.take(s.len() - k));
    }
}

/// A canonical form is never longer than the text it came from.
pub proof fn lemma_normalize_len(s: Seq<u8>)
    ensures
        spec_normalize(s).len() <= s.len(),
{
    lemma_trim_start_len(s);
    lemma_trim_end_len(spec_trim_start(s));
}

/// A shorter front window of a byte string with no whitespace at its
/// front still has none: dropping trailing bytes cannot make one of
/// the character patterns match at the front.
proof fn lemma_prefix_zero_take(a: Seq<u8>, j: int)
    requires
        spec_space_prefix_len(a) == 0,
        0 <= j <= a.len(),
    ensures
        spec_space_prefix_len(a.take(j)) == 0,
{
    assert(forall|i: int| 0 <= i < j ==> a.take(j)[i] == a[i]);
}

/// Trimming the front leaves no whitespace at the front.
proof fn lemma_prefix_zero_trim_start(s: Seq<u8>)
    ensures
        spec_space_prefix_len(spec_trim_start(s)) == 0,
    decreases s.len(),
{
    let k = spec_space_prefix_len(s);
    if k > 0 {
        lemma_prefix_zero_trim_start(s.skip(k as int));
    }
}

/// Trimming the back leaves a whitespace-free front untouched.
proof fn lemma_prefix_zero_trim_end(a: Seq<u8>)
    requires
        spec_space_prefix_len(a) == 0,
    ensures
        spec_space_prefix_len(spec_trim_end(a)) == 0,
    decreases a.len(),
{
    let k = spec_space_suffix_len(a);
    if k > 0 {
        lemma_prefix_zero_take(a, a.len() - k);
        lemma_prefix_zero_trim_end(a.take(a.len() - k));
    }
}

/// Trimming the back leaves no whitespace at the back.
proof fn lemma_suffix_zero_trim_end(a: Seq<u8>)
    ensures
        spec_space_suffix_len(spec_trim_end(a)) == 0,
    decreases a.len(),
{
    let k = spec_space_suffix_len(a);
    if k > 0 {
        lemma_suffix_zero_trim_end(a.take(a.len() - k));
    }
}

/// Upper-casing turns bytes 97 to 122 into 65 to 90 and fixes all
/// others, so it neither creates nor destroys whitespace characters.
proof fn lemma_upper_preserves_spaces(t: Seq<u8>)
    ensures
        forall|i: int|
            0 <= i < t.len() ==> spec_is_ascii_space(#[trigger] spec_to_upper(t)[i])
                == spec_is_ascii_space(t[i]),
        forall|i: int|
            0 <= i < t.len() ==> ((t[i] >= 0x80 || #[trigger] spec_to_upper(t)[i] >= 0x80)
                ==> spec_to_upper(t)[i] == t[i]),
{
    assert forall|i: int| 0 <= i < t.len() implies spec_is_ascii_space(
        #[trigger] spec_to_upper(t)[i],
    ) == spec_is_ascii_space(t[i]) && ((t[i] >= 0x80 || spec_to_upper(t)[i] >= 0x80)
        ==> spec_to_upper(t)[i] == t[i]) by {
        assert(spec_to_upper(t)[i] == spec_upper_byte(t[i]));
    }
}

/// Upper-casing a byte string with no whitespace at the front leaves
/// none there.
proof fn lemma_prefix_zero_upper(t: Seq<u8>)
    requires
        spec_space_prefix_len(t) == 0,
    ensures
        spec_space_prefix_len(spec_to_upper(t)) == 0,
{
    lemma_upper_preserves_spaces(t);
    assert(spec_space_prefix_len(spec_to_upper(t)) == 0);
}

/// Upper-casing a byte string with no whitespace at the back leaves
/// none there.
proof fn lemma_suffix_zero_upper(t: Seq<u8>)
    requires
        spec_space_suffix_len(t) == 0,
    ensures
        spec_space_suffix_len(spec_to_upper(t)) == 0,
{
    lemma_upper_preserves_spaces(t);
    assert(spec_space_suffix_len(spec_to_upper(t)) == 0);
}

/// Normalizing is idempotent: a canonical secret normalizes to itself.
/// Since the decoder's contract is a function of the canonical form
/// alone, trimming whitespace or changing letter case in a secret
/// never changes what it decodes to — same text, same result.
pub proof fn lemma_normalize_idempotent(s: Seq<u8>)
    ensures
        spec_normalize(spec_normalize(s)) == spec_normalize(s),
{
    let a = spec_trim_start(s);
    let t = spec_trim_end(a);
    let u = spec_to_upper(t);
    lemma_prefix_zero_trim_start(s);
    lemma_prefix_zero_trim_end(a);
    lemma_prefix_zero_upper(t);
    lemma_suffix_zero_trim_end(a);
    lemma_suffix_zero_upper(t);
    assert(spec_trim_start(u) == u);
    assert(spec_trim_end(u) == u);
    assert(spec_to_upper(u) =~= u);
}

/// Text made only of Base32 alphabet symbols is already canonical:
/// no symbol is whitespace or begins one, and none is lower case, so
/// normalization returns it unchanged.
pub proof fn lemma_normalize_symbols_noop(s: Seq<u8>)
    requires
        forall|i: int| 0 <= i < s.len() ==> spec_is_b32_symbol(#[trigger] s[i]),
    ensures
        spec_normalize(s) == s,
{
    assert(spec_space_prefix_len(s) == 0);
    assert(spec_trim_start(s) == s);
    assert(spec_space_suffix_len(s) == 0);
    assert(spec_trim_end(s) == s);
    assert(spec_to_upper(s) =~= s);
}

/// Canonicalizes a secret: Unicode whitespace trimmed from both ends,
/// then ASCII upper-cased.
pub fn normalize_secret(s: &[u8]) -> (r: Vec<u8>)
    ensures
        r@ == spec_normalize(s@),
{
    let len = s.len();
    let mut start: usize = 0;
    let mut end: usize = len;
    proof {
        assert(s@.subrange(0, len as int) =~= s@);
    }
    let mut k = space_prefix_len(s, start, end);
    while k > 0
        invariant
            start <= end == s@.len(),
            k == spec_space_prefix_len(s@.subrange(start as int, end as int)),
            spec_trim_start(s@) == spec_trim_start(s@.subrange(start as int, end as int)),
        decreases end - start,
    {
        proof {
            assert(s@.subrange(start as int, end as int).skip(k as int) =~= s@.subrange(
                start as int + k as int,
                end as int,
            ));
        }
        start = start + k;
        k = space_prefix_len(s, start, end);
    }
    proof {
        assert(spec_trim_start(s@) == s@.subrange(start as int, end as int));
    }
    let mut k2 = space_suffix_len(s, start, end);
    while k2 > 0
        invariant
            start <= end <= s@.len(),
            k2 == spec_space_suffix_len(s@.subrange(start as int, end as int)),
            spec_trim_end(spec_trim_start(s@)) == spec_trim_end(
                s@.subrange(start as int, end as int),
            ),
        decreases end - start,
    {
        proof {
            assert(s@.subrange(start as int, end as int).take(end - start - k2) =~= s@.subrange(
                start as int,
                end as int - k2 as int,
            ));
        }
        end = end - k2;
        k2 = space_suffix_len(s, start, end);
    }
    let ghost trimmed = s@.subrange(start as int, end as int);
    proof {
        assert(spec_trim_end(spec_trim_start(s@)) == trimmed);
    }
    let mut result: Vec<u8> = Vec::new();
    let mut i: usize = start;
    while i < end
        invariant
            start <= i <= end <= s@.len(),
            trimmed == s@.subrange(start as int, end as int),
            result@ == spec_to_upper(s@.subrange(start as int, i as int)),
        decreases end - i,
    {
        let b = upper_byte(s[i]);
        result.push(b);
        proof {
            assert(result@ =~= spec_to_upper(s@.subrange(start as int, i as int + 1)));
        }
        i = i + 1;
    }
    proof {
        assert(result@ == spec_normalize(s@));
    }
    result
}

/// Decodes a secret given as raw text bytes: whitespace is trimmed,
/// the case-insensitive text is canonicalized to upper case, and the
/// result is decoded as unpadded Base32. Fails exactly when the
/// canonical text is empty or is not an unpadded Base32 encoding; a
/// valid secret always yields a non-empty key of 5 bytes for every 8
/// canonical symbols.
pub fn decode_key_bytes(secret_key: &[u8]) -> (r: Result<Vec<u8>, TotpError>)
    requires
        secret_key@.len() <= B32_DECODE_INPUT_MAX,
    ensures
        ({
            let normalized = spec_normalize(secret_key@);
            match r {
                Ok(key) => normalized.len() > 0 && spec_base32_decode(normalized) == Some(key@)
                    && key@.len() == normalized.len() * 5 / 8 && key@.len() > 0 && key@.len()
                    <= secret_key@.len(),
                Err(e) => e == TotpError::Decode && (normalized.len() == 0 || spec_base32_decode(
                    normalized,
                ) is None),
            }
        }),
{
    let normalized = normalize_secret(secret_key);
    if normalized.len() == 0 {
        return Err(TotpError::Decode);
    }
    proof {
        lemma_normalize_len(secret_key@);
    }
    match base32_nopad_decode(normalized.as_slice()) {
        Ok(key) => {
            proof {
                let n = normalized@.len();
                assert(n % 8 != 1);
                assert(n >= 2);
                lemma_div_is_ordered(10, 5 * n as int, 8);
                lemma_div_is_ordered(5 * n as int, 8 * n as int, 8);
                vstd::arithmetic::div_mod::lemma_div_by_multiple(n as int, 8);
                assert(8 * n as int == n as int * 8);
            }
            Ok(key)
        },
        Err(_) => Err(TotpError::Decode),
    }
}

/// Decodes a textual secret into key bytes; see `decode_key_bytes` for
/// the behaviour on the secret's UTF-8 bytes.
pub fn decode_key(secret_key: &str) -> (r: Result<Vec<u8>, TotpError>)
    requires
        secret_key.spec_bytes().len() <= B32_DECODE_INPUT_MAX,
    ensures
        ({
            let normalized = spec_normalize(secret_key.spec_bytes());
            match r {
                Ok(key) => normalized.len() > 0 && spec_base32_decode(normalized) == Some(key@)
                    && key@.len() == normalized.len() * 5 / 8 && key@.len() > 0 && key@.len()
                    <= secret_key.spec_bytes().len(),
                Err(e) => e == TotpError::Decode && (normalized.len() == 0 || spec_base32_decode(
                    normalized,
                ) is None),
            }
        }),
{
    decode_key_bytes(secret_key.as_bytes())
}

/// Round trip (unpadded Base32 conformance): decoding the Base32
/// encoding of any byte string yields exactly that byte string.
pub fn base32_round_trip(bytes: &[u8]) -> (r: Vec<u8>)
    requires
        bytes@.len() <= B32_ENCODE_INPUT_MAX,
    ensures
        r@ == bytes@,
{
    let encoded = base32_nopad_encode(bytes);
    proof {
        lemma_encoded_len_fits(bytes@.len());
    }
    match base32_nopad_decode(encoded.as_slice()) {
        Ok(decoded) => decoded,
        Err(_) => unreached(),
    }
}

/// Round trip through the secret decoder: a non-empty byte string's
/// Base32 encoding is already canonical text — upper-case alphabet
/// symbols with nothing to trim — so decoding it as a secret yields
/// exactly those bytes. (An empty byte string is out: its encoding is
/// the empty secret, which the decoder rejects.)
pub fn decode_key_round_trip(bytes: &[u8]) -> (r: Vec<u8>)
    requires
        0 < bytes@.len() <= B32_ENCODE_INPUT_MAX,
    ensures
        r@ == bytes@,
{
    let encoded = base32_nopad_encode(bytes);
    proof {
        lemma_normalize_symbols_noop(encoded@);
        lemma_encoded_len_fits(bytes@.len());
        lemma_div_is_ordered(12, 8 * bytes@.len() as int + 4, 5);
    }
    match decode_key_bytes(encoded.as_slice()) {
        Ok(key) => key,
        Err(_) => unreached(),
    }
}

/// An encoding of an input the encoder accepts is short enough for the
/// decoder to accept in turn.
proof fn lemma_encoded_len_fits(n: nat)
    requires
        n <= usize::MAX as nat / 512,
    ensures
        (8 * n + 4) / 5 <= usize::MAX as nat / 8,
{
    let m = usize::MAX as int;
    let q = m / 512;
    vstd::arithmetic::div_mod::lemma_fundamental_div_mod(m, 512);
    vstd::arithmetic::div_mod::lemma_fundamental_div_mod(m, 8);
    vstd::arithmetic::div_mod::lemma_fundamental_div_mod(8 * n as int + 4, 5);
    assert(512 * q <= m);
    assert(8 * n as int + 4 <= 8 * q + 4);
    lemma_div_is_ordered(8 * n as int + 4, 8 * q + 4, 5);
    lemma_div_is_ordered(8 * q + 4, 10 * q + 5, 5);
    assert((10 * q + 5) / 5 == 2 * q + 1) by {
        vstd::arithmetic::div_mod::lemma_fundamental_div_mod_converse(10 * q + 5, 5, 2 * q + 1, 0);
    }
    assert(8 * (2 * q + 1) <= m || q == 0) by {
        assert(q >= 1 ==> 16 * q + 8 <= 512 * q);
    }
    if q == 0 {
        assert(n == 0);
        assert((8 * n + 4) / 5 == 0);
    } else {
        lemma_div_is_ordered(8 * (2 * q + 1), m, 8);
        vstd::arithmetic::div_mod::lemma_div_by_multiple(2 * q + 1, 8);
    }
}

} // verus!
