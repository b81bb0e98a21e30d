//! Reversible fixed-width base-62 encoding between bounded integer
//! identifiers and short alphanumeric strings.
//!
//! The canonical textual form of an identifier is its base-62 digits,
//! most-significant symbol first, left-padded with `0` to a minimum
//! width of three symbols. Decoding accepts a string of any width and
//! saturates at `u64::MAX` when the digits name a larger value; that
//! saturation choice is part of this codec's documented behaviour.

use vstd::prelude::*;
use vstd::string::StringSliceAdditionalSpecFns;
use vstd::arithmetic::div_mod::lemma_fundamental_div_mod;
use vstd::arithmetic::div_mod::lemma_mod_breakdown;
use vstd::arithmetic::div_mod::lemma_small_mod;
use vstd::arithmetic::power::lemma_pow_positive;
use vstd::arithmetic::power::pow;
use vstd::utf8::encode_utf8;
use vstd::utf8::is_ascii_chars;
use vstd::utf8::is_ascii_chars_encode_utf8;

verus! {

/// The native carrier of an identifier value.
pub type ImageUrlImpl = u64;

/// Number of symbols in the identifier alphabet.
pub const BASE: u64 = 62;

/// An identifier for one stored blob: an unsigned value rendered
/// canonically as a fixed-width base-62 string.
#[derive(PartialEq, Eq, Structural, PartialOrd, Hash, Debug, Clone, Copy)]
pub struct ImageUrl(pub ImageUrlImpl);

/// Decode failure: the contained byte is not a symbol of the
/// 62-symbol identifier alphabet.
#[derive(PartialEq, Eq, Structural, Debug, Clone, Copy)]
pub struct OutOfRange(pub u8);

/// True when `b` is the ASCII code of a symbol of the identifier
/// alphabet `0-9A-Za-z`.
pub open spec fn is_digit_byte(b: u8) -> bool {
    (48 <= b <= 57) || (65 <= b <= 90) || (97 <= b <= 122)
}

/// The position of the alphabet symbol `b` within the alphabet:
/// `0-9` come first, then `A-Z`, then `a-z`.
/// Meaningful only when `is_digit_byte(b)` holds.
pub open spec fn digit_val(b: u8) -> nat {
    if 48 <= b <= 57 {
        (b - 48) as nat
    } else if 65 <= b <= 90 {
        (b - 55) as nat
    } else if 97 <= b <= 122 {
        (b - 61) as nat
    } else {
        0
    }
}

/// The ASCII code of the alphabet symbol at position `d`.
/// Meaningful only when `d < 62`.
pub open spec fn byte_of_digit(d: nat) -> u8 {
    if d < 10 {
        (48 + d) as u8
    } else if d < 36 {
        (55 + d) as u8
    } else {
        (61 + d) as u8
    }
}

/// Every byte of `s` is an alphabet symbol.
pub open spec fn all_digit_bytes(s: Seq<u8>) -> bool {
    forall|i: int| 0 <= i < s.len() ==> is_digit_byte(s[i])
}

/// The value named by the digit string `s`, by Horner's method:
/// most-significant symbol first. The empty string names zero.
pub open spec fn spec_decode_val(s: Seq<u8>) -> nat
    decreases s.len(),
{
    if s.len() == 0 {
        0
    } else {
        spec_decode_val(s.drop_last()) * 62 + digit_val(s.last())
    }
}

/// The value an executable decode returns for the digit string `s`:
/// the named value, saturated at `u64::MAX`.
pub open spec fn spec_decode_sat(s: Seq<u8>) -> u64 {
    if spec_decode_val(s) <= u64::MAX {
        spec_decode_val(s) as u64
    } else {
        u64::MAX
    }
}

/// How many base-62 digits `v` occupies; zero occupies none.
pub open spec fn spec_num_digits(v: nat) -> nat
    decreases v,
{
    if v == 0 {
        0
    } else {
        1 + spec_num_digits(v / 62)
    }
}

/// The low `width` base-62 digits of `v`, most-significant first,
/// left-padded with the zero symbol.
pub open spec fn spec_encode_digits(v: nat, width: nat) -> Seq<u8>
    decreases width,
{
    if width == 0 {
        Seq::empty()
    } else {
        spec_encode_digits(v / 62, (width - 1) as nat).push(byte_of_digit(v % 62))
    }
}

/// The width of the canonical form of `v`: at least three symbols.
pub open spec fn spec_canonical_width(v: nat) -> nat {
    if spec_num_digits(v) < 3 {
        3
    } else {
        spec_num_digits(v)
    }
}

/// The canonical byte form of the identifier value `v`.
pub open spec fn spec_canonical(v: nat) -> Seq<u8> {
    spec_encode_digits(v, spec_canonical_width(v))
}

/// The characters of an ASCII byte string.
pub open spec fn chars_of_bytes(s: Seq<u8>) -> Seq<char> {
    s.map_values(|b: u8| b as char)
}

/// Searches the identifier alphabet for the byte `ch` and returns its
/// position, or `None` when `ch` is not an alphabet symbol.
pub fn index(ch: u8) -> (r: Option<u8>)
    ensures
        match r {
            Some(d) => is_digit_byte(ch) && d == digit_val(ch),
            None => !is_digit_byte(ch),
        },
{
    if 48 <= ch && ch <= 57 {
        Some(ch - 48)
    } else if 65 <= ch && ch <= 90 {
        Some(ch - 55)
    } else if 97 <= ch && ch <= 122 {
        Some(ch - 61)
    } else {
        None
    }
}

/// The ASCII code of the alphabet symbol at position `d`.
fn digit_byte(d: u64) -> (r: u8)
    requires
        d < 62,
    ensures
        r == byte_of_digit(d as nat),
{
    if d < 10 {
        48 + (d as u8)
    } else if d < 36 {
        55 + (d as u8)
    } else {
        61 + (d as u8)
    }
}

/// How many base-62 digits `num` occupies.
pub fn compute_bits_required(num: ImageUrlImpl) -> (r: usize)
    ensures
        r == spec_num_digits(num as nat),
{
    let mut n = num;
    let mut result: usize = 0;
    proof {
        lemma_num_digits_le_11(num as nat);
    }
    while n > 0
        invariant
            result + spec_num_digits(n as nat) == spec_num_digits(num as nat),
            spec_num_digits(num as nat) <= 11,
        decreases n,
    {
        n = n / BASE;
        result = result + 1;
    }
    result
}

/// The least identifier value that does not fit in `max_url_length`
/// base-62 symbols: `62 ^ max_url_length`. Lengths above ten would
/// overflow the native carrier.
pub fn compute_max_url(max_url_length: u32) -> (r: ImageUrlImpl)
    requires
        max_url_length <= 10,
    ensures
        r == pow(62, max_url_length as nat),
{
    let mut result: u64 = 1;
    let mut i: u32 = 0;
    proof {
        reveal(pow);
        lemma_pow62_10_value();
        lemma_pow62_monotonic_le(max_url_length as nat, 10);
    }
    while i < max_url_length
        invariant
            i <= max_url_length <= 10,
            result == pow(62, i as nat),
            pow(62, max_url_length as nat) <= u64::MAX,
        decreases max_url_length - i,
    {
        proof {
            reveal(pow);
            lemma_pow62_monotonic_le((i + 1) as nat, max_url_length as nat);
            assert(pow(62, (i + 1) as nat) == 62 * pow(62, i as nat));
        }
        result = result * BASE;
        i = i + 1;
    }
    result
}

/// Index of the first byte of `s` outside the alphabet, or `s.len()`
/// when every byte is a symbol.
pub open spec fn first_non_digit(s: Seq<u8>) -> int
    decreases s.len(),
{
    if s.len() == 0 {
        0
    } else if !is_digit_byte(s[0]) {
        0
    } else {
        1 + first_non_digit(s.drop_first())
    }
}

/// The low `width` base-62 digits of `v`, as bytes.
fn encode_digits_exec(v: u64, width: usize) -> (r: Vec<u8>)
    ensures
        r@ == spec_encode_digits(v as nat, width as nat),
    decreases width,
{
    if width == 0 {
        Vec::new()
    } else {
        let mut r = encode_digits_exec(v / BASE, width - 1);
        r.push(digit_byte(v % BASE));
        r
    }
}

/// Every byte of an encoded digit string is an alphabet symbol.
pub proof fn lemma_encode_digits_are_digits(v: nat, width: nat)
    ensures
        all_digit_bytes(spec_encode_digits(v, width)),
        spec_encode_digits(v, width).len() == width,
    decreases width,
{
    if width > 0 {
        lemma_encode_digits_are_digits(v / 62, (width - 1) as nat);
        let s = spec_encode_digits(v, width);
        assert forall|i: int| 0 <= i < s.len() implies is_digit_byte(s[i]) by {
            if i < width - 1 {
                assert(s[i] == spec_encode_digits(v / 62, (width - 1) as nat)[i]);
            } else {
                assert(0 <= v % 62 < 62);
            }
        }
    }
}

/// Builds a `String` out of ASCII bytes.
///
/// Relies on `String::from_utf8`: bytes below 128 are one-byte UTF-8
/// code points, so the call succeeds and the string holds exactly
/// those bytes, each as one character.
#[verifier::external_body]
fn ascii_bytes_to_string(bytes: Vec<u8>) -> (r: String)
    requires
        forall|i: int| 0 <= i < bytes@.len() ==> bytes@[i] < 128,
    ensures
        r@ == chars_of_bytes(bytes@),
{
    match String::from_utf8(bytes) {
        Ok(s) => s,
        Err(_) => String::new(),
    }
}

/// Decodes a base-62 digit string by Horner's method, saturating at
/// `u64::MAX`, and fails at the first byte outside the alphabet.
pub fn decode_bytes(s: &[u8]) -> (r: Result<ImageUrl, OutOfRange>)
    ensures
        match r {
            Ok(url) => all_digit_bytes(s@) && url.0 == spec_decode_sat(s@),
            Err(e) => !all_digit_bytes(s@) && !is_digit_byte(e.0) && e.0 == s@[first_non_digit(
                s@,
            )],
        },
{
    let n = s.len();
    let mut acc: u64 = 0;
    let mut i: usize = 0;
    while i < n
        invariant
            i <= n == s@.len(),
            forall|j: int| 0 <= j < i ==> is_digit_byte(s@[j]),
            acc == spec_decode_sat(s@.subrange(0, i as int)),
        decreases n - i,
    {
        let b = s[i];
        let ghost prefix = s@.subrange(0, i as int);
        let ghost longer = s@.subrange(0, i + 1);
        proof {
            assert(longer.drop_last() =~= prefix);
            assert(longer.last() == s@[i as int]);
        }
        match index(b) {
            Some(d) => {
                proof {
                    assert(spec_decode_val(longer) == spec_decode_val(prefix) * 62 + digit_val(b));
                    if spec_decode_val(prefix) > u64::MAX {
                        assert(spec_decode_val(prefix) * 62 >= spec_decode_val(prefix) * 1);
                    }
                }
                acc = match acc.checked_mul(BASE) {
                    Some(t) => t.saturating_add(d as u64),
                    None => u64::MAX,
                };
            },
            None => {
                proof {
                    lemma_first_non_digit_at(s@, i as int);
                }
                return Err(OutOfRange(b));
            },
        }
        i = i + 1;
    }
    proof {
        assert(s@.subrange(0, n as int) =~= s@);
    }
    Ok(ImageUrl(acc))
}

/// A prefix of symbols followed by a non-symbol pins down
/// `first_non_digit`.
proof fn lemma_first_non_digit_at(s: Seq<u8>, i: int)
    requires
        0 <= i < s.len(),
        !is_digit_byte(s[i]),
        forall|j: int| 0 <= j < i ==> is_digit_byte(s[j]),
    ensures
        !all_digit_bytes(s),
        first_non_digit(s) == i,
    decreases i,
{
    if i > 0 {
        lemma_first_non_digit_at(s.drop_first(), i - 1);
    }
}

impl ImageUrl {
    /// The canonical byte form of this identifier: its base-62 digits,
    /// most-significant symbol first, left-padded with `0` to at least
    /// three symbols.
    pub fn encode_bytes(&self) -> (r: Vec<u8>)
        ensures
            r@ == spec_canonical(self.0 as nat),
    {
        let width = compute_bits_required(self.0);
        let w = if width < 3 {
            3
        } else {
            width
        };
        encode_digits_exec(self.0, w)
    }

    /// The canonical textual form of this identifier.
    pub fn encode(&self) -> (s: String)
        ensures
            s@ == chars_of_bytes(spec_canonical(self.0 as nat)),
    {
        let bytes = self.encode_bytes();
        proof {
            lemma_encode_digits_are_digits(
                self.0 as nat,
                spec_canonical_width(self.0 as nat),
            );
        }
        ascii_bytes_to_string(bytes)
    }

    /// Decodes the textual form `s`: Horner's-method accumulation over
    /// the alphabet, over the UTF-8 bytes of `s`, failing at the first
    /// byte outside the alphabet. No particular width is required.
    pub fn from_str(s: &str) -> (r: Result<ImageUrl, OutOfRange>)
        ensures
            match r {
                Ok(url) => all_digit_bytes(s.spec_bytes()) && url.0 == spec_decode_sat(
                    s.spec_bytes(),
                ),
                Err(e) => !all_digit_bytes(s.spec_bytes()) && !is_digit_byte(e.0) && e.0
                    == s.spec_bytes()[first_non_digit(s.spec_bytes())],
            },
    {
        decode_bytes(s.as_bytes())
    }
}

/// Draws a fresh candidate identifier below `bound`.
///
/// Relies on `rand::random_range`: it returns a value uniformly drawn
/// from the given range and panics only when the range is empty.
/// Nothing more is promised of the draw: every value below `bound`
/// may come back.
#[verifier::external_body]
pub fn gen_image_url(bound: ImageUrlImpl) -> (r: ImageUrl)
    requires
        bound >= 1,
    ensures
        r.0 < bound,
{
    ImageUrl(rand::random_range(0..bound))
}

/// Any value held by the native carrier occupies at most 11 digits.
proof fn lemma_num_digits_le_11(v: nat)
    requires
        v <= u64::MAX,
    ensures
        spec_num_digits(v) <= 11,
{
    lemma_pow62_10_value();
    lemma_num_digits_at_most(v, 11);
}

/// `62 ^ 10` and `62 ^ 11` as concrete values.
proof fn lemma_pow62_10_value()
    ensures
        pow(62, 10) == 0xba5ca5392cb0400,
        pow(62, 11) == 0x2d227003d8d2af800,
{
    reveal_with_fuel(pow, 12);
}

/// Powers of 62 are monotonic in the exponent.
proof fn lemma_pow62_monotonic_le(e1: nat, e2: nat)
    requires
        e1 <= e2,
    ensures
        pow(62, e1) <= pow(62, e2),
    decreases e2 - e1,
{
    reveal(pow);
    if e1 < e2 {
        lemma_pow62_monotonic_le(e1, (e2 - 1) as nat);
        lemma_pow_positive(62, (e2 - 1) as nat);
        assert(pow(62, e2) == 62 * pow(62, (e2 - 1) as nat));
    }
}

/// A value below `62 ^ w` occupies at most `w` digits.
proof fn lemma_num_digits_at_most(v: nat, w: nat)
    requires
        v < pow(62, w),
    ensures
        spec_num_digits(v) <= w,
    decreases v,
{
    reveal(pow);
    if v > 0 {
        assert(w > 0) by {
            if w == 0 {
                assert(pow(62, 0) == 1);
            }
        }
        assert(pow(62, w) == 62 * pow(62, (w - 1) as nat));
        lemma_fundamental_div_mod(v as int, 62);
        lemma_num_digits_at_most(v / 62, (w - 1) as nat);
    }
}

/// Every value fits within its own digit count: `v < 62 ^ digits(v)`.
pub proof fn lemma_num_digits_bound(v: nat)
    ensures
        v < pow(62, spec_num_digits(v)),
    decreases v,
{
    reveal(pow);
    if v == 0 {
        assert(pow(62, 0) == 1);
    } else {
        let w = spec_num_digits(v / 62);
        lemma_num_digits_bound(v / 62);
        lemma_fundamental_div_mod(v as int, 62);
        assert(pow(62, w + 1) == 62 * pow(62, w));
        assert(v == 62 * (v / 62) + v % 62);
        assert(v / 62 + 1 <= pow(62, w));
        assert(62 * (v / 62) + 62 <= 62 * pow(62, w)) by {
            vstd::arithmetic::mul::lemma_mul_inequality((v / 62 + 1) as int, pow(62, w), 62);
        }
    }
}

/// Reading back the symbol at alphabet position `d` yields `d`.
proof fn lemma_digit_byte_val(d: nat)
    requires
        d < 62,
    ensures
        is_digit_byte(byte_of_digit(d)),
        digit_val(byte_of_digit(d)) == d,
{
}

/// Decoding the low-`w`-digit encoding of `v` yields `v` modulo `62 ^ w`.
pub proof fn lemma_decode_of_encode_digits(v: nat, w: nat)
    ensures
        spec_decode_val(spec_encode_digits(v, w)) == (v as int) % pow(62, w),
    decreases w,
{
    reveal(pow);
    if w == 0 {
        assert(v % 1 == 0);
    } else {
        lemma_decode_of_encode_digits(v / 62, (w - 1) as nat);
        let s = spec_encode_digits(v, w);
        assert(s.drop_last() =~= spec_encode_digits(v / 62, (w - 1) as nat));
        lemma_digit_byte_val((v % 62) as nat);
        lemma_pow_positive(62, (w - 1) as nat);
        lemma_mod_breakdown(v as int, 62, pow(62, (w - 1) as nat));
    }
}

/// Law: decoding the canonical encoding of an identifier value yields
/// that value back, for every value the native carrier can hold.
pub proof fn lemma_decode_encode_round_trip(v: u64)
    ensures
        all_digit_bytes(spec_canonical(v as nat)),
        spec_canonical(v as nat).len() == spec_canonical_width(v as nat),
        spec_canonical_width(v as nat) >= 3,
        spec_decode_val(spec_canonical(v as nat)) == v,
        spec_decode_sat(spec_canonical(v as nat)) == v,
{
    let w = spec_canonical_width(v as nat);
    lemma_encode_digits_are_digits(v as nat, w);
    lemma_decode_of_encode_digits(v as nat, w);
    lemma_num_digits_bound(v as nat);
    lemma_pow62_monotonic_le(spec_num_digits(v as nat), w);
    lemma_pow_positive(62, w);
    lemma_small_mod(v as nat, pow(62, w) as nat);
}

/// Law: encoding the value decoded from an alphabet string yields a
/// string that decodes to the same value again; when the string names
/// a value the carrier can hold, that value itself round-trips.
pub proof fn lemma_encode_decode_agree(s: Seq<u8>)
    requires
        all_digit_bytes(s),
    ensures
        spec_decode_sat(spec_canonical(spec_decode_sat(s) as nat)) == spec_decode_sat(s),
        spec_decode_val(s) <= u64::MAX ==> spec_decode_val(spec_canonical(spec_decode_val(s)))
            == spec_decode_val(s),
{
    lemma_decode_encode_round_trip(spec_decode_sat(s));
}

/// The UTF-8 bytes of the characters of an alphabet byte string are
/// those bytes again: a canonical string survives the trip through
/// `String` unchanged.
pub proof fn lemma_utf8_of_digit_bytes(b: Seq<u8>)
    requires
        all_digit_bytes(b),
    ensures
        is_ascii_chars(chars_of_bytes(b)),
        encode_utf8(chars_of_bytes(b)) =~= b,
{
    let chars = chars_of_bytes(b);
    assert forall|i: int| 0 <= i < chars.len() implies '\0' <= #[trigger] chars[i] <= '\u{7f}' by {
        assert(chars[i] == b[i] as char);
    }
    is_ascii_chars_encode_utf8(chars);
    assert forall|i: int| 0 <= i < b.len() implies encode_utf8(chars)[i] == b[i] by {
        assert(chars[i] as u8 == encode_utf8(chars)[i]);
        assert((b[i] as char) as u8 == b[i]);
    }
}

/// Law: the canonical string of any identifier value decodes back to
/// that value, through the textual forms that the executable encode
/// and decode exchange as `String` and `&str`.
pub proof fn lemma_string_round_trip(v: u64)
    ensures
        all_digit_bytes(encode_utf8(chars_of_bytes(spec_canonical(v as nat)))),
        spec_decode_sat(encode_utf8(chars_of_bytes(spec_canonical(v as nat)))) == v,
{
    lemma_decode_encode_round_trip(v);
    lemma_utf8_of_digit_bytes(spec_canonical(v as nat));
}

} // verus!
