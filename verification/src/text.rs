//! Verified text utilities shared by the codec and the command interpreter:
//! UTF-8 decoding, ASCII case folding, token splitting and decimal numbers.

use vstd::prelude::*;

verus! {

use vstd::utf8::{valid_utf8, decode_utf8, encode_utf8};
use vstd::string::{StringExecFns, StrSliceExecFns, StringSliceAdditionalSpecFns};

/// Relies on String::from_utf8: it succeeds exactly on the byte sequences
/// that vstd's UTF-8 model accepts, and then decodes them to the characters
/// the model gives (the same model vstd's own string specifications use).
#[verifier::external_body]
pub(crate) fn bytes_to_string(bytes: Vec<u8>) -> (r: Option<String>)
    ensures
        r is Some <==> valid_utf8(bytes@),
        r matches Some(s) ==> s@ == decode_utf8(bytes@),
{
    match String::from_utf8(bytes) {
        Ok(s) => Some(s),
        Err(_) => None,
    }
}

/// The characters `str::to_lowercase` turns the given characters into. The
/// full Unicode lowercase mapping is not modelled here; the contracts only
/// need that equal inputs give equal results.
pub uninterp spec fn lower_of(s: Seq<char>) -> Seq<char>;

/// Relies on str::to_lowercase: the result depends on the characters alone.
#[verifier::external_body]
pub(crate) fn lowercase(s: &str) -> (r: String)
    ensures
        r@ == lower_of(s@),
{
    s.to_lowercase()
}

/// ASCII upper-casing of one byte: the lower-case letters fold onto the
/// upper-case ones and every other byte stays itself.
pub open spec fn upper_byte(b: u8) -> u8 {
    if 97 <= b && b <= 122 {
        (b - 32) as u8
    } else {
        b
    }
}

/// ASCII upper-casing of a byte sequence.
pub open spec fn upper_bytes(s: Seq<u8>) -> Seq<u8> {
    s.map_values(|b: u8| upper_byte(b))
}

/// Compares two byte strings case-insensitively over ASCII letters.
pub fn eq_ignore_ascii_case(a: &[u8], b: &[u8]) -> (r: bool)
    ensures
        r == (upper_bytes(a@) == upper_bytes(b@)),
{
    if a.len() != b.len() {
        proof {
            assert(upper_bytes(a@).len() != upper_bytes(b@).len());
        }
        return false;
    }
    let mut i: usize = 0;
    while i < a.len()
        invariant
            a@.len() == b@.len(),
            i <= a.len(),
            forall|j: int| 0 <= j < i ==> upper_byte(a@[j]) == upper_byte(b@[j]),
        decreases a.len() - i,
    {
        let x = *vstd::slice::slice_index_get(a, i);
        let y = *vstd::slice::slice_index_get(b, i);
        let xu = if 97 <= x && x <= 122 { x - 32 } else { x };
        let yu = if 97 <= y && y <= 122 { y - 32 } else { y };
        if xu != yu {
            proof {
                assert(upper_bytes(a@)[i as int] != upper_bytes(b@)[i as int]);
            }
            return false;
        }
        i = i + 1;
    }
    proof {
        assert(upper_bytes(a@) =~= upper_bytes(b@));
    }
    true
}

/// The index of the first space byte in `s`, or `s.len()` if there is none.
pub open spec fn spec_space_index(s: Seq<u8>) -> int
    decreases s.len(),
{
    if s.len() == 0 {
        0
    } else if s[0] == 32 {
        0
    } else {
        1 + spec_space_index(s.drop_first())
    }
}

/// An index below which there is no space, and at which there is one unless
/// it is the end, is exactly the first-space index.
proof fn lemma_space_index_characterization(s: Seq<u8>, i: int)
    requires
        0 <= i <= s.len(),
        forall|j: int| 0 <= j < i ==> s[j] != 32,
        i < s.len() ==> s[i] == 32,
    ensures
        spec_space_index(s) == i,
    decreases i,
{
    if i == 0 {
    } else {
        assert(s[0] != 32);
        lemma_space_index_characterization(s.drop_first(), i - 1);
    }
}

/// Finds the first space byte, or the length of the buffer if there is none.
pub fn space_index(s: &[u8]) -> (r: usize)
    ensures
        r == spec_space_index(s@),
        r <= s@.len(),
{
    let mut i: usize = 0;
    while i < s.len()
        invariant
            i <= s.len(),
            forall|j: int| 0 <= j < i ==> s@[j] != 32,
        decreases s.len() - i,
    {
        if *vstd::slice::slice_index_get(s, i) == 32 {
            proof {
                lemma_space_index_characterization(s@, i as int);
            }
            return i;
        }
        i = i + 1;
    }
    proof {
        lemma_space_index_characterization(s@, i as int);
    }
    i
}

/// Compares two byte strings for equality.
pub fn bytes_eq(a: &[u8], b: &[u8]) -> (r: bool)
    ensures
        r == (a@ == b@),
{
    if a.len() != b.len() {
        return false;
    }
    let mut i: usize = 0;
    while i < a.len()
        invariant
            a@.len() == b@.len(),
            i <= a.len(),
            forall|j: int| 0 <= j < i ==> a@[j] == b@[j],
        decreases a.len() - i,
    {
        if *vstd::slice::slice_index_get(a, i) != *vstd::slice::slice_index_get(b, i) {
            return false;
        }
        i = i + 1;
    }
    proof {
        assert(a@ =~= b@);
    }
    true
}

/// Compares two text strings for equality of their characters.
pub fn str_eq(a: &str, b: &str) -> (r: bool)
    ensures
        r == (a@ == b@),
{
    let r = bytes_eq(a.as_bytes(), b.as_bytes());
    proof {
        if a.spec_bytes() == b.spec_bytes() {
            vstd::utf8::encode_utf8_decode_utf8(a@);
            vstd::utf8::encode_utf8_decode_utf8(b@);
            assert(a@ == b@);
        }
    }
    r
}

/// The character of one decimal digit.
pub open spec fn digit_char(d: int) -> char
    recommends
        0 <= d <= 9,
{
    (48 + d) as char
}

/// The decimal notation of a number, most significant digit first.
pub open spec fn dec_chars(n: int) -> Seq<char>
    recommends
        n >= 0,
    decreases n,
{
    if n < 10 {
        seq![digit_char(n)]
    } else {
        dec_chars(n / 10) + seq![digit_char(n % 10)]
    }
}

/// Ten to the given power.
pub open spec fn pow10(k: nat) -> int
    decreases k,
{
    if k == 0 {
        1
    } else {
        10 * pow10((k - 1) as nat)
    }
}

/// Decimal notation is ASCII, never empty, and takes at most `k` digits for
/// a number below the `k`-th power of ten.
pub proof fn lemma_dec_chars_len(n: int, k: nat)
    requires
        0 <= n < pow10(k),
        k >= 1,
    ensures
        1 <= dec_chars(n).len() <= k,
        vstd::utf8::is_ascii_chars(dec_chars(n)),
    decreases n,
{
    if n < 10 {
        assert(48 <= 48 + n <= 57);
        assert(dec_chars(n) =~= seq![digit_char(n)]);
        assert(digit_char(n) as int == 48 + n);
    } else {
        assert(k >= 2) by {
            if k == 1 {
                reveal_with_fuel(pow10, 3);
                assert(pow10(1) == 10);
            }
        }
        assert(n / 10 < pow10((k - 1) as nat)) by {
            assert(pow10(k) == 10 * pow10((k - 1) as nat));
            assert(n >= 10 * (n / 10)) by (nonlinear_arith);
            if n / 10 >= pow10((k - 1) as nat) {
                assert(10 * (n / 10) >= 10 * pow10((k - 1) as nat)) by (nonlinear_arith)
                    requires
                        n / 10 >= pow10((k - 1) as nat),
                ;
            }
        }
        lemma_dec_chars_len(n / 10, (k - 1) as nat);
        assert(48 <= 48 + n % 10 <= 57);
        assert(digit_char(n % 10) as int == 48 + n % 10);
    }
}

/// The decimal notation of any `u64` value is ASCII and takes 1 to 20 digits.
pub proof fn lemma_dec_chars_u64(n: u64)
    ensures
        1 <= dec_chars(n as int).len() <= 20,
        vstd::utf8::is_ascii_chars(dec_chars(n as int)),
        encode_utf8(dec_chars(n as int)).len() == dec_chars(n as int).len(),
{
    assert(pow10(20) == 100000000000000000000) by {
        reveal_with_fuel(pow10, 21);
    }
    lemma_dec_chars_len(n as int, 20);
    vstd::utf8::is_ascii_chars_encode_utf8(dec_chars(n as int));
}

/// The string of one decimal digit.
fn digit_str(d: u64) -> (r: &'static str)
    requires
        d <= 9,
    ensures
        r@ == seq![digit_char(d as int)],
{
    proof {
        reveal_strlit("0");
        reveal_strlit("1");
        reveal_strlit("2");
        reveal_strlit("3");
        reveal_strlit("4");
        reveal_strlit("5");
        reveal_strlit("6");
        reveal_strlit("7");
        reveal_strlit("8");
        reveal_strlit("9");
    }
    let r = match d {
        0 => "0",
        1 => "1",
        2 => "2",
        3 => "3",
        4 => "4",
        5 => "5",
        6 => "6",
        7 => "7",
        8 => "8",
        _ => "9",
    };
    proof {
        assert(r@ =~= seq![digit_char(d as int)]);
    }
    r
}

/// Writes a number in decimal notation.
pub fn u64_to_dec(n: u64) -> (r: String)
    ensures
        r@ == dec_chars(n as int),
    decreases n,
{
    if n < 10 {
        String::from_str(digit_str(n))
    } else {
        let mut s = u64_to_dec(n / 10);
        s.append(digit_str(n % 10));
        s
    }
}

/// Writes a 128-bit number in decimal notation.
pub fn u128_to_dec(n: u128) -> (r: String)
    ensures
        r@ == dec_chars(n as int),
    decreases n,
{
    if n < 10 {
        String::from_str(digit_str(n as u64))
    } else {
        let mut s = u128_to_dec(n / 10);
        s.append(digit_str((n % 10) as u64));
        s
    }
}

/// One decimal digit character.
pub open spec fn is_digit(c: char) -> bool {
    48 <= c as int <= 57
}

/// Nothing but decimal digit characters.
pub open spec fn all_digits(s: Seq<char>) -> bool {
    forall|i: int| 0 <= i < s.len() ==> is_digit(#[trigger] s[i])
}

/// The number the given digit characters denote.
pub open spec fn digits_val(s: Seq<char>) -> int
    decreases s.len(),
{
    if s.len() == 0 {
        0
    } else {
        digits_val(s.drop_last()) * 10 + (s.last() as int - 48)
    }
}

/// The number a string of digits denotes, when the string is nothing but
/// digits and the number fits; decimal text parses to exactly this.
pub open spec fn spec_parse_u64(s: Seq<char>) -> Option<u64> {
    if s.len() == 0 || !all_digits(s) || digits_val(s) > u64::MAX {
        None
    } else {
        Some(digits_val(s) as u64)
    }
}

/// A digit string denotes a number that is not negative.
proof fn lemma_digits_val_nonneg(s: Seq<char>)
    requires
        all_digits(s),
    ensures
        digits_val(s) >= 0,
    decreases s.len(),
{
    if s.len() > 0 {
        lemma_digits_val_nonneg(s.drop_last());
        assert(digits_val(s.drop_last()) * 10 >= 0) by (nonlinear_arith)
            requires
                digits_val(s.drop_last()) >= 0,
        ;
    }
}

/// Dropping digits from the end never makes the denoted number larger.
proof fn lemma_digits_val_prefix(s: Seq<char>, i: int)
    requires
        all_digits(s),
        0 <= i <= s.len(),
    ensures
        digits_val(s.subrange(0, i)) <= digits_val(s),
    decreases s.len() - i,
{
    if i < s.len() {
        let t = s.subrange(0, i + 1);
        assert(t.drop_last() =~= s.subrange(0, i));
        lemma_digits_val_nonneg(s.subrange(0, i));
        assert(digits_val(t) >= digits_val(s.subrange(0, i))) by (nonlinear_arith)
            requires
                digits_val(t) == digits_val(s.subrange(0, i)) * 10 + (t.last() as int - 48),
                digits_val(s.subrange(0, i)) >= 0,
                48 <= t.last() as int <= 57,
        ;
        lemma_digits_val_prefix(s, i + 1);
        assert(s.subrange(0, s.len() as int) =~= s);
    } else {
        assert(s.subrange(0, i) =~= s);
    }
}

/// Reads a number in decimal notation; digits only, no sign, and the value
/// must fit.
pub fn parse_u64(s: &str) -> (r: Option<u64>)
    ensures
        r == spec_parse_u64(s@),
{
    let n = s.unicode_len();
    if n == 0 {
        return None;
    }
    let mut acc: u64 = 0;
    let mut i: usize = 0;
    while i < n
        invariant
            n == s@.len(),
            0 < n,
            i <= n,
            all_digits(s@.subrange(0, i as int)),
            acc == digits_val(s@.subrange(0, i as int)),
        decreases n - i,
    {
        let c = s.get_char(i);
        let v = c as u32;
        if v < 48 || v > 57 {
            proof {
                assert(!is_digit(s@[i as int]));
                assert(!all_digits(s@));
            }
            return None;
        }
        let d = (v - 48) as u64;
        proof {
            let t = s@.subrange(0, i + 1);
            assert(t.drop_last() =~= s@.subrange(0, i as int));
            assert(digits_val(t) == acc * 10 + d);
        }
        if acc > (u64::MAX - d) / 10 {
            proof {
                let t = s@.subrange(0, i + 1);
                assert(digits_val(t) > u64::MAX) by (nonlinear_arith)
                    requires
                        digits_val(t) == acc * 10 + d,
                        acc > (u64::MAX - d) / 10,
                        d <= 9,
                ;
                if all_digits(s@) {
                    lemma_digits_val_prefix(s@, i + 1);
                }
            }
            return None;
        }
        proof {
            assert(acc * 10 + d <= u64::MAX) by (nonlinear_arith)
                requires
                    acc <= (u64::MAX - d) / 10,
                    d <= 9,
            ;
        }
        acc = acc * 10 + d;
        i = i + 1;
    }
    proof {
        assert(s@.subrange(0, n as int) =~= s@);
        lemma_digits_val_nonneg(s@);
    }
    Some(acc)
}

/// An ASCII whitespace character: space, tab, line feed or carriage return.
pub open spec fn is_ws(c: char) -> bool {
    c == ' ' || c == '\t' || c == '\n' || c == '\r'
}

/// The length of the longest prefix without whitespace.
pub open spec fn spec_token_len(s: Seq<char>) -> int
    decreases s.len(),
{
    if s.len() == 0 {
        0
    } else if is_ws(s[0]) {
        0
    } else {
        1 + spec_token_len(s.drop_first())
    }
}

/// The token length stays within the sequence.
pub proof fn lemma_token_len_bounds(s: Seq<char>)
    ensures
        0 <= spec_token_len(s) <= s.len(),
    decreases s.len(),
{
    if s.len() > 0 && !is_ws(s[0]) {
        lemma_token_len_bounds(s.drop_first());
    }
}

/// An index below which there is no whitespace, and at which there is some
/// unless it is the end, is exactly the token length.
proof fn lemma_token_len_characterization(s: Seq<char>, i: int)
    requires
        0 <= i <= s.len(),
        forall|j: int| 0 <= j < i ==> !is_ws(s[j]),
        i < s.len() ==> is_ws(s[i]),
    ensures
        spec_token_len(s) == i,
    decreases i,
{
    if i > 0 {
        lemma_token_len_characterization(s.drop_first(), i - 1);
    }
}

/// The whitespace-separated tokens of a character sequence, in order.
pub open spec fn spec_tokens(s: Seq<char>) -> Seq<Seq<char>>
    decreases s.len(),
    via spec_tokens_decreases
{
    if s.len() == 0 {
        Seq::empty()
    } else if is_ws(s[0]) {
        spec_tokens(s.drop_first())
    } else {
        let k = spec_token_len(s);
        seq![s.subrange(0, k)] + spec_tokens(s.subrange(k, s.len() as int))
    }
}

#[via_fn]
proof fn spec_tokens_decreases(s: Seq<char>) {
    if s.len() > 0 && !is_ws(s[0]) {
        lemma_token_len_bounds(s.drop_first());
        assert(spec_token_len(s) == 1 + spec_token_len(s.drop_first()));
        lemma_token_len_bounds(s);
    }
}

/// Measures the token that starts the string.
fn token_len(s: &str) -> (r: usize)
    ensures
        r == spec_token_len(s@),
        r <= s@.len(),
{
    let n = s.unicode_len();
    let mut i: usize = 0;
    while i < n
        invariant
            n == s@.len(),
            i <= n,
            forall|j: int| 0 <= j < i ==> !is_ws(s@[j]),
        decreases n - i,
    {
        let c = s.get_char(i);
        if c == ' ' || c == '\t' || c == '\n' || c == '\r' {
            proof {
                lemma_token_len_characterization(s@, i as int);
            }
            return i;
        }
        i = i + 1;
    }
    proof {
        lemma_token_len_characterization(s@, i as int);
    }
    i
}

/// Splits a string into its whitespace-separated tokens.
pub fn tokens_of(s: &str) -> (r: Vec<String>)
    ensures
        r.deep_view() == spec_tokens(s@),
    decreases s@.len(),
{
    let n = s.unicode_len();
    if n == 0 {
        let r: Vec<String> = Vec::new();
        proof {
            assert(r.deep_view() =~= spec_tokens(s@));
        }
        return r;
    }
    let c = s.get_char(0);
    if c == ' ' || c == '\t' || c == '\n' || c == '\r' {
        let rest = s.substring_char(1, n);
        let r = tokens_of(rest);
        proof {
            assert(rest@ =~= s@.drop_first());
        }
        r
    } else {
        let k = token_len(s);
        proof {
            lemma_token_len_bounds(s@.drop_first());
            assert(spec_token_len(s@) == 1 + spec_token_len(s@.drop_first()));
        }
        let tok = String::from_str(s.substring_char(0, k));
        let rest = s.substring_char(k, n);
        let mut r = tokens_of(rest);
        r.insert(0, tok);
        proof {
            assert(r.deep_view() =~= spec_tokens(s@));
        }
        r
    }
}

} // verus!
