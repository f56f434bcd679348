//! Character-level string utilities: ASCII classification and lowercasing,
//! decimal rendering and parsing, and conversions between `String`/`&str`
//! and `Vec<char>` so the rest of the library can work on plain sequences.

use vstd::prelude::*;

verus! {

/// Whitespace accepted around the separators of the scraped script pattern
/// and at the front of name parts: space, tab, carriage return, line feed,
/// vertical tab and form feed.
pub open spec fn is_ws_char(c: char) -> bool {
    c == ' ' || c == '\t' || c == '\r' || c == '\n' || c == '\u{0B}' || c == '\u{0C}'
}

/// A decimal digit `'0'..='9'`.
pub open spec fn is_digit_char(c: char) -> bool {
    48 <= c as u32 <= 57
}

/// An ASCII letter or digit.
pub open spec fn is_alnum_char(c: char) -> bool {
    is_digit_char(c) || (65 <= c as u32 <= 90) || (97 <= c as u32 <= 122)
}

/// ASCII lowercasing of one character; other characters pass unchanged.
pub open spec fn spec_lower_char(c: char) -> char {
    if 65 <= c as u32 <= 90 {
        (((c as u8) + 32) as char)
    } else {
        c
    }
}

/// ASCII lowercasing of a character sequence.
pub open spec fn spec_lower(s: Seq<char>) -> Seq<char> {
    s.map_values(|c: char| spec_lower_char(c))
}

/// The digit character for a value below ten.
pub open spec fn spec_digit_char(d: int) -> char
    recommends
        0 <= d < 10,
{
    (((d + 48) as u8) as char)
}

/// The value of a digit sequence read in base ten (most significant first).
pub open spec fn spec_digits_val(s: Seq<char>) -> int
    decreases s.len(),
{
    if s.len() == 0 {
        0
    } else {
        spec_digits_val(s.drop_last()) * 10 + (s.last() as u32 - 48)
    }
}

/// Every character of `s` is a decimal digit.
pub open spec fn all_digits(s: Seq<char>) -> bool {
    forall|i: int| 0 <= i < s.len() ==> is_digit_char(#[trigger] s[i])
}

/// The canonical decimal rendering of a non-negative integer.
pub open spec fn spec_dec(n: int) -> Seq<char>
    recommends
        n >= 0,
    decreases n,
{
    if n < 10 {
        seq![spec_digit_char(n)]
    } else {
        spec_dec(n / 10).push(spec_digit_char(n % 10))
    }
}

/// The canonical decimal rendering of a signed integer.
pub open spec fn spec_dec_signed(n: int) -> Seq<char> {
    if n < 0 {
        seq!['-'] + spec_dec(-n)
    } else {
        spec_dec(n)
    }
}

fn digit_char(d: u64) -> (c: char)
    requires
        d < 10,
    ensures
        c == spec_digit_char(d as int),
{
    ((d as u8) + 48) as char
}

/// Relies on `String::push`: appends exactly one character.
#[verifier::external_body]
fn push_char(s: &mut String, c: char)
    ensures
        final(s)@ == old(s)@.push(c),
{
    s.push(c);
}

/// Relies on `<str as PartialEq>::eq`: equality of the character contents.
#[verifier::external_body]
pub(crate) fn str_eq(a: &str, b: &str) -> (r: bool)
    ensures
        r == (a@ == b@),
{
    a == b
}

/// The characters of a string, as a vector.
pub fn chars_of(s: &str) -> (r: Vec<char>)
    ensures
        r@ == s@,
{
    let n = s.unicode_len();
    let mut r: Vec<char> = Vec::new();
    let mut i: usize = 0;
    while i < n
        invariant
            n == s@.len(),
            i <= n,
            r@ == s@.subrange(0, i as int),
        decreases n - i,
    {
        r.push(s.get_char(i));
        i = i + 1;
        proof {
            assert(r@ =~= s@.subrange(0, i as int));
        }
    }
    proof {
        assert(s@.subrange(0, n as int) =~= s@);
    }
    r
}

/// A `String` holding exactly the given characters.
pub fn string_of(chars: &Vec<char>) -> (r: String)
    ensures
        r@ == chars@,
{
    let mut r = String::new();
    let mut i: usize = 0;
    while i < chars.len()
        invariant
            i <= chars@.len(),
            r@ == chars@.subrange(0, i as int),
        decreases chars@.len() - i,
    {
        push_char(&mut r, chars[i]);
        i = i + 1;
        proof {
            assert(r@ =~= chars@.subrange(0, i as int));
        }
    }
    proof {
        assert(chars@.subrange(0, chars@.len() as int) =~= chars@);
    }
    r
}

/// Renders a non-negative integer in decimal.
pub fn u64_to_string(n: u64) -> (r: String)
    ensures
        r@ == spec_dec(n as int),
    decreases n,
{
    if n < 10 {
        let mut r = String::new();
        push_char(&mut r, digit_char(n));
        proof {
            assert(r@ =~= seq![spec_digit_char(n as int)]);
        }
        r
    } else {
        let mut r = u64_to_string(n / 10);
        push_char(&mut r, digit_char(n % 10));
        r
    }
}

/// Renders a signed integer in decimal, with a leading minus sign if negative.
pub fn i64_to_string(n: i64) -> (r: String)
    ensures
        r@ == spec_dec_signed(n as int),
{
    if n >= 0 {
        u64_to_string(n as u64)
    } else {
        let mag: u64 = if n == i64::MIN {
            9223372036854775808u64
        } else {
            (-n) as u64
        };
        let mut r = String::new();
        push_char(&mut r, '-');
        let digits = u64_to_string(mag);
        r.append(digits.as_str());
        proof {
            assert(r@ =~= seq!['-'] + spec_dec(mag as int));
        }
        r
    }
}

/// Extending a digit sequence never lowers its value.
proof fn lemma_digits_val_prefix_mono(s: Seq<char>, i: int, j: int)
    requires
        all_digits(s),
        0 <= i <= j <= s.len(),
    ensures
        spec_digits_val(s.subrange(0, i)) <= spec_digits_val(s.subrange(0, j)),
    decreases j - i,
{
    if i < j {
        lemma_digits_val_prefix_mono(s, i, j - 1);
        let p = s.subrange(0, j);
        assert(p.drop_last() =~= s.subrange(0, j - 1));
        assert(p.last() == s[j - 1]);
        assert(is_digit_char(s[j - 1]));
        lemma_digits_val_nonneg(s.subrange(0, j - 1));
        let v = spec_digits_val(s.subrange(0, j - 1));
        assert(spec_digits_val(p) == v * 10 + (p.last() as u32 - 48));
        assert(v * 10 >= v);
    }
}

/// The value of a digit sequence is non-negative.
proof fn lemma_digits_val_nonneg(s: Seq<char>)
    requires
        all_digits(s),
    ensures
        spec_digits_val(s) >= 0,
    decreases s.len(),
{
    if s.len() > 0 {
        assert(forall|i: int|
            0 <= i < s.drop_last().len() ==> #[trigger] s.drop_last()[i] == s[i]);
        lemma_digits_val_nonneg(s.drop_last());
        assert(s.last() == s[s.len() - 1]);
        assert(is_digit_char(s[s.len() - 1]));
        assert(spec_digits_val(s.drop_last()) * 10 >= 0);
    }
}

/// Parses a decimal digit run as a `u64`. Succeeds exactly on a non-empty
/// all-digit sequence whose value fits in a `u64`.
pub fn parse_u64_digits(chars: &Vec<char>, from: usize, to: usize) -> (r: Option<u64>)
    requires
        from <= to <= chars@.len(),
    ensures
        ({
            let s = chars@.subrange(from as int, to as int);
            match r {
                Some(v) => from < to && all_digits(s) && v as int == spec_digits_val(s),
                None => !(from < to && all_digits(s) && spec_digits_val(s) <= u64::MAX),
            }
        }),
{
    let ghost s = chars@.subrange(from as int, to as int);
    if from >= to {
        return None;
    }
    let mut acc: u64 = 0;
    let mut i: usize = from;
    while i < to
        invariant
            from <= i <= to <= chars@.len(),
            s == chars@.subrange(from as int, to as int),
            all_digits(s.subrange(0, i - from)),
            acc as int == spec_digits_val(s.subrange(0, i - from)),
        decreases to - i,
    {
        let c = chars[i];
        let u = c as u32;
        if !(48 <= u && u <= 57) {
            proof {
                assert(s[i - from] == chars@[i as int]);
                assert(!is_digit_char(s[i - from]));
            }
            return None;
        }
        let d: u64 = (u - 48) as u64;
        if acc > 1844674407370955161u64 || (acc == 1844674407370955161u64 && d > 5) {
            proof {
                let p = s.subrange(0, i - from + 1);
                assert(p.drop_last() =~= s.subrange(0, i - from));
                assert(p.last() == chars@[i as int]);
                assert(p.last() as u32 - 48 == d as int);
                assert(spec_digits_val(p) == acc as int * 10 + d);
                assert(spec_digits_val(p) > u64::MAX);
                if all_digits(s) {
                    lemma_digits_val_prefix_mono(s, i - from + 1, s.len() as int);
                    assert(s.subrange(0, s.len() as int) =~= s);
                    assert(spec_digits_val(s) > u64::MAX);
                }
            }
            return None;
        }
        let next: u64 = acc * 10 + d;
        proof {
            let p = s.subrange(0, i - from + 1);
            assert(p.drop_last() =~= s.subrange(0, i - from));
            assert(p.last() == chars@[i as int]);
            assert(p.last() as u32 - 48 == d as int);
            assert(forall|k: int|
                0 <= k < p.len() - 1 ==> #[trigger] p[k] == s.subrange(0, i - from)[k]);
            assert(all_digits(p));
            assert(next as int == spec_digits_val(p));
        }
        acc = next;
        i = i + 1;
    }
    proof {
        assert(s.subrange(0, s.len() as int) =~= s);
    }
    Some(acc)
}

/// Whether a character range holds decimal digits only.
pub fn check_all_digits(chars: &Vec<char>, from: usize, to: usize) -> (r: bool)
    requires
        from <= to <= chars@.len(),
    ensures
        r == all_digits(chars@.subrange(from as int, to as int)),
{
    let ghost s = chars@.subrange(from as int, to as int);
    let mut i: usize = from;
    while i < to
        invariant
            from <= i <= to <= chars@.len(),
            s == chars@.subrange(from as int, to as int),
            all_digits(s.subrange(0, i - from)),
        decreases to - i,
    {
        let u = chars[i] as u32;
        if !(48 <= u && u <= 57) {
            proof {
                assert(s[i - from] == chars@[i as int]);
                assert(!is_digit_char(s[i - from]));
            }
            return false;
        }
        proof {
            let p = s.subrange(0, i - from + 1);
            assert(forall|k: int|
                0 <= k < p.len() - 1 ==> #[trigger] p[k] == s.subrange(0, i - from)[k]);
            assert(p.last() == chars@[i as int]);
            assert(all_digits(p));
        }
        i = i + 1;
    }
    proof {
        assert(s.subrange(0, s.len() as int) =~= s);
    }
    true
}

/// ASCII lowercasing of one character, other characters unchanged.
pub fn lower_char(c: char) -> (r: char)
    ensures
        r == spec_lower_char(c),
{
    let u = c as u32;
    if 65 <= u && u <= 90 {
        ((c as u8) + 32) as char
    } else {
        c
    }
}

/// Lowercasing one character twice is the same as lowercasing it once.
pub proof fn lemma_lower_char_idempotent(c: char)
    ensures
        spec_lower_char(spec_lower_char(c)) == spec_lower_char(c),
{
    if 65 <= c as u32 <= 90 {
        let l = (((c as u8) + 32) as char);
        assert(97 <= l as u32 <= 122);
    }
}

/// Lowercasing a sequence twice is the same as lowercasing it once.
pub proof fn lemma_lower_idempotent(s: Seq<char>)
    ensures
        spec_lower(spec_lower(s)) == spec_lower(s),
{
    assert forall|i: int| 0 <= i < s.len() implies spec_lower_char(
        #[trigger] spec_lower(s)[i],
    ) == spec_lower(s)[i] by {
        assert(spec_lower(s)[i] == spec_lower_char(s[i]));
        lemma_lower_char_idempotent(s[i]);
    }
    assert(spec_lower(spec_lower(s)) =~= spec_lower(s));
}

} // verus!
