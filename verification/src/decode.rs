//! Field-level decoding rules for the server's loosely-typed wire format:
//! booleans sent as `0`/`1`/strings, numbers sent as strings, lists sent as
//! comma-joined strings, and timestamps sent inside a marker string. Every
//! rule either fully succeeds or reports a decode error; nothing is ever
//! silently defaulted.

use vstd::prelude::*;

use crate::json::JsonValue;
use crate::json::spec_lookup;
use crate::strutil::all_digits;
use crate::strutil::is_digit_char;
use crate::strutil::spec_digits_val;
use crate::Error;

verus! {

/// Boolean coercion: JSON `true`/`false`, the strings `"0"`/`"1"`, or the
/// numbers `0`/`1`; anything else has no boolean reading.
pub open spec fn spec_bool_from_anything(v: JsonValue) -> Option<bool> {
    match v {
        JsonValue::Bool(b) => Some(b),
        JsonValue::Int(n) => if n == 0 {
            Some(false)
        } else if n == 1 {
            Some(true)
        } else {
            None
        },
        JsonValue::Str(s) => if s@ == "0"@ {
            Some(false)
        } else if s@ == "1"@ {
            Some(true)
        } else {
            None
        },
        _ => None,
    }
}

/// Number coercion: a native non-negative integer, or a non-empty all-digit
/// string, in either case bounded by `max`.
pub open spec fn spec_number_from_string(v: JsonValue, max: int) -> Option<int> {
    match v {
        JsonValue::Int(n) => if 0 <= n <= max {
            Some(n as int)
        } else {
            None
        },
        JsonValue::Str(s) => if s@.len() > 0 && all_digits(s@) && spec_digits_val(s@) <= max {
            Some(spec_digits_val(s@))
        } else {
            None
        },
        _ => None,
    }
}

/// Optional-number coercion: `null` means no value, anything else must read
/// as a number.
pub open spec fn spec_option_number_from_string(v: JsonValue, max: int) -> Option<Option<int>> {
    match v {
        JsonValue::Null => Some(None),
        _ => match spec_number_from_string(v, max) {
            Some(x) => Some(Some(x)),
            None => None,
        },
    }
}

/// A native non-negative integer bounded by `max`; no string reading.
pub open spec fn spec_nat_native(v: JsonValue, max: int) -> Option<int> {
    match v {
        JsonValue::Int(n) => if 0 <= n <= max {
            Some(n as int)
        } else {
            None
        },
        _ => None,
    }
}

/// Decodes a boolean under the boolean coercion rule.
pub fn decode_bool_from_anything(v: &JsonValue) -> (r: Result<bool, Error>)
    ensures
        match r {
            Ok(b) => spec_bool_from_anything(*v) == Some(b),
            Err(e) => spec_bool_from_anything(*v) is None && e == Error::DecodeError,
        },
{
    match v {
        JsonValue::Bool(b) => Ok(*b),
        JsonValue::Int(n) => {
            if *n == 0 {
                Ok(false)
            } else if *n == 1 {
                Ok(true)
            } else {
                Err(Error::DecodeError)
            }
        },
        JsonValue::Str(s) => {
            if crate::strutil::str_eq(s.as_str(), "0") {
                Ok(false)
            } else if crate::strutil::str_eq(s.as_str(), "1") {
                Ok(true)
            } else {
                Err(Error::DecodeError)
            }
        },
        _ => Err(Error::DecodeError),
    }
}

/// Decodes a number under the number-from-string coercion rule.
pub fn decode_number_from_string(v: &JsonValue, max: u64) -> (r: Result<u64, Error>)
    ensures
        match r {
            Ok(x) => spec_number_from_string(*v, max as int) == Some(x as int),
            Err(e) => spec_number_from_string(*v, max as int) is None && e == Error::DecodeError,
        },
{
    match v {
        JsonValue::Int(n) => {
            if *n >= 0 && (*n as u64) <= max {
                Ok(*n as u64)
            } else {
                Err(Error::DecodeError)
            }
        },
        JsonValue::Str(s) => {
            let chars = crate::strutil::chars_of(s.as_str());
            proof {
                assert(chars@.subrange(0, chars@.len() as int) =~= s@);
            }
            match crate::strutil::parse_u64_digits(&chars, 0, chars.len()) {
                Some(x) => {
                    if x <= max {
                        Ok(x)
                    } else {
                        Err(Error::DecodeError)
                    }
                },
                None => Err(Error::DecodeError),
            }
        },
        _ => Err(Error::DecodeError),
    }
}

/// Decodes an optional number: `null` is no value, anything else must read
/// as a number.
pub fn decode_option_number_from_string(v: &JsonValue, max: u64) -> (r: Result<Option<u64>, Error>)
    ensures
        match r {
            Ok(Some(x)) => spec_option_number_from_string(*v, max as int) == Some(
                Some(x as int),
            ),
            Ok(None) => spec_option_number_from_string(*v, max as int) == Some(
                Option::<int>::None,
            ),
            Err(e) => spec_option_number_from_string(*v, max as int) is None && e
                == Error::DecodeError,
        },
{
    match v {
        JsonValue::Null => Ok(None),
        _ => {
            match decode_number_from_string(v, max) {
                Ok(x) => Ok(Some(x)),
                Err(e) => Err(e),
            }
        },
    }
}

/// Decodes a native non-negative integer bounded by `max`.
pub fn decode_nat_native(v: &JsonValue, max: u64) -> (r: Result<u64, Error>)
    ensures
        match r {
            Ok(x) => spec_nat_native(*v, max as int) == Some(x as int),
            Err(e) => spec_nat_native(*v, max as int) is None && e == Error::DecodeError,
        },
{
    match v {
        JsonValue::Int(n) => {
            if *n >= 0 && (*n as u64) <= max {
                Ok(*n as u64)
            } else {
                Err(Error::DecodeError)
            }
        },
        _ => Err(Error::DecodeError),
    }
}

/// Decodes a JSON string into an owned string.
pub fn decode_string(v: &JsonValue) -> (r: Result<String, Error>)
    ensures
        match r {
            Ok(s) => v matches JsonValue::Str(t) && s@ == t@,
            Err(e) => !(v matches JsonValue::Str(_)) && e == Error::DecodeError,
        },
{
    match v {
        JsonValue::Str(s) => Ok(s.clone()),
        _ => Err(Error::DecodeError),
    }
}

/// Decodes an optional JSON string: `null` is no value.
pub fn decode_option_string(v: &JsonValue) -> (r: Result<Option<String>, Error>)
    ensures
        match r {
            Ok(Some(s)) => v matches JsonValue::Str(t) && s@ == t@,
            Ok(None) => v is Null,
            Err(e) => !(v matches JsonValue::Str(_)) && !(v is Null) && e == Error::DecodeError,
        },
{
    match v {
        JsonValue::Null => Ok(None),
        JsonValue::Str(s) => Ok(Some(s.clone())),
        _ => Err(Error::DecodeError),
    }
}

/// The index of the first `", "` separator in `s`, or `s.len()` if none.
pub open spec fn first_sep_idx(s: Seq<char>) -> int
    decreases s.len(),
{
    if s.len() < 2 {
        s.len() as int
    } else if s[0] == ',' && s[1] == ' ' {
        0
    } else {
        1 + first_sep_idx(s.drop_first())
    }
}

/// Basic facts about `first_sep_idx`: it lies in range, points at a
/// separator when it is in range, and nothing before it is a separator.
pub proof fn lemma_first_sep_idx(s: Seq<char>)
    ensures
        0 <= first_sep_idx(s) <= s.len(),
        first_sep_idx(s) < s.len() ==> first_sep_idx(s) + 2 <= s.len() && s[first_sep_idx(s)]
            == ',' && s[first_sep_idx(s) + 1] == ' ',
        forall|k: int|
            0 <= k < first_sep_idx(s) && k + 2 <= s.len() ==> !(#[trigger] s[k] == ',' && s[k + 1]
                == ' '),
    decreases s.len(),
{
    if s.len() >= 2 && !(s[0] == ',' && s[1] == ' ') {
        let t = s.drop_first();
        lemma_first_sep_idx(t);
        assert(forall|k: int| 0 <= k < t.len() ==> #[trigger] t[k] == s[k + 1]);
        let i = first_sep_idx(s);
        assert(i == 1 + first_sep_idx(t));
        if first_sep_idx(t) < t.len() {
            assert(s[i] == t[i - 1]);
            assert(s[i + 1] == t[i]);
        }
        assert forall|k: int|
            0 <= k < i && k + 2 <= s.len() implies !(#[trigger] s[k] == ',' && s[k + 1]
            == ' ') by {
            if k > 0 {
                assert(t[k - 1] == s[k]);
                assert(t[k] == s[k + 1]);
                assert(!(t[k - 1] == ',' && t[k] == ' '));
            }
        }
    }
}

/// The items of a `", "`-separated string, in order. A string with no
/// separator is a single item; an empty string is one empty item.
pub open spec fn spec_split_cs(s: Seq<char>) -> Seq<Seq<char>>
    decreases s.len(),
    via spec_split_cs_decreases
{
    let i = first_sep_idx(s);
    if i >= s.len() {
        seq![s]
    } else {
        seq![s.subrange(0, i)] + spec_split_cs(s.subrange(i + 2, s.len() as int))
    }
}

#[via_fn]
proof fn spec_split_cs_decreases(s: Seq<char>) {
    lemma_first_sep_idx(s);
}

/// Finds the first `", "` separator at or after `from`.
fn find_sep(chars: &Vec<char>, from: usize) -> (r: usize)
    requires
        from <= chars@.len(),
    ensures
        from <= r <= chars@.len(),
        r - from == first_sep_idx(chars@.subrange(from as int, chars@.len() as int)),
{
    let n = chars.len();
    let mut i: usize = from;
    while n - i >= 2
        invariant
            from <= i <= n,
            n == chars@.len(),
            first_sep_idx(chars@.subrange(from as int, n as int)) == (i - from) + first_sep_idx(
                chars@.subrange(i as int, n as int),
            ),
        decreases n - i,
    {
        let ghost cur = chars@.subrange(i as int, n as int);
        proof {
            assert(cur[0] == chars@[i as int]);
            assert(cur[1] == chars@[i + 1]);
            assert(cur.drop_first() =~= chars@.subrange(i + 1, n as int));
        }
        if chars[i] == ',' && chars[i + 1] == ' ' {
            proof {
                assert(first_sep_idx(cur) == 0);
            }
            return i;
        }
        i = i + 1;
    }
    proof {
        let tail = chars@.subrange(i as int, n as int);
        assert(tail.len() < 2);
        assert(first_sep_idx(tail) == tail.len());
    }
    n
}

/// Splits a string at every `", "` separator.
pub fn split_cs(s: &str) -> (r: Vec<String>)
    ensures
        r.deep_view() == spec_split_cs(s@),
{
    let chars = crate::strutil::chars_of(s);
    let n = chars.len();
    let mut r: Vec<String> = Vec::new();
    proof {
        assert(chars@.subrange(0, n as int) =~= s@);
        assert(r.deep_view() =~= Seq::<Seq<char>>::empty());
        assert(r.deep_view() + spec_split_cs(s@) =~= spec_split_cs(s@));
    }
    let mut from: usize = 0;
    loop
        invariant
            from <= n,
            n == chars@.len(),
            chars@ == s@,
            r.deep_view() + spec_split_cs(chars@.subrange(from as int, n as int)) == spec_split_cs(
                s@,
            ),
        decreases n - from,
    {
        let ghost rest = chars@.subrange(from as int, n as int);
        let sep = find_sep(&chars, from);
        proof {
            lemma_first_sep_idx(rest);
        }
        let mut part: Vec<char> = Vec::new();
        let mut k: usize = from;
        while k < sep
            invariant
                from <= k <= sep <= n,
                n == chars@.len(),
                part@ == chars@.subrange(from as int, k as int),
            decreases sep - k,
        {
            part.push(chars[k]);
            proof {
                assert(part@ =~= chars@.subrange(from as int, k + 1));
            }
            k = k + 1;
        }
        let piece = crate::strutil::string_of(&part);
        let ghost prev = r.deep_view();
        r.push(piece);
        proof {
            assert(r.deep_view() =~= prev + seq![chars@.subrange(from as int, sep as int)]);
        }
        if sep >= n {
            proof {
                assert(sep == n);
                assert(first_sep_idx(rest) == rest.len());
                assert(spec_split_cs(rest) =~= seq![rest]);
                assert(chars@.subrange(from as int, sep as int) =~= rest);
                assert(r.deep_view() =~= prev + spec_split_cs(rest));
            }
            return r;
        }
        proof {
            let i = first_sep_idx(rest);
            assert(i == sep - from);
            assert(spec_split_cs(rest) == seq![rest.subrange(0, i)] + spec_split_cs(
                rest.subrange(i + 2, rest.len() as int),
            ));
            assert(rest.subrange(0, i) =~= chars@.subrange(from as int, sep as int));
            assert(rest.subrange(i + 2, rest.len() as int) =~= chars@.subrange(
                sep + 2,
                n as int,
            ));
            assert(r.deep_view() + spec_split_cs(chars@.subrange(sep + 2, n as int)) =~= prev
                + spec_split_cs(rest));
        }
        from = sep + 2;
    }
}

/// Every element of the sequence is a JSON string.
pub open spec fn spec_all_strings(items: Seq<JsonValue>) -> bool {
    forall|i: int| 0 <= i < items.len() ==> #[trigger] items[i] matches JsonValue::Str(_)
}

/// `s` holds no `", "` separator.
pub open spec fn sep_free(s: Seq<char>) -> bool {
    forall|k: int| 0 <= k < s.len() - 1 ==> !(#[trigger] s[k] == ',' && s[k + 1] == ' ')
}

/// A separator-free string is one item.
pub proof fn lemma_split_cs_single(s: Seq<char>)
    requires
        sep_free(s),
    ensures
        spec_split_cs(s) == seq![s],
{
    lemma_first_sep_idx(s);
    if first_sep_idx(s) < s.len() {
        let i = first_sep_idx(s);
        assert(s[i] == ',' && s[i + 1] == ' ');
        assert(false);
    }
}

/// The law behind the list coercion: joining two separator-free items with
/// `", "` and splitting again yields exactly the two items, so a native
/// two-element array and its comma-joined string decode to the same list.
pub proof fn lemma_split_cs_pair(a: Seq<char>, b: Seq<char>)
    requires
        sep_free(a),
        sep_free(b),
    ensures
        spec_split_cs(a + ", "@ + b) == seq![a, b],
{
    reveal_strlit(", ");
    let s = a + ", "@ + b;
    assert(s.len() == a.len() + 2 + b.len());
    assert(s[a.len() as int] == ',' && s[a.len() as int + 1] == ' ');
    lemma_first_sep_idx(s);
    let i = first_sep_idx(s);
    assert forall|k: int| 0 <= k < a.len() implies !(#[trigger] s[k] == ',' && s[k + 1]
        == ' ') by {
        if k < a.len() - 1 {
            assert(s[k] == a[k]);
            assert(s[k + 1] == a[k + 1]);
        } else {
            assert(s[k + 1] == ',');
        }
    }
    if i < a.len() {
        assert(s[i] == ',' && s[i + 1] == ' ');
        assert(false);
    }
    if i > a.len() {
        assert(false);
    }
    assert(i == a.len());
    assert(spec_split_cs(s) == seq![s.subrange(0, i)] + spec_split_cs(
        s.subrange(i + 2, s.len() as int),
    ));
    assert(s.subrange(0, i) =~= a);
    assert(s.subrange(i + 2, s.len() as int) =~= b);
    lemma_split_cs_single(b);
    assert(spec_split_cs(s) =~= seq![a, b]);
}

/// List coercion for strings: a native array of strings, or one string
/// holding `", "`-separated items.
pub open spec fn spec_string_list(v: JsonValue) -> Option<Seq<Seq<char>>> {
    match v {
        JsonValue::Str(s) => Some(spec_split_cs(s@)),
        JsonValue::Arr(items) => if spec_all_strings(items@) {
            Some(Seq::new(items@.len(), |i: int| items@[i]->Str_0@))
        } else {
            None
        },
        _ => None,
    }
}

/// Decodes a list of strings sent either as a native array or as one
/// `", "`-joined string.
#[verifier::loop_isolation(false)]
pub fn deserialize_vec_from_string_or_vec(v: &JsonValue) -> (r: Result<Vec<String>, Error>)
    ensures
        match r {
            Ok(xs) => spec_string_list(*v) == Some(xs.deep_view()),
            Err(e) => spec_string_list(*v) is None && e == Error::DecodeError,
        },
{
    match v {
        JsonValue::Str(s) => Ok(split_cs(s.as_str())),
        JsonValue::Arr(items) => {
            let mut xs: Vec<String> = Vec::new();
            let n = items.len();
            proof {
                assert(xs.deep_view() =~= Seq::<Seq<char>>::empty());
            }
            let mut i: usize = 0;
            while i < n
                invariant
                    i <= n,
                    n == items@.len(),
                    forall|k: int| 0 <= k < i ==> #[trigger] items@[k] matches JsonValue::Str(_),
                    xs.deep_view().len() == i,
                    forall|k: int| 0 <= k < i ==> #[trigger] xs.deep_view()[k] == items@[k]->Str_0@,
                decreases n - i,
            {
                let ghost prevd = xs.deep_view();
                match &items[i] {
                    JsonValue::Str(t) => {
                        let u = t.clone();
                        xs.push(u);
                        proof {
                            assert(xs.deep_view() =~= prevd + seq![items@[i as int]->Str_0@]);
                        }
                    },
                    _ => {
                        proof {
                            assert(!(items@[i as int] matches JsonValue::Str(_)));
                            assert(!spec_all_strings(items@));
                        }
                        return Err(Error::DecodeError);
                    },
                }
                i = i + 1;
            }
            proof {
                assert(xs.deep_view() =~= Seq::new(
                    items@.len() as nat,
                    |k: int| items@[k]->Str_0@,
                ));
            }
            Ok(xs)
        },
        _ => Err(Error::DecodeError),
    }
}

/// Every part is a non-empty digit run whose value is bounded by `max`.
pub open spec fn spec_all_digit_parts(parts: Seq<Seq<char>>, max: int) -> bool {
    forall|i: int|
        0 <= i < parts.len() ==> (#[trigger] parts[i]).len() > 0 && all_digits(parts[i])
            && spec_digits_val(parts[i]) <= max
}

/// Every element is a native integer in `0..=max`.
pub open spec fn spec_all_ints(items: Seq<JsonValue>, max: int) -> bool {
    forall|i: int|
        0 <= i < items.len() ==> (#[trigger] items[i] matches JsonValue::Int(n) && 0 <= n <= max)
}

/// List coercion for small numbers: a native array of integers, or one
/// string holding `", "`-separated digit runs, each bounded by `max`.
pub open spec fn spec_number_list(v: JsonValue, max: int) -> Option<Seq<int>> {
    match v {
        JsonValue::Str(s) => {
            let parts = spec_split_cs(s@);
            if spec_all_digit_parts(parts, max) {
                Some(Seq::new(parts.len(), |i: int| spec_digits_val(parts[i])))
            } else {
                None
            }
        },
        JsonValue::Arr(items) => if spec_all_ints(items@, max) {
            Some(Seq::new(items@.len(), |i: int| items@[i]->Int_0 as int))
        } else {
            None
        },
        _ => None,
    }
}

/// Decodes a list of numbers sent either as a native array or as one
/// `", "`-joined string of digit runs.
#[verifier::loop_isolation(false)]
pub fn decode_vec_number_from_string_or_vec(v: &JsonValue, max: u64) -> (r: Result<
    Vec<u64>,
    Error,
>)
    ensures
        match r {
            Ok(xs) => spec_number_list(*v, max as int) == Some(xs@.map_values(|x: u64| x as int))
                && forall|i: int| 0 <= i < xs@.len() ==> #[trigger] xs@[i] <= max,
            Err(e) => spec_number_list(*v, max as int) is None && e == Error::DecodeError,
        },
{
    match v {
        JsonValue::Str(s) => {
            let parts = split_cs(s.as_str());
            let ghost sparts = spec_split_cs(s@);
            let mut xs: Vec<u64> = Vec::new();
            let n = parts.len();
            proof {
                assert(parts.deep_view().len() == parts@.len());
            }
            let mut i: usize = 0;
            while i < n
                invariant
                    i <= n,
                    n == parts@.len(),
                    parts.deep_view() == sparts,
                    parts.deep_view().len() == parts@.len(),
                    forall|k: int|
                        0 <= k < i ==> (#[trigger] sparts[k]).len() > 0 && all_digits(sparts[k])
                            && spec_digits_val(sparts[k]) <= max,
                    xs@.len() == i,
                    forall|k: int| 0 <= k < i ==> #[trigger] xs@[k] as int == spec_digits_val(sparts[k]),
                    forall|k: int| 0 <= k < i ==> #[trigger] xs@[k] <= max,
                decreases n - i,
            {
                let part = crate::strutil::chars_of(parts[i].as_str());
                proof {
                    assert(parts@[i as int]@ == sparts[i as int]);
                    assert(part@.subrange(0, part@.len() as int) =~= sparts[i as int]);
                }
                match crate::strutil::parse_u64_digits(&part, 0, part.len()) {
                    Some(x) => {
                        if x <= max {
                            xs.push(x);
                        } else {
                            proof {
                                assert(!spec_all_digit_parts(sparts, max as int));
                            }
                            return Err(Error::DecodeError);
                        }
                    },
                    None => {
                        proof {
                            assert(!(sparts[i as int].len() > 0 && all_digits(sparts[i as int])
                                && spec_digits_val(sparts[i as int]) <= max));
                            assert(!spec_all_digit_parts(sparts, max as int));
                        }
                        return Err(Error::DecodeError);
                    },
                }
                i = i + 1;
            }
            proof {
                assert(xs@.map_values(|x: u64| x as int) =~= Seq::new(
                    sparts.len(),
                    |k: int| spec_digits_val(sparts[k]),
                ));
            }
            Ok(xs)
        },
        JsonValue::Arr(items) => {
            let mut xs: Vec<u64> = Vec::new();
            let n = items.len();
            let mut i: usize = 0;
            while i < n
                invariant
                    i <= n,
                    n == items@.len(),
                    forall|k: int|
                        0 <= k < i ==> (#[trigger] items@[k] matches JsonValue::Int(x) && 0 <= x
                            <= max),
                    xs@.len() == i,
                    forall|k: int| 0 <= k < i ==> #[trigger] xs@[k] as int == items@[k]->Int_0 as int,
                    forall|k: int| 0 <= k < i ==> #[trigger] xs@[k] <= max,
                decreases n - i,
            {
                match &items[i] {
                    JsonValue::Int(x) => {
                        if *x >= 0 && (*x as u64) <= max {
                            xs.push(*x as u64);
                        } else {
                            proof {
                                assert(!spec_all_ints(items@, max as int));
                            }
                            return Err(Error::DecodeError);
                        }
                    },
                    _ => {
                        proof {
                            assert(!(items@[i as int] matches JsonValue::Int(_)));
                            assert(!spec_all_ints(items@, max as int));
                        }
                        return Err(Error::DecodeError);
                    },
                }
                i = i + 1;
            }
            proof {
                assert(xs@.map_values(|x: u64| x as int) =~= Seq::new(
                    items@.len() as nat,
                    |k: int| items@[k]->Int_0 as int,
                ));
            }
            Ok(xs)
        },
        _ => Err(Error::DecodeError),
    }
}

/// Ten to the `n`-th power.
pub open spec fn pow10(n: nat) -> int
    decreases n,
{
    if n == 0 {
        1
    } else {
        10 * pow10((n - 1) as nat)
    }
}

/// A digit run's value is bounded by ten to its length.
pub proof fn lemma_digits_val_upper(s: Seq<char>)
    requires
        all_digits(s),
    ensures
        0 <= spec_digits_val(s) < pow10(s.len()),
    decreases s.len(),
{
    if s.len() > 0 {
        assert(forall|i: int|
            0 <= i < s.drop_last().len() ==> #[trigger] s.drop_last()[i] == s[i]);
        lemma_digits_val_upper(s.drop_last());
        assert(s.last() == s[s.len() - 1]);
        assert(is_digit_char(s[s.len() - 1]));
    }
}

/// The timestamp marker coercion: a string carrying whole seconds in its
/// character positions six through fifteen, as in `"/Date(1727349600000.000000)/"`
/// where the leading ten digits of the number are the seconds. A shorter
/// string or a non-digit in that range has no reading.
pub open spec fn spec_epoch_marker(v: JsonValue) -> Option<int> {
    match v {
        JsonValue::Str(s) => if s@.len() >= 16 && all_digits(s@.subrange(6, 16)) {
            Some(spec_digits_val(s@.subrange(6, 16)))
        } else {
            None
        },
        _ => None,
    }
}

/// Decodes an instant sent in the `/Date(<millis>.<fraction>)/` marker
/// format, as whole seconds since the epoch.
pub fn deserialize_date_time(v: &JsonValue) -> (r: Result<i64, Error>)
    ensures
        match r {
            Ok(t) => spec_epoch_marker(*v) == Some(t as int) && t >= 0,
            Err(e) => spec_epoch_marker(*v) is None && e == Error::DecodeError,
        },
{
    match v {
        JsonValue::Str(s) => {
            let chars = crate::strutil::chars_of(s.as_str());
            if chars.len() < 16 {
                return Err(Error::DecodeError);
            }
            let ghost digits = s@.subrange(6, 16);
            match crate::strutil::parse_u64_digits(&chars, 6, 16) {
                Some(x) => {
                    proof {
                        lemma_digits_val_upper(digits);
                        reveal_with_fuel(pow10, 11);
                        assert(pow10(10) == 10000000000int);
                    }
                    Ok(x as i64)
                },
                None => {
                    proof {
                        if all_digits(digits) {
                            lemma_digits_val_upper(digits);
                            reveal_with_fuel(pow10, 11);
                            assert(pow10(10) == 10000000000int);
                        }
                    }
                    Err(Error::DecodeError)
                },
            }
        },
        _ => Err(Error::DecodeError),
    }
}

/// A calendar date as plain year, month and day fields.
#[derive(Clone, Copy, Debug, PartialEq, Eq, Structural)]
pub struct DateYmd {
    pub year: u16,
    pub month: u8,
    pub day: u8,
}

/// A time of day as plain hour, minute and second fields.
#[derive(Clone, Copy, Debug, PartialEq, Eq, Structural)]
pub struct TimeHms {
    pub hour: u8,
    pub minute: u8,
    pub second: u8,
}

/// A leap year of the Gregorian calendar.
pub open spec fn spec_is_leap(y: int) -> bool {
    y % 4 == 0 && (y % 100 != 0 || y % 400 == 0)
}

/// The number of days of a month.
pub open spec fn spec_days_in_month(y: int, m: int) -> int {
    if m == 2 {
        if spec_is_leap(y) {
            29
        } else {
            28
        }
    } else if m == 4 || m == 6 || m == 9 || m == 11 {
        30
    } else {
        31
    }
}

/// The date coercion: an ISO `YYYY-MM-DD` string naming a real calendar day.
pub open spec fn spec_date(v: JsonValue) -> Option<(int, int, int)> {
    match v {
        JsonValue::Str(s) => {
            if s@.len() == 10 && all_digits(s@.subrange(0, 4)) && s@[4] == '-' && all_digits(
                s@.subrange(5, 7),
            ) && s@[7] == '-' && all_digits(s@.subrange(8, 10)) {
                let y = spec_digits_val(s@.subrange(0, 4));
                let m = spec_digits_val(s@.subrange(5, 7));
                let d = spec_digits_val(s@.subrange(8, 10));
                if 1 <= m <= 12 && 1 <= d <= spec_days_in_month(y, m) {
                    Some((y, m, d))
                } else {
                    None
                }
            } else {
                None
            }
        },
        _ => None,
    }
}

/// The number of days of a month, as executable code.
pub fn days_in_month(y: u16, m: u8) -> (r: u8)
    ensures
        r as int == spec_days_in_month(y as int, m as int),
{
    if m == 2 {
        if y % 4 == 0 && (y % 100 != 0 || y % 400 == 0) {
            29
        } else {
            28
        }
    } else if m == 4 || m == 6 || m == 9 || m == 11 {
        30
    } else {
        31
    }
}

/// Decodes a calendar date sent as an ISO `YYYY-MM-DD` string.
pub fn decode_naive_date(v: &JsonValue) -> (r: Result<DateYmd, Error>)
    ensures
        match r {
            Ok(d) => spec_date(*v) == Some((d.year as int, d.month as int, d.day as int)),
            Err(e) => spec_date(*v) is None && e == Error::DecodeError,
        },
{
    match v {
        JsonValue::Str(s) => {
            let chars = crate::strutil::chars_of(s.as_str());
            if chars.len() != 10 {
                return Err(Error::DecodeError);
            }
            if !(chars[4] == '-' && chars[7] == '-') {
                return Err(Error::DecodeError);
            }
            let ghost ys = s@.subrange(0, 4);
            let ghost ms = s@.subrange(5, 7);
            let ghost ds = s@.subrange(8, 10);
            proof {
                lemma_small_digit_runs();
            }
            let y = match crate::strutil::parse_u64_digits(&chars, 0, 4) {
                Some(x) => x,
                None => {
                    proof {
                        bound_digits(ys);
                    }
                    return Err(Error::DecodeError);
                },
            };
            let m = match crate::strutil::parse_u64_digits(&chars, 5, 7) {
                Some(x) => x,
                None => {
                    proof {
                        bound_digits(ms);
                    }
                    return Err(Error::DecodeError);
                },
            };
            let d = match crate::strutil::parse_u64_digits(&chars, 8, 10) {
                Some(x) => x,
                None => {
                    proof {
                        bound_digits(ds);
                    }
                    return Err(Error::DecodeError);
                },
            };
            proof {
                bound_digits(ys);
                bound_digits(ms);
                bound_digits(ds);
            }
            if !(1 <= m && m <= 12) {
                return Err(Error::DecodeError);
            }
            let dm = days_in_month(y as u16, m as u8);
            if !(1 <= d && d <= dm as u64) {
                return Err(Error::DecodeError);
            }
            Ok(DateYmd { year: y as u16, month: m as u8, day: d as u8 })
        },
        _ => Err(Error::DecodeError),
    }
}

/// The time-of-day coercion: an `HH:MM:SS` string naming a real time, with
/// an optional fractional-seconds tail (one or more digits after a dot)
/// that is read and discarded.
pub open spec fn spec_time(v: JsonValue) -> Option<(int, int, int)> {
    match v {
        JsonValue::Str(s) => {
            if (s@.len() == 8 || (s@.len() >= 10 && s@[8] == '.' && all_digits(
                s@.subrange(9, s@.len() as int),
            ))) && all_digits(s@.subrange(0, 2)) && s@[2] == ':' && all_digits(
                s@.subrange(3, 5),
            ) && s@[5] == ':' && all_digits(s@.subrange(6, 8)) {
                let h = spec_digits_val(s@.subrange(0, 2));
                let m = spec_digits_val(s@.subrange(3, 5));
                let sec = spec_digits_val(s@.subrange(6, 8));
                if h < 24 && m < 60 && sec < 60 {
                    Some((h, m, sec))
                } else {
                    None
                }
            } else {
                None
            }
        },
        _ => None,
    }
}

/// Decodes a time of day sent as an `HH:MM:SS` string.
pub fn decode_naive_time(v: &JsonValue) -> (r: Result<TimeHms, Error>)
    ensures
        match r {
            Ok(t) => spec_time(*v) == Some((t.hour as int, t.minute as int, t.second as int)),
            Err(e) => spec_time(*v) is None && e == Error::DecodeError,
        },
{
    match v {
        JsonValue::Str(s) => {
            let chars = crate::strutil::chars_of(s.as_str());
            if chars.len() < 8 {
                return Err(Error::DecodeError);
            }
            if chars.len() != 8 {
                if chars.len() < 10 || chars[8] != '.' {
                    return Err(Error::DecodeError);
                }
                if !crate::strutil::check_all_digits(&chars, 9, chars.len()) {
                    return Err(Error::DecodeError);
                }
            }
            if !(chars[2] == ':' && chars[5] == ':') {
                return Err(Error::DecodeError);
            }
            let ghost hs = s@.subrange(0, 2);
            let ghost ms = s@.subrange(3, 5);
            let ghost ss = s@.subrange(6, 8);
            let h = match crate::strutil::parse_u64_digits(&chars, 0, 2) {
                Some(x) => x,
                None => {
                    proof {
                        bound_digits(hs);
                    }
                    return Err(Error::DecodeError);
                },
            };
            let m = match crate::strutil::parse_u64_digits(&chars, 3, 5) {
                Some(x) => x,
                None => {
                    proof {
                        bound_digits(ms);
                    }
                    return Err(Error::DecodeError);
                },
            };
            let sec = match crate::strutil::parse_u64_digits(&chars, 6, 8) {
                Some(x) => x,
                None => {
                    proof {
                        bound_digits(ss);
                    }
                    return Err(Error::DecodeError);
                },
            };
            proof {
                bound_digits(hs);
                bound_digits(ms);
                bound_digits(ss);
            }
            if h < 24 && m < 60 && sec < 60 {
                Ok(TimeHms { hour: h as u8, minute: m as u8, second: sec as u8 })
            } else {
                Err(Error::DecodeError)
            }
        },
        _ => Err(Error::DecodeError),
    }
}

/// A digit run of at most four characters has a value below ten thousand.
proof fn bound_digits(s: Seq<char>)
    ensures
        all_digits(s) && s.len() <= 4 ==> 0 <= spec_digits_val(s) < 10000,
{
    if all_digits(s) && s.len() <= 4 {
        lemma_digits_val_upper(s);
        lemma_small_digit_runs();
    }
}

/// Small powers of ten, spelled out.
proof fn lemma_small_digit_runs()
    ensures
        pow10(0) == 1,
        pow10(1) == 10,
        pow10(2) == 100,
        pow10(3) == 1000,
        pow10(4) == 10000,
{
    reveal_with_fuel(pow10, 5);
}

/// A required record field: present, or a decode error.
pub fn req_field<'a>(fields: &'a Vec<(String, JsonValue)>, key: &str) -> (r: Result<
    &'a JsonValue,
    Error,
>)
    ensures
        match r {
            Ok(v) => spec_lookup(fields@, key@) == Some(*v),
            Err(e) => spec_lookup(fields@, key@) is None && e == Error::DecodeError,
        },
{
    match JsonValue::get_field(fields, key) {
        Some(v) => Ok(v),
        None => Err(Error::DecodeError),
    }
}

} // verus!

verus! {

/// A required field read as a native bounded integer.
pub open spec fn spec_nat_field(fields: Seq<(String, JsonValue)>, key: Seq<char>, max: int) -> Option<int> {
    match spec_lookup(fields, key) {
        Some(f) => spec_nat_native(f, max),
        None => None,
    }
}

/// A required field read under the number-from-string coercion.
pub open spec fn spec_number_field(fields: Seq<(String, JsonValue)>, key: Seq<char>, max: int) -> Option<int> {
    match spec_lookup(fields, key) {
        Some(f) => spec_number_from_string(f, max),
        None => None,
    }
}

/// An optional field read under the number coercion; an absent field is no
/// value, like a `null` one.
pub open spec fn spec_opt_number_field(
    fields: Seq<(String, JsonValue)>,
    key: Seq<char>,
    max: int,
) -> Option<Option<int>> {
    match spec_lookup(fields, key) {
        Some(f) => spec_option_number_from_string(f, max),
        None => Some(None),
    }
}

/// A required field read under the boolean coercion.
pub open spec fn spec_bool_field(fields: Seq<(String, JsonValue)>, key: Seq<char>) -> Option<bool> {
    match spec_lookup(fields, key) {
        Some(f) => spec_bool_from_anything(f),
        None => None,
    }
}

/// A required string field.
pub open spec fn spec_string_field(fields: Seq<(String, JsonValue)>, key: Seq<char>) -> Option<Seq<char>> {
    match spec_lookup(fields, key) {
        Some(f) => match f {
            JsonValue::Str(s) => Some(s@),
            _ => None,
        },
        None => None,
    }
}

/// An optional string field; absent or `null` is no value.
pub open spec fn spec_opt_string_field(fields: Seq<(String, JsonValue)>, key: Seq<char>) -> Option<
    Option<Seq<char>>,
> {
    match spec_lookup(fields, key) {
        Some(f) => match f {
            JsonValue::Str(s) => Some(Some(s@)),
            JsonValue::Null => Some(None),
            _ => None,
        },
        None => Some(None),
    }
}

/// A required field read as a native array of bounded integers.
pub open spec fn spec_nat_list_field(
    fields: Seq<(String, JsonValue)>,
    key: Seq<char>,
    max: int,
) -> Option<Seq<int>> {
    match spec_lookup(fields, key) {
        Some(f) => match f {
            JsonValue::Arr(items) => if spec_all_ints(items@, max) {
                Some(Seq::new(items@.len(), |i: int| items@[i]->Int_0 as int))
            } else {
                None
            },
            _ => None,
        },
        None => None,
    }
}

/// A required field read under the list coercion, with string elements.
pub open spec fn spec_string_list_field(fields: Seq<(String, JsonValue)>, key: Seq<char>) -> Option<
    Seq<Seq<char>>,
> {
    match spec_lookup(fields, key) {
        Some(f) => spec_string_list(f),
        None => None,
    }
}

/// A required field read under the list coercion, with bounded integer
/// elements.
pub open spec fn spec_number_list_field(
    fields: Seq<(String, JsonValue)>,
    key: Seq<char>,
    max: int,
) -> Option<Seq<int>> {
    match spec_lookup(fields, key) {
        Some(f) => spec_number_list(f, max),
        None => None,
    }
}

/// A required field read under the timestamp marker coercion.
pub open spec fn spec_epoch_field(fields: Seq<(String, JsonValue)>, key: Seq<char>) -> Option<int> {
    match spec_lookup(fields, key) {
        Some(f) => spec_epoch_marker(f),
        None => None,
    }
}

/// A required field read as an ISO calendar date.
pub open spec fn spec_date_field(fields: Seq<(String, JsonValue)>, key: Seq<char>) -> Option<
    (int, int, int),
> {
    match spec_lookup(fields, key) {
        Some(f) => spec_date(f),
        None => None,
    }
}

/// A required field read as an `HH:MM:SS` time of day.
pub open spec fn spec_time_field(fields: Seq<(String, JsonValue)>, key: Seq<char>) -> Option<
    (int, int, int),
> {
    match spec_lookup(fields, key) {
        Some(f) => spec_time(f),
        None => None,
    }
}

/// Reads a required native integer field.
pub fn get_nat_field(fields: &Vec<(String, JsonValue)>, key: &str, max: u64) -> (r: Result<
    u64,
    Error,
>)
    ensures
        match r {
            Ok(x) => spec_nat_field(fields@, key@, max as int) == Some(x as int) && x <= max,
            Err(e) => spec_nat_field(fields@, key@, max as int) is None && e == Error::DecodeError,
        },
{
    let f = req_field(fields, key)?;
    decode_nat_native(f, max)
}

/// Reads a required field under the number coercion.
pub fn get_number_field(fields: &Vec<(String, JsonValue)>, key: &str, max: u64) -> (r: Result<
    u64,
    Error,
>)
    ensures
        match r {
            Ok(x) => spec_number_field(fields@, key@, max as int) == Some(x as int) && x <= max,
            Err(e) => spec_number_field(fields@, key@, max as int) is None && e
                == Error::DecodeError,
        },
{
    let f = req_field(fields, key)?;
    decode_number_from_string(f, max)
}

/// Reads an optional field under the number coercion.
pub fn get_opt_number_field(fields: &Vec<(String, JsonValue)>, key: &str, max: u64) -> (r: Result<
    Option<u64>,
    Error,
>)
    ensures
        match r {
            Ok(Some(x)) => spec_opt_number_field(fields@, key@, max as int) == Some(Some(x as int))
                && x <= max,
            Ok(None) => spec_opt_number_field(fields@, key@, max as int) == Some(
                Option::<int>::None,
            ),
            Err(e) => spec_opt_number_field(fields@, key@, max as int) is None && e
                == Error::DecodeError,
        },
{
    match JsonValue::get_field(fields, key) {
        Some(f) => decode_option_number_from_string(f, max),
        None => Ok(None),
    }
}

/// Reads a required field under the boolean coercion.
pub fn get_bool_field(fields: &Vec<(String, JsonValue)>, key: &str) -> (r: Result<bool, Error>)
    ensures
        match r {
            Ok(b) => spec_bool_field(fields@, key@) == Some(b),
            Err(e) => spec_bool_field(fields@, key@) is None && e == Error::DecodeError,
        },
{
    let f = req_field(fields, key)?;
    decode_bool_from_anything(f)
}

/// Reads a required string field.
pub fn get_string_field(fields: &Vec<(String, JsonValue)>, key: &str) -> (r: Result<String, Error>)
    ensures
        match r {
            Ok(s) => spec_string_field(fields@, key@) == Some(s@),
            Err(e) => spec_string_field(fields@, key@) is None && e == Error::DecodeError,
        },
{
    let f = req_field(fields, key)?;
    decode_string(f)
}

/// Reads an optional string field.
pub fn get_opt_string_field(fields: &Vec<(String, JsonValue)>, key: &str) -> (r: Result<
    Option<String>,
    Error,
>)
    ensures
        match r {
            Ok(Some(s)) => spec_opt_string_field(fields@, key@) == Some(Some(s@)),
            Ok(None) => spec_opt_string_field(fields@, key@) == Some(Option::<Seq<char>>::None),
            Err(e) => spec_opt_string_field(fields@, key@) is None && e == Error::DecodeError,
        },
{
    match JsonValue::get_field(fields, key) {
        Some(f) => decode_option_string(f),
        None => Ok(None),
    }
}

/// Reads a required field holding a native array of integers bounded by
/// `max`.
#[verifier::loop_isolation(false)]
pub fn get_nat_list_field(fields: &Vec<(String, JsonValue)>, key: &str, max: u64) -> (r: Result<
    Vec<u64>,
    Error,
>)
    ensures
        match r {
            Ok(xs) => spec_nat_list_field(fields@, key@, max as int) == Some(
                xs@.map_values(|x: u64| x as int),
            ) && forall|i: int| 0 <= i < xs@.len() ==> #[trigger] xs@[i] <= max,
            Err(e) => spec_nat_list_field(fields@, key@, max as int) is None && e
                == Error::DecodeError,
        },
{
    let f = req_field(fields, key)?;
    match f {
        JsonValue::Arr(items) => {
            let mut xs: Vec<u64> = Vec::new();
            let n = items.len();
            let mut i: usize = 0;
            while i < n
                invariant
                    i <= n,
                    n == items@.len(),
                    forall|k: int|
                        0 <= k < i ==> (#[trigger] items@[k] matches JsonValue::Int(x) && 0 <= x
                            <= max),
                    xs@.len() == i,
                    forall|k: int|
                        0 <= k < i ==> #[trigger] xs@[k] as int == items@[k]->Int_0 as int && xs@[k]
                            <= max,
                decreases n - i,
            {
                match &items[i] {
                    JsonValue::Int(x) => {
                        if *x >= 0 && (*x as u64) <= max {
                            xs.push(*x as u64);
                        } else {
                            proof {
                                assert(!spec_all_ints(items@, max as int));
                            }
                            return Err(Error::DecodeError);
                        }
                    },
                    _ => {
                        proof {
                            assert(!(items@[i as int] matches JsonValue::Int(_)));
                            assert(!spec_all_ints(items@, max as int));
                        }
                        return Err(Error::DecodeError);
                    },
                }
                i = i + 1;
            }
            proof {
                assert(xs@.map_values(|x: u64| x as int) =~= Seq::new(
                    items@.len(),
                    |k: int| items@[k]->Int_0 as int,
                ));
            }
            Ok(xs)
        },
        _ => Err(Error::DecodeError),
    }
}

/// A required field read as a native array of strings.
pub open spec fn spec_string_array_field(fields: Seq<(String, JsonValue)>, key: Seq<char>) -> Option<
    Seq<Seq<char>>,
> {
    match spec_lookup(fields, key) {
        Some(f) => match f {
            JsonValue::Arr(items) => if spec_all_strings(items@) {
                Some(Seq::new(items@.len(), |i: int| items@[i]->Str_0@))
            } else {
                None
            },
            _ => None,
        },
        None => None,
    }
}

/// Reads a required field holding a native array of strings.
#[verifier::loop_isolation(false)]
pub fn get_string_array_field(fields: &Vec<(String, JsonValue)>, key: &str) -> (r: Result<
    Vec<String>,
    Error,
>)
    ensures
        match r {
            Ok(xs) => spec_string_array_field(fields@, key@) == Some(xs.deep_view()),
            Err(e) => spec_string_array_field(fields@, key@) is None && e == Error::DecodeError,
        },
{
    let f = req_field(fields, key)?;
    match f {
        JsonValue::Arr(items) => {
            let mut xs: Vec<String> = Vec::new();
            let n = items.len();
            proof {
                assert(xs.deep_view() =~= Seq::<Seq<char>>::empty());
            }
            let mut i: usize = 0;
            while i < n
                invariant
                    i <= n,
                    n == items@.len(),
                    forall|k: int| 0 <= k < i ==> #[trigger] items@[k] matches JsonValue::Str(_),
                    xs.deep_view().len() == i,
                    forall|k: int| 0 <= k < i ==> #[trigger] xs.deep_view()[k] == items@[k]->Str_0@,
                decreases n - i,
            {
                let ghost prevd = xs.deep_view();
                match &items[i] {
                    JsonValue::Str(t) => {
                        let u = t.clone();
                        xs.push(u);
                        proof {
                            assert(xs.deep_view() =~= prevd + seq![items@[i as int]->Str_0@]);
                        }
                    },
                    _ => {
                        proof {
                            assert(!(items@[i as int] matches JsonValue::Str(_)));
                            assert(!spec_all_strings(items@));
                        }
                        return Err(Error::DecodeError);
                    },
                }
                i = i + 1;
            }
            proof {
                assert(xs.deep_view() =~= Seq::new(items@.len(), |k: int| items@[k]->Str_0@));
            }
            Ok(xs)
        },
        _ => Err(Error::DecodeError),
    }
}

/// The view of an optional byte-sized number.
pub open spec fn opt_u8_view(o: Option<u8>) -> Option<int> {
    match o {
        Some(x) => Some(x as int),
        None => None,
    }
}

/// The view of an optional 32-bit number.
pub open spec fn opt_u32_view(o: Option<u32>) -> Option<int> {
    match o {
        Some(x) => Some(x as int),
        None => None,
    }
}

/// The view of an optional string.
pub open spec fn opt_str_view(o: Option<String>) -> Option<Seq<char>> {
    match o {
        Some(s) => Some(s@),
        None => None,
    }
}

/// Narrows a list of values known to fit 32 bits.
pub fn narrow_u32(xs: &Vec<u64>) -> (r: Vec<u32>)
    requires
        forall|i: int| 0 <= i < xs@.len() ==> #[trigger] xs@[i] <= u32::MAX as u64,
    ensures
        r@.map_values(|x: u32| x as int) == xs@.map_values(|x: u64| x as int),
{
    let mut r: Vec<u32> = Vec::new();
    let n = xs.len();
    let mut i: usize = 0;
    while i < n
        invariant
            i <= n,
            n == xs@.len(),
            forall|k: int| 0 <= k < n ==> #[trigger] xs@[k] <= u32::MAX as u64,
            r@.len() == i,
            forall|k: int| 0 <= k < i ==> #[trigger] r@[k] as int == xs@[k] as int,
        decreases n - i,
    {
        r.push(xs[i] as u32);
        i = i + 1;
    }
    proof {
        assert(r@.map_values(|x: u32| x as int) =~= xs@.map_values(|x: u64| x as int));
    }
    r
}

/// Narrows a list of values known to fit 16 bits.
pub fn narrow_u16(xs: &Vec<u64>) -> (r: Vec<u16>)
    requires
        forall|i: int| 0 <= i < xs@.len() ==> #[trigger] xs@[i] <= u16::MAX as u64,
    ensures
        r@.map_values(|x: u16| x as int) == xs@.map_values(|x: u64| x as int),
{
    let mut r: Vec<u16> = Vec::new();
    let n = xs.len();
    let mut i: usize = 0;
    while i < n
        invariant
            i <= n,
            n == xs@.len(),
            forall|k: int| 0 <= k < n ==> #[trigger] xs@[k] <= u16::MAX as u64,
            r@.len() == i,
            forall|k: int| 0 <= k < i ==> #[trigger] r@[k] as int == xs@[k] as int,
        decreases n - i,
    {
        r.push(xs[i] as u16);
        i = i + 1;
    }
    proof {
        assert(r@.map_values(|x: u16| x as int) =~= xs@.map_values(|x: u64| x as int));
    }
    r
}

/// Narrows a list of values known to fit 8 bits.
pub fn narrow_u8(xs: &Vec<u64>) -> (r: Vec<u8>)
    requires
        forall|i: int| 0 <= i < xs@.len() ==> #[trigger] xs@[i] <= u8::MAX as u64,
    ensures
        r@.map_values(|x: u8| x as int) == xs@.map_values(|x: u64| x as int),
{
    let mut r: Vec<u8> = Vec::new();
    let n = xs.len();
    let mut i: usize = 0;
    while i < n
        invariant
            i <= n,
            n == xs@.len(),
            forall|k: int| 0 <= k < n ==> #[trigger] xs@[k] <= u8::MAX as u64,
            r@.len() == i,
            forall|k: int| 0 <= k < i ==> #[trigger] r@[k] as int == xs@[k] as int,
        decreases n - i,
    {
        r.push(xs[i] as u8);
        i = i + 1;
    }
    proof {
        assert(r@.map_values(|x: u8| x as int) =~= xs@.map_values(|x: u64| x as int));
    }
    r
}

/// Reads a required field under the string-list coercion.
pub fn get_string_list_field(fields: &Vec<(String, JsonValue)>, key: &str) -> (r: Result<
    Vec<String>,
    Error,
>)
    ensures
        match r {
            Ok(xs) => spec_string_list_field(fields@, key@) == Some(xs.deep_view()),
            Err(e) => spec_string_list_field(fields@, key@) is None && e == Error::DecodeError,
        },
{
    let f = req_field(fields, key)?;
    deserialize_vec_from_string_or_vec(f)
}

/// Reads a required field under the number-list coercion.
pub fn get_number_list_field(fields: &Vec<(String, JsonValue)>, key: &str, max: u64) -> (r: Result<
    Vec<u64>,
    Error,
>)
    ensures
        match r {
            Ok(xs) => spec_number_list_field(fields@, key@, max as int) == Some(
                xs@.map_values(|x: u64| x as int),
            ) && forall|i: int| 0 <= i < xs@.len() ==> #[trigger] xs@[i] <= max,
            Err(e) => spec_number_list_field(fields@, key@, max as int) is None && e
                == Error::DecodeError,
        },
{
    let f = req_field(fields, key)?;
    decode_vec_number_from_string_or_vec(f, max)
}

/// Reads a required field under the timestamp marker coercion.
pub fn get_epoch_field(fields: &Vec<(String, JsonValue)>, key: &str) -> (r: Result<i64, Error>)
    ensures
        match r {
            Ok(t) => spec_epoch_field(fields@, key@) == Some(t as int) && t >= 0,
            Err(e) => spec_epoch_field(fields@, key@) is None && e == Error::DecodeError,
        },
{
    let f = req_field(fields, key)?;
    deserialize_date_time(f)
}

/// A native boolean field; no coercion (the server sends these as real
/// booleans).
pub open spec fn spec_native_bool_field(fields: Seq<(String, JsonValue)>, key: Seq<char>) -> Option<
    bool,
> {
    match spec_lookup(fields, key) {
        Some(f) => match f {
            JsonValue::Bool(b) => Some(b),
            _ => None,
        },
        None => None,
    }
}

/// Reads a required native boolean field.
pub fn get_native_bool_field(fields: &Vec<(String, JsonValue)>, key: &str) -> (r: Result<
    bool,
    Error,
>)
    ensures
        match r {
            Ok(b) => spec_native_bool_field(fields@, key@) == Some(b),
            Err(e) => spec_native_bool_field(fields@, key@) is None && e == Error::DecodeError,
        },
{
    let f = req_field(fields, key)?;
    match f {
        JsonValue::Bool(b) => Ok(*b),
        _ => Err(Error::DecodeError),
    }
}

/// A field that must hold an empty array (the server always sends these
/// collections empty; anything else is new behaviour and fails loudly).
pub open spec fn spec_empty_array_field(fields: Seq<(String, JsonValue)>, key: Seq<char>) -> bool {
    match spec_lookup(fields, key) {
        Some(f) => f matches JsonValue::Arr(items) && items@.len() == 0,
        None => false,
    }
}

/// Checks a required empty-array field.
pub fn check_empty_array_field(fields: &Vec<(String, JsonValue)>, key: &str) -> (r: Result<
    (),
    Error,
>)
    ensures
        match r {
            Ok(_) => spec_empty_array_field(fields@, key@),
            Err(e) => !spec_empty_array_field(fields@, key@) && e == Error::DecodeError,
        },
{
    let f = req_field(fields, key)?;
    match f {
        JsonValue::Arr(items) => {
            if items.len() == 0 {
                Ok(())
            } else {
                Err(Error::DecodeError)
            }
        },
        _ => Err(Error::DecodeError),
    }
}

/// A field that must be absent or `null` (the server sends no other value
/// for it; anything else is new behaviour and fails loudly).
pub open spec fn spec_absent_or_null_field(fields: Seq<(String, JsonValue)>, key: Seq<char>) -> bool {
    match spec_lookup(fields, key) {
        Some(f) => f is Null,
        None => true,
    }
}

/// Checks a field that must be absent or `null`.
pub fn check_absent_or_null_field(fields: &Vec<(String, JsonValue)>, key: &str) -> (r: Result<
    (),
    Error,
>)
    ensures
        match r {
            Ok(_) => spec_absent_or_null_field(fields@, key@),
            Err(e) => !spec_absent_or_null_field(fields@, key@) && e == Error::DecodeError,
        },
{
    match JsonValue::get_field(fields, key) {
        Some(f) => match f {
            JsonValue::Null => Ok(()),
            _ => Err(Error::DecodeError),
        },
        None => Ok(()),
    }
}

/// An optional field holding a native array of strings; absent or `null`
/// is no value.
pub open spec fn spec_opt_string_array_field(
    fields: Seq<(String, JsonValue)>,
    key: Seq<char>,
) -> Option<Option<Seq<Seq<char>>>> {
    match spec_lookup(fields, key) {
        Some(f) => match f {
            JsonValue::Null => Some(None),
            JsonValue::Arr(items) => if spec_all_strings(items@) {
                Some(Some(Seq::new(items@.len(), |i: int| items@[i]->Str_0@)))
            } else {
                None
            },
            _ => None,
        },
        None => Some(None),
    }
}

/// The view of an optional list of strings.
pub open spec fn opt_vec_str_view(o: Option<Vec<String>>) -> Option<Seq<Seq<char>>> {
    match o {
        Some(v) => Some(v.deep_view()),
        None => None,
    }
}

/// Reads an optional native string array field.
#[verifier::loop_isolation(false)]
pub fn get_opt_string_array_field(fields: &Vec<(String, JsonValue)>, key: &str) -> (r: Result<
    Option<Vec<String>>,
    Error,
>)
    ensures
        match r {
            Ok(o) => spec_opt_string_array_field(fields@, key@) == Some(opt_vec_str_view(o)),
            Err(e) => spec_opt_string_array_field(fields@, key@) is None && e
                == Error::DecodeError,
        },
{
    let f = match JsonValue::get_field(fields, key) {
        Some(f) => f,
        None => {
            return Ok(None);
        },
    };
    match f {
        JsonValue::Null => Ok(None),
        JsonValue::Arr(items) => {
            let mut xs: Vec<String> = Vec::new();
            let n = items.len();
            proof {
                assert(xs.deep_view() =~= Seq::<Seq<char>>::empty());
            }
            let mut i: usize = 0;
            while i < n
                invariant
                    i <= n,
                    n == items@.len(),
                    forall|k: int| 0 <= k < i ==> #[trigger] items@[k] matches JsonValue::Str(_),
                    xs.deep_view().len() == i,
                    forall|k: int| 0 <= k < i ==> #[trigger] xs.deep_view()[k] == items@[k]->Str_0@,
                decreases n - i,
            {
                let ghost prevd = xs.deep_view();
                match &items[i] {
                    JsonValue::Str(t) => {
                        let u = t.clone();
                        xs.push(u);
                        proof {
                            assert(xs.deep_view() =~= prevd + seq![items@[i as int]->Str_0@]);
                        }
                    },
                    _ => {
                        proof {
                            assert(!(items@[i as int] matches JsonValue::Str(_)));
                            assert(!spec_all_strings(items@));
                        }
                        return Err(Error::DecodeError);
                    },
                }
                i = i + 1;
            }
            proof {
                assert(xs.deep_view() =~= Seq::new(items@.len(), |k: int| items@[k]->Str_0@));
            }
            Ok(Some(xs))
        },
        _ => Err(Error::DecodeError),
    }
}

/// Reads a required calendar date field.
pub fn get_date_field(fields: &Vec<(String, JsonValue)>, key: &str) -> (r: Result<DateYmd, Error>)
    ensures
        match r {
            Ok(d) => spec_date_field(fields@, key@) == Some(
                (d.year as int, d.month as int, d.day as int),
            ),
            Err(e) => spec_date_field(fields@, key@) is None && e == Error::DecodeError,
        },
{
    let f = req_field(fields, key)?;
    decode_naive_date(f)
}

/// Reads a required time-of-day field.
pub fn get_time_field(fields: &Vec<(String, JsonValue)>, key: &str) -> (r: Result<TimeHms, Error>)
    ensures
        match r {
            Ok(t) => spec_time_field(fields@, key@) == Some(
                (t.hour as int, t.minute as int, t.second as int),
            ),
            Err(e) => spec_time_field(fields@, key@) is None && e == Error::DecodeError,
        },
{
    let f = req_field(fields, key)?;
    decode_naive_time(f)
}

} // verus!
