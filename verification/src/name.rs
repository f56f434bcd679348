//! Canonical person names. The server sends `"Lastname, Firstname"`; the
//! canonical form reverses the comma-separated parts, trims their leading
//! whitespace, lowercases ASCII letters and joins the parts with `.`,
//! yielding `firstname.lastname`. Matching a locally-held identity against a
//! server-provided student record happens only on this canonical form.

use vstd::prelude::*;

use crate::strutil::is_ws_char;
use crate::strutil::spec_lower;
use crate::strutil::spec_lower_char;

verus! {

/// A name in the canonical `firstname.lastname` format.
#[derive(Debug, Clone, PartialEq, Eq)]
pub struct Name {
    pub string: String,
}

/// The index of the first comma in `s`, or `s.len()` if there is none.
pub open spec fn first_comma_idx(s: Seq<char>) -> int
    decreases s.len(),
{
    if s.len() == 0 {
        0
    } else if s[0] == ',' {
        0
    } else {
        1 + first_comma_idx(s.drop_first())
    }
}

/// `first_comma_idx` lies in range, points at a comma when it is in range,
/// and nothing before it is a comma.
pub proof fn lemma_first_comma_idx(s: Seq<char>)
    ensures
        0 <= first_comma_idx(s) <= s.len(),
        first_comma_idx(s) < s.len() ==> s[first_comma_idx(s)] == ',',
        forall|k: int| 0 <= k < first_comma_idx(s) ==> #[trigger] s[k] != ',',
    decreases s.len(),
{
    if s.len() > 0 && s[0] != ',' {
        let t = s.drop_first();
        lemma_first_comma_idx(t);
        assert(forall|k: int| 0 <= k < t.len() ==> #[trigger] t[k] == s[k + 1]);
        let i = first_comma_idx(s);
        assert(i == 1 + first_comma_idx(t));
        if first_comma_idx(t) < t.len() {
            assert(s[i] == t[i - 1]);
        }
        assert forall|k: int| 0 <= k < i implies #[trigger] s[k] != ',' by {
            if k > 0 {
                assert(t[k - 1] == s[k]);
            }
        }
    }
}

/// The comma-separated parts of `s`, in order. A string without a comma is
/// one part; an empty string is one empty part.
pub open spec fn spec_split_comma(s: Seq<char>) -> Seq<Seq<char>>
    decreases s.len(),
    via spec_split_comma_decreases
{
    let i = first_comma_idx(s);
    if i >= s.len() {
        seq![s]
    } else {
        seq![s.subrange(0, i)] + spec_split_comma(s.subrange(i + 1, s.len() as int))
    }
}

#[via_fn]
proof fn spec_split_comma_decreases(s: Seq<char>) {
    lemma_first_comma_idx(s);
}

/// `s` without its leading whitespace.
pub open spec fn spec_trim_start(s: Seq<char>) -> Seq<char>
    decreases s.len(),
{
    if s.len() > 0 && is_ws_char(s[0]) {
        spec_trim_start(s.drop_first())
    } else {
        s
    }
}

/// One name part as it enters the canonical form: leading whitespace
/// removed, ASCII letters lowercased.
pub open spec fn spec_part_canon(p: Seq<char>) -> Seq<char> {
    spec_lower(spec_trim_start(p))
}

/// The parts joined with `.`, last part first.
pub open spec fn spec_join_rev(parts: Seq<Seq<char>>) -> Seq<char>
    decreases parts.len(),
{
    if parts.len() == 0 {
        Seq::empty()
    } else if parts.len() == 1 {
        parts[0]
    } else {
        parts.last() + seq!['.'] + spec_join_rev(parts.drop_last())
    }
}

/// The canonical form of a server-provided name string.
pub open spec fn spec_canonical_of(s: Seq<char>) -> Seq<char> {
    spec_join_rev(spec_split_comma(s).map_values(|p: Seq<char>| spec_part_canon(p)))
}

/// Joining from the other end: splitting off the first part.
proof fn lemma_join_rev_first(parts: Seq<Seq<char>>)
    requires
        parts.len() >= 2,
    ensures
        spec_join_rev(parts) == spec_join_rev(parts.drop_first()) + seq!['.'] + parts.first(),
    decreases parts.len(),
{
    if parts.len() == 2 {
        let single0 = seq![parts[0]];
        let single1 = seq![parts[1]];
        assert(parts.drop_last() =~= single0);
        assert(parts.drop_first() =~= single1);
        assert(spec_join_rev(single0) == parts[0]);
        assert(spec_join_rev(single1) == parts[1]);
        assert(spec_join_rev(parts) == parts.last() + seq!['.'] + spec_join_rev(single0));
        assert(spec_join_rev(parts) =~= spec_join_rev(parts.drop_first()) + seq!['.']
            + parts.first());
    } else {
        let t = parts.drop_last();
        lemma_join_rev_first(t);
        assert(t.drop_first() =~= parts.drop_first().drop_last());
        assert(t.first() == parts.first());
        assert(parts.drop_first().last() == parts.last());
        assert(spec_join_rev(parts) == parts.last() + seq!['.'] + spec_join_rev(t));
        assert(spec_join_rev(t) == spec_join_rev(t.drop_first()) + seq!['.'] + parts.first());
        assert(spec_join_rev(parts.drop_first()) == parts.last() + seq!['.'] + spec_join_rev(
            parts.drop_first().drop_last(),
        ));
        assert(spec_join_rev(parts) =~= spec_join_rev(parts.drop_first()) + seq!['.']
            + parts.first());
    }
}

/// `s` holds no comma.
pub open spec fn no_comma(s: Seq<char>) -> bool {
    forall|i: int| 0 <= i < s.len() ==> #[trigger] s[i] != ','
}

/// `s` is unchanged by ASCII lowercasing.
pub open spec fn lower_fixed(s: Seq<char>) -> bool {
    spec_lower(s) == s
}

/// A string is already canonical when it holds no comma, does not start
/// with whitespace, and is unchanged by lowercasing.
pub open spec fn spec_is_canonical(s: Seq<char>) -> bool {
    &&& no_comma(s)
    &&& s.len() > 0 ==> !is_ws_char(s[0])
    &&& lower_fixed(s)
}

/// Lowercasing never makes a character a comma or whitespace.
proof fn lemma_lower_char_shape(c: char)
    ensures
        c != ',' ==> spec_lower_char(c) != ',',
        !is_ws_char(c) ==> !is_ws_char(spec_lower_char(c)),
{
    if 65 <= c as u32 <= 90 {
        let l = (((c as u8) + 32) as char);
        assert(97 <= l as u32 <= 122);
        assert(l != ',' && !is_ws_char(l));
    }
}

/// Trimming keeps a comma-free string comma-free, removes every leading
/// whitespace character, and keeps a lowercase-fixed string fixed.
proof fn lemma_trim_start_props(p: Seq<char>)
    ensures
        no_comma(p) ==> no_comma(spec_trim_start(p)),
        spec_trim_start(p).len() > 0 ==> !is_ws_char(spec_trim_start(p)[0]),
        lower_fixed(p) ==> lower_fixed(spec_trim_start(p)),
    decreases p.len(),
{
    if p.len() > 0 && is_ws_char(p[0]) {
        let t = p.drop_first();
        assert(forall|k: int| 0 <= k < t.len() ==> #[trigger] t[k] == p[k + 1]);
        lemma_trim_start_props(t);
        if lower_fixed(p) {
            assert forall|k: int| 0 <= k < t.len() implies #[trigger] spec_lower_char(t[k])
                == t[k] by {
                assert(spec_lower(p)[k + 1] == spec_lower_char(p[k + 1]));
            }
            assert(spec_lower(t) =~= t);
        }
    } else if p.len() > 0 {
        if lower_fixed(p) {
        }
    }
}

/// Lowercasing keeps a comma-free string comma-free, and its output is
/// fixed under further lowercasing; it also never introduces leading
/// whitespace.
proof fn lemma_lower_props(p: Seq<char>)
    ensures
        no_comma(p) ==> no_comma(spec_lower(p)),
        lower_fixed(spec_lower(p)),
        p.len() > 0 && !is_ws_char(p[0]) ==> !is_ws_char(spec_lower(p)[0]),
{
    assert forall|k: int| 0 <= k < p.len() implies #[trigger] spec_lower(p)[k] == spec_lower_char(
        p[k],
    ) by {}
    if no_comma(p) {
        assert forall|k: int| 0 <= k < p.len() implies #[trigger] spec_lower(p)[k] != ',' by {
            lemma_lower_char_shape(p[k]);
        }
    }
    crate::strutil::lemma_lower_idempotent(p);
    if p.len() > 0 && !is_ws_char(p[0]) {
        lemma_lower_char_shape(p[0]);
    }
}

/// Every part of the comma split is comma-free.
proof fn lemma_split_comma_parts(s: Seq<char>)
    ensures
        forall|i: int|
            0 <= i < spec_split_comma(s).len() ==> no_comma(#[trigger] spec_split_comma(s)[i]),
    decreases s.len(),
{
    lemma_first_comma_idx(s);
    let idx = first_comma_idx(s);
    if idx >= s.len() {
        assert(spec_split_comma(s) == seq![s]);
        assert(no_comma(s));
        assert(spec_split_comma(s)[0] == s);
    } else {
        let head = s.subrange(0, idx);
        let tail = s.subrange(idx + 1, s.len() as int);
        lemma_split_comma_parts(tail);
        assert(no_comma(head)) by {
            assert(forall|k: int| 0 <= k < head.len() ==> #[trigger] head[k] == s[k]);
        }
        assert(spec_split_comma(s) == seq![head] + spec_split_comma(tail));
        assert forall|i: int|
            0 <= i < spec_split_comma(s).len() implies no_comma(
            #[trigger] spec_split_comma(s)[i],
        ) by {
            if i == 0 {
                assert(spec_split_comma(s)[0] == head);
            } else {
                assert(spec_split_comma(s)[i] == spec_split_comma(tail)[i - 1]);
            }
        }
    }
}

/// Concatenation preserves comma-freedom and lowercase-fixedness.
proof fn lemma_concat_props(a: Seq<char>, b: Seq<char>)
    ensures
        no_comma(a) && no_comma(b) ==> no_comma(a + b),
        lower_fixed(a) && lower_fixed(b) ==> lower_fixed(a + b),
{
    if no_comma(a) && no_comma(b) {
        assert forall|k: int| 0 <= k < (a + b).len() implies #[trigger] (a + b)[k] != ',' by {
            if k < a.len() {
                assert((a + b)[k] == a[k]);
            } else {
                assert((a + b)[k] == b[k - a.len()]);
            }
        }
    }
    if lower_fixed(a) && lower_fixed(b) {
        assert forall|k: int| 0 <= k < (a + b).len() implies #[trigger] spec_lower(a + b)[k] == (a
            + b)[k] by {
            assert(spec_lower(a + b)[k] == spec_lower_char((a + b)[k]));
            if k < a.len() {
                assert((a + b)[k] == a[k]);
                assert(spec_lower(a)[k] == spec_lower_char(a[k]));
            } else {
                assert((a + b)[k] == b[k - a.len()]);
                assert(spec_lower(b)[k - a.len()] == spec_lower_char(b[k - a.len()]));
            }
        }
        assert(spec_lower(a + b) =~= a + b);
    }
}

/// A join of canonical-shaped parts is itself canonical-shaped.
proof fn lemma_join_rev_canonical(parts: Seq<Seq<char>>)
    requires
        forall|i: int|
            0 <= i < parts.len() ==> no_comma(#[trigger] parts[i]) && lower_fixed(parts[i]) && (
            parts[i].len() > 0 ==> !is_ws_char(parts[i][0])),
    ensures
        spec_is_canonical(spec_join_rev(parts)),
    decreases parts.len(),
{
    let dot = seq!['.'];
    assert(no_comma(dot) && !is_ws_char(dot[0])) by {
        assert(dot[0] == '.');
    }
    assert(lower_fixed(dot)) by {
        assert(spec_lower(dot)[0] == spec_lower_char('.'));
        assert(spec_lower(dot) =~= dot);
    }
    if parts.len() == 0 {
        assert(spec_lower(Seq::<char>::empty()) =~= Seq::<char>::empty());
    } else if parts.len() == 1 {
        assert(spec_join_rev(parts) == parts[0]);
    } else {
        let t = parts.drop_last();
        assert(forall|k: int| 0 <= k < t.len() ==> #[trigger] t[k] == parts[k]);
        lemma_join_rev_canonical(t);
        let rest = spec_join_rev(t);
        let last = parts.last();
        assert(last == parts[parts.len() - 1]);
        lemma_concat_props(last, dot);
        lemma_concat_props(last + dot, rest);
        assert(spec_join_rev(parts) == last + dot + rest);
        let o = spec_join_rev(parts);
        assert(o =~= (last + dot) + rest);
        if o.len() > 0 {
            if last.len() > 0 {
                assert(o[0] == last[0]);
            } else {
                assert(o[0] == dot[0 - last.len()]);
            }
        }
    }
}

/// Canonicalizing leaves an already-canonical string unchanged: the law
/// behind matching a locally-held `firstname.lastname` identity against
/// the canonicalized server names.
pub proof fn lemma_canonical_fixed_point(s: Seq<char>)
    requires
        spec_is_canonical(s),
    ensures
        spec_canonical_of(s) == s,
{
    lemma_first_comma_idx(s);
    let idx = first_comma_idx(s);
    if idx < s.len() {
        assert(s[idx] == ',');
        assert(false);
    }
    assert(spec_split_comma(s) == seq![s]);
    let procd = spec_split_comma(s).map_values(|p: Seq<char>| spec_part_canon(p));
    assert(procd =~= seq![spec_part_canon(s)]);
    assert(spec_trim_start(s) == s);
    assert(spec_part_canon(s) == spec_lower(s));
    assert(spec_join_rev(procd) == procd[0]);
    assert(spec_canonical_of(s) == spec_lower(s));
}

/// Canonicalizing twice is the same as canonicalizing once, whatever the
/// input: the canonical form is idempotent.
pub proof fn lemma_canonicalize_idempotent(s: Seq<char>)
    ensures
        spec_canonical_of(spec_canonical_of(s)) == spec_canonical_of(s),
{
    let parts = spec_split_comma(s);
    let procd = parts.map_values(|p: Seq<char>| spec_part_canon(p));
    lemma_split_comma_parts(s);
    assert forall|i: int|
        0 <= i < procd.len() implies no_comma(#[trigger] procd[i]) && lower_fixed(procd[i]) && (
    procd[i].len() > 0 ==> !is_ws_char(procd[i][0])) by {
        assert(procd[i] == spec_part_canon(parts[i]));
        assert(no_comma(parts[i]));
        lemma_trim_start_props(parts[i]);
        lemma_lower_props(spec_trim_start(parts[i]));
    }
    lemma_join_rev_canonical(procd);
    lemma_canonical_fixed_point(spec_canonical_of(s));
}

/// The exact shape of a two-part inversion: canonicalizing
/// `"Lastname, Firstname"` yields the trimmed, lowercased first name, a
/// dot, and the trimmed, lowercased last name.
pub proof fn lemma_canonical_two_part(last: Seq<char>, first: Seq<char>)
    requires
        no_comma(last),
        no_comma(first),
    ensures
        spec_canonical_of(last + ", "@ + first) == spec_part_canon(first) + seq!['.']
            + spec_part_canon(last),
{
    reveal_strlit(", ");
    let s = last + ", "@ + first;
    assert(s.len() == last.len() + 2 + first.len());
    assert(s[last.len() as int] == ',');
    lemma_first_comma_idx(s);
    let i = first_comma_idx(s);
    assert forall|k: int| 0 <= k < last.len() implies #[trigger] s[k] != ',' by {
        assert(s[k] == last[k]);
    }
    if i < last.len() {
        assert(s[i] == ',');
        assert(false);
    }
    if i > last.len() {
        assert(false);
    }
    assert(i == last.len());
    let tail = s.subrange(i + 1, s.len() as int);
    assert(tail =~= seq![' '] + first);
    assert(spec_split_comma(s) == seq![s.subrange(0, i)] + spec_split_comma(tail));
    assert(s.subrange(0, i) =~= last);
    lemma_first_comma_idx(tail);
    assert forall|k: int| 0 <= k < tail.len() implies #[trigger] tail[k] != ',' by {
        if k == 0 {
            assert(tail[0] == ' ');
        } else {
            assert(tail[k] == first[k - 1]);
        }
    }
    if first_comma_idx(tail) < tail.len() {
        assert(tail[first_comma_idx(tail)] == ',');
        assert(false);
    }
    assert(spec_split_comma(tail) == seq![tail]);
    let parts = spec_split_comma(s);
    assert(parts =~= seq![last, tail]);
    let procd = parts.map_values(|p: Seq<char>| spec_part_canon(p));
    assert(procd =~= seq![spec_part_canon(last), spec_part_canon(tail)]);
    assert(spec_trim_start(tail) == spec_trim_start(first)) by {
        assert(is_ws_char(tail[0]));
        assert(tail.drop_first() =~= first);
    }
    assert(spec_part_canon(tail) == spec_part_canon(first));
    assert(procd.drop_last() =~= seq![spec_part_canon(last)]);
    assert(spec_join_rev(procd) == spec_part_canon(tail) + seq!['.'] + spec_join_rev(
        seq![spec_part_canon(last)],
    ));
    assert(spec_join_rev(seq![spec_part_canon(last)]) == spec_part_canon(last));
}

/// Finds the first comma at or after `from`.
fn find_comma(chars: &Vec<char>, from: usize) -> (r: usize)
    requires
        from <= chars@.len(),
    ensures
        from <= r <= chars@.len(),
        r - from == first_comma_idx(chars@.subrange(from as int, chars@.len() as int)),
{
    let n = chars.len();
    let mut i: usize = from;
    while i < n
        invariant
            from <= i <= n,
            n == chars@.len(),
            first_comma_idx(chars@.subrange(from as int, n as int)) == (i - from)
                + first_comma_idx(chars@.subrange(i as int, n as int)),
        decreases n - i,
    {
        let ghost cur = chars@.subrange(i as int, n as int);
        proof {
            assert(cur[0] == chars@[i as int]);
            assert(cur.drop_first() =~= chars@.subrange(i + 1, n as int));
        }
        if chars[i] == ',' {
            proof {
                assert(first_comma_idx(cur) == 0);
            }
            return i;
        }
        i = i + 1;
    }
    proof {
        assert(chars@.subrange(n as int, n as int).len() == 0);
    }
    n
}

/// Splits at every comma.
fn split_comma(chars: &Vec<char>) -> (r: Vec<Vec<char>>)
    ensures
        r.deep_view() == spec_split_comma(chars@),
{
    let n = chars.len();
    let mut r: Vec<Vec<char>> = Vec::new();
    proof {
        assert(chars@.subrange(0, n as int) =~= chars@);
        assert(r.deep_view() =~= Seq::<Seq<char>>::empty());
        assert(r.deep_view() + spec_split_comma(chars@) =~= spec_split_comma(chars@));
    }
    let mut from: usize = 0;
    loop
        invariant
            from <= n,
            n == chars@.len(),
            r.deep_view() + spec_split_comma(chars@.subrange(from as int, n as int))
                == spec_split_comma(chars@),
        decreases n - from,
    {
        let ghost rest = chars@.subrange(from as int, n as int);
        let sep = find_comma(chars, from);
        proof {
            lemma_first_comma_idx(rest);
        }
        let mut part: Vec<char> = Vec::new();
        let mut k: usize = from;
        while k < sep
            invariant
                from <= k <= sep <= n,
                n == chars@.len(),
                part@ == chars@.subrange(from as int, k as int),
            decreases sep - k,
        {
            part.push(chars[k]);
            proof {
                assert(part@ =~= chars@.subrange(from as int, k + 1));
            }
            k = k + 1;
        }
        let ghost prev = r.deep_view();
        r.push(part);
        proof {
            assert(r.deep_view() =~~= prev + seq![chars@.subrange(from as int, sep as int)]);
        }
        if sep >= n {
            proof {
                assert(sep == n);
                assert(first_comma_idx(rest) == rest.len());
                assert(spec_split_comma(rest) =~= seq![rest]);
                assert(chars@.subrange(from as int, sep as int) =~= rest);
                assert(r.deep_view() =~= prev + spec_split_comma(rest));
            }
            return r;
        }
        proof {
            let i = first_comma_idx(rest);
            assert(i == sep - from);
            assert(spec_split_comma(rest) == seq![rest.subrange(0, i)] + spec_split_comma(
                rest.subrange(i + 1, rest.len() as int),
            ));
            assert(rest.subrange(0, i) =~= chars@.subrange(from as int, sep as int));
            assert(rest.subrange(i + 1, rest.len() as int) =~= chars@.subrange(sep + 1, n as int));
            assert(r.deep_view() + spec_split_comma(chars@.subrange(sep + 1, n as int)) =~= prev
                + spec_split_comma(rest));
        }
        from = sep + 1;
    }
}

/// Trims leading whitespace, then lowercases ASCII letters.
fn part_canon(part: &Vec<char>) -> (r: Vec<char>)
    ensures
        r@ == spec_part_canon(part@),
{
    let n = part.len();
    proof {
        assert(part@.subrange(0, n as int) =~= part@);
    }
    let mut j: usize = 0;
    while j < n
        invariant
            j <= n,
            n == part@.len(),
            spec_trim_start(part@) == spec_trim_start(part@.subrange(j as int, n as int)),
        ensures
            j <= n,
            n == part@.len(),
            spec_trim_start(part@) == part@.subrange(j as int, n as int),
        decreases n - j,
    {
        let ghost cur = part@.subrange(j as int, n as int);
        proof {
            assert(cur[0] == part@[j as int]);
            assert(cur.drop_first() =~= part@.subrange(j + 1, n as int));
        }
        let c = part[j];
        if !(c == ' ' || c == '\t' || c == '\r' || c == '\n' || c == '\u{0B}' || c == '\u{0C}') {
            proof {
                assert(!is_ws_char(cur[0]));
                assert(spec_trim_start(cur) == cur);
            }
            break ;
        }
        proof {
            assert(is_ws_char(cur[0]));
        }
        j = j + 1;
    }
    let ghost trimmed = spec_trim_start(part@);
    let mut r: Vec<char> = Vec::new();
    let mut k: usize = j;
    while k < n
        invariant
            j <= k <= n,
            n == part@.len(),
            trimmed == part@.subrange(j as int, n as int),
            r@.len() == k - j,
            forall|t: int| 0 <= t < k - j ==> #[trigger] r@[t] == spec_lower_char(trimmed[t]),
        decreases n - k,
    {
        r.push(crate::strutil::lower_char(part[k]));
        proof {
            assert(trimmed[k - j] == part@[k as int]);
        }
        k = k + 1;
    }
    proof {
        assert(r@ =~= spec_lower(trimmed));
    }
    r
}

impl Name {
    /// Builds the canonical `firstname.lastname` form out of a
    /// `"Lastname, Firstname"` string.
    pub fn from_lastname_firstname(name: &str) -> (r: Name)
        ensures
            r.string@ == spec_canonical_of(name@),
    {
        let chars = crate::strutil::chars_of(name);
        let parts = split_comma(&chars);
        let ghost procd = spec_split_comma(name@).map_values(|p: Seq<char>| spec_part_canon(p));
        let n = parts.len();
        proof {
            assert(parts.deep_view().len() == parts@.len());
            assert(n >= 1) by {
                lemma_first_comma_idx(name@);
            }
        }
        let mut acc: Vec<char> = part_canon(&parts[n - 1]);
        proof {
            assert(parts.deep_view()[n - 1] == parts@[n - 1 as int]@);
            assert(procd[n - 1] == spec_part_canon(parts.deep_view()[n - 1]));
            assert(procd.subrange(n - 1 as int, n as int) =~= seq![procd[n - 1]]);
            assert(acc@ == spec_join_rev(procd.subrange(n - 1 as int, n as int)));
        }
        let mut i: usize = n - 1;
        while i > 0
            invariant
                i <= n - 1,
                n == parts@.len(),
                n == procd.len(),
                parts.deep_view() == spec_split_comma(name@),
                procd == spec_split_comma(name@).map_values(|p: Seq<char>| spec_part_canon(p)),
                forall|k: int|
                    0 <= k < n ==> #[trigger] procd[k] == spec_part_canon(parts.deep_view()[k]),
                acc@ == spec_join_rev(procd.subrange(i as int, n as int)),
            decreases i,
        {
            i = i - 1;
            acc.push('.');
            let mut piece = part_canon(&parts[i]);
            let ghost accpre = acc@;
            acc.append(&mut piece);
            proof {
                assert(parts.deep_view()[i as int] == parts@[i as int]@);
                assert(acc@ =~= spec_join_rev(procd.subrange(i + 1, n as int)) + seq!['.']
                    + procd[i as int]);
                let cur = procd.subrange(i as int, n as int);
                assert(cur.len() >= 2);
                lemma_join_rev_first(cur);
                assert(cur.drop_first() =~= procd.subrange(i + 1, n as int));
                assert(cur.first() == procd[i as int]);
                assert(acc@ =~= spec_join_rev(cur));
            }
        }
        proof {
            assert(procd.subrange(0, n as int) =~= procd);
        }
        let string = crate::strutil::string_of(&acc);
        Name { string }
    }
}

} // verus!
