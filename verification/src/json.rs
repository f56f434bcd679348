//! A plain JSON tree, the decoder's input. The surrounding application turns
//! raw response text into this shape; every rule that interprets it lives in
//! this crate and is verified.

use vstd::prelude::*;

verus! {

/// One JSON value. Numbers are kept only when they are whole and fit a
/// signed 64-bit integer; anything else is marked unsupported and fails
/// wherever the decoder expects a value.
pub enum JsonValue {
    Null,
    Bool(bool),
    Int(i64),
    UnsupportedNumber,
    Str(String),
    Arr(Vec<JsonValue>),
    Obj(Vec<(String, JsonValue)>),
}

/// The value under the first binding of `key`, if any.
pub open spec fn spec_lookup(fields: Seq<(String, JsonValue)>, key: Seq<char>) -> Option<
    JsonValue,
>
    decreases fields.len(),
{
    if fields.len() == 0 {
        None
    } else if fields[0].0@ == key {
        Some(fields[0].1)
    } else {
        spec_lookup(fields.drop_first(), key)
    }
}

/// `key` names a known field of the record.
pub open spec fn spec_key_allowed(key: Seq<char>, allowed: Seq<Seq<char>>) -> bool {
    exists|j: int| 0 <= j < allowed.len() && #[trigger] allowed[j] == key
}

/// Every field of the object is a known one.
pub open spec fn spec_keys_known(fields: Seq<(String, JsonValue)>, allowed: Seq<Seq<char>>) -> bool {
    forall|i: int| 0 <= i < fields.len() ==> spec_key_allowed(#[trigger] fields[i].0@, allowed)
}

/// The keys of the object that are not known ones, in field order.
pub open spec fn spec_unknown_keys(
    fields: Seq<(String, JsonValue)>,
    allowed: Seq<Seq<char>>,
) -> Seq<Seq<char>>
    decreases fields.len(),
{
    if fields.len() == 0 {
        Seq::empty()
    } else {
        let rest = spec_unknown_keys(fields.drop_last(), allowed);
        if spec_key_allowed(fields.last().0@, allowed) {
            rest
        } else {
            rest.push(fields.last().0@)
        }
    }
}

/// The unknown-key bag is empty exactly when every field is a known one.
pub proof fn lemma_unknown_keys_empty(fields: Seq<(String, JsonValue)>, allowed: Seq<Seq<char>>)
    ensures
        (spec_unknown_keys(fields, allowed).len() == 0) <==> spec_keys_known(fields, allowed),
    decreases fields.len(),
{
    if fields.len() == 0 {
        assert(spec_keys_known(fields, allowed));
    } else {
        let pre = fields.drop_last();
        lemma_unknown_keys_empty(pre, allowed);
        assert(forall|k: int| 0 <= k < pre.len() ==> #[trigger] pre[k] == fields[k]);
        if spec_key_allowed(fields.last().0@, allowed) {
            assert(spec_unknown_keys(fields, allowed) == spec_unknown_keys(pre, allowed));
            if spec_keys_known(pre, allowed) {
                assert forall|i: int| 0 <= i < fields.len() implies spec_key_allowed(
                    #[trigger] fields[i].0@,
                    allowed,
                ) by {
                    if i < fields.len() - 1 {
                        assert(fields[i] == pre[i]);
                    } else {
                        assert(fields[i] == fields.last());
                    }
                }
            }
        } else {
            assert(spec_unknown_keys(fields, allowed).len() > 0);
            assert(fields[fields.len() - 1] == fields.last());
            assert(!spec_keys_known(fields, allowed));
        }
    }
}

impl JsonValue {
    /// The value of the first field named `key`, if the object has one.
    pub fn get_field<'a>(fields: &'a Vec<(String, JsonValue)>, key: &str) -> (r: Option<
        &'a JsonValue,
    >)
        ensures
            match r {
                Some(v) => spec_lookup(fields@, key@) == Some(*v),
                None => spec_lookup(fields@, key@) is None,
            },
    {
        let n = fields.len();
        proof {
            assert(fields@.subrange(0, n as int) =~= fields@);
        }
        let mut i: usize = 0;
        while i < n
            invariant
                n == fields@.len(),
                i <= n,
                spec_lookup(fields@, key@) == spec_lookup(
                    fields@.subrange(i as int, n as int),
                    key@,
                ),
            decreases n - i,
        {
            let ghost suffix = fields@.subrange(i as int, n as int);
            if crate::strutil::str_eq(fields[i].0.as_str(), key) {
                proof {
                    assert(suffix[0] == fields@[i as int]);
                }
                return Some(&fields[i].1);
            }
            proof {
                assert(suffix[0] == fields@[i as int]);
                assert(suffix.drop_first() =~= fields@.subrange(i + 1, n as int));
            }
            i = i + 1;
        }
        proof {
            assert(fields@.subrange(n as int, n as int) =~= Seq::<(String, JsonValue)>::empty());
        }
        None
    }
}

/// Whether `key` is one of the allowed field names.
pub fn key_allowed(key: &String, allowed: &Vec<&str>) -> (r: bool)
    ensures
        r == spec_key_allowed(key@, allowed.deep_view()),
{
    let n = allowed.len();
    let mut j: usize = 0;
    while j < n
        invariant
            n == allowed@.len(),
            j <= n,
            forall|k: int| 0 <= k < j ==> #[trigger] allowed@[k]@ != key@,
            allowed.deep_view().len() == allowed@.len(),
            forall|k: int|
                0 <= k < allowed@.len() ==> #[trigger] allowed.deep_view()[k] == allowed@[k]@,
        decreases n - j,
    {
        if crate::strutil::str_eq(key.as_str(), allowed[j]) {
            proof {
                assert(allowed.deep_view()[j as int] == key@);
            }
            return true;
        }
        j = j + 1;
    }
    false
}

/// The unknown keys of an object, in field order; empty exactly when every
/// field is a known one.
pub fn unknown_keys(fields: &Vec<(String, JsonValue)>, allowed: &Vec<&str>) -> (r: Vec<String>)
    ensures
        r.deep_view() == spec_unknown_keys(fields@, allowed.deep_view()),
        (r@.len() == 0) == spec_keys_known(fields@, allowed.deep_view()),
{
    let n = fields.len();
    let mut r: Vec<String> = Vec::new();
    let mut i: usize = 0;
    while i < n
        invariant
            n == fields@.len(),
            i <= n,
            r.deep_view() == spec_unknown_keys(fields@.subrange(0, i as int), allowed.deep_view()),
            (r@.len() == 0) == spec_keys_known(fields@.subrange(0, i as int), allowed.deep_view()),
        decreases n - i,
    {
        let ghost pre = fields@.subrange(0, i as int);
        let ghost post = fields@.subrange(0, i + 1);
        proof {
            assert(post.drop_last() =~= pre);
            assert(post.last() == fields@[i as int]);
        }
        if key_allowed(&fields[i].0, allowed) {
            proof {
                assert(forall|k: int| 0 <= k < pre.len() ==> #[trigger] post[k] == pre[k]);
                assert(spec_keys_known(post, allowed.deep_view()) == spec_keys_known(pre, allowed.deep_view()));
            }
        } else {
            let key = fields[i].0.clone();
            r.push(key);
            proof {
                assert(r.deep_view() =~= spec_unknown_keys(post, allowed.deep_view()));
                assert(!spec_keys_known(post, allowed.deep_view()));
            }
        }
        i = i + 1;
    }
    proof {
        assert(fields@.subrange(0, n as int) =~= fields@);
    }
    r
}

} // verus!
