//! A JSON value tree, the form in which protocol messages are framed.
use vstd::prelude::*;

verus! {

/// A JSON value. Numbers that fit neither `u64` nor `i64` keep their text.
#[derive(Debug, PartialEq, Eq)]
pub enum Json {
    Null,
    Bool(bool),
    UInt(u64),
    Int(i64),
    Real(String),
    Str(String),
    Array(Vec<Json>),
    Object(Vec<(String, Json)>),
}

/// Whether `j` is the string `s`.
pub open spec fn is_text(j: Json, s: Seq<char>) -> bool {
    j is Str && j->Str_0@ == s
}

/// The value of the first field named `key` at position `i` or later.
pub open spec fn field_from(fields: Seq<(String, Json)>, key: Seq<char>, i: int) -> Option<Json>
    decreases fields.len() - i,
{
    if i < 0 || i >= fields.len() {
        None
    } else if fields[i].0@ == key {
        Some(fields[i].1)
    } else {
        field_from(fields, key, i + 1)
    }
}

/// The value of the first field named `key`.
pub open spec fn field(fields: Seq<(String, Json)>, key: Seq<char>) -> Option<Json> {
    field_from(fields, key, 0)
}

proof fn lemma_field_from_is(f: Seq<(String, Json)>, key: Seq<char>, i: int, k: int)
    requires
        0 <= k <= i < f.len(),
        f[i].0@ == key,
        forall|j: int| 0 <= j < i ==> f[j].0@ != key,
    ensures
        field_from(f, key, k) == Some(f[i].1),
    decreases i - k,
{
    if k < i {
        lemma_field_from_is(f, key, i, k + 1);
    }
}

/// The first field named `key` stands at `i`.
pub proof fn lemma_field_is(f: Seq<(String, Json)>, key: Seq<char>, i: int)
    requires
        0 <= i < f.len(),
        f[i].0@ == key,
        forall|j: int| 0 <= j < i ==> f[j].0@ != key,
    ensures
        field(f, key) == Some(f[i].1),
{
    lemma_field_from_is(f, key, i, 0);
}

proof fn lemma_field_from_absent(f: Seq<(String, Json)>, key: Seq<char>, k: int)
    requires
        0 <= k,
        forall|j: int| 0 <= j < f.len() ==> f[j].0@ != key,
    ensures
        field_from(f, key, k) is None,
    decreases f.len() - k,
{
    if k < f.len() {
        lemma_field_from_absent(f, key, k + 1);
    }
}

/// No field is named `key`.
pub proof fn lemma_field_absent(f: Seq<(String, Json)>, key: Seq<char>)
    requires
        forall|j: int| 0 <= j < f.len() ==> f[j].0@ != key,
    ensures
        field(f, key) is None,
{
    lemma_field_from_absent(f, key, 0);
}

/// Whether the keys are pairwise different.
pub open spec fn distinct_keys(keys: Seq<String>) -> bool {
    forall|a: int, b: int| 0 <= a < keys.len() && 0 <= b < keys.len() && a != b ==> keys[a]@ != keys[b]@
}

/// A fresh string holding `lit`.
pub fn text(lit: &str) -> (r: String)
    ensures
        r@ == lit@,
{
    String::from_str(lit)
}

/// Whether `s` holds exactly `lit`.
pub fn text_is(s: &String, lit: &str) -> (r: bool)
    ensures
        r == (s@ == lit@),
{
    let t = String::from_str(lit);
    *s == t
}

/// Moves out of `fields` the value of each key of `keys`: slot `k` holds the first
/// field named `keys[k]`, or `None` where there is none.
pub fn take_fields(fields: Vec<(String, Json)>, keys: &Vec<String>) -> (r: Vec<Option<Json>>)
    requires
        distinct_keys(keys@),
    ensures
        r@.len() == keys@.len(),
        forall|k: int| 0 <= k < keys@.len() ==> r@[k] == field(fields@, keys@[k]@),
{
    let ghost orig = fields@;
    let mut rest = fields;
    let mut slots: Vec<Option<Json>> = Vec::new();
    let mut n: usize = 0;
    while n < keys.len()
        invariant
            n <= keys@.len(),
            slots@.len() == n,
            rest@ == orig,
            forall|k: int| 0 <= k < n ==> slots@[k] == field_from(orig, keys@[k]@, orig.len() as int),
        decreases keys@.len() - n,
    {
        slots.push(None);
        n = n + 1;
    }
    while rest.len() > 0
        invariant
            distinct_keys(keys@),
            slots@.len() == keys@.len(),
            rest@ == orig.subrange(0, rest@.len() as int),
            rest@.len() <= orig.len(),
            forall|k: int| 0 <= k < keys@.len() ==> slots@[k] == field_from(orig, keys@[k]@, rest@.len() as int),
        decreases rest@.len(),
    {
        let ghost i = rest@.len() - 1;
        let (name, value) = rest.pop().unwrap();
        assert(orig[i] == (name, value));
        let mut k: usize = 0;
        let mut found: usize = keys.len();
        while k < keys.len()
            invariant
                k <= keys@.len(),
                found == keys@.len() || (found < k && keys@[found as int]@ == name@),
                found == keys@.len() ==> forall|m: int| 0 <= m < k ==> keys@[m]@ != name@,
            decreases keys@.len() - k,
        {
            if found == keys.len() && keys[k] == name {
                found = k;
            }
            k = k + 1;
        }
        if found < keys.len() {
            slots.set(found, Some(value));
        }
        assert forall|m: int| 0 <= m < keys@.len() implies slots@[m] == field_from(orig, keys@[m]@, i) by {
            if keys@[m]@ == name@ {
                assert(m == found);
            }
        }
    }
    slots
}

} // verus!
