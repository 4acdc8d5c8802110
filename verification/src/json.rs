//! JSON values as the client handles them: key-sorted, and written either
//! as one compact line or pretty-printed with two-space indentation.
use vstd::prelude::*;

use serde_json::Value;

use crate::text::push_char;

verus! {

broadcast use vstd::std_specs::vec::group_vec_axioms;

/// A JSON value. Numbers keep the text they were written with; object
/// members keep their order until they are sorted.
#[derive(Debug, PartialEq)]
pub enum Json {
    Null,
    Bool(bool),
    Number(String),
    String(String),
    Array(Vec<Json>),
    Object(Vec<(String, Json)>),
}

/// The mathematical model of a JSON value.
pub enum JsonView {
    Null,
    Bool(bool),
    Number(Seq<char>),
    String(Seq<char>),
    Array(Seq<JsonView>),
    Object(Seq<(Seq<char>, JsonView)>),
}

/// The model of a value.
pub open spec fn json_view(j: Json) -> JsonView
    decreases j,
{
    match j {
        Json::Null => JsonView::Null,
        Json::Bool(b) => JsonView::Bool(b),
        Json::Number(t) => JsonView::Number(t@),
        Json::String(s) => JsonView::String(s@),
        Json::Array(xs) => JsonView::Array(items_view(xs@)),
        Json::Object(es) => JsonView::Object(entries_view(es@)),
    }
}

/// The model of a list of values.
pub open spec fn items_view(xs: Seq<Json>) -> Seq<JsonView>
    decreases xs,
{
    Seq::new(
        xs.len(),
        |i: int|
            if 0 <= i < xs.len() {
                json_view(xs[i])
            } else {
                JsonView::Null
            },
    )
}

/// The model of a list of object members.
pub open spec fn entries_view(es: Seq<(String, Json)>) -> Seq<(Seq<char>, JsonView)>
    decreases es,
{
    Seq::new(
        es.len(),
        |i: int|
            if 0 <= i < es.len() {
                (es[i].0@, json_view(es[i].1))
            } else {
                (Seq::empty(), JsonView::Null)
            },
    )
}

impl View for Json {
    type V = JsonView;

    open spec fn view(&self) -> JsonView {
        json_view(*self)
    }
}

// ---------------------------------------------------------------------------
// Reading JSON text
/// `serde_json::Value`, carried from the parser to the conversion.
#[verifier::external_type_specification]
#[verifier::external_body]
pub struct ExValue(serde_json::Value);

/// What `serde_json::from_str::<serde_json::Value>` makes of a text: the
/// value (each number as `Number`'s `Display` writes it, each object's
/// members in the map's order), or the text of the error.
pub uninterp spec fn spec_parse_json(text: Seq<char>) -> Result<JsonView, Seq<char>>;

/// Whether `c` is one of the characters a JSON number is written with.
pub open spec fn is_numeral_char(c: char) -> bool {
    ('0' <= c && c <= '9') || c == '-' || c == '+' || c == '.' || c == 'e' || c == 'E'
}

/// Whether every number, at every depth, is written with the characters of
/// a JSON number only.
pub open spec fn numerals(v: JsonView) -> bool
    decreases v,
{
    match v {
        JsonView::Number(t) => t.len() > 0 && forall|i: int|
            0 <= i < t.len() ==> is_numeral_char(#[trigger] t[i]),
        JsonView::Array(xs) => forall|i: int| 0 <= i < xs.len() ==> numerals(#[trigger] xs[i]),
        JsonView::Object(es) => forall|i: int| 0 <= i < es.len() ==> numerals(#[trigger] es[i].1),
        _ => true,
    }
}

/// A `serde_json::Value` taken over variant by variant: numbers as
/// `Number`'s `Display` writes them, object members in the map's order.
#[verifier::external_body]
fn json_of_value(value: Value) -> Json {
    match value {
        Value::Null => Json::Null,
        Value::Bool(b) => Json::Bool(b),
        Value::Number(n) => Json::Number(n.to_string()),
        Value::String(s) => Json::String(s),
        Value::Array(items) => Json::Array(items.into_iter().map(json_of_value).collect()),
        Value::Object(map) => Json::Object(map.into_iter().map(|(k, v)| (k, json_of_value(v))).collect()),
    }
}

/// Reads a text as JSON with `serde_json::from_str::<serde_json::Value>`,
/// taking the value over with `json_of_value` and an error as its text.
/// The contract names the outcome, and states that every number is written
/// with the characters of a JSON number: serde_json writes integers with
/// `itoa` and floats with `zmij::Buffer::format_finite` (digits, `-`, `.`,
/// `e`, `+`). What the parser accepts, and its error texts, are left to
/// serde_json.
#[verifier::external_body]
pub(crate) fn parse_json(text: &str) -> (r: Result<Json, String>)
    ensures
        match (r, spec_parse_json(text@)) {
            (Ok(j), Ok(v)) => j@ == v,
            (Err(e), Err(m)) => e@ == m,
            _ => false,
        },
        r matches Ok(j) ==> numerals(j@),
{
    match serde_json::from_str::<Value>(text) {
        Ok(value) => Ok(json_of_value(value)),
        Err(error) => Err(error.to_string()),
    }
}

// ---------------------------------------------------------------------------
// Key order
/// Lexicographic order of keys by code point, the order of `String`.
pub open spec fn key_le(a: Seq<char>, b: Seq<char>) -> bool
    decreases a.len(),
{
    if a.len() == 0 {
        true
    } else if b.len() == 0 {
        false
    } else if a[0] != b[0] {
        a[0] < b[0]
    } else {
        key_le(a.drop_first(), b.drop_first())
    }
}

proof fn lemma_key_le_total(a: Seq<char>, b: Seq<char>)
    ensures
        key_le(a, b) || key_le(b, a),
    decreases a.len(),
{
    if a.len() > 0 && b.len() > 0 {
        if a[0] == b[0] {
            lemma_key_le_total(a.drop_first(), b.drop_first());
        }
    }
}

proof fn lemma_key_le_transitive(a: Seq<char>, b: Seq<char>, c: Seq<char>)
    requires
        key_le(a, b),
        key_le(b, c),
    ensures
        key_le(a, c),
    decreases a.len(),
{
    if a.len() > 0 && b.len() > 0 && c.len() > 0 && a[0] == b[0] && b[0] == c[0] {
        lemma_key_le_transitive(a.drop_first(), b.drop_first(), c.drop_first());
    }
}

/// Whether `a` starts `b`.
pub open spec fn is_prefix_of(a: Seq<char>, b: Seq<char>) -> bool {
    a.len() <= b.len() && forall|k: int| 0 <= k < a.len() ==> a[k] == b[k]
}

/// Whether `a` and `b` agree before position `i` and differ there with the
/// smaller character in `a`.
pub open spec fn first_difference_smaller(a: Seq<char>, b: Seq<char>, i: int) -> bool {
    &&& 0 <= i < a.len()
    &&& i < b.len()
    &&& forall|k: int| 0 <= k < i ==> a[k] == b[k]
    &&& a[i] < b[i]
}

/// The key order is `String`'s lexicographic order by code point: `a` comes
/// no later than `b` exactly when `a` starts `b`, or when at the first
/// position where they differ `a` has the smaller character ("a" before
/// "ab" before "b", "email" before "id").
pub proof fn lemma_key_le_is_lexicographic(a: Seq<char>, b: Seq<char>)
    ensures
        key_le(a, b) <==> (is_prefix_of(a, b) || exists|i: int| first_difference_smaller(a, b, i)),
    decreases a.len(),
{
    if a.len() == 0 {
    } else if b.len() == 0 {
        assert(!is_prefix_of(a, b));
        assert forall|i: int| !first_difference_smaller(a, b, i) by {}
    } else if a[0] != b[0] {
        assert(!is_prefix_of(a, b)) by {
            assert(a[0] != b[0]);
        }
        if a[0] < b[0] {
            assert(first_difference_smaller(a, b, 0));
        } else {
            assert forall|i: int| !first_difference_smaller(a, b, i) by {
                if first_difference_smaller(a, b, i) && i > 0 {
                    assert(a[0] == b[0]);
                }
            }
        }
    } else {
        let a1 = a.drop_first();
        let b1 = b.drop_first();
        lemma_key_le_is_lexicographic(a1, b1);
        assert(is_prefix_of(a, b) <==> is_prefix_of(a1, b1)) by {
            if is_prefix_of(a1, b1) {
                assert forall|k: int| 0 <= k < a.len() implies a[k] == b[k] by {
                    if k > 0 {
                        assert(a[k] == a1[k - 1] && b[k] == b1[k - 1]);
                    }
                }
            }
            if is_prefix_of(a, b) {
                assert forall|k: int| 0 <= k < a1.len() implies a1[k] == b1[k] by {
                    assert(a[k + 1] == b[k + 1]);
                }
            }
        }
        if exists|i: int| first_difference_smaller(a, b, i) {
            let i = choose|i: int| first_difference_smaller(a, b, i);
            assert(i > 0);
            assert forall|k: int| 0 <= k < i - 1 implies a1[k] == b1[k] by {
                assert(a[k + 1] == b[k + 1]);
            }
            assert(first_difference_smaller(a1, b1, i - 1));
        }
        if exists|i: int| first_difference_smaller(a1, b1, i) {
            let i = choose|i: int| first_difference_smaller(a1, b1, i);
            assert forall|k: int| 0 <= k < i + 1 implies a[k] == b[k] by {
                if k > 0 {
                    assert(a1[k - 1] == b1[k - 1]);
                }
            }
            assert(first_difference_smaller(a, b, i + 1));
        }
    }
}

/// Whether `a <= b` for two keys.
pub fn key_le_exec(a: &String, b: &String) -> (r: bool)
    ensures
        r == key_le(a@, b@),
{
    let n = a.as_str().unicode_len();
    let m = b.as_str().unicode_len();
    let mut i: usize = 0;
    assert(a@.subrange(0, n as int) =~= a@);
    assert(b@.subrange(0, m as int) =~= b@);
    while i < n && i < m && a.as_str().get_char(i) == b.as_str().get_char(i)
        invariant
            n == a@.len(),
            m == b@.len(),
            i <= n,
            i <= m,
            key_le(a@, b@) == key_le(a@.subrange(i as int, n as int), b@.subrange(i as int, m as int)),
        decreases n - i,
    {
        let ghost sa = a@.subrange(i as int, n as int);
        let ghost sb = b@.subrange(i as int, m as int);
        assert(sa.drop_first() =~= a@.subrange(i + 1, n as int));
        assert(sb.drop_first() =~= b@.subrange(i + 1, m as int));
        i = i + 1;
    }
    if i == n {
        true
    } else if i == m {
        false
    } else {
        let ca = a.as_str().get_char(i);
        let cb = b.as_str().get_char(i);
        assert(a@.subrange(i as int, n as int)[0] == ca);
        assert(b@.subrange(i as int, m as int)[0] == cb);
        ca < cb
    }
}

// ---------------------------------------------------------------------------
// Sorting
/// `e` placed after every member of `s` whose key is not greater than its key.
pub open spec fn insert_sorted(
    e: (Seq<char>, JsonView),
    s: Seq<(Seq<char>, JsonView)>,
) -> Seq<(Seq<char>, JsonView)>
    decreases s.len(),
{
    if s.len() == 0 {
        seq![e]
    } else if key_le(s[0].0, e.0) {
        seq![s[0]] + insert_sorted(e, s.drop_first())
    } else {
        seq![e] + s
    }
}

/// Members stably sorted by key (members with equal keys keep their order).
pub open spec fn sort_entries(s: Seq<(Seq<char>, JsonView)>) -> Seq<(Seq<char>, JsonView)>
    decreases s.len(),
{
    if s.len() == 0 {
        s
    } else {
        insert_sorted(s.last(), sort_entries(s.drop_last()))
    }
}

/// The value with the members of every object, at every depth, sorted by key.
pub open spec fn sorted_value(v: JsonView) -> JsonView
    decreases v,
{
    match v {
        JsonView::Array(xs) => JsonView::Array(sorted_items(xs)),
        JsonView::Object(es) => JsonView::Object(sort_entries(sorted_members(es))),
        _ => v,
    }
}

/// Every item with its members sorted.
pub open spec fn sorted_items(xs: Seq<JsonView>) -> Seq<JsonView>
    decreases xs,
{
    Seq::new(
        xs.len(),
        |i: int|
            if 0 <= i < xs.len() {
                sorted_value(xs[i])
            } else {
                JsonView::Null
            },
    )
}

/// Every member with the members of its value sorted (in their given order).
pub open spec fn sorted_members(es: Seq<(Seq<char>, JsonView)>) -> Seq<(Seq<char>, JsonView)>
    decreases es,
{
    Seq::new(
        es.len(),
        |i: int|
            if 0 <= i < es.len() {
                (es[i].0, sorted_value(es[i].1))
            } else {
                (Seq::empty(), JsonView::Null)
            },
    )
}

/// The first position in `s` whose key is greater than `k`.
pub open spec fn insertion_point(s: Seq<(Seq<char>, JsonView)>, k: Seq<char>) -> int
    decreases s.len(),
{
    if s.len() == 0 {
        0
    } else if key_le(s[0].0, k) {
        1 + insertion_point(s.drop_first(), k)
    } else {
        0
    }
}

proof fn lemma_insert_sorted_split(e: (Seq<char>, JsonView), s: Seq<(Seq<char>, JsonView)>)
    ensures
        0 <= insertion_point(s, e.0) <= s.len(),
        insert_sorted(e, s) == s.subrange(0, insertion_point(s, e.0)).push(e) + s.subrange(
            insertion_point(s, e.0),
            s.len() as int,
        ),
    decreases s.len(),
{
    if s.len() > 0 && key_le(s[0].0, e.0) {
        let t = s.drop_first();
        lemma_insert_sorted_split(e, t);
        let p = insertion_point(t, e.0);
        assert(s.subrange(0, p + 1) =~= seq![s[0]] + t.subrange(0, p));
        assert(s.subrange(p + 1, s.len() as int) =~= t.subrange(p, t.len() as int));
        assert(insert_sorted(e, s) =~= s.subrange(0, p + 1).push(e) + s.subrange(
            p + 1,
            s.len() as int,
        ));
    } else if s.len() > 0 {
        assert(s.subrange(0, 0).push(e) + s.subrange(0, s.len() as int) =~= seq![e] + s);
    } else {
        assert(s.subrange(0, 0).push(e) + s.subrange(0, 0) =~= seq![e]);
    }
}

proof fn lemma_insertion_point_at(s: Seq<(Seq<char>, JsonView)>, k: Seq<char>, i: int)
    requires
        0 <= i <= s.len(),
        forall|j: int| 0 <= j < i ==> key_le(#[trigger] s[j].0, k),
        i == s.len() || !key_le(s[i].0, k),
    ensures
        insertion_point(s, k) == i,
    decreases i,
{
    if i > 0 {
        let t = s.drop_first();
        assert forall|j: int| 0 <= j < i - 1 implies key_le(#[trigger] t[j].0, k) by {
            assert(t[j] == s[j + 1]);
        }
        lemma_insertion_point_at(t, k, i - 1);
    }
}

/// Where a member with key `k` goes among the already sorted `out`.
fn find_insertion_point(out: &Vec<(String, Json)>, k: &String) -> (p: usize)
    ensures
        p == insertion_point(entries_view(out@), k@),
        p <= out@.len(),
{
    let ghost es = entries_view(out@);
    let mut i: usize = 0;
    while i < out.len() && key_le_exec(&out[i].0, k)
        invariant
            es == entries_view(out@),
            i <= out@.len(),
            forall|j: int| 0 <= j < i ==> key_le(#[trigger] es[j].0, k@),
        decreases out@.len() - i,
    {
        i = i + 1;
    }
    proof {
        lemma_insertion_point_at(es, k@, i as int);
    }
    i
}

/// Copies a text (wraps `String::clone`).
fn copy_string(s: &String) -> (r: String)
    ensures
        r@ == s@,
{
    s.clone()
}

/// The value with the members of every object sorted by key, at every depth.
#[verifier::loop_isolation(false)]
pub fn sort_value(value: &Json) -> (sorted: Json)
    ensures
        sorted@ == sorted_value(value@),
    decreases value,
{
    match value {
        Json::Null => Json::Null,
        Json::Bool(b) => Json::Bool(*b),
        Json::Number(t) => Json::Number(copy_string(t)),
        Json::String(s) => Json::String(copy_string(s)),
        Json::Array(items) => {
            let ghost xs = items_view(items@);
            let mut out: Vec<Json> = Vec::new();
            let mut i: usize = 0;
            while i < items.len()
                invariant
                    xs == items_view(items@),
                    i <= items@.len(),
                    out@.len() == i,
                    forall|k: int| 0 <= k < i ==> (#[trigger] out@[k])@ == sorted_value(xs[k]),
                decreases items@.len() - i,
            {
                proof {
                    assert(decreases_to!(*value => *items));
                    vstd::std_specs::vec::axiom_vec_index_decreases(*items, i as int);
                }
                let s = sort_value(&items[i]);
                out.push(s);
                assert(xs[i as int] == items@[i as int]@);
                i = i + 1;
            }
            assert(items_view(out@) =~= sorted_items(xs));
            Json::Array(out)
        },
        Json::Object(entries) => {
            let ghost es = entries_view(entries@);
            let ghost mapped = sorted_members(es);
            let mut out: Vec<(String, Json)> = Vec::new();
            let mut i: usize = 0;
            while i < entries.len()
                invariant
                    es == entries_view(entries@),
                    mapped.len() == es.len(),
                    forall|k: int|
                        0 <= k < es.len() ==> #[trigger] mapped[k] == (
                            es[k].0,
                            sorted_value(es[k].1),
                        ),
                    i <= entries@.len(),
                    entries_view(out@) == sort_entries(mapped.subrange(0, i as int)),
                decreases entries@.len() - i,
            {
                proof {
                    assert(decreases_to!(*value => *entries));
                    vstd::std_specs::vec::axiom_vec_index_decreases(*entries, i as int);
                    assert(decreases_to!(entries@[i as int] => entries@[i as int].1));
                }
                let v = sort_value(&entries[i].1);
                let k = copy_string(&entries[i].0);
                let p = find_insertion_point(&out, &k);
                let ghost before = entries_view(out@);
                let ghost e = (k@, v@);
                assert(entries@[i as int].1@ == es[i as int].1);
                assert(e == mapped[i as int]);
                proof {
                    lemma_insert_sorted_split(e, before);
                }
                out.insert(p, (k, v));
                assert(entries_view(out@) =~= insert_sorted(e, before));
                assert(mapped.subrange(0, i + 1).drop_last() =~= mapped.subrange(0, i as int));
                i = i + 1;
            }
            assert(mapped.subrange(0, es.len() as int) =~= mapped);
            Json::Object(out)
        },
    }
}

// ---------------------------------------------------------------------------
// Laws of sorting
/// Keys in non-decreasing order.
pub open spec fn keys_sorted(s: Seq<(Seq<char>, JsonView)>) -> bool {
    forall|i: int, j: int| 0 <= i < j < s.len() ==> key_le(#[trigger] s[i].0, #[trigger] s[j].0)
}

proof fn lemma_insertion_point_bounds(s: Seq<(Seq<char>, JsonView)>, k: Seq<char>)
    ensures
        0 <= insertion_point(s, k) <= s.len(),
        forall|j: int| 0 <= j < insertion_point(s, k) ==> key_le(#[trigger] s[j].0, k),
        insertion_point(s, k) < s.len() ==> !key_le(s[insertion_point(s, k)].0, k),
    decreases s.len(),
{
    if s.len() > 0 && key_le(s[0].0, k) {
        let t = s.drop_first();
        lemma_insertion_point_bounds(t, k);
        assert forall|j: int| 0 <= j < insertion_point(s, k) implies key_le(#[trigger] s[j].0, k) by {
            if j > 0 {
                assert(s[j] == t[j - 1]);
            }
        }
    }
}

proof fn lemma_insert_sorted_keeps_order(e: (Seq<char>, JsonView), s: Seq<(Seq<char>, JsonView)>)
    requires
        keys_sorted(s),
    ensures
        keys_sorted(insert_sorted(e, s)),
        insert_sorted(e, s).to_multiset() == s.to_multiset().insert(e),
{
    broadcast use vstd::seq_lib::group_to_multiset_ensures;

    lemma_insert_sorted_split(e, s);
    lemma_insertion_point_bounds(s, e.0);
    let p = insertion_point(s, e.0);
    let r = insert_sorted(e, s);
    assert(r == s.insert(p, e));
    assert(r.len() == s.len() + 1);
    assert forall|i: int, j: int| 0 <= i < j < r.len() implies key_le(
        #[trigger] r[i].0,
        #[trigger] r[j].0,
    ) by {
        if j < p {
            assert(r[i] == s[i] && r[j] == s[j]);
        } else if j == p {
            assert(r[j] == e && r[i] == s[i]);
        } else if i > p {
            assert(r[i] == s[i - 1] && r[j] == s[j - 1]);
        } else if i == p {
            assert(r[i] == e && r[j] == s[j - 1]);
            lemma_key_le_total(s[p].0, e.0);
            if j - 1 > p {
                lemma_key_le_transitive(e.0, s[p].0, s[j - 1].0);
            }
        } else {
            assert(r[i] == s[i] && r[j] == s[j - 1]);
        }
    }
}

/// Sorting members orders them by key and neither adds nor drops a member.
pub proof fn lemma_sort_entries_sorted_permutation(s: Seq<(Seq<char>, JsonView)>)
    ensures
        keys_sorted(sort_entries(s)),
        sort_entries(s).to_multiset() == s.to_multiset(),
    decreases s.len(),
{
    if s.len() == 0 {
    } else {
        let init = s.drop_last();
        lemma_sort_entries_sorted_permutation(init);
        lemma_insert_sorted_keeps_order(s.last(), sort_entries(init));
        assert(s =~= init.push(s.last()));
        vstd::seq_lib::to_multiset_build(init, s.last());
    }
}

/// Sorting members that are already in key order leaves them as they are.
proof fn lemma_sort_entries_of_sorted(s: Seq<(Seq<char>, JsonView)>)
    requires
        keys_sorted(s),
    ensures
        sort_entries(s) == s,
    decreases s.len(),
{
    if s.len() > 0 {
        let init = s.drop_last();
        let e = s.last();
        assert forall|i: int, j: int| 0 <= i < j < init.len() implies key_le(
            #[trigger] init[i].0,
            #[trigger] init[j].0,
        ) by {
            assert(init[i] == s[i] && init[j] == s[j]);
        }
        lemma_sort_entries_of_sorted(init);
        assert forall|j: int| 0 <= j < init.len() implies key_le(#[trigger] init[j].0, e.0) by {
            assert(init[j] == s[j]);
        }
        lemma_insertion_point_at(init, e.0, init.len() as int);
        lemma_insert_sorted_split(e, init);
        assert(init.subrange(0, init.len() as int) =~= init);
        assert(init.subrange(init.len() as int, init.len() as int) =~= Seq::<(Seq<char>, JsonView)>::empty());
        assert(s =~= init.push(e));
    }
}

/// A member of the sorted members of `es` is one of `es`'s members, its
/// value sorted.
proof fn lemma_sorted_member_origin(es: Seq<(Seq<char>, JsonView)>, j: int) -> (k: int)
    requires
        0 <= j < sort_entries(sorted_members(es)).len(),
    ensures
        0 <= k < es.len(),
        sort_entries(sorted_members(es))[j] == (es[k].0, sorted_value(es[k].1)),
{
    broadcast use vstd::seq_lib::group_to_multiset_ensures;

    let ms = sorted_members(es);
    let fs = sort_entries(ms);
    lemma_sort_entries_sorted_permutation(ms);
    assert(fs.contains(fs[j]));
    assert(fs.to_multiset().count(fs[j]) > 0);
    assert(ms.to_multiset().count(fs[j]) > 0);
    assert(ms.contains(fs[j]));
    let k = choose|k: int| 0 <= k < ms.len() && ms[k] == fs[j];
    k
}

/// Sorting twice sorts no further.
pub proof fn lemma_sorted_value_idempotent(v: JsonView)
    ensures
        sorted_value(sorted_value(v)) == sorted_value(v),
    decreases v,
{
    match v {
        JsonView::Array(xs) => {
            let ys = sorted_items(xs);
            assert forall|i: int| 0 <= i < ys.len() implies #[trigger] sorted_items(ys)[i] == ys[i] by {
                lemma_sorted_value_idempotent(xs[i]);
            }
            assert(sorted_items(ys) =~= ys);
        },
        JsonView::Object(es) => {
            let ms = sorted_members(es);
            let fs = sort_entries(ms);
            lemma_sort_entries_sorted_permutation(ms);
            assert forall|j: int| 0 <= j < fs.len() implies #[trigger] sorted_members(fs)[j] == fs[j] by {
                let k = lemma_sorted_member_origin(es, j);
                lemma_sorted_value_idempotent(es[k].1);
            }
            assert(sorted_members(fs) =~= fs);
            lemma_sort_entries_of_sorted(fs);
        },
        _ => {},
    }
}

/// Sorting only reorders: scalars stay as they are, an array keeps its
/// items in order (each sorted in turn), and an object keeps exactly its
/// members (each value sorted in turn), now in key order.
pub proof fn lemma_sorted_value_reorders(v: JsonView)
    ensures
        match v {
            JsonView::Array(xs) => sorted_value(v) matches JsonView::Array(ys) && ys.len() == xs.len()
                && forall|i: int| 0 <= i < xs.len() ==> #[trigger] ys[i] == sorted_value(xs[i]),
            JsonView::Object(es) => sorted_value(v) matches JsonView::Object(fs) && keys_sorted(fs)
                && fs.to_multiset() == sorted_members(es).to_multiset() && sorted_members(es).len()
                == es.len() && forall|i: int|
                0 <= i < es.len() ==> #[trigger] sorted_members(es)[i] == (
                    es[i].0,
                    sorted_value(es[i].1),
                ),
            _ => sorted_value(v) == v,
        },
{
    if let JsonView::Object(es) = v {
        lemma_sort_entries_sorted_permutation(sorted_members(es));
    }
}

/// Whether two values are the same JSON value. Sorting only reorders
/// object members (`lemma_sorted_value_reorders`), so two values are the
/// same when sorting makes them equal: equal scalars, arrays with the same
/// items in order, objects with the same members in any order.
pub open spec fn same_json(a: JsonView, b: JsonView) -> bool {
    sorted_value(a) == sorted_value(b)
}

/// Sorting keeps the value.
pub proof fn lemma_sorted_value_same_json(v: JsonView)
    ensures
        same_json(v, sorted_value(v)),
{
    lemma_sorted_value_idempotent(v);
}

// ---------------------------------------------------------------------------
// Writing JSON text
/// A lower-case hexadecimal digit.
pub open spec fn hex_digit(n: u32) -> char {
    if n == 0 {
        '0'
    } else if n == 1 {
        '1'
    } else if n == 2 {
        '2'
    } else if n == 3 {
        '3'
    } else if n == 4 {
        '4'
    } else if n == 5 {
        '5'
    } else if n == 6 {
        '6'
    } else if n == 7 {
        '7'
    } else if n == 8 {
        '8'
    } else if n == 9 {
        '9'
    } else if n == 10 {
        'a'
    } else if n == 11 {
        'b'
    } else if n == 12 {
        'c'
    } else if n == 13 {
        'd'
    } else if n == 14 {
        'e'
    } else {
        'f'
    }
}

/// How one character is written inside a JSON string literal: the quote,
/// the backslash and the control characters U+0000..U+001F are escaped
/// (with the short forms `\b`, `\f`, `\n`, `\r`, `\t` where there is
/// one, `\u00XX` otherwise); every other character stands as it is.
pub open spec fn json_escape(c: char) -> Seq<char> {
    if c == '"' {
        seq!['\\', '"']
    } else if c == '\\' {
        seq!['\\', '\\']
    } else if c == '\x08' {
        seq!['\\', 'b']
    } else if c == '\x0c' {
        seq!['\\', 'f']
    } else if c == '\n' {
        seq!['\\', 'n']
    } else if c == '\r' {
        seq!['\\', 'r']
    } else if c == '\t' {
        seq!['\\', 't']
    } else if (c as u32) < 0x20 {
        seq!['\\', 'u', '0', '0', hex_digit((c as u32) / 16), hex_digit((c as u32) % 16)]
    } else {
        seq![c]
    }
}

/// The characters of a text, each escaped.
pub open spec fn json_escaped(s: Seq<char>) -> Seq<char>
    decreases s.len(),
{
    if s.len() == 0 {
        Seq::empty()
    } else {
        json_escaped(s.drop_last()) + json_escape(s.last())
    }
}

/// The JSON string literal of a text: quoted, with each character escaped.
#[verifier::opaque]
pub open spec fn spec_json_string_literal(s: Seq<char>) -> Seq<char> {
    seq!['"'] + json_escaped(s) + seq!['"']
}

/// Writes a text as a JSON string literal by calling `serde_json::to_string`
/// on it. The contract restates serde_json's string escaping (its `ESCAPE`
/// table and `write_char_escape`); serializing a `str` cannot fail.
#[verifier::external_body]
fn json_string_literal(s: &str) -> (lit: String)
    ensures
        lit@ == spec_json_string_literal(s@),
{
    match serde_json::to_string(s) {
        Ok(lit) => lit,
        Err(_) => String::new(),
    }
}

/// A JSON string literal is written on one line.
proof fn lemma_json_string_literal_single_line(s: Seq<char>)
    ensures
        no_line_break(spec_json_string_literal(s)),
{
    reveal(spec_json_string_literal);
    lemma_json_escaped_single_line(s);
    lemma_no_line_break_concat(seq!['"'], json_escaped(s));
    lemma_no_line_break_push(seq!['"'] + json_escaped(s), '"');
    assert(seq!['"'] + json_escaped(s) + seq!['"'] =~= (seq!['"'] + json_escaped(s)).push('"'));
}

proof fn lemma_json_escaped_single_line(s: Seq<char>)
    ensures
        no_line_break(json_escaped(s)),
    decreases s.len(),
{
    if s.len() > 0 {
        lemma_json_escaped_single_line(s.drop_last());
        let c = s.last();
        let e = json_escape(c);
        assert(no_line_break(e)) by {
            let n = c as u32;
            if c != '"' && c != '\\' && c != '\x08' && c != '\x0c' && c != '\n' && c != '\r'
                && c != '\t' && n < 0x20 {
                assert(e =~= seq!['\\', 'u', '0', '0', hex_digit(n / 16), hex_digit(n % 16)]);
                assert(e[4] != '\n' && e[5] != '\n');
            }
        }
        lemma_no_line_break_concat(json_escaped(s.drop_last()), e);
    }
}

/// The parts joined with `sep` between them.
pub open spec fn join(parts: Seq<Seq<char>>, sep: Seq<char>) -> Seq<char>
    decreases parts.len(),
{
    if parts.len() == 0 {
        Seq::empty()
    } else if parts.len() == 1 {
        parts[0]
    } else {
        join(parts.drop_last(), sep) + sep + parts.last()
    }
}

/// The text of a literal value (null, a boolean, a number or a string).
pub open spec fn scalar_text(v: JsonView) -> Seq<char> {
    match v {
        JsonView::Null => seq!['n', 'u', 'l', 'l'],
        JsonView::Bool(b) => if b {
            seq!['t', 'r', 'u', 'e']
        } else {
            seq!['f', 'a', 'l', 's', 'e']
        },
        JsonView::Number(t) => t,
        JsonView::String(s) => spec_json_string_literal(s),
        _ => Seq::empty(),
    }
}

/// The value written on one line without spaces, as `Value::to_string` does.
pub open spec fn compact_text(v: JsonView) -> Seq<char>
    decreases v,
{
    match v {
        JsonView::Array(xs) => seq!['['] + join(compact_items(xs), seq![',']) + seq![']'],
        JsonView::Object(es) => seq!['{'] + join(compact_members(es), seq![',']) + seq!['}'],
        _ => scalar_text(v),
    }
}

/// The compact text of every item.
pub open spec fn compact_items(xs: Seq<JsonView>) -> Seq<Seq<char>>
    decreases xs,
{
    Seq::new(
        xs.len(),
        |i: int|
            if 0 <= i < xs.len() {
                compact_text(xs[i])
            } else {
                Seq::empty()
            },
    )
}

/// The compact text of every member: key, colon, value.
pub open spec fn compact_members(es: Seq<(Seq<char>, JsonView)>) -> Seq<Seq<char>>
    decreases es,
{
    Seq::new(
        es.len(),
        |i: int|
            if 0 <= i < es.len() {
                spec_json_string_literal(es[i].0) + seq![':'] + compact_text(es[i].1)
            } else {
                Seq::empty()
            },
    )
}

/// Two spaces more than `indent`.
pub open spec fn deeper(indent: Seq<char>) -> Seq<char> {
    indent + seq![' ', ' ']
}

/// The value pretty-printed at indentation `indent`, as
/// `serde_json::to_string_pretty` does: one member or item per line, each
/// nesting level two spaces deeper, empty arrays and objects as `[]` and `{}`.
pub open spec fn pretty_text(v: JsonView, indent: Seq<char>) -> Seq<char>
    decreases v,
{
    match v {
        JsonView::Array(xs) => if xs.len() == 0 {
            seq!['[', ']']
        } else {
            seq!['['] + join(pretty_items(xs, indent), seq![',']) + seq!['\n'] + indent + seq![']']
        },
        JsonView::Object(es) => if es.len() == 0 {
            seq!['{', '}']
        } else {
            seq!['{'] + join(pretty_members(es, indent), seq![',']) + seq!['\n'] + indent + seq!['}']
        },
        _ => scalar_text(v),
    }
}

/// Every item on a line of its own, one level deeper than `indent`.
pub open spec fn pretty_items(xs: Seq<JsonView>, indent: Seq<char>) -> Seq<Seq<char>>
    decreases xs,
{
    Seq::new(
        xs.len(),
        |i: int|
            if 0 <= i < xs.len() {
                seq!['\n'] + deeper(indent) + pretty_text(xs[i], deeper(indent))
            } else {
                Seq::empty()
            },
    )
}

/// Every member on a line of its own, one level deeper than `indent`.
pub open spec fn pretty_members(es: Seq<(Seq<char>, JsonView)>, indent: Seq<char>) -> Seq<Seq<char>>
    decreases es,
{
    Seq::new(
        es.len(),
        |i: int|
            if 0 <= i < es.len() {
                seq!['\n'] + deeper(indent) + spec_json_string_literal(es[i].0) + seq![':', ' ']
                    + pretty_text(es[i].1, deeper(indent))
            } else {
                Seq::empty()
            },
    )
}

proof fn lemma_join_step(parts: Seq<Seq<char>>, sep: Seq<char>, i: int)
    requires
        0 <= i < parts.len(),
    ensures
        join(parts.subrange(0, i + 1), sep) == if i == 0 {
            parts[0]
        } else {
            join(parts.subrange(0, i), sep) + sep + parts[i]
        },
{
    let p = parts.subrange(0, i + 1);
    assert(p.drop_last() =~= parts.subrange(0, i));
    assert(p.last() == parts[i]);
}

/// Appends the characters of a text.
fn append_text(out: &mut String, s: &String)
    ensures
        final(out)@ == old(out)@ + s@,
{
    out.append(s.as_str());
}

/// Whether a text holds no line break.
pub open spec fn no_line_break(s: Seq<char>) -> bool {
    forall|i: int| 0 <= i < s.len() ==> s[i] != '\n'
}

/// Whether every number, at every depth, is written without a line break.
pub open spec fn numbers_single_line(v: JsonView) -> bool
    decreases v,
{
    match v {
        JsonView::Number(t) => no_line_break(t),
        JsonView::Array(xs) => forall|i: int|
            0 <= i < xs.len() ==> numbers_single_line(#[trigger] xs[i]),
        JsonView::Object(es) => forall|i: int|
            0 <= i < es.len() ==> numbers_single_line(#[trigger] es[i].1),
        _ => true,
    }
}

/// What holds of an array's numbers holds of each item's.
proof fn lemma_item_numbers_single_line(xs: Seq<JsonView>, i: int)
    requires
        numbers_single_line(JsonView::Array(xs)),
        0 <= i < xs.len(),
    ensures
        numbers_single_line(xs[i]),
{
    let v = JsonView::Array(xs);
    assert(decreases_to!(v => v->Array_0));
    assert(decreases_to!(v->Array_0 => v->Array_0[i]));
}

/// What holds of an object's numbers holds of each member's value.
proof fn lemma_member_numbers_single_line(es: Seq<(Seq<char>, JsonView)>, i: int)
    requires
        numbers_single_line(JsonView::Object(es)),
        0 <= i < es.len(),
    ensures
        numbers_single_line(es[i].1),
{
    let v = JsonView::Object(es);
    assert(decreases_to!(v => v->Object_0));
    assert(decreases_to!(v->Object_0 => v->Object_0[i]));
    assert(decreases_to!(v->Object_0[i] => v->Object_0[i].1));
}

proof fn lemma_no_line_break_concat(a: Seq<char>, b: Seq<char>)
    requires
        no_line_break(a),
        no_line_break(b),
    ensures
        no_line_break(a + b),
{
    assert forall|i: int| 0 <= i < (a + b).len() implies (a + b)[i] != '\n' by {
        if i >= a.len() {
            assert((a + b)[i] == b[i - a.len()]);
        }
    }
}

proof fn lemma_no_line_break_push(a: Seq<char>, c: char)
    requires
        no_line_break(a),
        c != '\n',
    ensures
        no_line_break(a.push(c)),
{
    assert forall|i: int| 0 <= i < a.push(c).len() implies a.push(c)[i] != '\n' by {
        if i < a.len() {
            assert(a.push(c)[i] == a[i]);
        }
    }
}

/// Appends the text of a literal value.
fn write_scalar(v: &Json, out: &mut String)
    requires
        !(v is Array),
        !(v is Object),
    ensures
        final(out)@ == old(out)@ + scalar_text(v@),
        no_line_break(old(out)@) && numbers_single_line(v@) ==> no_line_break(final(out)@),
{
    match v {
        Json::Null => {
            push_char(out, 'n');
            push_char(out, 'u');
            push_char(out, 'l');
            push_char(out, 'l');
        },
        Json::Bool(b) => {
            if *b {
                push_char(out, 't');
                push_char(out, 'r');
                push_char(out, 'u');
                push_char(out, 'e');
            } else {
                push_char(out, 'f');
                push_char(out, 'a');
                push_char(out, 'l');
                push_char(out, 's');
                push_char(out, 'e');
            }
        },
        Json::Number(t) => append_text(out, t),
        Json::String(s) => {
            let lit = json_string_literal(s.as_str());
            proof {
                lemma_json_string_literal_single_line(s@);
            }
            append_text(out, &lit);
        },
        _ => {},
    }
    assert(final(out)@ =~= old(out)@ + scalar_text(v@));
    proof {
        if no_line_break(old(out)@) && numbers_single_line(v@) {
            let t = scalar_text(v@);
            assert(no_line_break(t)) by {
                match v@ {
                    JsonView::Null => {
                        assert(t =~= seq!['n', 'u', 'l', 'l']);
                    },
                    JsonView::Bool(b) => {
                        if b {
                            assert(t =~= seq!['t', 'r', 'u', 'e']);
                        } else {
                            assert(t =~= seq!['f', 'a', 'l', 's', 'e']);
                        }
                    },
                    _ => {},
                }
            }
            lemma_no_line_break_concat(old(out)@, t);
        }
    }
}

/// Appends the compact text of a value.
fn write_compact(v: &Json, out: &mut String)
    ensures
        final(out)@ == old(out)@ + compact_text(v@),
        no_line_break(old(out)@) && numbers_single_line(v@) ==> no_line_break(final(out)@),
    decreases v, 1nat,
{
    match v {
        Json::Array(items) => {
            proof {
                assert(decreases_to!(*v => *items));
            }
            write_compact_items(items, out);
        },
        Json::Object(entries) => {
            proof {
                assert(decreases_to!(*v => *entries));
            }
            write_compact_members(entries, out);
        },
        _ => {
            write_scalar(v, out);
        },
    }
}

/// Appends an array of `items` in compact form.
#[verifier::loop_isolation(false)]
fn write_compact_items(items: &Vec<Json>, out: &mut String)
    ensures
        final(out)@ == old(out)@ + compact_text(JsonView::Array(items_view(items@))),
        no_line_break(old(out)@) && numbers_single_line(JsonView::Array(items_view(items@)))
            ==> no_line_break(final(out)@),
    decreases items, 0nat,
{
    let ghost single = no_line_break(old(out)@) && numbers_single_line(JsonView::Array(items_view(items@)));
    let ghost xs = items_view(items@);
    let ghost parts = compact_items(xs);
    let ghost start = out@;
    push_char(out, '[');
    proof {
        if single {
            lemma_no_line_break_push(start, '[');
        }
    }
    let mut i: usize = 0;
    while i < items.len()
        invariant
            i <= items@.len(),
            out@ == start + seq!['['] + join(parts.subrange(0, i as int), seq![',']),
            single ==> no_line_break(out@),
        decreases items@.len() - i,
    {
        proof {
            vstd::std_specs::vec::axiom_vec_index_decreases(*items, i as int);
            lemma_join_step(parts, seq![','], i as int);
        }
        let ghost before = out@;
        if i > 0 {
            push_char(out, ',');
            proof {
                if single {
                    lemma_no_line_break_push(before, ',');
                }
            }
        }
        proof {
            if single {
                lemma_item_numbers_single_line(xs, i as int);
                assert(xs[i as int] == items@[i as int]@);
            }
        }
        write_compact(&items[i], out);
        assert(parts[i as int] == compact_text(items@[i as int]@));
        i = i + 1;
    }
    assert(parts.subrange(0, xs.len() as int) =~= parts);
    let ghost before_end = out@;
    push_char(out, ']');
    proof {
        if single {
            lemma_no_line_break_push(before_end, ']');
        }
    }
    assert(final(out)@ =~= old(out)@ + compact_text(JsonView::Array(items_view(items@))));
}

/// Appends an object of `entries` in compact form.
#[verifier::loop_isolation(false)]
fn write_compact_members(entries: &Vec<(String, Json)>, out: &mut String)
    ensures
        final(out)@ == old(out)@ + compact_text(JsonView::Object(entries_view(entries@))),
        no_line_break(old(out)@) && numbers_single_line(JsonView::Object(entries_view(entries@)))
            ==> no_line_break(final(out)@),
    decreases entries, 0nat,
{
    let ghost single = no_line_break(old(out)@) && numbers_single_line(JsonView::Object(entries_view(entries@)));
    let ghost es = entries_view(entries@);
    let ghost parts = compact_members(es);
    let ghost start = out@;
    push_char(out, '{');
    proof {
        if single {
            lemma_no_line_break_push(start, '{');
        }
    }
    let mut i: usize = 0;
    while i < entries.len()
        invariant
            i <= entries@.len(),
            out@ == start + seq!['{'] + join(parts.subrange(0, i as int), seq![',']),
            single ==> no_line_break(out@),
        decreases entries@.len() - i,
    {
        proof {
            vstd::std_specs::vec::axiom_vec_index_decreases(*entries, i as int);
            assert(decreases_to!(entries@[i as int] => entries@[i as int].1));
            lemma_join_step(parts, seq![','], i as int);
        }
        let ghost before = out@;
        if i > 0 {
            push_char(out, ',');
            proof {
                if single {
                    lemma_no_line_break_push(before, ',');
                }
            }
        }
        let key = json_string_literal(entries[i].0.as_str());
        let ghost before_key = out@;
        append_text(out, &key);
        let ghost after_key = out@;
        push_char(out, ':');
        proof {
            if single {
                lemma_json_string_literal_single_line(entries@[i as int].0@);
                lemma_no_line_break_concat(before_key, key@);
                lemma_no_line_break_push(after_key, ':');
                lemma_member_numbers_single_line(es, i as int);
                assert(es[i as int].1 == entries@[i as int].1@);
            }
        }
        write_compact(&entries[i].1, out);
        assert(es[i as int] == (entries@[i as int].0@, entries@[i as int].1@));
        i = i + 1;
    }
    assert(parts.subrange(0, es.len() as int) =~= parts);
    let ghost before_end = out@;
    push_char(out, '}');
    proof {
        if single {
            lemma_no_line_break_push(before_end, '}');
        }
    }
    assert(final(out)@ =~= old(out)@ + compact_text(JsonView::Object(entries_view(entries@))));
}

/// The compact text of a value.
pub fn to_compact_string(v: &Json) -> (text: String)
    ensures
        text@ == compact_text(v@),
        numbers_single_line(v@) ==> no_line_break(text@),
{
    let mut out = String::new();
    write_compact(v, &mut out);
    assert(out@ =~= compact_text(v@));
    out
}

/// Appends the pretty text of a value at indentation `indent`.
fn write_pretty(v: &Json, indent: &String, out: &mut String)
    ensures
        final(out)@ == old(out)@ + pretty_text(v@, indent@),
    decreases v, 1nat,
{
    match v {
        Json::Array(items) => {
            proof {
                assert(decreases_to!(*v => *items));
            }
            write_pretty_items(items, indent, out);
        },
        Json::Object(entries) => {
            proof {
                assert(decreases_to!(*v => *entries));
            }
            write_pretty_members(entries, indent, out);
        },
        _ => {
            write_scalar(v, out);
        },
    }
}

/// Appends an array of `items`, pretty-printed at indentation `indent`.
#[verifier::loop_isolation(false)]
fn write_pretty_items(items: &Vec<Json>, indent: &String, out: &mut String)
    ensures
        final(out)@ == old(out)@ + pretty_text(JsonView::Array(items_view(items@)), indent@),
    decreases items, 0nat,
{
    let ghost xs = items_view(items@);
    if items.len() == 0 {
        push_char(out, '[');
        push_char(out, ']');
        assert(final(out)@ =~= old(out)@ + pretty_text(JsonView::Array(xs), indent@));
        return ;
    }
    let mut inner = copy_string(indent);
    push_char(&mut inner, ' ');
    push_char(&mut inner, ' ');
    assert(inner@ =~= deeper(indent@));
    let ghost parts = pretty_items(xs, indent@);
    let ghost start = out@;
    push_char(out, '[');
    let mut i: usize = 0;
    while i < items.len()
        invariant
            i <= items@.len(),
            out@ == start + seq!['['] + join(parts.subrange(0, i as int), seq![',']),
        decreases items@.len() - i,
    {
        proof {
            vstd::std_specs::vec::axiom_vec_index_decreases(*items, i as int);
            lemma_join_step(parts, seq![','], i as int);
        }
        if i > 0 {
            push_char(out, ',');
        }
        push_char(out, '\n');
        append_text(out, &inner);
        write_pretty(&items[i], &inner, out);
        assert(parts[i as int] == seq!['\n'] + deeper(indent@) + pretty_text(
            items@[i as int]@,
            deeper(indent@),
        ));
        i = i + 1;
    }
    assert(parts.subrange(0, xs.len() as int) =~= parts);
    push_char(out, '\n');
    append_text(out, indent);
    push_char(out, ']');
    assert(final(out)@ =~= old(out)@ + pretty_text(JsonView::Array(xs), indent@));
}

/// Appends an object of `entries`, pretty-printed at indentation `indent`.
#[verifier::loop_isolation(false)]
fn write_pretty_members(entries: &Vec<(String, Json)>, indent: &String, out: &mut String)
    ensures
        final(out)@ == old(out)@ + pretty_text(JsonView::Object(entries_view(entries@)), indent@),
    decreases entries, 0nat,
{
    let ghost es = entries_view(entries@);
    if entries.len() == 0 {
        push_char(out, '{');
        push_char(out, '}');
        assert(final(out)@ =~= old(out)@ + pretty_text(JsonView::Object(es), indent@));
        return ;
    }
    let mut inner = copy_string(indent);
    push_char(&mut inner, ' ');
    push_char(&mut inner, ' ');
    assert(inner@ =~= deeper(indent@));
    let ghost parts = pretty_members(es, indent@);
    let ghost start = out@;
    push_char(out, '{');
    let mut i: usize = 0;
    while i < entries.len()
        invariant
            i <= entries@.len(),
            out@ == start + seq!['{'] + join(parts.subrange(0, i as int), seq![',']),
        decreases entries@.len() - i,
    {
        proof {
            vstd::std_specs::vec::axiom_vec_index_decreases(*entries, i as int);
            assert(decreases_to!(entries@[i as int] => entries@[i as int].1));
            lemma_join_step(parts, seq![','], i as int);
        }
        if i > 0 {
            push_char(out, ',');
        }
        push_char(out, '\n');
        append_text(out, &inner);
        let key = json_string_literal(entries[i].0.as_str());
        append_text(out, &key);
        push_char(out, ':');
        push_char(out, ' ');
        write_pretty(&entries[i].1, &inner, out);
        assert(es[i as int] == (entries@[i as int].0@, entries@[i as int].1@));
        i = i + 1;
    }
    assert(parts.subrange(0, es.len() as int) =~= parts);
    push_char(out, '\n');
    append_text(out, indent);
    push_char(out, '}');
    assert(final(out)@ =~= old(out)@ + pretty_text(JsonView::Object(es), indent@));
}

/// The pretty-printed text of a value.
pub fn to_pretty_string(v: &Json) -> (text: String)
    ensures
        text@ == pretty_text(v@, Seq::empty()),
{
    let mut out = String::new();
    let indent = String::new();
    write_pretty(v, &indent, &mut out);
    assert(out@ =~= pretty_text(v@, Seq::empty()));
    out
}

// ---------------------------------------------------------------------------
// Laws of the printed form
/// Whether the members of every object, at every depth, are in key order.
pub open spec fn all_keys_sorted(v: JsonView) -> bool
    decreases v,
{
    match v {
        JsonView::Array(xs) => forall|i: int| 0 <= i < xs.len() ==> all_keys_sorted(#[trigger] xs[i]),
        JsonView::Object(es) => keys_sorted(es) && forall|i: int|
            0 <= i < es.len() ==> all_keys_sorted(#[trigger] es[i].1),
        _ => true,
    }
}

/// Sorting puts the members of every object, at every depth, in key order,
/// and keeps the members of each object (up to the sorting of their values).
pub proof fn lemma_sorted_value_is_sorted(v: JsonView)
    ensures
        all_keys_sorted(sorted_value(v)),
        v matches JsonView::Object(es) ==> (sorted_value(v) matches JsonView::Object(ss)
            && ss.to_multiset() == sorted_members(es).to_multiset()),
    decreases v,
{
    match v {
        JsonView::Array(xs) => {
            let ys = sorted_items(xs);
            assert forall|i: int| 0 <= i < ys.len() implies all_keys_sorted(#[trigger] ys[i]) by {
                lemma_sorted_value_is_sorted(xs[i]);
            }
        },
        JsonView::Object(es) => {
            let ms = sorted_members(es);
            let ss = sort_entries(ms);
            lemma_sort_entries_sorted_permutation(ms);
            assert forall|i: int| 0 <= i < ss.len() implies all_keys_sorted(#[trigger] ss[i].1) by {
                broadcast use vstd::seq_lib::group_to_multiset_ensures;

                assert(ss.contains(ss[i]));
                assert(ss.to_multiset().count(ss[i]) > 0);
                assert(ms.to_multiset().count(ss[i]) > 0);
                assert(ms.contains(ss[i]));
                let k = choose|k: int| 0 <= k < ms.len() && ms[k] == ss[i];
                lemma_sorted_value_is_sorted(es[k].1);
            }
        },
        _ => {},
    }
}

/// Sorting keeps every number as it was written.
pub proof fn lemma_sorted_value_keeps_numbers(v: JsonView)
    requires
        numbers_single_line(v),
    ensures
        numbers_single_line(sorted_value(v)),
    decreases v,
{
    match v {
        JsonView::Array(xs) => {
            let ys = sorted_items(xs);
            assert forall|i: int| 0 <= i < ys.len() implies numbers_single_line(#[trigger] ys[i]) by {
                lemma_sorted_value_keeps_numbers(xs[i]);
            }
        },
        JsonView::Object(es) => {
            let ms = sorted_members(es);
            let ss = sort_entries(ms);
            lemma_sort_entries_sorted_permutation(ms);
            assert forall|i: int| 0 <= i < ss.len() implies numbers_single_line(#[trigger] ss[i].1) by {
                broadcast use vstd::seq_lib::group_to_multiset_ensures;

                assert(ss.contains(ss[i]));
                assert(ss.to_multiset().count(ss[i]) > 0);
                assert(ms.to_multiset().count(ss[i]) > 0);
                assert(ms.contains(ss[i]));
                let k = choose|k: int| 0 <= k < ms.len() && ms[k] == ss[i];
                lemma_sorted_value_keeps_numbers(es[k].1);
            }
        },
        _ => {},
    }
}


// ---------------------------------------------------------------------------
// Laws of output
proof fn lemma_join_single_line(parts: Seq<Seq<char>>, sep: Seq<char>)
    requires
        forall|i: int| 0 <= i < parts.len() ==> no_line_break(#[trigger] parts[i]),
        no_line_break(sep),
    ensures
        no_line_break(join(parts, sep)),
    decreases parts.len(),
{
    if parts.len() > 1 {
        let init = parts.drop_last();
        assert forall|i: int| 0 <= i < init.len() implies no_line_break(#[trigger] init[i]) by {
            assert(init[i] == parts[i]);
        }
        lemma_join_single_line(init, sep);
        assert(no_line_break(parts[parts.len() - 1]));
        lemma_no_line_break_concat(join(init, sep), sep);
        lemma_no_line_break_concat(join(init, sep) + sep, parts.last());
    } else if parts.len() == 1 {
        assert(no_line_break(parts[0]));
    }
}

/// A value whose numbers are single-line texts is written on one line.
proof fn lemma_compact_text_single_line(v: JsonView)
    requires
        numbers_single_line(v),
    ensures
        no_line_break(compact_text(v)),
    decreases v,
{
    let comma = seq![','];
    assert(no_line_break(comma)) by {
        assert(comma[0] == ',');
    }
    match v {
        JsonView::Array(xs) => {
            let parts = compact_items(xs);
            assert forall|i: int| 0 <= i < parts.len() implies no_line_break(#[trigger] parts[i]) by {
                lemma_item_numbers_single_line(xs, i);
                lemma_compact_text_single_line(xs[i]);
            }
            lemma_join_single_line(parts, comma);
            lemma_no_line_break_push(seq![], '[');
            assert(seq!['['] =~= Seq::<char>::empty().push('['));
            lemma_no_line_break_concat(seq!['['], join(parts, comma));
            lemma_no_line_break_push(seq!['['] + join(parts, comma), ']');
            assert(compact_text(v) =~= (seq!['['] + join(parts, comma)).push(']'));
        },
        JsonView::Object(es) => {
            let parts = compact_members(es);
            assert forall|i: int| 0 <= i < parts.len() implies no_line_break(#[trigger] parts[i]) by {
                lemma_member_numbers_single_line(es, i);
                lemma_compact_text_single_line(es[i].1);
                lemma_json_string_literal_single_line(es[i].0);
                let lit = spec_json_string_literal(es[i].0);
                lemma_no_line_break_push(lit, ':');
                assert(lit + seq![':'] =~= lit.push(':'));
                lemma_no_line_break_concat(lit + seq![':'], compact_text(es[i].1));
            }
            lemma_join_single_line(parts, comma);
            lemma_no_line_break_push(seq![], '{');
            assert(seq!['{'] =~= Seq::<char>::empty().push('{'));
            lemma_no_line_break_concat(seq!['{'], join(parts, comma));
            lemma_no_line_break_push(seq!['{'] + join(parts, comma), '}');
            assert(compact_text(v) =~= (seq!['{'] + join(parts, comma)).push('}'));
        },
        JsonView::Null => {
            assert(compact_text(v) =~= seq!['n', 'u', 'l', 'l']);
        },
        JsonView::Bool(b) => {
            if b {
                assert(compact_text(v) =~= seq!['t', 'r', 'u', 'e']);
            } else {
                assert(compact_text(v) =~= seq!['f', 'a', 'l', 's', 'e']);
            }
        },
        JsonView::Number(t) => {},
        JsonView::String(t) => {
            lemma_json_string_literal_single_line(t);
        },
    }
}

/// Numbers written with the characters of a JSON number are single-line.
proof fn lemma_numerals_single_line(v: JsonView)
    requires
        numerals(v),
    ensures
        numbers_single_line(v),
    decreases v,
{
    match v {
        JsonView::Array(xs) => {
            assert forall|i: int| 0 <= i < xs.len() implies numbers_single_line(#[trigger] xs[i]) by {
                assert(decreases_to!(v => v->Array_0));
                assert(decreases_to!(v->Array_0 => v->Array_0[i]));
                lemma_numerals_single_line(xs[i]);
            }
        },
        JsonView::Object(es) => {
            assert forall|i: int| 0 <= i < es.len() implies numbers_single_line(#[trigger] es[i].1) by {
                assert(decreases_to!(v => v->Object_0));
                assert(decreases_to!(v->Object_0 => v->Object_0[i]));
                assert(decreases_to!(v->Object_0[i] => v->Object_0[i].1));
                lemma_numerals_single_line(es[i].1);
            }
        },
        JsonView::Number(t) => {
            assert forall|i: int| 0 <= i < t.len() implies t[i] != '\n' by {
                assert(is_numeral_char(t[i]));
            }
        },
        _ => {},
    }
}

/// Any value that JSON text reads as is written, sorted and compact, on one
/// line.
pub proof fn lemma_compact_output_single_line(v: JsonView)
    requires
        numerals(v),
    ensures
        no_line_break(compact_text(sorted_value(v))),
{
    lemma_numerals_single_line(v);
    lemma_sorted_value_keeps_numbers(v);
    lemma_compact_text_single_line(sorted_value(v));
}

} // verus!
