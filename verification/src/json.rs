//! An owned JSON document tree, with a ghost mirror over sequences.
//!
//! Tool schemas, tool arguments and tool results flow through the core as
//! JSON documents.  This module gives them a concrete shape the verifier can
//! see into: numbers keep their literal text, and objects keep their entries
//! in order, which is what the schema sanitizer's order-preservation claim is
//! stated over.

use vstd::prelude::*;

verus! {

use crate::textfmt::push_char;

/// An owned JSON value.  Object entries keep their insertion order; a number
/// keeps the literal text it was written with.
#[derive(Debug, PartialEq, Eq)]
pub enum JsonValue {
    Null,
    Bool(bool),
    Num(String),
    Str(String),
    Arr(Vec<JsonValue>),
    Obj(Vec<(String, JsonValue)>),
}

/// The ghost mirror of `JsonValue`: strings become `Seq<char>`, vectors
/// become `Seq`.  All contracts about JSON documents are stated over this.
pub enum JsonView {
    Null,
    Bool(bool),
    Num(Seq<char>),
    Str(Seq<char>),
    Arr(Seq<JsonView>),
    Obj(Seq<(Seq<char>, JsonView)>),
}

pub open spec fn view_of(v: JsonValue) -> JsonView
    decreases v,
{
    match v {
        JsonValue::Null => JsonView::Null,
        JsonValue::Bool(b) => JsonView::Bool(b),
        JsonValue::Num(s) => JsonView::Num(s@),
        JsonValue::Str(s) => JsonView::Str(s@),
        JsonValue::Arr(items) => JsonView::Arr(views_of_seq(items@)),
        JsonValue::Obj(entries) => JsonView::Obj(views_of_entries(entries@)),
    }
}

pub open spec fn views_of_seq(items: Seq<JsonValue>) -> Seq<JsonView>
    decreases items,
{
    if items.len() == 0 {
        Seq::empty()
    } else {
        seq![view_of(items[0])] + views_of_seq(items.subrange(1, items.len() as int))
    }
}

pub open spec fn views_of_entries(entries: Seq<(String, JsonValue)>) -> Seq<(Seq<char>, JsonView)>
    decreases entries,
{
    if entries.len() == 0 {
        Seq::empty()
    } else {
        seq![(entries[0].0@, view_of(entries[0].1))]
            + views_of_entries(entries.subrange(1, entries.len() as int))
    }
}

impl View for JsonValue {
    type V = JsonView;

    open spec fn view(&self) -> JsonView {
        view_of(*self)
    }
}

pub proof fn lemma_views_of_seq(items: Seq<JsonValue>)
    ensures
        views_of_seq(items).len() == items.len(),
        forall|i: int| 0 <= i < items.len() ==> views_of_seq(items)[i] == view_of(items[i]),
    decreases items,
{
    if items.len() > 0 {
        lemma_views_of_seq(items.subrange(1, items.len() as int));
    }
}

pub proof fn lemma_views_of_entries(entries: Seq<(String, JsonValue)>)
    ensures
        views_of_entries(entries).len() == entries.len(),
        forall|i: int| 0 <= i < entries.len()
            ==> views_of_entries(entries)[i] == (entries[i].0@, view_of(entries[i].1)),
    decreases entries,
{
    if entries.len() > 0 {
        lemma_views_of_entries(entries.subrange(1, entries.len() as int));
    }
}

/// The value of the first entry with key `k`, if any.
pub open spec fn lookup(entries: Seq<(Seq<char>, JsonView)>, k: Seq<char>) -> Option<JsonView>
    decreases entries,
{
    if entries.len() == 0 {
        None
    } else if entries[0].0 == k {
        Some(entries[0].1)
    } else {
        lookup(entries.subrange(1, entries.len() as int), k)
    }
}

/// All entries whose key is not `k`, in order.
pub open spec fn remove_key(
    entries: Seq<(Seq<char>, JsonView)>,
    k: Seq<char>,
) -> Seq<(Seq<char>, JsonView)>
    decreases entries,
{
    if entries.len() == 0 {
        entries
    } else {
        let rest = remove_key(entries.subrange(1, entries.len() as int), k);
        if entries[0].0 == k {
            rest
        } else {
            seq![entries[0]] + rest
        }
    }
}

/// Removes, at every nesting level of the document, the object entries whose
/// key is listed in `keys`; everything else is kept in order.
pub open spec fn strip_view(v: JsonView, keys: Seq<Seq<char>>) -> JsonView
    decreases v,
{
    match v {
        JsonView::Arr(items) => JsonView::Arr(strip_seq_view(items, keys)),
        JsonView::Obj(entries) => JsonView::Obj(strip_entries_view(entries, keys)),
        _ => v,
    }
}

pub open spec fn strip_seq_view(items: Seq<JsonView>, keys: Seq<Seq<char>>) -> Seq<JsonView>
    decreases items,
{
    if items.len() == 0 {
        items
    } else {
        seq![strip_view(items[0], keys)]
            + strip_seq_view(items.subrange(1, items.len() as int), keys)
    }
}

pub open spec fn strip_entries_view(
    entries: Seq<(Seq<char>, JsonView)>,
    keys: Seq<Seq<char>>,
) -> Seq<(Seq<char>, JsonView)>
    decreases entries,
{
    if entries.len() == 0 {
        entries
    } else {
        let rest = strip_entries_view(entries.subrange(1, entries.len() as int), keys);
        if keys.contains(entries[0].0) {
            rest
        } else {
            seq![(entries[0].0, strip_view(entries[0].1, keys))] + rest
        }
    }
}

/// The schema keys the model endpoint does not understand; the sanitizer
/// removes them from every nesting level of a tool schema.
pub open spec fn schema_removed_keys() -> Seq<Seq<char>> {
    seq![
        "exclusiveMaximum"@,
        "exclusiveMinimum"@,
        "$schema"@,
        "additionalProperties"@,
        "outputSchema"@,
    ]
}

/// Renames a top-level `inputSchema` entry to `parameters`: the entry is
/// removed where it stood and the renamed entry is appended.  Anything
/// without such an entry is left unchanged.
pub open spec fn rename_schema_view(v: JsonView) -> JsonView {
    match v {
        JsonView::Obj(entries) => match lookup(entries, "inputSchema"@) {
            Some(schema) => JsonView::Obj(
                remove_key(entries, "inputSchema"@).push(("parameters"@, schema)),
            ),
            None => v,
        },
        _ => v,
    }
}

/// The tool-schema sanitizer: rename `inputSchema` to `parameters`, then
/// strip the keys the model endpoint does not understand.
pub open spec fn sanitize_tool_view(v: JsonView) -> JsonView {
    strip_view(rename_schema_view(v), schema_removed_keys())
}

pub proof fn lemma_lookup_none(entries: Seq<(Seq<char>, JsonView)>, k: Seq<char>)
    ensures
        lookup(entries, k) is None <==> (forall|i: int|
            0 <= i < entries.len() ==> entries[i].0 != k),
    decreases entries,
{
    if entries.len() > 0 {
        let rest = entries.subrange(1, entries.len() as int);
        lemma_lookup_none(rest, k);
        assert(forall|i: int| 1 <= i < entries.len() ==> entries[i] == rest[i - 1]);
    }
}

proof fn lemma_remove_key_other(entries: Seq<(Seq<char>, JsonView)>, k: Seq<char>, other: Seq<char>)
    requires
        lookup(entries, other) is None || other == k,
    ensures
        lookup(remove_key(entries, k), other) is None,
    decreases entries,
{
    if entries.len() > 0 {
        let rest = entries.subrange(1, entries.len() as int);
        lemma_remove_key_other(rest, k, other);
        if entries[0].0 != k {
            let s = seq![entries[0]] + remove_key(rest, k);
            assert(s.subrange(1, s.len() as int) =~= remove_key(rest, k));
        }
    }
}

proof fn lemma_lookup_push_none(
    entries: Seq<(Seq<char>, JsonView)>,
    e: (Seq<char>, JsonView),
    k: Seq<char>,
)
    requires
        lookup(entries, k) is None,
        e.0 != k,
    ensures
        lookup(entries.push(e), k) is None,
    decreases entries,
{
    let s = entries.push(e);
    if entries.len() == 0 {
        assert(s[0] == e);
        assert(lookup(Seq::<(Seq<char>, JsonView)>::empty(), k) is None);
        assert(s.subrange(1, s.len() as int) =~= Seq::<(Seq<char>, JsonView)>::empty());
    } else {
        let rest = entries.subrange(1, entries.len() as int);
        lemma_lookup_push_none(rest, e, k);
        assert(s[0] == entries[0]);
        assert(s.subrange(1, s.len() as int) =~= rest.push(e));
    }
}

proof fn lemma_strip_entries_no_new_keys(
    entries: Seq<(Seq<char>, JsonView)>,
    keys: Seq<Seq<char>>,
    k: Seq<char>,
)
    requires
        lookup(entries, k) is None,
    ensures
        lookup(strip_entries_view(entries, keys), k) is None,
    decreases entries,
{
    if entries.len() > 0 {
        let rest = entries.subrange(1, entries.len() as int);
        lemma_strip_entries_no_new_keys(rest, keys, k);
        if !keys.contains(entries[0].0) {
            let s = seq![(entries[0].0, strip_view(entries[0].1, keys))]
                + strip_entries_view(rest, keys);
            assert(s.subrange(1, s.len() as int) =~= strip_entries_view(rest, keys));
        }
    }
}

pub proof fn lemma_strip_idempotent(v: JsonView, keys: Seq<Seq<char>>)
    ensures
        strip_view(strip_view(v, keys), keys) == strip_view(v, keys),
    decreases v,
{
    match v {
        JsonView::Arr(items) => lemma_strip_seq_idempotent(items, keys),
        JsonView::Obj(entries) => lemma_strip_entries_idempotent(entries, keys),
        _ => {},
    }
}

proof fn lemma_strip_seq_idempotent(items: Seq<JsonView>, keys: Seq<Seq<char>>)
    ensures
        strip_seq_view(strip_seq_view(items, keys), keys) == strip_seq_view(items, keys),
    decreases items,
{
    if items.len() > 0 {
        let rest = items.subrange(1, items.len() as int);
        lemma_strip_idempotent(items[0], keys);
        lemma_strip_seq_idempotent(rest, keys);
        let s = seq![strip_view(items[0], keys)] + strip_seq_view(rest, keys);
        assert(s.subrange(1, s.len() as int) =~= strip_seq_view(rest, keys));
        assert(strip_seq_view(s, keys) =~= s);
    }
}

proof fn lemma_strip_entries_idempotent(entries: Seq<(Seq<char>, JsonView)>, keys: Seq<Seq<char>>)
    ensures
        strip_entries_view(strip_entries_view(entries, keys), keys)
            == strip_entries_view(entries, keys),
    decreases entries,
{
    if entries.len() > 0 {
        let rest = entries.subrange(1, entries.len() as int);
        lemma_strip_entries_idempotent(rest, keys);
        if !keys.contains(entries[0].0) {
            lemma_strip_idempotent(entries[0].1, keys);
            let s = seq![(entries[0].0, strip_view(entries[0].1, keys))]
                + strip_entries_view(rest, keys);
            assert(s.subrange(1, s.len() as int) =~= strip_entries_view(rest, keys));
            assert(strip_entries_view(s, keys) =~= s);
        }
    }
}

/// Renaming is a no-op on a document whose top level has no `inputSchema`
/// entry; in particular on anything the sanitizer has already produced.
proof fn lemma_rename_noop(v: JsonView)
    requires
        match v {
            JsonView::Obj(entries) => lookup(entries, "inputSchema"@) is None,
            _ => true,
        },
    ensures
        rename_schema_view(v) == v,
{
}

/// The tool-schema sanitizer is idempotent: sanitizing an already sanitized
/// document changes nothing.
pub proof fn lemma_sanitize_idempotent(v: JsonView)
    ensures
        sanitize_tool_view(sanitize_tool_view(v)) == sanitize_tool_view(v),
{
    let keys = schema_removed_keys();
    let u = rename_schema_view(v);
    let w = strip_view(u, keys);
    // The renamed document has no top-level `inputSchema` entry, and
    // stripping never introduces one, so the second rename is a no-op.
    match u {
        JsonView::Obj(u_entries) => {
            assert(lookup(u_entries, "inputSchema"@) is None) by {
                match v {
                    JsonView::Obj(entries) => {
                        match lookup(entries, "inputSchema"@) {
                            Some(schema) => {
                                lemma_remove_key_other(
                                    entries,
                                    "inputSchema"@,
                                    "inputSchema"@,
                                );
                                assert("parameters"@.len() != "inputSchema"@.len()) by {
                                    reveal_strlit("parameters");
                                    reveal_strlit("inputSchema");
                                }
                                lemma_lookup_push_none(
                                    remove_key(entries, "inputSchema"@),
                                    ("parameters"@, schema),
                                    "inputSchema"@,
                                );
                            },
                            None => {},
                        }
                    },
                    _ => {},
                }
            }
            lemma_strip_entries_no_new_keys(u_entries, keys, "inputSchema"@);
            lemma_rename_noop(w);
        },
        _ => {
            lemma_rename_noop(w);
        },
    }
    lemma_strip_idempotent(u, keys);
    lemma_strip_idempotent(strip_view(u, keys), keys);
}

pub proof fn lemma_strip_seq_pointwise(items: Seq<JsonView>, keys: Seq<Seq<char>>)
    ensures
        strip_seq_view(items, keys).len() == items.len(),
        forall|i: int| 0 <= i < items.len()
            ==> strip_seq_view(items, keys)[i] == strip_view(items[i], keys),
    decreases items,
{
    if items.len() > 0 {
        let rest = items.subrange(1, items.len() as int);
        lemma_strip_seq_pointwise(rest, keys);
        assert(forall|i: int| 1 <= i < items.len() ==> items[i] == rest[i - 1]);
    }
}

pub proof fn lemma_views_of_entries_push(entries: Seq<(String, JsonValue)>, e: (String, JsonValue))
    ensures
        views_of_entries(entries.push(e))
            == views_of_entries(entries).push((e.0@, view_of(e.1))),
    decreases entries,
{
    let s = entries.push(e);
    if entries.len() == 0 {
        assert(s[0] == e);
        assert(s.subrange(1, s.len() as int) =~= Seq::<(String, JsonValue)>::empty());
        assert(views_of_entries(Seq::<(String, JsonValue)>::empty())
            =~= Seq::<(Seq<char>, JsonView)>::empty());
        assert(views_of_entries(s) =~= views_of_entries(entries).push((e.0@, view_of(e.1))));
    } else {
        let rest = entries.subrange(1, entries.len() as int);
        lemma_views_of_entries_push(rest, e);
        assert(s[0] == entries[0]);
        assert(s.subrange(1, s.len() as int) =~= rest.push(e));
        assert(views_of_entries(s) =~= views_of_entries(entries).push((e.0@, view_of(e.1))));
    }
}

pub proof fn lemma_views_of_seq_push(items: Seq<JsonValue>, e: JsonValue)
    ensures
        views_of_seq(items.push(e)) == views_of_seq(items).push(view_of(e)),
    decreases items,
{
    let s = items.push(e);
    if items.len() == 0 {
        assert(s[0] == e);
        assert(s.subrange(1, s.len() as int) =~= Seq::<JsonValue>::empty());
        assert(views_of_seq(Seq::<JsonValue>::empty()) =~= Seq::<JsonView>::empty());
        assert(views_of_seq(s) =~= views_of_seq(items).push(view_of(e)));
    } else {
        let rest = items.subrange(1, items.len() as int);
        lemma_views_of_seq_push(rest, e);
        assert(s[0] == items[0]);
        assert(s.subrange(1, s.len() as int) =~= rest.push(e));
        assert(views_of_seq(s) =~= views_of_seq(items).push(view_of(e)));
    }
}

pub proof fn lemma_strip_entries_push(
    entries: Seq<(Seq<char>, JsonView)>,
    e: (Seq<char>, JsonView),
    keys: Seq<Seq<char>>,
)
    ensures
        strip_entries_view(entries.push(e), keys) == if keys.contains(e.0) {
            strip_entries_view(entries, keys)
        } else {
            strip_entries_view(entries, keys).push((e.0, strip_view(e.1, keys)))
        },
    decreases entries,
{
    let s = entries.push(e);
    if entries.len() == 0 {
        assert(s[0] == e);
        assert(strip_entries_view(Seq::<(Seq<char>, JsonView)>::empty(), keys)
            =~= Seq::<(Seq<char>, JsonView)>::empty());
        assert(s.subrange(1, s.len() as int) =~= Seq::<(Seq<char>, JsonView)>::empty());
        if !keys.contains(e.0) {
            assert(strip_entries_view(s, keys)
                =~= strip_entries_view(entries, keys).push((e.0, strip_view(e.1, keys))));
        }
    } else {
        let rest = entries.subrange(1, entries.len() as int);
        lemma_strip_entries_push(rest, e, keys);
        assert(s[0] == entries[0]);
        assert(s.subrange(1, s.len() as int) =~= rest.push(e));
        if !keys.contains(entries[0].0) {
            if keys.contains(e.0) {
                assert(strip_entries_view(s, keys) =~= strip_entries_view(entries, keys));
            } else {
                assert(strip_entries_view(s, keys)
                    =~= strip_entries_view(entries, keys).push((e.0, strip_view(e.1, keys))));
            }
        }
    }
}

pub proof fn lemma_remove_key_push(
    entries: Seq<(Seq<char>, JsonView)>,
    e: (Seq<char>, JsonView),
    k: Seq<char>,
)
    ensures
        remove_key(entries.push(e), k) == if e.0 == k {
            remove_key(entries, k)
        } else {
            remove_key(entries, k).push(e)
        },
    decreases entries,
{
    let s = entries.push(e);
    if entries.len() == 0 {
        assert(s[0] == e);
        assert(remove_key(Seq::<(Seq<char>, JsonView)>::empty(), k)
            =~= Seq::<(Seq<char>, JsonView)>::empty());
        assert(s.subrange(1, s.len() as int) =~= Seq::<(Seq<char>, JsonView)>::empty());
        if e.0 != k {
            assert(remove_key(s, k) =~= remove_key(entries, k).push(e));
        }
    } else {
        let rest = entries.subrange(1, entries.len() as int);
        lemma_remove_key_push(rest, e, k);
        assert(s[0] == entries[0]);
        assert(s.subrange(1, s.len() as int) =~= rest.push(e));
        if entries[0].0 != k {
            if e.0 == k {
                assert(remove_key(s, k) =~= remove_key(entries, k));
            } else {
                assert(remove_key(s, k) =~= remove_key(entries, k).push(e));
            }
        }
    }
}

/// If the first `j` keys all differ from `k` and entry `j` carries `k`, the
/// lookup finds entry `j`.
pub proof fn lemma_lookup_first(entries: Seq<(Seq<char>, JsonView)>, k: Seq<char>, j: int)
    requires
        0 <= j < entries.len(),
        entries[j].0 == k,
        forall|i: int| 0 <= i < j ==> entries[i].0 != k,
    ensures
        lookup(entries, k) == Some(entries[j].1),
    decreases j,
{
    if j > 0 {
        let rest = entries.subrange(1, entries.len() as int);
        assert(forall|i: int| 0 <= i < j - 1 ==> rest[i] == entries[i + 1]);
        lemma_lookup_first(rest, k, j - 1);
    }
}

/// The views of a list of key strings.
pub open spec fn key_views(keys: Seq<String>) -> Seq<Seq<char>> {
    Seq::new(keys.len(), |i: int| keys[i]@)
}

/// Whether `k` occurs in `keys`.
pub fn contains_string(keys: &Vec<String>, k: &String) -> (r: bool)
    ensures
        r == key_views(keys@).contains(k@),
{
    let mut i: usize = 0;
    while i < keys.len()
        invariant
            0 <= i <= keys.len(),
            forall|j: int| 0 <= j < i ==> key_views(keys@)[j] != k@,
        decreases keys.len() - i,
    {
        if keys[i].eq(k) {
            assert(key_views(keys@)[i as int] == k@);
            return true;
        }
        i += 1;
    }
    false
}

/// A deep copy of a JSON document.
#[verifier::loop_isolation(false)]
pub fn jv_clone(v: &JsonValue) -> (r: JsonValue)
    ensures
        r@ == v@,
    decreases *v,
{
    match v {
        JsonValue::Null => JsonValue::Null,
        JsonValue::Bool(b) => JsonValue::Bool(*b),
        JsonValue::Num(s) => JsonValue::Num(s.clone()),
        JsonValue::Str(s) => JsonValue::Str(s.clone()),
        JsonValue::Arr(items) => {
            let mut out: Vec<JsonValue> = Vec::new();
            let mut i: usize = 0;
            while i < items.len()
                invariant
                    0 <= i <= items.len(),
                    out@.len() == i,
                    forall|j: int| 0 <= j < i ==> view_of(out@[j]) == view_of(items@[j]),
                decreases items.len() - i,
            {
                proof {
                    assert(decreases_to!(*v => v->Arr_0));
                    assert(decreases_to!(v->Arr_0 => v->Arr_0@));
                    assert(decreases_to!(v->Arr_0@ => v->Arr_0@[i as int]));
                    assert(v->Arr_0@[i as int] == items@[i as int]);
                }
                let c = jv_clone(&items[i]);
                out.push(c);
                i += 1;
            }
            proof {
                lemma_views_of_seq(out@);
                lemma_views_of_seq(items@);
                assert(views_of_seq(out@) =~= views_of_seq(items@));
            }
            JsonValue::Arr(out)
        },
        JsonValue::Obj(entries) => {
            let mut out: Vec<(String, JsonValue)> = Vec::new();
            let mut i: usize = 0;
            while i < entries.len()
                invariant
                    0 <= i <= entries.len(),
                    out@.len() == i,
                    forall|j: int| 0 <= j < i ==> out@[j].0@ == entries@[j].0@
                        && view_of(out@[j].1) == view_of(entries@[j].1),
                decreases entries.len() - i,
            {
                proof {
                    assert(decreases_to!(*v => v->Obj_0));
                    assert(decreases_to!(v->Obj_0 => v->Obj_0@));
                    assert(decreases_to!(v->Obj_0@ => v->Obj_0@[i as int]));
                    assert(decreases_to!(v->Obj_0@[i as int] => v->Obj_0@[i as int].1));
                    assert(v->Obj_0@[i as int].1 == entries@[i as int].1);
                }
                let key = entries[i].0.clone();
                let val = jv_clone(&entries[i].1);
                out.push((key, val));
                i += 1;
            }
            proof {
                lemma_views_of_entries(out@);
                lemma_views_of_entries(entries@);
                assert(views_of_entries(out@) =~= views_of_entries(entries@));
            }
            JsonValue::Obj(out)
        },
    }
}

/// Removes, at every nesting level, the object entries whose key occurs in
/// `keys`; everything else is kept in order.
#[verifier::loop_isolation(false)]
pub fn strip_keys(v: &JsonValue, keys: &Vec<String>) -> (r: JsonValue)
    ensures
        r@ == strip_view(v@, key_views(keys@)),
    decreases *v,
{
    let ghost kv = key_views(keys@);
    match v {
        JsonValue::Null => JsonValue::Null,
        JsonValue::Bool(b) => JsonValue::Bool(*b),
        JsonValue::Num(s) => JsonValue::Num(s.clone()),
        JsonValue::Str(s) => JsonValue::Str(s.clone()),
        JsonValue::Arr(items) => {
            let mut out: Vec<JsonValue> = Vec::new();
            let mut i: usize = 0;
            while i < items.len()
                invariant
                    0 <= i <= items.len(),
                    out@.len() == i,
                    kv == key_views(keys@),
                    forall|j: int| 0 <= j < i
                        ==> view_of(out@[j]) == strip_view(view_of(items@[j]), kv),
                decreases items.len() - i,
            {
                proof {
                    assert(decreases_to!(*v => v->Arr_0));
                    assert(decreases_to!(v->Arr_0 => v->Arr_0@));
                    assert(decreases_to!(v->Arr_0@ => v->Arr_0@[i as int]));
                    assert(v->Arr_0@[i as int] == items@[i as int]);
                }
                let c = strip_keys(&items[i], keys);
                out.push(c);
                i += 1;
            }
            proof {
                lemma_views_of_seq(out@);
                lemma_views_of_seq(items@);
                lemma_strip_seq_pointwise(views_of_seq(items@), kv);
                assert(views_of_seq(out@) =~= strip_seq_view(views_of_seq(items@), kv));
            }
            JsonValue::Arr(out)
        },
        JsonValue::Obj(entries) => {
            let mut out: Vec<(String, JsonValue)> = Vec::new();
            let mut i: usize = 0;
            while i < entries.len()
                invariant
                    0 <= i <= entries.len(),
                    kv == key_views(keys@),
                    views_of_entries(out@)
                        == strip_entries_view(views_of_entries(entries@.subrange(0, i as int)), kv),
                decreases entries.len() - i,
            {
                let ghost pre = entries@.subrange(0, i as int);
                let ghost e = entries@[i as int];
                proof {
                    assert(entries@.subrange(0, i + 1 as int) =~= pre.push(e));
                    lemma_views_of_entries_push(pre, e);
                    lemma_strip_entries_push(views_of_entries(pre), (e.0@, view_of(e.1)), kv);
                }
                if !contains_string(keys, &entries[i].0) {
                    proof {
                        assert(decreases_to!(*v => v->Obj_0));
                        assert(decreases_to!(v->Obj_0 => v->Obj_0@));
                        assert(decreases_to!(v->Obj_0@ => v->Obj_0@[i as int]));
                        assert(decreases_to!(v->Obj_0@[i as int] => v->Obj_0@[i as int].1));
                        assert(v->Obj_0@[i as int].1 == entries@[i as int].1);
                    }
                    let key = entries[i].0.clone();
                    let val = strip_keys(&entries[i].1, keys);
                    proof {
                        lemma_views_of_entries_push(out@, (key, val));
                    }
                    out.push((key, val));
                }
                i += 1;
            }
            proof {
                assert(entries@.subrange(0, entries@.len() as int) =~= entries@);
            }
            JsonValue::Obj(out)
        },
    }
}

/// The position of the first entry with key `k`, if any.
pub fn find_key_index(entries: &Vec<(String, JsonValue)>, k: &String) -> (r: Option<usize>)
    ensures
        match r {
            Some(j) => j < entries@.len() && entries@[j as int].0@ == k@
                && (forall|i: int| 0 <= i < j ==> entries@[i].0@ != k@),
            None => forall|i: int| 0 <= i < entries@.len() ==> entries@[i].0@ != k@,
        },
{
    let mut i: usize = 0;
    while i < entries.len()
        invariant
            0 <= i <= entries.len(),
            forall|j: int| 0 <= j < i ==> entries@[j].0@ != k@,
        decreases entries.len() - i,
    {
        if entries[i].0.eq(k) {
            return Some(i);
        }
        i += 1;
    }
    None
}

/// The value of the first entry with key `k` of a JSON object; `None` on
/// anything else.
pub fn get_field<'a>(v: &'a JsonValue, k: &String) -> (r: Option<&'a JsonValue>)
    ensures
        match r {
            Some(x) => v@ is Obj && lookup(v@->Obj_0, k@) == Some(x@),
            None => !(v@ is Obj) || lookup(v@->Obj_0, k@) is None,
        },
{
    match v {
        JsonValue::Obj(entries) => {
            proof {
                lemma_views_of_entries(entries@);
            }
            match find_key_index(entries, k) {
                Some(j) => {
                    proof {
                        lemma_lookup_first(views_of_entries(entries@), k@, j as int);
                    }
                    Some(&entries[j].1)
                },
                None => {
                    proof {
                        lemma_lookup_none(views_of_entries(entries@), k@);
                    }
                    None
                },
            }
        },
        _ => None,
    }
}

/// Renames a top-level `inputSchema` entry to `parameters`, as
/// `rename_schema_view` describes.
#[verifier::loop_isolation(false)]
pub fn rename_input_schema(v: JsonValue) -> (r: JsonValue)
    ensures
        r@ == rename_schema_view(v@),
{
    match v {
        JsonValue::Obj(entries) => {
            let schema_key: String = "inputSchema".to_owned();
            proof {
                lemma_views_of_entries(entries@);
            }
            match find_key_index(&entries, &schema_key) {
                None => {
                    proof {
                        lemma_lookup_none(views_of_entries(entries@), "inputSchema"@);
                    }
                    JsonValue::Obj(entries)
                },
                Some(j) => {
                    proof {
                        lemma_lookup_first(views_of_entries(entries@), "inputSchema"@, j as int);
                    }
                    let schema = jv_clone(&entries[j].1);
                    let mut out: Vec<(String, JsonValue)> = Vec::new();
                    let mut i: usize = 0;
                    while i < entries.len()
                        invariant
                            0 <= i <= entries.len(),
                            views_of_entries(out@) == remove_key(
                                views_of_entries(entries@.subrange(0, i as int)),
                                "inputSchema"@,
                            ),
                        decreases entries.len() - i,
                    {
                        let ghost pre = entries@.subrange(0, i as int);
                        let ghost e = entries@[i as int];
                        proof {
                            assert(entries@.subrange(0, i + 1 as int) =~= pre.push(e));
                            lemma_views_of_entries_push(pre, e);
                            lemma_remove_key_push(
                                views_of_entries(pre),
                                (e.0@, view_of(e.1)),
                                "inputSchema"@,
                            );
                        }
                        if !entries[i].0.eq(&schema_key) {
                            let key = entries[i].0.clone();
                            let val = jv_clone(&entries[i].1);
                            proof {
                                lemma_views_of_entries_push(out@, (key, val));
                            }
                            out.push((key, val));
                        }
                        i += 1;
                    }
                    proof {
                        assert(entries@.subrange(0, entries@.len() as int) =~= entries@);
                    }
                    let renamed: String = "parameters".to_owned();
                    proof {
                        lemma_views_of_entries_push(out@, (renamed, schema));
                    }
                    out.push((renamed, schema));
                    JsonValue::Obj(out)
                },
            }
        },
        other => other,
    }
}

/// The tool-schema sanitizer: renames a top-level `inputSchema` entry to
/// `parameters`, then strips the schema keys the model endpoint does not
/// understand, at every nesting level.  Applying it twice changes nothing
/// (`lemma_sanitize_idempotent`).
pub fn sanitize_tool_schema(v: JsonValue) -> (r: JsonValue)
    ensures
        r@ == sanitize_tool_view(v@),
{
    let renamed = rename_input_schema(v);
    let mut keys: Vec<String> = Vec::new();
    keys.push("exclusiveMaximum".to_owned());
    keys.push("exclusiveMinimum".to_owned());
    keys.push("$schema".to_owned());
    keys.push("additionalProperties".to_owned());
    keys.push("outputSchema".to_owned());
    proof {
        assert(key_views(keys@) =~= schema_removed_keys());
    }
    strip_keys(&renamed, &keys)
}

/// How one character is written inside a JSON string literal.
pub open spec fn escape_char(c: char) -> Seq<char> {
    if c == '"' {
        seq!['\\', '"']
    } else if c == '\\' {
        seq!['\\', '\\']
    } else if c == '\n' {
        seq!['\\', 'n']
    } else if c == '\r' {
        seq!['\\', 'r']
    } else if c == '\t' {
        seq!['\\', 't']
    } else {
        seq![c]
    }
}

/// How a text is written inside a JSON string literal.
pub open spec fn escape_text(s: Seq<char>) -> Seq<char>
    decreases s.len(),
{
    if s.len() == 0 {
        s
    } else {
        escape_text(s.drop_last()) + escape_char(s.last())
    }
}

/// The serialized text of a JSON document: compact, entries and items in
/// order, strings escaped as `escape_text` says.
pub open spec fn text_of(v: JsonView) -> Seq<char>
    decreases v,
{
    match v {
        JsonView::Null => "null"@,
        JsonView::Bool(b) => if b {
            "true"@
        } else {
            "false"@
        },
        JsonView::Num(s) => s,
        JsonView::Str(s) => "\""@ + escape_text(s) + "\""@,
        JsonView::Arr(items) => "["@ + arr_body_text(items) + "]"@,
        JsonView::Obj(entries) => "{"@ + obj_body_text(entries) + "}"@,
    }
}

pub open spec fn arr_body_text(items: Seq<JsonView>) -> Seq<char>
    decreases items,
{
    if items.len() == 0 {
        Seq::empty()
    } else if items.len() == 1 {
        text_of(items[0])
    } else {
        text_of(items[0]) + ","@ + arr_body_text(items.subrange(1, items.len() as int))
    }
}

pub open spec fn entry_text(e: (Seq<char>, JsonView)) -> Seq<char>
    decreases e,
{
    "\""@ + escape_text(e.0) + "\":"@ + text_of(e.1)
}

pub open spec fn obj_body_text(entries: Seq<(Seq<char>, JsonView)>) -> Seq<char>
    decreases entries,
{
    if entries.len() == 0 {
        Seq::empty()
    } else if entries.len() == 1 {
        entry_text(entries[0])
    } else {
        entry_text(entries[0]) + ","@ + obj_body_text(entries.subrange(1, entries.len() as int))
    }
}

proof fn lemma_arr_body_push(items: Seq<JsonView>, e: JsonView)
    ensures
        arr_body_text(items.push(e)) == if items.len() == 0 {
            text_of(e)
        } else {
            arr_body_text(items) + ","@ + text_of(e)
        },
    decreases items,
{
    let s = items.push(e);
    assert(s.len() == items.len() + 1);
    if items.len() == 0 {
        assert(s[0] == e);
    } else {
        let rest = items.subrange(1, items.len() as int);
        lemma_arr_body_push(rest, e);
        assert(s[0] == items[0]);
        assert(s.subrange(1, s.len() as int) =~= rest.push(e));
        if items.len() == 1 {
            assert(rest =~= Seq::<JsonView>::empty());
        }
    }
}

proof fn lemma_obj_body_push(entries: Seq<(Seq<char>, JsonView)>, e: (Seq<char>, JsonView))
    ensures
        obj_body_text(entries.push(e)) == if entries.len() == 0 {
            entry_text(e)
        } else {
            obj_body_text(entries) + ","@ + entry_text(e)
        },
    decreases entries,
{
    let s = entries.push(e);
    assert(s.len() == entries.len() + 1);
    if entries.len() == 0 {
        assert(s[0] == e);
    } else {
        let rest = entries.subrange(1, entries.len() as int);
        lemma_obj_body_push(rest, e);
        assert(s[0] == entries[0]);
        assert(s.subrange(1, s.len() as int) =~= rest.push(e));
        if entries.len() == 1 {
            assert(rest =~= Seq::<(Seq<char>, JsonView)>::empty());
        }
    }
}

/// Appends to `out` the escaped form of `s`, as it stands inside a JSON
/// string literal.
#[verifier::loop_isolation(false)]
fn escape_into(out: &mut String, s: &str)
    ensures
        final(out)@ == old(out)@ + escape_text(s@),
{
    let n = s.unicode_len();
    let mut i: usize = 0;
    while i < n
        invariant
            0 <= i <= n,
            n == s@.len(),
            out@ == old(out)@ + escape_text(s@.subrange(0, i as int)),
        decreases n - i,
    {
        let c = s.get_char(i);
        let ghost pre = s@.subrange(0, i as int);
        proof {
            assert(s@.subrange(0, i + 1 as int).drop_last() =~= pre);
            assert(s@.subrange(0, i + 1 as int).last() == s@[i as int]);
        }
        if c == '"' {
            out.append("\\\"");
            proof {
                reveal_strlit("\\\"");
                assert("\\\""@ =~= escape_char(c));
            }
        } else if c == '\\' {
            out.append("\\\\");
            proof {
                reveal_strlit("\\\\");
                assert("\\\\"@ =~= escape_char(c));
            }
        } else if c == '\n' {
            out.append("\\n");
            proof {
                reveal_strlit("\\n");
                assert("\\n"@ =~= escape_char(c));
            }
        } else if c == '\r' {
            out.append("\\r");
            proof {
                reveal_strlit("\\r");
                assert("\\r"@ =~= escape_char(c));
            }
        } else if c == '\t' {
            out.append("\\t");
            proof {
                reveal_strlit("\\t");
                assert("\\t"@ =~= escape_char(c));
            }
        } else {
            push_char(out, c);
            proof {
                assert(seq![c] =~= escape_char(c));
            }
        }
        i += 1;
    }
    proof {
        assert(s@.subrange(0, n as int) =~= s@);
    }
}

/// Appends to `out` the serialized text of `v`.
#[verifier::loop_isolation(false)]
fn write_json(out: &mut String, v: &JsonValue)
    ensures
        final(out)@ == old(out)@ + text_of(v@),
    decreases *v,
{
    match v {
        JsonValue::Null => out.append("null"),
        JsonValue::Bool(b) => {
            if *b {
                out.append("true");
            } else {
                out.append("false");
            }
        },
        JsonValue::Num(s) => out.append(s.as_str()),
        JsonValue::Str(s) => {
            out.append("\"");
            escape_into(out, s.as_str());
            out.append("\"");
        },
        JsonValue::Arr(items) => {
            proof {
                lemma_views_of_seq(items@);
            }
            out.append("[");
            let ghost start = out@;
            let mut i: usize = 0;
            while i < items.len()
                invariant
                    0 <= i <= items.len(),
                    out@ == start + arr_body_text(views_of_seq(items@).subrange(0, i as int)),
                decreases items.len() - i,
            {
                if i > 0 {
                    out.append(",");
                }
                proof {
                    assert(decreases_to!(*v => v->Arr_0));
                    assert(decreases_to!(v->Arr_0 => v->Arr_0@));
                    assert(decreases_to!(v->Arr_0@ => v->Arr_0@[i as int]));
                }
                write_json(out, &items[i]);
                proof {
                    let vs = views_of_seq(items@);
                    assert(vs.subrange(0, i + 1 as int)
                        =~= vs.subrange(0, i as int).push(vs[i as int]));
                    lemma_arr_body_push(vs.subrange(0, i as int), vs[i as int]);
                }
                i += 1;
            }
            proof {
                let vs = views_of_seq(items@);
                assert(vs.subrange(0, vs.len() as int) =~= vs);
            }
            out.append("]");
        },
        JsonValue::Obj(entries) => {
            proof {
                lemma_views_of_entries(entries@);
            }
            out.append("{");
            let ghost start = out@;
            let mut i: usize = 0;
            while i < entries.len()
                invariant
                    0 <= i <= entries.len(),
                    out@ == start + obj_body_text(views_of_entries(entries@).subrange(0, i as int)),
                decreases entries.len() - i,
            {
                if i > 0 {
                    out.append(",");
                }
                out.append("\"");
                escape_into(out, entries[i].0.as_str());
                out.append("\":");
                proof {
                    assert(decreases_to!(*v => v->Obj_0));
                    assert(decreases_to!(v->Obj_0 => v->Obj_0@));
                    assert(decreases_to!(v->Obj_0@ => v->Obj_0@[i as int]));
                    assert(decreases_to!(v->Obj_0@[i as int] => v->Obj_0@[i as int].1));
                    assert(v->Obj_0@[i as int].1 == entries@[i as int].1);
                }
                write_json(out, &entries[i].1);
                proof {
                    let vs = views_of_entries(entries@);
                    assert(vs.subrange(0, i + 1 as int)
                        =~= vs.subrange(0, i as int).push(vs[i as int]));
                    lemma_obj_body_push(vs.subrange(0, i as int), vs[i as int]);
                }
                i += 1;
            }
            proof {
                let vs = views_of_entries(entries@);
                assert(vs.subrange(0, vs.len() as int) =~= vs);
            }
            out.append("}");
        },
    }
}

/// The serialized text of a JSON document.
pub fn json_text(v: &JsonValue) -> (r: String)
    ensures
        r@ == text_of(v@),
{
    let mut out = String::new();
    write_json(&mut out, v);
    out
}

#[verifier::external_type_specification]
#[verifier::external_body]
pub struct ExSerdeValue(serde_json::Value);

/// The document a `serde_json::Value` holds, as this library's own view: the
/// same tree, with a number carried as its shortest display text and object
/// entries in the order `serde_json`'s map iterates them.
pub uninterp spec fn value_tree(v: serde_json::Value) -> JsonView;

/// What JSON text parses to, if it parses: `serde_json::from_str`'s result is
/// a function of the text alone.
pub uninterp spec fn parsed_json(s: Seq<char>) -> Option<JsonView>;

/// Relies on serde_json::from_str::<Value>: parses JSON text into a value
/// tree, deterministically, failing exactly on malformed text.
#[verifier::external_body]
fn parse_value(s: &str) -> (r: Option<serde_json::Value>)
    ensures
        match r {
            Some(v) => parsed_json(s@) == Some(value_tree(v)),
            None => parsed_json(s@) is None,
        },
{
    serde_json::from_str::<serde_json::Value>(s).ok()
}

/// Relies on serde_json::Value's variants: rebuilds the same document in the
/// library's own type, arm by arm; a number becomes its display text.
#[verifier::external_body]
fn from_value(v: &serde_json::Value) -> (r: JsonValue)
    ensures
        r@ == value_tree(*v),
{
    match v {
        serde_json::Value::Null => JsonValue::Null,
        serde_json::Value::Bool(b) => JsonValue::Bool(*b),
        serde_json::Value::Number(n) => JsonValue::Num(n.to_string()),
        serde_json::Value::String(s) => JsonValue::Str(s.clone()),
        serde_json::Value::Array(a) => JsonValue::Arr(a.iter().map(from_value).collect()),
        serde_json::Value::Object(m) => JsonValue::Obj(
            m.iter().map(|(k, x)| (k.clone(), from_value(x))).collect(),
        ),
    }
}

/// Parses JSON text into the library's own document type; `None` exactly on
/// text that does not parse.
pub fn parse_json(s: &str) -> (r: Option<JsonValue>)
    ensures
        match r {
            Some(v) => parsed_json(s@) == Some(v@),
            None => parsed_json(s@) is None,
        },
{
    match parse_value(s) {
        Some(v) => Some(from_value(&v)),
        None => None,
    }
}

} // verus!
