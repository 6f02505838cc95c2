//! JSON values as the MCP server reads and writes them.
use vstd::prelude::*;

use crate::text::strings_equal;

verus! {

/// A JSON value. A number keeps the text it is written with; an object keeps its
/// members in order, each key once.
#[derive(Debug, PartialEq, Eq)]
pub enum Json {
    Null,
    Bool(bool),
    Number(String),
    Str(String),
    Array(Vec<Json>),
    Object(Vec<(String, Json)>),
}

/// The value of the first member named `key`.
pub open spec fn member(entries: Seq<(String, Json)>, key: Seq<char>) -> Option<Json>
    decreases entries.len(),
{
    if entries.len() == 0 {
        None
    } else if entries[0].0@ == key {
        Some(entries[0].1)
    } else {
        member(entries.drop_first(), key)
    }
}

/// The member `key` of an object; nothing for any other value.
pub open spec fn get(j: Json, key: Seq<char>) -> Option<Json> {
    match j {
        Json::Object(entries) => member(entries@, key),
        _ => None,
    }
}

/// The text of a string value.
pub open spec fn str_of(j: Option<Json>) -> Option<Seq<char>> {
    match j {
        Some(Json::Str(s)) => Some(s@),
        _ => None,
    }
}

/// The truth of a boolean value.
pub open spec fn bool_of(j: Option<Json>) -> Option<bool> {
    match j {
        Some(Json::Bool(b)) => Some(b),
        _ => None,
    }
}

/// The member `key` of an object.
pub fn json_get<'a>(j: &'a Json, key: &str) -> (r: Option<&'a Json>)
    ensures
        match r {
            Some(x) => get(*j, key@) == Some(*x),
            None => get(*j, key@) is None,
        },
{
    match j {
        Json::Object(entries) => {
            let mut i: usize = 0;
            assert(entries@.skip(0) =~= entries@);
            while i < entries.len()
                invariant
                    i <= entries@.len(),
                    get(*j, key@) == member(entries@.skip(i as int), key@),
                decreases entries@.len() - i,
            {
                assert(entries@.skip(i as int).drop_first() =~= entries@.skip(i + 1));
                assert(entries@.skip(i as int)[0] == entries@[i as int]);
                if strings_equal(entries[i].0.as_str(), key) {
                    return Some(&entries[i].1);
                }
                i += 1;
            }
            None
        },
        _ => None,
    }
}

/// The text of a string value.
pub fn json_str<'a>(j: Option<&'a Json>) -> (r: Option<&'a str>)
    ensures
        match (r, j) {
            (Some(s), Some(x)) => str_of(Some(*x)) == Some(s@),
            (None, Some(x)) => str_of(Some(*x)) is None,
            (None, None) => true,
            _ => false,
        },
{
    match j {
        Some(Json::Str(s)) => Some(s.as_str()),
        _ => None,
    }
}

/// A copy of a value.
pub fn clone_json(j: &Json) -> (r: Json)
    ensures
        view_of(r) == view_of(*j),
    decreases *j,
{
    match j {
        Json::Null => Json::Null,
        Json::Bool(b) => Json::Bool(*b),
        Json::Number(n) => Json::Number(n.clone()),
        Json::Str(s) => Json::Str(s.clone()),
        Json::Array(items) => {
            let mut out: Vec<Json> = Vec::new();
            let mut i: usize = 0;
            while i < items.len()
                invariant
                    *j == Json::Array(*items),
                    i <= items@.len(),
                    out@.len() == i,
                    forall|k: int| 0 <= k < i ==> view_of(#[trigger] out@[k]) == view_of(items@[k]),
                decreases items@.len() - i,
            {
                proof {
                    assert(decreases_to!(*j => (*j)->Array_0));
                    assert(decreases_to!(*items => items@));
                    assert(decreases_to!(items@ => items@[i as int]));
                }
                out.push(clone_json(&items[i]));
                i += 1;
            }
            let r = Json::Array(out);
            assert(view_of(r) == view_of(*j)) by {
                if let JsonView::Array(a) = view_of(r) {
                    if let JsonView::Array(b) = view_of(*j) {
                        assert(a =~= b);
                    }
                }
            }
            r
        },
        Json::Object(entries) => {
            let mut out: Vec<(String, Json)> = Vec::new();
            let mut i: usize = 0;
            while i < entries.len()
                invariant
                    *j == Json::Object(*entries),
                    i <= entries@.len(),
                    out@.len() == i,
                    forall|k: int| 0 <= k < i ==> (#[trigger] out@[k]).0@ == entries@[k].0@ && view_of(out@[k].1) == view_of(entries@[k].1),
                decreases entries@.len() - i,
            {
                proof {
                    assert(decreases_to!(*j => (*j)->Object_0));
                    assert(decreases_to!(*entries => entries@));
                    assert(decreases_to!(entries@ => entries@[i as int]));
                    assert(decreases_to!(entries@[i as int] => entries@[i as int].1));
                }
                let v = clone_json(&entries[i].1);
                out.push((entries[i].0.clone(), v));
                i += 1;
            }
            let r = Json::Object(out);
            assert(view_of(r) == view_of(*j)) by {
                if let JsonView::Object(a) = view_of(r) {
                    if let JsonView::Object(b) = view_of(*j) {
                        assert(a =~= b);
                    }
                }
            }
            r
        },
    }
}

} // verus!

verus! {

/// A JSON value as plain mathematical values.
pub enum JsonView {
    Null,
    Bool(bool),
    Number(Seq<char>),
    Str(Seq<char>),
    Array(Seq<JsonView>),
    Object(Seq<(Seq<char>, JsonView)>),
}

/// The plain value of a JSON value.
pub open spec fn view_of(j: Json) -> JsonView
    decreases j,
{
    match j {
        Json::Null => JsonView::Null,
        Json::Bool(b) => JsonView::Bool(b),
        Json::Number(n) => JsonView::Number(n@),
        Json::Str(s) => JsonView::Str(s@),
        Json::Array(items) => JsonView::Array(
            Seq::new(
                items@.len(),
                |i: int|
                    if 0 <= i < items@.len() {
                        view_of(items@[i])
                    } else {
                        JsonView::Null
                    },
            ),
        ),
        Json::Object(entries) => JsonView::Object(
            Seq::new(
                entries@.len(),
                |i: int|
                    if 0 <= i < entries@.len() {
                        (entries@[i].0@, view_of(entries@[i].1))
                    } else {
                        (Seq::empty(), JsonView::Null)
                    },
            ),
        ),
    }
}

} // verus!

verus! {

/// The members of an object as plain values.
pub open spec fn entries_view(e: Seq<(String, Json)>) -> Seq<(Seq<char>, JsonView)> {
    Seq::new(e.len(), |i: int| (e[i].0@, view_of(e[i].1)))
}

pub proof fn lemma_object_view(e: Vec<(String, Json)>)
    ensures
        view_of(Json::Object(e)) == JsonView::Object(entries_view(e@)),
{
    let j = Json::Object(e);
    let g = Seq::new(
        e@.len(),
        |i: int|
            if 0 <= i < e@.len() {
                (e@[i].0@, view_of(e@[i].1))
            } else {
                (Seq::empty(), JsonView::Null)
            },
    );
    assert(view_of(j)->Object_0 =~= g);
    assert(entries_view(e@) =~= g);
}

/// Adds a member at the end of an object's members.
pub fn add_member(entries: &mut Vec<(String, Json)>, key: &str, value: Json)
    ensures
        entries_view(final(entries)@) == entries_view(old(entries)@).push((key@, view_of(value))),
{
    entries.push((key.to_owned(), value));
    assert(entries_view(entries@) =~= entries_view(old(entries)@).push((key@, view_of(value))));
}

/// A string value.
pub fn json_string(s: &str) -> (r: Json)
    ensures
        view_of(r) == JsonView::Str(s@),
{
    Json::Str(s.to_owned())
}

/// Whether two values are the same.
pub fn json_equal(a: &Json, b: &Json) -> (r: bool)
    ensures
        r == (view_of(*a) == view_of(*b)),
    decreases *a,
{
    match (a, b) {
        (Json::Null, Json::Null) => true,
        (Json::Bool(x), Json::Bool(y)) => *x == *y,
        (Json::Number(x), Json::Number(y)) => strings_equal(x.as_str(), y.as_str()),
        (Json::Str(x), Json::Str(y)) => strings_equal(x.as_str(), y.as_str()),
        (Json::Array(xs), Json::Array(ys)) => {
            if xs.len() != ys.len() {
                proof {
                    if view_of(*a) == view_of(*b) {
                        assert(view_of(*a)->Array_0.len() == view_of(*b)->Array_0.len());
                    }
                }
                return false;
            }
            let mut i: usize = 0;
            while i < xs.len()
                invariant
                    *a == Json::Array(*xs),
                    *b == Json::Array(*ys),
                    xs@.len() == ys@.len(),
                    i <= xs@.len(),
                    forall|k: int| 0 <= k < i ==> view_of(#[trigger] xs@[k]) == view_of(ys@[k]),
                decreases xs@.len() - i,
            {
                proof {
                    assert(decreases_to!(*a => (*a)->Array_0));
                    assert(decreases_to!(*xs => xs@));
                    assert(decreases_to!(xs@ => xs@[i as int]));
                }
                if !json_equal(&xs[i], &ys[i]) {
                    proof {
                        assert(view_of(*a)->Array_0[i as int] == view_of(xs@[i as int]));
                        assert(view_of(*b)->Array_0[i as int] == view_of(ys@[i as int]));
                    }
                    return false;
                }
                i += 1;
            }
            proof {
                assert(view_of(*a)->Array_0 =~= view_of(*b)->Array_0);
            }
            true
        },
        (Json::Object(xs), Json::Object(ys)) => {
            if xs.len() != ys.len() {
                proof {
                    if view_of(*a) == view_of(*b) {
                        assert(view_of(*a)->Object_0.len() == view_of(*b)->Object_0.len());
                    }
                }
                return false;
            }
            let mut i: usize = 0;
            while i < xs.len()
                invariant
                    *a == Json::Object(*xs),
                    *b == Json::Object(*ys),
                    xs@.len() == ys@.len(),
                    i <= xs@.len(),
                    forall|k: int|
                        0 <= k < i ==> (#[trigger] xs@[k]).0@ == ys@[k].0@ && view_of(xs@[k].1)
                            == view_of(ys@[k].1),
                decreases xs@.len() - i,
            {
                proof {
                    assert(decreases_to!(*a => (*a)->Object_0));
                    assert(decreases_to!(*xs => xs@));
                    assert(decreases_to!(xs@ => xs@[i as int]));
                    assert(decreases_to!(xs@[i as int] => xs@[i as int].1));
                }
                if !strings_equal(xs[i].0.as_str(), ys[i].0.as_str()) || !json_equal(&xs[i].1, &ys[i].1) {
                    proof {
                        assert(view_of(*a)->Object_0[i as int] == (
                            xs@[i as int].0@,
                            view_of(xs@[i as int].1),
                        ));
                        assert(view_of(*b)->Object_0[i as int] == (
                            ys@[i as int].0@,
                            view_of(ys@[i as int].1),
                        ));
                    }
                    return false;
                }
                i += 1;
            }
            proof {
                assert(view_of(*a)->Object_0 =~= view_of(*b)->Object_0);
            }
            true
        },
        _ => false,
    }
}

} // verus!
