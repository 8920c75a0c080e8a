//! The bodies that come out of an engine: what is read in them, and the rows
//! that they hold.

use crate::bench::check::{maybe_outputs, output, BodyRow, Figure, Output};
use crate::text::same;
use serde_json::Value;
use vstd::prelude::*;

verus! {

/// A member of an object, by what it is as a text and as a number.
#[derive(Debug)]
pub struct Member {
    pub name: String,
    pub text: Option<String>,
    pub figure: Figure,
}

/// A body: its rows where it is an array, and its members where it is an object.
/// A row has members where it is an object.
#[derive(Debug)]
pub struct Body {
    pub rows: Option<Vec<Option<Vec<Member>>>>,
    pub members: Option<Vec<Member>>,
}

/// A member by what it holds.
pub ghost struct Item {
    pub name: Seq<char>,
    pub text: Option<Seq<char>>,
    pub figure: Figure,
}

/// A body by what it holds.
#[verifier::ext_equal]
pub ghost struct Shape {
    pub rows: Option<Seq<Option<Seq<Item>>>>,
    pub members: Option<Seq<Item>>,
}

/// A member by what it holds.
pub open spec fn item(m: Member) -> Item {
    Item {
        name: m.name@,
        text: match m.text {
            Some(t) => Some(t@),
            None => None,
        },
        figure: m.figure,
    }
}

/// Members by what they hold.
pub open spec fn items(v: Seq<Member>) -> Seq<Item> {
    v.map_values(|m: Member| item(m))
}

/// Members by what they hold, where there are any.
pub open spec fn maybe_items(o: Option<Vec<Member>>) -> Option<Seq<Item>> {
    match o {
        Some(v) => Some(items(v@)),
        None => None,
    }
}

/// A body by what it holds; nothing where there is none.
pub open spec fn shape(b: Option<Body>) -> Option<Shape> {
    match b {
        Some(b) => Some(
            Shape {
                rows: match b.rows {
                    Some(rows) => Some(
                        rows@.map_values(|r: Option<Vec<Member>>| maybe_items(r)),
                    ),
                    None => None,
                },
                members: maybe_items(b.members),
            },
        ),
        None => None,
    }
}

/// What `serde_json` reads in a body; nothing where it refuses it.
pub uninterp spec fn json_shape(body: Seq<u8>) -> Option<Shape>;

/// Reads a body through `serde_json::from_slice`; there is none where it fails.
/// Of each value it takes what `Value::as_array`, `Value::as_object`,
/// `Value::as_str`, `Value::as_u64` and `Value::as_f64` say of it. That the same
/// bytes always give the same values is all that is claimed.
#[verifier::external_body]
fn read_body(body: &[u8]) -> (r: Option<Body>)
    ensures
        shape(r) == json_shape(body@),
{
    let member = |(name, v): (&String, &Value)| Member {
        name: name.clone(),
        text: v.as_str().map(String::from),
        figure: Figure { whole: v.as_u64(), bits: v.as_f64().map(|x| x.to_bits()) },
    };
    let members = |v: &Value| v.as_object().map(|all| all.iter().map(member).collect());
    let read = serde_json::from_slice::<Value>(body).ok()?;
    let rows = read.as_array().map(|rows| rows.iter().map(members).collect());
    Some(Body { rows, members: members(&read) })
}

/// The member of a name.
pub open spec fn lookup(v: Seq<Item>, name: Seq<char>) -> Option<Item>
    decreases v.len(),
{
    if v.len() == 0 {
        None
    } else {
        match lookup(v.drop_last(), name) {
            Some(i) => Some(i),
            None => if v.last().name == name {
                Some(v.last())
            } else {
                None
            },
        }
    }
}

/// The text of a member, where it is one.
pub open spec fn text_of(v: Seq<Item>, name: Seq<char>) -> Option<Seq<char>> {
    match lookup(v, name) {
        Some(i) => i.text,
        None => None,
    }
}

/// The number of a member, where it is one.
pub open spec fn figure_of(v: Seq<Item>, name: Seq<char>) -> Figure {
    match lookup(v, name) {
        Some(i) => i.figure,
        None => Figure { whole: None, bits: None },
    }
}

/// The row that members make.
pub open spec fn row_of(v: Seq<Item>) -> Output {
    Output {
        device: text_of(v, "device_id"@),
        s: figure_of(v, "s"@),
        seq: figure_of(v, "seq"@),
        ts: figure_of(v, "ts"@),
        temperature: figure_of(v, "temperature"@),
    }
}

/// The row that members make; where there are none, nothing is known of it.
pub open spec fn maybe_row(o: Option<Seq<Item>>) -> Output {
    match o {
        Some(v) => row_of(v),
        None => row_of(Seq::empty()),
    }
}

/// The rows of a body: those of an array, or the one object. Any other body has
/// none, and neither has one that could not be read.
pub open spec fn rows_in(s: Option<Shape>) -> Option<Seq<Output>> {
    match s {
        Some(b) => match (b.rows, b.members) {
            (Some(rows), _) => Some(rows.map_values(|r: Option<Seq<Item>>| maybe_row(r))),
            (None, Some(members)) => Some(seq![row_of(members)]),
            (None, None) => None,
        },
        None => None,
    }
}

proof fn lemma_found_stays(v: Seq<Item>, name: Seq<char>, k: int)
    requires
        0 <= k <= v.len(),
        lookup(v.take(k), name) is Some,
    ensures
        lookup(v, name) == lookup(v.take(k), name),
    decreases v.len() - k,
{
    if k < v.len() {
        assert(v.take(k + 1).drop_last() =~= v.take(k));
        lemma_found_stays(v, name, k + 1);
    } else {
        assert(v.take(k) =~= v);
    }
}

fn find<'a>(members: &'a Vec<Member>, name: &str) -> (r: Option<&'a Member>)
    ensures
        match r {
            Some(m) => lookup(items(members@), name@) == Some(item(*m)),
            None => lookup(items(members@), name@) is None,
        },
{
    let ghost all = items(members@);
    let mut i: usize = 0;
    assert(all.take(0) =~= Seq::<Item>::empty());
    while i < members.len()
        invariant
            i <= members.len(),
            all == items(members@),
            lookup(all.take(i as int), name@) is None,
        decreases members.len() - i,
    {
        assert(all.take(i + 1).drop_last() =~= all.take(i as int));
        assert(all.take(i + 1).last() == item(members@[i as int]));
        if same(members[i].name.as_str(), name) {
            proof {
                lemma_found_stays(all, name@, i + 1);
            }
            return Some(&members[i]);
        }
        i = i + 1;
    }
    assert(all.take(i as int) =~= all);
    None
}

fn text_at(members: &Vec<Member>, name: &str) -> (r: Option<String>)
    ensures
        match r {
            Some(t) => text_of(items(members@), name@) == Some(t@),
            None => text_of(items(members@), name@) is None,
        },
{
    match find(members, name) {
        Some(m) => match &m.text {
            Some(t) => Some(t.clone()),
            None => None,
        },
        None => None,
    }
}

fn figure_at(members: &Vec<Member>, name: &str) -> (r: Figure)
    ensures
        r == figure_of(items(members@), name@),
{
    match find(members, name) {
        Some(m) => m.figure,
        None => Figure { whole: None, bits: None },
    }
}

fn row_at(members: &Vec<Member>) -> (r: BodyRow)
    ensures
        output(r) == row_of(items(members@)),
{
    BodyRow {
        device_id: text_at(members, "device_id"),
        s: figure_at(members, "s"),
        seq: figure_at(members, "seq"),
        ts: figure_at(members, "ts"),
        temperature: figure_at(members, "temperature"),
    }
}

fn maybe_row_at(members: &Option<Vec<Member>>) -> (r: BodyRow)
    ensures
        output(r) == maybe_row(maybe_items(*members)),
{
    match members {
        Some(v) => row_at(v),
        None => {
            let none: Vec<Member> = Vec::new();
            assert(items(none@) =~= Seq::<Item>::empty());
            row_at(&none)
        },
    }
}

/// Takes the rows out of a body.
pub fn rows_of(body: &Option<Body>) -> (r: Option<Vec<BodyRow>>)
    ensures
        maybe_outputs(r) == rows_in(shape(*body)),
{
    let read: &Body = match body {
        Some(b) => b,
        None => {
            return None;
        },
    };
    match (&read.rows, &read.members) {
        (Some(all), _) => {
            let mut rows: Vec<BodyRow> = Vec::new();
            let mut i: usize = 0;
            while i < all.len()
                invariant
                    i <= all.len(),
                    rows@.len() == i,
                    forall|j: int|
                        0 <= j < i ==> output(#[trigger] rows@[j]) == maybe_row(
                            maybe_items(all@[j]),
                        ),
                decreases all.len() - i,
            {
                rows.push(maybe_row_at(&all[i]));
                i = i + 1;
            }
            assert(crate::bench::check::outputs(rows@) =~= rows_in(shape(*body))->0);
            Some(rows)
        },
        (None, Some(members)) => {
            let mut rows: Vec<BodyRow> = Vec::new();
            rows.push(row_at(members));
            assert(crate::bench::check::outputs(rows@) =~= rows_in(shape(*body))->0);
            Some(rows)
        },
        (None, None) => None,
    }
}

/// The rows of the body of a request.
pub fn body_rows(body: &[u8]) -> (r: Option<Vec<BodyRow>>)
    ensures
        maybe_outputs(r) == rows_in(json_shape(body@)),
{
    let read: Option<Body> = read_body(body);
    rows_of(&read)
}

} // verus!
