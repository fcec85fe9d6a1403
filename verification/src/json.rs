//! JSON values as a plain tree.

use crate::lists::map_push;
use crate::numeric::Real;
use crate::text::{decimal, decimal_text, decimal_wide, natural, read_natural, same};
use vstd::prelude::*;

verus! {

#[derive(Debug, PartialEq)]
pub enum Json {
    Null,
    Bool(bool),
    /// A number as it is written.
    Number(String),
    /// A single-precision number.
    Single(Real),
    Text(String),
    List(Vec<Json>),
    /// Members in order; of two with one name the later one counts.
    Object(Vec<(String, Json)>),
}

/// What a JSON value says.
pub enum JsonModel {
    Null,
    Bool(bool),
    Number(Seq<char>),
    Single(Real),
    Text(Seq<char>),
    List(Seq<JsonModel>),
    Object(Seq<(Seq<char>, JsonModel)>),
}

impl View for Json {
    type V = JsonModel;

    open spec fn view(&self) -> JsonModel {
        model_of(*self)
    }
}

pub open spec fn model_of(j: Json) -> JsonModel
    decreases j,
{
    match j {
        Json::Null => JsonModel::Null,
        Json::Bool(b) => JsonModel::Bool(b),
        Json::Number(n) => JsonModel::Number(n@),
        Json::Single(x) => JsonModel::Single(x),
        Json::Text(t) => JsonModel::Text(t@),
        Json::List(items) => JsonModel::List(
            Seq::new(
                items@.len(),
                |i: int|
                    if 0 <= i < items@.len() {
                        model_of(items@[i])
                    } else {
                        JsonModel::Null
                    },
            ),
        ),
        Json::Object(members) => JsonModel::Object(
            Seq::new(
                members@.len(),
                |i: int|
                    if 0 <= i < members@.len() {
                        (members@[i].0@, model_of(members@[i].1))
                    } else {
                        (Seq::empty(), JsonModel::Null)
                    },
            ),
        ),
    }
}

pub open spec fn item_views(s: Seq<Json>) -> Seq<JsonModel> {
    s.map_values(|j: Json| j@)
}

pub open spec fn member_views(s: Seq<(String, Json)>) -> Seq<(Seq<char>, JsonModel)> {
    s.map_values(|m: (String, Json)| (m.0@, m.1@))
}

/// The value of the last member with a name.
pub open spec fn last_member(ms: Seq<(Seq<char>, JsonModel)>, name: Seq<char>) -> Option<JsonModel>
    decreases ms.len(),
{
    if ms.len() == 0 {
        None
    } else if ms.last().0 == name {
        Some(ms.last().1)
    } else {
        last_member(ms.drop_last(), name)
    }
}

impl JsonModel {
    /// The member of an object that has a name; none in anything else.
    pub open spec fn member(self, name: Seq<char>) -> Option<JsonModel> {
        match self {
            JsonModel::Object(ms) => last_member(ms, name),
            _ => None,
        }
    }

    pub open spec fn text(self) -> Option<Seq<char>> {
        match self {
            JsonModel::Text(t) => Some(t),
            _ => None,
        }
    }

    pub open spec fn flag(self) -> Option<bool> {
        match self {
            JsonModel::Bool(b) => Some(b),
            _ => None,
        }
    }

    pub open spec fn items(self) -> Option<Seq<JsonModel>> {
        match self {
            JsonModel::List(s) => Some(s),
            _ => None,
        }
    }

    /// A number without sign, fraction or exponent that 64 bits hold.
    pub open spec fn whole(self) -> Option<nat> {
        match self {
            JsonModel::Number(n) => natural(n, u64::MAX as nat),
            _ => None,
        }
    }
}

/// A member of an optional value.
pub open spec fn member_of(o: Option<JsonModel>, name: Seq<char>) -> Option<JsonModel> {
    match o {
        Some(j) => j.member(name),
        None => None,
    }
}

pub open spec fn seen(o: Option<&Json>) -> Option<JsonModel> {
    match o {
        Some(j) => Some(j@),
        None => None,
    }
}

impl Json {
    pub fn string(s: &str) -> (r: Json)
        ensures
            r@ == JsonModel::Text(s@),
    {
        Json::Text(s.to_owned())
    }

    pub fn whole(n: u64) -> (r: Json)
        ensures
            r@ == JsonModel::Number(decimal_text(n as nat)),
    {
        Json::Number(decimal(n))
    }

    pub fn count(n: u128) -> (r: Json)
        ensures
            r@ == JsonModel::Number(decimal_text(n as nat)),
    {
        Json::Number(decimal_wide(n))
    }

    pub fn list(items: Vec<Json>) -> (r: Json)
        ensures
            r@ == JsonModel::List(item_views(items@)),
    {
        let r = Json::List(items);
        assert(r@->List_0 =~= item_views(items@));
        r
    }

    pub fn object(members: Vec<(String, Json)>) -> (r: Json)
        ensures
            r@ == JsonModel::Object(member_views(members@)),
    {
        let r = Json::Object(members);
        assert(r@->Object_0 =~= member_views(members@));
        r
    }

    /// The member with a name, where this is an object that has one.
    pub fn get(&self, name: &str) -> (r: Option<&Json>)
        ensures
            seen(r) == self@.member(name@),
    {
        if let Json::Object(members) = self {
            let ghost ms = member_views(members@);
            assert(self@->Object_0 =~= ms);
            let mut i: usize = members.len();
            assert(ms.take(ms.len() as int) =~= ms);
            while i > 0
                invariant
                    i <= members.len(),
                    ms == member_views(members@),
                    self@ == JsonModel::Object(ms),
                    last_member(ms, name@) == last_member(ms.take(i as int), name@),
                decreases i,
            {
                i -= 1;
                assert(ms.take(i as int + 1).drop_last() =~= ms.take(i as int));
                assert(ms.take(i as int + 1).last() == (members@[i as int].0@, members@[i as int].1@));
                if same(&members[i].0, name) {
                    return Some(&members[i].1);
                }
            }
            None
        } else {
            None
        }
    }

    pub fn as_str(&self) -> (r: Option<&str>)
        ensures
            match r {
                Some(s) => self@.text() == Some(s@),
                None => self@.text() is None,
            },
    {
        match self {
            Json::Text(t) => Some(t.as_str()),
            _ => None,
        }
    }

    pub fn as_bool(&self) -> (r: Option<bool>)
        ensures
            r == self@.flag(),
    {
        match self {
            Json::Bool(b) => Some(*b),
            _ => None,
        }
    }

    pub fn as_array(&self) -> (r: Option<&Vec<Json>>)
        ensures
            match r {
                Some(v) => self@.items() == Some(item_views(v@)),
                None => self@.items() is None,
            },
    {
        match self {
            Json::List(v) => {
                assert(self@->List_0 =~= item_views(v@));
                Some(v)
            },
            _ => None,
        }
    }

    pub fn as_u64(&self) -> (r: Option<u64>)
        ensures
            match r {
                Some(n) => self@.whole() == Some(n as nat),
                None => self@.whole() is None,
            },
    {
        match self {
            Json::Number(n) => read_natural(n, u64::MAX),
            _ => None,
        }
    }
}

/// Adds a member at the end of an object's list.
pub fn put(members: &mut Vec<(String, Json)>, name: &str, value: Json)
    ensures
        member_views(final(members)@) == member_views(old(members)@).push((name@, value@)),
{
    let m = (name.to_owned(), value);
    proof {
        map_push(members@, m, |x: (String, Json)| (x.0@, x.1@));
    }
    members.push(m);
}

/// Adds an item at the end of a list.
pub fn put_item(items: &mut Vec<Json>, value: Json)
    ensures
        item_views(final(items)@) == item_views(old(items)@).push(value@),
{
    proof {
        map_push(items@, value, |x: Json| x@);
    }
    items.push(value);
}

} // verus!
