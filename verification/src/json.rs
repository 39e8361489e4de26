//! JSON values as the proxy reads and builds them.
//!
//! A number keeps the three shapes a JSON parser tells apart: a non-negative
//! integer, a negative integer, and any other number, which is carried as the
//! bits of its double-precision form and never inspected.

use vstd::prelude::*;

verus! {

/// One member of a JSON object.
#[derive(Debug)]
pub struct JsonMember {
    pub key: String,
    pub value: Json,
}

/// A JSON value.
#[derive(Debug)]
pub enum Json {
    Null,
    Bool(bool),
    /// An integer that is zero or more.
    PosInt(u64),
    /// An integer below zero.
    NegInt(i64),
    /// A number that is not an integer, as the bits of a double.
    Float(u64),
    String(String),
    Array(Vec<Json>),
    /// The members in the order they are written; `get` finds the first of a
    /// given key.
    Object(Vec<JsonMember>),
}

/// What a JSON value is, apart from how it is stored.
pub ghost enum JsonModel {
    Null,
    Bool(bool),
    PosInt(u64),
    NegInt(i64),
    Float(u64),
    String(Seq<char>),
    Array(Seq<JsonModel>),
    Object(Seq<(Seq<char>, JsonModel)>),
}

impl View for Json {
    type V = JsonModel;

    open spec fn view(&self) -> JsonModel
        decreases self,
    {
        match self {
            Json::Null => JsonModel::Null,
            Json::Bool(b) => JsonModel::Bool(*b),
            Json::PosInt(n) => JsonModel::PosInt(*n),
            Json::NegInt(n) => JsonModel::NegInt(*n),
            Json::Float(bits) => JsonModel::Float(*bits),
            Json::String(s) => JsonModel::String(s@),
            Json::Array(items) => JsonModel::Array(models(items@)),
            Json::Object(members) => JsonModel::Object(member_models(members@)),
        }
    }
}

/// The models of a run of values, item by item.
pub open spec fn models(items: Seq<Json>) -> Seq<JsonModel>
    decreases items,
{
    if items.len() == 0 {
        Seq::empty()
    } else {
        models(items.drop_last()).push(items.last()@)
    }
}

/// The models of a run of members, each with its key.
pub open spec fn member_models(members: Seq<JsonMember>) -> Seq<(Seq<char>, JsonModel)>
    decreases members,
{
    if members.len() == 0 {
        Seq::empty()
    } else {
        member_models(members.drop_last()).push((members.last().key@, members.last().value@))
    }
}

/// The model of a run has one entry for each value, in order.
pub proof fn lemma_models(items: Seq<Json>)
    ensures
        models(items).len() == items.len(),
        forall|i: int| 0 <= i < items.len() ==> (#[trigger] models(items)[i]) == items[i]@,
    decreases items.len(),
{
    if items.len() > 0 {
        lemma_models(items.drop_last());
        assert(models(items) == models(items.drop_last()).push(items.last()@));
    } else {
        assert(models(items) == Seq::<JsonModel>::empty());
    }
}

/// The model of a run of members has one entry for each member, in order.
pub proof fn lemma_member_models(members: Seq<JsonMember>)
    ensures
        member_models(members).len() == members.len(),
        forall|i: int|
            0 <= i < members.len() ==> (#[trigger] member_models(members)[i]) == (
                members[i].key@,
                members[i].value@,
            ),
    decreases members.len(),
{
    if members.len() > 0 {
        lemma_member_models(members.drop_last());
        assert(member_models(members) == member_models(members.drop_last()).push(
            (members.last().key@, members.last().value@),
        ));
    } else {
        assert(member_models(members) == Seq::<(Seq<char>, JsonModel)>::empty());
    }
}

/// The model of the integer `n`.
pub open spec fn integer_model(n: i64) -> JsonModel {
    if n >= 0 {
        JsonModel::PosInt(n as u64)
    } else {
        JsonModel::NegInt(n)
    }
}

/// The value of the first member named `key` among `members[from..]`.
pub open spec fn first_member(
    members: Seq<(Seq<char>, JsonModel)>,
    key: Seq<char>,
    from: int,
) -> Option<JsonModel>
    decreases members.len() - from,
{
    if from < 0 || from >= members.len() {
        None
    } else if members[from].0 == key {
        Some(members[from].1)
    } else {
        first_member(members, key, from + 1)
    }
}

impl JsonModel {
    /// The member named `key` of an object; `None` for a missing key and for
    /// every value that is not an object.
    pub open spec fn member(self, key: Seq<char>) -> Option<JsonModel> {
        match self {
            JsonModel::Object(members) => first_member(members, key, 0),
            _ => None,
        }
    }

    /// The text of a string value.
    pub open spec fn as_str(self) -> Option<Seq<char>> {
        match self {
            JsonModel::String(s) => Some(s),
            _ => None,
        }
    }

    /// The number, where it is an integer that fits a signed 64-bit word.
    pub open spec fn as_i64(self) -> Option<i64> {
        match self {
            JsonModel::PosInt(n) => if n <= i64::MAX {
                Some(n as i64)
            } else {
                None
            },
            JsonModel::NegInt(n) => Some(n),
            _ => None,
        }
    }

    /// The number, where it is an integer that is zero or more.
    pub open spec fn as_u64(self) -> Option<u64> {
        match self {
            JsonModel::PosInt(n) => Some(n),
            _ => None,
        }
    }

    /// The items of an array value.
    pub open spec fn as_array(self) -> Option<Seq<JsonModel>> {
        match self {
            JsonModel::Array(items) => Some(items),
            _ => None,
        }
    }
}

impl JsonMember {
    /// The member `key`: `value`.
    pub fn new(key: &str, value: Json) -> (member: JsonMember)
        ensures
            member.key@ == key@,
            member.value == value,
    {
        JsonMember { key: key.to_string(), value }
    }
}

impl Json {
    /// The string value `text`.
    pub fn string(text: &str) -> (value: Json)
        ensures
            value@ == JsonModel::String(text@),
    {
        Json::String(text.to_string())
    }

    /// The object with the members `members`, in that order.
    pub fn object(members: Vec<JsonMember>) -> (value: Json)
        ensures
            value@ == JsonModel::Object(member_models(members@)),
    {
        Json::Object(members)
    }

    /// The array of `items`.
    pub fn array(items: Vec<Json>) -> (value: Json)
        ensures
            value@ == JsonModel::Array(models(items@)),
    {
        Json::Array(items)
    }

    /// The integer `n`.
    pub fn integer(n: i64) -> (value: Json)
        ensures
            value@ == integer_model(n),
            value@.as_i64() == Some(n),
    {
        if n >= 0 {
            Json::PosInt(n as u64)
        } else {
            Json::NegInt(n)
        }
    }

    /// The member named `key`, where this is an object that has one.
    pub fn get(&self, key: &str) -> (found: Option<&Json>)
        ensures
            match found {
                Some(value) => self@.member(key@) == Some(value@),
                None => self@.member(key@) is None,
            },
    {
        match self {
            Json::Object(members) => {
                proof {
                    lemma_member_models(members@);
                }
                let wanted: String = key.to_string();
                let ghost all = member_models(members@);
                let mut i: usize = 0;
                while i < members.len()
                    invariant
                        0 <= i <= members.len(),
                        wanted@ == key@,
                        all == member_models(members@),
                        self@ == JsonModel::Object(all),
                        first_member(all, key@, 0) == first_member(all, key@, i as int),
                    decreases members.len() - i,
                {
                    proof {
                        lemma_member_models(members@);
                        assert(all[i as int] == (members@[i as int].key@, members@[i as int].value@));
                    }
                    if members[i].key == wanted {
                        return Some(&members[i].value);
                    }
                    i = i + 1;
                }
                proof {
                    lemma_member_models(members@);
                }
                None
            },
            _ => None,
        }
    }

    /// The text, where this is a string.
    pub fn as_str(&self) -> (text: Option<&str>)
        ensures
            match text {
                Some(s) => self@.as_str() == Some(s@),
                None => self@.as_str() is None,
            },
    {
        match self {
            Json::String(s) => Some(s.as_str()),
            _ => None,
        }
    }

    /// The number as a signed integer, where it is an integer in that range.
    pub fn as_i64(&self) -> (number: Option<i64>)
        ensures
            number == self@.as_i64(),
    {
        match self {
            Json::PosInt(n) => if *n <= 0x7fff_ffff_ffff_ffff {
                Some(*n as i64)
            } else {
                None
            },
            Json::NegInt(n) => Some(*n),
            _ => None,
        }
    }

    /// The number as an unsigned integer, where it is an integer of zero or
    /// more.
    pub fn as_u64(&self) -> (number: Option<u64>)
        ensures
            number == self@.as_u64(),
    {
        match self {
            Json::PosInt(n) => Some(*n),
            _ => None,
        }
    }

    /// The items, where this is an array.
    pub fn as_array(&self) -> (items: Option<&Vec<Json>>)
        ensures
            match items {
                Some(v) => self@.as_array() == Some(models(v@)),
                None => self@.as_array() is None,
            },
    {
        match self {
            Json::Array(items) => {
                Some(items)
            },
            _ => None,
        }
    }
}


impl Clone for Json {
    /// A copy that denotes the same JSON value.
    fn clone(&self) -> (copy: Json)
        ensures
            copy@ == self@,
        decreases self,
    {
        match self {
            Json::Null => Json::Null,
            Json::Bool(b) => Json::Bool(*b),
            Json::PosInt(n) => Json::PosInt(*n),
            Json::NegInt(n) => Json::NegInt(*n),
            Json::Float(bits) => Json::Float(*bits),
            Json::String(s) => Json::String(s.clone()),
            Json::Array(items) => {
                let mut out: Vec<Json> = Vec::new();
                let mut i: usize = 0;
                while i < items.len()
                    invariant
                        0 <= i <= items.len(),
                        *self == Json::Array(*items),
                        out@.len() == i,
                        forall|j: int| 0 <= j < i ==> out@[j]@ == items@[j]@,
                    decreases items.len() - i,
                {
                    assert(decreases_to!(self => items[i as int])) by {
                        assert(decreases_to!(*items => items[i as int]));
                        assert(self->Array_0 == *items);
                        assert(decreases_to!(*self => self->Array_0));
                    }
                    let item: Json = items[i].clone();
                    out.push(item);
                    i = i + 1;
                }
                proof {
                    lemma_models(out@);
                    lemma_models(items@);
                    assert(models(out@) =~= models(items@));
                }
                Json::Array(out)
            },
            Json::Object(members) => {
                let mut out: Vec<JsonMember> = Vec::new();
                let mut i: usize = 0;
                while i < members.len()
                    invariant
                        0 <= i <= members.len(),
                        *self == Json::Object(*members),
                        out@.len() == i,
                        forall|j: int|
                            0 <= j < i ==> out@[j].key@ == members@[j].key@ && out@[j].value@
                                == members@[j].value@,
                    decreases members.len() - i,
                {
                    let key: String = members[i].key.clone();
                    assert(decreases_to!(self => members[i as int].value)) by {
                        assert(decreases_to!(*members => members[i as int]));
                        assert(self->Object_0 == *members);
                        assert(decreases_to!(*self => self->Object_0));
                        assert(decreases_to!(members[i as int] => members[i as int].value));
                    }
                    let value: Json = members[i].value.clone();
                    out.push(JsonMember { key, value });
                    i = i + 1;
                }
                proof {
                    lemma_member_models(out@);
                    lemma_member_models(members@);
                    assert(member_models(out@) =~= member_models(members@));
                }
                Json::Object(out)
            },
        }
    }
}

} // verus!
