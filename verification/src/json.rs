//! Plain model of the JSON values the connector sends.
//!
//! Arrays and objects are kept as linked lists so that a copy of a value is
//! equal to it; objects keep their members in order, and a member is found by
//! the first key that matches, as `serde_json::Value::get` finds the single
//! member of a map.  Numbers are kept as their text.

use vstd::prelude::*;
use crate::text::{owned, str_eq, trim, trim_str};

verus! {

/// A JSON value.
#[derive(Debug)]
pub enum JsonValue {
    /// `null`.
    Null,
    /// `true` or `false`.
    Bool(bool),
    /// A number, as written.
    Number(String),
    /// A string.
    Str(String),
    /// An array.
    Array(JsonList),
    /// An object.
    Object(JsonMembers),
}

/// The elements of an array.
#[derive(Debug)]
pub enum JsonList {
    /// No more elements.
    Nil,
    /// One element followed by the rest.
    Cons(Box<JsonValue>, Box<JsonList>),
}

/// The members of an object, in order.
#[derive(Debug)]
pub enum JsonMembers {
    /// No more members.
    Nil,
    /// One member (key and value) followed by the rest.
    Cons(String, Box<JsonValue>, Box<JsonMembers>),
}

/// The value of the first member named `key`.
pub open spec fn lookup(members: JsonMembers, key: Seq<char>) -> Option<JsonValue>
    decreases members,
{
    match members {
        JsonMembers::Nil => None,
        JsonMembers::Cons(k, v, rest) => if k@ == key {
            Some(*v)
        } else {
            lookup(*rest, key)
        },
    }
}

/// The elements of an array, in order.
pub open spec fn elements(list: JsonList) -> Seq<JsonValue>
    decreases list,
{
    match list {
        JsonList::Nil => Seq::empty(),
        JsonList::Cons(v, rest) => seq![*v] + elements(*rest),
    }
}

/// `value.get(key)`: the member of an object; `None` for any other value.
pub open spec fn json_get(value: JsonValue, key: Seq<char>) -> Option<JsonValue> {
    match value {
        JsonValue::Object(members) => lookup(members, key),
        _ => None,
    }
}

/// `value.as_str()`.
pub open spec fn as_str(value: Option<JsonValue>) -> Option<Seq<char>> {
    match value {
        Some(JsonValue::Str(s)) => Some(s@),
        _ => None,
    }
}

/// `value.get(key).and_then(Value::as_str)`.
pub open spec fn field_str(value: JsonValue, key: Seq<char>) -> Option<Seq<char>> {
    as_str(json_get(value, key))
}

/// `value.get(key).and_then(Value::as_array)`: the elements of an array
/// member.
pub open spec fn field_array(value: JsonValue, key: Seq<char>) -> Option<Seq<JsonValue>> {
    match json_get(value, key) {
        Some(JsonValue::Array(list)) => Some(elements(list)),
        _ => None,
    }
}

/// The first of `keys` whose member is a string, with that string.
pub open spec fn first_str(value: JsonValue, keys: Seq<Seq<char>>) -> Option<Seq<char>>
    decreases keys.len(),
{
    if keys.len() == 0 {
        None
    } else {
        match field_str(value, keys[0]) {
            Some(s) => Some(s),
            None => first_str(value, keys.drop_first()),
        }
    }
}

/// The first of `keys` whose member is a string that is not blank, trimmed.
pub open spec fn first_trimmed(value: JsonValue, keys: Seq<Seq<char>>) -> Option<Seq<char>>
    decreases keys.len(),
{
    if keys.len() == 0 {
        None
    } else {
        match field_str(value, keys[0]) {
            Some(s) => if trim(s).len() > 0 {
                Some(trim(s))
            } else {
                first_trimmed(value, keys.drop_first())
            },
            None => first_trimmed(value, keys.drop_first()),
        }
    }
}

/// Views of a list of string slices.
pub open spec fn key_views(keys: Seq<&str>) -> Seq<Seq<char>> {
    keys.map_values(|k: &str| k@)
}

/// Views of an optional string.
pub open spec fn opt_str(o: Option<String>) -> Option<Seq<char>> {
    match o {
        Some(s) => Some(s@),
        None => None,
    }
}

impl JsonValue {
    /// A duplicate of this value, equal to it.
    pub fn duplicate(&self) -> (r: JsonValue)
        ensures
            r == *self,
        decreases self, 0nat,
    {
        match self {
            JsonValue::Null => JsonValue::Null,
            JsonValue::Bool(b) => JsonValue::Bool(*b),
            JsonValue::Number(n) => JsonValue::Number(n.clone()),
            JsonValue::Str(s) => JsonValue::Str(s.clone()),
            JsonValue::Array(items) => JsonValue::Array(items.duplicate()),
            JsonValue::Object(members) => JsonValue::Object(members.duplicate()),
        }
    }

    /// An array holding `items` in order.
    pub fn array(items: Vec<JsonValue>) -> (r: JsonValue)
        ensures
            r matches JsonValue::Array(list) && elements(list) == items@,
    {
        let mut items = items;
        let ghost all = items@;
        let mut list = JsonList::Nil;
        while items.len() > 0
            invariant
                all == items@ + elements(list),
            decreases items.len(),
        {
            let ghost before = items@;
            let v = items.pop().unwrap();
            proof {
                assert(before == items@.push(v));
            }
            list = JsonList::Cons(Box::new(v), Box::new(list));
            proof {
                assert(elements(list) == seq![v] + elements(*list_tail(list)));
                assert(all =~= items@ + elements(list));
            }
        }
        proof {
            assert(all =~= elements(list));
        }
        JsonValue::Array(list)
    }

    /// An object holding `members` in order.
    pub fn object(members: Vec<(String, JsonValue)>) -> (r: JsonValue)
        ensures
            r matches JsonValue::Object(m) && forall|key: Seq<char>|
                #![trigger lookup(m, key)]
                lookup(m, key) == first_member(members@, key),
    {
        let mut members = members;
        let ghost all = members@;
        let mut list = JsonMembers::Nil;
        while members.len() > 0
            invariant
                forall|key: Seq<char>|
                    #![trigger first_member(all, key)]
                    first_member(all, key) == match first_member(members@, key) {
                        Some(v) => Some(v),
                        None => lookup(list, key),
                    },
            decreases members.len(),
        {
            let ghost before = members@;
            let (k, v) = members.pop().unwrap();
            proof {
                assert(before == members@.push((k, v)));
                assert forall|key: Seq<char>|
                    #![trigger first_member(before, key)]
                    first_member(before, key) == match first_member(members@, key) {
                        Some(w) => Some(w),
                        None => if k@ == key {
                            Some(v)
                        } else {
                            None
                        },
                    } by {
                    lemma_first_member_push(members@, k, v, key);
                }
            }
            list = JsonMembers::Cons(k, Box::new(v), Box::new(list));
        }
        proof {
            assert forall|key: Seq<char>| #[trigger] lookup(list, key) == first_member(all, key) by {
                assert(first_member(members@, key) is None);
            }
        }
        JsonValue::Object(list)
    }
}

/// The tail of a non-empty list.
pub open spec fn list_tail(list: JsonList) -> Box<JsonList> {
    match list {
        JsonList::Cons(_, rest) => rest,
        JsonList::Nil => Box::new(JsonList::Nil),
    }
}

/// The value of the first pair named `key`.
pub open spec fn first_member(members: Seq<(String, JsonValue)>, key: Seq<char>) -> Option<
    JsonValue,
>
    decreases members.len(),
{
    if members.len() == 0 {
        None
    } else if members[0].0@ == key {
        Some(members[0].1)
    } else {
        first_member(members.drop_first(), key)
    }
}

proof fn lemma_first_member_push(
    members: Seq<(String, JsonValue)>,
    k: String,
    v: JsonValue,
    key: Seq<char>,
)
    ensures
        first_member(members.push((k, v)), key) == match first_member(members, key) {
            Some(w) => Some(w),
            None => if k@ == key {
                Some(v)
            } else {
                None
            },
        },
    decreases members.len(),
{
    if members.len() > 0 {
        assert(members.push((k, v))[0] == members[0]);
        assert(members.push((k, v)).drop_first() =~= members.drop_first().push((k, v)));
        lemma_first_member_push(members.drop_first(), k, v, key);
    } else {
        assert(members.push((k, v)).drop_first() =~= Seq::<(String, JsonValue)>::empty());
        assert(first_member(Seq::<(String, JsonValue)>::empty(), key) is None);
        assert(members.push((k, v))[0] == (k, v));
    }
}

impl JsonList {
    /// A duplicate of these elements, equal to them.
    pub fn duplicate(&self) -> (r: JsonList)
        ensures
            r == *self,
        decreases self, 0nat,
    {
        match self {
            JsonList::Nil => JsonList::Nil,
            JsonList::Cons(v, rest) => JsonList::Cons(
                Box::new((**v).duplicate()),
                Box::new((**rest).duplicate()),
            ),
        }
    }
}

impl JsonMembers {
    /// A duplicate of these members, equal to them.
    pub fn duplicate(&self) -> (r: JsonMembers)
        ensures
            r == *self,
        decreases self, 0nat,
    {
        match self {
            JsonMembers::Nil => JsonMembers::Nil,
            JsonMembers::Cons(k, v, rest) => JsonMembers::Cons(
                k.clone(),
                Box::new((**v).duplicate()),
                Box::new((**rest).duplicate()),
            ),
        }
    }
}

/// `value.get(key)`.
pub fn get<'a>(value: &'a JsonValue, key: &str) -> (r: Option<&'a JsonValue>)
    ensures
        match r {
            Some(v) => json_get(*value, key@) == Some(*v),
            None => json_get(*value, key@) is None,
        },
{
    match value {
        JsonValue::Object(members) => {
            let mut cur: &JsonMembers = members;
            loop
                invariant
                    json_get(*value, key@) == lookup(*cur, key@),
                decreases *cur,
            {
                match cur {
                    JsonMembers::Nil => {
                        return None;
                    },
                    JsonMembers::Cons(k, v, rest) => {
                        if str_eq(k.as_str(), key) {
                            return Some(&**v);
                        }
                        cur = &**rest;
                    },
                }
            }
        },
        _ => None,
    }
}

/// `value.get(key).and_then(Value::as_str)`.
pub fn get_str<'a>(value: &'a JsonValue, key: &str) -> (r: Option<&'a str>)
    ensures
        match r {
            Some(s) => field_str(*value, key@) == Some(s@),
            None => field_str(*value, key@) is None,
        },
{
    match get(value, key) {
        Some(JsonValue::Str(s)) => Some(s.as_str()),
        _ => None,
    }
}

/// The first of `keys` whose member is a string, copied.
pub fn first_string(value: &JsonValue, keys: &Vec<&str>) -> (r: Option<String>)
    ensures
        opt_str(r) == first_str(*value, key_views(keys@)),
{
    let ghost ks = key_views(keys@);
    let mut i: usize = 0;
    assert(ks.skip(0) =~= ks);
    while i < keys.len()
        invariant
            i <= keys@.len(),
            ks == key_views(keys@),
            first_str(*value, ks) == first_str(*value, ks.skip(i as int)),
        decreases keys.len() - i,
    {
        proof {
            assert(ks.skip(i as int).drop_first() =~= ks.skip(i + 1));
            assert(ks.skip(i as int)[0] == keys@[i as int]@);
        }
        if let Some(s) = get_str(value, keys[i]) {
            return Some(owned(s));
        }
        i = i + 1;
    }
    None
}

/// The first of `keys` whose member is a non-blank string, trimmed.
pub fn first_trimmed_string(value: &JsonValue, keys: &Vec<&str>) -> (r: Option<String>)
    ensures
        opt_str(r) == first_trimmed(*value, key_views(keys@)),
{
    let ghost ks = key_views(keys@);
    let mut i: usize = 0;
    assert(ks.skip(0) =~= ks);
    while i < keys.len()
        invariant
            i <= keys@.len(),
            ks == key_views(keys@),
            first_trimmed(*value, ks) == first_trimmed(*value, ks.skip(i as int)),
        decreases keys.len() - i,
    {
        proof {
            assert(ks.skip(i as int).drop_first() =~= ks.skip(i + 1));
            assert(ks.skip(i as int)[0] == keys@[i as int]@);
        }
        if let Some(s) = get_str(value, keys[i]) {
            let t = trim_str(s);
            if !t.as_str().is_empty() {
                return Some(t);
            }
        }
        i = i + 1;
    }
    None
}

} // verus!
