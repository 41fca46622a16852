//! The JSON values that cross the tool protocol, held as plain data.
use vstd::prelude::*;

verus! {

/// A JSON number, kept exactly: unsigned and negative integers as such, any
/// other number by its decimal text.
#[derive(Clone, Debug)]
pub enum JsonNumber {
    Unsigned(u64),
    Negative(i64),
    Decimal(String),
}

/// A JSON value. An object keeps its members in order, one per key.
#[derive(Debug)]
pub enum JsonValue {
    Null,
    Bool(bool),
    Number(JsonNumber),
    Str(String),
    Array(Vec<JsonValue>),
    Object(Vec<(String, JsonValue)>),
}

/// The value of the first member of `members` named `key`.
pub open spec fn member(members: Seq<(String, JsonValue)>, key: Seq<char>) -> Option<JsonValue>
    decreases members.len(),
{
    if members.len() == 0 {
        None
    } else if members[0].0@ == key {
        Some(members[0].1)
    } else {
        member(members.drop_first(), key)
    }
}

/// Whether two texts hold the same characters.
pub fn same_text(a: &str, b: &str) -> (r: bool)
    ensures
        r == (a@ == b@),
{
    a.to_owned() == b.to_owned()
}

impl JsonValue {
    /// The member `key` of an object; nothing for any other value.
    pub open spec fn field(self, key: Seq<char>) -> Option<JsonValue> {
        match self {
            JsonValue::Object(members) => member(members@, key),
            _ => None,
        }
    }

    /// The text of a string value.
    pub open spec fn text(self) -> Option<Seq<char>> {
        match self {
            JsonValue::Str(s) => Some(s@),
            _ => None,
        }
    }

    /// Looks up the member `key` of an object.
    pub fn get(&self, key: &str) -> (r: Option<&JsonValue>)
        ensures
            r is Some <==> self.field(key@) is Some,
            r is Some ==> *r.unwrap() == self.field(key@).unwrap(),
    {
        match self {
            JsonValue::Object(members) => {
                let mut i: usize = 0;
                assert(members@.skip(0) =~= members@);
                while i < members.len()
                    invariant
                        i <= members@.len(),
                        self.field(key@) == member(members@, key@),
                        member(members@, key@) == member(members@.skip(i as int), key@),
                    decreases members@.len() - i,
                {
                    assert(members@.skip(i as int).drop_first() =~= members@.skip(i + 1));
                    assert(members@.skip(i as int)[0] == members@[i as int]);
                    if same_text(members[i].0.as_str(), key) {
                        return Some(&members[i].1);
                    }
                    i += 1;
                }
                None
            },
            _ => None,
        }
    }
}

/// The texts of a list of values, one for each.
pub open spec fn texts(vs: Seq<JsonValue>) -> Seq<Option<Seq<char>>> {
    vs.map_values(|v: JsonValue| v.text())
}

/// The texts of a list of literals.
pub open spec fn literal_texts(names: Seq<&str>) -> Seq<Option<Seq<char>>> {
    names.map_values(|t: &str| Some(t@))
}

/// A string value holding `s`.
pub fn json_text(s: &str) -> (r: JsonValue)
    ensures
        r.text() == Some(s@),
{
    JsonValue::Str(s.to_owned())
}

/// An array of string values, one for each of `items`.
pub fn json_texts(items: &[&str]) -> (r: JsonValue)
    ensures
        r matches JsonValue::Array(vs) && texts(vs@) == literal_texts(items@),
{
    let mut vs: Vec<JsonValue> = Vec::new();
    let mut i: usize = 0;
    while i < items.len()
        invariant
            i <= items@.len(),
            texts(vs@) == literal_texts(items@.take(i as int)),
        decreases items@.len() - i,
    {
        let ghost before = vs@;
        vs.push(json_text(items[i]));
        assert(texts(vs@) =~= texts(before).push(Some(items@[i as int]@)));
        assert(items@.take(i + 1) =~= items@.take(i as int).push(items@[i as int]));
        assert(literal_texts(items@.take(i + 1)) =~= literal_texts(items@.take(i as int)).push(Some(items@[i as int]@)));
        i += 1;
    }
    assert(items@.take(i as int) =~= items@);
    JsonValue::Array(vs)
}

/// A member named `key` with value `v`.
pub fn json_member(key: &str, v: JsonValue) -> (r: (String, JsonValue))
    ensures
        r.0@ == key@,
        r.1 == v,
{
    (key.to_owned(), v)
}

/// The text held by an optional string.
pub open spec fn opt_text(o: Option<String>) -> Option<Seq<char>> {
    match o {
        Some(s) => Some(s@),
        None => None,
    }
}

impl JsonValue {
    /// The text of member `key`, where it is a string.
    pub open spec fn text_field(self, key: Seq<char>) -> Option<Seq<char>> {
        match self.field(key) {
            Some(v) => v.text(),
            None => None,
        }
    }

    /// The value of member `key`, where it is a non-negative integer.
    pub open spec fn u64_field(self, key: Seq<char>) -> Option<u64> {
        match self.field(key) {
            Some(JsonValue::Number(JsonNumber::Unsigned(n))) => Some(n),
            _ => None,
        }
    }

    /// The value of member `key`, where it is a boolean.
    pub open spec fn bool_field(self, key: Seq<char>) -> Option<bool> {
        match self.field(key) {
            Some(JsonValue::Bool(b)) => Some(b),
            _ => None,
        }
    }

    /// The text of member `key`, where it is a string.
    pub fn get_text(&self, key: &str) -> (r: Option<String>)
        ensures
            opt_text(r) == self.text_field(key@),
    {
        match self.get(key) {
            Some(JsonValue::Str(s)) => Some(s.clone()),
            _ => None,
        }
    }

    /// The value of member `key`, where it is a non-negative integer.
    pub fn get_u64(&self, key: &str) -> (r: Option<u64>)
        ensures
            r == self.u64_field(key@),
    {
        match self.get(key) {
            Some(JsonValue::Number(JsonNumber::Unsigned(n))) => Some(*n),
            _ => None,
        }
    }

    /// The value of member `key`, where it is a boolean.
    pub fn get_bool(&self, key: &str) -> (r: Option<bool>)
        ensures
            r == self.bool_field(key@),
    {
        match self.get(key) {
            Some(JsonValue::Bool(b)) => Some(*b),
            _ => None,
        }
    }
}

/// The value of the first member named `key`, taken out of `members`.
pub fn take_member(fields: Vec<(String, JsonValue)>, key: &str) -> (r: Option<JsonValue>)
    ensures
        r == member(fields@, key@),
{
    let mut members = fields;
    let ghost all = members@;
    let mut i: usize = 0;
    assert(all.skip(0) =~= all);
    while i < members.len()
        invariant
            members@ == all,
            all == fields@,
            i <= all.len(),
            member(all, key@) == member(all.skip(i as int), key@),
        decreases all.len() - i,
    {
        assert(all.skip(i as int).drop_first() =~= all.skip(i + 1));
        assert(all.skip(i as int)[0] == all[i as int]);
        if same_text(members[i].0.as_str(), key) {
            let pair = members.remove(i);
            assert(pair == all[i as int]);
            assert(member(all.skip(i as int), key@) == Some(all[i as int].1));
            return Some(pair.1);
        }
        i += 1;
    }
    None
}

impl JsonValue {
    /// The member `key` of an object, taken out of it.
    pub fn take(self, key: &str) -> (r: Option<JsonValue>)
        ensures
            r == self.field(key@),
    {
        match self {
            JsonValue::Object(members) => take_member(members, key),
            _ => None,
        }
    }
}

} // verus!
