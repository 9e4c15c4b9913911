//! A plain model of the JSON values that tracker records carry in their
//! custom-field areas.

use vstd::prelude::*;

verus! {

/// One JSON value. Objects keep their members in order; a lookup takes the
/// first member under a key.
pub enum JsonValue {
    Null,
    Bool(bool),
    Number(String),
    Str(String),
    Array(Vec<JsonValue>),
    Object(Vec<(String, JsonValue)>),
}

/// The first member of `members` whose key is `key`.
pub open spec fn member_lookup(members: Seq<(String, JsonValue)>, key: Seq<char>) -> Option<
    JsonValue,
>
    decreases members.len(),
{
    if members.len() == 0 {
        None
    } else {
        let earlier = member_lookup(members.drop_last(), key);
        if earlier is Some {
            earlier
        } else if members.last().0@ == key {
            Some(members.last().1)
        } else {
            None
        }
    }
}

impl JsonValue {
    /// The member under `key`, where this value is an object that has one.
    pub open spec fn spec_get(&self, key: Seq<char>) -> Option<JsonValue> {
        match self {
            JsonValue::Object(members) => member_lookup(members@, key),
            _ => None,
        }
    }

    /// The text of a string value.
    pub open spec fn spec_str(&self) -> Option<Seq<char>> {
        match self {
            JsonValue::Str(s) => Some(s@),
            _ => None,
        }
    }

    /// Looks up the member under `key` of an object; `None` for any other value.
    pub fn get(&self, key: &String) -> (r: Option<&JsonValue>)
        ensures
            r is Some <==> self.spec_get(key@) is Some,
            r is Some ==> *r->0 == self.spec_get(key@)->0,
    {
        match self {
            JsonValue::Object(members) => {
                let mut found: Option<&JsonValue> = None;
                let mut i: usize = 0;
                while i < members.len()
                    invariant
                        i <= members@.len(),
                        found is Some <==> member_lookup(members@.take(i as int), key@) is Some,
                        found is Some ==> *found->0 == member_lookup(
                            members@.take(i as int),
                            key@,
                        )->0,
                    decreases members@.len() - i,
                {
                    assert(members@.take(i + 1).drop_last() =~= members@.take(i as int));
                    if found.is_none() && members[i].0 == *key {
                        found = Some(&members[i].1);
                    }
                    i = i + 1;
                }
                assert(members@.take(members@.len() as int) =~= members@);
                found
            },
            _ => None,
        }
    }

    /// The text of a string value; `None` for any other value.
    pub fn as_str(&self) -> (r: Option<&String>)
        ensures
            r is Some <==> self.spec_str() is Some,
            r is Some ==> r->0@ == self.spec_str()->0,
    {
        match self {
            JsonValue::Str(s) => Some(s),
            _ => None,
        }
    }
}

} // verus!
