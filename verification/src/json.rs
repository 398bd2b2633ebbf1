//! JSON values.

use vstd::prelude::*;

verus! {

/// A JSON number. A number with a fraction is held as the bits of its binary form.
#[derive(Clone, Copy, Debug, PartialEq, Eq, Structural)]
pub enum JsonNumber {
    /// A whole number from zero on.
    Unsigned(u64),
    /// A negative whole number.
    Negative(i64),
    /// The bits of a 64 bit binary fraction.
    Fraction(u64),
}

/// A JSON value.
#[derive(Debug, PartialEq, Eq)]
pub enum JsonValue {
    /// `null`.
    Null,
    /// A truth value.
    Bool(bool),
    /// A number.
    Number(JsonNumber),
    /// A text.
    Text(String),
    /// A list.
    List(Vec<JsonValue>),
    /// An object: its members, each with its name.
    Object(Vec<(String, JsonValue)>),
}

/// Whether two JSON values have the same content.
pub open spec fn same_value(a: JsonValue, b: JsonValue) -> bool
    decreases a,
{
    match (a, b) {
        (JsonValue::Null, JsonValue::Null) => true,
        (JsonValue::Bool(x), JsonValue::Bool(y)) => x == y,
        (JsonValue::Number(x), JsonValue::Number(y)) => x == y,
        (JsonValue::Text(x), JsonValue::Text(y)) => x@ == y@,
        (JsonValue::List(x), JsonValue::List(y)) => {
            &&& x@.len() == y@.len()
            &&& forall|i: int| #![trigger x@[i]] 0 <= i < x@.len() ==> same_value(x@[i], y@[i])
        },
        (JsonValue::Object(x), JsonValue::Object(y)) => {
            &&& x@.len() == y@.len()
            &&& forall|i: int|
                #![trigger x@[i]]
                0 <= i < x@.len() ==> x@[i].0@ == y@[i].0@ && same_value(x@[i].1, y@[i].1)
        },
        _ => false,
    }
}

impl Clone for JsonValue {
    fn clone(&self) -> (r: Self)
        ensures
            same_value(*self, r),
    {
        self.duplicate()
    }
}

impl JsonValue {
    fn duplicate(&self) -> (r: Self)
        ensures
            same_value(*self, r),
        decreases *self,
    {
        match self {
            JsonValue::Null => JsonValue::Null,
            JsonValue::Bool(b) => JsonValue::Bool(*b),
            JsonValue::Number(n) => JsonValue::Number(*n),
            JsonValue::Text(t) => JsonValue::Text(t.clone()),
            JsonValue::List(items) => {
                let mut out: Vec<JsonValue> = Vec::new();
                let mut i: usize = 0;
                while i < items.len()
                    invariant
                        *self == JsonValue::List(*items),
                        i <= items@.len(),
                        out@.len() == i,
                        forall|j: int|
                            #![trigger items@[j]]
                            0 <= j < i ==> same_value(items@[j], out@[j]),
                    decreases items@.len() - i,
                {
                    proof {
                        assert(decreases_to!(*self => self->List_0));
                        assert(decreases_to!(*items => items@));
                        assert(decreases_to!(items@ => items@[i as int]));
                    }
                    let copy = items[i].duplicate();
                    out.push(copy);
                    i += 1;
                }
                JsonValue::List(out)
            },
            JsonValue::Object(members) => {
                let mut out: Vec<(String, JsonValue)> = Vec::new();
                let mut i: usize = 0;
                while i < members.len()
                    invariant
                        *self == JsonValue::Object(*members),
                        i <= members@.len(),
                        out@.len() == i,
                        forall|j: int|
                            #![trigger members@[j]]
                            0 <= j < i ==> members@[j].0@ == out@[j].0@ && same_value(
                                members@[j].1,
                                out@[j].1,
                            ),
                    decreases members@.len() - i,
                {
                    proof {
                        assert(decreases_to!(*self => self->Object_0));
                        assert(decreases_to!(*members => members@));
                        assert(decreases_to!(members@ => members@[i as int]));
                        assert(decreases_to!(members@[i as int] => members@[i as int].1));
                    }
                    let copy = members[i].1.duplicate();
                    out.push((members[i].0.clone(), copy));
                    i += 1;
                }
                JsonValue::Object(out)
            },
        }
    }

    /// Whether the value is an object.
    pub fn is_object(&self) -> (r: bool)
        ensures
            r == (self is Object),
    {
        matches!(self, JsonValue::Object(_))
    }

}

/// The position of the member with a given name; the number of members where there is none.
pub open spec fn member_index(members: Seq<(String, JsonValue)>, name: Seq<char>) -> int
    decreases members.len(),
{
    if members.len() == 0 || members[0].0@ == name {
        0
    } else {
        1 + member_index(members.drop_first(), name)
    }
}

/// The member of an object with a given name.
pub open spec fn member(value: JsonValue, name: Seq<char>) -> Option<JsonValue> {
    match value {
        JsonValue::Object(members) => {
            let at = member_index(members@, name);
            if at < members@.len() {
                Some(members@[at].1)
            } else {
                None
            }
        },
        _ => None,
    }
}

proof fn lemma_member_index(members: Seq<(String, JsonValue)>, name: Seq<char>, at: int)
    requires
        0 <= at <= members.len(),
        forall|j: int| 0 <= j < at ==> (#[trigger] members[j]).0@ != name,
        at < members.len() ==> members[at].0@ == name,
    ensures
        member_index(members, name) == at,
    decreases members.len(),
{
    if at > 0 {
        assert(members[0int].0@ != name);
        let tail = members.drop_first();
        assert forall|j: int| 0 <= j < at - 1 implies (#[trigger] tail[j]).0@ != name by {
            assert(tail[j] == members[j + 1]);
        }
        lemma_member_index(tail, name, at - 1);
    }
}

/// Returns the member of an object with a given name.
pub fn find_member<'a>(value: &'a JsonValue, name: &str) -> (r: Option<&'a JsonValue>)
    ensures
        match r {
            Some(v) => member(*value, name@) == Some(*v),
            None => member(*value, name@) is None,
        },
{
    match value {
        JsonValue::Object(members) => {
            let mut i: usize = 0;
            while i < members.len()
                invariant
                    *value == JsonValue::Object(*members),
                    i <= members@.len(),
                    forall|j: int| 0 <= j < i ==> (#[trigger] members@[j]).0@ != name@,
                decreases members@.len() - i,
            {
                if crate::text::same(members[i].0.as_str(), name) {
                    proof {
                        lemma_member_index(members@, name@, i as int);
                    }
                    return Some(&members[i].1);
                }
                i += 1;
            }
            proof {
                lemma_member_index(members@, name@, i as int);
            }
            None
        },
        _ => None,
    }
}

} // verus!
