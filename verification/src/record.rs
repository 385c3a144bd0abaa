//! Generic records: tree-shaped values as a parsed JSON document has them.

use crate::text::text_eq;
use vstd::prelude::*;

verus! {

/// A JSON number. A float is held by the bit pattern of its 64-bit IEEE 754
/// representation, so that the library never computes with it.
#[derive(Clone, Copy, Debug, PartialEq, Eq)]
pub enum Number {
    /// A non-negative integer.
    PosInt(u64),
    /// A negative integer.
    NegInt(i64),
    /// The bits of a finite double.
    Float(u64),
}

/// The mathematical value of a record.
pub enum JsonValue {
    Null,
    Bool(bool),
    Number(Number),
    String(Seq<char>),
    Array(Seq<JsonValue>),
    Object(Map<Seq<char>, JsonValue>),
}

/// One generic, untyped unit of input data.
#[derive(Debug, PartialEq)]
pub enum Record {
    Null,
    Bool(bool),
    Number(Number),
    String(String),
    Array(Vec<Record>),
    /// The members in the order in which they were read. Where a key occurs
    /// twice, the later member is the one the object holds.
    Object(Vec<(String, Record)>),
}

/// The mapping that a sequence of members stands for: later members override
/// earlier ones with the same key.
pub open spec fn members_map<V>(members: Seq<(Seq<char>, V)>) -> Map<Seq<char>, V>
    decreases members.len(),
{
    if members.len() == 0 {
        Map::empty()
    } else {
        members_map(members.drop_last()).insert(members.last().0, members.last().1)
    }
}

/// The value that a record stands for.
pub open spec fn record_value(record: Record) -> JsonValue
    decreases record,
{
    match record {
        Record::Null => JsonValue::Null,
        Record::Bool(b) => JsonValue::Bool(b),
        Record::Number(n) => JsonValue::Number(n),
        Record::String(s) => JsonValue::String(s@),
        Record::Array(items) => JsonValue::Array(item_views(items@)),
        Record::Object(members) => JsonValue::Object(members_map(member_views(members@))),
    }
}

/// The values of the items of an array, in their order.
pub open spec fn item_views(items: Seq<Record>) -> Seq<JsonValue>
    decreases items,
{
    if items.len() == 0 {
        Seq::empty()
    } else {
        item_views(items.drop_last()).push(record_value(items.last()))
    }
}

/// The keys and values of the members of an object, in their order.
pub open spec fn member_views(members: Seq<(String, Record)>) -> Seq<(Seq<char>, JsonValue)>
    decreases members,
{
    if members.len() == 0 {
        Seq::empty()
    } else {
        member_views(members.drop_last()).push(
            (members.last().0@, record_value(members.last().1)),
        )
    }
}

impl View for Record {
    type V = JsonValue;

    open spec fn view(&self) -> JsonValue {
        record_value(*self)
    }
}

impl JsonValue {
    /// The member of an object with the given key; nothing for a missing
    /// key and for a value that is no object.
    pub open spec fn field(self, name: Seq<char>) -> Option<JsonValue> {
        match self {
            JsonValue::Object(members) => if members.dom().contains(name) {
                Some(members[name])
            } else {
                None
            },
            _ => None,
        }
    }
}

/// The values of the items stand at the places of the items.
pub proof fn lemma_item_views(items: Seq<Record>)
    ensures
        item_views(items).len() == items.len(),
        forall|i: int| 0 <= i < items.len() ==> #[trigger] item_views(items)[i] == items[i]@,
    decreases items.len(),
{
    if items.len() > 0 {
        lemma_item_views(items.drop_last());
    }
}

/// The keys and values of the members stand at the places of the members.
pub proof fn lemma_member_views(members: Seq<(String, Record)>)
    ensures
        member_views(members).len() == members.len(),
        forall|i: int|
            0 <= i < members.len() ==> #[trigger] member_views(members)[i] == (
                members[i].0@,
                members[i].1@,
            ),
    decreases members.len(),
{
    if members.len() > 0 {
        lemma_member_views(members.drop_last());
    }
}

/// A key that no member has is not in the mapping.
pub proof fn lemma_members_map_absent<V>(members: Seq<(Seq<char>, V)>, key: Seq<char>)
    requires
        forall|j: int| 0 <= j < members.len() ==> members[j].0 != key,
    ensures
        !members_map(members).dom().contains(key),
    decreases members.len(),
{
    if members.len() > 0 {
        lemma_members_map_absent(members.drop_last(), key);
    }
}

/// The mapping holds, for a key, the value of the last member with that key.
pub proof fn lemma_members_map_last<V>(members: Seq<(Seq<char>, V)>, key: Seq<char>, i: int)
    requires
        0 <= i < members.len(),
        members[i].0 == key,
        forall|j: int| i < j < members.len() ==> members[j].0 != key,
    ensures
        members_map(members).dom().contains(key),
        members_map(members)[key] == members[i].1,
    decreases members.len(),
{
    if i < members.len() - 1 {
        lemma_members_map_last(members.drop_last(), key, i);
    }
}

/// A member that is added at the end overrides what the mapping held for its
/// key.
pub proof fn lemma_members_map_push<V>(members: Seq<(Seq<char>, V)>, member: (Seq<char>, V))
    ensures
        members_map(members.push(member)) == members_map(members).insert(member.0, member.1),
{
    assert(members.push(member).drop_last() =~= members);
}

/// Where each member's value is replaced by what a function makes of it, the
/// mapping is the old one with that function applied to each value.
pub proof fn lemma_members_map_values<V, W>(
    members: Seq<(Seq<char>, V)>,
    mapped: Seq<(Seq<char>, W)>,
    f: spec_fn(V) -> W,
)
    requires
        mapped.len() == members.len(),
        forall|i: int|
            0 <= i < members.len() ==> #[trigger] mapped[i] == (members[i].0, f(members[i].1)),
    ensures
        members_map(mapped) == members_map(members).map_values(f),
    decreases members.len(),
{
    if members.len() == 0 {
        assert(members_map(mapped) =~= members_map(members).map_values(f));
    } else {
        lemma_members_map_values(members.drop_last(), mapped.drop_last(), f);
        assert(mapped.last() == (members.last().0, f(members.last().1)));
        assert(members_map(mapped) =~= members_map(members).map_values(f));
    }
}

impl Record {
    /// The member with the given key, where this record is an object that has
    /// one.
    pub fn get(&self, name: &str) -> (found: Option<&Record>)
        ensures
            match found {
                Some(member) => self@.field(name@) == Some(member@),
                None => self@.field(name@) is None,
            },
    {
        match self {
            Record::Object(members) => {
                proof {
                    lemma_member_views(members@);
                }
                let mut i: usize = members.len();
                while i > 0
                    invariant
                        i <= members.len(),
                        forall|j: int| i <= j < members.len() ==> members@[j].0@ != name@,
                        self@ == JsonValue::Object(members_map(member_views(members@))),
                        member_views(members@).len() == members@.len(),
                        forall|j: int|
                            0 <= j < members@.len() ==> #[trigger] member_views(members@)[j] == (
                                members@[j].0@,
                                members@[j].1@,
                            ),
                    decreases i,
                {
                    i -= 1;
                    if text_eq(members[i].0.as_str(), name) {
                        proof {
                            lemma_members_map_last(member_views(members@), name@, i as int);
                        }
                        return Some(&members[i].1);
                    }
                }
                proof {
                    lemma_members_map_absent(member_views(members@), name@);
                }
                None
            },
            _ => None,
        }
    }

    /// The number, where this record is a non-negative integer.
    pub fn as_u64(&self) -> (number: Option<u64>)
        ensures
            number == (match self@ {
                JsonValue::Number(Number::PosInt(n)) => Some(n),
                _ => None,
            }),
    {
        match self {
            Record::Number(Number::PosInt(n)) => Some(*n),
            _ => None,
        }
    }

    /// The text, where this record is a string.
    pub fn as_str(&self) -> (text: Option<&str>)
        ensures
            match text {
                Some(t) => self@ == JsonValue::String(t@),
                None => !(self@ is String),
            },
    {
        match self {
            Record::String(s) => Some(s.as_str()),
            _ => None,
        }
    }

    /// The items, where this record is an array.
    pub fn as_array(&self) -> (items: Option<&Vec<Record>>)
        ensures
            match items {
                Some(items) => self@ == JsonValue::Array(item_views(items@)),
                None => !(self@ is Array),
            },
    {
        match self {
            Record::Array(items) => Some(items),
            _ => None,
        }
    }

    /// The members, where this record is an object.
    pub fn as_object(&self) -> (members: Option<&Vec<(String, Record)>>)
        ensures
            match members {
                Some(members) => self@ == JsonValue::Object(
                    members_map(member_views(members@)),
                ),
                None => !(self@ is Object),
            },
    {
        match self {
            Record::Object(members) => Some(members),
            _ => None,
        }
    }
}

impl Clone for Record {
    /// A copy with the same value.
    fn clone(&self) -> (copy: Self)
        ensures
            copy@ == self@,
        decreases self,
    {
        match self {
            Record::Null => Record::Null,
            Record::Bool(b) => Record::Bool(*b),
            Record::Number(n) => Record::Number(*n),
            Record::String(s) => Record::String(s.clone()),
            Record::Array(items) => {
                let mut copies: Vec<Record> = Vec::new();
                let mut i: usize = 0;
                while i < items.len()
                    invariant
                        i <= items.len(),
                        copies.len() == i,
                        forall|j: int| 0 <= j < i ==> copies@[j]@ == items@[j]@,
                        *self == Record::Array(*items),
                    decreases items.len() - i,
                {
                    proof {
                        assert(decreases_to!(*self => self->Array_0));
                        assert(decreases_to!(*items => items[i as int]));
                    }
                    copies.push(items[i].clone());
                    i += 1;
                }
                proof {
                    lemma_item_views(items@);
                    lemma_item_views(copies@);
                    assert(item_views(copies@) =~= item_views(items@));
                }
                Record::Array(copies)
            },
            Record::Object(members) => {
                let mut copies: Vec<(String, Record)> = Vec::new();
                let mut i: usize = 0;
                while i < members.len()
                    invariant
                        i <= members.len(),
                        copies.len() == i,
                        forall|j: int|
                            0 <= j < i ==> copies@[j].0@ == members@[j].0@ && copies@[j].1@
                                == members@[j].1@,
                        *self == Record::Object(*members),
                    decreases members.len() - i,
                {
                    proof {
                        assert(decreases_to!(*self => self->Object_0));
                        assert(decreases_to!(*members => members[i as int]));
                        assert(decreases_to!(members[i as int] => members[i as int].1));
                    }
                    copies.push((members[i].0.clone(), members[i].1.clone()));
                    i += 1;
                }
                proof {
                    lemma_member_views(members@);
                    lemma_member_views(copies@);
                    assert(member_views(copies@) =~= member_views(members@));
                }
                Record::Object(copies)
            },
        }
    }
}

} // verus!
