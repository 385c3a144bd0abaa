//! Points: what a record is mapped to before it is written to the sink.

use crate::record::{members_map, JsonValue, Number, Record};
use vstd::prelude::*;

verus! {

/// The identifier of a point.
#[derive(Debug, PartialEq, Eq)]
pub enum PointId {
    /// A non-negative integer.
    Num(u64),
    /// A text in the form of a UUID.
    Uuid(String),
}

/// The mathematical value of an identifier.
pub enum PointIdView {
    Num(u64),
    Uuid(Seq<char>),
}

impl View for PointId {
    type V = PointIdView;

    open spec fn view(&self) -> PointIdView {
        match self {
            PointId::Num(n) => PointIdView::Num(*n),
            PointId::Uuid(text) => PointIdView::Uuid(text@),
        }
    }
}

/// The vectors of a point. A coordinate is the number that was found in the
/// record; the sink reads it as a float.
#[derive(Debug, PartialEq)]
pub enum Vectors {
    /// One vector without a name, or none where the record has no such
    /// vector.
    Single(Option<Vec<Number>>),
    /// Vectors under their names. Where a name occurs twice, the later vector
    /// is the one the point holds.
    Named(Vec<(String, Vec<Number>)>),
}

/// The mathematical value of the vectors of a point.
pub enum VectorsView {
    Single(Option<Seq<Number>>),
    Named(Map<Seq<char>, Seq<Number>>),
}

/// The names and coordinates of named vectors, in their order.
pub open spec fn named_vector_views(vectors: Seq<(String, Vec<Number>)>) -> Seq<
    (Seq<char>, Seq<Number>),
> {
    Seq::new(vectors.len(), |i: int| (vectors[i].0@, vectors[i].1@))
}

impl View for Vectors {
    type V = VectorsView;

    open spec fn view(&self) -> VectorsView {
        match self {
            Vectors::Single(Some(vector)) => VectorsView::Single(Some(vector@)),
            Vectors::Single(None) => VectorsView::Single(None),
            Vectors::Named(vectors) => VectorsView::Named(
                members_map(named_vector_views(vectors@)),
            ),
        }
    }
}

/// The value of a record that may be missing.
pub open spec fn optional_value(record: Option<Record>) -> Option<JsonValue> {
    match record {
        Some(record) => Some(record@),
        None => None,
    }
}

/// The keys and values of the entries of a payload, in their order.
pub open spec fn payload_views(entries: Seq<(String, Option<Record>)>) -> Seq<
    (Seq<char>, Option<JsonValue>),
> {
    Seq::new(entries.len(), |i: int| (entries[i].0@, optional_value(entries[i].1)))
}

/// The mapped output unit: an identifier, vectors and a payload.
#[derive(Debug, PartialEq)]
pub struct Point {
    /// The identifier, where the record has one.
    pub id: Option<PointId>,
    /// The vectors.
    pub vectors: Vectors,
    /// The payload: each key with its value, or with nothing where the
    /// record has no value for it. Where a key occurs twice, the later entry
    /// is the one the point holds.
    pub payload: Vec<(String, Option<Record>)>,
}

/// The mathematical value of a point.
pub struct PointView {
    pub id: Option<PointIdView>,
    pub vectors: VectorsView,
    pub payload: Map<Seq<char>, Option<JsonValue>>,
}

impl View for Point {
    type V = PointView;

    open spec fn view(&self) -> PointView {
        PointView {
            id: match self.id {
                Some(id) => Some(id@),
                None => None,
            },
            vectors: self.vectors@,
            payload: members_map(payload_views(self.payload@)),
        }
    }
}

} // verus!
