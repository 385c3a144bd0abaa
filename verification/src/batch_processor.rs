//! The field mapper: from a record and the field selectors to a point.

use crate::field_name::{FieldName, FieldNameView};
use crate::point::{
    named_vector_views, optional_value, payload_views, Point, PointId, PointIdView, PointView,
    Vectors, VectorsView,
};
use crate::record::{
    item_views, lemma_item_views, lemma_member_views, member_views, members_map, JsonValue,
    Number, Record,
};
use std::str::FromStr;
use vstd::prelude::*;

verus! {

/// Whether `uuid::Uuid::from_str` accepts a text.
pub uninterp spec fn uuid_text(text: Seq<char>) -> bool;

/// Calls `uuid::Uuid::from_str` and says whether it returned a UUID. The
/// answer is a function of the text alone, named by [`uuid_text`].
#[verifier::external_body]
fn is_uuid(text: &str) -> (accepted: bool)
    ensures
        accepted == uuid_text(text@),
{
    uuid::Uuid::from_str(text).is_ok()
}

/// The identifier that a value stands for: a non-negative integer stands for
/// itself, and a string for itself where it has the form of a UUID. No other
/// value is an identifier.
pub open spec fn identifier(value: JsonValue, uuid_shaped: bool) -> Option<PointIdView> {
    match value {
        JsonValue::Number(Number::PosInt(n)) => Some(PointIdView::Num(n)),
        JsonValue::String(text) => if uuid_shaped {
            Some(PointIdView::Uuid(text))
        } else {
            None
        },
        _ => None,
    }
}

/// The identifier of a record: that of the value of its identifier field,
/// where such a field is configured and the record has it.
pub open spec fn point_id(id_field: Option<Seq<char>>, record: JsonValue) -> Option<PointIdView> {
    match id_field {
        Some(name) => match record.field(name) {
            Some(value) => identifier(value, value is String && uuid_text(value->String_0)),
            None => None,
        },
        None => None,
    }
}

/// The value of an identifier that may be missing.
pub open spec fn optional_id(id: Option<PointId>) -> Option<PointIdView> {
    match id {
        Some(id) => Some(id@),
        None => None,
    }
}

/// The characters of a name that may be missing.
pub open spec fn optional_name(name: Option<String>) -> Option<Seq<char>> {
    match name {
        Some(name) => Some(name@),
        None => None,
    }
}

/// The identifier that a value stands for. For a string, `uuid_shaped` says
/// whether it has the form of a UUID; for any other value it is not read.
pub fn identifier_of(value: &Record, uuid_shaped: bool) -> (id: Option<PointId>)
    ensures
        optional_id(id) == identifier(value@, uuid_shaped),
{
    match value {
        Record::Number(Number::PosInt(n)) => Some(PointId::Num(*n)),
        Record::String(text) => if uuid_shaped {
            Some(PointId::Uuid(text.clone()))
        } else {
            None
        },
        _ => None,
    }
}

/// The identifier of a record. It is omitted where no identifier field is
/// configured, where the record has no such field, and where the field's value
/// is neither a non-negative integer nor a string in the form of a UUID.
pub fn extract_point_id(maybe_id_field_name: &Option<String>, source_value: &Record) -> (id: Option<
    PointId,
>)
    ensures
        optional_id(id) == point_id(optional_name(*maybe_id_field_name), source_value@),
{
    match maybe_id_field_name {
        Some(id_field_name) => match source_value.get(id_field_name.as_str()) {
            Some(value) => {
                let uuid_shaped = match value.as_str() {
                    Some(text) => is_uuid(text),
                    None => false,
                };
                identifier_of(value, uuid_shaped)
            },
            None => None,
        },
        None => None,
    }
}

/// The coordinate that an item of an array stands for: a number stands for
/// itself, anything else for zero.
pub open spec fn coordinate(value: JsonValue) -> Number {
    match value {
        JsonValue::Number(n) => n,
        _ => Number::PosInt(0),
    }
}

/// The coordinates that the items of an array stand for.
pub open spec fn coordinates(items: Seq<JsonValue>) -> Seq<Number> {
    Seq::new(items.len(), |i: int| coordinate(items[i]))
}

/// The vector in a field of a record: the coordinates of the field's items,
/// where the record has the field and it is an array.
pub open spec fn vector_of(record: JsonValue, name: Seq<char>) -> Option<Seq<Number>> {
    match record.field(name) {
        Some(JsonValue::Array(items)) => Some(coordinates(items)),
        _ => None,
    }
}

/// The vectors of a record under names: each name that has a vector in the
/// record, with that vector.
pub open spec fn named_vectors(record: JsonValue, names: Seq<Seq<char>>) -> Map<
    Seq<char>,
    Seq<Number>,
> {
    Map::new(
        |name: Seq<char>| names.contains(name) && vector_of(record, name) is Some,
        |name: Seq<char>| vector_of(record, name)->Some_0,
    )
}

/// The vectors of a record for a selector.
pub open spec fn vectors(selector: FieldNameView, record: JsonValue) -> VectorsView {
    match selector {
        FieldNameView::Named(names) => VectorsView::Named(named_vectors(record, names)),
        FieldNameView::Single(name) => VectorsView::Single(vector_of(record, name)),
    }
}

/// The coordinates of a vector that may be missing.
pub open spec fn optional_vector(vector: Option<Vec<Number>>) -> Option<Seq<Number>> {
    match vector {
        Some(vector) => Some(vector@),
        None => None,
    }
}

/// The vector in a field of a record. There is none where the field is
/// absent or not an array; an item that is no number counts as zero.
pub fn extract_vector(value: &Record, field_name: &str) -> (vector: Option<Vec<Number>>)
    ensures
        optional_vector(vector) == vector_of(value@, field_name@),
{
    match value.get(field_name) {
        None => None,
        Some(field_value) => match field_value.as_array() {
            None => None,
            Some(items) => {
                let mut vector_data: Vec<Number> = Vec::new();
                let mut i: usize = 0;
                proof {
                    lemma_item_views(items@);
                }
                while i < items.len()
                    invariant
                        i <= items.len(),
                        vector_data.len() == i,
                        item_views(items@).len() == items.len(),
                        forall|j: int|
                            0 <= j < items.len() ==> #[trigger] item_views(items@)[j]
                                == items@[j]@,
                        forall|j: int|
                            0 <= j < i ==> vector_data@[j] == coordinate(item_views(items@)[j]),
                    decreases items.len() - i,
                {
                    let number = match &items[i] {
                        Record::Number(n) => *n,
                        _ => Number::PosInt(0),
                    };
                    vector_data.push(number);
                    i += 1;
                }
                assert(vector_data@ =~= coordinates(item_views(items@)));
                Some(vector_data)
            },
        },
    }
}

/// The one vector without a name.
pub fn extract_single_vector(value: &Record, field_name: &str) -> (vectors: Vectors)
    ensures
        vectors@ == VectorsView::Single(vector_of(value@, field_name@)),
{
    Vectors::Single(extract_vector(value, field_name))
}

/// Adding a name to a list of names adds its vector, where it has one.
proof fn lemma_named_vectors_step(record: JsonValue, names: Seq<Seq<char>>, i: int)
    requires
        0 <= i < names.len(),
    ensures
        named_vectors(record, names.take(i + 1)) == (match vector_of(record, names[i]) {
            Some(vector) => named_vectors(record, names.take(i)).insert(names[i], vector),
            None => named_vectors(record, names.take(i)),
        }),
{
    let longer = named_vectors(record, names.take(i + 1));
    let shorter = named_vectors(record, names.take(i));
    let grown = match vector_of(record, names[i]) {
        Some(vector) => shorter.insert(names[i], vector),
        None => shorter,
    };
    assert forall|name: Seq<char>| longer.dom().contains(name) <==> grown.dom().contains(
        name,
    ) by {
        crate::text::lemma_take_contains(names, i, name);
    }
    assert(longer =~= grown);
}

/// The vectors under the names that have one in the record. A name whose
/// field is absent or not an array is left out.
pub fn extract_vectors_with_names(field_names: &Vec<String>, value: &Record) -> (found: Vec<
    (String, Vec<Number>),
>)
    ensures
        members_map(named_vector_views(found@)) == named_vectors(
            value@,
            field_names.deep_view(),
        ),
{
    let mut found: Vec<(String, Vec<Number>)> = Vec::new();
    let mut i: usize = 0;
    let ghost names = field_names.deep_view();
    assert(named_vector_views(found@) =~= Seq::empty());
    assert(named_vectors(value@, names.take(0)) =~= Map::empty());
    while i < field_names.len()
        invariant
            i <= field_names.len(),
            names == field_names.deep_view(),
            members_map(named_vector_views(found@)) == named_vectors(value@, names.take(i as int)),
        decreases field_names.len() - i,
    {
        let ghost before = named_vector_views(found@);
        proof {
            lemma_named_vectors_step(value@, names, i as int);
        }
        match extract_vector(value, field_names[i].as_str()) {
            Some(vector) => {
                let ghost entry = (field_names@[i as int]@, vector@);
                found.push((field_names[i].clone(), vector));
                proof {
                    assert(named_vector_views(found@) =~= before.push(entry));
                    crate::record::lemma_members_map_push(before, entry);
                }
            },
            None => {},
        }
        i += 1;
    }
    assert(names.take(i as int) =~= names);
    found
}

/// The vectors under their names.
pub fn extract_named_vectors(field_names: &Vec<String>, value: &Record) -> (vectors: Vectors)
    ensures
        vectors@ == VectorsView::Named(named_vectors(value@, field_names.deep_view())),
{
    Vectors::Named(extract_vectors_with_names(field_names, value))
}

/// The vectors of a record for a selector.
pub fn extract_vectors(vector_field_names: &FieldName, value: &Record) -> (found: Vectors)
    ensures
        found@ == vectors(vector_field_names@, value@),
{
    match vector_field_names {
        FieldName::Named(field_names) => extract_named_vectors(field_names, value),
        FieldName::Single(field_name) => extract_single_vector(value, field_name.as_str()),
    }
}

/// The payload of a record under names: each name with the value of its
/// field, or with nothing where the record has no such field.
pub open spec fn named_payload(record: JsonValue, names: Seq<Seq<char>>) -> Map<
    Seq<char>,
    Option<JsonValue>,
> {
    Map::new(|name: Seq<char>| names.contains(name), |name: Seq<char>| record.field(name))
}

/// The payload that a value gives where it is taken whole: the members of an
/// object, and nothing for any other value.
pub open spec fn object_payload(value: JsonValue) -> Map<Seq<char>, Option<JsonValue>> {
    match value {
        JsonValue::Object(members) => members.map_values(|v: JsonValue| Some(v)),
        _ => Map::empty(),
    }
}

/// The payload of a record whose field is taken whole: empty where the field
/// is absent.
pub open spec fn whole_payload(record: JsonValue, name: Seq<char>) -> Map<
    Seq<char>,
    Option<JsonValue>,
> {
    match record.field(name) {
        Some(value) => object_payload(value),
        None => Map::empty(),
    }
}

/// The payload of a record for a selector; empty without one.
pub open spec fn payload(selector: Option<FieldNameView>, record: JsonValue) -> Map<
    Seq<char>,
    Option<JsonValue>,
> {
    match selector {
        Some(FieldNameView::Single(name)) => whole_payload(record, name),
        Some(FieldNameView::Named(names)) => named_payload(record, names),
        None => Map::empty(),
    }
}

/// The value of a selector that may be missing.
pub open spec fn optional_selector(selector: Option<FieldName>) -> Option<FieldNameView> {
    match selector {
        Some(selector) => Some(selector@),
        None => None,
    }
}

/// Adding a name to a list of names adds what the record has for it.
proof fn lemma_named_payload_step(record: JsonValue, names: Seq<Seq<char>>, i: int)
    requires
        0 <= i < names.len(),
    ensures
        named_payload(record, names.take(i + 1)) == named_payload(record, names.take(i)).insert(
            names[i],
            record.field(names[i]),
        ),
{
    let longer = named_payload(record, names.take(i + 1));
    let grown = named_payload(record, names.take(i)).insert(names[i], record.field(names[i]));
    assert forall|name: Seq<char>| longer.dom().contains(name) <==> grown.dom().contains(
        name,
    ) by {
        crate::text::lemma_take_contains(names, i, name);
    }
    assert(longer =~= grown);
}

/// The payload under names: every name is a key, with the value of its field
/// or with nothing.
pub fn extract_payload_from_multiple_fields(field_names: &Vec<String>, value: &Record) -> (entries:
    Vec<(String, Option<Record>)>)
    ensures
        members_map(payload_views(entries@)) == named_payload(value@, field_names.deep_view()),
{
    let mut entries: Vec<(String, Option<Record>)> = Vec::new();
    let mut i: usize = 0;
    let ghost names = field_names.deep_view();
    assert(payload_views(entries@) =~= Seq::empty());
    assert(named_payload(value@, names.take(0)) =~= Map::empty());
    while i < field_names.len()
        invariant
            i <= field_names.len(),
            names == field_names.deep_view(),
            members_map(payload_views(entries@)) == named_payload(value@, names.take(i as int)),
        decreases field_names.len() - i,
    {
        let ghost before = payload_views(entries@);
        let field_value = match value.get(field_names[i].as_str()) {
            Some(found) => Some(found.clone()),
            None => None,
        };
        let ghost entry = (field_names@[i as int]@, optional_value(field_value));
        entries.push((field_names[i].clone(), field_value));
        proof {
            lemma_named_payload_step(value@, names, i as int);
            assert(payload_views(entries@) =~= before.push(entry));
            crate::record::lemma_members_map_push(before, entry);
        }
        i += 1;
    }
    assert(names.take(i as int) =~= names);
    entries
}

/// The payload that a field gives where it is taken whole: its members
/// where it is an object, else nothing.
pub fn extract_payload_from_single_field(field_content: &Record) -> (entries: Vec<
    (String, Option<Record>),
>)
    ensures
        members_map(payload_views(entries@)) == object_payload(field_content@),
{
    match field_content.as_object() {
        None => {
            let entries: Vec<(String, Option<Record>)> = Vec::new();
            assert(payload_views(entries@) =~= Seq::empty());
            entries
        },
        Some(object) => {
            let mut entries: Vec<(String, Option<Record>)> = Vec::new();
            let mut i: usize = 0;
            while i < object.len()
                invariant
                    i <= object.len(),
                    entries.len() == i,
                    forall|j: int|
                        0 <= j < i ==> entries@[j].0@ == object@[j].0@ && optional_value(
                            entries@[j].1,
                        ) == Some(object@[j].1@),
                decreases object.len() - i,
            {
                entries.push((object[i].0.clone(), Some(object[i].1.clone())));
                i += 1;
            }
            proof {
                lemma_member_views(object@);
                crate::record::lemma_members_map_values(
                    member_views(object@),
                    payload_views(entries@),
                    |v: JsonValue| Some(v),
                );
                assert(members_map(payload_views(entries@)) =~= object_payload(
                    field_content@,
                ));
            }
            entries
        },
    }
}

/// The payload of a record for a selector.
pub fn extract_payload(maybe_payload_fields: &Option<FieldName>, value: &Record) -> (entries: Vec<
    (String, Option<Record>),
>)
    ensures
        members_map(payload_views(entries@)) == payload(
            optional_selector(*maybe_payload_fields),
            value@,
        ),
{
    match maybe_payload_fields {
        Some(FieldName::Single(field_name)) => {
            match value.get(field_name.as_str()) {
                None => {
                    let entries: Vec<(String, Option<Record>)> = Vec::new();
                    assert(payload_views(entries@) =~= Seq::empty());
                    entries
                },
                Some(field_content) => extract_payload_from_single_field(field_content),
            }
        },
        Some(FieldName::Named(field_names)) => extract_payload_from_multiple_fields(
            field_names,
            value,
        ),
        None => {
            let entries: Vec<(String, Option<Record>)> = Vec::new();
            assert(payload_views(entries@) =~= Seq::empty());
            entries
        },
    }
}

/// The point that a record stands for under the selectors.
pub open spec fn point(
    record: JsonValue,
    id_field: Option<Seq<char>>,
    vector_selector: FieldNameView,
    payload_selector: Option<FieldNameView>,
) -> PointView {
    PointView {
        id: point_id(id_field, record),
        vectors: vectors(vector_selector, record),
        payload: payload(payload_selector, record),
    }
}

/// Maps one record to its point.
pub fn value_to_point(
    value: &Record,
    maybe_id_field_name: &Option<String>,
    vector_field_names: &FieldName,
    maybe_payload_field: &Option<FieldName>,
) -> (mapped: Point)
    ensures
        mapped@ == point(
            value@,
            optional_name(*maybe_id_field_name),
            vector_field_names@,
            optional_selector(*maybe_payload_field),
        ),
{
    let id = extract_point_id(maybe_id_field_name, value);
    let payload = extract_payload(maybe_payload_field, value);
    let vectors = extract_vectors(vector_field_names, value);
    Point { id, vectors, payload }
}

/// Maps the records of a batch to their points, one for one and in order.
pub fn batch_to_points(
    batch: Vec<Record>,
    id_field_name: Option<String>,
    vector_field: &FieldName,
    payload_field: &Option<FieldName>,
) -> (points: Vec<Point>)
    ensures
        points.len() == batch.len(),
        forall|i: int|
            0 <= i < batch.len() ==> #[trigger] points[i]@ == point(
                batch[i]@,
                optional_name(id_field_name),
                vector_field@,
                optional_selector(*payload_field),
            ),
{
    let mut points: Vec<Point> = Vec::new();
    let mut i: usize = 0;
    while i < batch.len()
        invariant
            i <= batch.len(),
            points.len() == i,
            forall|j: int|
                0 <= j < i ==> #[trigger] points[j]@ == point(
                    batch[j]@,
                    optional_name(id_field_name),
                    vector_field@,
                    optional_selector(*payload_field),
                ),
        decreases batch.len() - i,
    {
        points.push(value_to_point(&batch[i], &id_field_name, vector_field, payload_field));
        i += 1;
    }
    points
}

/// Mapping is a function of the record and the selectors: two points mapped
/// from the same record under the same selectors are the same point.
pub proof fn lemma_mapping_is_repeatable(
    first: Point,
    second: Point,
    record: Record,
    id_field_name: Option<String>,
    vector_field: FieldName,
    payload_field: Option<FieldName>,
)
    requires
        first@ == point(
            record@,
            optional_name(id_field_name),
            vector_field@,
            optional_selector(payload_field),
        ),
        second@ == point(
            record@,
            optional_name(id_field_name),
            vector_field@,
            optional_selector(payload_field),
        ),
    ensures
        first@ == second@,
{
}

} // verus!
