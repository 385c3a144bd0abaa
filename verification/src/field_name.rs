//! Field selectors: which fields of a record drive an extraction.

use vstd::prelude::*;

verus! {

/// Whether one field or several named fields drive an extraction.
#[derive(Debug, PartialEq, Eq)]
pub enum FieldName {
    /// One field designates the entire value.
    Single(String),
    /// Each of the fields is extracted under its own name.
    Named(Vec<String>),
}

/// The mathematical value of a selector.
pub enum FieldNameView {
    Single(Seq<char>),
    Named(Seq<Seq<char>>),
}

impl View for FieldName {
    type V = FieldNameView;

    open spec fn view(&self) -> FieldNameView {
        match self {
            FieldName::Single(name) => FieldNameView::Single(name@),
            FieldName::Named(names) => FieldNameView::Named(names.deep_view()),
        }
    }
}

/// A copy of a list of names.
pub fn copy_names(names: &Vec<String>) -> (copy: Vec<String>)
    ensures
        copy.deep_view() == names.deep_view(),
{
    let mut copy: Vec<String> = Vec::new();
    let mut i: usize = 0;
    while i < names.len()
        invariant
            i <= names.len(),
            copy.len() == i,
            forall|j: int| 0 <= j < i ==> copy@[j]@ == names@[j]@,
        decreases names.len() - i,
    {
        copy.push(names[i].clone());
        i += 1;
    }
    assert(copy.deep_view() =~= names.deep_view());
    copy
}

impl Clone for FieldName {
    /// A copy that selects the same fields.
    fn clone(&self) -> (copy: Self)
        ensures
            copy@ == self@,
    {
        match self {
            FieldName::Single(name) => FieldName::Single(name.clone()),
            FieldName::Named(names) => FieldName::Named(copy_names(names)),
        }
    }
}

} // verus!
