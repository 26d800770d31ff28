//! Labels and the operations on them.

use vstd::prelude::*;
use crate::repositories::{answer, ErrorView, RepositoryError};

pub mod memory;

verus! {

/// A label, as stored. Its name is what creation deduplicates on.
#[derive(Debug, PartialEq, Eq)]
pub struct Label {
    pub id: i32,
    pub name: String,
}

/// A [`Label`] as contracts speak of it.
pub struct LabelView {
    pub id: i32,
    pub name: Seq<char>,
}

impl View for Label {
    type V = LabelView;

    open spec fn view(&self) -> LabelView {
        LabelView { id: self.id, name: self.name@ }
    }
}

impl DeepView for Label {
    type V = LabelView;

    open spec fn deep_view(&self) -> LabelView {
        self@
    }
}

impl Clone for Label {
    fn clone(&self) -> (copy: Self)
        ensures
            copy@ == self@,
    {
        Label { id: self.id, name: self.name.clone() }
    }
}

impl Label {
    pub fn new(id: i32, name: String) -> (label: Self)
        ensures
            label@ == (LabelView { id, name: name@ }),
    {
        Label { id, name }
    }
}

/// The request to create a label.
#[derive(Debug, PartialEq, Eq)]
pub struct CreateLabel {
    pub name: String,
}

impl View for CreateLabel {
    type V = Seq<char>;

    open spec fn view(&self) -> Seq<char> {
        self.name@
    }
}

impl CreateLabel {
    pub fn new(name: String) -> (payload: Self)
        ensures
            payload@ == name@,
    {
        CreateLabel { name }
    }
}

/// A label's new name, addressed by id.
#[derive(Debug, PartialEq, Eq)]
pub struct UpdateLabel {
    pub id: i32,
    pub name: String,
}

impl View for UpdateLabel {
    type V = LabelView;

    open spec fn view(&self) -> LabelView {
        LabelView { id: self.id, name: self.name@ }
    }
}

impl Clone for UpdateLabel {
    fn clone(&self) -> (copy: Self)
        ensures
            copy@ == self@,
    {
        UpdateLabel { id: self.id, name: self.name.clone() }
    }
}

/// Some label of `labels` has the name `name`.
pub open spec fn label_named(labels: Map<i32, LabelView>, name: Seq<char>) -> bool {
    exists|id: i32| labels.contains_key(id) && (#[trigger] labels[id]).name == name
}

/// `listing` holds each label of `labels` once, and nothing else.
pub open spec fn lists_labels(labels: Map<i32, LabelView>, listing: Seq<LabelView>) -> bool {
    &&& listing.len() == labels.dom().len()
    &&& forall|i: int|
        0 <= i < listing.len() ==> labels.contains_key((#[trigger] listing[i]).id)
            && labels[listing[i].id] == listing[i]
    &&& forall|i: int, j: int|
        0 <= i < j < listing.len() ==> (#[trigger] listing[i]).id != (#[trigger] listing[j]).id
}

/// What a label repository may answer to the request to create a label named
/// `name`, and what it may hold afterwards.
///
/// A label is stored under an id that was free, and only where no label had
/// the name. Where one had it, a backend either refuses with `Duplicate` and
/// that label's id, or answers with that label; the store is then as it was.
/// A backend that fails leaves the store as it was.
pub open spec fn create_label_allowed(
    before: Map<i32, LabelView>,
    name: Seq<char>,
    answer: Result<LabelView, ErrorView>,
    after: Map<i32, LabelView>,
) -> bool {
    match answer {
        Ok(label) => {
            &&& label.name == name
            &&& if before.contains_key(label.id) {
                before[label.id] == label && after == before
            } else {
                !label_named(before, name) && after == before.insert(label.id, label)
            }
        },
        Err(ErrorView::Duplicate(id)) => {
            &&& before.contains_key(id)
            &&& before[id].name == name
            &&& after == before
        },
        Err(ErrorView::Unexpected(_)) => after == before,
        Err(ErrorView::NotFound(_)) => false,
    }
}

/// What a label repository may answer to the request for all labels.
pub open spec fn all_labels_allowed(
    labels: Map<i32, LabelView>,
    answer: Result<Seq<LabelView>, ErrorView>,
) -> bool {
    match answer {
        Ok(listing) => lists_labels(labels, listing),
        Err(ErrorView::Unexpected(_)) => true,
        Err(_) => false,
    }
}

/// What a label repository may answer to the request to delete the label
/// `id`, and what it may hold afterwards. Only `id` leaves the store.
pub open spec fn delete_label_allowed(
    before: Map<i32, LabelView>,
    id: i32,
    answer: Result<(), ErrorView>,
    after: Map<i32, LabelView>,
) -> bool {
    match answer {
        Ok(_) => before.contains_key(id) && after == before.remove(id),
        Err(ErrorView::NotFound(missing)) => {
            &&& missing == id
            &&& !before.contains_key(id)
            &&& after == before
        },
        Err(ErrorView::Unexpected(_)) => after == before,
        Err(ErrorView::Duplicate(_)) => false,
    }
}

/// With any backend, asking a second time for a label of the same name
/// stores nothing: the backend answers with `Duplicate` and the id of a
/// label that has the name, or with such a label, or it fails.
pub proof fn lemma_second_label_is_not_stored(
    before: Map<i32, LabelView>,
    name: Seq<char>,
    first: LabelView,
    between: Map<i32, LabelView>,
    second: Result<LabelView, ErrorView>,
    after: Map<i32, LabelView>,
)
    requires
        create_label_allowed(before, name, Ok(first), between),
        create_label_allowed(between, name, second, after),
    ensures
        after == between,
        second matches Ok(label) ==> between.contains_key(label.id) && between[label.id] == label
            && label.name == name,
        second matches Err(ErrorView::Duplicate(id)) ==> between.contains_key(id)
            && between[id].name == name,
{
    assert(between.contains_key(first.id) && between[first.id].name == name);
}

/// The operations on labels that every backend offers.
///
/// The contracts say what holds of each backend. A backend may promise more:
/// the in-memory store says exactly what it answers. The backends differ
/// in what they answer to a name that is taken: the relational one refuses
/// with `Duplicate`, the in-memory one answers with the label that has the
/// name. Only the in-memory one leaves the order of `all` open; the
/// relational one lists by rising id.
pub trait LabelRepository {
    /// The invariant of the backend's own data.
    spec fn well_formed(&self) -> bool;

    /// The labels that the backend holds, by id.
    spec fn labels(&self) -> Map<i32, LabelView>;

    /// Stores a label with the name of `payload`.
    fn create(&mut self, payload: CreateLabel) -> (created: Result<Label, RepositoryError>)
        requires
            old(self).well_formed(),
        ensures
            final(self).well_formed(),
            create_label_allowed(old(self).labels(), payload@, answer(created), final(self).labels()),
    ;

    /// Every label.
    fn all(&self) -> (listed: Result<Vec<Label>, RepositoryError>)
        requires
            self.well_formed(),
        ensures
            all_labels_allowed(self.labels(), answer(listed)),
    ;

    /// Removes the label `id`. Items that carry the label are not touched:
    /// a relational backend keeps their join rows, which then point at no
    /// label, so that reading such an item brings a row without label in
    /// place of the label; folding takes no label from such a row.
    fn delete(&mut self, id: i32) -> (deleted: Result<(), RepositoryError>)
        requires
            old(self).well_formed(),
        ensures
            final(self).well_formed(),
            delete_label_allowed(old(self).labels(), id, answer(deleted), final(self).labels()),
    ;
}

/// Decides whether a relational backend may insert a label, from what its
/// search for a label of the same name returned: a label that is there
/// forbids the insert, with `Duplicate` and that label's id.
pub fn reject_duplicate(existing: Option<Label>) -> (decision: Result<(), RepositoryError>)
    ensures
        answer(decision) == match existing {
            Some(label) => Err::<(), ErrorView>(ErrorView::Duplicate(label.id)),
            None => Ok(()),
        },
{
    match existing {
        Some(label) => Err(RepositoryError::Duplicate(label.id)),
        None => Ok(()),
    }
}

} // verus!
