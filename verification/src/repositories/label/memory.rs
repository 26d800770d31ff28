//! Labels kept in memory.

use vstd::prelude::*;
use std::collections::HashMap;
use crate::repositories::{answer, ids_exhausted_message, ErrorView, RepositoryError};
use crate::repositories::label::{
    label_named, lists_labels, CreateLabel, Label, LabelRepository, LabelView,
};

verus! {

/// What a [`LabelRepositoryForMemory`] holds: its labels by id, and the last
/// id that it assigned (0 before the first).
pub struct LabelStoreView {
    pub labels: Map<i32, LabelView>,
    pub last_id: i32,
}

impl LabelStoreView {
    /// The store before anything was created.
    pub open spec fn empty() -> Self {
        LabelStoreView { labels: Map::empty(), last_id: 0 }
    }

    /// Each label stands under its own id, which the store has assigned, and
    /// no two labels share a name.
    pub open spec fn well_formed(self) -> bool {
        &&& 0 <= self.last_id
        &&& self.labels.dom().finite()
        &&& forall|id: i32| #[trigger]
            self.labels.contains_key(id) ==> 1 <= id <= self.last_id && self.labels[id].id == id
        &&& forall|a: i32, b: i32|
            #[trigger] self.labels.contains_key(a) && #[trigger] self.labels.contains_key(b) && a
                != b ==> self.labels[a].name != self.labels[b].name
    }

    /// The label that has the name `name`, if one has it.
    pub open spec fn holder(self, name: Seq<char>) -> Option<LabelView> {
        if label_named(self.labels, name) {
            Some(
                self.labels[choose|id: i32|
                    self.labels.contains_key(id) && (#[trigger] self.labels[id]).name == name],
            )
        } else {
            None
        }
    }

    /// Creating a label named `name`: the label that has the name already is
    /// the answer, and the store stays as it is. Otherwise a new label gets
    /// the id after the last one assigned; once the largest id is assigned,
    /// the store refuses.
    pub open spec fn create(self, name: Seq<char>) -> (Self, Result<LabelView, ErrorView>) {
        match self.holder(name) {
            Some(label) => (self, Ok(label)),
            None => if self.last_id == i32::MAX {
                (self, Err(ErrorView::Unexpected(ids_exhausted_message())))
            } else {
                let label = LabelView { id: (self.last_id + 1) as i32, name };
                (
                    LabelStoreView { labels: self.labels.insert(label.id, label), last_id: label.id },
                    Ok(label),
                )
            },
        }
    }

    /// Deleting the label `id`: it leaves the store if it is there.
    pub open spec fn delete(self, id: i32) -> (Self, Result<(), ErrorView>) {
        if self.labels.contains_key(id) {
            (LabelStoreView { labels: self.labels.remove(id), ..self }, Ok(()))
        } else {
            (self, Err(ErrorView::NotFound(id)))
        }
    }
}

/// In a well-formed store, the label that has a name is the one label
/// stored with that name.
pub proof fn lemma_holder(store: LabelStoreView, label: LabelView)
    requires
        store.well_formed(),
    ensures
        store.holder(label.name) == Some(label) <==> store.labels.contains_key(label.id)
            && store.labels[label.id] == label,
{
}

/// A store starts well formed, and every operation keeps it so: no two
/// labels come to share a name or an id.
pub proof fn lemma_operations_keep_well_formed(store: LabelStoreView, id: i32, name: Seq<char>)
    requires
        store.well_formed(),
    ensures
        LabelStoreView::empty().well_formed(),
        store.create(name).0.well_formed(),
        store.delete(id).0.well_formed(),
{
    if store.holder(name) is None {
        assert(forall|other: i32|
            store.labels.contains_key(other) ==> (#[trigger] store.labels[other]).name != name);
    }
}

/// Creating a label under a name a second time answers with the label of
/// the first time and stores nothing: the name stays with one label.
pub proof fn lemma_create_twice(store: LabelStoreView, name: Seq<char>)
    requires
        store.well_formed(),
    ensures
        store.create(name).1 matches Ok(label) ==> store.create(name).0.create(name) == (
            store.create(name).0,
            Ok::<LabelView, ErrorView>(label),
        ),
{
    lemma_operations_keep_well_formed(store, 0, name);
    if store.create(name).1 is Ok {
        let label = store.create(name).1->Ok_0;
        let after = store.create(name).0;
        if store.holder(name) is Some {
            lemma_holder(store, label);
        }
        lemma_holder(after, label);
    }
}

/// Ids are assigned from 1 upwards, one after the other, and an id that was
/// assigned once is not assigned again, whatever was deleted since.
pub proof fn lemma_ids_are_not_assigned_twice(store: LabelStoreView, id: i32, name: Seq<char>)
    requires
        store.well_formed(),
    ensures
        store.create(name).1 matches Ok(label) ==> store.labels.contains_key(label.id) || (label.id
            == store.last_id + 1 && store.create(name).0.last_id == label.id),
        store.create(name).1 is Err ==> store.create(name).0 == store,
        store.delete(id).0.last_id == store.last_id,
        LabelStoreView::empty().create(name).1 matches Ok(label) ==> label.id == 1,
{
}

/// A label that was deleted is not stored any more, and every other label
/// stays as it was.
pub proof fn lemma_delete_removes(store: LabelStoreView, id: i32)
    requires
        store.well_formed(),
    ensures
        store.delete(id).1 is Ok <==> store.labels.contains_key(id),
        !store.delete(id).0.labels.contains_key(id),
        forall|other: i32|
            other != id ==> store.delete(id).0.labels.contains_key(other)
                == store.labels.contains_key(other) && (store.labels.contains_key(other)
                ==> store.delete(id).0.labels[other] == store.labels[other]),
{
}

/// A label store in memory. It assigns ids from 1 upwards and never assigns
/// one twice, also after a label was deleted.
///
/// Creating a label under a name that is taken answers with the label that
/// has the name: this store does not report `Duplicate`.
pub struct LabelRepositoryForMemory {
    store: HashMap<i32, Label>,
    last_id: i32,
}

impl View for LabelRepositoryForMemory {
    type V = LabelStoreView;

    closed spec fn view(&self) -> LabelStoreView {
        LabelStoreView {
            labels: Map::new(|id: i32| self.store@.contains_key(id), |id: i32| self.store@[id]@),
            last_id: self.last_id,
        }
    }
}

impl LabelRepositoryForMemory {
    /// A store without labels.
    pub fn new() -> (repository: Self)
        ensures
            repository.well_formed(),
            repository@ == LabelStoreView::empty(),
    {
        let repository = LabelRepositoryForMemory { store: HashMap::new(), last_id: 0 };
        assert(repository@.labels =~= Map::empty());
        repository
    }

    /// The label that has the name `name`, if one has it.
    fn find_by_name(&self, name: &String) -> (found: Option<Label>)
        requires
            self.well_formed(),
        ensures
            found.deep_view() == self@.holder(name@),
    {
        broadcast use vstd::std_specs::hash::group_hash_axioms;

        for pair in it: self.store.iter()
            invariant
                self.well_formed(),
                forall|i: int|
                    0 <= i < it.seq().len() ==> self.store@.contains_key(
                        *(#[trigger] it.seq()[i]).0,
                    ) && self.store@[*it.seq()[i].0] == *it.seq()[i].1,
                forall|id: i32| #[trigger]
                    self.store@.contains_key(id) ==> it.seq().contains((&id, &self.store@[id])),
                forall|i: int| 0 <= i < it.index() ==> (*(#[trigger] it.seq()[i]).1).name@ != name@,
        {
            if pair.1.name == *name {
                assert(self@.labels.contains_key(*pair.0));
                return Some(pair.1.clone());
            }
        }
        None
    }
}

impl LabelRepository for LabelRepositoryForMemory {
    open spec fn well_formed(&self) -> bool {
        self@.well_formed()
    }

    open spec fn labels(&self) -> Map<i32, LabelView> {
        self@.labels
    }

    fn create(&mut self, payload: CreateLabel) -> (created: Result<Label, RepositoryError>)
        ensures
            (final(self)@, answer(created)) == old(self)@.create(payload@),
    {
        broadcast use vstd::std_specs::hash::group_hash_axioms;

        if let Some(label) = self.find_by_name(&payload.name) {
            return Ok(label);
        }
        if self.last_id == i32::MAX {
            return Err(RepositoryError::ids_exhausted());
        }
        let id: i32 = self.last_id + 1;
        let label = Label { id, name: payload.name };
        let stored = label.clone();
        self.store.insert(id, stored);
        self.last_id = id;
        assert(self@.labels =~= old(self)@.labels.insert(id, label@));
        Ok(label)
    }

    fn all(&self) -> (listed: Result<Vec<Label>, RepositoryError>)
        ensures
            listed is Ok,
    {
        broadcast use vstd::std_specs::hash::group_hash_axioms;

        let mut labels: Vec<Label> = Vec::new();
        for pair in it: self.store.iter()
            invariant
                self.well_formed(),
                labels.len() == it.index(),
                it.seq().len() == self.store@.dom().len(),
                it.seq().no_duplicates(),
                forall|i: int|
                    0 <= i < it.seq().len() ==> self.store@.contains_key(
                        *(#[trigger] it.seq()[i]).0,
                    ) && self.store@[*it.seq()[i].0] == *it.seq()[i].1,
                forall|i: int| 0 <= i < labels.len() ==> (#[trigger] labels[i]).id == *it.seq()[i].0,
                forall|i: int|
                    0 <= i < labels.len() ==> self.store@.contains_key((#[trigger] labels[i]).id)
                        && self.store@[labels[i].id]@ == labels[i]@,
                forall|i: int, j: int|
                    0 <= i < j < labels.len() ==> (#[trigger] labels[i]).id != (
                    #[trigger] labels[j]).id,
        {
            let ghost n = labels.len() as int;
            let label = pair.1.clone();
            assert(self@.labels.contains_key(*it.seq()[n].0));
            labels.push(label);
        }
        assert(self@.labels.dom() =~= self.store@.dom());
        Ok(labels)
    }

    fn delete(&mut self, id: i32) -> (deleted: Result<(), RepositoryError>)
        ensures
            (final(self)@, answer(deleted)) == old(self)@.delete(id),
    {
        broadcast use vstd::std_specs::hash::group_hash_axioms;

        match self.store.remove(&id) {
            Some(_) => {
                assert(self@.labels =~= old(self)@.labels.remove(id));
                Ok(())
            },
            None => {
                assert(self@.labels =~= old(self)@.labels);
                Err(RepositoryError::NotFound(id))
            },
        }
    }
}

} // verus!
