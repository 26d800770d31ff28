//! Items kept in memory.

use vstd::prelude::*;
use std::collections::HashMap;
use crate::repositories::{answer, ids_exhausted_message, ErrorView, RepositoryError};
use crate::repositories::label::{Label, LabelView};
use crate::repositories::todo::{
    label_ids, lists_todos, merge, CreateTodo, CreateTodoView, TodoEntity,
    TodoRepository, TodoView, UpdateTodo, UpdateTodoView,
};

verus! {

/// `at` is the place of the first label in `known` that has the id `id`.
pub open spec fn first_with_id(known: Seq<LabelView>, id: i32, at: int) -> bool {
    &&& 0 <= at < known.len()
    &&& known[at].id == id
    &&& forall|k: int| 0 <= k < at ==> (#[trigger] known[k]).id != id
}

/// The label that `id` names among `known`: the first that has the id.
pub open spec fn known_label(known: Seq<LabelView>, id: i32) -> Option<LabelView> {
    if exists|at: int| first_with_id(known, id, at) {
        Some(known[choose|at: int| first_with_id(known, id, at)])
    } else {
        None
    }
}

/// `at` is the place of the first id in `ids` that names no label of `known`.
pub open spec fn first_unknown(known: Seq<LabelView>, ids: Seq<i32>, at: int) -> bool {
    &&& 0 <= at < ids.len()
    &&& known_label(known, ids[at]) is None
    &&& forall|k: int| 0 <= k < at ==> known_label(known, #[trigger] ids[k]) is Some
}

/// The labels that `ids` name among `known`, in the order of `ids`; where
/// an id names none, `NotFound` with the first such id.
pub open spec fn resolve(known: Seq<LabelView>, ids: Seq<i32>) -> Result<Seq<LabelView>, ErrorView> {
    if exists|at: int| first_unknown(known, ids, at) {
        Err(ErrorView::NotFound(ids[choose|at: int| first_unknown(known, ids, at)]))
    } else {
        Ok(ids.map_values(|id: i32| known_label(known, id)->0))
    }
}

/// Each of `labels` is one of `known`.
pub open spec fn all_known(known: Seq<LabelView>, labels: Seq<LabelView>) -> bool {
    forall|k: int| 0 <= k < labels.len() ==> known.contains(#[trigger] labels[k])
}

/// What a [`TodoRepositoryForMemory`] holds: its items by id, the last id
/// that it assigned (0 before the first), and the labels that it knows.
pub struct TodoStoreView {
    pub todos: Map<i32, TodoView>,
    pub last_id: i32,
    pub labels: Seq<LabelView>,
}

impl TodoStoreView {
    /// The store before anything was created, knowing `labels`.
    pub open spec fn empty(labels: Seq<LabelView>) -> Self {
        TodoStoreView { todos: Map::empty(), last_id: 0, labels }
    }

    /// Each item stands under its own id, which the store has assigned, and
    /// carries only labels that the store knows.
    pub open spec fn well_formed(self) -> bool {
        &&& 0 <= self.last_id
        &&& self.todos.dom().finite()
        &&& forall|id: i32| #[trigger]
            self.todos.contains_key(id) ==> 1 <= id <= self.last_id && self.todos[id].id == id
        &&& forall|id: i32| #[trigger]
            self.todos.contains_key(id) ==> all_known(self.labels, self.todos[id].labels)
    }

    /// Creating an item: it gets the id after the last one assigned, is not
    /// completed, and carries the labels that the request names. The store
    /// refuses once the largest id is assigned, and where an id of the
    /// request names no label; it is then as it was.
    pub open spec fn create(self, payload: CreateTodoView) -> (Self, Result<TodoView, ErrorView>) {
        if self.last_id == i32::MAX {
            (self, Err(ErrorView::Unexpected(ids_exhausted_message())))
        } else {
            match resolve(self.labels, payload.labels) {
                Ok(labels) => {
                    let todo = TodoView {
                        id: (self.last_id + 1) as i32,
                        text: payload.text,
                        completed: false,
                        labels,
                    };
                    (
                        TodoStoreView {
                            todos: self.todos.insert(todo.id, todo),
                            last_id: todo.id,
                            ..self
                        },
                        Ok(todo),
                    )
                },
                Err(error) => (self, Err(error)),
            }
        }
    }

    /// The item `id`, if the store has it.
    pub open spec fn find(self, id: i32) -> Result<TodoView, ErrorView> {
        if self.todos.contains_key(id) {
            Ok(self.todos[id])
        } else {
            Err(ErrorView::NotFound(id))
        }
    }

    /// Changing the item `id`: each field that the request holds replaces
    /// that of the item. The store refuses where it has no such item, and
    /// where an id of the request names no label; it is then as it was.
    pub open spec fn update(self, id: i32, payload: UpdateTodoView) -> (
        Self,
        Result<TodoView, ErrorView>,
    ) {
        if !self.todos.contains_key(id) {
            (self, Err(ErrorView::NotFound(id)))
        } else {
            let current = self.todos[id];
            let labels = match payload.labels {
                Some(ids) => resolve(self.labels, ids),
                None => Ok(current.labels),
            };
            match labels {
                Ok(labels) => {
                    let todo = TodoView {
                        id,
                        text: payload.text_over(current.text),
                        completed: payload.completed_over(current.completed),
                        labels,
                    };
                    (TodoStoreView { todos: self.todos.insert(id, todo), ..self }, Ok(todo))
                },
                Err(error) => (self, Err(error)),
            }
        }
    }

    /// Deleting the item `id`: it leaves the store if it is there.
    pub open spec fn delete(self, id: i32) -> (Self, Result<(), ErrorView>) {
        if self.todos.contains_key(id) {
            (TodoStoreView { todos: self.todos.remove(id), ..self }, Ok(()))
        } else {
            (self, Err(ErrorView::NotFound(id)))
        }
    }
}

/// An item store in memory, with the labels that items may carry given
/// when it is made. It assigns ids from 1 upwards and never assigns one
/// twice, also after an item was deleted.
pub struct TodoRepositoryForMemory {
    store: HashMap<i32, TodoEntity>,
    last_id: i32,
    labels: Vec<Label>,
}

impl View for TodoRepositoryForMemory {
    type V = TodoStoreView;

    closed spec fn view(&self) -> TodoStoreView {
        TodoStoreView {
            todos: Map::new(|id: i32| self.store@.contains_key(id), |id: i32| self.store@[id]@),
            last_id: self.last_id,
            labels: self.labels.deep_view(),
        }
    }
}

impl TodoRepositoryForMemory {
    /// A store without items, whose items may carry the labels of `labels`.
    pub fn new(labels: Vec<Label>) -> (repository: Self)
        ensures
            repository.well_formed(),
            repository@ == TodoStoreView::empty(labels.deep_view()),
    {
        let repository = TodoRepositoryForMemory { store: HashMap::new(), last_id: 0, labels };
        assert(repository@.todos =~= Map::empty());
        repository
    }

    /// The label that `id` names among the labels that the store knows.
    fn resolve_label(&self, id: i32) -> (found: Option<Label>)
        ensures
            found.deep_view() == known_label(self@.labels, id),
    {
        let ghost known = self@.labels;
        let mut at: usize = 0;
        while at < self.labels.len()
            invariant
                at <= self.labels.len(),
                known == self.labels.deep_view(),
                forall|k: int| 0 <= k < at ==> (#[trigger] known[k]).id != id,
            decreases self.labels.len() - at,
        {
            if self.labels[at].id == id {
                proof {
                    assert(first_with_id(known, id, at as int));
                    let chosen = choose|c: int| first_with_id(known, id, c);
                    assert(chosen == at);
                }
                return Some(self.labels[at].clone());
            }
            at += 1;
        }
        None
    }

    /// The labels that `ids` name among the labels that the store knows.
    fn resolve_labels(&self, ids: &Vec<i32>) -> (resolved: Result<Vec<Label>, RepositoryError>)
        ensures
            answer(resolved) == resolve(self@.labels, ids@),
    {
        let ghost known = self@.labels;
        let mut labels: Vec<Label> = Vec::new();
        let mut at: usize = 0;
        while at < ids.len()
            invariant
                at <= ids.len(),
                known == self@.labels,
                labels.len() == at,
                forall|k: int| 0 <= k < at ==> known_label(known, #[trigger] ids[k]) is Some,
                forall|k: int|
                    0 <= k < at ==> (#[trigger] labels[k])@ == known_label(known, ids[k])->0,
            decreases ids.len() - at,
        {
            match self.resolve_label(ids[at]) {
                Some(label) => {
                    labels.push(label);
                },
                None => {
                    proof {
                        assert(first_unknown(known, ids@, at as int));
                        let chosen = choose|c: int| first_unknown(known, ids@, c);
                        assert(chosen == at);
                    }
                    return Err(RepositoryError::NotFound(ids[at]));
                },
            }
            at += 1;
        }
        assert(labels.deep_view() =~= ids@.map_values(|id: i32| known_label(known, id)->0));
        Ok(labels)
    }

    /// Storing `todo` under its id, whether the id was free or held the item
    /// that `todo` replaces, keeps the store well formed.
    proof fn lemma_stored(before: Self, after: Self, todo: TodoView)
        requires
            before@.well_formed(),
            all_known(before@.labels, todo.labels),
            1 <= todo.id <= after.last_id,
            before.last_id <= after.last_id,
            after.labels == before.labels,
            after.store@.dom() == before.store@.dom().insert(todo.id),
            after.store@[todo.id]@ == todo,
            forall|id: i32| before.store@.contains_key(id) && id != todo.id ==> after.store@[id]
                == before.store@[id],
        ensures
            after@.well_formed(),
            after@.todos == before@.todos.insert(todo.id, todo),
    {
        broadcast use vstd::std_specs::hash::group_hash_axioms;

        assert(after@.todos =~= before@.todos.insert(todo.id, todo));
    }
}

impl TodoRepository for TodoRepositoryForMemory {
    open spec fn well_formed(&self) -> bool {
        self@.well_formed()
    }

    open spec fn todos(&self) -> Map<i32, TodoView> {
        self@.todos
    }

    fn create(&mut self, payload: CreateTodo) -> (created: Result<TodoEntity, RepositoryError>)
        ensures
            (final(self)@, answer(created)) == old(self)@.create(payload@),
    {
        broadcast use vstd::std_specs::hash::group_hash_axioms;

        if self.last_id == i32::MAX {
            return Err(RepositoryError::ids_exhausted());
        }
        let labels = match self.resolve_labels(&payload.labels) {
            Ok(labels) => labels,
            Err(error) => {
                return Err(error);
            },
        };
        let id: i32 = self.last_id + 1;
        let todo = TodoEntity { id, text: payload.text, completed: false, labels };
        let stored = todo.clone();
        self.store.insert(id, stored);
        self.last_id = id;
        proof {
            lemma_resolved(old(self)@.labels, payload@.labels);
            Self::lemma_stored(*old(self), *self, todo@);
        }
        Ok(todo)
    }

    fn find(&self, id: i32) -> (found: Result<TodoEntity, RepositoryError>)
        ensures
            answer(found) == self@.find(id),
    {
        broadcast use vstd::std_specs::hash::group_hash_axioms;

        match self.store.get(&id) {
            Some(todo) => Ok(todo.clone()),
            None => Err(RepositoryError::NotFound(id)),
        }
    }

    fn all(&self) -> (listed: Result<Vec<TodoEntity>, RepositoryError>)
        ensures
            listed is Ok,
    {
        broadcast use vstd::std_specs::hash::group_hash_axioms;

        let mut todos: Vec<TodoEntity> = Vec::new();
        for pair in it: self.store.iter()
            invariant
                self.well_formed(),
                todos.len() == it.index(),
                it.seq().len() == self.store@.dom().len(),
                it.seq().no_duplicates(),
                forall|i: int|
                    0 <= i < it.seq().len() ==> self.store@.contains_key(
                        *(#[trigger] it.seq()[i]).0,
                    ) && self.store@[*it.seq()[i].0] == *it.seq()[i].1,
                forall|i: int| 0 <= i < todos.len() ==> (#[trigger] todos[i]).id == *it.seq()[i].0,
                forall|i: int|
                    0 <= i < todos.len() ==> self.store@.contains_key((#[trigger] todos[i]).id)
                        && self.store@[todos[i].id]@ == todos[i]@,
                forall|i: int, j: int|
                    0 <= i < j < todos.len() ==> (#[trigger] todos[i]).id != (
                    #[trigger] todos[j]).id,
        {
            let ghost n = todos.len() as int;
            let todo = pair.1.clone();
            assert(self@.todos.contains_key(*it.seq()[n].0));
            todos.push(todo);
        }
        assert(self@.todos.dom() =~= self.store@.dom());
        Ok(todos)
    }

    fn update(&mut self, id: i32, payload: UpdateTodo) -> (updated: Result<
        TodoEntity,
        RepositoryError,
    >)
        ensures
            (final(self)@, answer(updated)) == old(self)@.update(id, payload@),
    {
        broadcast use vstd::std_specs::hash::group_hash_axioms;

        let ghost request = payload@;
        let current = match self.store.get(&id) {
            Some(current) => current,
            None => {
                return Err(RepositoryError::NotFound(id));
            },
        };
        assert(self@.todos.contains_key(id));
        let kept = current.labels.clone();
        let change = merge(current, payload);
        let labels = match change.labels {
            Some(ids) => match self.resolve_labels(&ids) {
                Ok(labels) => labels,
                Err(error) => {
                    return Err(error);
                },
            },
            None => kept,
        };
        let todo = TodoEntity { id, text: change.text, completed: change.completed, labels };
        let stored = todo.clone();
        self.store.insert(id, stored);
        proof {
            if request.labels is Some {
                lemma_resolved(old(self)@.labels, request.labels->0);
            }
            Self::lemma_stored(*old(self), *self, todo@);
        }
        Ok(todo)
    }

    fn delete(&mut self, id: i32) -> (deleted: Result<(), RepositoryError>)
        ensures
            (final(self)@, answer(deleted)) == old(self)@.delete(id),
    {
        broadcast use vstd::std_specs::hash::group_hash_axioms;

        match self.store.remove(&id) {
            Some(_) => {
                assert(self@.todos =~= old(self)@.todos.remove(id));
                Ok(())
            },
            None => {
                assert(self@.todos =~= old(self)@.todos);
                Err(RepositoryError::NotFound(id))
            },
        }
    }
}

/// No ids resolve to no labels.
pub proof fn lemma_resolve_none(known: Seq<LabelView>)
    ensures
        resolve(known, Seq::empty()) == Ok::<Seq<LabelView>, ErrorView>(Seq::empty()),
{
    let ids = Seq::<i32>::empty();
    assert(ids.map_values(|id: i32| known_label(known, id)->0) =~= Seq::<LabelView>::empty());
}

/// A store starts well formed, and every operation keeps it so.
pub proof fn lemma_operations_keep_well_formed(
    store: TodoStoreView,
    id: i32,
    created: CreateTodoView,
    updated: UpdateTodoView,
)
    requires
        store.well_formed(),
    ensures
        TodoStoreView::empty(store.labels).well_formed(),
        store.create(created).0.well_formed(),
        store.update(id, updated).0.well_formed(),
        store.delete(id).0.well_formed(),
{
    lemma_resolved(store.labels, created.labels);
    if updated.labels is Some {
        lemma_resolved(store.labels, updated.labels->0);
    }
}

/// Ids are assigned from 1 upwards, one after the other, and an id that was
/// assigned once is not assigned again, whatever was deleted since: a new
/// item gets the id after the last one assigned, which no item has, and
/// neither deleting nor changing an item touches the last id assigned.
pub proof fn lemma_ids_are_not_assigned_twice(
    store: TodoStoreView,
    id: i32,
    created: CreateTodoView,
    updated: UpdateTodoView,
)
    requires
        store.well_formed(),
    ensures
        store.create(created).1 matches Ok(todo) ==> todo.id == store.last_id + 1
            && !store.todos.contains_key(todo.id) && store.create(created).0.last_id == todo.id,
        store.create(created).1 is Err ==> store.create(created).0 == store,
        store.delete(id).0.last_id == store.last_id,
        store.update(id, updated).0.last_id == store.last_id,
        TodoStoreView::empty(store.labels).create(created).1 matches Ok(todo) ==> todo.id == 1,
{
}

/// Reading back what was just created gives what `create` answered.
pub proof fn lemma_create_then_find(store: TodoStoreView, payload: CreateTodoView)
    requires
        store.well_formed(),
    ensures
        store.create(payload).1 matches Ok(todo) ==> store.create(payload).0.find(todo.id) == Ok::<
            TodoView,
            ErrorView,
        >(todo),
{
}

/// An update changes only the fields that it holds: the item keeps its id
/// and each of text, state and labels that the request leaves out, and
/// every other item stays as it was. What `update` answers is what the store
/// then holds.
pub proof fn lemma_update_keeps_what_it_leaves_out(
    store: TodoStoreView,
    id: i32,
    payload: UpdateTodoView,
)
    requires
        store.well_formed(),
        store.todos.contains_key(id),
    ensures
        store.update(id, payload).1 matches Ok(todo) ==> {
            &&& todo.id == id
            &&& payload.text is None ==> todo.text == store.todos[id].text
            &&& payload.text matches Some(text) ==> todo.text == text
            &&& payload.completed is None ==> todo.completed == store.todos[id].completed
            &&& payload.completed matches Some(completed) ==> todo.completed == completed
            &&& payload.labels is None ==> todo.labels == store.todos[id].labels
            &&& store.update(id, payload).0.find(id) == Ok::<TodoView, ErrorView>(todo)
            &&& forall|other: i32|
                other != id ==> store.update(id, payload).0.find(other) == store.find(other)
        },
        payload.labels is None ==> store.update(id, payload).1 is Ok,
{
}

/// Labels leave an item only where the request says so: an update that
/// holds an empty list of labels leaves the item without labels, and one
/// that holds no list leaves the labels that the item had.
pub proof fn lemma_update_clears_labels_only_on_request(
    store: TodoStoreView,
    id: i32,
    payload: UpdateTodoView,
)
    requires
        store.well_formed(),
        store.todos.contains_key(id),
    ensures
        payload.labels == Some(Seq::<i32>::empty()) ==> store.update(id, payload).1 is Ok
            && store.update(id, payload).1->Ok_0.labels == Seq::<LabelView>::empty(),
        payload.labels is None ==> store.update(id, payload).1 is Ok && store.update(
            id,
            payload,
        ).1->Ok_0.labels == store.todos[id].labels,
{
    lemma_resolve_none(store.labels);
}

/// An item that was deleted is not found any more, and every other item is
/// found as before.
pub proof fn lemma_delete_then_find(store: TodoStoreView, id: i32)
    requires
        store.well_formed(),
    ensures
        store.delete(id).1 is Ok <==> store.todos.contains_key(id),
        store.delete(id).1 is Ok ==> store.delete(id).0.find(id) == Err::<TodoView, ErrorView>(
            ErrorView::NotFound(id),
        ),
        forall|other: i32| other != id ==> store.delete(id).0.find(other) == store.find(other),
{
}

/// Where every id of `ids` names a label of `known`, the labels that they
/// resolve to are labels of `known` and have these ids, in this order.
/// Otherwise the id that the error names is one of `ids`.
pub proof fn lemma_resolved(known: Seq<LabelView>, ids: Seq<i32>)
    ensures
        resolve(known, ids) matches Ok(labels) ==> label_ids(labels) == ids && all_known(
            known,
            labels,
        ),
        resolve(known, ids) matches Err(error) ==> exists|at: int|
            0 <= at < ids.len() && error == ErrorView::NotFound(#[trigger] ids[at]),
{
    if exists|at: int| first_unknown(known, ids, at) {
        let at = choose|at: int| first_unknown(known, ids, at);
        assert(first_unknown(known, ids, at));
    } else {
        let labels = ids.map_values(|id: i32| known_label(known, id)->0);
        assert forall|i: int| 0 <= i < ids.len() implies (#[trigger] labels[i]).id == ids[i]
            && known.contains(labels[i]) by {
            lemma_known_everywhere(known, ids, i);
            let at = choose|at: int| first_with_id(known, ids[i], at);
            assert(labels[i] == known[at]);
        }
    }
}

/// Where no id of `ids` is the first that names no label, each names one.
proof fn lemma_known_everywhere(known: Seq<LabelView>, ids: Seq<i32>, i: int)
    requires
        !exists|at: int| first_unknown(known, ids, at),
        0 <= i < ids.len(),
    ensures
        known_label(known, ids[i]) is Some,
    decreases i,
{
    if known_label(known, ids[i]) is None {
        assert forall|k: int| 0 <= k < i implies known_label(known, #[trigger] ids[k]) is Some by {
            lemma_known_everywhere(known, ids, k);
        }
        assert(first_unknown(known, ids, i));
    }
}

} // verus!
