//! Items and the operations on them.

use vstd::prelude::*;
use crate::repositories::{answer, ErrorView, RepositoryError};
use crate::repositories::label::{Label, LabelView};

pub mod memory;
pub mod writes;

pub use crate::repositories::rows::{entity_from_rows, fold_entities, TodoWithLabelFromRow};

verus! {

/// An item with the labels attached to it. The order of `labels` is that in
/// which the rows read from the store brought them.
#[derive(Debug, PartialEq, Eq)]
pub struct TodoEntity {
    pub id: i32,
    pub text: String,
    pub completed: bool,
    pub labels: Vec<Label>,
}

/// A [`TodoEntity`] as contracts speak of it.
pub struct TodoView {
    pub id: i32,
    pub text: Seq<char>,
    pub completed: bool,
    pub labels: Seq<LabelView>,
}

impl View for TodoEntity {
    type V = TodoView;

    open spec fn view(&self) -> TodoView {
        TodoView {
            id: self.id,
            text: self.text@,
            completed: self.completed,
            labels: self.labels.deep_view(),
        }
    }
}

impl DeepView for TodoEntity {
    type V = TodoView;

    open spec fn deep_view(&self) -> TodoView {
        self@
    }
}

impl Clone for TodoEntity {
    fn clone(&self) -> (copy: Self)
        ensures
            copy@ == self@,
    {
        TodoEntity {
            id: self.id,
            text: self.text.clone(),
            completed: self.completed,
            labels: self.labels.clone(),
        }
    }
}

impl TodoEntity {
    pub fn new(id: i32, text: String, completed: bool, labels: Vec<Label>) -> (todo: Self)
        ensures
            todo@ == (TodoView { id, text: text@, completed, labels: labels.deep_view() }),
    {
        TodoEntity { id, text, completed, labels }
    }
}

/// The request to create an item: its text, and the ids of its labels.
#[derive(Debug, PartialEq, Eq)]
pub struct CreateTodo {
    pub text: String,
    pub labels: Vec<i32>,
}

/// A [`CreateTodo`] as contracts speak of it.
pub struct CreateTodoView {
    pub text: Seq<char>,
    pub labels: Seq<i32>,
}

impl View for CreateTodo {
    type V = CreateTodoView;

    open spec fn view(&self) -> CreateTodoView {
        CreateTodoView { text: self.text@, labels: self.labels@ }
    }
}

impl Clone for CreateTodo {
    fn clone(&self) -> (copy: Self)
        ensures
            copy@ == self@,
    {
        CreateTodo { text: self.text.clone(), labels: self.labels.clone() }
    }
}

impl CreateTodo {
    pub fn new(text: String, labels: Vec<i32>) -> (payload: Self)
        ensures
            payload@ == (CreateTodoView { text: text@, labels: labels@ }),
    {
        CreateTodo { text, labels }
    }
}

/// The request to change an item. A field that is absent leaves what the
/// item has; `labels` that are present, also when empty, replace all labels
/// of the item.
#[derive(Debug, PartialEq, Eq)]
pub struct UpdateTodo {
    pub text: Option<String>,
    pub completed: Option<bool>,
    pub labels: Option<Vec<i32>>,
}

/// An [`UpdateTodo`] as contracts speak of it.
pub struct UpdateTodoView {
    pub text: Option<Seq<char>>,
    pub completed: Option<bool>,
    pub labels: Option<Seq<i32>>,
}

impl UpdateTodoView {
    /// The text of an item after the update, of which `current` was the text.
    pub open spec fn text_over(self, current: Seq<char>) -> Seq<char> {
        match self.text {
            Some(text) => text,
            None => current,
        }
    }

    /// The state of an item after the update, of which `current` was the state.
    pub open spec fn completed_over(self, current: bool) -> bool {
        match self.completed {
            Some(completed) => completed,
            None => current,
        }
    }
}

impl View for UpdateTodo {
    type V = UpdateTodoView;

    open spec fn view(&self) -> UpdateTodoView {
        UpdateTodoView {
            text: match self.text {
                Some(text) => Some(text@),
                None => None,
            },
            completed: self.completed,
            labels: match self.labels {
                Some(labels) => Some(labels@),
                None => None,
            },
        }
    }
}

impl Clone for UpdateTodo {
    fn clone(&self) -> (copy: Self)
        ensures
            copy@ == self@,
    {
        UpdateTodo {
            text: match &self.text {
                Some(text) => Some(text.clone()),
                None => None,
            },
            completed: self.completed,
            labels: match &self.labels {
                Some(labels) => Some(labels.clone()),
                None => None,
            },
        }
    }
}

impl UpdateTodo {
    pub fn new(text: Option<String>, completed: Option<bool>, labels: Option<Vec<i32>>) -> (payload:
        Self)
        ensures
            payload.text == text,
            payload.completed == completed,
            payload.labels == labels,
    {
        UpdateTodo { text, completed, labels }
    }
}

/// What an update writes: the item's text and state in full, and, where the
/// labels are to be replaced, the ids of the new ones.
#[derive(Debug, PartialEq, Eq)]
pub struct TodoChange {
    pub text: String,
    pub completed: bool,
    pub labels: Option<Vec<i32>>,
}

/// Lays the fields that `payload` holds over those of `current`.
pub fn merge(current: &TodoEntity, payload: UpdateTodo) -> (change: TodoChange)
    ensures
        change.text@ == payload@.text_over(current@.text),
        change.completed == payload@.completed_over(current@.completed),
        change.labels == payload.labels,
{
    let text = match payload.text {
        Some(text) => text,
        None => current.text.clone(),
    };
    let completed = match payload.completed {
        Some(completed) => completed,
        None => current.completed,
    };
    TodoChange { text, completed, labels: payload.labels }
}

/// The ids of `labels`, in their order.
pub open spec fn label_ids(labels: Seq<LabelView>) -> Seq<i32> {
    labels.map_values(|label: LabelView| label.id)
}

/// `listing` holds each item of `todos` once, and nothing else.
pub open spec fn lists_todos(todos: Map<i32, TodoView>, listing: Seq<TodoView>) -> bool {
    &&& listing.len() == todos.dom().len()
    &&& forall|i: int|
        0 <= i < listing.len() ==> todos.contains_key((#[trigger] listing[i]).id)
            && todos[listing[i].id] == listing[i]
    &&& forall|i: int, j: int|
        0 <= i < j < listing.len() ==> (#[trigger] listing[i]).id != (#[trigger] listing[j]).id
}

/// What an item repository may answer to the request to create an item, and
/// what it may hold afterwards.
///
/// The new item has the text of the request, is not completed, carries the
/// labels that the request names, and stands under an id that was free.
/// Nothing else changes, and nothing changes where the backend refuses.
pub open spec fn create_todo_allowed(
    before: Map<i32, TodoView>,
    payload: CreateTodoView,
    answer: Result<TodoView, ErrorView>,
    after: Map<i32, TodoView>,
) -> bool {
    match answer {
        Ok(todo) => {
            &&& todo.text == payload.text
            &&& !todo.completed
            &&& label_ids(todo.labels).to_set() == payload.labels.to_set()
            &&& !before.contains_key(todo.id)
            &&& after == before.insert(todo.id, todo)
        },
        Err(ErrorView::Duplicate(_)) => false,
        Err(_) => after == before,
    }
}

/// What an item repository may answer to the request for the item `id`.
pub open spec fn find_todo_allowed(
    todos: Map<i32, TodoView>,
    id: i32,
    answer: Result<TodoView, ErrorView>,
) -> bool {
    match answer {
        Ok(todo) => todos.contains_key(id) && todos[id] == todo,
        Err(ErrorView::NotFound(missing)) => missing == id && !todos.contains_key(id),
        Err(ErrorView::Unexpected(_)) => true,
        Err(ErrorView::Duplicate(_)) => false,
    }
}

/// What an item repository may answer to the request for all items.
pub open spec fn all_todos_allowed(
    todos: Map<i32, TodoView>,
    answer: Result<Seq<TodoView>, ErrorView>,
) -> bool {
    match answer {
        Ok(listing) => lists_todos(todos, listing),
        Err(ErrorView::Unexpected(_)) => true,
        Err(_) => false,
    }
}

/// What an item repository may answer to the request to change the item
/// `id`, and what it may hold afterwards.
///
/// The item keeps its id and each field that the request leaves out; labels
/// that the request holds replace those of the item. Nothing else changes.
/// `NotFound` names `id`, which is then not stored, or a label of the
/// request; the store is then as it was.
pub open spec fn update_todo_allowed(
    before: Map<i32, TodoView>,
    id: i32,
    payload: UpdateTodoView,
    answer: Result<TodoView, ErrorView>,
    after: Map<i32, TodoView>,
) -> bool {
    match answer {
        Ok(todo) => {
            &&& before.contains_key(id)
            &&& todo.id == id
            &&& todo.text == payload.text_over(before[id].text)
            &&& todo.completed == payload.completed_over(before[id].completed)
            &&& match payload.labels {
                Some(ids) => label_ids(todo.labels).to_set() == ids.to_set(),
                None => todo.labels == before[id].labels,
            }
            &&& after == before.insert(id, todo)
        },
        Err(ErrorView::NotFound(missing)) => {
            &&& after == before
            &&& if before.contains_key(id) {
                payload.labels is Some && payload.labels->0.contains(missing)
            } else {
                missing == id
            }
        },
        Err(ErrorView::Unexpected(_)) => after == before,
        Err(ErrorView::Duplicate(_)) => false,
    }
}

/// What an item repository may answer to the request to delete the item
/// `id`, and what it may hold afterwards. Only `id` leaves the store.
pub open spec fn delete_todo_allowed(
    before: Map<i32, TodoView>,
    id: i32,
    answer: Result<(), ErrorView>,
    after: Map<i32, TodoView>,
) -> bool {
    match answer {
        Ok(_) => before.contains_key(id) && after == before.remove(id),
        Err(ErrorView::NotFound(missing)) => {
            &&& missing == id
            &&& !before.contains_key(id)
            &&& after == before
        },
        Err(ErrorView::Unexpected(_)) => after == before,
        Err(ErrorView::Duplicate(_)) => false,
    }
}

/// With any backend, reading back what was just created gives what `create`
/// answered, unless the backend fails.
pub proof fn lemma_created_is_found(
    before: Map<i32, TodoView>,
    payload: CreateTodoView,
    created: TodoView,
    after: Map<i32, TodoView>,
    found: Result<TodoView, ErrorView>,
)
    requires
        create_todo_allowed(before, payload, Ok(created), after),
        find_todo_allowed(after, created.id, found),
    ensures
        found == Ok::<TodoView, ErrorView>(created) || found matches Err(ErrorView::Unexpected(_)),
{
}

/// With any backend, an update changes only what the request holds: the
/// item keeps each of text and state that the request leaves out, it keeps
/// its labels unless the request holds labels, and it has no label left
/// where the request holds an empty list. Reading the item back gives what
/// `update` answered, unless the backend fails.
pub proof fn lemma_updated_is_merged(
    before: Map<i32, TodoView>,
    id: i32,
    payload: UpdateTodoView,
    updated: TodoView,
    after: Map<i32, TodoView>,
    found: Result<TodoView, ErrorView>,
)
    requires
        update_todo_allowed(before, id, payload, Ok(updated), after),
        find_todo_allowed(after, id, found),
    ensures
        payload.text is None ==> updated.text == before[id].text,
        payload.completed is None ==> updated.completed == before[id].completed,
        payload.labels is None ==> updated.labels == before[id].labels,
        payload.labels == Some(Seq::<i32>::empty()) ==> updated.labels == Seq::<LabelView>::empty(),
        found == Ok::<TodoView, ErrorView>(updated) || found matches Err(ErrorView::Unexpected(_)),
{
    if payload.labels == Some(Seq::<i32>::empty()) && updated.labels.len() > 0 {
        assert(label_ids(updated.labels).to_set().contains(label_ids(updated.labels)[0]));
    }
}

/// With any backend, an item that was deleted is not found any more: asking
/// for it gives `NotFound` with its id, unless the backend fails.
pub proof fn lemma_deleted_is_not_found(
    before: Map<i32, TodoView>,
    id: i32,
    after: Map<i32, TodoView>,
    found: Result<TodoView, ErrorView>,
)
    requires
        delete_todo_allowed(before, id, Ok(()), after),
        find_todo_allowed(after, id, found),
    ensures
        found == Err::<TodoView, ErrorView>(ErrorView::NotFound(id)) || found matches Err(
            ErrorView::Unexpected(_),
        ),
{
}

/// The operations on items that every backend offers.
///
/// The contracts say what holds of each backend. A backend may promise more:
/// the in-memory store says exactly what it answers. The backends differ
/// in what they answer to a label id that names no label: the in-memory one
/// refuses with `NotFound` and that id, the relational one with
/// `Unexpected`. Only the in-memory one leaves the order of `all` open; the
/// relational one lists by falling id.
pub trait TodoRepository {
    /// The invariant of the backend's own data.
    spec fn well_formed(&self) -> bool;

    /// The items that the backend holds, by id.
    spec fn todos(&self) -> Map<i32, TodoView>;

    /// Stores a new item.
    fn create(&mut self, payload: CreateTodo) -> (created: Result<TodoEntity, RepositoryError>)
        requires
            old(self).well_formed(),
        ensures
            final(self).well_formed(),
            create_todo_allowed(old(self).todos(), payload@, answer(created), final(self).todos()),
    ;

    /// The item `id`.
    fn find(&self, id: i32) -> (found: Result<TodoEntity, RepositoryError>)
        requires
            self.well_formed(),
        ensures
            find_todo_allowed(self.todos(), id, answer(found)),
    ;

    /// Every item.
    fn all(&self) -> (listed: Result<Vec<TodoEntity>, RepositoryError>)
        requires
            self.well_formed(),
        ensures
            all_todos_allowed(self.todos(), answer(listed)),
    ;

    /// Changes the item `id`.
    fn update(&mut self, id: i32, payload: UpdateTodo) -> (updated: Result<
        TodoEntity,
        RepositoryError,
    >)
        requires
            old(self).well_formed(),
        ensures
            final(self).well_formed(),
            update_todo_allowed(
                old(self).todos(),
                id,
                payload@,
                answer(updated),
                final(self).todos(),
            ),
    ;

    /// Removes the item `id`.
    fn delete(&mut self, id: i32) -> (deleted: Result<(), RepositoryError>)
        requires
            old(self).well_formed(),
        ensures
            final(self).well_formed(),
            delete_todo_allowed(old(self).todos(), id, answer(deleted), final(self).todos()),
    ;
}

} // verus!
