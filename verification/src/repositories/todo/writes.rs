//! What a relational backend writes for an operation on items.
//!
//! An item lives in one row of its own and in one join row for each of its
//! labels. The writes of one operation are meant for one transaction, in the
//! order given: none of them shows without the others.

use vstd::prelude::*;
use crate::repositories::todo::{merge, CreateTodo, TodoEntity, TodoView, UpdateTodo, UpdateTodoView};

verus! {

/// The row of a new item, as far as the backend provides it: the store
/// assigns the id.
#[derive(Debug, PartialEq, Eq)]
pub struct NewTodo {
    pub text: String,
    pub completed: bool,
}

/// One write to rows that are there, or to join rows.
#[derive(Debug, PartialEq, Eq)]
pub enum Write {
    /// Set the text and the state in the row of the item `id`.
    SetFields { id: i32, text: String, completed: bool },
    /// Insert one join row for each of `label_ids`, in their order.
    AttachLabels { todo_id: i32, label_ids: Vec<i32> },
    /// Delete every join row of the item `todo_id`.
    DetachLabels { todo_id: i32 },
    /// Delete the row of the item `id`.
    DeleteTodo { id: i32 },
}

/// A [`Write`] as contracts speak of it.
pub enum WriteView {
    SetFields { id: i32, text: Seq<char>, completed: bool },
    AttachLabels { todo_id: i32, label_ids: Seq<i32> },
    DetachLabels { todo_id: i32 },
    DeleteTodo { id: i32 },
}

impl View for Write {
    type V = WriteView;

    open spec fn view(&self) -> WriteView {
        match *self {
            Write::SetFields { id, text, completed } => WriteView::SetFields {
                id,
                text: text@,
                completed,
            },
            Write::AttachLabels { todo_id, label_ids } => WriteView::AttachLabels {
                todo_id,
                label_ids: label_ids@,
            },
            Write::DetachLabels { todo_id } => WriteView::DetachLabels { todo_id },
            Write::DeleteTodo { id } => WriteView::DeleteTodo { id },
        }
    }
}

impl DeepView for Write {
    type V = WriteView;

    open spec fn deep_view(&self) -> WriteView {
        self@
    }
}

/// The row that creating an item inserts: it has the text of the request
/// and is not completed.
pub fn new_row(payload: &CreateTodo) -> (row: NewTodo)
    ensures
        row.text@ == payload@.text,
        !row.completed,
{
    NewTodo { text: payload.text.clone(), completed: false }
}

/// What creating an item writes once the store has assigned `id` to its
/// row: one join row for each label of the request.
pub fn attach_for(id: i32, payload: CreateTodo) -> (write: Write)
    ensures
        write@ == (WriteView::AttachLabels { todo_id: id, label_ids: payload@.labels }),
{
    Write::AttachLabels { todo_id: id, label_ids: payload.labels }
}

/// What an update of `current` writes.
pub open spec fn update_plan(current: TodoView, payload: UpdateTodoView) -> Seq<WriteView> {
    let fields = WriteView::SetFields {
        id: current.id,
        text: payload.text_over(current.text),
        completed: payload.completed_over(current.completed),
    };
    match payload.labels {
        Some(label_ids) => seq![
            fields,
            WriteView::DetachLabels { todo_id: current.id },
            WriteView::AttachLabels { todo_id: current.id, label_ids },
        ],
        None => seq![fields],
    }
}

/// What an update of the item `current` writes: its text and state, each
/// from the request where the request holds it and as it was otherwise;
/// then, where the request holds labels, all join rows of the item go and
/// those of the request come. A request without labels leaves the join rows
/// alone.
pub fn update_writes(current: &TodoEntity, payload: UpdateTodo) -> (writes: Vec<Write>)
    ensures
        writes.deep_view() == update_plan(current@, payload@),
{
    let id = current.id;
    let change = merge(current, payload);
    let mut writes: Vec<Write> = Vec::new();
    writes.push(Write::SetFields { id, text: change.text, completed: change.completed });
    if let Some(label_ids) = change.labels {
        writes.push(Write::DetachLabels { todo_id: id });
        writes.push(Write::AttachLabels { todo_id: id, label_ids });
    }
    writes
}

/// What deleting the item `id` writes: its join rows go first, its own row
/// last. Whether the item was there shows in the number of rows that the
/// last write removed.
pub fn delete_writes(id: i32) -> (writes: Vec<Write>)
    ensures
        writes.deep_view() == seq![
            WriteView::DetachLabels { todo_id: id },
            WriteView::DeleteTodo { id },
        ],
{
    let mut writes: Vec<Write> = Vec::new();
    writes.push(Write::DetachLabels { todo_id: id });
    writes.push(Write::DeleteTodo { id });
    assert(writes.deep_view() =~= seq![
        WriteView::DetachLabels { todo_id: id },
        WriteView::DeleteTodo { id },
    ]);
    writes
}

} // verus!
