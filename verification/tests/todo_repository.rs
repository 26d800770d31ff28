use todo_backend::repositories::label::Label;
use todo_backend::repositories::todo::memory::TodoRepositoryForMemory;
use todo_backend::repositories::todo::{
    merge, CreateTodo, TodoChange, TodoEntity, TodoRepository, UpdateTodo,
};
use todo_backend::repositories::todo::writes::{
    attach_for, delete_writes, new_row, update_writes, NewTodo, Write,
};
use todo_backend::repositories::{confirm_deleted, RepositoryError};

fn three_labels() -> Vec<Label> {
    vec![
        Label::new(1, "one".to_string()),
        Label::new(2, "two".to_string()),
        Label::new(3, "three".to_string()),
    ]
}

#[test]
fn todo_crud_scenario() {
    let label_data = Label::new(1, "test label".to_string());
    let labels = vec![label_data.clone()];
    let id = 1;
    let text = "todo text".to_string();
    let mut repo = TodoRepositoryForMemory::new(labels.clone());

    // create
    let expected = TodoEntity::new(id, text.clone(), false, labels.clone());
    let todo = repo.create(CreateTodo::new(text, vec![label_data.id])).expect("failed create todo");
    assert_eq!(expected, todo);

    // find
    let todo = repo.find(todo.id).unwrap();
    assert_eq!(expected, todo);

    // all
    let todos = repo.all().expect("failed get all todos");
    assert_eq!(vec![expected], todos);

    // update
    let text = "update todo text".to_string();
    let todo = repo
        .update(1, UpdateTodo::new(Some(text.clone()), Some(true), None))
        .expect("failed update todo.");
    assert_eq!(TodoEntity { id, text, completed: true, labels: labels.clone() }, todo);

    // delete
    let res = repo.delete(id);
    assert!(res.is_ok());
}

#[test]
fn todo_found_is_what_create_answered() {
    let mut repo = TodoRepositoryForMemory::new(three_labels());
    let first = repo.create(CreateTodo::new("first".to_string(), vec![])).unwrap();
    let second = repo.create(CreateTodo::new("second".to_string(), vec![3, 1])).unwrap();
    assert_eq!(first, TodoEntity::new(1, "first".to_string(), false, vec![]));
    assert_eq!(
        second,
        TodoEntity::new(
            2,
            "second".to_string(),
            false,
            vec![Label::new(3, "three".to_string()), Label::new(1, "one".to_string())]
        )
    );
    assert_eq!(repo.find(first.id), Ok(first));
    assert_eq!(repo.find(second.id), Ok(second));
}

#[test]
fn todo_labels_resolve_each_id_by_itself() {
    let mut repo = TodoRepositoryForMemory::new(three_labels());
    let todo = repo.create(CreateTodo::new("t".to_string(), vec![2, 2, 1])).unwrap();
    assert_eq!(
        todo.labels,
        vec![
            Label::new(2, "two".to_string()),
            Label::new(2, "two".to_string()),
            Label::new(1, "one".to_string())
        ]
    );
}

#[test]
fn todo_label_of_a_repeated_id_is_the_first_known() {
    let known = vec![Label::new(1, "first".to_string()), Label::new(1, "second".to_string())];
    let mut repo = TodoRepositoryForMemory::new(known);
    let todo = repo.create(CreateTodo::new("t".to_string(), vec![1])).unwrap();
    assert_eq!(todo.labels, vec![Label::new(1, "first".to_string())]);
}

#[test]
fn todo_create_with_an_unknown_label_is_not_found() {
    let mut repo = TodoRepositoryForMemory::new(three_labels());
    assert_eq!(
        repo.create(CreateTodo::new("t".to_string(), vec![1, 9, 8])),
        Err(RepositoryError::NotFound(9))
    );
    assert_eq!(repo.all(), Ok(vec![]));
    // The refused request took no id.
    let todo = repo.create(CreateTodo::new("t".to_string(), vec![1])).unwrap();
    assert_eq!(todo.id, 1);
}

#[test]
fn todo_update_of_text_keeps_state_and_labels() {
    let mut repo = TodoRepositoryForMemory::new(three_labels());
    repo.create(CreateTodo::new("t1".to_string(), vec![1, 2])).unwrap();
    let done = repo.update(1, UpdateTodo::new(None, Some(true), None)).unwrap();
    assert_eq!(done.text, "t1");
    assert!(done.completed);
    let renamed = repo.update(1, UpdateTodo::new(Some("t2".to_string()), None, None)).unwrap();
    assert_eq!(
        renamed,
        TodoEntity::new(
            1,
            "t2".to_string(),
            true,
            vec![Label::new(1, "one".to_string()), Label::new(2, "two".to_string())]
        )
    );
    assert_eq!(repo.find(1), Ok(renamed));
}

#[test]
fn todo_update_clears_labels_only_on_request() {
    let mut repo = TodoRepositoryForMemory::new(three_labels());
    let created = repo.create(CreateTodo::new("t".to_string(), vec![1, 2])).unwrap();
    let kept = repo.update(1, UpdateTodo::new(None, None, None)).unwrap();
    assert_eq!(kept, created);
    let cleared = repo.update(1, UpdateTodo::new(None, None, Some(vec![]))).unwrap();
    assert_eq!(cleared, TodoEntity::new(1, "t".to_string(), false, vec![]));
    assert_eq!(repo.find(1), Ok(cleared));
    let replaced = repo.update(1, UpdateTodo::new(None, None, Some(vec![3]))).unwrap();
    assert_eq!(replaced.labels, vec![Label::new(3, "three".to_string())]);
}

#[test]
fn todo_update_failures_change_nothing() {
    let mut repo = TodoRepositoryForMemory::new(three_labels());
    assert_eq!(
        repo.update(1, UpdateTodo::new(Some("x".to_string()), None, None)),
        Err(RepositoryError::NotFound(1))
    );
    let created = repo.create(CreateTodo::new("t".to_string(), vec![1])).unwrap();
    assert_eq!(
        repo.update(1, UpdateTodo::new(Some("x".to_string()), Some(true), Some(vec![2, 7]))),
        Err(RepositoryError::NotFound(7))
    );
    assert_eq!(repo.find(1), Ok(created));
    assert_eq!(
        repo.update(5, UpdateTodo::new(None, None, Some(vec![7]))),
        Err(RepositoryError::NotFound(5))
    );
}

#[test]
fn todo_deleted_is_not_found() {
    let mut repo = TodoRepositoryForMemory::new(vec![]);
    let a = repo.create(CreateTodo::new("a".to_string(), vec![])).unwrap();
    let b = repo.create(CreateTodo::new("b".to_string(), vec![])).unwrap();
    assert_eq!(repo.delete(a.id), Ok(()));
    assert_eq!(repo.find(a.id), Err(RepositoryError::NotFound(1)));
    assert_eq!(repo.find(b.id), Ok(b.clone()));
    assert_eq!(repo.delete(a.id), Err(RepositoryError::NotFound(1)));
    assert_eq!(repo.all(), Ok(vec![b]));
}

#[test]
fn todo_ids_are_not_assigned_twice() {
    let mut repo = TodoRepositoryForMemory::new(vec![]);
    repo.create(CreateTodo::new("a".to_string(), vec![])).unwrap();
    repo.create(CreateTodo::new("b".to_string(), vec![])).unwrap();
    repo.delete(1).unwrap();
    let c = repo.create(CreateTodo::new("c".to_string(), vec![])).unwrap();
    assert_eq!(c.id, 3);
    repo.delete(3).unwrap();
    repo.delete(2).unwrap();
    let d = repo.create(CreateTodo::new("d".to_string(), vec![])).unwrap();
    assert_eq!(d.id, 4);
    assert_eq!(repo.all(), Ok(vec![d]));
}

#[test]
fn todo_all_lists_each_item_once() {
    let mut repo = TodoRepositoryForMemory::new(three_labels());
    for n in 0..20 {
        repo.create(CreateTodo::new(format!("todo {n}"), vec![1 + n % 3])).unwrap();
    }
    repo.delete(7).unwrap();
    let mut all = repo.all().unwrap();
    all.sort_by_key(|todo| todo.id);
    let ids: Vec<i32> = all.iter().map(|todo| todo.id).collect();
    let expected: Vec<i32> = (1..=20).filter(|id| *id != 7).collect();
    assert_eq!(ids, expected);
    for todo in all {
        assert_eq!(repo.find(todo.id), Ok(todo));
    }
}

#[test]
fn merge_lays_present_fields_over_the_item() {
    let current = TodoEntity::new(1, "old".to_string(), false, vec![Label::new(1, "one".to_string())]);
    assert_eq!(
        merge(&current, UpdateTodo::new(None, None, None)),
        TodoChange { text: "old".to_string(), completed: false, labels: None }
    );
    assert_eq!(
        merge(&current, UpdateTodo::new(Some("new".to_string()), None, Some(vec![]))),
        TodoChange { text: "new".to_string(), completed: false, labels: Some(vec![]) }
    );
    assert_eq!(
        merge(&current, UpdateTodo::new(None, Some(true), Some(vec![2, 3]))),
        TodoChange { text: "old".to_string(), completed: true, labels: Some(vec![2, 3]) }
    );
}

#[test]
fn todo_values_copy_and_compare() {
    let todo = TodoEntity::new(1, "t".to_string(), true, three_labels());
    assert_eq!(todo.clone(), todo);
    assert_eq!(todo.clone().labels, three_labels());
    let create = CreateTodo::new("t".to_string(), vec![1, 2]);
    assert_eq!(create.clone(), create);
    assert_eq!(create.text, "t");
    assert_eq!(create.labels, vec![1, 2]);
    let update = UpdateTodo::new(Some("t".to_string()), Some(false), Some(vec![3]));
    assert_eq!(update.clone(), update);
    assert_eq!(UpdateTodo::new(None, None, None).clone(), UpdateTodo::new(None, None, None));
}

#[test]
fn new_row_is_not_completed() {
    let payload = CreateTodo::new("buy milk".to_string(), vec![1, 2]);
    assert_eq!(new_row(&payload), NewTodo { text: "buy milk".to_string(), completed: false });
    assert_eq!(attach_for(7, payload), Write::AttachLabels { todo_id: 7, label_ids: vec![1, 2] });
}

#[test]
fn update_writes_replace_labels_only_on_request() {
    let current = TodoEntity::new(4, "old".to_string(), true, vec![Label::new(1, "one".to_string())]);
    assert_eq!(
        update_writes(&current, UpdateTodo::new(Some("t2".to_string()), None, None)),
        vec![Write::SetFields { id: 4, text: "t2".to_string(), completed: true }]
    );
    assert_eq!(
        update_writes(&current, UpdateTodo::new(None, Some(false), Some(vec![]))),
        vec![
            Write::SetFields { id: 4, text: "old".to_string(), completed: false },
            Write::DetachLabels { todo_id: 4 },
            Write::AttachLabels { todo_id: 4, label_ids: vec![] },
        ]
    );
    assert_eq!(
        update_writes(&current, UpdateTodo::new(None, None, Some(vec![3, 2]))),
        vec![
            Write::SetFields { id: 4, text: "old".to_string(), completed: true },
            Write::DetachLabels { todo_id: 4 },
            Write::AttachLabels { todo_id: 4, label_ids: vec![3, 2] },
        ]
    );
}

#[test]
fn delete_writes_remove_join_rows_first() {
    assert_eq!(
        delete_writes(9),
        vec![Write::DetachLabels { todo_id: 9 }, Write::DeleteTodo { id: 9 }]
    );
}

#[test]
fn delete_is_confirmed_by_the_rows_removed() {
    assert_eq!(confirm_deleted(9, 0), Err(RepositoryError::NotFound(9)));
    assert_eq!(confirm_deleted(9, 1), Ok(()));
    assert_eq!(confirm_deleted(9, 2), Ok(()));
}
