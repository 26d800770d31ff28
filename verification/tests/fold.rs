use todo_backend::repositories::label::Label;
use todo_backend::repositories::todo::{
    entity_from_rows, fold_entities, TodoEntity, TodoWithLabelFromRow,
};
use todo_backend::repositories::RepositoryError;

fn labelled(id: i32, text: &str, label: &Label) -> TodoWithLabelFromRow {
    TodoWithLabelFromRow {
        id,
        text: text.to_string(),
        completed: false,
        label_id: Some(label.id),
        label_name: Some(label.name.clone()),
    }
}

fn unlabelled(id: i32, text: &str, completed: bool) -> TodoWithLabelFromRow {
    TodoWithLabelFromRow { id, text: text.to_string(), completed, label_id: None, label_name: None }
}

#[test]
fn fold_entities_test() {
    let label_1 = Label { id: 1, name: "Label 1".to_string() };
    let label_2 = Label { id: 2, name: "Label 2".to_string() };

    let rows = vec![
        TodoWithLabelFromRow {
            id: 1,
            text: "Todo 1".to_string(),
            completed: false,
            label_id: Some(label_1.id),
            label_name: Some(label_1.name.clone()),
        },
        TodoWithLabelFromRow {
            id: 1,
            text: "Todo 1".to_string(),
            completed: false,
            label_id: Some(label_2.id),
            label_name: Some(label_2.name.clone()),
        },
        TodoWithLabelFromRow {
            id: 2,
            text: "Todo 2".to_string(),
            completed: false,
            label_id: Some(label_1.id),
            label_name: Some(label_1.name.clone()),
        },
    ];
    let res = fold_entities(rows);
    assert_eq!(
        res,
        vec![
            TodoEntity {
                id: 1,
                text: "Todo 1".to_string(),
                completed: false,
                labels: vec![label_1.clone(), label_2.clone()]
            },
            TodoEntity {
                id: 2,
                text: "Todo 2".to_string(),
                completed: false,
                labels: vec![label_1.clone()]
            },
        ]
    );
}

#[test]
fn fold_of_nothing_is_nothing() {
    assert_eq!(fold_entities(vec![]), vec![]);
}

#[test]
fn fold_does_not_need_the_rows_of_an_item_together() {
    let l1 = Label::new(1, "L1".to_string());
    let l2 = Label::new(2, "L2".to_string());
    let rows = vec![labelled(1, "one", &l1), labelled(2, "two", &l1), labelled(1, "one", &l2)];
    assert_eq!(
        fold_entities(rows),
        vec![
            TodoEntity::new(1, "one".to_string(), false, vec![l1.clone(), l2.clone()]),
            TodoEntity::new(2, "two".to_string(), false, vec![l1.clone()]),
        ]
    );
}

#[test]
fn fold_keeps_items_and_labels_when_rows_change_places() {
    let l1 = Label::new(1, "L1".to_string());
    let l2 = Label::new(2, "L2".to_string());
    let first = TodoEntity::new(1, "one".to_string(), false, vec![l1.clone(), l2.clone()]);
    let second = TodoEntity::new(2, "two".to_string(), false, vec![l1.clone()]);
    let a = || labelled(1, "one", &l1);
    let b = || labelled(1, "one", &l2);
    let c = || labelled(2, "two", &l1);

    assert_eq!(fold_entities(vec![a(), b(), c()]), vec![first.clone(), second.clone()]);
    assert_eq!(fold_entities(vec![a(), c(), b()]), vec![first.clone(), second.clone()]);
    assert_eq!(fold_entities(vec![c(), a(), b()]), vec![second.clone(), first.clone()]);
}

#[test]
fn fold_orders_labels_as_the_rows_bring_them() {
    let l1 = Label::new(1, "L1".to_string());
    let l2 = Label::new(2, "L2".to_string());
    let rows = vec![labelled(1, "one", &l2), labelled(1, "one", &l1)];
    assert_eq!(
        fold_entities(rows),
        vec![TodoEntity::new(1, "one".to_string(), false, vec![l2, l1])]
    );
}

#[test]
fn fold_with_no_labels() {
    let l1 = Label::new(1, "L1".to_string());
    let rows = vec![labelled(1, "one", &l1), unlabelled(3, "three", true)];
    assert_eq!(
        fold_entities(rows),
        vec![
            TodoEntity::new(1, "one".to_string(), false, vec![l1]),
            TodoEntity::new(3, "three".to_string(), true, vec![]),
        ]
    );
}

#[test]
fn fold_skips_a_later_row_without_label() {
    let l1 = Label::new(1, "L1".to_string());
    let rows = vec![unlabelled(3, "three", false), labelled(3, "three", &l1), unlabelled(3, "three", false)];
    assert_eq!(fold_entities(rows), vec![TodoEntity::new(3, "three".to_string(), false, vec![l1])]);
}

#[test]
fn fold_takes_text_and_state_from_the_first_row() {
    let rows = vec![unlabelled(7, "first", true), unlabelled(7, "second", false)];
    assert_eq!(fold_entities(rows), vec![TodoEntity::new(7, "first".to_string(), true, vec![])]);
}

#[test]
fn fold_reads_an_absent_name_as_empty() {
    let row = TodoWithLabelFromRow {
        id: 1,
        text: "one".to_string(),
        completed: false,
        label_id: Some(5),
        label_name: None,
    };
    assert_eq!(
        fold_entities(vec![row]),
        vec![TodoEntity::new(1, "one".to_string(), false, vec![Label::new(5, String::new())])]
    );
}

#[test]
fn fold_ignores_a_name_without_id() {
    let row = TodoWithLabelFromRow {
        id: 1,
        text: "one".to_string(),
        completed: false,
        label_id: None,
        label_name: Some("stray".to_string()),
    };
    assert_eq!(fold_entities(vec![row]), vec![TodoEntity::new(1, "one".to_string(), false, vec![])]);
}

#[test]
fn entity_from_no_rows_is_not_found() {
    assert_eq!(entity_from_rows(4, vec![]), Err(RepositoryError::NotFound(4)));
}

#[test]
fn entity_from_rows_is_the_first_item() {
    let l1 = Label::new(1, "L1".to_string());
    let l2 = Label::new(2, "L2".to_string());
    let rows = vec![labelled(4, "four", &l1), labelled(4, "four", &l2)];
    assert_eq!(
        entity_from_rows(4, rows),
        Ok(TodoEntity::new(4, "four".to_string(), false, vec![l1, l2]))
    );
}

#[test]
fn row_clone_is_equal() {
    let l1 = Label::new(1, "L1".to_string());
    let row = labelled(4, "four", &l1);
    assert_eq!(row.clone(), row);
    let bare = unlabelled(5, "five", true);
    assert_eq!(bare.clone(), bare);
}
