use todo_backend::handlers::{status, Operation, Resource};
use todo_backend::repositories::label::memory::LabelRepositoryForMemory;
use todo_backend::repositories::label::{CreateLabel, Label, LabelRepository};
use todo_backend::repositories::todo::memory::TodoRepositoryForMemory;
use todo_backend::repositories::todo::{CreateTodo, TodoEntity, TodoRepository, UpdateTodo};

#[test]
fn should_created_todo() {
    let expected = TodoEntity::new(1, "should_return_created_todo".to_string(), false, vec![]);
    let mut todo_repo = TodoRepositoryForMemory::new(vec![]);
    let created = todo_repo.create(CreateTodo::new("should_return_created_todo".to_string(), vec![]));
    assert_eq!(status(Resource::Todo, Operation::Create, &created), 201);
    assert_eq!(Ok(expected), created);
}

#[test]
fn should_find_todo() {
    let expected = TodoEntity::new(1, "should_find_todo".to_string(), false, vec![]);
    let mut todo_repo = TodoRepositoryForMemory::new(vec![]);
    todo_repo
        .create(CreateTodo::new("should_find_todo".to_string(), vec![]))
        .expect("failed create todo");
    let found = todo_repo.find(1);
    assert_eq!(status(Resource::Todo, Operation::Find, &found), 200);
    assert_eq!(Ok(expected), found);
}

#[test]
fn should_get_all_todos() {
    let expected = vec![TodoEntity::new(1, "should_get_all_todo".to_string(), false, vec![])];
    let mut todo_repo = TodoRepositoryForMemory::new(vec![]);
    todo_repo
        .create(CreateTodo::new("should_get_all_todo".to_string(), vec![]))
        .expect("failed create todo");
    let todos = todo_repo.all();
    assert_eq!(status(Resource::Todo, Operation::All, &todos), 200);
    assert_eq!(Ok(expected), todos);
}

#[test]
fn should_update_todo() {
    let expected = TodoEntity::new(1, "should_update_todo".to_string(), false, vec![]);
    let mut todo_repo = TodoRepositoryForMemory::new(vec![]);
    todo_repo
        .create(CreateTodo::new("before_update_todo".to_string(), vec![]))
        .expect("failed create todo");
    let updated =
        todo_repo.update(1, UpdateTodo::new(Some("should_update_todo".to_string()), Some(false), None));
    assert_eq!(status(Resource::Todo, Operation::Update, &updated), 201);
    assert_eq!(Ok(expected), updated);
}

#[test]
fn should_delete_todo() {
    let mut todo_repo = TodoRepositoryForMemory::new(vec![]);
    todo_repo
        .create(CreateTodo::new("should_delete_todo".to_string(), vec![]))
        .expect("failed create todo");
    let deleted = todo_repo.delete(1);
    assert_eq!(204, status(Resource::Todo, Operation::Delete, &deleted));
    assert_eq!(404, status(Resource::Todo, Operation::Delete, &todo_repo.delete(1)));
}

#[test]
fn should_create_label() {
    let expected = Label::new(1, "should create label".to_string());
    let mut label_repo = LabelRepositoryForMemory::new();
    let created = label_repo.create(CreateLabel::new("should create label".to_string()));
    assert_eq!(status(Resource::Label, Operation::Create, &created), 201);
    assert_eq!(Ok(expected), created);
}

#[test]
fn should_get_all_labels() {
    let expected = vec![Label::new(1, "should get all labels".to_string())];
    let mut label_repo = LabelRepositoryForMemory::new();
    label_repo
        .create(CreateLabel::new("should get all labels".to_string()))
        .expect("failed create label");
    let labels = label_repo.all();
    assert_eq!(status(Resource::Label, Operation::All, &labels), 200);
    assert_eq!(Ok(expected), labels);
}

#[test]
fn should_delete_label() {
    let mut label_repo = LabelRepositoryForMemory::new();
    label_repo
        .create(CreateLabel::new("should delete label".to_string()))
        .expect("failed create label");
    let deleted = label_repo.delete(1);
    assert_eq!(204, status(Resource::Label, Operation::Delete, &deleted));
    assert_eq!(404, status(Resource::Label, Operation::Delete, &label_repo.delete(1)));
}
