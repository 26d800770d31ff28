use todo_backend::handlers::{
    check_length, error_status, status, success_status, LengthViolation, Operation, Resource,
    BAD_REQUEST, CONFLICT, CREATED, INTERNAL_SERVER_ERROR, MAX_TEXT_LENGTH, NOT_FOUND, NO_CONTENT, OK,
};
use todo_backend::repositories::label::CreateLabel;
use todo_backend::repositories::todo::{CreateTodo, UpdateTodo};
use todo_backend::repositories::{BackendFailure, RepositoryError};

#[test]
fn length_is_counted_in_characters() {
    assert_eq!(MAX_TEXT_LENGTH, 100);
    assert_eq!(check_length(""), Err(LengthViolation::Empty));
    assert_eq!(check_length("a"), Ok(()));
    assert_eq!(check_length(&"a".repeat(100)), Ok(()));
    assert_eq!(check_length(&"a".repeat(101)), Err(LengthViolation::TooLong));
    // 100 characters of three bytes each are still 100 characters.
    assert_eq!(check_length(&"日".repeat(100)), Ok(()));
    assert_eq!(check_length(&"日".repeat(101)), Err(LengthViolation::TooLong));
}

#[test]
fn create_todo_is_validated_by_its_text() {
    assert_eq!(CreateTodo::new("".to_string(), vec![1]).validate(), Err(LengthViolation::Empty));
    assert_eq!(CreateTodo::new("buy milk".to_string(), vec![]).validate(), Ok(()));
    assert_eq!(CreateTodo::new("x".repeat(101), vec![]).validate(), Err(LengthViolation::TooLong));
}

#[test]
fn update_todo_is_validated_where_it_holds_a_text() {
    assert_eq!(UpdateTodo::new(None, Some(true), Some(vec![])).validate(), Ok(()));
    assert_eq!(UpdateTodo::new(Some("".to_string()), None, None).validate(), Err(LengthViolation::Empty));
    assert_eq!(UpdateTodo::new(Some("t2".to_string()), None, None).validate(), Ok(()));
    assert_eq!(
        UpdateTodo::new(Some("x".repeat(200)), None, None).validate(),
        Err(LengthViolation::TooLong)
    );
}

#[test]
fn create_label_is_validated_by_its_name() {
    assert_eq!(CreateLabel::new("".to_string()).validate(), Err(LengthViolation::Empty));
    assert_eq!(CreateLabel::new("work".to_string()).validate(), Ok(()));
    assert_eq!(CreateLabel::new("w".repeat(101)).validate(), Err(LengthViolation::TooLong));
}

#[test]
fn status_of_success() {
    assert_eq!((OK, CREATED, NO_CONTENT), (200, 201, 204));
    assert_eq!(success_status(Operation::Find), 200);
    assert_eq!(success_status(Operation::All), 200);
    assert_eq!(success_status(Operation::Create), 201);
    assert_eq!(success_status(Operation::Update), 201);
    assert_eq!(success_status(Operation::Delete), 204);
}

#[test]
fn status_of_errors() {
    assert_eq!((BAD_REQUEST, NOT_FOUND, CONFLICT, INTERNAL_SERVER_ERROR), (400, 404, 409, 500));
    let unexpected = RepositoryError::Unexpected("connection reset".to_string());
    for resource in [Resource::Todo, Resource::Label] {
        assert_eq!(error_status(resource, &RepositoryError::NotFound(3)), 404);
        assert_eq!(error_status(resource, &unexpected), 500);
    }
    assert_eq!(error_status(Resource::Label, &RepositoryError::Duplicate(1)), 500);
    assert_eq!(error_status(Resource::Todo, &RepositoryError::Duplicate(1)), 409);
}

#[test]
fn status_of_an_outcome() {
    let found: Result<i32, RepositoryError> = Ok(1);
    assert_eq!(status(Resource::Todo, Operation::Find, &found), 200);
    assert_eq!(status(Resource::Label, Operation::Create, &found), 201);
    let deleted: Result<(), RepositoryError> = Ok(());
    assert_eq!(status(Resource::Label, Operation::Delete, &deleted), 204);
    let missing: Result<(), RepositoryError> = Err(RepositoryError::NotFound(9));
    assert_eq!(status(Resource::Todo, Operation::Delete, &missing), 404);
    let taken: Result<i32, RepositoryError> = Err(RepositoryError::Duplicate(1));
    assert_eq!(status(Resource::Label, Operation::Create, &taken), 500);
}

#[test]
fn backend_failures_become_repository_errors() {
    let missing = BackendFailure { row_not_found: true, message: "no rows returned".to_string() };
    assert_eq!(RepositoryError::for_row(missing, 12), RepositoryError::NotFound(12));
    let broken = BackendFailure { row_not_found: false, message: "connection reset".to_string() };
    assert_eq!(
        RepositoryError::for_row(broken, 12),
        RepositoryError::Unexpected("connection reset".to_string())
    );
    let missing = BackendFailure { row_not_found: true, message: "no rows returned".to_string() };
    assert_eq!(
        RepositoryError::unexpected(missing),
        RepositoryError::Unexpected("no rows returned".to_string())
    );
}

#[test]
fn repository_errors_copy_and_compare() {
    for error in [
        RepositoryError::NotFound(1),
        RepositoryError::Duplicate(2),
        RepositoryError::Unexpected("why".to_string()),
        RepositoryError::ids_exhausted(),
    ] {
        assert_eq!(error.clone(), error);
    }
    assert_eq!(
        RepositoryError::ids_exhausted(),
        RepositoryError::Unexpected("no id is left to assign".to_string())
    );
    assert_ne!(RepositoryError::NotFound(1), RepositoryError::Duplicate(1));
}
