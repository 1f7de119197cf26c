use rankit::config::AppType;
use rankit::error::AppError;
use rankit::file::{check_file_name, DynFileService, DynFileStore, FileServiceError, FileStoreError};
use rankit::thing::{Order, QueryParams};

#[test]
fn app_type_parses() {
    assert_eq!("local".parse::<AppType>(), Ok(AppType::Local));
    assert_eq!("aws".parse::<AppType>(), Ok(AppType::Aws));
    assert_eq!("Local".parse::<AppType>(), Err(()));
    assert_eq!("".parse::<AppType>(), Err(()));
}

#[test]
fn listing_limits() {
    let q = QueryParams { order: Some(Order::Name), desc: None, limit: None };
    assert_eq!(q.effective_limit(), 100);
    assert!(!q.is_descending());
    let q = QueryParams { order: None, desc: Some(true), limit: Some(5) };
    assert_eq!(q.effective_limit(), 5);
    assert!(q.is_descending());
    let q = QueryParams { order: Some(Order::Created), desc: Some(false), limit: Some(500) };
    assert_eq!(q.effective_limit(), 100);
    assert!(!q.is_descending());
}

#[test]
fn file_service_checks_paths() {
    let s = DynFileService::filesystem("/tmp/files".to_string());
    assert_eq!(s.root(), "/tmp/files");
    assert!(s.check_path("thing/apple.jpg").is_ok());
    assert!(s.check_path("apple").is_ok());
    match s.check_path("../etc/passwd") {
        Err(FileServiceError::InvalidFileName(n)) => assert_eq!(n, "../etc/passwd"),
        other => panic!("unexpected {:?}", other),
    }
    assert!(s.check_path("thing/").is_err());
    assert!(s.check_path("").is_err());
}

#[test]
fn file_store_checks_paths() {
    let s = DynFileStore::filesystem("data".to_string());
    assert_eq!(s.root(), "data");
    assert!(s.check_path("a/b/c.png").is_ok());
    match s.check_path("/abs.png") {
        Err(FileStoreError::InvalidFileName(n)) => assert_eq!(n, "/abs.png"),
        other => panic!("unexpected {:?}", other),
    }
}

#[test]
fn file_name_verdict() {
    assert!(check_file_name("x", Some(true)).is_ok());
    assert!(matches!(check_file_name("x", Some(false)), Err(FileServiceError::InvalidFileName(_))));
    assert!(matches!(check_file_name("x", None), Err(FileServiceError::InvalidFileName(_))));
}

#[test]
fn error_status_codes() {
    assert_eq!(AppError::CategoryNotFound.status_code(), 404);
    assert_eq!(AppError::ThingNotFound.status_code(), 404);
    assert_eq!(AppError::RankNotFound.status_code(), 404);
    assert_eq!(AppError::ThingOrCategoryNotFound.status_code(), 404);
    assert_eq!(AppError::DuplicateRecord.status_code(), 409);
    assert_eq!(AppError::NotEnoughThings.status_code(), 409);
    assert_eq!(AppError::NotInPollingState.status_code(), 409);
    assert_eq!(AppError::Unauthenticated.status_code(), 401);
    assert_eq!(AppError::Unauthorized.status_code(), 401);
    assert_eq!(AppError::CannotModifyRootAccountRole.status_code(), 400);
    assert_eq!(AppError::RunOutOfRange.status_code(), 500);
}
