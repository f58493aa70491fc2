use zmanager::error::{IoKind, ZError};

#[test]
fn test_io_error_creation() {
    let err = ZError::io("C:\\test\\path".to_string(), "test error".to_string());

    assert!(err.path().is_some());
    assert_eq!(err.path().unwrap(), "C:\\test\\path");
    assert!(err.message().contains("test error"));
}

#[test]
fn test_from_io_not_found() {
    let err = ZError::from_io(
        "C:\\missing".to_string(),
        IoKind::NotFound,
        "file not found".to_string(),
    );

    assert!(err.is_not_found());
    assert!(matches!(err, ZError::NotFound { .. }));
}

#[test]
fn test_from_io_permission_denied() {
    let err = ZError::from_io(
        "C:\\protected".to_string(),
        IoKind::PermissionDenied,
        "access denied".to_string(),
    );

    assert!(err.is_permission_denied());
    assert!(matches!(err, ZError::PermissionDenied { .. }));
}

#[test]
fn test_cancelled() {
    let err = ZError::Cancelled;
    assert!(err.is_cancelled());
    assert!(err.path().is_none());
}

#[test]
fn test_error_display() {
    let err = ZError::NotFound {
        path: "C:\\test".to_string(),
    };
    assert_eq!(err.message(), "Path not found: 'C:\\test'");

    let err = ZError::PermissionDenied {
        path: "C:\\secret".to_string(),
    };
    assert_eq!(err.message(), "Permission denied: 'C:\\secret'");
}

#[test]
fn from_io_already_exists() {
    let err = ZError::from_io(
        "C:\\taken".to_string(),
        IoKind::AlreadyExists,
        "exists".to_string(),
    );
    assert!(matches!(err, ZError::AlreadyExists { .. }));
}

#[test]
fn from_io_other_wraps_message() {
    let err = ZError::from_io(
        "C:\\odd".to_string(),
        IoKind::Other,
        "strange failure".to_string(),
    );
    assert!(matches!(err, ZError::Io { .. }));
    assert_eq!(err.message(), "I/O error at 'C:\\odd': strange failure");
}

#[test]
fn windows_error_message() {
    let err = ZError::Windows {
        code: 5,
        message: "denied".to_string(),
    };
    assert_eq!(err.message(), "Windows error (code 5): denied");
}
