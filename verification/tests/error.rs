use room_directory::error::{DirectoryError, RemoteFailure};

#[test]
fn each_error_has_its_status() {
    assert_eq!(DirectoryError::MalformedAlias.status_code(), 400);
    assert_eq!(DirectoryError::Forbidden.status_code(), 403);
    assert_eq!(DirectoryError::NotFound.status_code(), 404);
    assert_eq!(DirectoryError::AliasAlreadyExists.status_code(), 409);
    assert_eq!(DirectoryError::StorageFailure.status_code(), 500);
    assert_eq!(DirectoryError::RemoteUnavailable(RemoteFailure::Connection).status_code(), 502);
    assert_eq!(DirectoryError::RemoteUnavailable(RemoteFailure::Protocol).status_code(), 502);
    assert_eq!(DirectoryError::RemoteUnavailable(RemoteFailure::Timeout).status_code(), 504);
}

#[test]
fn each_error_has_its_code() {
    assert_eq!(DirectoryError::MalformedAlias.errcode(), "M_INVALID_PARAM");
    assert_eq!(DirectoryError::Forbidden.errcode(), "M_FORBIDDEN");
    assert_eq!(DirectoryError::NotFound.errcode(), "M_NOT_FOUND");
    assert_eq!(DirectoryError::AliasAlreadyExists.errcode(), "M_UNKNOWN");
    assert_eq!(DirectoryError::StorageFailure.errcode(), "M_UNKNOWN");
    assert_eq!(DirectoryError::RemoteUnavailable(RemoteFailure::Timeout).errcode(), "M_UNKNOWN");
}

#[test]
fn each_error_has_a_message_of_its_own() {
    let all = [
        DirectoryError::MalformedAlias,
        DirectoryError::Forbidden,
        DirectoryError::NotFound,
        DirectoryError::AliasAlreadyExists,
        DirectoryError::StorageFailure,
        DirectoryError::RemoteUnavailable(RemoteFailure::Timeout),
        DirectoryError::RemoteUnavailable(RemoteFailure::Connection),
        DirectoryError::RemoteUnavailable(RemoteFailure::Protocol),
    ];
    for (i, a) in all.iter().enumerate() {
        assert!(!a.message().is_empty());
        for b in all.iter().skip(i + 1) {
            assert_ne!(a.message(), b.message());
        }
    }
    assert_eq!(DirectoryError::NotFound.message(), "The room alias was not found.");
}
