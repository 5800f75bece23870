use jvm_lifecycle_mgr::error::DaemonError;

#[test]
fn test_daemon_error_display() {
    let err = DaemonError::InvalidInput("bad tier".to_string());
    assert_eq!(err.to_string(), "invalid input: bad tier");

    let err = DaemonError::NotFound("tenant-1".to_string());
    assert_eq!(err.to_string(), "not found: tenant-1");

    let err = DaemonError::Conflict("already running".to_string());
    assert_eq!(err.to_string(), "conflict: already running");
}

#[test]
fn every_error_displays_with_its_kind() {
    assert_eq!(DaemonError::Unauthorized("x".into()).to_string(), "unauthorized: x");
    assert_eq!(DaemonError::Cgroup("x".into()).to_string(), "cgroup error: x");
    assert_eq!(DaemonError::Fork("x".into()).to_string(), "fork error: x");
    assert_eq!(DaemonError::Io("disk full".into()).to_string(), "I/O error: disk full");
}

#[test]
fn errno_is_rendered_by_name_and_description() {
    let e = DaemonError::Nix(1);
    assert_eq!(e.to_string(), "nix error: EPERM: Operation not permitted");
    assert_eq!(e.response_message(), "EPERM: Operation not permitted");
    assert_eq!(e.status_code(), 500);
}

#[test]
fn errors_map_to_http_statuses() {
    assert_eq!(DaemonError::InvalidInput("a".into()).status_code(), 400);
    assert_eq!(DaemonError::Unauthorized("a".into()).status_code(), 401);
    assert_eq!(DaemonError::NotFound("a".into()).status_code(), 404);
    assert_eq!(DaemonError::Conflict("a".into()).status_code(), 409);
    assert_eq!(DaemonError::Cgroup("a".into()).status_code(), 500);
    assert_eq!(DaemonError::Fork("a".into()).status_code(), 500);
    assert_eq!(DaemonError::Io("a".into()).status_code(), 500);
    assert_eq!(DaemonError::NotFound("tenant 't' not found".into()).response_message(), "tenant 't' not found");
}
