use std::sync::Arc;
use jvm_lifecycle_mgr::cgroups::CgroupManager;
use jvm_lifecycle_mgr::error::DaemonError;
use jvm_lifecycle_mgr::jvm_forker::{
    AllowlistFacts, ForkRequest, JarFacts, JvmForker, LaunchEnd, StopStep, encode_pid_line, launch_verdict,
    stop_poll_step,
};

fn forker() -> JvmForker {
    let mgr = Arc::new(CgroupManager::new(None));
    JvmForker::new(mgr)
}

fn request(tenant_id: &str, tier: &str, java_version: &str, jar_path: &str) -> ForkRequest {
    ForkRequest {
        tenant_id: tenant_id.to_string(),
        tier: tier.to_string(),
        java_version: java_version.to_string(),
        jar_path: jar_path.to_string(),
        extra_args: vec![],
    }
}

/// What the file system says of a request's application, with no allowed
/// directory configured.
fn on_disk(req: &ForkRequest) -> JarFacts {
    JarFacts { is_file: std::path::Path::new(&req.jar_path).is_file(), allowlist: None }
}

#[test]
fn test_validate_request_checks() {
    let forker = forker();

    // Empty tenant ID
    let req = request("", "silver", "21", "/tmp/app.jar");
    assert!(forker.validate_request(&req, on_disk(&req)).is_err());

    // Invalid characters in tenant ID
    let req = request("../tenant", "silver", "21", "/tmp/app.jar");
    assert!(forker.validate_request(&req, on_disk(&req)).is_err());

    // Invalid tier
    let req = request("tenant-1", "unreal", "21", "/tmp/app.jar");
    assert!(forker.validate_request(&req, on_disk(&req)).is_err());

    // Invalid jar extension
    let req = request("tenant-1", "silver", "21", "/tmp/app.sh");
    assert!(forker.validate_request(&req, on_disk(&req)).is_err());
}

#[test]
fn test_java_path_resolution() {
    let _forker = forker();
    let path_dirs: Vec<String> =
        vec!["/usr/local/sbin".to_string(), "/usr/local/bin".to_string(), "/usr/bin".to_string()];
    let candidates = JvmForker::java_candidates("21", &path_dirs);
    let probed: Vec<(String, bool)> = candidates
        .into_iter()
        .map(|c| {
            let f = std::path::Path::new(&c).is_file();
            (c, f)
        })
        .collect();
    let res = JvmForker::resolve_java_home("21", &probed);
    if let Ok(p) = res {
        assert!(std::path::Path::new(&p).exists());
    }
}

#[test]
fn request_refusals_name_the_problem() {
    let f = forker();
    let msg = |r: ForkRequest| f.check_request_fields(&r).unwrap_err().to_string();
    assert_eq!(msg(request(" \t", "silver", "21", "a.jar")), "invalid input: tenant_id cannot be empty");
    assert_eq!(
        msg(request("a b", "silver", "21", "a.jar")),
        "invalid input: tenant_id must contain only alphanumeric characters, '-', or '_'"
    );
    assert_eq!(
        msg(request("t", "gold", "../21", "a.jar")),
        "invalid input: invalid java_version: path separators and '..' are forbidden"
    );
    assert_eq!(
        msg(request("t", "gold", "21", "/srv/../a.jar")),
        "invalid input: invalid jar_path: empty or path traversal '..' detected"
    );
    assert_eq!(msg(request("t", "gold", "21", "a.war")), "invalid input: jar_path must end with .jar extension");
    assert!(f.check_request_fields(&request("Tenant_9-x", "GOLD", "21", "/srv/app.jar")).is_ok());
}

#[test]
fn jar_location_checks() {
    assert!(JvmForker::check_jar_exists("/srv/a.jar", true).is_ok());
    assert_eq!(
        JvmForker::check_jar_exists("/srv/a.jar", false).unwrap_err().to_string(),
        "not found: JAR file not found: /srv/a.jar"
    );
    assert!(JvmForker::check_allowlist("/srv/apps", "/srv/apps/a.jar", "/srv/apps").is_ok());
    assert_eq!(
        JvmForker::check_allowlist("apps", "/srv/appsx/a.jar", "/srv/apps").unwrap_err().to_string(),
        "unauthorized: jar_path is outside allowed directory 'apps'"
    );
}

#[test]
fn java_is_looked_for_in_order() {
    let dirs = vec!["/usr/lib/jvm/bin".to_string(), "/opt/x/".to_string()];
    assert_eq!(
        JvmForker::java_candidates("21", &dirs),
        vec![
            "/opt/jdk/21/bin/java",
            "/usr/lib/jvm/bin/java",
            "/opt/x/java",
            "/usr/local/bin/java",
            "/usr/bin/java",
            "/bin/java",
        ]
    );
    let probed = vec![("a".to_string(), false), ("b".to_string(), true), ("c".to_string(), true)];
    assert_eq!(JvmForker::resolve_java_home("21", &probed).unwrap(), "b");
    assert_eq!(
        JvmForker::resolve_java_home("17", &vec![("a".to_string(), false)]).unwrap_err().to_string(),
        "not found: Java executable not found for version '17' (checked /opt/jdk/17/bin/java and system PATH)"
    );
}

#[test]
fn launch_command_line() {
    let mut req = request("t", "gold", "21", "/srv/app.jar");
    req.extra_args = vec!["--port".to_string(), "8080".to_string()];
    assert_eq!(
        JvmForker::launch_args(&req).unwrap(),
        vec!["-Xms1g", "-Xmx4g", "-XX:MaxGCPauseMillis=200", "-XX:+UseZGC", "-jar", "/srv/app.jar", "--port", "8080"]
    );
    assert!(JvmForker::launch_args(&request("t", "tin", "21", "a.jar")).is_err());
}

#[test]
fn procs_path_must_be_free_of_nul() {
    assert!(JvmForker::procs_path_check("/r/gold/t/cgroup.procs").is_ok());
    assert_eq!(
        JvmForker::procs_path_check("a\0b").unwrap_err().to_string(),
        "invalid input: CString error: nul byte found in provided data at position: 1"
    );
    assert_eq!(
        JvmForker::procs_path_check("é\0").unwrap_err().to_string(),
        "invalid input: CString error: nul byte found in provided data at position: 2"
    );
}

#[test]
fn pid_lines() {
    let (buf, start) = encode_pid_line(12345);
    assert_eq!(&buf[start..], b"12345\n");
    let (buf, start) = encode_pid_line(0);
    assert_eq!(&buf[start..], b"0\n");
    let (buf, start) = encode_pid_line(i32::MAX);
    assert_eq!(&buf[start..], b"2147483647\n");
    let (buf, start) = encode_pid_line(-3);
    assert_eq!(&buf[start..], b"\n");
    let line = String::from_utf8(buf[start..].to_vec()).unwrap();
    assert_eq!(CgroupManager::parse_pids(&line), Vec::<i32>::new());
    let (buf, start) = encode_pid_line(4242);
    let line = String::from_utf8(buf[start..].to_vec()).unwrap();
    assert_eq!(CgroupManager::parse_pids(&line), vec![4242]);
}

#[test]
fn stopping_waits_then_kills() {
    assert_eq!(stop_poll_step(0, 0), StopStep::Exited);
    assert_eq!(stop_poll_step(0, 2), StopStep::KeepWaiting);
    assert_eq!(stop_poll_step(28, 2), StopStep::KeepWaiting);
    assert_eq!(stop_poll_step(29, 2), StopStep::PauseThenKill);
    assert_eq!(stop_poll_step(29, 0), StopStep::Exited);
}

#[test]
fn forker_keeps_its_hierarchy() {
    let mgr = Arc::new(CgroupManager::with_root("/tmp/h".to_string()));
    let f = JvmForker::new(mgr.clone());
    assert!(Arc::ptr_eq(f.cgroup_manager(), &mgr));
}

#[test]
fn accepted_requests_name_valid_cgroups() {
    let f = forker();
    for (tenant, tier) in [("t-1", "GOLD"), ("abc_DEF", "silver"), ("x", "Platinum")] {
        let req = request(tenant, tier, "21", "/srv/app.jar");
        assert!(f.check_request_fields(&req).is_ok());
        assert!(CgroupManager::validate_identifiers(tier, tenant).is_ok());
    }
}

#[test]
fn launch_is_judged_fields_first_then_files() {
    let missing = request("t", "gold", "21", "/nonexistent/dir/app.jar");
    assert_eq!(
        forker().validate_request(&missing, on_disk(&missing)).unwrap_err().to_string(),
        "not found: JAR file not found: /nonexistent/dir/app.jar"
    );
    let f = forker();
    let good = request("t", "gold", "21", "/srv/apps/app.jar");
    let facts = |is_file: bool, allow: Option<AllowlistFacts>| JarFacts { is_file, allowlist: allow };
    assert!(f.validate_request(&good, facts(true, None)).is_ok());
    assert_eq!(
        f.validate_request(&good, facts(false, None)).unwrap_err().to_string(),
        "not found: JAR file not found: /srv/apps/app.jar"
    );
    let bad = request("", "gold", "21", "/srv/apps/app.jar");
    assert_eq!(
        f.validate_request(&bad, facts(false, None)).unwrap_err().to_string(),
        "invalid input: tenant_id cannot be empty"
    );
    let inside = AllowlistFacts {
        allowed_dir: "/srv/apps".into(),
        canonical: Ok(("/srv/apps/app.jar".into(), "/srv/apps".into())),
    };
    assert!(f.validate_request(&good, facts(true, Some(inside))).is_ok());
    let outside = AllowlistFacts {
        allowed_dir: "/srv/apps".into(),
        canonical: Ok(("/etc/app.jar".into(), "/srv/apps".into())),
    };
    assert_eq!(
        f.validate_request(&good, facts(true, Some(outside))).unwrap_err().status_code(),
        401
    );
    let broken = AllowlistFacts {
        allowed_dir: "/srv/apps".into(),
        canonical: Err(DaemonError::Io("No such file or directory (os error 2)".into())),
    };
    assert_eq!(
        f.validate_request(&good, facts(true, Some(broken))).unwrap_err().to_string(),
        "I/O error: No such file or directory (os error 2)"
    );
}

#[test]
fn failed_launches_give_back_their_cgroup() {
    let v = launch_verdict(LaunchEnd::Spawned(4242));
    assert!(!v.remove_cgroup);
    assert_eq!(v.result.unwrap(), 4242);
    let v = launch_verdict(LaunchEnd::SpawnFailed("No such file or directory (os error 2)".to_string()));
    assert!(v.remove_cgroup);
    assert_eq!(
        v.result.unwrap_err().to_string(),
        "fork error: failed to spawn JVM: No such file or directory (os error 2)"
    );
    let v = launch_verdict(LaunchEnd::ProcsPathRefused(DaemonError::InvalidInput("bad path".to_string())));
    assert!(v.remove_cgroup);
    assert!(matches!(v.result, Err(DaemonError::InvalidInput(m)) if m == "bad path"));
}
