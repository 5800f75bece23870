use jvm_lifecycle_mgr::api::{
    ForkPayload, MetricsRow, bearer_value, check_auth, ensure_not_running, fork_response,
    lookup_tenant, recover_url, render_metrics, resize_response, status_response, stop_response,
};
use jvm_lifecycle_mgr::watchdog::{TenantRegistry, TenantStatus};

#[test]
fn auth_accepts_bearer_or_token_header() {
    let secret = Some("secret-key".to_string());
    assert!(check_auth(&None, None, None).is_ok());
    assert!(check_auth(&Some(String::new()), None, None).is_ok());
    assert!(check_auth(&secret, Some("Bearer secret-key"), None).is_ok());
    assert!(check_auth(&secret, Some("Bearer  secret-key \t"), None).is_ok());
    assert!(check_auth(&secret, None, Some(" secret-key\n")).is_ok());
    assert!(check_auth(&secret, Some("Bearer wrong"), Some("secret-key")).is_ok());
    let e = check_auth(&secret, None, None).unwrap_err();
    assert_eq!(e.status_code(), 401);
    assert_eq!(e.response_message(), "unauthorized: missing or invalid authorization token");
    assert!(check_auth(&secret, Some("bearer secret-key"), None).is_err());
    assert!(check_auth(&secret, Some("Basic secret-key"), Some("other")).is_err());
}

#[test]
fn answers_about_tenants() {
    let mut r = TenantRegistry::new();
    r.register_tenant("t1".to_string(), "gold".to_string(), 1234, 0);
    assert_eq!(
        ensure_not_running(&r, "t1").unwrap_err().to_string(),
        "conflict: tenant 't1' is already running"
    );
    assert!(ensure_not_running(&r, "t2").is_ok());
    assert_eq!(lookup_tenant(&r, "t1").unwrap().pid, 1234);
    assert_eq!(lookup_tenant(&r, "nope").unwrap_err().to_string(), "not found: tenant 'nope' not found");
    let s = status_response(&r, "t1".to_string()).unwrap();
    assert_eq!((s.tenant_id.as_str(), s.pid, s.tier.as_deref(), s.status.as_str()), ("t1", Some(1234), Some("gold"), "running"));
    assert_eq!(status_response(&r, "x".to_string()).unwrap_err().status_code(), 404);
    let f = fork_response("t1".to_string(), 7);
    assert_eq!((f.tenant_id.as_str(), f.pid, f.status.as_str()), ("t1", 7, "running"));
    let st = stop_response("t1".to_string());
    assert_eq!((st.pid, st.status.as_str()), (0, "stopped"));
    let rs = resize_response("t1".to_string(), "platinum".to_string());
    assert_eq!((rs.tier.as_str(), rs.status.as_str()), ("platinum", "resized"));
}

#[test]
fn fork_payload_becomes_request() {
    let p = ForkPayload {
        tenant_id: "t".into(),
        tier: "gold".into(),
        java_version: "21".into(),
        jar_path: "/a.jar".into(),
        extra_args: vec!["-v".into()],
    };
    let q = p.fork_request();
    assert_eq!((q.tenant_id, q.tier, q.java_version, q.jar_path, q.extra_args), ("t".to_string(), "gold".to_string(), "21".to_string(), "/a.jar".to_string(), vec!["-v".to_string()]));
}

#[test]
fn crash_reports_go_to_the_recover_endpoint() {
    assert_eq!(recover_url("http://127.0.0.1:8080"), "http://127.0.0.1:8080/v1/internal/recover");
    assert_eq!(recover_url("http://c:8080///"), "http://c:8080/v1/internal/recover");
    assert_eq!(recover_url(""), "/v1/internal/recover");
    assert_eq!(bearer_value("tok"), "Bearer tok");
}

#[test]
fn metrics_page() {
    let rows = vec![
        MetricsRow { tenant_id: "a".into(), tier: "gold".into(), status: TenantStatus::Running, memory_current: 100, memory_max: 4563402752, oom_kills: 1 },
        MetricsRow { tenant_id: "b".into(), tier: "silver".into(), status: TenantStatus::Recovering, memory_current: 0, memory_max: 0, oom_kills: 0 },
    ];
    let expected = "# HELP javapaas_active_tenants Number of currently active tenants\n\
# TYPE javapaas_active_tenants gauge\n\
javapaas_active_tenants 1\n\n\
# HELP javapaas_tenant_memory_current_bytes Current memory usage in bytes per tenant\n\
# TYPE javapaas_tenant_memory_current_bytes gauge\n\
javapaas_tenant_memory_current_bytes{tenant_id=\"a\",tier=\"gold\"} 100\n\
javapaas_tenant_memory_current_bytes{tenant_id=\"b\",tier=\"silver\"} 0\n\n\
# HELP javapaas_tenant_memory_max_bytes Configured memory limit in bytes per tenant\n\
# TYPE javapaas_tenant_memory_max_bytes gauge\n\
javapaas_tenant_memory_max_bytes{tenant_id=\"a\",tier=\"gold\"} 4563402752\n\
javapaas_tenant_memory_max_bytes{tenant_id=\"b\",tier=\"silver\"} 0\n\n\
# HELP javapaas_tenant_oom_kills_total Cumulative OOM kill events per tenant\n\
# TYPE javapaas_tenant_oom_kills_total counter\n\
javapaas_tenant_oom_kills_total{tenant_id=\"a\",tier=\"gold\"} 1\n\
javapaas_tenant_oom_kills_total{tenant_id=\"b\",tier=\"silver\"} 0\n\n\
# HELP javapaas_tenant_status Current tenant status (1 if matching state)\n\
# TYPE javapaas_tenant_status gauge\n\
javapaas_tenant_status{tenant_id=\"a\",tier=\"gold\",status=\"running\"} 1\n\
javapaas_tenant_status{tenant_id=\"b\",tier=\"silver\",status=\"recovering\"} 1\n";
    assert_eq!(render_metrics(&rows), expected);
    assert!(render_metrics(&vec![]).contains("javapaas_active_tenants 0\n"));
}
