use jvm_lifecycle_mgr::watchdog::{
    ChildExit, ExitAction, FoundTenant, ProbeOutcome, TenantRegistry, TenantStatus, first_alive,
    is_process_alive,
};

fn stamp() -> String {
    "2024-01-01T00:00:00+00:00".to_string()
}

fn registry_with(ids: &[(&str, &str, u32)]) -> TenantRegistry {
    let mut r = TenantRegistry::new();
    for (id, tier, pid) in ids {
        r.register_tenant(id.to_string(), tier.to_string(), *pid, 0);
    }
    r
}

#[test]
fn registering_runs_and_counts_generations() {
    let mut r = registry_with(&[("a", "silver", 10)]);
    let a = r.get_tenant("a").unwrap();
    assert_eq!((a.tier.as_str(), a.pid, a.status, a.generation), ("silver", 10, TenantStatus::Running, 1));
    assert!(r.is_running("a"));
    r.register_tenant("a".to_string(), "gold".to_string(), 11, 4);
    let a = r.get_tenant("a").unwrap();
    assert_eq!((a.tier.as_str(), a.pid, a.generation), ("gold", 11, 2));
    assert_eq!(r.oom_count("a"), 4);
    assert!(r.get_tenant("b").is_none());
    assert!(!r.is_running("b"));
}

#[test]
fn status_tier_and_unregistering() {
    let mut r = registry_with(&[("a", "silver", 10), ("b", "gold", 20)]);
    r.set_status("a", TenantStatus::Stopping);
    assert!(!r.is_running("a"));
    assert_eq!(r.get_tenant("a").unwrap().status, TenantStatus::Stopping);
    r.set_status("zzz", TenantStatus::Stopped);
    assert!(r.update_tenant_tier("b", "platinum".to_string()));
    assert!(!r.update_tenant_tier("zzz", "platinum".to_string()));
    assert_eq!(r.get_tenant("b").unwrap().tier, "platinum");
    r.unregister_tenant("a");
    assert!(r.get_tenant("a").is_none());
    assert_eq!(r.oom_count("a"), 0);
    let all = r.get_all_tenants();
    assert_eq!(all.len(), 1);
    assert_eq!(all[0].0, "b");
    assert_eq!(r.get_oom_counts(), vec![("b".to_string(), 0)]);
}

#[test]
fn listings_keep_registration_order() {
    let r = registry_with(&[("c", "silver", 1), ("a", "gold", 2), ("b", "gold", 3)]);
    let ids: Vec<String> = r.get_all_tenants().into_iter().map(|e| e.0).collect();
    assert_eq!(ids, vec!["c", "a", "b"]);
    let mut r = r;
    r.set_status("a", TenantStatus::Recovering);
    assert_eq!(
        r.running_tenants(),
        vec![("c".to_string(), "silver".to_string()), ("b".to_string(), "gold".to_string())]
    );
    assert_eq!(r.find_tenant_by_pid(3), Some("b".to_string()));
    assert_eq!(r.find_tenant_by_pid(99), None);
}

#[test]
fn oom_kill_is_reported_once() {
    let mut r = registry_with(&[("a", "gold", 10)]);
    assert!(r.observe_oom("a", "gold", 0, "node-1", stamp()).is_none());
    let ev = r.observe_oom("a", "gold", 2, "node-1", stamp()).unwrap();
    assert_eq!(
        (ev.tenant_id.as_str(), ev.tier.as_str(), ev.node_id.as_str(), ev.reason.as_str(), ev.exit_code),
        ("a", "gold", "node-1", "OOM_KILL", None)
    );
    assert_eq!(ev.timestamp, "2024-01-01T00:00:00+00:00");
    assert_eq!(r.get_tenant("a").unwrap().status, TenantStatus::Recovering);
    assert_eq!(r.oom_count("a"), 2);
    assert!(r.observe_oom("a", "gold", 3, "node-1", stamp()).is_none());
    assert_eq!(r.oom_count("a"), 3);
    assert!(r.observe_oom("a", "gold", 1, "node-1", stamp()).is_none());
    assert_eq!(r.oom_count("a"), 3);
    // the death that follows is not reported again
    match r.on_child_exit(ChildExit::Signaled { pid: 10, signal: "SIGKILL".to_string() }, "node-1", stamp()) {
        ExitAction::Released { tenant_id, tier, remove_cgroup } => {
            assert_eq!((tenant_id.as_str(), tier.as_str(), remove_cgroup), ("a", "gold", true));
        }
        other => panic!("unexpected {other:?}"),
    }
    assert!(r.get_tenant("a").is_none());
    assert_eq!(r.oom_count("a"), 3);
}

#[test]
fn oom_reading_for_unknown_tenant_records_baseline() {
    let mut r = TenantRegistry::new();
    assert!(r.observe_oom("ghost", "gold", 0, "n", stamp()).is_none());
    assert_eq!(r.get_oom_counts(), vec![("ghost".to_string(), 0)]);
    assert!(r.observe_oom("ghost", "gold", 5, "n", stamp()).is_none());
    assert_eq!(r.oom_count("ghost"), 5);
}

#[test]
fn crash_of_running_tenant_is_reported_then_forgotten() {
    let mut r = registry_with(&[("a", "silver", 10)]);
    match r.on_child_exit(ChildExit::Exited { pid: 10, code: 42 }, "node-1", stamp()) {
        ExitAction::Crashed { tenant_id, tier, event } => {
            assert_eq!((tenant_id.as_str(), tier.as_str()), ("a", "silver"));
            assert_eq!((event.reason.as_str(), event.exit_code, event.node_id.as_str()), ("EXIT", Some(42), "node-1"));
        }
        other => panic!("unexpected {other:?}"),
    }
    assert_eq!(r.get_tenant("a").unwrap().status, TenantStatus::Exited);
    assert!(r.finish_crash("a", 10));
    assert!(r.get_tenant("a").is_none());
}

#[test]
fn signal_deaths_name_the_signal() {
    let mut r = registry_with(&[("a", "silver", 10)]);
    match r.on_child_exit(ChildExit::Signaled { pid: 10, signal: "SIGSEGV".to_string() }, "n", stamp()) {
        ExitAction::Crashed { event, .. } => {
            assert_eq!(event.reason, "SIGNAL_SIGSEGV");
            assert_eq!(event.exit_code, None);
        }
        other => panic!("unexpected {other:?}"),
    }
}

#[test]
fn restarted_tenant_survives_the_old_report() {
    let mut r = registry_with(&[("a", "silver", 10)]);
    assert!(matches!(r.on_child_exit(ChildExit::Exited { pid: 10, code: 1 }, "n", stamp()), ExitAction::Crashed { .. }));
    r.register_tenant("a".to_string(), "silver".to_string(), 11, 0);
    assert!(!r.finish_crash("a", 10));
    assert_eq!(r.get_tenant("a").unwrap().pid, 11);
}

#[test]
fn deliberate_stops_and_strangers() {
    let mut r = registry_with(&[("a", "silver", 10), ("b", "gold", 20)]);
    r.set_status("a", TenantStatus::Stopping);
    match r.on_child_exit(ChildExit::Exited { pid: 10, code: 0 }, "n", stamp()) {
        ExitAction::Released { remove_cgroup, .. } => assert!(remove_cgroup),
        other => panic!("unexpected {other:?}"),
    }
    r.set_status("b", TenantStatus::Stopped);
    match r.on_child_exit(ChildExit::Exited { pid: 20, code: 0 }, "n", stamp()) {
        ExitAction::Released { remove_cgroup, .. } => assert!(!remove_cgroup),
        other => panic!("unexpected {other:?}"),
    }
    assert!(matches!(r.on_child_exit(ChildExit::Exited { pid: 30, code: 0 }, "n", stamp()), ExitAction::Untracked));
}

#[test]
fn rehydration_takes_the_first_live_process() {
    assert!(is_process_alive(5, ProbeOutcome::Delivered));
    assert!(is_process_alive(5, ProbeOutcome::PermissionDenied));
    assert!(!is_process_alive(5, ProbeOutcome::Failed));
    assert!(!is_process_alive(0, ProbeOutcome::Delivered));
    let probed = vec![(0, ProbeOutcome::NotProbed), (7, ProbeOutcome::Failed), (8, ProbeOutcome::Delivered), (9, ProbeOutcome::Delivered)];
    assert_eq!(first_alive(&probed), Some(8));
    assert_eq!(first_alive(&vec![(7, ProbeOutcome::Failed)]), None);
    let mut r = registry_with(&[("a", "silver", 10)]);
    r.register_tenant("a".to_string(), "silver".to_string(), 10, 0);
    r.rehydrate_tenant("a".to_string(), "gold".to_string(), 8, 3);
    let a = r.get_tenant("a").unwrap();
    assert_eq!((a.tier.as_str(), a.pid, a.status, a.generation), ("gold", 8, TenantStatus::Running, 1));
    assert_eq!(r.oom_count("a"), 3);
}

#[test]
fn rehydration_takes_back_the_live_and_names_the_stale() {
    let mut r = TenantRegistry::new();
    let found = vec![
        FoundTenant {
            tier: "gold".to_string(),
            tenant_id: "a".to_string(),
            probed: vec![(7, ProbeOutcome::Failed), (8, ProbeOutcome::PermissionDenied)],
            initial_oom: 2,
        },
        FoundTenant { tier: "silver".to_string(), tenant_id: "b".to_string(), probed: vec![], initial_oom: 0 },
        FoundTenant {
            tier: "bronze".to_string(),
            tenant_id: "c".to_string(),
            probed: vec![(9, ProbeOutcome::Failed)],
            initial_oom: 5,
        },
        FoundTenant {
            tier: "silver".to_string(),
            tenant_id: "d".to_string(),
            probed: vec![(11, ProbeOutcome::Delivered)],
            initial_oom: 0,
        },
    ];
    let outcome = r.rehydrate_tenants(found);
    assert_eq!(outcome.taken_back, 2);
    assert_eq!(
        outcome.stale,
        vec![("silver".to_string(), "b".to_string()), ("bronze".to_string(), "c".to_string())]
    );
    let a = r.get_tenant("a").unwrap();
    assert_eq!((a.tier.as_str(), a.pid, a.status, a.generation), ("gold", 8, TenantStatus::Running, 1));
    assert_eq!(r.oom_count("a"), 2);
    assert_eq!(r.get_tenant("d").unwrap().pid, 11);
    assert!(r.get_tenant("b").is_none());
    assert!(r.get_tenant("c").is_none());
    assert_eq!(r.rehydrate_tenants(Vec::new()).taken_back, 0);
}

#[test]
fn status_names() {
    assert_eq!(TenantStatus::Running.as_str(), "running");
    assert_eq!(TenantStatus::Recovering.as_str(), "recovering");
    assert_eq!(TenantStatus::Stopping.as_str(), "stopping");
    assert_eq!(TenantStatus::Stopped.as_str(), "stopped");
    assert_eq!(TenantStatus::Exited.as_str(), "exited");
}
