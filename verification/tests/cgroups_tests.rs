use jvm_lifecycle_mgr::cgroups::{
    CgroupManager, RemoveDirOutcome, ResizePlan, removal_needs_kill_round,
};
use jvm_lifecycle_mgr::config::Tier;

#[test]
fn test_identifier_validation() {
    assert!(CgroupManager::validate_identifiers("silver", "tenant-1").is_ok());
    assert!(CgroupManager::validate_identifiers("../etc", "tenant-1").is_err());
    assert!(CgroupManager::validate_identifiers("silver", "../etc").is_err());
    assert!(CgroupManager::validate_identifiers("silver", "").is_err());
}

#[test]
fn identifier_errors_say_which_part_is_wrong() {
    let e = CgroupManager::validate_identifiers("a\\b", "t").unwrap_err();
    assert_eq!(e.to_string(), "invalid input: invalid tier name");
    let e = CgroupManager::validate_identifiers("silver", "a/b").unwrap_err();
    assert_eq!(
        e.to_string(),
        "invalid input: invalid tenant_id: path separators and '..' are forbidden"
    );
    assert!(CgroupManager::validate_identifiers("", "t").is_ok());
}

#[test]
fn valid_identifiers_stay_under_any_root() {
    assert!(CgroupManager::validate_identifiers("", "t.1").is_ok());
    assert_eq!(CgroupManager::with_root("/r".to_string()).tenant_path("", "t.1"), "/r/t.1");
    assert_eq!(CgroupManager::with_root("/r/".to_string()).tenant_path("custom.", ".t"), "/r/custom./.t");
    assert_eq!(CgroupManager::with_root(String::new()).tenant_path("gold", "t"), "gold/t");
    assert!(CgroupManager::validate_identifiers("gold", "..").is_err());
    assert!(CgroupManager::validate_identifiers("..", "t").is_err());
}

#[test]
fn tenant_files_sit_under_the_tier_directory() {
    let m = CgroupManager::with_root("/sys/fs/cgroup/javapaas".to_string());
    assert_eq!(m.root(), "/sys/fs/cgroup/javapaas");
    assert_eq!(m.tenant_path("gold", "t1"), "/sys/fs/cgroup/javapaas/gold/t1");
    assert_eq!(
        m.tenant_procs_path("silver", "t1"),
        "/sys/fs/cgroup/javapaas/silver/t1/cgroup.procs"
    );
    assert_eq!(
        m.tenant_events_path("silver", "t1"),
        "/sys/fs/cgroup/javapaas/silver/t1/memory.events"
    );
    let slash = CgroupManager::with_root("/tmp/r/".to_string());
    assert_eq!(slash.tenant_path("silver", "t1"), "/tmp/r/silver/t1");
    assert_eq!(
        CgroupManager::new(None).root(),
        "/sys/fs/cgroup/javapaas"
    );
    assert_eq!(
        CgroupManager::new(Some("/tmp/q".to_string())).root(),
        "/tmp/q"
    );
}

#[test]
fn gold_tenant_plan_matches_its_limits() {
    let m = CgroupManager::with_root("/tmp/cg".to_string());
    let plan = m.tenant_plan("gold", "tenant-abc").unwrap();
    assert_eq!(plan.dir, "/tmp/cg/gold/tenant-abc");
    assert_eq!(plan.tier, Tier::Gold);
    let writes: Vec<(String, String)> =
        plan.writes.iter().map(|w| (w.path.clone(), w.contents.clone())).collect();
    assert_eq!(
        writes,
        vec![
            ("/tmp/cg/gold/tenant-abc/memory.max".to_string(), "4563402752".to_string()),
            ("/tmp/cg/gold/tenant-abc/memory.swap.max".to_string(), "0".to_string()),
            ("/tmp/cg/gold/tenant-abc/memory.oom.group".to_string(), "1".to_string()),
            ("/tmp/cg/gold/tenant-abc/cpu.max".to_string(), "200000 100000".to_string()),
        ]
    );
    let memory_max = CgroupManager::parse_counter(&writes[0].1, "memory.max").unwrap();
    assert_eq!(memory_max, CgroupManager::memory_max_default("gold").unwrap());
}

#[test]
fn tenant_plan_refusals() {
    let m = CgroupManager::with_root("/tmp/cg".to_string());
    assert_eq!(
        m.tenant_plan("diamond", "t").err().unwrap().to_string(),
        "invalid input: invalid tier 'diamond': must be one of 'silver', 'gold', 'platinum'"
    );
    assert!(m.tenant_plan("gold", "..").is_err());
    let upper = m.tenant_plan("GOLD", "t").unwrap();
    assert_eq!(upper.dir, "/tmp/cg/GOLD/t");
}

#[test]
fn pids_are_read_line_by_line() {
    assert_eq!(CgroupManager::parse_pids("123\n456\n"), vec![123, 456]);
    assert_eq!(CgroupManager::parse_pids(" 7 \r\nabc\n\n-5\n99999999999\n8"), vec![7, -5, 8]);
    assert_eq!(CgroupManager::parse_pids(""), Vec::<i32>::new());
    assert_eq!(CgroupManager::parse_pids("+12\n-\n2147483647\n-2147483648\n2147483648\n"), vec![12, 2147483647, -2147483648]);
}

#[test]
fn counters_and_their_errors() {
    assert_eq!(CgroupManager::parse_counter("1048576\n", "memory.current").unwrap(), 1048576);
    assert_eq!(
        CgroupManager::parse_counter("max\n", "memory.max").unwrap_err().to_string(),
        "cgroup error: invalid memory.max: invalid digit found in string"
    );
    assert_eq!(
        CgroupManager::parse_counter("", "memory.current").unwrap_err().to_string(),
        "cgroup error: invalid memory.current: cannot parse integer from empty string"
    );
    assert!(CgroupManager::memory_max_default("diamond").is_err());
    assert_eq!(CgroupManager::memory_max_default("Silver").unwrap(), 1_342_177_280);
}

#[test]
fn oom_kill_count_is_found_by_its_line() {
    let events = "low 0\nhigh 2\nmax 5\noom 3\noom_kill 2\noom_group_kill 0\n";
    assert_eq!(CgroupManager::parse_oom_kill_count(events).unwrap(), 2);
    assert_eq!(CgroupManager::parse_oom_kill_count("low 0\n").unwrap(), 0);
    assert_eq!(CgroupManager::parse_oom_kill_count("").unwrap(), 0);
    assert_eq!(CgroupManager::parse_oom_kill_count("oom_kill\noom_kill 4").unwrap(), 4);
    assert_eq!(
        CgroupManager::parse_oom_kill_count("oom_kill x\noom_kill 4").unwrap_err().to_string(),
        "cgroup error: invalid oom_kill count: invalid digit found in string"
    );
}

#[test]
fn mount_check_reports_missing_controllers() {
    let m = CgroupManager::with_root("/sys/fs/cgroup/javapaas".to_string());
    assert_eq!(m.mount_check(Some("cpuset cpu io memory pids")).unwrap(), Vec::<&str>::new());
    assert_eq!(m.mount_check(Some("cpu io")).unwrap(), vec!["memory"]);
    assert_eq!(m.mount_check(Some("")).unwrap(), vec!["memory", "cpu"]);
    assert_eq!(
        m.mount_check(None).unwrap_err().to_string(),
        "cgroup error: cgroups v2 not mounted at /sys/fs/cgroup"
    );
    let t = CgroupManager::with_root("/tmp/cgroup_test_1".to_string());
    assert!(t.mount_check(None).is_ok());
    let lookalike = CgroupManager::with_root("/tmpfoo".to_string());
    assert!(lookalike.mount_check(None).is_err());
}

#[test]
fn hierarchy_and_subtree_control() {
    let m = CgroupManager::with_root("/r".to_string());
    assert_eq!(m.hierarchy_dirs(), vec!["/r", "/r/silver", "/r/gold", "/r/platinum"]);
    assert_eq!(CgroupManager::subtree_control_path("/r"), "/r/cgroup.subtree_control");
    assert!(CgroupManager::subtree_control_is_current("+cpu +memory +io\n"));
    assert!(!CgroupManager::subtree_control_is_current("cpu memory io"));
}

#[test]
fn resizing_plans() {
    let m = CgroupManager::with_root("/r".to_string());
    match m.resize_plan("silver", "t", "SILVER", true).unwrap() {
        ResizePlan::InPlace { writes } => {
            assert_eq!(writes.len(), 2);
            assert_eq!(writes[0].path, "/r/silver/t/memory.max");
            assert_eq!(writes[0].contents, "1342177280");
            assert_eq!(writes[1].path, "/r/silver/t/cpu.max");
            assert_eq!(writes[1].contents, "100000 100000");
        }
        _ => panic!("same tier resizes in place"),
    }
    match m.resize_plan("silver", "t", "gold", true).unwrap() {
        ResizePlan::Migrate { target, procs } => {
            assert_eq!(target.dir, "/r/gold/t");
            assert_eq!(procs, "/r/gold/t/cgroup.procs");
            assert_eq!(target.writes[0].contents, "4563402752");
        }
        _ => panic!("another tier migrates"),
    }
    assert_eq!(
        m.resize_plan("silver", "t", "gold", false).err().unwrap().to_string(),
        "not found: cgroup for tenant 't' in tier 'silver' not found"
    );
    assert!(m.resize_plan("silver", "t", "diamond", true).is_err());
    assert!(m.resize_plan("../x", "t", "gold", true).is_err());
}

#[test]
fn removal_outcomes() {
    let m = CgroupManager::with_root("/r".to_string());
    assert_eq!(m.removal_target("gold", "t", true).unwrap(), Some("/r/gold/t".to_string()));
    assert_eq!(m.removal_target("gold", "t", false).unwrap(), None);
    assert!(m.removal_target("gold", "", true).is_err());
    assert!(m.removal_target("gold", "../x", false).is_err());
    assert_eq!(
        CgroupManager::create_dir_error("/r/gold/t", "denied").to_string(),
        "cgroup error: failed to create cgroup dir /r/gold/t: denied"
    );
    assert!(CgroupManager::removal_result("/r/gold/t", RemoveDirOutcome::Removed).is_ok());
    assert!(CgroupManager::removal_result("/r/gold/t", RemoveDirOutcome::Missing).is_ok());
    assert!(CgroupManager::removal_result(
        "/r/gold/t",
        RemoveDirOutcome::NotEmpty { cleared: true, error: "busy".into() }
    )
    .is_ok());
    assert_eq!(
        CgroupManager::removal_result(
            "/r/gold/t",
            RemoveDirOutcome::NotEmpty { cleared: false, error: "busy".into() }
        )
        .unwrap_err()
        .to_string(),
        "cgroup error: failed to remove cgroup /r/gold/t: busy"
    );
    assert!(CgroupManager::removal_result("/r", RemoveDirOutcome::Failed { error: "EBUSY".into() }).is_err());
    assert!(removal_needs_kill_round(0, 3));
    assert!(!removal_needs_kill_round(0, 0));
    assert!(!removal_needs_kill_round(10, 3));
}
