use jvm_lifecycle_mgr::config::{Tier, TierConfig, all_tiers};

#[test]
fn test_tier_from_str() {
    assert_eq!(Tier::from_str("silver"), Some(Tier::Silver));
    assert_eq!(Tier::from_str("GOLD"), Some(Tier::Gold));
    assert_eq!(Tier::from_str("Platinum"), Some(Tier::Platinum));
    assert_eq!(Tier::from_str("diamond"), None);
}

#[test]
fn test_tier_parse() {
    assert!(Tier::parse("gold").is_ok());
    assert!(Tier::parse("invalid").is_err());
}

#[test]
fn test_tier_jvm_args() {
    let silver = TierConfig::for_tier(Tier::Silver);
    assert_eq!(silver.tier, Tier::Silver);
    let args = silver.jvm_args();
    assert!(args.contains(&"-Xms256m".to_string()));
    assert!(args.contains(&"-Xmx1g".to_string()));
    assert!(args.contains(&"-XX:+UseG1GC".to_string()));

    let gold = TierConfig::for_tier(Tier::Gold);
    assert_eq!(gold.cgroup_memory_swap_max, 0);
    let gold_args = gold.jvm_args();
    assert!(gold_args.contains(&"-XX:+UseZGC".to_string()));
}

#[test]
fn test_cpu_max_string() {
    let silver = TierConfig::for_tier(Tier::Silver);
    assert_eq!(silver.cpu_max_string(), "100000 100000");

    let gold = TierConfig::for_tier(Tier::Gold);
    assert_eq!(gold.cpu_max_string(), "200000 100000");

    let plat = TierConfig::for_tier(Tier::Platinum);
    assert_eq!(plat.cpu_max_string(), "400000 100000");
}

#[test]
fn tier_names_read_back_in_any_case() {
    for t in all_tiers() {
        assert_eq!(Tier::from_str(t.as_str()), Some(t));
        assert_eq!(Tier::from_str(&t.as_str().to_uppercase()), Some(t));
        assert_eq!(t.to_string(), t.as_str());
    }
    assert_eq!(Tier::from_str("sIlVeR"), Some(Tier::Silver));
    assert_eq!(Tier::from_str(" silver"), None);
    assert_eq!(Tier::from_str(""), None);
    assert_eq!(Tier::from_str("golden"), None);
}

#[test]
fn unknown_tier_error_names_the_choices() {
    match Tier::parse("bronze") {
        Err(e) => assert_eq!(
            e.to_string(),
            "invalid input: invalid tier 'bronze': must be one of 'silver', 'gold', 'platinum'"
        ),
        Ok(_) => panic!("bronze is no tier"),
    }
}

#[test]
fn tier_limits_are_exact() {
    let p = TierConfig::for_tier(Tier::Platinum);
    assert_eq!(p.jvm_args(), vec!["-Xms4g", "-Xmx32g", "-XX:+UseZGC", "-XX:+ZGenerational"]);
    assert_eq!(p.cgroup_memory_max, 34_628_173_824);
    let g = TierConfig::for_tier(Tier::Gold);
    assert_eq!(g.jvm_args(), vec!["-Xms1g", "-Xmx4g", "-XX:MaxGCPauseMillis=200", "-XX:+UseZGC"]);
    assert_eq!(g.cgroup_memory_max, 4_563_402_752);
    let s = TierConfig::for_tier(Tier::Silver);
    assert_eq!(s.cgroup_memory_max, 1_342_177_280);
    assert_eq!(s.cpu_period_us, 100_000);
}
