use tipjar::gas::{
    compute_cost_stroops, find_estimate, generate_comparisons, generate_suggestions, make_estimate, severity_marker,
    Severity, CRITICAL_CPU, WARN_CPU,
};

#[test]
fn cost_rounds_each_resource_up() {
    assert_eq!(compute_cost_stroops(0, 0), 0);
    assert_eq!(compute_cost_stroops(1, 1), 2);
    assert_eq!(compute_cost_stroops(10_000, 1_024), 2);
    assert_eq!(compute_cost_stroops(10_001, 1_025), 4);
    assert_eq!(compute_cost_stroops(u64::MAX, u64::MAX), 1_844_674_407_370_956 + 18_014_398_509_481_984);
}

#[test]
fn markers_follow_cpu_bands() {
    assert_eq!(severity_marker(0), "🟢");
    assert_eq!(severity_marker(WARN_CPU - 1), "🟢");
    assert_eq!(severity_marker(WARN_CPU), "🟡");
    assert_eq!(severity_marker(CRITICAL_CPU - 1), "🟡");
    assert_eq!(severity_marker(CRITICAL_CPU), "🔴");
}

#[test]
fn estimate_carries_inputs_and_cost() {
    let e = make_estimate("tip", "cold", 123_456, 7_890);
    assert_eq!(e.function_name, "tip");
    assert_eq!(e.storage_variant, "cold");
    assert_eq!(e.cpu_instructions, 123_456);
    assert_eq!(e.memory_bytes, 7_890);
    assert_eq!(e.estimated_cost_stroops, 13 + 8);
}

#[test]
fn suggestions_in_order_per_estimate() {
    let estimates = vec![
        make_estimate("get_leaderboard", "warm", 6_000_000, 60_000),
        make_estimate("tip", "cold", 10, 10),
        make_estimate("create_subscription", "cold", 2_000_000, 0),
        make_estimate("tip_split", "cold", 0, 0),
    ];
    let s = generate_suggestions(&estimates);
    assert_eq!(s.len(), 6);
    assert_eq!(s[0].function, "get_leaderboard");
    assert_eq!(s[0].severity, Severity::Critical);
    assert_eq!(
        s[0].message,
        "CPU usage (6000000 instructions) is high. Consider caching storage reads or splitting the operation into smaller steps."
    );
    assert_eq!(s[1].severity, Severity::Warning);
    assert_eq!(
        s[1].message,
        "Memory usage (60000 bytes) is elevated. Avoid allocating large Vecs/Maps inside the contract; prefer pagination."
    );
    assert_eq!(s[2].severity, Severity::Info);
    assert!(s[2].message.starts_with("Leaderboard queries"));
    assert_eq!(s[3].function, "create_subscription");
    assert_eq!(s[3].severity, Severity::Warning);
    assert_eq!(s[4].severity, Severity::Info);
    assert!(s[4].message.starts_with("Subscription operations"));
    assert_eq!(s[5].function, "tip_split");
    assert!(s[5].message.ends_with("bounded by the 2–10 recipient limit."));
}

#[test]
fn no_suggestions_for_cheap_calls() {
    let estimates = vec![make_estimate("tip", "warm", 999_999, 49_999)];
    assert!(generate_suggestions(&estimates).is_empty());
}

#[test]
fn comparisons_use_first_measurement_of_each_pair() {
    let estimates = vec![
        make_estimate("tip", "cold", 1_000, 0),
        make_estimate("tip", "warm", 800, 0),
        make_estimate("tip", "cold", 5_000, 0),
        make_estimate("withdraw", "warm", 300, 0),
        make_estimate("get_withdrawable_balance", "warm", 450, 0),
    ];
    assert_eq!(find_estimate(&estimates, "tip", "cold"), Some(0));
    assert_eq!(find_estimate(&estimates, "tip", "hot"), None);
    let c = generate_comparisons(&estimates);
    assert_eq!(c.len(), 2);
    assert_eq!(c[0].label, "tip: cold vs warm");
    assert_eq!(c[0].baseline, "tip (cold)");
    assert_eq!(c[0].candidate, "tip (warm)");
    assert_eq!(c[0].baseline_cpu, 1_000);
    assert_eq!(c[0].candidate_cpu, 800);
    assert_eq!(c[0].delta_cpu, -200);
    assert_eq!(c[1].label, "withdraw vs get_withdrawable_balance");
    assert_eq!(c[1].delta_cpu, 150);
}
