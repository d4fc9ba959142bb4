use ember::bootstrap::{BootstrapPhase, BootstrapPlan, BootstrapTimer};
use std::time::Duration;

#[test]
fn default_plan_has_all_phases_in_order() {
    let plan = BootstrapPlan::default_plan();
    let expected = BootstrapPhase::all_phases();
    assert_eq!(plan.phases(), expected.as_slice());
}

#[test]
fn from_phases_deduplicates() {
    let plan = BootstrapPlan::from_phases(vec![
        BootstrapPhase::ConfigLoad,
        BootstrapPhase::CliEntry,
        BootstrapPhase::ConfigLoad,
        BootstrapPhase::ProviderInit,
        BootstrapPhase::CliEntry,
    ]);
    assert_eq!(
        plan.phases(),
        &[
            BootstrapPhase::ConfigLoad,
            BootstrapPhase::CliEntry,
            BootstrapPhase::ProviderInit,
        ]
    );
}

#[test]
fn fast_path_skips_phases() {
    let skip = [BootstrapPhase::PluginDiscovery, BootstrapPhase::McpSetup];
    let plan = BootstrapPlan::fast_path(&skip);
    for &skipped in &skip {
        assert!(!plan.contains(skipped), "{} should be absent", skipped.as_str());
    }
    let remaining: Vec<_> = BootstrapPhase::all_phases()
        .into_iter()
        .filter(|p| !skip.contains(p))
        .collect();
    assert_eq!(plan.phases(), remaining.as_slice());
}

#[test]
fn contains_is_correct() {
    let plan = BootstrapPlan::fast_path(&[BootstrapPhase::PluginDiscovery]);
    assert!(plan.contains(BootstrapPhase::ConfigLoad));
    assert!(!plan.contains(BootstrapPhase::PluginDiscovery));
}

#[test]
fn insert_before_places_correctly() {
    let mut plan = BootstrapPlan::from_phases(vec![
        BootstrapPhase::CliEntry,
        BootstrapPhase::ConfigLoad,
        BootstrapPhase::MainRuntime,
    ]);
    plan.insert_before(BootstrapPhase::ConfigLoad, BootstrapPhase::ProviderInit);
    assert_eq!(
        plan.phases(),
        &[
            BootstrapPhase::CliEntry,
            BootstrapPhase::ProviderInit,
            BootstrapPhase::ConfigLoad,
            BootstrapPhase::MainRuntime,
        ]
    );
}

#[test]
fn insert_after_places_correctly() {
    let mut plan = BootstrapPlan::from_phases(vec![
        BootstrapPhase::CliEntry,
        BootstrapPhase::ConfigLoad,
        BootstrapPhase::MainRuntime,
    ]);
    plan.insert_after(BootstrapPhase::ConfigLoad, BootstrapPhase::ProviderInit);
    assert_eq!(
        plan.phases(),
        &[
            BootstrapPhase::CliEntry,
            BootstrapPhase::ConfigLoad,
            BootstrapPhase::ProviderInit,
            BootstrapPhase::MainRuntime,
        ]
    );
}

#[test]
fn remove_eliminates_phase() {
    let mut plan = BootstrapPlan::default_plan();
    assert!(plan.contains(BootstrapPhase::McpSetup));
    plan.remove(BootstrapPhase::McpSetup);
    assert!(!plan.contains(BootstrapPhase::McpSetup));
    assert_eq!(plan.phases().len(), BootstrapPhase::all_phases().len() - 1);
}

#[test]
fn timer_tracks_phase_durations() {
    let mut timer = BootstrapTimer::new();
    timer.start_phase(BootstrapPhase::ConfigLoad);
    let deadline = std::time::Instant::now() + Duration::from_millis(2);
    while std::time::Instant::now() < deadline {}
    timer.end_phase(BootstrapPhase::ConfigLoad);

    assert_eq!(timer.phase_times().len(), 1);
    let (phase, dur) = timer.phase_times()[0];
    assert_eq!(phase, BootstrapPhase::ConfigLoad);
    assert!(dur >= Duration::from_millis(1));
}

#[test]
fn format_report_is_non_empty_and_contains_phases() {
    let mut timer = BootstrapTimer::new();
    timer.start_phase(BootstrapPhase::CliEntry);
    timer.end_phase(BootstrapPhase::CliEntry);
    timer.start_phase(BootstrapPhase::ConfigLoad);
    timer.end_phase(BootstrapPhase::ConfigLoad);

    let report = timer.format_report();
    assert!(!report.is_empty());
    assert!(report.contains("CliEntry:"), "report = {report}");
    assert!(report.contains("ConfigLoad:"), "report = {report}");
    assert!(report.contains("Total:"), "report = {report}");
}

#[test]
fn empty_plan_is_valid() {
    let plan = BootstrapPlan::from_phases(vec![]);
    assert_eq!(plan.phases().len(), 0);
    assert!(!plan.contains(BootstrapPhase::CliEntry));

    let timer = BootstrapTimer::new();
    let report = timer.format_report();
    assert!(report.starts_with("Total:"), "report = {report}");
}

#[test]
fn insert_before_on_empty_plan_appends() {
    let mut plan = BootstrapPlan::from_phases(vec![]);
    plan.insert_before(BootstrapPhase::ConfigLoad, BootstrapPhase::CliEntry);
    assert_eq!(plan.phases(), &[BootstrapPhase::CliEntry]);
}

#[test]
fn insert_after_on_empty_plan_appends() {
    let mut plan = BootstrapPlan::from_phases(vec![]);
    plan.insert_after(BootstrapPhase::ConfigLoad, BootstrapPhase::CliEntry);
    assert_eq!(plan.phases(), &[BootstrapPhase::CliEntry]);
}

#[test]
fn insert_existing_phase_is_noop() {
    let mut plan =
        BootstrapPlan::from_phases(vec![BootstrapPhase::CliEntry, BootstrapPhase::ConfigLoad]);
    plan.insert_before(BootstrapPhase::ConfigLoad, BootstrapPhase::CliEntry);
    assert_eq!(
        plan.phases(),
        &[BootstrapPhase::CliEntry, BootstrapPhase::ConfigLoad]
    );
}

#[test]
fn total_elapsed_increases() {
    let timer = BootstrapTimer::new();
    let t1 = timer.total_elapsed();
    let deadline = std::time::Instant::now() + Duration::from_millis(2);
    while std::time::Instant::now() < deadline {}
    let t2 = timer.total_elapsed();
    assert!(t2 > t1);
}

#[test]
fn end_phase_without_start_is_noop() {
    let mut timer = BootstrapTimer::new();
    timer.end_phase(BootstrapPhase::ProviderInit);
    assert_eq!(timer.phase_times().len(), 0);
}

#[test]
fn report_lists_phases_in_completion_order() {
    let mut timer = BootstrapTimer::new();
    timer.start_phase(BootstrapPhase::McpSetup);
    timer.start_phase(BootstrapPhase::CliEntry);
    timer.end_phase(BootstrapPhase::CliEntry);
    timer.end_phase(BootstrapPhase::McpSetup);
    let report = timer.format_report();
    let parts: Vec<&str> = report.split(" | ").collect();
    assert_eq!(parts.len(), 3);
    assert!(parts[0].starts_with("CliEntry: ") && parts[0].ends_with("ms"));
    assert!(parts[1].starts_with("McpSetup: "));
    assert!(parts[2].starts_with("Total: "));
}

#[test]
fn remove_then_insert_after_restores_position() {
    let mut plan = BootstrapPlan::default_plan();
    plan.remove(BootstrapPhase::McpSetup);
    plan.insert_after(BootstrapPhase::PluginDiscovery, BootstrapPhase::McpSetup);
    assert_eq!(plan.phases(), BootstrapPhase::all_phases().as_slice());
}
