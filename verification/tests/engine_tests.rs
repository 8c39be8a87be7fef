use cypat::Condition;
use cypat::Engine;
use cypat::InstallMethod;

#[test]
fn new_engine_has_defaults() {
    let e = Engine::new();
    assert_eq!(e.poll_frequency(), 5);
    assert_eq!(e.completed_review_interval(), 10);
    assert!(!e.is_running());
    assert!(!e.in_execution());
    assert_eq!(e.current_tick(), 0);
    assert_eq!(e.condition_count(), 0);
    assert_eq!(e.calc_total_score(), 0);
}

#[test]
fn tuning_setters_update_both_names() {
    let mut e = Engine::new();
    e.set_freq(2);
    e.set_completed_freq(7);
    assert_eq!(e.poll_frequency(), 2);
    assert_eq!(e.completed_review_interval(), 7);
    e.set_update_freq(3);
    e.set_completed_update_freq(4);
    assert_eq!(e.poll_frequency(), 3);
    assert_eq!(e.completed_review_interval(), 4);
}

#[test]
fn registration_appends_in_order() {
    let mut e = Engine::new();
    assert_eq!(e.add_file_vuln("flag.txt".to_string()), 0);
    assert_eq!(
        e.add_app_vuln("nmap".to_string(), InstallMethod::PackageManager),
        1
    );
    assert_eq!(e.add_user_vuln("mallory".to_string()), 2);
    assert_eq!(e.add_misc_vuln(), 3);
    assert_eq!(e.condition_count(), 4);
    match e.condition_at(0) {
        Condition::FileVuln { path, cursor } => {
            assert_eq!(path.as_str(), "flag.txt");
            assert_eq!(*cursor, 0);
        }
        _ => panic!("expected a file condition"),
    }
    match e.condition_at(1) {
        Condition::AppVuln { app } => {
            assert_eq!(app.name, "nmap");
            assert!(matches!(app.install_method, InstallMethod::PackageManager));
        }
        _ => panic!("expected an app condition"),
    }
    match e.condition_at(2) {
        Condition::UserVuln { username } => assert_eq!(username.as_str(), "mallory"),
        _ => panic!("expected a user condition"),
    }
    assert!(matches!(e.condition_at(3), Condition::CustomVuln));
    for i in 0..4 {
        assert!(!e.is_completed(i));
    }
}

#[test]
fn engine_scoring_delegates_to_the_ledger() {
    let mut e = Engine::new();
    e.add_score(1, 50, "patched".to_string());
    e.add_score(2, 25, "firewalled".to_string());
    e.add_score(1, 60, "patched better".to_string());
    assert_eq!(
        e.generate_score_report(),
        vec![
            ("patched better".to_string(), 60),
            ("firewalled".to_string(), 25),
        ]
    );
    assert_eq!(e.calc_total_score(), 85);
    assert!(e.entry_exists(2));
    assert_eq!(e.remove_score(2), Ok(()));
    assert_eq!(e.remove_score(2), Err(()));
    assert_eq!(e.calc_total_score(), 60);
    assert_eq!(e.get_entry(1), Some((1, 60, "patched better".to_string())));
}

#[test]
fn incomplete_condition_is_evaluated_every_tick() {
    let mut e = Engine::new();
    e.add_misc_vuln();
    // K ticks of a predicate that keeps failing: planned on every one of them
    for k in 0..5 {
        assert_eq!(e.current_tick(), k);
        let plan = e.begin_tick();
        assert_eq!(plan, vec![0]);
        e.record_result(0, false);
        e.end_tick();
        assert!(!e.is_completed(0));
    }
    assert_eq!(e.current_tick(), 5);
}

#[test]
fn completed_condition_waits_for_review_ticks() {
    let mut e = Engine::new();
    e.set_completed_freq(3);
    e.add_misc_vuln();
    // tick 0: incomplete, so evaluated; the predicate reports success
    e.update_engine(&vec![true]);
    assert!(e.is_completed(0));
    // ticks 1 and 2 are no review ticks: the failing answer is not even asked
    e.update_engine(&vec![false]);
    assert!(e.is_completed(0));
    e.update_engine(&vec![false]);
    assert!(e.is_completed(0));
    // tick 3 is a review tick: the regression is noticed
    e.update_engine(&vec![false]);
    assert!(!e.is_completed(0));
    // tick 4: incomplete again, evaluated at once
    e.update_engine(&vec![true]);
    assert!(e.is_completed(0));
    assert_eq!(e.current_tick(), 5);
}

#[test]
fn completed_condition_planned_only_on_review_ticks() {
    let mut e = Engine::new();
    e.set_completed_freq(2);
    e.add_misc_vuln();
    e.add_misc_vuln();
    // tick 0: both incomplete
    let plan = e.begin_tick();
    assert_eq!(plan, vec![0, 1]);
    e.record_result(0, true);
    e.record_result(1, false);
    e.end_tick();
    // tick 1: entry 0 is completed and 1 is odd, so only entry 1 is planned
    let plan = e.begin_tick();
    assert_eq!(plan, vec![1]);
    e.record_result(1, false);
    e.end_tick();
    // tick 2: review tick, both planned again
    let plan = e.begin_tick();
    assert_eq!(plan, vec![0, 1]);
    e.record_result(0, true);
    e.record_result(1, true);
    e.end_tick();
    assert_eq!(e.current_tick(), 3);
}

#[test]
fn file_check_cursor_is_persisted_between_ticks() {
    let mut e = Engine::new();
    e.add_file_vuln("flag.txt".to_string());
    // tick 0: the file does not exist yet; the predicate observes absence
    let plan = e.begin_tick();
    assert_eq!(plan, vec![0]);
    e.record_result(0, false);
    e.end_tick();
    assert!(!e.is_completed(0));
    match e.condition_at(0) {
        Condition::FileVuln { cursor, .. } => assert_eq!(*cursor, 0),
        _ => panic!("expected a file condition"),
    }
    // tick 1: the file now holds "ok"; the predicate reads both bytes and
    // reports success, and the dispatcher persists the new position
    let plan = e.begin_tick();
    assert_eq!(plan, vec![0]);
    e.record_result(0, true);
    e.set_file_cursor(0, 2);
    e.end_tick();
    assert!(e.is_completed(0));
    match e.condition_at(0) {
        Condition::FileVuln { path, cursor } => {
            assert_eq!(path.as_str(), "flag.txt");
            assert_eq!(*cursor, 2);
        }
        _ => panic!("expected a file condition"),
    }
    assert_eq!(e.current_tick(), 2);
}

#[test]
fn stop_does_not_abort_an_in_flight_tick() {
    let mut e = Engine::new();
    e.add_misc_vuln();
    e.add_score(1, 10, "early".to_string());
    e.start();
    assert!(e.is_running());
    let plan = e.begin_tick();
    assert_eq!(plan, vec![0]);
    assert!(e.in_execution());
    // a stop request lands mid-tick: the run flag drops, nothing else moves
    e.stop(false);
    assert!(!e.is_running());
    assert!(e.in_execution());
    assert_eq!(e.current_tick(), 0);
    assert_eq!(e.calc_total_score(), 10);
    assert_eq!(e.condition_count(), 1);
    // the pass still completes before the tick closes
    e.record_result(0, true);
    e.end_tick();
    assert!(!e.in_execution());
    assert_eq!(e.current_tick(), 1);
}

#[test]
fn stop_engine_clears_the_run_flag() {
    let mut e = Engine::new();
    e.start();
    assert!(e.is_running());
    e.stop_engine();
    assert!(!e.is_running());
}

#[test]
fn update_engine_leaves_unregistered_state_alone() {
    let mut e = Engine::new();
    e.add_score(4, 5, "score".to_string());
    e.update_engine(&Vec::new());
    assert_eq!(e.current_tick(), 1);
    assert_eq!(e.calc_total_score(), 5);
    assert!(!e.is_running());
}
