use getver::controller::{Action, Controller, DEFAULT_WORKER_CAP};
use getver::names::dedup;
use getver::outcome::LookupOutcome;

fn strings(names: &[&str]) -> Vec<String> {
    names.iter().map(|n| n.to_string()).collect()
}

fn numbered(count: usize) -> Vec<String> {
    (0..count).map(|i| format!("crate-{}", i)).collect()
}

fn found(name: &str) -> LookupOutcome {
    LookupOutcome::Found { name: name.to_string(), max_version: "1.0.0".to_string() }
}

fn failed(name: &str) -> LookupOutcome {
    LookupOutcome::Failed { name: name.to_string(), cause: "timed out".to_string() }
}

#[test]
fn default_cap_is_eight() {
    assert_eq!(DEFAULT_WORKER_CAP, 8);
    let controller = Controller::with_default_cap(dedup(&numbered(3)));
    assert_eq!(controller.cap(), 8);
}

#[test]
fn cap_of_zero_builds_no_controller() {
    assert!(Controller::new(dedup(&numbered(3)), 0).is_none());
    assert!(Controller::new(dedup(&Vec::new()), 0).is_none());
}

#[test]
fn any_positive_cap_builds_a_controller() {
    for cap in [1usize, 2, 8, 1000, usize::MAX] {
        let controller = Controller::new(dedup(&numbered(3)), cap);
        assert_eq!(controller.map(|c| c.cap()), Some(cap));
    }
}

#[test]
fn unbounded_cap_is_the_batch_size() {
    assert_eq!(Controller::unbounded(dedup(&numbered(20))).cap(), 20);
    assert_eq!(Controller::unbounded(dedup(&numbered(1))).cap(), 1);
    assert_eq!(Controller::unbounded(dedup(&Vec::new())).cap(), 1);
}

#[test]
fn fresh_controller_has_everything_pending() {
    let controller = Controller::with_default_cap(dedup(&strings(&["a", "b", "a", "c"])));
    assert_eq!(controller.pending_count(), 3);
    assert_eq!(controller.in_flight_count(), 0);
    assert!(!controller.is_finished());
}

#[test]
fn empty_batch_is_finished_at_once() {
    let mut controller = Controller::with_default_cap(dedup(&Vec::new()));
    assert!(controller.is_finished());
    assert_eq!(controller.next_action(), Action::Finished);
    assert_eq!(controller.next_action(), Action::Finished);
    let report = controller.into_report().ok().map(|r| r.len());
    assert_eq!(report, Some(0));
}

#[test]
fn names_are_dispatched_in_batch_order() {
    let mut controller = Controller::with_default_cap(dedup(&strings(&["c", "a", "c", "b"])));
    assert_eq!(controller.next_action(), Action::Dispatch("c".to_string()));
    assert_eq!(controller.next_action(), Action::Dispatch("a".to_string()));
    assert_eq!(controller.next_action(), Action::Dispatch("b".to_string()));
    assert_eq!(controller.next_action(), Action::Wait);
    assert_eq!(controller.in_flight_count(), 3);
    assert_eq!(controller.pending_count(), 0);
}

#[test]
fn controller_waits_when_the_cap_is_reached() {
    let mut controller = Controller::new(dedup(&numbered(5)), 2).unwrap();
    assert_eq!(controller.next_action(), Action::Dispatch("crate-0".to_string()));
    assert_eq!(controller.next_action(), Action::Dispatch("crate-1".to_string()));
    assert_eq!(controller.next_action(), Action::Wait);
    assert_eq!(controller.next_action(), Action::Wait);
    assert_eq!(controller.in_flight_count(), 2);
    assert_eq!(controller.pending_count(), 3);
    assert!(controller.complete(found("crate-1")));
    assert_eq!(controller.in_flight_count(), 1);
    assert_eq!(controller.next_action(), Action::Dispatch("crate-2".to_string()));
    assert_eq!(controller.next_action(), Action::Wait);
}

#[test]
fn in_flight_never_exceeds_the_cap() {
    for cap in [1usize, 2, 3, 8, 50] {
        let mut controller = Controller::new(dedup(&numbered(40)), cap).unwrap();
        let mut flying: Vec<String> = Vec::new();
        let mut peak = 0;
        let mut dispatched = 0;
        loop {
            assert!(controller.in_flight_count() <= cap);
            assert_eq!(controller.in_flight_count(), flying.len());
            peak = peak.max(flying.len());
            match controller.next_action() {
                Action::Dispatch(name) => {
                    dispatched += 1;
                    flying.push(name);
                },
                Action::Wait => {
                    let name = flying.remove(flying.len() / 2);
                    assert!(controller.complete(found(&name)));
                },
                Action::Finished => break,
            }
        }
        assert_eq!(dispatched, 40);
        assert_eq!(peak, cap.min(40));
        assert!(flying.is_empty());
        assert_eq!(controller.into_report().ok().map(|r| r.len()), Some(40));
    }
}

#[test]
fn every_name_is_dispatched_exactly_once() {
    let mut controller = Controller::new(dedup(&strings(&["a", "b", "a", "c", "b"])), 2).unwrap();
    let mut dispatched: Vec<String> = Vec::new();
    let mut flying: Vec<String> = Vec::new();
    loop {
        match controller.next_action() {
            Action::Dispatch(name) => {
                dispatched.push(name.clone());
                flying.push(name);
            },
            Action::Wait => {
                let name = flying.remove(0);
                assert!(controller.complete(failed(&name)));
            },
            Action::Finished => break,
        }
    }
    assert_eq!(dispatched, strings(&["a", "b", "c"]));
}

#[test]
fn outcome_for_a_name_not_in_flight_is_turned_away() {
    let mut controller = Controller::new(dedup(&strings(&["a", "b"])), 1).unwrap();
    assert!(!controller.complete(found("a")));
    assert_eq!(controller.next_action(), Action::Dispatch("a".to_string()));
    assert!(!controller.complete(found("b")));
    assert!(!controller.complete(found("zzz")));
    assert_eq!(controller.in_flight_count(), 1);
    assert!(controller.complete(found("a")));
    assert!(!controller.complete(found("a")));
    assert!(!controller.complete(failed("a")));
    assert_eq!(controller.in_flight_count(), 0);
    assert_eq!(controller.pending_count(), 1);
}

#[test]
fn report_is_withheld_until_every_lookup_ended() {
    let controller = Controller::with_default_cap(dedup(&strings(&["a", "b"])));
    let mut controller = match controller.into_report() {
        Ok(_) => panic!("nothing was looked up yet"),
        Err(controller) => controller,
    };
    assert_eq!(controller.pending_count(), 2);
    assert_eq!(controller.next_action(), Action::Dispatch("a".to_string()));
    assert_eq!(controller.next_action(), Action::Dispatch("b".to_string()));
    assert!(controller.complete(found("a")));
    let mut controller = match controller.into_report() {
        Ok(_) => panic!("one lookup is still in flight"),
        Err(controller) => controller,
    };
    assert_eq!(controller.in_flight_count(), 1);
    assert!(!controller.is_finished());
    assert!(controller.complete(found("b")));
    assert!(controller.is_finished());
    assert_eq!(controller.next_action(), Action::Finished);
    assert!(controller.into_report().is_ok());
}

#[test]
fn outcomes_may_come_in_any_order() {
    let names = strings(&["a", "b", "c", "d"]);
    for order in [[0usize, 1, 2, 3], [3, 2, 1, 0], [1, 3, 0, 2], [2, 0, 3, 1]] {
        let mut controller = Controller::with_default_cap(dedup(&names));
        for name in &names {
            assert_eq!(controller.next_action(), Action::Dispatch(name.clone()));
        }
        for at in order {
            assert!(controller.complete(found(&names[at])));
        }
        let report = controller.into_report().ok().unwrap();
        let mut listed: Vec<String> = report.found().iter().map(|k| k.name.clone()).collect();
        let expected: Vec<String> = order.iter().map(|at| names[*at].clone()).collect();
        assert_eq!(listed, expected);
        listed.sort();
        assert_eq!(listed, names);
    }
}

#[test]
fn a_failure_does_not_stand_in_the_way_of_other_names() {
    let names = numbered(10);
    let mut controller = Controller::new(dedup(&names), 3).unwrap();
    let mut flying: Vec<String> = Vec::new();
    loop {
        match controller.next_action() {
            Action::Dispatch(name) => flying.push(name),
            Action::Wait => {
                let name = flying.remove(0);
                let outcome = if name == "crate-0" || name == "crate-4" {
                    failed(&name)
                } else {
                    found(&name)
                };
                assert!(controller.complete(outcome));
            },
            Action::Finished => break,
        }
    }
    let report = controller.into_report().ok().unwrap();
    assert_eq!(report.len(), 10);
    assert_eq!(report.failed().len(), 2);
    assert_eq!(report.found().len(), 8);
    for name in &names {
        assert!(report.contains(name));
    }
}

#[test]
fn report_is_complete_when_every_lookup_fails() {
    let names = numbered(12);
    let mut controller = Controller::new(dedup(&names), 4).unwrap();
    let mut flying: Vec<String> = Vec::new();
    loop {
        match controller.next_action() {
            Action::Dispatch(name) => flying.push(name),
            Action::Wait => {
                let name = flying.pop().unwrap();
                assert!(controller.complete(failed(&name)));
            },
            Action::Finished => break,
        }
    }
    let report = controller.into_report().ok().unwrap();
    assert_eq!(report.len(), 12);
    assert_eq!(report.failed().len(), 12);
    assert!(report.found().is_empty());
    assert!(report.not_found().is_empty());
}
