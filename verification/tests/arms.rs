use std::collections::{HashMap, HashSet};

use polyphonic::arms::{can_record, gate_step, record_served, Step, Tally};
use polyphonic::cache::Cost;
use polyphonic::flow::FlowMode;

fn served(ns: u64) -> Cost {
    Cost {
        transfer_ns: ns,
        ..Cost::default()
    }
}

#[test]
fn gating_refuses_an_unsatisfiable_upstream_and_skips_its_downstream_once() {
    let mut t = Tally::default();
    let mut gated = HashSet::new();
    // A fan-out is never this ledger's.
    assert_eq!(
        gate_step(FlowMode::Gate, true, Some(7), None, false, &mut gated, &mut t),
        Step::Skip
    );
    assert_eq!(t.gated, 0);
    // Upstream of task 7 whose downstream cannot land: refused.
    assert_eq!(
        gate_step(FlowMode::Gate, false, Some(7), None, false, &mut gated, &mut t),
        Step::Refuse
    );
    assert_eq!((t.gated, t.flow_attempted), (1, 1));
    assert!(gated.contains(&7));
    // Its downstream is skipped, and only once.
    assert_eq!(
        gate_step(FlowMode::Gate, false, None, Some(7), true, &mut gated, &mut t),
        Step::Skip
    );
    assert!(gated.is_empty());
    assert_eq!(
        gate_step(FlowMode::Gate, false, None, Some(7), true, &mut gated, &mut t),
        Step::Access
    );
    // Without gating, nothing is refused.
    assert_eq!(
        gate_step(FlowMode::Announce, false, Some(8), None, false, &mut gated, &mut t),
        Step::Access
    );
    assert_eq!(t.gated, 1);
}

#[test]
fn a_served_task_opens_and_its_downstream_completes_or_breaks() {
    let mut t = Tally::default();
    let mut started = HashMap::new();
    // Upstream of task 3, served in 100 ns, class 1, phase 2.
    let up = served(100);
    assert!(can_record(&t, &started, 1, 2, Some(3), None, &up));
    assert!(record_served(&mut t, &mut started, FlowMode::Announce, 1, 2, Some(3), None, &up));
    assert_eq!(started.get(&3), Some(&100));
    assert_eq!((t.flow_started, t.flow_attempted), (1, 1));
    // Its downstream, served in 50 ns, class 0, phase 0.
    let down = served(50);
    assert!(!record_served(&mut t, &mut started, FlowMode::Announce, 0, 0, None, Some(3), &down));
    assert_eq!((t.flow_done, t.flow_e2e), (1, 150));
    assert!(started.is_empty());
    assert_eq!(t.total, 150);
    assert_eq!(t.kind_ns, [50, 100, 0, 0]);
    assert_eq!(t.phase_ns, [50, 0, 100, 0]);
    assert_eq!(t.served, [1, 1, 0, 0]);
    assert_eq!(t.kind_ops, t.served);
    // A blind arm never announces.
    assert!(!record_served(&mut t, &mut started, FlowMode::Blind, 0, 0, Some(4), None, &down));
    // A pending downstream breaks its task and is not served.
    let mut pending = served(9);
    pending.pending = true;
    assert!(!record_served(&mut t, &mut started, FlowMode::Blind, 0, 0, None, Some(4), &pending));
    assert_eq!(t.flow_broken, 1);
    assert_eq!(t.served, [2, 1, 0, 0]);
    assert_eq!(t.total, 200);
}

#[test]
fn a_run_serves_no_more_than_its_requests_that_are_not_fan_outs() {
    let mut t = Tally::default();
    let mut gated = HashSet::new();
    let mut started = HashMap::new();
    // (fan-out, class, phase, cost) for each request of the run.
    let pending = Cost {
        pending: true,
        ..Cost::default()
    };
    let run = [
        (true, 0usize, 0usize, served(5)),
        (false, 1, 2, served(10)),
        (false, 0, 1, pending),
        (false, 3, 3, served(7)),
    ];
    for (gang, kind, phase, c) in run {
        if gate_step(FlowMode::Blind, gang, None, None, true, &mut gated, &mut t) != Step::Access {
            continue;
        }
        assert!(can_record(&t, &started, kind, phase, None, None, &c));
        record_served(&mut t, &mut started, FlowMode::Blind, kind, phase, None, None, &c);
    }
    assert_eq!(t.served, [0, 1, 0, 1]);
    assert_eq!(t.kind_ops, t.served);
    assert_eq!(t.total, 17);
    assert_eq!(t.kind_ns.iter().sum::<u64>(), t.total);
    assert_eq!(t.phase_ns.iter().sum::<u64>(), t.total);
    assert_eq!(t.phase_ns, [0, 0, 10, 7]);
}
