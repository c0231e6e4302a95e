use polyphonic::cache::Cost;
use polyphonic::oracle::{classify, decompose, Regime};

#[test]
fn decompose_telescopes_to_total() {
    let r = decompose(1_000, 900, 850, 800, 700, 650);
    assert_eq!(
        r.execution + r.heuristic + r.belief + r.model,
        r.total,
        "{r:?}"
    );
    assert_eq!(r.total, 1_000 - 700);
    assert_eq!(r.total_with_displacement, 1_000 - 650);
}

#[test]
fn decompose_allows_negative_components() {
    // A heuristic that beats the model's own belief-argmin: r_p < r_mb.
    let r = decompose(1_000, 700, 900, 900, 900, 900);
    assert!(r.heuristic < 0, "{r:?}");
    assert_eq!(r.execution + r.heuristic + r.belief + r.model, r.total);
}

#[test]
fn classify_resident_when_nothing_acquired_or_queued() {
    let cost = Cost::default();
    assert_eq!(classify(&cost), Regime::Resident);
}

#[test]
fn classify_picks_the_largest_term_with_queue_wait_recompute_priority_on_ties() {
    let mut cost = Cost {
        queue_ns: 5,
        transfer_ns: 5,
        recompute_ns: 5,
        ..Cost::default()
    };
    assert_eq!(classify(&cost), Regime::Wait);
    cost.queue_ns = 0;
    assert_eq!(classify(&cost), Regime::Transfer);
    cost.transfer_ns = 0;
    assert_eq!(classify(&cost), Regime::Recompute);
    cost.recompute_ns = 10;
    cost.transfer_ns = 20;
    cost.queue_ns = 1;
    assert_eq!(classify(&cost), Regime::Transfer);
}
