use polyphonic::engine::{Engine, MAX_BATCH, STEP_BASE_NS, STEP_PER_SEQ_NS};

#[test]
fn step_cost_is_the_floor_plus_one_increment_per_extra_sequence() {
    assert_eq!(Engine::step_ns(0), STEP_BASE_NS);
    assert_eq!(Engine::step_ns(1), 7_000_000);
    assert_eq!(Engine::step_ns(2), 7_040_000);
    assert_eq!(Engine::step_ns(64), STEP_BASE_NS + 63 * STEP_PER_SEQ_NS);
}

#[test]
fn a_zero_batch_engine_still_has_one_slot() {
    let e = Engine::new(0);
    assert_eq!(e.max_batch(), 1);
    assert_eq!(Engine::new(MAX_BATCH).max_batch(), 64);
}

#[test]
fn decodes_join_the_batch_until_it_is_full_then_wait() {
    let mut e = Engine::new(2);
    let a = e.decode(0, 10);
    assert_eq!((a.queue_ns, a.batch, a.exec_ns), (0, 1, 10 * 7_000_000));
    let b = e.decode(0, 10);
    assert_eq!((b.queue_ns, b.batch, b.exec_ns), (0, 2, 10 * 7_040_000));
    assert_eq!(e.load(0), 2);
    // Both slots are taken: the third waits for the earliest to finish, at 70 ms.
    let c = e.decode(1_000, 1);
    assert_eq!(c.queue_ns, 70_000_000 - 1_000);
    assert_eq!(c.batch, 2);
    assert_eq!(e.saturated(), 1);
    assert_eq!(e.admitted(), 3);
    assert_eq!(e.batch_sum(), 5);
    assert_eq!(e.queue_ns(), 70_000_000 - 1_000);
}

#[test]
fn finished_sequences_free_their_slots() {
    let mut e = Engine::new(4);
    e.decode(0, 1);
    e.decode(0, 2);
    assert_eq!(e.load(0), 2);
    assert_eq!(e.load(7_000_000), 1);
    assert_eq!(e.load(14_080_000), 0);
    let d = e.decode(20_000_000, 1);
    assert_eq!(d.batch, 1);
    assert_eq!(d.queue_ns, 0);
}

#[test]
fn projection_prices_the_batch_it_would_join_and_the_wait() {
    let mut e = Engine::new(2);
    assert_eq!(e.projected_ns(0, 10, 0), 10 * 7_000_000);
    assert_eq!(e.projected_ns(0, 10, 1), 10 * 7_040_000);
    e.decode(0, 10);
    e.decode(0, 10);
    // Full: wait for the earliest completion (70 ms), then decode in a full batch.
    assert_eq!(e.projected_ns(0, 1, 0), 70_000_000 + 7_040_000);
    // Projection admits nothing.
    assert_eq!(e.admitted(), 2);
}

#[test]
fn with_a_free_slot_the_projection_is_what_admission_charges() {
    let mut e = Engine::new(3);
    e.decode(0, 5);
    let projected = e.projected_ns(1_000, 7, 0);
    let d = e.decode(1_000, 7);
    assert_eq!(projected, d.queue_ns + d.exec_ns);
    assert_eq!(d.batch, 2);
}

#[test]
fn admission_and_projection_report_whether_they_fit_in_u64() {
    let mut e = Engine::new(2);
    assert!(e.fits(0, 10));
    assert!(e.projection_fits(0, 10, 1));
    assert!(!e.fits(u64::MAX, 1));
    assert!(!e.projection_fits(0, u64::MAX, 0));
    // With nothing live, any number of reserved siblings still fits.
    assert!(e.projection_fits(0, 1, usize::MAX));
    e.decode(0, 10);
    assert!(e.fits(1, 10));
    // One live sequence plus every possible sibling does not.
    assert!(!e.projection_fits(0, 1, usize::MAX));
}
