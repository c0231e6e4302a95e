use polyphonic::boundary::{fold_max, fold_min};

#[test]
fn folding_keeps_the_best_and_the_worst_of_each_size() {
    let mut best = vec![(64, 100), (1024, 200), (8192, 900)];
    let mut worst = best.clone();
    let rep = [(64, 80), (1024, 250), (8192, 900)];
    fold_min(&mut best, &rep);
    fold_max(&mut worst, &rep);
    assert_eq!(best, vec![(64, 80), (1024, 200), (8192, 900)]);
    assert_eq!(worst, vec![(64, 100), (1024, 250), (8192, 900)]);
}

#[test]
fn folding_a_shorter_repetition_leaves_the_rest_alone() {
    let mut best = vec![(64, 100), (1024, 200)];
    fold_min(&mut best, &[(64, 50)]);
    assert_eq!(best, vec![(64, 50), (1024, 200)]);
    let mut worst = vec![(64, 100)];
    fold_max(&mut worst, &[(64, 150), (1024, 999)]);
    assert_eq!(worst, vec![(64, 150)]);
}

