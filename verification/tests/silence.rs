use pasithea::silence::{amplitude_bounds, silent, PauseDetector};

#[test]
fn bounds_of_chunk() {
    assert_eq!(amplitude_bounds(&vec![3, -7, 12, 0]), (-7, 12));
    assert_eq!(amplitude_bounds(&vec![5]), (5, 5));
    assert_eq!(amplitude_bounds(&vec![]), (0, 0));
    assert_eq!(amplitude_bounds(&vec![i32::MIN, i32::MAX]), (i32::MIN, i32::MAX));
}

#[test]
fn silence_is_strictly_inside_level() {
    assert!(silent(-99, 99, 100));
    assert!(!silent(-100, 50, 100));
    assert!(!silent(-50, 100, 100));
    assert!(!silent(0, 0, 0));
    assert!(silent(0, 0, 1));
}

#[test]
fn pause_ends_after_long_silence() {
    let mut d = PauseDetector::new();
    let quiet = vec![1, -2, 3];
    let loud = vec![1, 500, -3];
    let r = d.observe(&quiet, 100, 10, 30);
    assert!(r.silent && !r.pause_over);
    assert_eq!((r.min, r.max), (-2, 3));
    let r = d.observe(&quiet, 100, 40, 30);
    assert!(r.silent && !r.pause_over);
    let r = d.observe(&loud, 100, 45, 30);
    assert!(!r.silent && !r.pause_over);
    assert_eq!((r.min, r.max), (-3, 500));
    let r = d.observe(&quiet, 100, 50, 30);
    assert!(r.silent && !r.pause_over);
    let r = d.observe(&quiet, 100, 80, 30);
    assert!(!r.pause_over);
    let r = d.observe(&quiet, 100, 81, 30);
    assert!(r.pause_over);
}

#[test]
fn empty_chunk_counts_as_silence_above_zero_level() {
    let mut d = PauseDetector::new();
    assert!(d.observe(&vec![], 1, 0, 0).silent);
    assert!(d.observe(&vec![], 1, 1, 0).pause_over);
    assert!(!d.observe(&vec![], 0, 2, 0).silent);
}

#[test]
fn clock_going_back_gives_no_pause() {
    let mut d = PauseDetector::new();
    d.observe(&vec![0], 10, 100, 5);
    assert!(!d.observe(&vec![0], 10, 50, 5).pause_over);
}

#[test]
fn negative_pause_ends_at_second_silent_chunk() {
    let mut d = PauseDetector::new();
    assert!(!d.observe(&vec![0], 10, 7, -1).pause_over);
    assert!(d.observe(&vec![0], 10, 7, -1).pause_over);
    let mut d = PauseDetector::new();
    d.observe(&vec![0], 10, 7, 0);
    assert!(!d.observe(&vec![0], 10, 7, 0).pause_over);
    assert!(d.observe(&vec![0], 10, 8, 0).pause_over);
}
