use qchess_bot::train::{TrainSchedule, select_moves};

#[test]
fn no_training_before_startup() {
    let mut schedule = TrainSchedule::new(64, 4);
    for _ in 0..10 {
        assert!(!schedule.step_counter(63));
    }
    assert_eq!(schedule.train_counter, 0);
}

#[test]
fn trains_every_frequency_steps() {
    let mut schedule = TrainSchedule::new(64, 4);
    assert!(!schedule.step_counter(64));
    assert!(!schedule.step_counter(100));
    assert!(!schedule.step_counter(100));
    assert!(schedule.step_counter(100));
    assert_eq!(schedule.train_counter, 4);
    // without a reset it keeps asking
    assert!(schedule.step_counter(100));
    schedule.reset();
    assert_eq!(schedule.train_counter, 0);
    assert!(!schedule.step_counter(100));
}

#[test]
fn frequency_zero_trains_at_once() {
    let mut schedule = TrainSchedule::new(0, 0);
    assert!(schedule.step_counter(0));
}

#[test]
fn select_interleaves_random_and_inferred() {
    let take_random = vec![true, false, false, true, false];
    let random = vec![10, 13];
    let inferred = vec![21, 22, 24];
    assert_eq!(select_moves(&take_random, &random, &inferred), vec![10, 21, 22, 13, 24]);
    assert_eq!(select_moves(&vec![], &Vec::<u8>::new(), &vec![]), Vec::<u8>::new());
    assert_eq!(select_moves(&vec![false, false], &vec![], &vec![5, 6]), vec![5, 6]);
    assert_eq!(select_moves(&vec![true, true], &vec![1, 2], &vec![]), vec![1, 2]);
}

