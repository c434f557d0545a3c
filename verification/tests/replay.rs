use qchess_bot::replay::{GameFlag, ReplayBuffer, game_flag};

fn contents(buffer: &ReplayBuffer<u32>) -> Vec<u32> {
    (0..buffer.len()).map(|i| *buffer.index(i)).collect()
}

#[test]
fn push_keeps_most_recent_items() {
    let mut buffer = ReplayBuffer::new(3);
    assert_eq!(buffer.len(), 0);
    for item in 1..=5 {
        buffer.push(item);
    }
    assert_eq!(buffer.len(), 3);
    assert_eq!(contents(&buffer), vec![3, 4, 5]);
    buffer.push(6);
    assert_eq!(contents(&buffer), vec![4, 5, 6]);
}

#[test]
fn push_below_size_appends() {
    let mut buffer = ReplayBuffer::new(10);
    buffer.push(7);
    buffer.push(8);
    assert_eq!(contents(&buffer), vec![7, 8]);
}

#[test]
fn size_zero_keeps_last_item() {
    let mut buffer = ReplayBuffer::new(0);
    buffer.push(1);
    buffer.push(2);
    assert_eq!(contents(&buffer), vec![2]);
}

#[test]
fn sample_draws_distinct_items() {
    let mut buffer = ReplayBuffer::new(100);
    for item in 0..50u32 {
        buffer.push(item);
    }
    let batch = buffer.sample(20);
    assert_eq!(batch.len(), 20);
    let mut seen: Vec<u32> = batch.iter().map(|x| **x).collect();
    seen.sort();
    seen.dedup();
    assert_eq!(seen.len(), 20);
    assert!(seen.iter().all(|x| *x < 50));
}

#[test]
fn sample_of_more_than_held_returns_all() {
    let mut buffer = ReplayBuffer::new(100);
    for item in 0..5u32 {
        buffer.push(item);
    }
    let mut all: Vec<u32> = buffer.sample(32).into_iter().copied().collect();
    all.sort();
    assert_eq!(all, vec![0, 1, 2, 3, 4]);
    let empty: ReplayBuffer<u32> = ReplayBuffer::new(4);
    assert!(empty.sample(3).is_empty());
}

#[test]
fn game_flags_compare() {
    assert_eq!(GameFlag::Terminated, GameFlag::Terminated);
    assert_ne!(GameFlag::Nothing, GameFlag::Truncated);
}

#[test]
fn pushes_from_new_keep_last_items_in_order() {
    for cap in 0..5usize {
        for k in 0..9u32 {
            let mut buffer = ReplayBuffer::new(cap);
            for item in 1..=k {
                buffer.push(item);
            }
            let kept = (k as usize).min(cap.max(1));
            assert_eq!(buffer.len(), kept);
            let expected: Vec<u32> = ((k as usize - kept) as u32 + 1..=k).collect();
            assert_eq!(contents(&buffer), expected);
        }
    }
}

#[test]
fn items_at_given_positions() {
    let mut buffer = ReplayBuffer::new(5);
    for item in 10..15u32 {
        buffer.push(item);
    }
    let items: Vec<u32> = buffer.items_at(&vec![4, 0, 2]).into_iter().copied().collect();
    assert_eq!(items, vec![14, 10, 12]);
    assert!(buffer.items_at(&vec![]).is_empty());
}

#[test]
fn game_flags_from_outcome_and_length() {
    assert_eq!(game_flag(true, 10), GameFlag::Terminated);
    assert_eq!(game_flag(true, 300), GameFlag::Terminated);
    assert_eq!(game_flag(false, 250), GameFlag::Truncated);
    assert_eq!(game_flag(false, 249), GameFlag::Nothing);
}
