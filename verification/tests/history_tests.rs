use hydroshot::history::{history_order, MAX_HISTORY};

#[test]
fn history_is_newest_first() {
    assert_eq!(history_order(vec![5, 1, 9, 3]), vec![9, 5, 3, 1]);
    assert_eq!(history_order(vec![]), Vec::<u64>::new());
    assert_eq!(history_order(vec![7, 7, 2]), vec![7, 7, 2]);
}

#[test]
fn history_keeps_the_most_recent_twenty() {
    let stamps: Vec<u64> = (1..=25).collect();
    let kept = history_order(stamps);
    assert_eq!(kept.len(), MAX_HISTORY);
    let expected: Vec<u64> = (6..=25).rev().collect();
    assert_eq!(kept, expected);
}

#[test]
fn history_drops_only_older_captures() {
    let stamps: Vec<u64> = (0..30).map(|i| (i * 7919) % 101).collect();
    let kept = history_order(stamps.clone());
    let oldest_kept = *kept.last().unwrap();
    let mut sorted = stamps.clone();
    sorted.sort_unstable_by(|a, b| b.cmp(a));
    assert_eq!(kept, sorted[..20].to_vec());
    assert!(sorted[20..].iter().all(|&d| d <= oldest_kept));
}
