use stressor::history::History;

#[test]
fn history_discards_oldest_when_full() {
    let mut h: History<u32> = History::new(3);
    h.push(1);
    h.push(2);
    h.push(3);
    h.push(4);
    let held: Vec<u32> = h.iter().into_iter().copied().collect();
    assert_eq!(held, vec![2, 3, 4]);
    assert_eq!(h.len(), 3);
}

#[test]
fn history_with_zero_capacity_keeps_nothing() {
    let mut h: History<u32> = History::new(0);
    for i in 0..5 {
        h.push(i);
        assert_eq!(h.len(), 0);
    }
    assert!(h.iter().is_empty());
}

#[test]
fn history_never_grows_past_its_capacity() {
    for capacity in 0..6usize {
        let mut h: History<usize> = History::new(capacity);
        for i in 0..20usize {
            h.push(i);
            assert!(h.len() <= capacity);
            assert_eq!(h.len(), capacity.min(i + 1));
            let held: Vec<usize> = h.iter().into_iter().copied().collect();
            let expected: Vec<usize> = (i + 1 - h.len()..=i).collect();
            assert_eq!(held, if capacity == 0 { Vec::new() } else { expected });
        }
    }
}

#[test]
fn history_starts_empty() {
    let h: History<(u64, u64)> = History::new(8);
    assert_eq!(h.len(), 0);
    assert!(h.iter().is_empty());
}
