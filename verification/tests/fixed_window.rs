use rate_limiters::fixed_window::FixedWindow;

#[test]
fn fixed_window_allows_limit_per_second() {
    let mut w = FixedWindow::new(3, 100);
    assert!(w.is_allow(100));
    assert!(w.is_allow(100));
    assert!(w.is_allow(100));
    assert!(!w.is_allow(100));
    assert!(!w.is_allow(100));
    assert_eq!(w.counter(), 3);
    assert_eq!(w.last_second(), 100);
}

#[test]
fn fixed_window_new_second_resets_counter() {
    let mut w = FixedWindow::new(2, 10);
    assert!(w.is_allow(10));
    assert!(w.is_allow(10));
    assert!(!w.is_allow(10));
    assert!(w.is_allow(11));
    assert_eq!(w.counter(), 1);
    assert_eq!(w.last_second(), 11);
}

#[test]
fn fixed_window_earlier_second_stays_in_window() {
    let mut w = FixedWindow::new(2, 50);
    assert!(w.is_allow(50));
    assert!(w.is_allow(49));
    assert!(!w.is_allow(48));
    assert_eq!(w.last_second(), 50);
    assert_eq!(w.counter(), 2);
}

#[test]
fn fixed_window_zero_limit_refuses_everything() {
    let mut w = FixedWindow::new(0, 0);
    assert!(!w.is_allow(0));
    assert!(!w.is_allow(1));
    assert_eq!(w.limit(), 0);
    assert_eq!(w.counter(), 0);
}

#[test]
fn fixed_window_at_most_limit_in_one_second_from_any_state() {
    let mut w = FixedWindow::new(4, 7);
    assert!(w.is_allow(7));
    let mut allowed = 0;
    for _ in 0..20 {
        if w.is_allow(8) {
            allowed += 1;
        }
    }
    assert_eq!(allowed, 4);
}

#[test]
fn fixed_window_at_most_limit_per_window_with_clock_jumps() {
    let mut w = FixedWindow::new(2, 10);
    let times: [u64; 10] = [10, 9, 10, 11, 8, 11, 11, 12, 3, 12];
    let mut allowed_in: std::collections::HashMap<u64, u64> = std::collections::HashMap::new();
    for t in times {
        if w.is_allow(t) {
            *allowed_in.entry(w.last_second()).or_insert(0) += 1;
        }
    }
    assert_eq!(allowed_in.get(&10), Some(&2));
    assert_eq!(allowed_in.get(&11), Some(&2));
    assert_eq!(allowed_in.get(&12), Some(&2));
    assert!(allowed_in.values().all(|&n| n <= 2));
}
