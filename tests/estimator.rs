use chug::Chug;
use std::time::Duration;

#[test]
fn test_empty() {
    let chug = Chug::new(10, 100);
    assert_eq!(chug.eta(), None);
}

#[test]
fn test_completed() {
    let mut chug = Chug::new(10, 100);
    for _ in 0..100 {
        chug.tick();
        match chug.eta() {
            Some(eta) => {
                println!("ETA: {}", eta.as_secs());
            }
            None => {
                println!("ETA: None");
            }
        }
    }
    assert_eq!(chug.eta(), None);
}

#[test]
fn test_smaller_than_max() {
    let mut chug = Chug::new(10, 100);
    for _ in 0..4 {
        chug.tick();
    }
    // check is an instant
    assert!(chug.eta().is_some())
}

#[test]
fn test_larger_than_max() {
    let mut chug = Chug::new(10, 100);
    for _ in 0..30 {
        chug.tick();
    }
    assert!(chug.eta().is_some())
}

#[test]
fn test_just_under_max() {
    let mut chug = Chug::new(10, 100);
    for _ in 0..9 {
        chug.tick();
    }
    assert!(chug.eta().is_some())
}

#[test]
fn test_just_over_total() {
    let mut chug = Chug::new(10, 100);
    for _ in 0..200 {
        chug.tick();
    }
    assert!(chug.eta().is_none())
}

#[test]
fn test_just_under_total() {
    let mut chug = Chug::new(10, 100);
    for _ in 0..99 {
        chug.tick();
    }
    assert!(chug.eta().is_some())
}

#[test]
fn single_tick_gives_no_estimate() {
    let mut chug = Chug::new(10, 100);
    chug.tick_at(0);
    assert_eq!(chug.eta(), None);
}

#[test]
fn mean_divides_by_number_of_points() {
    // Gaps 10 and 10 sum to 20; divided by 3 points gives 6; 97 units left.
    let mut chug = Chug::new(10, 100);
    chug.tick_at(0);
    chug.tick_at(10);
    chug.tick_at(20);
    assert_eq!(chug.eta(), Some(Duration::from_millis(582)));
    assert_eq!(chug.eta().map(|d| d.as_millis()), Some(582));
}

#[test]
fn two_points_halve_the_gap() {
    let mut chug = Chug::new(10, 5);
    chug.tick_at(1000);
    chug.tick_at(1100);
    // 100 / 2 = 50 ms per unit, 3 units left.
    assert_eq!(chug.eta(), Some(Duration::from_millis(150)));
}

#[test]
fn even_spacing_after_window_fills() {
    // Ticks 7 ms apart; the window of 4 holds 4 points: 21 / 4 = 5 per unit.
    let mut chug = Chug::new(4, 50);
    for i in 0..20u64 {
        chug.tick_at(1000 + 7 * i);
    }
    assert_eq!(chug.eta(), Some(Duration::from_millis(5 * 30)));
    assert!(chug.eta().unwrap() <= Duration::from_millis(7 * 30));
}

#[test]
fn only_the_window_is_averaged() {
    // An early long pause falls out of a window of 3.
    let mut chug = Chug::new(3, 10);
    chug.tick_at(0);
    chug.tick_at(5000);
    chug.tick_at(5030);
    chug.tick_at(5060);
    // Window 5000, 5030, 5060: 60 / 3 = 20 per unit, 6 units left.
    assert_eq!(chug.eta(), Some(Duration::from_millis(120)));
}

#[test]
fn time_running_backwards_counts_as_no_gap() {
    let mut chug = Chug::new(10, 10);
    chug.tick_at(100);
    chug.tick_at(40);
    chug.tick_at(70);
    // Gaps: 0 and 30; 30 / 3 = 10 per unit, 7 units left.
    assert_eq!(chug.eta(), Some(Duration::from_millis(70)));
}

#[test]
fn no_elapsed_time_gives_zero_estimate() {
    let mut chug = Chug::new(10, 100);
    chug.tick_at(5);
    chug.tick_at(5);
    assert_eq!(chug.eta(), Some(Duration::from_millis(0)));
}

#[test]
fn exactly_total_ticks_gives_no_estimate() {
    let mut chug = Chug::new(10, 100);
    for i in 0..100u64 {
        chug.tick_at(10 * i);
    }
    assert_eq!(chug.eta(), None);
}

#[test]
fn overrun_gives_no_estimate() {
    let mut chug = Chug::new(10, 100);
    for i in 0..200u64 {
        chug.tick_at(10 * i);
    }
    assert_eq!(chug.eta(), None);
}

#[test]
fn total_of_zero_never_estimates() {
    let mut chug = Chug::new(10, 0);
    chug.tick_at(0);
    chug.tick_at(10);
    assert_eq!(chug.eta(), None);
}

#[test]
fn window_of_capacity_zero_never_estimates() {
    let mut chug = Chug::new(0, 100);
    for i in 0..10u64 {
        chug.tick_at(10 * i);
    }
    assert_eq!(chug.eta(), None);
}

#[test]
fn window_of_capacity_one_never_estimates() {
    let mut chug = Chug::new(1, 100);
    for i in 0..10u64 {
        chug.tick_at(10 * i);
    }
    assert_eq!(chug.eta(), None);
}

#[test]
fn eta_is_read_only() {
    let mut chug = Chug::new(10, 100);
    for i in 0..5u64 {
        chug.tick_at(3 * i);
    }
    let first = chug.eta();
    let second = chug.eta();
    let third = chug.eta();
    assert_eq!(first, second);
    assert_eq!(second, third);
}

#[test]
fn huge_estimate_saturates() {
    let mut chug = Chug::new(2, usize::MAX);
    chug.tick_at(0);
    chug.tick_at(u64::MAX);
    assert_eq!(chug.eta(), Some(Duration::from_millis(u64::MAX)));
}
