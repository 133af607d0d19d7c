use progression::{Bar, Config};

fn fixed(len: u64, config: Config) -> Bar {
    Bar::with_terminal_width(len, config, None).unwrap()
}

#[test]
fn five_steps_then_finish() {
    let mut bar = fixed(5, Config::default());
    let mut frames = Vec::new();
    for _ in 0..5 {
        if let Some(f) = bar.inc_at(1, 0) {
            frames.push(f);
        }
    }
    assert!(frames.is_empty());
    assert_eq!(bar.pos(), 5);
    let last = bar.finish_at(0);
    frames.push(last.clone());
    assert_eq!(frames.iter().filter(|f| f.contains("100%")).count(), 1);
    assert!(last.ends_with("\r\n"));
    assert!(last.contains(&format!("[{}]", "#".repeat(43 + 1))));
}

#[test]
fn finish_with_the_clock_ends_the_line() {
    let mut bar = fixed(5, Config::default());
    for _ in 0..5 {
        let _ = bar.inc(1);
    }
    let last = bar.finish();
    assert!(last.ends_with("\r\n"));
    assert!(last.contains("100% ETA 00:00:00"));
}

#[test]
fn frame_text_midway() {
    let mut bar = fixed(4, Config { width: Some(50), ..Config::cargo() });
    // 50 - 35 - 2 = 13 columns of fill
    assert_eq!(bar.bar_width(), 13);
    let f = bar.inc_at(1, 11).unwrap();
    // 1/4 of 13 = 3.25, rounded to 3; 11 ms for one item, 3 more take 33 ms
    assert_eq!(f, "\r 00:00:00 1 / 4 [===>          ]  25% ETA 00:00:01\r");
    let f = bar.inc_at(1, 22_000).unwrap();
    // 2/4 of 13 = 6.5, rounded up to 7; 11 s an item, 22 s to go
    assert_eq!(f, "\r 00:00:22 2 / 4 [=======>      ]  50% ETA 00:00:22\r");
}

#[test]
fn finish_short_of_the_total_keeps_the_edge() {
    let mut bar = fixed(3, Config { width: Some(50), ..Config::cargo() });
    let _ = bar.inc_at(2, 0);
    let f = bar.finish_at(4000);
    // 2/3 of 13 = 8.67, rounded to 9; 2 s an item
    assert_eq!(f, "\r 00:00:04 2 / 3 [=========>    ]  67% ETA 00:00:02\r\n");
}

#[test]
fn eta_unknown_at_position_zero() {
    let bar = fixed(10, Config::default());
    let f = bar.frame_at(5000);
    assert!(f.ends_with("  0% ETA ??:??:??\r"));
    assert!(f.contains("[#"));
}

#[test]
fn zero_total_is_complete() {
    let bar = fixed(0, Config { width: Some(50), ..Config::cargo() });
    assert_eq!(bar.bar_width(), 13);
    let f = bar.finish_at(0);
    assert_eq!(f, "\r 00:00:00 0 / 0 [==============] 100% ETA 00:00:00\r\n");
}

#[test]
fn throttle_skips_until_the_interval_has_passed() {
    let mut bar = fixed(100, Config::default());
    assert!(bar.inc_at(1, 0).is_none());
    assert!(bar.inc_at(1, 10).is_none());
    assert!(bar.inc_at(1, 11).is_some());
    assert!(bar.inc_at(1, 21).is_none());
    assert!(bar.inc_at(1, 22).is_some());
}

#[test]
fn burst_with_no_gap_draws_nothing() {
    let mut bar = fixed(1000, Config::default());
    let drawn = (0..1000).filter(|_| bar.inc_at(1, 5).is_some()).count();
    assert_eq!(drawn, 0);
    assert_eq!(bar.pos(), 1000);
}

#[test]
fn renders_over_a_window_are_bounded() {
    let mut bar = fixed(1000, Config::default());
    // one increment a millisecond for 1000 ms, throttle 10 ms
    let drawn = (1..=1000u64).filter(|t| bar.inc_at(1, *t).is_some()).count();
    assert!(drawn <= 1000 / 11);
    assert!(drawn >= 1);
}

#[test]
fn positions_never_go_back() {
    let mut bar = fixed(100, Config { throttle_millis: 0, ..Config::default() });
    let mut seen = Vec::new();
    for t in 1..=20u64 {
        let _ = bar.inc_at(t % 3, t);
        seen.push(bar.pos());
    }
    assert!(seen.windows(2).all(|w| w[0] <= w[1]));
}

#[test]
fn ten_increments_of_ten() {
    let mut bar = fixed(100, Config::default());
    for _ in 0..10 {
        let _ = bar.inc(10);
    }
    assert_eq!(bar.pos(), 100);
    assert!(bar.frame_at(0).contains("100%"));
}

#[test]
fn elapsed_clock_starts_near_zero() {
    let bar = fixed(1, Config::default());
    assert!(bar.elapsed_millis() < 60_000);
}

#[test]
fn increments_in_any_order_reach_the_same_position() {
    let mut a = fixed(100, Config::default());
    let mut b = fixed(100, Config::default());
    for d in [30u64, 20, 50] {
        let _ = a.inc_at(d, 0);
    }
    for d in [50u64, 30, 20] {
        let _ = b.inc_at(d, 0);
    }
    assert_eq!(a.pos(), 100);
    assert_eq!(b.pos(), 100);
    assert_eq!(a.finish_at(7), b.finish_at(7));
}

#[test]
fn millis_saturate_at_u64_max() {
    assert_eq!(Bar::millis_to_u64(0), 0);
    assert_eq!(Bar::millis_to_u64(1234), 1234);
    assert_eq!(Bar::millis_to_u64(u64::MAX as u128), u64::MAX);
    assert_eq!(Bar::millis_to_u64(u64::MAX as u128 + 1), u64::MAX);
    assert_eq!(Bar::millis_to_u64(u128::MAX), u64::MAX);
}
