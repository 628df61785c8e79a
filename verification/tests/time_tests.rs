use engine::time::Clock;

#[test]
fn test_delta_time() {
    let mut clock = Clock::new(0);
    let mut now: u64 = 0;
    for _ in 0..10 {
        now += 16_000_000;
        let delta_nanos = clock.update_delta(now);
        let delta = delta_nanos as f64 / 1_000_000_000.0;

        let speed = 10.0;

        let units_per_frame = speed * delta;
        let units_per_second = units_per_frame * (1.0 / delta);

        assert!(units_per_second >= 9.5 && units_per_second <= 10.5);
    }
}

#[test]
fn delta_is_strictly_positive_and_fps_is_finite() {
    let mut clock = Clock::new(42);

    // A time source stuck on one timestamp still yields a positive delta,
    // so the frames-per-second reciprocal stays finite.
    let delta_nanos = clock.update_delta(42);
    assert_eq!(delta_nanos, 1);
    let fps = 1.0 / (delta_nanos as f64 / 1_000_000_000.0);
    assert!(fps.is_finite());

    // A time source that jumps backwards still yields a positive delta.
    let delta_nanos = clock.update_delta(10);
    assert_eq!(delta_nanos, 32);
    let fps = 1.0 / (delta_nanos as f64 / 1_000_000_000.0);
    assert!(fps.is_finite());

    // An ordinary forward step reports the distance.
    let delta_nanos = clock.update_delta(25);
    assert_eq!(delta_nanos, 15);
}
