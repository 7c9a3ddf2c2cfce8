use hlsget::pacing::pace;

#[test]
fn fast_cycle_sleeps_to_the_two_second_boundary() {
    // cycle started at 10000 ms, finished its work at 10500 ms
    let d = pace(10000, 10500);
    assert!(!d.overrun);
    assert_eq!(d.wait_ms, 1500);
    assert_eq!(d.next_start, 12000);
    // consecutive cycle starts are exactly 2 seconds apart
    assert_eq!(d.next_start - 10000, 2000);
}

#[test]
fn slow_cycle_warns_and_aligns_to_whole_seconds() {
    // a 2.5 second cycle: the boundary at 12000 has already passed
    let d = pace(10000, 12500);
    assert!(d.overrun);
    assert_eq!(d.wait_ms, 0);
    // the next boundary is pushed in whole-second steps past "now"
    assert_eq!(d.next_start, 13000);
    assert_eq!((d.next_start - 12000) % 1000, 0);
    assert!(d.next_start > 12500);
}

#[test]
fn boundary_hit_exactly_counts_as_overrun() {
    let d = pace(10000, 12000);
    assert!(d.overrun);
    assert_eq!(d.wait_ms, 0);
    assert_eq!(d.next_start, 13000);
}

#[test]
fn long_overrun_lands_within_one_second_of_now() {
    let d = pace(0, 9250);
    assert!(d.overrun);
    assert_eq!(d.wait_ms, 0);
    assert_eq!(d.next_start, 10000);
    assert!(d.next_start > 9250 && d.next_start <= 10250);
}
