use rust_chains::timing::{get_milliseconds, get_timestamp, ElapsedTime};

#[test]
fn milliseconds_combine_seconds_and_fraction() {
    assert_eq!(get_milliseconds(ElapsedTime { secs: 0, subsec_millis: 0 }), 0);
    assert_eq!(get_milliseconds(ElapsedTime { secs: 0, subsec_millis: 999 }), 999);
    assert_eq!(get_milliseconds(ElapsedTime { secs: 2, subsec_millis: 345 }), 2_345);
    assert_eq!(get_milliseconds(ElapsedTime { secs: 120, subsec_millis: 7 }), 120_007);
}

#[test]
fn timestamp_is_after_a_known_past_moment() {
    // well after the start of 2020, in milliseconds since the Unix epoch
    let now = get_timestamp();
    assert!(now > 1_577_836_800_000);
}

#[test]
fn timestamps_never_run_backwards_across_two_reads() {
    let first = get_timestamp();
    let second = get_timestamp();
    assert!(first <= second);
}
