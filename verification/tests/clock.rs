use std::time::Duration;

use match_lighthouse::clock::{epoch_millis, epoch_seconds, timestamp, unix_seconds};
use match_lighthouse::now_ms;

#[test]
fn durations_are_whole_milliseconds_and_seconds() {
    assert_eq!(epoch_millis(Ok(Duration::new(2, 345_678_901))), Ok(2_345));
    assert_eq!(epoch_seconds(Ok(Duration::new(2, 999_999_999))), 2);
    assert_eq!(epoch_millis(Err("before".to_owned())), Err("before".to_owned()));
    assert_eq!(epoch_seconds(Err("before".to_owned())), 0);
}

#[test]
fn the_clock_is_past_the_year_2020() {
    assert!(now_ms().unwrap() > 1_577_836_800_000);
    assert!(unix_seconds() > 1_577_836_800);
}

#[test]
fn timestamps_are_in_utc_with_milliseconds() {
    assert_eq!(timestamp(0).unwrap(), "1970-01-01T00:00:00.000Z");
    assert_eq!(timestamp(1_700_000_000_123).unwrap(), "2023-11-14T22:13:20.123Z");
    assert_eq!(timestamp(253_402_300_799_999).unwrap(), "9999-12-31T23:59:59.999Z");
    assert!(timestamp(i128::from(u64::MAX) * 1_000).is_err());
}
