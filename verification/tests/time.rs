use watchtower::time::{timestamp, timestamp_or_epoch, MAX_TIMESTAMP, MIN_TIMESTAMP};

#[test]
fn the_calendar_spans_its_documented_years() {
    assert_eq!(timestamp(Some(MIN_TIMESTAMP)), Some(MIN_TIMESTAMP));
    assert_eq!(timestamp(Some(MAX_TIMESTAMP)), Some(MAX_TIMESTAMP));
    assert_eq!(timestamp(Some(MIN_TIMESTAMP - 1)), None);
    assert_eq!(timestamp(Some(MAX_TIMESTAMP + 1)), None);
    assert_eq!(timestamp(None), None);
    assert_eq!(timestamp_or_epoch(MAX_TIMESTAMP + 1), 0);
    assert_eq!(timestamp_or_epoch(1_700_000_000), 1_700_000_000);
}
