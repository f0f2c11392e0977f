use langateway::clock::log_timestamp;

#[test]
fn timestamps_pad_hours_and_minutes() {
    assert_eq!(log_timestamp(0), "0d 00:00");
    assert_eq!(log_timestamp(59), "0d 00:00");
    assert_eq!(log_timestamp(3600 * 5 + 60 * 7), "0d 05:07");
    assert_eq!(log_timestamp(86400 * 19700 + 3600 * 23 + 60 * 59 + 59), "19700d 23:59");
    assert_eq!(log_timestamp(86400 + 3600 * 10 + 60 * 45), "1d 10:45");
}
