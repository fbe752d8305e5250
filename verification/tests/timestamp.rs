use queuepeek::timestamp::{file_stamp, format_timestamp};

#[test]
fn epoch_start() {
    assert_eq!(format_timestamp(0), "1970-01-01 00:00:00");
}

#[test]
fn known_dates() {
    assert_eq!(format_timestamp(951782400), "2000-02-29 00:00:00");
    assert_eq!(format_timestamp(1700000000), "2023-11-14 22:13:20");
    assert_eq!(format_timestamp(1704067199), "2023-12-31 23:59:59");
    assert_eq!(format_timestamp(1709251199), "2024-02-29 23:59:59");
}

#[test]
fn before_epoch_shows_negative_fields() {
    assert_eq!(format_timestamp(-1), "1970-01-01 00:00:-1");
    assert_eq!(format_timestamp(-90061), "1970-01-00 -1:-1:-1");
}

#[test]
fn file_stamps_join_date_and_time_digits() {
    assert_eq!(file_stamp(0), "19700101-000000");
    assert_eq!(file_stamp(1775662212), "20260408-153012");
    assert_eq!(file_stamp(951782400), "20000229-000000");
}
