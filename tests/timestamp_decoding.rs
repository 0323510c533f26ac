use sysprobe::error::SysProbeError;
use sysprobe::timestamp::{parse_timestamp, timestamp_to_unix_time};

#[test]
fn offset_plus_sixty_decodes_to_utc_hour_earlier() {
    // 2023-11-15T14:30:22 at UTC+1 is 2023-11-15T13:30:22Z.
    assert_eq!(timestamp_to_unix_time("20231115143022.500000+060"), Ok(1700055022));
}

#[test]
fn utc_offset_reads_fields_as_utc() {
    assert_eq!(timestamp_to_unix_time("20231115143022.000000+000"), Ok(1700058622));
    assert_eq!(timestamp_to_unix_time("19700101000000.000000+000"), Ok(0));
}

#[test]
fn negative_offset_moves_later() {
    assert_eq!(timestamp_to_unix_time("20231115143022.000000-300"), Ok(1700076622));
}

#[test]
fn all_zero_time_fields() {
    assert_eq!(timestamp_to_unix_time("20000101000000.000000+000"), Ok(946684800));
}

#[test]
fn fraction_does_not_change_the_second() {
    assert_eq!(
        timestamp_to_unix_time("20231115143022.999999+000"),
        timestamp_to_unix_time("20231115143022.000000+000")
    );
}

#[test]
fn offset_form_equals_utc_form() {
    assert_eq!(
        timestamp_to_unix_time("20231115143022.000000+060"),
        timestamp_to_unix_time("20231115133022.000000+000")
    );
    // Across midnight and the year boundary.
    assert_eq!(
        timestamp_to_unix_time("20240101003000.000000+060"),
        timestamp_to_unix_time("20231231233000.000000+000")
    );
    assert_eq!(
        timestamp_to_unix_time("20231231233000.000000-090"),
        timestamp_to_unix_time("20240101010000.000000+000")
    );
}

#[test]
fn malformed_timestamps_fail() {
    let bad = [
        "",
        "20231115143022.00000",
        "2023X115143022.000000+000",
        "20231115143022.00a000+000",
        "+0231115143022.000000+000",
        "202311151430２.000000+000",
        "20231115143022.000000+0x0",
        "20231115143022.000000+",
    ];
    for b in bad {
        assert_eq!(timestamp_to_unix_time(b), Err(SysProbeError::DateTimeParsingError), "{}", b);
    }
}

#[test]
fn shortest_accepted_length_is_22() {
    assert_eq!(timestamp_to_unix_time("19700101000000.0000001"), Ok(-60));
}

#[test]
fn impossible_dates_fail() {
    assert!(timestamp_to_unix_time("20230230000000.000000+000").is_err());
    assert!(timestamp_to_unix_time("20231115240000.000000+000").is_err());
    assert!(timestamp_to_unix_time("20231115236000.000000+000").is_err());
    assert!(timestamp_to_unix_time("20240229000000.000000+000").is_ok());
    assert!(timestamp_to_unix_time("19000229000000.000000+000").is_err());
}

#[test]
fn offsets_outside_one_day_fail() {
    assert!(timestamp_to_unix_time("20231115143022.000000+1440").is_err());
    assert!(timestamp_to_unix_time("20231115143022.000000-1440").is_err());
    assert!(timestamp_to_unix_time("20231115143022.000000+99999999999").is_err());
    assert_eq!(timestamp_to_unix_time("20231115143022.000000+1439"), Ok(1700058622 - 1439 * 60));
}

#[test]
fn fields_are_read_from_fixed_positions() {
    let t = parse_timestamp(b"20231115143022.500000+060").unwrap();
    assert_eq!(t.civil.year, 2023);
    assert_eq!(t.civil.month, 11);
    assert_eq!(t.civil.day, 15);
    assert_eq!(t.civil.hour, 14);
    assert_eq!(t.civil.minute, 30);
    assert_eq!(t.civil.second, 22);
    assert_eq!(t.fraction, 500000);
    assert_eq!(t.offset_minutes, 60);
}
