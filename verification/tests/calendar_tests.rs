use localref::calendar::{civil_from_days, rfc3339_utc};

#[test]
fn ts_rfc3339_format_is_well_formed() {
    assert_eq!(rfc3339_utc(0, 0), "1970-01-01T00:00:00.000Z");
    assert_eq!(rfc3339_utc(86_400, 0), "1970-01-02T00:00:00.000Z");
}

#[test]
fn leap_days_and_century_rules() {
    assert_eq!(rfc3339_utc(1_709_164_800, 0), "2024-02-29T00:00:00.000Z");
    assert_eq!(rfc3339_utc(951_782_400, 0), "2000-02-29T00:00:00.000Z");
    assert_eq!(rfc3339_utc(4_107_542_400, 0), "2100-03-01T00:00:00.000Z");
}

#[test]
fn time_of_day_and_milliseconds_are_padded() {
    assert_eq!(rfc3339_utc(978_307_199, 999), "2000-12-31T23:59:59.999Z");
    assert_eq!(rfc3339_utc(253_402_300_799, 7), "9999-12-31T23:59:59.007Z");
}

#[test]
fn far_future_days_skip_whole_cycles() {
    // 146097 days are exactly 400 years.
    assert_eq!(civil_from_days(146_097), (2370, 1, 1));
    assert_eq!(civil_from_days(146_097 * 1000), (401_970, 1, 1));
    assert_eq!(civil_from_days(59), (1970, 3, 1));
}
