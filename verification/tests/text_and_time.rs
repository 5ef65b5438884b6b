use air_monitor::calendar::civil_from_days;
use air_monitor::logbuf::get_wall_time;
use air_monitor::text::{parse_i32, parse_u32, parse_u64, str_eq};

#[test]
fn parsing_follows_std() {
    for s in ["0", "7", "007", "+5", "-5", "-", "+", "", " 5", "5 ", "1e3", "-2147483648", "2147483647",
        "2147483648", "-2147483649", "4294967295", "4294967296", "-0", "+0", "18446744073709551615",
        "18446744073709551616", "99999999999999999999999", "12a"]
    {
        assert_eq!(parse_i32(s), s.parse::<i32>().ok(), "i32 {:?}", s);
        assert_eq!(parse_u32(s), s.parse::<u32>().ok(), "u32 {:?}", s);
        assert_eq!(parse_u64(s), s.parse::<u64>().ok(), "u64 {:?}", s);
    }
}

#[test]
fn string_equality() {
    assert!(str_eq("abc", "abc"));
    assert!(!str_eq("abc", "abd"));
    assert!(!str_eq("abc", "ab"));
    assert!(str_eq("", ""));
    assert!(str_eq("Größe", "Größe"));
}

#[test]
fn civil_dates() {
    assert_eq!(civil_from_days(0), (1970, 1, 1));
    assert_eq!(civil_from_days(-1), (1969, 12, 31));
    assert_eq!(civil_from_days(19723), (2024, 1, 1));
    assert_eq!(civil_from_days(11016), (2000, 2, 29));
    assert_eq!(civil_from_days(11015), (2000, 2, 28));
    assert_eq!(civil_from_days(47541), (2100, 3, 1));
    assert_eq!(civil_from_days(-25508), (1900, 3, 1));
}

#[test]
fn wall_time_of_unix_time() {
    assert_eq!(get_wall_time(1_700_000_000, 0, 0), Some((2023, 11, 14, 22, 13, 20)));
    assert_eq!(get_wall_time(1_700_000_000, 7200, 3600), Some((2023, 11, 15, 1, 13, 20)));
}

#[test]
fn wall_time_unknown_before_sync() {
    assert_eq!(get_wall_time(0, 3600, 0), None);
    assert_eq!(get_wall_time(1_000_000_000, 0, 0), None);
    assert_eq!(get_wall_time(1_577_836_800, 0, 0), Some((2020, 1, 1, 0, 0, 0)));
    assert_eq!(get_wall_time(1_577_836_799, 0, 0), None);
}
