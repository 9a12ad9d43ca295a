//! Date and time rendering against fixed instants.

use bash_shell::prompt::{LocalDateTime, PromptDateFormat, PromptTimeFormat, format_date, format_time};

fn instant(hour: u32) -> LocalDateTime {
    LocalDateTime {
        year: 2024,
        month: 12,
        day: 25,
        hour,
        minute: 34,
        second: 56,
        nanosecond: 789000000,
    }
}

#[test]
fn test_format_time() {
    // A well-known date/time: 2024-12-25T13:34:56.789.
    let dt = instant(13);

    assert_eq!(format_time(&dt, &PromptTimeFormat::TwelveHourAM), "01:34 PM");

    assert_eq!(format_time(&dt, &PromptTimeFormat::TwentyFourHourHHMMSS), "13:34:56");

    assert_eq!(format_time(&dt, &PromptTimeFormat::TwelveHourHHMMSS), "01:34:56");
}

#[test]
fn test_format_date() {
    // A well-known date/time: 2024-12-25T12:34:56.789.
    let dt = instant(12);

    assert_eq!(
        format_date(&dt, &PromptDateFormat::WeekdayMonthDate).unwrap(),
        "Wed Dec 25"
    );

    assert_eq!(
        format_date(&dt, &PromptDateFormat::Custom(String::from("%Y-%m-%d"))).unwrap(),
        "2024-12-25"
    );

    assert_eq!(
        format_date(
            &dt,
            &PromptDateFormat::Custom(String::from("%Y-%m-%d %H:%M:%S.%f"))
        )
        .unwrap(),
        "2024-12-25 12:34:56.789000000"
    );
}

#[test]
fn midnight_and_noon_render_as_twelve() {
    let midnight = instant(0);
    assert_eq!(format_time(&midnight, &PromptTimeFormat::TwelveHourAM), "12:34 AM");
    let noon = instant(12);
    assert_eq!(format_time(&noon, &PromptTimeFormat::TwelveHourAM), "12:34 PM");
    assert_eq!(format_time(&noon, &PromptTimeFormat::TwentyFourHourHHMM), "12:34");
}

#[test]
fn custom_format_rejects_bad_specifier() {
    let dt = instant(9);
    assert!(format_date(&dt, &PromptDateFormat::Custom(String::from("%Q"))).is_err());
}
