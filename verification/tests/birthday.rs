use friends::api::birthday::{
    BirthdayError, birthday_items_from, birthday_items_on, compute_birthday_items, month_name,
    zodiac_sign,
};
use friends::apps::birthday::BirthdayApplet;
use friends::data::profile::Profile;
use friends::date::Date;

fn profile(birthday: &str) -> Profile {
    Profile::from_pairs(vec![("birthday".to_string(), birthday.to_string())])
}

fn day(year: i32, month: u32, day: u32) -> Date {
    Date { year, month, day }
}

#[test]
fn test_zodiac_aries_march() {
    assert_eq!(zodiac_sign(3, 21), "Aries");
    assert_eq!(zodiac_sign(3, 20), "Pisces");
}

#[test]
fn test_zodiac_aries_april() {
    assert_eq!(zodiac_sign(4, 1), "Aries");
    assert_eq!(zodiac_sign(4, 19), "Aries");
    assert_eq!(zodiac_sign(4, 20), "Taurus");
}

#[test]
fn test_zodiac_capricorn_december() {
    assert_eq!(zodiac_sign(12, 22), "Capricorn");
    assert_eq!(zodiac_sign(12, 31), "Capricorn");
}

#[test]
fn test_zodiac_capricorn_january() {
    assert_eq!(zodiac_sign(1, 1), "Capricorn");
    assert_eq!(zodiac_sign(1, 19), "Capricorn");
    assert_eq!(zodiac_sign(1, 20), "Aquarius");
}

#[test]
fn test_zodiac_pisces_feb29() {
    assert_eq!(zodiac_sign(2, 29), "Pisces");
}

#[test]
fn test_compute_returns_two_items() {
    let items = compute_birthday_items(&profile("1990-06-15")).unwrap();
    assert_eq!(items.len(), 2);
}

#[test]
fn test_compute_first_item_has_birthday_label() {
    let items = compute_birthday_items(&profile("1990-06-15")).unwrap();
    assert!(items[0].title.starts_with("Birthday:"), "got: {}", items[0].title);
}

#[test]
fn test_compute_second_item_has_zodiac_label() {
    let items = compute_birthday_items(&profile("1990-06-15")).unwrap();
    assert!(items[1].title.starts_with("Zodiac:"), "got: {}", items[1].title);
}

#[test]
fn test_compute_subtitle_mentions_age() {
    let items = compute_birthday_items(&profile("1990-06-15")).unwrap();
    assert!(
        items[0].subtitle.as_ref().unwrap().contains("years old"),
        "got: {:?}",
        items[0].subtitle
    );
}

#[test]
fn test_compute_invalid_date_returns_error() {
    assert!(compute_birthday_items(&profile("not-a-date")).is_err());
}

#[test]
fn test_compute_missing_birthday_returns_error() {
    assert!(compute_birthday_items(&Profile::new()).is_err());
}

#[test]
fn test_compute_empty_birthday_returns_error() {
    assert!(compute_birthday_items(&profile("")).is_err());
}

#[test]
fn test_birthday_key_and_name() {
    let a = BirthdayApplet;
    assert_eq!(a.key(), "birthday");
    assert_eq!(a.name(), "Birthday Tracker");
}

#[test]
fn test_birthday_fields_contains_birthday_key() {
    let fields = BirthdayApplet.fields();
    assert!(fields.iter().any(|f| f.key == "birthday"));
}

#[test]
fn test_birthday_unlocked_with_valid_date() {
    assert!(BirthdayApplet.is_unlocked(&profile("1990-06-15")));
}

#[test]
fn test_birthday_locked_with_empty_field() {
    assert!(!BirthdayApplet.is_unlocked(&profile("")));
}

#[test]
fn test_birthday_locked_with_invalid_date() {
    assert!(!BirthdayApplet.is_unlocked(&profile("not-a-date")));
    assert!(!BirthdayApplet.is_unlocked(&profile("15/06/1990")));
    assert!(!BirthdayApplet.is_unlocked(&profile("June 15")));
}

#[test]
fn test_birthday_locked_with_missing_key() {
    assert!(!BirthdayApplet.is_unlocked(&Profile::new()));
}

#[test]
fn upcoming_birthday_shows_countdown_age_and_sign() {
    let items = birthday_items_on(&profile("1990-06-15"), day(2024, 6, 1)).unwrap();
    assert_eq!(items[0].title, "Birthday: June 15 (In 14 days)");
    assert_eq!(items[0].subtitle.as_deref(), Some("Turning 34 years old"));
    assert_eq!(items[1].title, "Zodiac: Gemini");
    assert_eq!(items[1].subtitle.as_deref(), Some("Born June 15, 1990"));
    assert!(items.iter().all(|i| i.url.is_none()));
}

#[test]
fn birthday_today_and_tomorrow() {
    let today = birthday_items_on(&profile("1990-06-15"), day(2024, 6, 15)).unwrap();
    assert_eq!(today[0].title, "Birthday: June 15 (Today!)");
    assert_eq!(today[0].subtitle.as_deref(), Some("Turning 34 years old"));
    let tomorrow = birthday_items_on(&profile("1990-06-15"), day(2024, 6, 14)).unwrap();
    assert_eq!(tomorrow[0].title, "Birthday: June 15 (Tomorrow)");
}

#[test]
fn passed_birthday_counts_to_next_year() {
    let items = birthday_items_on(&profile("1990-06-15"), day(2024, 6, 16)).unwrap();
    assert_eq!(items[0].title, "Birthday: June 15 (In 364 days)");
    assert_eq!(items[0].subtitle.as_deref(), Some("Turning 35 years old"));
}

#[test]
fn birthday_value_is_trimmed() {
    let items = birthday_items_on(&profile("  1990-06-15 "), day(2024, 6, 1)).unwrap();
    assert_eq!(items[1].subtitle.as_deref(), Some("Born June 15, 1990"));
}

#[test]
fn birthday_errors_for_each_kind() {
    assert_eq!(birthday_items_on(&Profile::new(), day(2024, 1, 1)), Err(BirthdayError::Missing));
    assert_eq!(birthday_items_on(&profile("   "), day(2024, 1, 1)), Err(BirthdayError::Missing));
    assert_eq!(
        birthday_items_on(&profile(" soon "), day(2024, 1, 1)),
        Err(BirthdayError::Unparsable("soon".to_string()))
    );
    assert_eq!(
        birthday_items_on(&profile("2000-02-29"), day(2023, 1, 1)),
        Err(BirthdayError::NoDateThisYear)
    );
    assert_eq!(
        birthday_items_on(&profile("2000-02-29"), day(2024, 3, 1)),
        Err(BirthdayError::NoNextDate)
    );
    let leap = birthday_items_on(&profile("2000-02-29"), day(2024, 2, 1)).unwrap();
    assert_eq!(leap[0].title, "Birthday: February 29 (In 28 days)");
}

#[test]
fn birthday_error_messages() {
    assert_eq!(BirthdayError::Missing.message(), "birthday field is required (YYYY-MM-DD)");
    assert_eq!(
        BirthdayError::Unparsable("x".to_string()).message(),
        "Cannot parse birthday 'x' — expected YYYY-MM-DD"
    );
    assert_eq!(
        BirthdayError::NoDateThisYear.message(),
        "Invalid birthday date (Feb 29 on non-leap year?)"
    );
    assert_eq!(BirthdayError::NoNextDate.message(), "Cannot compute next birthday");
}

#[test]
fn every_valid_day_has_a_sign_and_month() {
    let lengths = [31, 29, 31, 30, 31, 30, 31, 31, 30, 31, 30, 31];
    for m in 1..=12u32 {
        assert_ne!(month_name(m), "Unknown");
        for d in 1..=lengths[(m - 1) as usize] {
            assert_ne!(zodiac_sign(m, d), "Unknown", "{m}-{d}");
        }
    }
    assert_eq!(month_name(13), "Unknown");
    assert_eq!(zodiac_sign(2, 30), "Unknown");
}

#[test]
fn items_from_a_parsed_birthday() {
    let items = birthday_items_from(day(1990, 12, 31), day(2024, 12, 30)).unwrap();
    assert_eq!(items[0].title, "Birthday: December 31 (Tomorrow)");
    assert_eq!(items[1].title, "Zodiac: Capricorn");
    let next_year = birthday_items_from(day(1990, 1, 1), day(2024, 12, 31)).unwrap();
    assert_eq!(next_year[0].title, "Birthday: January 1 (Tomorrow)");
    assert_eq!(next_year[0].subtitle.as_deref(), Some("Turning 35 years old"));
    assert_eq!(
        birthday_items_from(day(2000, 2, 29), day(2021, 6, 1)),
        Err(BirthdayError::NoDateThisYear)
    );
}
