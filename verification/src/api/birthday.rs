//! The birthday applet's output: countdown to the next birthday, the age then,
//! and the zodiac sign.
use vstd::prelude::*;
use crate::apps::{AppletItem, ItemView, item_views};
use crate::data::profile::Profile;
use crate::date::{
    Date, date_at_most, date_from_ymd, date_le, day_number, days_between, local_today, parse_ymd,
    valid_date, valid_ymd, ymd_parse,
};
use crate::text::{decimal, push_decimal, push_str, trim, trimmed};

verus! {

/// Why the birthday applet has nothing to show.
#[derive(Debug, Clone, PartialEq)]
pub enum BirthdayError {
    /// The profile has no (non-blank) birthday.
    Missing,
    /// The (trimmed) birthday is not a `YYYY-MM-DD` date.
    Unparsable(String),
    /// The birthday does not occur in the current year (February 29).
    NoDateThisYear,
    /// The birthday does not occur in the next year (February 29).
    NoNextDate,
}

pub enum BirthdayErrorView {
    Missing,
    Unparsable(Seq<char>),
    NoDateThisYear,
    NoNextDate,
}

impl View for BirthdayError {
    type V = BirthdayErrorView;

    open spec fn view(&self) -> BirthdayErrorView {
        match self {
            BirthdayError::Missing => BirthdayErrorView::Missing,
            BirthdayError::Unparsable(s) => BirthdayErrorView::Unparsable(s@),
            BirthdayError::NoDateThisYear => BirthdayErrorView::NoDateThisYear,
            BirthdayError::NoNextDate => BirthdayErrorView::NoNextDate,
        }
    }
}

pub open spec fn message_spec(e: BirthdayErrorView) -> Seq<char> {
    match e {
        BirthdayErrorView::Missing => "birthday field is required (YYYY-MM-DD)"@,
        BirthdayErrorView::Unparsable(s) => "Cannot parse birthday '"@ + s
            + "' — expected YYYY-MM-DD"@,
        BirthdayErrorView::NoDateThisYear => "Invalid birthday date (Feb 29 on non-leap year?)"@,
        BirthdayErrorView::NoNextDate => "Cannot compute next birthday"@,
    }
}

impl BirthdayError {
    /// The message shown for the error.
    pub fn message(&self) -> (res: String)
        ensures
            res@ == message_spec(self@),
    {
        match self {
            BirthdayError::Missing => "birthday field is required (YYYY-MM-DD)".to_string(),
            BirthdayError::Unparsable(s) => {
                let mut m = "Cannot parse birthday '".to_string();
                push_str(&mut m, s.as_str());
                push_str(&mut m, "' — expected YYYY-MM-DD");
                m
            },
            BirthdayError::NoDateThisYear => "Invalid birthday date (Feb 29 on non-leap year?)".to_string(),
            BirthdayError::NoNextDate => "Cannot compute next birthday".to_string(),
        }
    }
}

/// The zodiac sign of a day of the year.
pub open spec fn zodiac_of(m: int, d: int) -> Seq<char> {
    if (m == 3 && 21 <= d <= 31) || (m == 4 && 1 <= d <= 19) {
        "Aries"@
    } else if (m == 4 && 20 <= d <= 30) || (m == 5 && 1 <= d <= 20) {
        "Taurus"@
    } else if (m == 5 && 21 <= d <= 31) || (m == 6 && 1 <= d <= 20) {
        "Gemini"@
    } else if (m == 6 && 21 <= d <= 30) || (m == 7 && 1 <= d <= 22) {
        "Cancer"@
    } else if (m == 7 && 23 <= d <= 31) || (m == 8 && 1 <= d <= 22) {
        "Leo"@
    } else if (m == 8 && 23 <= d <= 31) || (m == 9 && 1 <= d <= 22) {
        "Virgo"@
    } else if (m == 9 && 23 <= d <= 30) || (m == 10 && 1 <= d <= 22) {
        "Libra"@
    } else if (m == 10 && 23 <= d <= 31) || (m == 11 && 1 <= d <= 21) {
        "Scorpio"@
    } else if (m == 11 && 22 <= d <= 30) || (m == 12 && 1 <= d <= 21) {
        "Sagittarius"@
    } else if (m == 12 && 22 <= d <= 31) || (m == 1 && 1 <= d <= 19) {
        "Capricorn"@
    } else if (m == 1 && 20 <= d <= 31) || (m == 2 && 1 <= d <= 18) {
        "Aquarius"@
    } else if (m == 2 && 19 <= d <= 29) || (m == 3 && 1 <= d <= 20) {
        "Pisces"@
    } else {
        "Unknown"@
    }
}

pub open spec fn month_name_of(m: int) -> Seq<char> {
    if m == 1 {
        "January"@
    } else if m == 2 {
        "February"@
    } else if m == 3 {
        "March"@
    } else if m == 4 {
        "April"@
    } else if m == 5 {
        "May"@
    } else if m == 6 {
        "June"@
    } else if m == 7 {
        "July"@
    } else if m == 8 {
        "August"@
    } else if m == 9 {
        "September"@
    } else if m == 10 {
        "October"@
    } else if m == 11 {
        "November"@
    } else if m == 12 {
        "December"@
    } else {
        "Unknown"@
    }
}

/// The zodiac sign of day `day` of month `month`.
pub fn zodiac_sign(month: u32, day: u32) -> (res: &'static str)
    ensures
        res@ == zodiac_of(month as int, day as int),
{
    let (m, d) = (month, day);
    if (m == 3 && 21 <= d && d <= 31) || (m == 4 && 1 <= d && d <= 19) {
        "Aries"
    } else if (m == 4 && 20 <= d && d <= 30) || (m == 5 && 1 <= d && d <= 20) {
        "Taurus"
    } else if (m == 5 && 21 <= d && d <= 31) || (m == 6 && 1 <= d && d <= 20) {
        "Gemini"
    } else if (m == 6 && 21 <= d && d <= 30) || (m == 7 && 1 <= d && d <= 22) {
        "Cancer"
    } else if (m == 7 && 23 <= d && d <= 31) || (m == 8 && 1 <= d && d <= 22) {
        "Leo"
    } else if (m == 8 && 23 <= d && d <= 31) || (m == 9 && 1 <= d && d <= 22) {
        "Virgo"
    } else if (m == 9 && 23 <= d && d <= 30) || (m == 10 && 1 <= d && d <= 22) {
        "Libra"
    } else if (m == 10 && 23 <= d && d <= 31) || (m == 11 && 1 <= d && d <= 21) {
        "Scorpio"
    } else if (m == 11 && 22 <= d && d <= 30) || (m == 12 && 1 <= d && d <= 21) {
        "Sagittarius"
    } else if (m == 12 && 22 <= d && d <= 31) || (m == 1 && 1 <= d && d <= 19) {
        "Capricorn"
    } else if (m == 1 && 20 <= d && d <= 31) || (m == 2 && 1 <= d && d <= 18) {
        "Aquarius"
    } else if (m == 2 && 19 <= d && d <= 29) || (m == 3 && 1 <= d && d <= 20) {
        "Pisces"
    } else {
        "Unknown"
    }
}

/// The English name of month `month` (1 to 12), or `Unknown`.
pub fn month_name(month: u32) -> (res: &'static str)
    ensures
        res@ == month_name_of(month as int),
{
    if month == 1 {
        "January"
    } else if month == 2 {
        "February"
    } else if month == 3 {
        "March"
    } else if month == 4 {
        "April"
    } else if month == 5 {
        "May"
    } else if month == 6 {
        "June"
    } else if month == 7 {
        "July"
    } else if month == 8 {
        "August"
    } else if month == 9 {
        "September"
    } else if month == 10 {
        "October"
    } else if month == 11 {
        "November"
    } else if month == 12 {
        "December"
    } else {
        "Unknown"
    }
}

pub open spec fn countdown_of(days: int) -> Seq<char> {
    if days == 0 {
        "Today!"@
    } else if days == 1 {
        "Tomorrow"@
    } else {
        "In "@ + decimal(days) + " days"@
    }
}

/// The two items shown for a birthday on `(y, m, d)` whose next occurrence is
/// `days` days away, at which the friend turns `age`.
pub open spec fn birthday_item_views(y: int, m: int, d: int, days: int, age: int) -> Seq<ItemView> {
    seq![
        ItemView {
            title: "Birthday: "@ + month_name_of(m) + " "@ + decimal(d) + " ("@ + countdown_of(days)
                + ")"@,
            subtitle: Some("Turning "@ + decimal(age) + " years old"@),
            url: None,
        },
        ItemView {
            title: "Zodiac: "@ + zodiac_of(m, d),
            subtitle: Some("Born "@ + month_name_of(m) + " "@ + decimal(d) + ", "@ + decimal(y)),
            url: None,
        },
    ]
}

/// What the birthday applet shows for a birthday on `(y, m, d)` when today
/// is `today`: the next occurrence (this year's, or next year's once it has
/// passed) with its countdown and the age then reached, and the sign.
pub open spec fn dob_outcome(y: int, m: int, d: int, today: Date) -> Result<Seq<ItemView>, BirthdayErrorView> {
    if !valid_ymd(today.year as int, m, d) {
        Err(BirthdayErrorView::NoDateThisYear)
    } else {
        let this_year = Date { year: today.year, month: m as u32, day: d as u32 };
        if date_le(today, this_year) {
            Ok(birthday_item_views(y, m, d, day_number(this_year) - day_number(today), today.year - y))
        } else if !valid_ymd(today.year + 1, m, d) {
            Err(BirthdayErrorView::NoNextDate)
        } else {
            let next = Date { year: (today.year + 1) as i32, month: m as u32, day: d as u32 };
            Ok(birthday_item_views(y, m, d, day_number(next) - day_number(today), today.year + 1 - y))
        }
    }
}

/// What the birthday applet shows for profile `p` when today is `today`.
pub open spec fn birthday_outcome(p: Map<Seq<char>, Seq<char>>, today: Date) -> Result<
    Seq<ItemView>,
    BirthdayErrorView,
> {
    if !p.contains_key("birthday"@) || trim(p["birthday"@]).len() == 0 {
        Err(BirthdayErrorView::Missing)
    } else {
        let t = trim(p["birthday"@]);
        match ymd_parse(t) {
            None => Err(BirthdayErrorView::Unparsable(t)),
            Some((y, m, d)) => dob_outcome(y as int, m as int, d as int, today),
        }
    }
}

pub open spec fn outcome_view(r: Result<Vec<AppletItem>, BirthdayError>) -> Result<
    Seq<ItemView>,
    BirthdayErrorView,
> {
    match r {
        Ok(v) => Ok(item_views(v@)),
        Err(e) => Err(e@),
    }
}

fn birthday_items(y: i32, m: u32, d: u32, days: i64, age: i64) -> (res: Vec<AppletItem>)
    ensures
        item_views(res@) == birthday_item_views(y as int, m as int, d as int, days as int, age as int),
{
    let mut countdown = String::new();
    if days == 0 {
        push_str(&mut countdown, "Today!");
    } else if days == 1 {
        push_str(&mut countdown, "Tomorrow");
    } else {
        push_str(&mut countdown, "In ");
        push_decimal(&mut countdown, days);
        push_str(&mut countdown, " days");
    }
    let mut title1 = "Birthday: ".to_string();
    push_str(&mut title1, month_name(m));
    push_str(&mut title1, " ");
    push_decimal(&mut title1, d as i64);
    push_str(&mut title1, " (");
    push_str(&mut title1, countdown.as_str());
    push_str(&mut title1, ")");
    let mut sub1 = "Turning ".to_string();
    push_decimal(&mut sub1, age);
    push_str(&mut sub1, " years old");
    let mut title2 = "Zodiac: ".to_string();
    push_str(&mut title2, zodiac_sign(m, d));
    let mut sub2 = "Born ".to_string();
    push_str(&mut sub2, month_name(m));
    push_str(&mut sub2, " ");
    push_decimal(&mut sub2, d as i64);
    push_str(&mut sub2, ", ");
    push_decimal(&mut sub2, y as i64);
    let v = vec![
        AppletItem { title: title1, subtitle: Some(sub1), url: None },
        AppletItem { title: title2, subtitle: Some(sub2), url: None },
    ];
    proof {
        assert(countdown@ == countdown_of(days as int));
        assert(title1@ =~= "Birthday: "@ + month_name_of(m as int) + " "@ + decimal(d as int) + " ("@
            + countdown_of(days as int) + ")"@);
        assert(sub2@ =~= "Born "@ + month_name_of(m as int) + " "@ + decimal(d as int) + ", "@
            + decimal(y as int));
    }
    assert(item_views(v@) =~= birthday_item_views(y as int, m as int, d as int, days as int, age as int));
    v
}

/// What the birthday applet shows for `profile` when today is `today`.
pub fn birthday_items_on(profile: &Profile, today: Date) -> (res: Result<Vec<AppletItem>, BirthdayError>)
    requires
        valid_date(today),
    ensures
        outcome_view(res) == birthday_outcome(profile@, today),
{
    let raw = match profile.get("birthday") {
        Some(r) => r,
        None => {
            return Err(BirthdayError::Missing);
        },
    };
    let t = trimmed(raw.as_str());
    if t.as_str().is_empty() {
        return Err(BirthdayError::Missing);
    }
    let dob = match parse_ymd(t.as_str()) {
        Some(d) => d,
        None => {
            return Err(BirthdayError::Unparsable(t));
        },
    };
    birthday_items_from(dob, today)
}

/// What the birthday applet shows for a friend born on `dob` when today is `today`.
pub fn birthday_items_from(dob: Date, today: Date) -> (res: Result<Vec<AppletItem>, BirthdayError>)
    requires
        valid_date(dob),
        valid_date(today),
    ensures
        outcome_view(res) == dob_outcome(dob.year as int, dob.month as int, dob.day as int, today),
{
    let this_year = match date_from_ymd(today.year, dob.month, dob.day) {
        Some(d) => d,
        None => {
            return Err(BirthdayError::NoDateThisYear);
        },
    };
    if date_at_most(today, this_year) {
        let days = days_between(today, this_year);
        let age = today.year as i64 - dob.year as i64;
        Ok(birthday_items(dob.year, dob.month, dob.day, days, age))
    } else {
        let next = match date_from_ymd(today.year + 1, dob.month, dob.day) {
            Some(d) => d,
            None => {
                return Err(BirthdayError::NoNextDate);
            },
        };
        let days = days_between(today, next);
        let age = today.year as i64 + 1 - dob.year as i64;
        Ok(birthday_items(dob.year, dob.month, dob.day, days, age))
    }
}

/// What the birthday applet shows for `profile` today (the local date).
pub fn compute_birthday_items(profile: &Profile) -> (res: Result<Vec<AppletItem>, BirthdayError>)
    ensures
        exists|today: Date| valid_date(today) && outcome_view(res) == birthday_outcome(profile@, today),
{
    let today = local_today();
    birthday_items_on(profile, today)
}

/// Every day of every month has a zodiac sign, and a name for its month.
pub proof fn lemma_zodiac_total(y: int, m: int, d: int)
    requires
        valid_ymd(y, m, d),
    ensures
        zodiac_of(m, d) != "Unknown"@,
        month_name_of(m) != "Unknown"@,
{
    reveal_strlit("Unknown");
    reveal_strlit("Aries");
    reveal_strlit("Taurus");
    reveal_strlit("Gemini");
    reveal_strlit("Cancer");
    reveal_strlit("Leo");
    reveal_strlit("Virgo");
    reveal_strlit("Libra");
    reveal_strlit("Scorpio");
    reveal_strlit("Sagittarius");
    reveal_strlit("Capricorn");
    reveal_strlit("Aquarius");
    reveal_strlit("Pisces");
    reveal_strlit("January");
    reveal_strlit("February");
    reveal_strlit("March");
    reveal_strlit("April");
    reveal_strlit("May");
    reveal_strlit("June");
    reveal_strlit("July");
    reveal_strlit("August");
    reveal_strlit("September");
    reveal_strlit("October");
    reveal_strlit("November");
    reveal_strlit("December");
    assert("Unknown"@[0] == 'U');
    assert(zodiac_of(m, d)[0] != 'U');
    assert(month_name_of(m)[0] != 'U');
}

/// The zodiac table: each sign covers the days from its first day to the
/// day before the next sign's first day (Aries from March 21, Taurus from
/// April 20, Gemini from May 21, Cancer from June 21, Leo from July 23,
/// Virgo from August 23, Libra from September 23, Scorpio from October 23,
/// Sagittarius from November 22, Capricorn from December 22, Aquarius from
/// January 20, Pisces from February 19).
pub proof fn lemma_zodiac_table(m: int, d: int)
    requires
        1 <= m <= 12,
        1 <= d <= 31,
        m == 2 ==> d <= 29,
        m == 4 || m == 6 || m == 9 || m == 11 ==> d <= 30,
    ensures
        (m == 3 && d >= 21) || (m == 4 && d <= 19) ==> zodiac_of(m, d) == "Aries"@,
        (m == 4 && d >= 20) || (m == 5 && d <= 20) ==> zodiac_of(m, d) == "Taurus"@,
        (m == 5 && d >= 21) || (m == 6 && d <= 20) ==> zodiac_of(m, d) == "Gemini"@,
        (m == 6 && d >= 21) || (m == 7 && d <= 22) ==> zodiac_of(m, d) == "Cancer"@,
        (m == 7 && d >= 23) || (m == 8 && d <= 22) ==> zodiac_of(m, d) == "Leo"@,
        (m == 8 && d >= 23) || (m == 9 && d <= 22) ==> zodiac_of(m, d) == "Virgo"@,
        (m == 9 && d >= 23) || (m == 10 && d <= 22) ==> zodiac_of(m, d) == "Libra"@,
        (m == 10 && d >= 23) || (m == 11 && d <= 21) ==> zodiac_of(m, d) == "Scorpio"@,
        (m == 11 && d >= 22) || (m == 12 && d <= 21) ==> zodiac_of(m, d) == "Sagittarius"@,
        (m == 12 && d >= 22) || (m == 1 && d <= 19) ==> zodiac_of(m, d) == "Capricorn"@,
        (m == 1 && d >= 20) || (m == 2 && d <= 18) ==> zodiac_of(m, d) == "Aquarius"@,
        (m == 2 && d >= 19) || (m == 3 && d <= 20) ==> zodiac_of(m, d) == "Pisces"@,
{
}

/// The second birthday item names the sign of the birthday's month and day,
/// and the first names its month and day.
pub proof fn lemma_birthday_items_name_the_day(y: int, m: int, d: int, today: Date)
    ensures
        dob_outcome(y, m, d, today) is Ok ==> {
            let items = dob_outcome(y, m, d, today)->Ok_0;
            &&& items.len() == 2
            &&& items[1].title == "Zodiac: "@ + zodiac_of(m, d)
            &&& items[0].title.take(10) == "Birthday: "@
            &&& items[1].subtitle == Some("Born "@ + month_name_of(m) + " "@ + decimal(d) + ", "@ + decimal(y))
        },
{
    reveal_strlit("Birthday: ");
    if dob_outcome(y, m, d, today) is Ok {
        let items = dob_outcome(y, m, d, today)->Ok_0;
        assert(items[0].title.take(10) =~= "Birthday: "@);
    }
}

/// The birthday items count down to the next occurrence of the birthday:
/// this year's when it has not passed yet, else next year's; they give the
/// number of days from today to it and the age reached on it.
pub proof fn lemma_birthday_countdown(y: int, m: int, d: int, today: Date)
    requires
        valid_date(today),
    ensures
        dob_outcome(y, m, d, today) is Ok ==> exists|nx: Date|
            #![trigger day_number(nx)]
            {
                let items = dob_outcome(y, m, d, today)->Ok_0;
                &&& valid_date(nx)
                &&& nx.month == m && nx.day == d
                &&& date_le(today, nx)
                &&& (nx.year == today.year || (nx.year == today.year + 1 && !date_le(
                    today,
                    Date { year: today.year, month: m as u32, day: d as u32 },
                )))
                &&& items[0].title == "Birthday: "@ + month_name_of(m) + " "@ + decimal(d) + " ("@
                    + countdown_of(day_number(nx) - day_number(today)) + ")"@
                &&& items[0].subtitle == Some("Turning "@ + decimal(nx.year - y) + " years old"@)
            },
{
    if dob_outcome(y, m, d, today) is Ok {
        let this_year = Date { year: today.year, month: m as u32, day: d as u32 };
        if date_le(today, this_year) {
            assert(day_number(this_year) == day_number(this_year));
        } else {
            let next = Date { year: (today.year + 1) as i32, month: m as u32, day: d as u32 };
            assert(day_number(next) == day_number(next));
        }
    }
}

} // verus!
