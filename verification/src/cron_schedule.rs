//! Reading a cron expression for people: the common shapes are recognised and named, the
//! rest is shown as escaped code.
//!
//! The caller renders a recognised shape with the message of the active language.

use vstd::prelude::*;
use crate::patterns::{encode_safe, html_safe};
use crate::text::{
    append, append_str, ascii_lower, chars_of, decimal, decimal_u128, eq_ignore_ascii_case, eq_ignore_case_chars,
    eq_str, parse_u32, parsed_u32, seqs, slice, starts_with, starts_with_str, string_of, words,
    words_chars,
};

verus! {

/// A schedule as it is described.
#[derive(Clone, Debug, PartialEq, Eq)]
pub enum ScheduleKind {
    /// Every day at `HH:MM`.
    Daily(String),
    /// Every `n` minutes.
    EveryMinutes(String),
    /// Every `n` hours.
    EveryHours(String),
    /// At the start of every hour.
    Hourly,
    /// Monday to Friday at `HH:MM`.
    Weekdays(String),
    /// Saturday and Sunday at `HH:MM`.
    Weekends(String),
    /// Anything else: the expression itself, HTML-escaped inside `<code>`.
    Raw(String),
}

/// A number written with at least two digits (`{:02}`).
pub open spec fn two_digits(n: nat) -> Seq<char> {
    if n < 10 {
        "0"@ + decimal(n)
    } else {
        decimal(n)
    }
}

/// The time `HH:MM` of an hour and a minute.
pub open spec fn clock_of(hour: nat, minute: nat) -> Seq<char> {
    two_digits(hour) + ":"@ + two_digits(minute)
}

/// The text after a `*/` prefix.
pub open spec fn step_of(field: Seq<char>) -> Seq<char> {
    field.skip(2)
}

/// The description of the five fields `min hour day month dow` when day and month are
/// both `*`; `None` when they fit no known shape.
pub open spec fn shape_of(min: Seq<char>, hour: Seq<char>, dow: Seq<char>) -> Option<(u8, Seq<char>)> {
    let both = parsed_u32(min) is Some && parsed_u32(hour) is Some;
    let time = clock_of(
        (match parsed_u32(hour) { Some(h) => h as nat, None => 0 }),
        (match parsed_u32(min) { Some(m) => m as nat, None => 0 }),
    );
    if dow == "*"@ {
        if both {
            Some((0, time))
        } else if starts_with(min, "*/"@) {
            if hour == "*"@ {
                Some((1, step_of(min)))
            } else {
                None
            }
        } else if min == "0"@ {
            if starts_with(hour, "*/"@) {
                Some((2, step_of(hour)))
            } else if hour == "*"@ {
                Some((3, Seq::empty()))
            } else {
                None
            }
        } else {
            None
        }
    } else if dow == "1-5"@ || eq_ignore_ascii_case(dow, "mon-fri"@) {
        if both {
            Some((4, time))
        } else {
            None
        }
    } else if dow == "0,6"@ || dow == "6,0"@ || eq_ignore_ascii_case(dow, "sat,sun"@) {
        if both {
            Some((5, time))
        } else {
            None
        }
    } else {
        None
    }
}

/// `r` describes the cron expression `schedule`.
pub open spec fn described(schedule: Seq<char>, r: ScheduleKind) -> bool {
    let parts = words(schedule);
    let shape = if parts.len() == 5 && parts[2] == "*"@ && parts[3] == "*"@ {
        shape_of(parts[0], parts[1], parts[4])
    } else {
        None
    };
    match shape {
        Some((0, t)) => r matches ScheduleKind::Daily(x) && x@ == t,
        Some((1, n)) => r matches ScheduleKind::EveryMinutes(x) && x@ == n,
        Some((2, n)) => r matches ScheduleKind::EveryHours(x) && x@ == n,
        Some((3, _)) => r is Hourly,
        Some((4, t)) => r matches ScheduleKind::Weekdays(x) && x@ == t,
        Some((5, t)) => r matches ScheduleKind::Weekends(x) && x@ == t,
        _ => r matches ScheduleKind::Raw(x) && x@ == "<code>"@ + html_safe(schedule) + "</code>"@,
    }
}

/// A day-of-week field naming Saturday and Sunday.
pub open spec fn weekend_field(dow: Seq<char>) -> bool {
    dow == "0,6"@ || dow == "6,0"@ || eq_ignore_ascii_case(dow, "sat,sun"@)
}

/// A day-of-week field naming Monday to Friday.
pub open spec fn weekday_field(dow: Seq<char>) -> bool {
    dow == "1-5"@ || eq_ignore_ascii_case(dow, "mon-fri"@)
}

/// A schedule at a fixed minute and hour on every day of every month whose day-of-week
/// field names Saturday and Sunday is described as running on weekends at that time.
pub proof fn lemma_weekend_schedules(schedule: Seq<char>, r: ScheduleKind, minute: u32, hour: u32)
    requires
        described(schedule, r),
        words(schedule).len() == 5,
        words(schedule)[2] == "*"@,
        words(schedule)[3] == "*"@,
        parsed_u32(words(schedule)[0]) == Some(minute),
        parsed_u32(words(schedule)[1]) == Some(hour),
        weekend_field(words(schedule)[4]),
    ensures
        r matches ScheduleKind::Weekends(x) && x@ == clock_of(hour as nat, minute as nat),
{
    let dow = words(schedule)[4];
    reveal_strlit("*");
    reveal_strlit("0,6");
    reveal_strlit("6,0");
    reveal_strlit("sat,sun");
    reveal_strlit("1-5");
    reveal_strlit("mon-fri");
    if eq_ignore_ascii_case(dow, "sat,sun"@) {
        assert(ascii_lower(dow[0]) == ascii_lower("sat,sun"@[0]));
        assert(dow != "*"@);
        assert(dow != "1-5"@);
        assert(!eq_ignore_ascii_case(dow, "mon-fri"@)) by {
            assert(ascii_lower("mon-fri"@[0]) == 'm');
            assert(ascii_lower("sat,sun"@[0]) == 's');
        }
    } else {
        assert(dow.len() == 3);
        assert(dow != "*"@);
        assert(dow != "1-5"@) by {
            assert(dow[1] == ',');
        }
        assert(!eq_ignore_ascii_case(dow, "mon-fri"@));
    }
}

/// A schedule at a fixed minute and hour on every day of every month whose day-of-week
/// field names Monday to Friday is described as running on weekdays at that time.
pub proof fn lemma_weekday_schedules_described(schedule: Seq<char>, r: ScheduleKind, minute: u32, hour: u32)
    requires
        described(schedule, r),
        words(schedule).len() == 5,
        words(schedule)[2] == "*"@,
        words(schedule)[3] == "*"@,
        parsed_u32(words(schedule)[0]) == Some(minute),
        parsed_u32(words(schedule)[1]) == Some(hour),
        weekday_field(words(schedule)[4]),
    ensures
        r matches ScheduleKind::Weekdays(x) && x@ == clock_of(hour as nat, minute as nat),
{
    let dow = words(schedule)[4];
    reveal_strlit("*");
    reveal_strlit("1-5");
    reveal_strlit("mon-fri");
    if dow == "1-5"@ {
        assert(dow != "*"@);
    } else {
        assert(dow.len() == 7);
        assert(dow != "*"@);
    }
}

/// A schedule is described as running on weekends only when it has five fields, day and
/// month `*`, and a day-of-week field naming Saturday and Sunday.
pub proof fn lemma_weekend_schedules_only(schedule: Seq<char>, r: ScheduleKind)
    requires
        described(schedule, r),
        r is Weekends,
    ensures
        words(schedule).len() == 5,
        words(schedule)[2] == "*"@,
        words(schedule)[3] == "*"@,
        weekend_field(words(schedule)[4]),
{
}

/// A schedule is described as running Monday to Friday only when it has five fields, day
/// and month `*`, and a day-of-week field naming Monday to Friday.
pub proof fn lemma_weekday_schedules(schedule: Seq<char>, r: ScheduleKind)
    requires
        described(schedule, r),
        r is Weekdays,
    ensures
        words(schedule).len() == 5,
        words(schedule)[2] == "*"@,
        words(schedule)[3] == "*"@,
        weekday_field(words(schedule)[4]),
{
}

fn two_digits_of(n: u32) -> (r: Vec<char>)
    ensures
        r@ == two_digits(n as nat),
{
    let d = decimal_u128(n as u128);
    if n < 10 {
        let mut z = chars_of("0");
        append(&mut z, &d);
        z
    } else {
        d
    }
}

fn clock(hour: u32, minute: u32) -> (r: String)
    ensures
        r@ == clock_of(hour as nat, minute as nat),
{
    let mut t = two_digits_of(hour);
    append_str(&mut t, ":");
    append(&mut t, &two_digits_of(minute));
    string_of(&t)
}

fn step(field: &Vec<char>) -> (r: String)
    requires
        field@.len() >= 2,
    ensures
        r@ == step_of(field@),
{
    string_of(&slice(field, 2, field.len()))
}

/// Describes a cron expression.
pub fn describe_schedule(schedule: &str) -> (r: ScheduleKind)
    ensures
        described(schedule@, r),
{
    let parts = words_chars(&chars_of(schedule));
    proof {
        assert(seqs(parts@).len() == parts@.len());
    }
    if parts.len() == 5 && eq_str(&parts[2], "*") && eq_str(&parts[3], "*") {
        let min = &parts[0];
        let hour = &parts[1];
        let dow = &parts[4];
        let pm = parse_u32(min);
        let ph = parse_u32(hour);
        if eq_str(dow, "*") {
            if let (Some(m), Some(h)) = (pm, ph) {
                return ScheduleKind::Daily(clock(h, m));
            } else if starts_with_str(min, "*/") {
                if eq_str(hour, "*") {
                    proof {
                        reveal_strlit("*/");
                    }
                    return ScheduleKind::EveryMinutes(step(min));
                }
            } else if eq_str(min, "0") {
                if starts_with_str(hour, "*/") {
                    proof {
                        reveal_strlit("*/");
                    }
                    return ScheduleKind::EveryHours(step(hour));
                } else if eq_str(hour, "*") {
                    return ScheduleKind::Hourly;
                }
            }
        } else if eq_str(dow, "1-5") || eq_ignore_case_chars(dow, &chars_of("mon-fri")) {
            if let (Some(m), Some(h)) = (pm, ph) {
                return ScheduleKind::Weekdays(clock(h, m));
            }
        } else if eq_str(dow, "0,6") || eq_str(dow, "6,0") || eq_ignore_case_chars(dow, &chars_of("sat,sun")) {
            if let (Some(m), Some(h)) = (pm, ph) {
                return ScheduleKind::Weekends(clock(h, m));
            }
        }
    }
    let mut raw = chars_of("<code>");
    append_str(&mut raw, encode_safe(schedule).as_str());
    append_str(&mut raw, "</code>");
    ScheduleKind::Raw(string_of(&raw))
}

/// The message key under which a recognised shape is worded.
pub fn schedule_message_key(kind: &ScheduleKind) -> (r: Option<&'static str>)
    ensures
        match kind {
            ScheduleKind::Daily(_) => r == Some("bot.cron_schedule_daily"),
            ScheduleKind::EveryMinutes(_) => r == Some("bot.cron_schedule_every_min"),
            ScheduleKind::EveryHours(_) => r == Some("bot.cron_schedule_every_hours"),
            ScheduleKind::Hourly => r == Some("bot.cron_schedule_hourly"),
            ScheduleKind::Weekdays(_) => r == Some("bot.cron_schedule_weekdays"),
            ScheduleKind::Weekends(_) => r == Some("bot.cron_schedule_weekends"),
            ScheduleKind::Raw(_) => r is None,
        },
{
    match kind {
        ScheduleKind::Daily(_) => Some("bot.cron_schedule_daily"),
        ScheduleKind::EveryMinutes(_) => Some("bot.cron_schedule_every_min"),
        ScheduleKind::EveryHours(_) => Some("bot.cron_schedule_every_hours"),
        ScheduleKind::Hourly => Some("bot.cron_schedule_hourly"),
        ScheduleKind::Weekdays(_) => Some("bot.cron_schedule_weekdays"),
        ScheduleKind::Weekends(_) => Some("bot.cron_schedule_weekends"),
        ScheduleKind::Raw(_) => None,
    }
}

} // verus!
