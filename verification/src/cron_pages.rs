//! The paged list of scheduled jobs: which jobs a page shows, the navigation buttons under
//! it, and the grammar of the callback data those buttons send back.
//!
//! Button labels are message keys that the caller looks up in the active language.

use std::hash::{Hash, Hasher};
use vstd::prelude::*;
use crate::tokens::hex_digit;
use crate::text::{
    append, append_str, chars_of, decimal, decimal_u128, eq_str, parse_usize, parsed_usize,
    seqs, slice, split, split_chars, starts_with, string_of,
};

verus! {

/// Jobs shown on one page.
pub const PAGE_SIZE: usize = 4;

/// The part of the job list a page shows.
#[derive(Clone, Copy, Debug, PartialEq, Eq)]
pub struct PageWindow {
    /// The page shown, after clamping to the last page.
    pub current_page: usize,
    /// The number of pages.
    pub total_pages: usize,
    /// The index of the first job shown.
    pub start: usize,
    /// One past the index of the last job shown.
    pub end: usize,
}

/// The window of `job_count` jobs (at least one) shown for the requested `page`.
pub open spec fn window_of(job_count: int, page: int) -> PageWindow {
    let total = (job_count + 3) / 4;
    let current = if page < total - 1 { page } else { total - 1 };
    let start = current * 4;
    let end = if start + 4 < job_count { start + 4 } else { job_count };
    PageWindow {
        current_page: current as usize,
        total_pages: total as usize,
        start: start as usize,
        end: end as usize,
    }
}

/// Which jobs the requested page shows.
pub fn page_window(job_count: usize, page: usize) -> (w: PageWindow)
    requires
        0 < job_count <= usize::MAX - PAGE_SIZE,
    ensures
        w == window_of(job_count as int, page as int),
        w.current_page < w.total_pages,
        w.start < w.end <= job_count,
        w.end - w.start <= PAGE_SIZE,
{
    let total = (job_count + PAGE_SIZE - 1) / PAGE_SIZE;
    let current = if page < total - 1 { page } else { total - 1 };
    assert(current * PAGE_SIZE < job_count) by (nonlinear_arith)
        requires
            current <= total - 1,
            total as int == (job_count as int + 3) / 4,
            job_count > 0,
    ;
    assert(current * 4 < job_count);
    let start = current * PAGE_SIZE;
    let end = if start + PAGE_SIZE < job_count { start + PAGE_SIZE } else { job_count };
    PageWindow { current_page: current, total_pages: total, start, end }
}

/// A button under the job list: the message key of its label and its callback data.
#[derive(Clone, Debug, PartialEq, Eq)]
pub struct NavButton {
    pub label_key: String,
    pub data: String,
}

/// A button as (label key, callback data).
pub open spec fn nav_view(b: NavButton) -> (Seq<char>, Seq<char>) {
    (b.label_key@, b.data@)
}

/// The navigation rows: previous page when there is one, refresh, next page when there is
/// one; then switching all jobs on or off.
pub open spec fn nav_rows_of(current: nat, total: nat) -> Seq<Seq<(Seq<char>, Seq<char>)>> {
    let page = decimal(current);
    let prev: Seq<(Seq<char>, Seq<char>)> = if current > 0 {
        seq![("bot.cron_prev_page"@, "crn:p:"@ + page)]
    } else {
        Seq::empty()
    };
    let with_refresh = prev.push(("bot.cron_refresh"@, "crn:r:"@ + page));
    let nav = if current + 1 < total {
        with_refresh.push(("bot.cron_next_page"@, "crn:n:"@ + page))
    } else {
        with_refresh
    };
    seq![nav, seq![("bot.cron_all_on"@, "crn:ao:"@ + page), ("bot.cron_all_off"@, "crn:af:"@ + page)]]
}

fn nav_button(key: &str, prefix: &str, page: &Vec<char>) -> (b: NavButton)
    ensures
        nav_view(b) == (key@, prefix@ + page@),
{
    let mut data = chars_of(prefix);
    append(&mut data, page);
    NavButton { label_key: key.to_owned(), data: string_of(&data) }
}

/// The navigation rows under page `current` of `total`.
pub fn nav_rows(current: usize, total: usize) -> (r: Vec<Vec<NavButton>>)
    ensures
        r@.map_values(|row: Vec<NavButton>| row@.map_values(|b: NavButton| nav_view(b))) == nav_rows_of(
            current as nat,
            total as nat,
        ),
{
    let page = decimal_u128(current as u128);
    let mut nav: Vec<NavButton> = Vec::new();
    if current > 0 {
        nav.push(nav_button("bot.cron_prev_page", "crn:p:", &page));
    }
    nav.push(nav_button("bot.cron_refresh", "crn:r:", &page));
    if current < total && total - current > 1 {
        nav.push(nav_button("bot.cron_next_page", "crn:n:", &page));
    }
    let mut all: Vec<NavButton> = Vec::new();
    all.push(nav_button("bot.cron_all_on", "crn:ao:", &page));
    all.push(nav_button("bot.cron_all_off", "crn:af:", &page));
    let ghost expected = nav_rows_of(current as nat, total as nat);
    assert(nav@.map_values(|b: NavButton| nav_view(b)) =~= expected[0]);
    assert(all@.map_values(|b: NavButton| nav_view(b)) =~= expected[1]);
    let mut rows: Vec<Vec<NavButton>> = Vec::new();
    rows.push(nav);
    rows.push(all);
    assert(rows@.map_values(|row: Vec<NavButton>| row@.map_values(|b: NavButton| nav_view(b))) =~= expected);
    rows
}

/// What a button under the job list asks for.
#[derive(Clone, Debug, PartialEq, Eq)]
pub enum CronCallback {
    /// Show this page.
    Show(usize),
    /// Show this page, with a note that the list was refreshed.
    Refresh(usize),
    /// Switch every job on (`true`) or off, then show this page.
    SetAll(bool, usize),
    /// Toggle the job in `slot` of `page` if its fingerprint still matches.
    Toggle { page: usize, slot: usize, fingerprint: String },
    /// Show this page after a toggle request that was malformed.
    ShowAfterToggle(usize),
    /// Not a request this list knows.
    Ignore,
}

/// `r` is the request sent by the callback data `data` (which starts with `crn:`): the
/// fields after the prefix are separated by `:`; the first is the action and the second
/// the page (0 when missing or not a number). The next page saturates at the largest
/// page number.
pub open spec fn cron_callback_of(data: Seq<char>, r: CronCallback) -> bool {
    let parts = split(data.skip(4), ':');
    let action = parts[0];
    let page: nat = if parts.len() > 1 {
        match parsed_usize(parts[1]) {
            Some(p) => p as nat,
            None => 0,
        }
    } else {
        0
    };
    if action == "p"@ {
        r == CronCallback::Show((if page > 0 { page - 1 } else { 0 }) as usize)
    } else if action == "n"@ {
        r == CronCallback::Show((if page < usize::MAX { page + 1 } else { page }) as usize)
    } else if action == "r"@ {
        r == CronCallback::Refresh(page as usize)
    } else if action == "ao"@ || action == "af"@ {
        r == CronCallback::SetAll(action == "ao"@, page as usize)
    } else if action == "t"@ {
        if parts.len() < 4 {
            r == CronCallback::ShowAfterToggle(page as usize)
        } else {
            r matches CronCallback::Toggle { page: p, slot, fingerprint } && p == page && slot == (
            match parsed_usize(parts[2]) {
                Some(s) => s,
                None => 0,
            }) && fingerprint@ == parts[3]
        }
    } else {
        r == CronCallback::Ignore
    }
}

fn parse_or_zero(s: &Vec<char>) -> (r: usize)
    ensures
        r == match parsed_usize(s@) {
            Some(p) => p,
            None => 0,
        },
{
    match parse_usize(s) {
        Some(p) => p,
        None => 0,
    }
}

/// Reads the request carried by a button's callback data.
pub fn parse_cron_callback(data: &str) -> (r: CronCallback)
    requires
        starts_with(data@, "crn:"@),
    ensures
        cron_callback_of(data@, r),
{
    proof {
        reveal_strlit("crn:");
    }
    let d = chars_of(data);
    let rest = slice(&d, 4, d.len());
    assert(rest@ == data@.skip(4));
    let parts = split_chars(&rest, ':');
    assert(seqs(parts@).len() == parts@.len());
    let action = &parts[0];
    let page: usize = if parts.len() > 1 { parse_or_zero(&parts[1]) } else { 0 };
    if eq_str(action, "p") {
        CronCallback::Show(if page > 0 { page - 1 } else { 0 })
    } else if eq_str(action, "n") {
        CronCallback::Show(if page < usize::MAX { page + 1 } else { page })
    } else if eq_str(action, "r") {
        CronCallback::Refresh(page)
    } else if eq_str(action, "ao") || eq_str(action, "af") {
        CronCallback::SetAll(eq_str(action, "ao"), page)
    } else if eq_str(action, "t") {
        if parts.len() < 4 {
            CronCallback::ShowAfterToggle(page)
        } else {
            let slot = parse_or_zero(&parts[2]);
            CronCallback::Toggle { page, slot, fingerprint: string_of(&parts[3]) }
        }
    } else {
        CronCallback::Ignore
    }
}

/// The index in the job list of `slot` on `page`, when it can be represented.
pub fn job_index(page: usize, slot: usize) -> (r: Option<usize>)
    ensures
        match r {
            Some(i) => i == page * PAGE_SIZE + slot,
            None => page * PAGE_SIZE + slot > usize::MAX,
        },
{
    match page.checked_mul(PAGE_SIZE) {
        Some(base) => base.checked_add(slot),
        None => None,
    }
}

/// The callback data of the toggle button of the job in `slot` of `page`, carrying the
/// job's fingerprint so that a stale button toggles nothing.
pub fn toggle_button_data(page: usize, slot: usize, fingerprint: &str) -> (r: String)
    ensures
        r@ == "crn:t:"@ + decimal(page as nat) + ":"@ + decimal(slot as nat) + ":"@ + fingerprint@,
{
    let mut d = chars_of("crn:t:");
    append(&mut d, &decimal_u128(page as u128));
    append_str(&mut d, ":");
    append(&mut d, &decimal_u128(slot as u128));
    append_str(&mut d, ":");
    append_str(&mut d, fingerprint);
    string_of(&d)
}

/// What toggling a job does.
#[derive(Clone, Copy, Debug, PartialEq, Eq)]
pub struct TogglePlan {
    /// The job's new state.
    pub enable: bool,
    /// The chat and topic the job is bound to first, when a job without a target is
    /// switched on from a chat.
    pub bind_to: Option<(i64, Option<i64>)>,
}

/// Plans the toggle of a job that is `enabled` and targets `job_chat_id` (0 for none),
/// requested from `caller_chat` and `caller_topic`.
pub fn toggle_plan(enabled: bool, job_chat_id: i64, caller_chat: Option<i64>, caller_topic: Option<i64>) -> (p: TogglePlan)
    ensures
        p.enable == !enabled,
        p.bind_to == (if !enabled && job_chat_id == 0 && caller_chat is Some {
            Some((caller_chat->Some_0, caller_topic))
        } else {
            None
        }),
{
    let enable = !enabled;
    let bind_to = if enable && job_chat_id == 0 {
        match caller_chat {
            Some(c) => Some((c, caller_topic)),
            None => None,
        }
    } else {
        None
    };
    TogglePlan { enable, bind_to }
}


/// What a fresh `DefaultHasher`, fed a job id with `Hash::hash`, finishes with.
pub uninterp spec fn default_hash(job_id: Seq<char>) -> u64;

/// Wraps `DefaultHasher::new`, `Hash::hash` and `Hasher::finish` on a job id: the result is
/// the name `default_hash` of the id (std documents that every hasher made by
/// `DefaultHasher::new` is the same, so the hash depends on the id alone; which hash
/// function it is, std leaves open).
#[verifier::external_body]
fn hash_of(job_id: &str) -> (r: u64)
    ensures
        r == default_hash(job_id@),
{
    let mut hasher = std::collections::hash_map::DefaultHasher::new();
    job_id.hash(&mut hasher);
    hasher.finish()
}

/// Lowercase hexadecimal notation of `n`, without leading zeros.
pub open spec fn hex_digits(n: nat) -> Seq<char>
    decreases n,
{
    if n < 16 {
        seq![hex_digit(n)]
    } else {
        hex_digits(n / 16).push(hex_digit(n % 16))
    }
}

/// Lowercase hexadecimal notation of `n`, padded with zeros to at least eight digits
/// (`{:08x}`).
pub open spec fn padded_hex(n: nat) -> Seq<char> {
    let d = hex_digits(n);
    if d.len() < 8 {
        Seq::new((8 - d.len()) as nat, |i: int| '0') + d
    } else {
        d
    }
}

fn hex_digit_of(n: u64) -> (c: char)
    requires
        n < 16,
    ensures
        c == hex_digit(n as nat),
{
    if n < 10 {
        ((48 + n) as u8) as char
    } else {
        ((87 + n) as u8) as char
    }
}

fn hex_digits_of(n: u64) -> (r: Vec<char>)
    ensures
        r@ == hex_digits(n as nat),
    decreases n,
{
    if n < 16 {
        let mut v: Vec<char> = Vec::new();
        v.push(hex_digit_of(n));
        v
    } else {
        let mut v = hex_digits_of(n / 16);
        v.push(hex_digit_of(n % 16));
        v
    }
}

/// Writes `n` in lowercase hexadecimal, padded with zeros to at least eight digits.
pub fn padded_hex_of(n: u64) -> (r: String)
    ensures
        r@ == padded_hex(n as nat),
{
    let d = hex_digits_of(n);
    let mut out: Vec<char> = Vec::new();
    if d.len() < 8 {
        let pad = 8 - d.len();
        let mut i: usize = 0;
        while i < pad
            invariant
                i <= pad,
                pad == 8 - d@.len(),
                out@ == Seq::new(i as nat, |k: int| '0'),
            decreases pad - i,
        {
            out.push('0');
            assert(out@ =~= Seq::new((i + 1) as nat, |k: int| '0'));
            i = i + 1;
        }
    }
    append(&mut out, &d);
    string_of(&out)
}

/// The fingerprint of a job shown in its toggle button: the hash of its id in hexadecimal.
pub fn fingerprint(job_id: &str) -> (r: String)
    ensures
        r@ == padded_hex(default_hash(job_id@) as nat),
{
    padded_hex_of(hash_of(job_id))
}

/// The job a toggle request names.
#[derive(Clone, Copy, Debug, PartialEq, Eq)]
pub enum ToggleTarget {
    /// The job at this index of the list, whose fingerprint still matches.
    Apply(usize),
    /// Another job sits in that place now.
    Stale,
    /// No job sits in that place.
    Missing,
}

/// Finds the job a toggle request for `slot` of `page` names in the list of job ids: it
/// applies only while the job there still has the fingerprint the button carries.
pub fn toggle_target(job_ids: &Vec<String>, page: usize, slot: usize, fingerprint_text: &str) -> (r: ToggleTarget)
    ensures
        match r {
            ToggleTarget::Apply(i) => {
                &&& i == page * PAGE_SIZE + slot
                &&& i < job_ids@.len()
                &&& padded_hex(default_hash(job_ids@[i as int]@) as nat) == fingerprint_text@
            },
            ToggleTarget::Stale => {
                &&& page * PAGE_SIZE + slot < job_ids@.len()
                &&& padded_hex(default_hash(job_ids@[page * PAGE_SIZE + slot]@) as nat) != fingerprint_text@
            },
            ToggleTarget::Missing => page * PAGE_SIZE + slot >= job_ids@.len(),
        },
{
    match job_index(page, slot) {
        Some(i) => {
            if i < job_ids.len() {
                let fp = fingerprint(job_ids[i].as_str());
                if eq_str(&chars_of(fp.as_str()), fingerprint_text) {
                    ToggleTarget::Apply(i)
                } else {
                    ToggleTarget::Stale
                }
            } else {
                ToggleTarget::Missing
            }
        },
        None => {
            let n = job_ids.len();
            assert(n == job_ids@.len());
            ToggleTarget::Missing
        },
    }
}

} // verus!
