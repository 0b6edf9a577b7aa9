//! Matrix ingress: which room messages the bot answers, the prompt it takes from them,
//! and the commands that stop its work in a room.

use vstd::prelude::*;
use crate::dedupe::{after_arrival, DedupeCache};
use crate::review::names;
use crate::text::{chars_of, contains, contains_chars, eq_chars, eq_str, replace_all, replace_all_chars, string_of, trim, trim_chars};

verus! {

/// A room without a name or alias and with at most two members is a direct chat.
pub open spec fn is_direct_chat(named: bool, aliased: bool, members: u64) -> bool {
    !named && !aliased && members <= 2
}

/// The prompt taken from a message body that passed the duplicate check: `None` unless the
/// body is text, the room and the sender are allowed, and the bot is addressed (a direct
/// chat, or the body mentions the bot's user id); the prompt is the body with the mentions
/// removed, trimmed.
pub open spec fn prompt_of(
    self_id: Seq<char>,
    sender: Seq<char>,
    body: Option<Seq<char>>,
    room_id: Seq<char>,
    allowed_rooms: Seq<Seq<char>>,
    allowed_users: Seq<Seq<char>>,
    named: bool,
    aliased: bool,
    members: u64,
) -> Option<Seq<char>> {
    match body {
        None => None,
        Some(text) => if !allowed_rooms.contains(room_id) || !allowed_users.contains(sender) {
            None
        } else if !(is_direct_chat(named, aliased, members) || contains(text, self_id)) {
            None
        } else {
            Some(trim(replace_all(text, self_id, Seq::empty())))
        },
    }
}

fn listed(list: &Vec<String>, item: &Vec<char>) -> (r: bool)
    ensures
        r == names(list@).contains(item@),
{
    let mut i: usize = 0;
    while i < list.len()
        invariant
            i <= list@.len(),
            forall|j: int| 0 <= j < i ==> names(list@)[j] != item@,
        decreases list.len() - i,
    {
        if eq_chars(&chars_of(list[i].as_str()), item) {
            assert(names(list@)[i as int] == item@);
            return true;
        }
        i = i + 1;
    }
    false
}

/// Checks an incoming room message. Messages from the bot itself, or when the bot's own
/// id is unknown, are dropped first; every other event id goes through the duplicate
/// cache, and a repeated one is dropped. Returns the prompt and the room id of a message
/// the bot answers.
pub fn validate_message(
    cache: &mut DedupeCache,
    self_user_id: Option<&str>,
    sender: &str,
    event_id: &str,
    body: Option<&str>,
    room_id: &str,
    allowed_rooms: &Vec<String>,
    allowed_users: &Vec<String>,
    named: bool,
    aliased: bool,
    members: u64,
) -> (r: Option<(String, String)>)
    requires
        old(cache).wf(),
    ensures
        final(cache).wf(),
        final(cache).capacity_spec() == old(cache).capacity_spec(),
        match self_user_id {
            None => r is None && final(cache)@ == old(cache)@,
            Some(me) => if sender@ == me@ {
                r is None && final(cache)@ == old(cache)@
            } else if old(cache)@.contains(event_id@) {
                r is None && final(cache)@ == old(cache)@
            } else {
                &&& final(cache)@ == after_arrival(
                    old(cache)@,
                    old(cache).capacity_spec(),
                    event_id@,
                )
                &&& match prompt_of(
                    me@,
                    sender@,
                    match body {
                        Some(b) => Some(b@),
                        None => None,
                    },
                    room_id@,
                    names(allowed_rooms@),
                    names(allowed_users@),
                    named,
                    aliased,
                    members,
                ) {
                    None => r is None,
                    Some(p) => r matches Some(out) && out.0@ == p && out.1@ == room_id@,
                }
            },
        },
{
    let me = match self_user_id {
        Some(m) => chars_of(m),
        None => return None,
    };
    let from = chars_of(sender);
    if eq_chars(&from, &me) {
        return None;
    }
    if cache.check(event_id) {
        return None;
    }
    let text = match body {
        Some(b) => chars_of(b),
        None => return None,
    };
    let room = chars_of(room_id);
    if !listed(allowed_rooms, &room) {
        return None;
    }
    if !listed(allowed_users, &from) {
        return None;
    }
    let direct = !named && !aliased && members <= 2;
    if !(direct || contains_chars(&text, &me)) {
        return None;
    }
    let prompt = trim_chars(&replace_all_chars(&text, &me, &Vec::new()));
    Some((string_of(&prompt), room_id.to_owned()))
}

/// Whether a prompt asks the bot to stop the work queued in the room.
pub fn is_stop_request(prompt: &str) -> (r: bool)
    ensures
        r == (prompt@ == "/stop"@ || prompt@ == "/abort"@),
{
    let p = chars_of(prompt);
    eq_str(&p, "/stop") || eq_str(&p, "/abort")
}

} // verus!
