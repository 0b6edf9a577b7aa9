//! The conversation history kept beside each agent session: which messages are logged,
//! what a logged entry holds, and which sessions belong to a forum topic.
//!
//! Timestamps are read, and entries written as JSON lines, by the caller.

use vstd::prelude::*;
use crate::handover::{TelegramHistoryEntry, TopicMetadata};

verus! {

/// Messages are logged only for a known session.
pub fn should_log(session_id: &str) -> (r: bool)
    ensures
        r == (session_id@.len() > 0),
{
    !session_id.is_empty()
}

/// Topic metadata is written once, when the session has none yet and the message belongs
/// to a topic.
pub fn needs_topic_metadata(metadata_exists: bool, topic_id: Option<i64>, topic_name: Option<&str>) -> (r: bool)
    ensures
        r == (!metadata_exists && (topic_id is Some || topic_name is Some)),
{
    !metadata_exists && (topic_id.is_some() || topic_name.is_some())
}

fn owned(s: Option<&str>) -> (r: Option<String>)
    ensures
        r is None <==> s is None,
        r matches Some(x) ==> x@ == s->Some_0@,
{
    match s {
        Some(x) => Some(x.to_owned()),
        None => None,
    }
}

/// The metadata written for a session's topic.
pub fn topic_metadata(session_id: &str, topic_id: Option<i64>, topic_name: Option<&str>, created_at: String) -> (m: TopicMetadata)
    ensures
        m.session_id@ == session_id@,
        m.topic_id == topic_id,
        m.topic_name is None <==> topic_name is None,
        m.topic_name matches Some(n) ==> n@ == topic_name->Some_0@,
        m.created_at == created_at,
{
    TopicMetadata { session_id: session_id.to_owned(), topic_id, topic_name: owned(topic_name), created_at }
}

/// The entry logged for one message.
pub fn history_entry(
    timestamp: String,
    topic_id: Option<i64>,
    topic_name: Option<&str>,
    sender: &str,
    message_id: Option<i32>,
    text: &str,
    is_success: bool,
    error: Option<&str>,
) -> (e: TelegramHistoryEntry)
    ensures
        e.timestamp == timestamp,
        e.topic_id == topic_id,
        e.topic_name is None <==> topic_name is None,
        e.topic_name matches Some(n) ==> n@ == topic_name->Some_0@,
        e.sender@ == sender@,
        e.message_id == message_id,
        e.text@ == text@,
        e.is_success == is_success,
        e.error is None <==> error is None,
        e.error matches Some(x) ==> x@ == error->Some_0@,
{
    TelegramHistoryEntry {
        timestamp,
        topic_id,
        topic_name: owned(topic_name),
        sender: sender.to_owned(),
        message_id,
        text: text.to_owned(),
        is_success,
        error: owned(error),
    }
}

/// The names of the session directories whose metadata names `topic_id`, in order.
pub open spec fn sessions_of_topic(dirs: Seq<(String, TopicMetadata)>, topic_id: i64) -> Seq<Seq<char>>
    decreases dirs.len(),
{
    if dirs.len() == 0 {
        Seq::empty()
    } else {
        let prior = sessions_of_topic(dirs.drop_last(), topic_id);
        if dirs.last().1.topic_id == Some(topic_id) {
            prior.push(dirs.last().0@)
        } else {
            prior
        }
    }
}

/// The sessions of a topic, from the session directories and the metadata read in them.
pub fn find_sessions_for_topic(dirs: &Vec<(String, TopicMetadata)>, topic_id: i64) -> (r: Vec<String>)
    ensures
        r@.map_values(|s: String| s@) == sessions_of_topic(dirs@, topic_id),
{
    let mut out: Vec<String> = Vec::new();
    let mut i: usize = 0;
    while i < dirs.len()
        invariant
            i <= dirs@.len(),
            out@.map_values(|s: String| s@) == sessions_of_topic(dirs@.take(i as int), topic_id),
        decreases dirs.len() - i,
    {
        assert(dirs@.take(i + 1).drop_last() =~= dirs@.take(i as int));
        if dirs[i].1.topic_id == Some(topic_id) {
            out.push(dirs[i].0.clone());
        }
        assert(out@.map_values(|s: String| s@) =~= sessions_of_topic(dirs@.take(i + 1), topic_id));
        i = i + 1;
    }
    assert(dirs@.take(dirs@.len() as int) =~= dirs@);
    out
}

} // verus!
