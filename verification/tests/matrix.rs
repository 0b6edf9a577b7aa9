use sha2::Digest;
use std::collections::HashSet;
use tuner::dedupe::DedupeCache;
use tuner::id_map::MatrixIdMap;
use tuner::matrix_bot::{is_stop_request, validate_message};
use tuner::matrix_login::{credentials_of, next_login_step, LoginStep};
use tuner::matrix_transport::sanitize_cron_result_text;

/// A map that went through a save and a load: its entries written out and read back in.
fn reloaded(m: &MatrixIdMap) -> MatrixIdMap {
    let mut fresh = MatrixIdMap::new();
    for (room, id) in m.entries() {
        assert!(fresh.insert_loaded(&room, id));
    }
    fresh
}

#[test]
fn test_room_to_int_deterministic() {
    let mut m = MatrixIdMap::new();
    let a = m.room_to_int("!abc:server");
    let b = m.room_to_int("!abc:server");
    assert_eq!(a, b);
}

#[test]
fn test_different_rooms_different_ids() {
    let mut m = MatrixIdMap::new();
    let a = m.room_to_int("!room1:server");
    let b = m.room_to_int("!room2:server");
    assert_ne!(a, b);
}

#[test]
fn test_int_to_room_roundtrip() {
    let mut m = MatrixIdMap::new();
    let int_id = m.room_to_int("!test:example.com");
    assert_eq!(m.int_to_room(int_id), Some("!test:example.com".to_string()));
}

#[test]
fn test_int_to_room_unknown() {
    let m = MatrixIdMap::new();
    assert_eq!(m.int_to_room(999999), None);
}

#[test]
fn test_persistence_across_instances() {
    let mut m1 = MatrixIdMap::new();
    let int_id = m1.room_to_int("!persist:server");

    let mut m2 = reloaded(&m1);
    assert_eq!(m2.room_to_int("!persist:server"), int_id);
    assert_eq!(m2.int_to_room(int_id), Some("!persist:server".to_string()));
}

#[test]
fn test_multiple_rooms_all_unique() {
    let mut m = MatrixIdMap::new();
    let mut ids = HashSet::new();
    for i in 0..50 {
        ids.insert(m.room_to_int(&format!("!room{}:server", i)));
    }
    assert_eq!(ids.len(), 50);
}

#[test]
fn id_map_first_id_is_sha256_prefix() {
    // The first eight bytes of SHA-256("!abc:server"), read big-endian, as i64.
    let digest = <sha2::Sha256 as Digest>::digest(b"!abc:server");
    let mut first = [0u8; 8];
    first.copy_from_slice(&digest[0..8]);
    let expected = u64::from_be_bytes(first) as i64;
    let mut m = MatrixIdMap::new();
    assert_eq!(m.room_to_int("!abc:server"), expected);
    assert_eq!(m.get_int("!abc:server"), Some(expected));
    assert_eq!(m.get_int("!other:server"), None);
}

#[test]
fn id_map_loaded_entries_keep_ids_and_refuse_clashes() {
    let mut m = MatrixIdMap::new();
    assert!(m.insert_loaded("!a:s", 7));
    assert!(!m.insert_loaded("!b:s", 7));
    assert!(!m.insert_loaded("!a:s", 8));
    assert_eq!(m.room_to_int("!a:s"), 7);
    assert_eq!(m.int_to_room(7), Some("!a:s".to_string()));
    assert_eq!(m.entries(), vec![("!a:s".to_string(), 7)]);
}

#[test]
fn test_first_event_is_not_duplicate() {
    let mut q = DedupeCache::new(1000);
    assert!(!q.check("$event1"));
}

#[test]
fn test_same_event_id_is_duplicate() {
    let mut q = DedupeCache::new(1000);
    q.check("$event1");
    assert!(q.check("$event1"));
}

#[test]
fn test_different_event_ids_are_not_duplicates() {
    let mut q = DedupeCache::new(1000);
    q.check("$event1");
    assert!(!q.check("$event2"));
}

#[test]
fn dedupe_forgets_the_oldest_beyond_capacity() {
    let mut q = DedupeCache::new(2);
    assert!(!q.check("a"));
    assert!(!q.check("b"));
    assert!(!q.check("c"));
    // "a" was forgotten when "c" arrived, so it counts as new (and evicts "b").
    assert!(!q.check("a"));
    assert!(q.check("c"));
    assert!(!q.check("b"));
}

#[test]
fn dedupe_with_zero_capacity_remembers_nothing() {
    let mut q = DedupeCache::new(0);
    assert!(!q.check("x"));
    assert!(!q.check("x"));
}

#[test]
fn test_sanitize_cron_result() {
    let input = "delivered to telegram: message sent successfully\nActual cron result line";
    assert_eq!(sanitize_cron_result_text(input), "Actual cron result line");
}

fn rooms() -> Vec<String> {
    vec!["!room:srv".to_string()]
}

fn users() -> Vec<String> {
    vec!["@alice:srv".to_string()]
}

#[test]
fn matrix_message_in_direct_chat_is_answered() {
    let mut cache = DedupeCache::new(10);
    let r = validate_message(
        &mut cache, Some("@bot:srv"), "@alice:srv", "$1", Some("  hello  "), "!room:srv",
        &rooms(), &users(), false, false, 2,
    );
    assert_eq!(r, Some(("hello".to_string(), "!room:srv".to_string())));
}

#[test]
fn matrix_mention_is_removed_from_prompt() {
    let mut cache = DedupeCache::new(10);
    let r = validate_message(
        &mut cache, Some("@bot:srv"), "@alice:srv", "$1", Some("@bot:srv do it @bot:srv"), "!room:srv",
        &rooms(), &users(), true, false, 5,
    );
    assert_eq!(r, Some(("do it".to_string(), "!room:srv".to_string())));
}

#[test]
fn matrix_group_message_without_mention_is_ignored() {
    let mut cache = DedupeCache::new(10);
    let r = validate_message(
        &mut cache, Some("@bot:srv"), "@alice:srv", "$1", Some("hello all"), "!room:srv",
        &rooms(), &users(), true, false, 5,
    );
    assert_eq!(r, None);
}

#[test]
fn matrix_own_messages_and_repeats_are_dropped() {
    let mut cache = DedupeCache::new(10);
    let own = validate_message(
        &mut cache, Some("@bot:srv"), "@bot:srv", "$1", Some("hi"), "!room:srv", &rooms(), &users(),
        false, false, 2,
    );
    assert_eq!(own, None);
    // The bot's own event was not recorded, so a first delivery of "$1" is answered.
    let first = validate_message(
        &mut cache, Some("@bot:srv"), "@alice:srv", "$1", Some("hi"), "!room:srv", &rooms(), &users(),
        false, false, 2,
    );
    assert!(first.is_some());
    let again = validate_message(
        &mut cache, Some("@bot:srv"), "@alice:srv", "$1", Some("hi"), "!room:srv", &rooms(), &users(),
        false, false, 2,
    );
    assert_eq!(again, None);
}

#[test]
fn matrix_unlisted_room_or_user_or_non_text_is_ignored() {
    let mut cache = DedupeCache::new(10);
    let other_room = validate_message(
        &mut cache, Some("@bot:srv"), "@alice:srv", "$1", Some("hi"), "!other:srv", &rooms(), &users(),
        false, false, 2,
    );
    assert_eq!(other_room, None);
    let other_user = validate_message(
        &mut cache, Some("@bot:srv"), "@mallory:srv", "$2", Some("hi"), "!room:srv", &rooms(), &users(),
        false, false, 2,
    );
    assert_eq!(other_user, None);
    let image = validate_message(
        &mut cache, Some("@bot:srv"), "@alice:srv", "$3", None, "!room:srv", &rooms(), &users(), false,
        false, 2,
    );
    assert_eq!(image, None);
    let unknown_self = validate_message(
        &mut cache, None, "@alice:srv", "$4", Some("hi"), "!room:srv", &rooms(), &users(), false, false, 2,
    );
    assert_eq!(unknown_self, None);
}

#[test]
fn matrix_stop_requests() {
    assert!(is_stop_request("/stop"));
    assert!(is_stop_request("/abort"));
    assert!(!is_stop_request("/stop now"));
    assert!(!is_stop_request("stop"));
}

#[test]
fn matrix_login_order() {
    assert_eq!(next_login_step(0, Some("t"), Some("d"), Some("p")), LoginStep::RestoreSaved);
    assert_eq!(
        next_login_step(1, Some("t"), Some("d"), Some("p")),
        LoginStep::RestoreConfigured { access_token: "t".to_string(), device_id: "d".to_string() }
    );
    assert_eq!(next_login_step(1, Some("t"), None, Some("p")), LoginStep::PasswordLogin("p".to_string()));
    assert_eq!(next_login_step(2, Some("t"), Some("d"), Some("p")), LoginStep::PasswordLogin("p".to_string()));
    assert_eq!(
        next_login_step(2, None, None, None),
        LoginStep::Fail("Matrix AUTH FAILED: No access_token, device_id, or password configured.".to_string())
    );
}

#[test]
fn matrix_credentials_hold_their_fields() {
    let c = credentials_of("@user:localhost", "DEV1", "TOKEN1");
    assert_eq!(c.user_id, "@user:localhost");
    assert_eq!(c.device_id, "DEV1");
    assert_eq!(c.access_token, "TOKEN1");
}

#[test]
fn saved_entries_load_back() {
    let mut m = MatrixIdMap::new();
    let a = m.room_to_int("!a:server");
    let b = m.room_to_int("!b:server");
    let mut fresh = MatrixIdMap::new();
    fresh.load_entries(&m.entries());
    assert_eq!(fresh.get_int("!a:server"), Some(a));
    assert_eq!(fresh.get_int("!b:server"), Some(b));
    assert_eq!(fresh.int_to_room(b), Some("!b:server".to_string()));
    let mut clash = MatrixIdMap::new();
    clash.load_entries(&vec![("!x:s".to_string(), 5), ("!y:s".to_string(), 5), ("!x:s".to_string(), 6)]);
    assert_eq!(clash.entries(), vec![("!x:s".to_string(), 5)]);
}
