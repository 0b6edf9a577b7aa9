//! The review session store: stored records of which files an answer referred to, and
//! the short-lived sessions that the viewer reads file snapshots from.
//!
//! Times are seconds on a clock the caller reads; session tokens and record ids are drawn
//! by the caller; files are read, and the records written to disk, by the caller.

use vstd::prelude::*;
use crate::review::{retained, ReviewFile, ReviewSessionRecord, RETENTION_SECS};
use crate::text::{chars_of, eq_chars};
use crate::tokens::{hex_of, new_session_token};

verus! {

/// How long an activated review session stays readable, in seconds (30 minutes).
pub const SESSION_TTL_SECS: u64 = 1800;

/// A readable review session: when it was activated and the file snapshots it serves.
#[derive(Clone, Debug)]
pub struct LiveSession {
    pub created_at_secs: u64,
    pub files: Vec<ReviewFile>,
}

/// The map a list of keyed entries stands for: a later entry for a key wins.
pub open spec fn to_map<V>(s: Seq<(Seq<char>, V)>) -> Map<Seq<char>, V>
    decreases s.len(),
{
    if s.len() == 0 {
        Map::empty()
    } else {
        to_map(s.drop_last()).insert(s.last().0, s.last().1)
    }
}

/// The entries with their keys as text.
pub open spec fn keyed<V>(s: Seq<(String, V)>) -> Seq<(Seq<char>, V)> {
    s.map_values(|p: (String, V)| (p.0@, p.1))
}

/// A record as its time and its paths.
pub type RecordView = (u64, Seq<String>);

/// The view of a record.
pub open spec fn record_view(r: ReviewSessionRecord) -> RecordView {
    (r.created_at_secs, r.file_paths@)
}

/// Stored records with their ids as text and the records as views.
pub open spec fn record_entries(s: Seq<(String, ReviewSessionRecord)>) -> Seq<(Seq<char>, RecordView)> {
    s.map_values(|p: (String, ReviewSessionRecord)| (p.0@, record_view(p.1)))
}

/// No key occurs twice.
pub open spec fn distinct_keys<V>(s: Seq<(Seq<char>, V)>) -> bool {
    forall|i: int, j: int| #![trigger s[i], s[j]] 0 <= i < j < s.len() ==> s[i].0 != s[j].0
}

/// A session activated at `created` can still be read at `now`.
pub open spec fn session_live(now: u64, created: u64) -> bool {
    (if now >= created { now - created } else { 0 }) < SESSION_TTL_SECS
}

/// The sessions still readable at `now`.
pub open spec fn live_entries(s: Seq<(Seq<char>, LiveSession)>, now: u64) -> Seq<(Seq<char>, LiveSession)>
    decreases s.len(),
{
    if s.len() == 0 {
        s
    } else if session_live(now, s.last().1.created_at_secs) {
        live_entries(s.drop_last(), now).push(s.last())
    } else {
        live_entries(s.drop_last(), now)
    }
}

/// The sessions of `m` still readable at `now`.
pub open spec fn prune(m: Map<Seq<char>, LiveSession>, now: u64) -> Map<Seq<char>, LiveSession> {
    Map::new(|k: Seq<char>| m.contains_key(k) && session_live(now, m[k].created_at_secs), |k: Seq<char>| m[k])
}

/// The records of `m` still kept at `now`.
pub open spec fn keep_records(m: Map<Seq<char>, RecordView>, now: u64) -> Map<Seq<char>, RecordView> {
    Map::new(|k: Seq<char>| m.contains_key(k) && retained(now, m[k].0), |k: Seq<char>| m[k])
}

/// The records kept at `now`, in order.
pub open spec fn kept_entries(s: Seq<(Seq<char>, RecordView)>, now: u64) -> Seq<(Seq<char>, RecordView)>
    decreases s.len(),
{
    if s.len() == 0 {
        s
    } else if retained(now, s.last().1.0) {
        kept_entries(s.drop_last(), now).push(s.last())
    } else {
        kept_entries(s.drop_last(), now)
    }
}

/// `m` with the entries of `s` inserted in order.
pub open spec fn insert_all<V>(m: Map<Seq<char>, V>, s: Seq<(Seq<char>, V)>) -> Map<Seq<char>, V>
    decreases s.len(),
{
    if s.len() == 0 {
        m
    } else {
        insert_all(m, s.drop_last()).insert(s.last().0, s.last().1)
    }
}

// ---------------------------------------------------------------------------
// Lemmas on keyed entries
// ---------------------------------------------------------------------------

/// In a list without repeated keys, the map holds each entry's value.
pub proof fn lemma_lookup<V>(s: Seq<(Seq<char>, V)>, i: int)
    requires
        distinct_keys(s),
        0 <= i < s.len(),
    ensures
        to_map(s).contains_key(s[i].0),
        to_map(s)[s[i].0] == s[i].1,
    decreases s.len(),
{
    if i < s.len() - 1 {
        let prev = s.drop_last();
        assert(distinct_keys(prev)) by {
            assert forall|a: int, b: int| #![trigger prev[a], prev[b]] 0 <= a < b < prev.len() implies prev[a].0 != prev[b].0 by {
                assert(prev[a] == s[a] && prev[b] == s[b]);
            }
        }
        lemma_lookup(prev, i);
        assert(prev[i] == s[i]);
        assert(s[i].0 != s[s.len() - 1].0);
    }
}

/// A key no entry holds is not in the map.
pub proof fn lemma_absent<V>(s: Seq<(Seq<char>, V)>, k: Seq<char>)
    requires
        forall|j: int| 0 <= j < s.len() ==> (#[trigger] s[j]).0 != k,
    ensures
        !to_map(s).contains_key(k),
    decreases s.len(),
{
    if s.len() > 0 {
        let prev = s.drop_last();
        assert forall|j: int| 0 <= j < prev.len() implies (#[trigger] prev[j]).0 != k by {
            assert(prev[j] == s[j]);
        }
        lemma_absent(prev, k);
    }
}

/// Keeping the live sessions of a list without repeated keys prunes its map.
pub proof fn lemma_live_entries(s: Seq<(Seq<char>, LiveSession)>, now: u64)
    requires
        distinct_keys(s),
    ensures
        to_map(live_entries(s, now)) == prune(to_map(s), now),
        distinct_keys(live_entries(s, now)),
        forall|j: int| 0 <= j < live_entries(s, now).len() ==> s.contains(#[trigger] live_entries(s, now)[j]),
    decreases s.len(),
{
    if s.len() > 0 {
        let prev = s.drop_last();
        assert(distinct_keys(prev)) by {
            assert forall|a: int, b: int| #![trigger prev[a], prev[b]] 0 <= a < b < prev.len() implies prev[a].0 != prev[b].0 by {
                assert(prev[a] == s[a] && prev[b] == s[b]);
            }
        }
        lemma_live_entries(prev, now);
        let w = live_entries(prev, now);
        let last = s.last();
        assert forall|j: int| 0 <= j < prev.len() implies (#[trigger] prev[j]).0 != last.0 by {
            assert(prev[j] == s[j]);
        }
        lemma_absent(prev, last.0);
        assert forall|j: int| 0 <= j < w.len() implies s.contains(#[trigger] w[j]) by {
            let i = choose|i: int| 0 <= i < prev.len() && prev[i] == w[j];
            assert(s[i] == w[j]);
        }
        if session_live(now, last.1.created_at_secs) {
            let w2 = w.push(last);
            assert(w2.drop_last() =~= w);
            assert(to_map(s) == to_map(prev).insert(last.0, last.1));
            assert(to_map(w2) =~= prune(to_map(s), now));
            assert forall|j: int| 0 <= j < w2.len() implies s.contains(#[trigger] w2[j]) by {
                if j < w.len() {
                    assert(w2[j] == w[j]);
                } else {
                    assert(s[s.len() - 1] == w2[j]);
                }
            }
            assert forall|a: int, b: int| #![trigger w2[a], w2[b]] 0 <= a < b < w2.len() implies w2[a].0 != w2[b].0 by {
                if b == w.len() {
                    let i = choose|i: int| 0 <= i < prev.len() && prev[i] == w[a];
                    assert(w2[a] == w[a]);
                    assert(prev[i].0 != last.0);
                } else {
                    assert(w2[a] == w[a] && w2[b] == w[b]);
                }
            }
        } else {
            assert(to_map(s) == to_map(prev).insert(last.0, last.1));
            assert(to_map(w) =~= prune(to_map(s), now));
        }
    }
}

/// Keeping the retained records of a list without repeated keys filters its map.
pub proof fn lemma_kept_entries(s: Seq<(Seq<char>, RecordView)>, now: u64)
    requires
        distinct_keys(s),
    ensures
        to_map(kept_entries(s, now)) == keep_records(to_map(s), now),
        distinct_keys(kept_entries(s, now)),
    decreases s.len(),
{
    if s.len() > 0 {
        let prev = s.drop_last();
        assert(distinct_keys(prev)) by {
            assert forall|a: int, b: int| #![trigger prev[a], prev[b]] 0 <= a < b < prev.len() implies prev[a].0 != prev[b].0 by {
                assert(prev[a] == s[a] && prev[b] == s[b]);
            }
        }
        lemma_kept_entries(prev, now);
        lemma_kept_subset(prev, now);
        let w = kept_entries(prev, now);
        let last = s.last();
        assert forall|j: int| 0 <= j < prev.len() implies (#[trigger] prev[j]).0 != last.0 by {
            assert(prev[j] == s[j]);
        }
        lemma_absent(prev, last.0);
        if retained(now, last.1.0) {
            let w2 = w.push(last);
            assert(w2.drop_last() =~= w);
            assert(to_map(s) == to_map(prev).insert(last.0, last.1));
            assert(to_map(w2) =~= keep_records(to_map(s), now));
            assert forall|a: int, b: int| #![trigger w2[a], w2[b]] 0 <= a < b < w2.len() implies w2[a].0 != w2[b].0 by {
                if b == w.len() {
                    let i = choose|i: int| 0 <= i < prev.len() && prev[i] == w[a];
                    assert(w2[a] == w[a]);
                    assert(prev[i].0 != last.0);
                } else {
                    assert(w2[a] == w[a] && w2[b] == w[b]);
                }
            }
        } else {
            assert(to_map(s) == to_map(prev).insert(last.0, last.1));
            assert(to_map(w) =~= keep_records(to_map(s), now));
        }
    }
}

proof fn lemma_kept_subset(s: Seq<(Seq<char>, RecordView)>, now: u64)
    ensures
        forall|j: int| 0 <= j < kept_entries(s, now).len() ==> s.contains(#[trigger] kept_entries(s, now)[j]),
    decreases s.len(),
{
    if s.len() > 0 {
        let prev = s.drop_last();
        lemma_kept_subset(prev, now);
        let w = kept_entries(prev, now);
        assert forall|j: int| 0 <= j < kept_entries(s, now).len() implies s.contains(#[trigger] kept_entries(s, now)[j]) by {
            if j < w.len() {
                assert(kept_entries(s, now)[j] == w[j]);
                let i = choose|i: int| 0 <= i < prev.len() && prev[i] == w[j];
                assert(s[i] == w[j]);
            } else {
                assert(s[s.len() - 1] == kept_entries(s, now)[j]);
            }
        }
    }
}

// ---------------------------------------------------------------------------
// Copies with known contents
// ---------------------------------------------------------------------------

fn copy_strings(v: &Vec<String>) -> (r: Vec<String>)
    ensures
        r@ == v@,
{
    let mut r: Vec<String> = Vec::new();
    let mut i: usize = 0;
    while i < v.len()
        invariant
            i <= v@.len(),
            r@ == v@.take(i as int),
        decreases v.len() - i,
    {
        r.push(v[i].clone());
        assert(r@ =~= v@.take(i + 1));
        i = i + 1;
    }
    assert(v@.take(v@.len() as int) == v@);
    r
}

/// A copy of a record.
pub fn copy_record(rec: &ReviewSessionRecord) -> (r: ReviewSessionRecord)
    ensures
        record_view(r) == record_view(*rec),
{
    ReviewSessionRecord { created_at_secs: rec.created_at_secs, file_paths: copy_strings(&rec.file_paths) }
}

/// A copy of a file snapshot.
pub fn copy_file(f: &ReviewFile) -> (r: ReviewFile)
    ensures
        r == *f,
{
    ReviewFile {
        filename: f.filename.clone(),
        path: f.path.clone(),
        content: f.content.clone(),
        size_bytes: f.size_bytes,
        language: f.language.clone(),
        is_binary: f.is_binary,
    }
}

/// A copy of a list of file snapshots.
pub fn copy_files(v: &Vec<ReviewFile>) -> (r: Vec<ReviewFile>)
    ensures
        r@ == v@,
{
    let mut r: Vec<ReviewFile> = Vec::new();
    let mut i: usize = 0;
    while i < v.len()
        invariant
            i <= v@.len(),
            r@ == v@.take(i as int),
        decreases v.len() - i,
    {
        r.push(copy_file(&v[i]));
        assert(r@ =~= v@.take(i + 1));
        i = i + 1;
    }
    assert(v@.take(v@.len() as int) == v@);
    r
}

// ---------------------------------------------------------------------------
// The store
// ---------------------------------------------------------------------------

/// Stored review records and readable sessions, each keyed by a distinct text.
pub struct ReviewStore {
    sessions: Vec<(String, LiveSession)>,
    records: Vec<(String, ReviewSessionRecord)>,
}

impl ReviewStore {
    /// The readable sessions by token.
    pub closed spec fn sessions_view(&self) -> Map<Seq<char>, LiveSession> {
        to_map(keyed(self.sessions@))
    }

    /// The stored records by id.
    pub closed spec fn records_view(&self) -> Map<Seq<char>, RecordView> {
        to_map(record_entries(self.records@))
    }

    /// No token and no record id occurs twice.
    pub closed spec fn wf(&self) -> bool {
        distinct_keys(keyed(self.sessions@)) && distinct_keys(record_entries(self.records@))
    }

    /// An empty store.
    pub fn new() -> (s: Self)
        ensures
            s.wf(),
            s.sessions_view() == Map::<Seq<char>, LiveSession>::empty(),
            s.records_view() == Map::<Seq<char>, RecordView>::empty(),
    {
        let s = ReviewStore { sessions: Vec::new(), records: Vec::new() };
        assert(keyed(s.sessions@) =~= Seq::empty());
        assert(record_entries(s.records@) =~= Seq::empty());
        s
    }

    fn record_position(&self, id: &Vec<char>) -> (r: Option<usize>)
        ensures
            match r {
                Some(i) => i < self.records@.len() && self.records@[i as int].0@ == id@,
                None => forall|j: int| 0 <= j < self.records@.len() ==> (#[trigger] record_entries(self.records@)[j]).0 != id@,
            },
    {
        let mut i: usize = 0;
        while i < self.records.len()
            invariant
                i <= self.records@.len(),
                forall|j: int| 0 <= j < i ==> (#[trigger] record_entries(self.records@)[j]).0 != id@,
            decreases self.records.len() - i,
        {
            if eq_chars(&chars_of(self.records[i].0.as_str()), id) {
                return Some(i);
            }
            i = i + 1;
        }
        None
    }

    fn session_position(&self, token: &Vec<char>) -> (r: Option<usize>)
        ensures
            match r {
                Some(i) => i < self.sessions@.len() && self.sessions@[i as int].0@ == token@,
                None => forall|j: int| 0 <= j < self.sessions@.len() ==> (#[trigger] keyed(self.sessions@)[j]).0 != token@,
            },
    {
        let mut i: usize = 0;
        while i < self.sessions.len()
            invariant
                i <= self.sessions@.len(),
                forall|j: int| 0 <= j < i ==> (#[trigger] keyed(self.sessions@)[j]).0 != token@,
            decreases self.sessions.len() - i,
        {
            if eq_chars(&chars_of(self.sessions[i].0.as_str()), token) {
                return Some(i);
            }
            i = i + 1;
        }
        None
    }

    /// Stores `rec` under `id`, replacing a record stored under the same id.
    fn put_record(&mut self, id: String, rec: ReviewSessionRecord)
        requires
            old(self).wf(),
        ensures
            final(self).wf(),
            final(self).records_view() == old(self).records_view().insert(id@, record_view(rec)),
            final(self).sessions_view() == old(self).sessions_view(),
    {
        let key = chars_of(id.as_str());
        let ghost before = record_entries(self.records@);
        if let Some(i) = self.record_position(&key) {
            self.records.remove(i);
            proof {
                assert(record_entries(self.records@) =~= before.remove(i as int));
                lemma_remove_distinct(before, i as int);
                lemma_lookup(before, i as int);
                lemma_remove_map(before, i as int);
            }
        } else {
            proof {
                lemma_absent(before, id@);
                assert(to_map(before).remove(id@) =~= to_map(before));
            }
        }
        let ghost mid = record_entries(self.records@);
        assert(to_map(mid) == to_map(before).remove(id@));
        assert forall|j: int| 0 <= j < mid.len() implies (#[trigger] mid[j]).0 != id@ by {
            if mid[j].0 == id@ {
                lemma_lookup(mid, j);
            }
        }
        self.records.push((id, rec));
        proof {
            assert(record_entries(self.records@) =~= mid.push((id@, record_view(rec))));
            assert(mid.push((id@, record_view(rec))).drop_last() =~= mid);
            assert(to_map(record_entries(self.records@)) =~= to_map(before).insert(id@, record_view(rec)));
        }
    }

    /// Stores `s` under `token`, replacing a session stored under the same token.
    fn put_session(&mut self, token: String, s: LiveSession)
        requires
            old(self).wf(),
        ensures
            final(self).wf(),
            final(self).sessions_view() == old(self).sessions_view().insert(token@, s),
            final(self).records_view() == old(self).records_view(),
    {
        let key = chars_of(token.as_str());
        let ghost before = keyed(self.sessions@);
        if let Some(i) = self.session_position(&key) {
            self.sessions.remove(i);
            proof {
                assert(keyed(self.sessions@) =~= before.remove(i as int));
                lemma_remove_distinct(before, i as int);
                lemma_lookup(before, i as int);
                lemma_remove_map(before, i as int);
            }
        } else {
            proof {
                lemma_absent(before, token@);
                assert(to_map(before).remove(token@) =~= to_map(before));
            }
        }
        let ghost mid = keyed(self.sessions@);
        assert(to_map(mid) == to_map(before).remove(token@));
        assert forall|j: int| 0 <= j < mid.len() implies (#[trigger] mid[j]).0 != token@ by {
            if mid[j].0 == token@ {
                lemma_lookup(mid, j);
            }
        }
        self.sessions.push((token, s));
        proof {
            assert(keyed(self.sessions@) =~= mid.push((token@, s)));
            assert(mid.push((token@, s)).drop_last() =~= mid);
            assert(to_map(keyed(self.sessions@)) =~= to_map(before).insert(token@, s));
        }
    }

    /// Adds records read back from storage; a loaded record replaces one with the same id.
    pub fn init_storage(&mut self, loaded: Vec<(String, ReviewSessionRecord)>)
        requires
            old(self).wf(),
        ensures
            final(self).wf(),
            final(self).records_view() == insert_all(old(self).records_view(), record_entries(loaded@)),
            final(self).sessions_view() == old(self).sessions_view(),
    {
        let ghost all = record_entries(loaded@);
        let ghost start = self.records_view();
        let mut rest = loaded;
        let mut taken: usize = 0;
        let n = rest.len();
        assert(all.skip(0) =~= all);
        while rest.len() > 0
            invariant
                self.wf(),
                n == all.len(),
                taken <= all.len(),
                record_entries(rest@) == all.skip(taken as int),
                self.records_view() == insert_all(start, all.take(taken as int)),
                self.sessions_view() == old(self).sessions_view(),
            decreases rest.len(),
        {
            let ghost before_rest = record_entries(rest@);
            let ghost old_rest = rest@;
            let (id, rec) = rest.remove(0);
            proof {
                assert(before_rest == all.skip(taken as int));
                assert(before_rest.len() > 0);
                assert(before_rest[0] == all[taken as int]);
                assert forall|j: int| 0 <= j < rest@.len() implies #[trigger] record_entries(rest@)[j] == all.skip(
                    taken + 1,
                )[j] by {
                    assert(rest@[j] == old_rest[j + 1]);
                    assert(before_rest[j + 1] == all.skip(taken as int)[j + 1]);
                }
                assert(record_entries(rest@) =~= all.skip(taken + 1));
                assert(all.take(taken + 1).drop_last() =~= all.take(taken as int));
            }
            self.put_record(id, rec);
            taken = taken + 1;
        }
        assert(all.take(taken as int) =~= all);
    }

    /// Records a review of the files `valid_paths` (already checked to exist) under
    /// `session_id` at time `now_secs`; returns the id and the number of files, or `None`
    /// when there is no file.
    pub fn register_session(&mut self, valid_paths: Vec<String>, session_id: String, now_secs: u64) -> (r: Option<(String, usize)>)
        requires
            old(self).wf(),
        ensures
            final(self).wf(),
            final(self).sessions_view() == old(self).sessions_view(),
            valid_paths@.len() == 0 ==> r is None && final(self).records_view() == old(self).records_view(),
            valid_paths@.len() > 0 ==> {
                &&& r matches Some(out) && out.0 == session_id && out.1 == valid_paths@.len()
                &&& final(self).records_view() == old(self).records_view().insert(
                    session_id@,
                    (now_secs, valid_paths@),
                )
            },
    {
        if valid_paths.len() == 0 {
            return None;
        }
        let count = valid_paths.len();
        let record = ReviewSessionRecord { created_at_secs: now_secs, file_paths: valid_paths };
        self.put_record(session_id.clone(), record);
        Some((session_id, count))
    }

    /// Records a review of the files `valid_paths` under a fresh random id; see
    /// `register_session`.
    pub fn register_new_session(&mut self, valid_paths: Vec<String>, now_secs: u64) -> (r: Option<(String, usize)>)
        requires
            old(self).wf(),
        ensures
            final(self).wf(),
            final(self).sessions_view() == old(self).sessions_view(),
            valid_paths@.len() == 0 ==> r is None && final(self).records_view() == old(self).records_view(),
            valid_paths@.len() > 0 ==> {
                &&& r matches Some(out) && out.1 == valid_paths@.len() && (exists|bytes: Seq<u8>|
                    bytes.len() == 16 && out.0@ == hex_of(bytes))
                &&& final(self).records_view() == old(self).records_view().insert(
                    r->Some_0.0@,
                    (now_secs, valid_paths@),
                )
            },
    {
        if valid_paths.len() == 0 {
            return None;
        }
        let id = new_session_token();
        self.register_session(valid_paths, id, now_secs)
    }

    /// Opens a readable session serving `files` under a fresh random token; see
    /// `activate_session`.
    pub fn activate_new_session(&mut self, files: Vec<ReviewFile>, now_secs: u64) -> (r: Option<String>)
        requires
            old(self).wf(),
        ensures
            final(self).wf(),
            final(self).records_view() == old(self).records_view(),
            files@.len() == 0 ==> r is None && final(self).sessions_view() == old(self).sessions_view(),
            files@.len() > 0 ==> {
                &&& r matches Some(t) && (exists|bytes: Seq<u8>| bytes.len() == 16 && t@ == hex_of(bytes))
                &&& final(self).sessions_view() == prune(old(self).sessions_view(), now_secs).insert(
                    r->Some_0@,
                    LiveSession { created_at_secs: now_secs, files },
                )
            },
    {
        if files.len() == 0 {
            return None;
        }
        let token = new_session_token();
        self.activate_session(files, token, now_secs)
    }

    /// The record stored under `session_id`.
    pub fn get_session_record(&self, session_id: &str) -> (r: Option<ReviewSessionRecord>)
        requires
            self.wf(),
        ensures
            r is Some <==> self.records_view().contains_key(session_id@),
            r matches Some(rec) ==> record_view(rec) == self.records_view()[session_id@],
    {
        let key = chars_of(session_id);
        match self.record_position(&key) {
            Some(i) => {
                proof {
                    lemma_lookup(record_entries(self.records@), i as int);
                }
                Some(copy_record(&self.records[i].1))
            },
            None => {
                proof {
                    lemma_absent(record_entries(self.records@), session_id@);
                }
                None
            },
        }
    }

    /// Drops the sessions no longer readable at `now_secs`.
    fn prune_sessions(&mut self, now_secs: u64)
        requires
            old(self).wf(),
        ensures
            final(self).wf(),
            final(self).sessions_view() == prune(old(self).sessions_view(), now_secs),
            final(self).records_view() == old(self).records_view(),
    {
        let ghost before = keyed(self.sessions@);
        let mut kept: Vec<(String, LiveSession)> = Vec::new();
        let mut rest: Vec<(String, LiveSession)> = Vec::new();
        std::mem::swap(&mut rest, &mut self.sessions);
        let mut taken: usize = 0;
        let n = rest.len();
        assert(before.take(0) =~= Seq::<(Seq<char>, LiveSession)>::empty());
        assert(before.skip(0) =~= before);
        while rest.len() > 0
            invariant
                n == before.len(),
                taken <= before.len(),
                keyed(rest@) == before.skip(taken as int),
                keyed(kept@) == live_entries(before.take(taken as int), now_secs),
            decreases rest.len(),
        {
            let ghost before_rest = keyed(rest@);
            let ghost old_rest = rest@;
            let (token, s) = rest.remove(0);
            proof {
                assert(before_rest == before.skip(taken as int));
                assert(before_rest.len() > 0);
                assert(before_rest[0] == before[taken as int]);
                assert forall|j: int| 0 <= j < rest@.len() implies #[trigger] keyed(rest@)[j] == before.skip(
                    taken + 1,
                )[j] by {
                    assert(rest@[j] == old_rest[j + 1]);
                    assert(before_rest[j + 1] == before.skip(taken as int)[j + 1]);
                }
                assert(keyed(rest@) =~= before.skip(taken + 1));
                assert(before.take(taken + 1).drop_last() =~= before.take(taken as int));
            }
            let live = if now_secs >= s.created_at_secs {
                now_secs - s.created_at_secs < SESSION_TTL_SECS
            } else {
                0 < SESSION_TTL_SECS
            };
            let ghost k = kept@;
            if live {
                kept.push((token, s));
                assert(keyed(kept@) =~= keyed(k).push(before[taken as int]));
            }
            taken = taken + 1;
        }
        assert(before.take(taken as int) =~= before);
        self.sessions = kept;
        proof {
            lemma_live_entries(before, now_secs);
        }
    }

    /// Opens a readable session `token` serving `files` at time `now_secs`, dropping the
    /// sessions that have expired; `None` when there is no file.
    pub fn activate_session(&mut self, files: Vec<ReviewFile>, token: String, now_secs: u64) -> (r: Option<String>)
        requires
            old(self).wf(),
        ensures
            final(self).wf(),
            final(self).records_view() == old(self).records_view(),
            files@.len() == 0 ==> r is None && final(self).sessions_view() == old(self).sessions_view(),
            files@.len() > 0 ==> {
                &&& r == Some(token)
                &&& final(self).sessions_view() == prune(old(self).sessions_view(), now_secs).insert(
                    token@,
                    LiveSession { created_at_secs: now_secs, files },
                )
            },
    {
        if files.len() == 0 {
            return None;
        }
        self.prune_sessions(now_secs);
        self.put_session(token.clone(), LiveSession { created_at_secs: now_secs, files });
        Some(token)
    }

    /// The files of the session `token` if it is readable at `now_secs`, after dropping
    /// the sessions that have expired.
    pub fn live_files(&mut self, token: &str, now_secs: u64) -> (r: Option<Vec<ReviewFile>>)
        requires
            old(self).wf(),
        ensures
            final(self).wf(),
            final(self).records_view() == old(self).records_view(),
            final(self).sessions_view() == prune(old(self).sessions_view(), now_secs),
            r is Some <==> final(self).sessions_view().contains_key(token@),
            r matches Some(fs) ==> fs@ == final(self).sessions_view()[token@].files@,
    {
        self.prune_sessions(now_secs);
        let key = chars_of(token);
        match self.session_position(&key) {
            Some(i) => {
                proof {
                    lemma_lookup(keyed(self.sessions@), i as int);
                }
                Some(copy_files(&self.sessions[i].1.files))
            },
            None => {
                proof {
                    lemma_absent(keyed(self.sessions@), token@);
                }
                None
            },
        }
    }

    /// The records to write to storage at `now_secs`: those still kept, with their ids.
    pub fn records_to_save(&self, now_secs: u64) -> (r: Vec<(String, ReviewSessionRecord)>)
        requires
            self.wf(),
        ensures
            distinct_keys(record_entries(r@)),
            to_map(record_entries(r@)) == keep_records(self.records_view(), now_secs),
    {
        retained_records(&self.records, now_secs)
    }
}

/// The records still kept at `now_secs`, in order.
pub fn retained_records(records: &Vec<(String, ReviewSessionRecord)>, now_secs: u64) -> (r: Vec<(String, ReviewSessionRecord)>)
    ensures
        record_entries(r@) == kept_entries(record_entries(records@), now_secs),
        distinct_keys(record_entries(records@)) ==> distinct_keys(record_entries(r@)) && to_map(record_entries(r@)) == keep_records(
            to_map(record_entries(records@)),
            now_secs,
        ),
{
    let ghost all = record_entries(records@);
    let mut out: Vec<(String, ReviewSessionRecord)> = Vec::new();
    let mut i: usize = 0;
    while i < records.len()
        invariant
            i <= records@.len(),
            all == record_entries(records@),
            record_entries(out@) == kept_entries(all.take(i as int), now_secs),
        decreases records.len() - i,
    {
        assert(all.take(i + 1).drop_last() =~= all.take(i as int));
        let created = records[i].1.created_at_secs;
        if now_secs.saturating_sub(created) < RETENTION_SECS {
            let ghost k = out@;
            out.push((records[i].0.clone(), copy_record(&records[i].1)));
            assert(record_entries(out@) =~= record_entries(k).push(all[i as int]));
        }
        i = i + 1;
    }
    assert(all.take(records@.len() as int) =~= all);
    proof {
        if distinct_keys(all) {
            lemma_kept_entries(all, now_secs);
        }
    }
    out
}

/// Removing entry `i` of a list without repeated keys keeps the keys distinct.
proof fn lemma_remove_distinct<V>(s: Seq<(Seq<char>, V)>, i: int)
    requires
        distinct_keys(s),
        0 <= i < s.len(),
    ensures
        distinct_keys(s.remove(i)),
{
    let t = s.remove(i);
    assert forall|a: int, b: int| #![trigger t[a], t[b]] 0 <= a < b < t.len() implies t[a].0 != t[b].0 by {
        let a2 = if a < i { a } else { a + 1 };
        let b2 = if b < i { b } else { b + 1 };
        assert(t[a] == s[a2] && t[b] == s[b2]);
    }
}

/// Removing entry `i` of a list without repeated keys removes its key from the map.
proof fn lemma_remove_map<V>(s: Seq<(Seq<char>, V)>, i: int)
    requires
        distinct_keys(s),
        0 <= i < s.len(),
    ensures
        to_map(s.remove(i)) == to_map(s).remove(s[i].0),
    decreases s.len(),
{
    let k = s[i].0;
    if i == s.len() - 1 {
        assert(s.remove(i) =~= s.drop_last());
        let prev = s.drop_last();
        assert forall|j: int| 0 <= j < prev.len() implies (#[trigger] prev[j]).0 != k by {
            assert(prev[j] == s[j]);
        }
        lemma_absent(prev, k);
        assert(to_map(prev) =~= to_map(s).remove(k));
    } else {
        let prev = s.drop_last();
        assert(distinct_keys(prev)) by {
            assert forall|a: int, b: int| #![trigger prev[a], prev[b]] 0 <= a < b < prev.len() implies prev[a].0 != prev[b].0 by {
                assert(prev[a] == s[a] && prev[b] == s[b]);
            }
        }
        lemma_remove_map(prev, i);
        assert(prev[i] == s[i]);
        assert(s.remove(i) =~= prev.remove(i).push(s.last()));
        assert(prev.remove(i).push(s.last()).drop_last() =~= prev.remove(i));
        assert(to_map(s) == to_map(prev).insert(s.last().0, s.last().1));
        assert(s.last().0 != k);
        assert(to_map(s.remove(i)) =~= to_map(s).remove(k));
    }
}

/// A record stored by `register_session` is what `get_session_record` gives back for its
/// id until another record is stored under that id.
pub proof fn lemma_read_after_register(
    records: Map<Seq<char>, RecordView>,
    id: Seq<char>,
    rec: RecordView,
)
    ensures
        records.insert(id, rec).contains_key(id),
        records.insert(id, rec)[id] == rec,
        forall|other: Seq<char>| other != id ==> #[trigger] records.insert(id, rec).contains_key(other)
            == records.contains_key(other),
{
}

/// A session opened at `created` serves its files to every read before it expires, and
/// to none after.
pub proof fn lemma_activated_session_is_live(
    sessions: Map<Seq<char>, LiveSession>,
    token: Seq<char>,
    created: u64,
    files: Vec<ReviewFile>,
    now: u64,
)
    ensures
        session_live(now, created) ==> prune(
            sessions.insert(token, LiveSession { created_at_secs: created, files }),
            now,
        ).contains_key(token) && prune(
            sessions.insert(token, LiveSession { created_at_secs: created, files }),
            now,
        )[token].files == files,
        !session_live(now, created) ==> !prune(
            sessions.insert(token, LiveSession { created_at_secs: created, files }),
            now,
        ).contains_key(token),
{
}

/// After a read at `now`, no remaining session has expired.
pub proof fn lemma_pruned_sessions_are_live(sessions: Map<Seq<char>, LiveSession>, now: u64, token: Seq<char>)
    requires
        prune(sessions, now).contains_key(token),
    ensures
        session_live(now, prune(sessions, now)[token].created_at_secs),
{
}


/// Adding entries one by one to an empty map gives the map they describe.
proof fn lemma_insert_all_empty<V>(s: Seq<(Seq<char>, V)>)
    ensures
        insert_all(Map::empty(), s) == to_map(s),
    decreases s.len(),
{
    if s.len() > 0 {
        lemma_insert_all_empty(s.drop_last());
    }
}

/// Records written to storage and read back into an empty store are the records that were
/// kept: loading the entries that `records_to_save` hands out at `now` gives the store's
/// records still retained at `now`.
pub proof fn lemma_saved_records_load_back(
    records: Map<Seq<char>, RecordView>,
    now: u64,
    saved: Seq<(String, ReviewSessionRecord)>,
)
    requires
        to_map(record_entries(saved)) == keep_records(records, now),
    ensures
        insert_all(Map::empty(), record_entries(saved)) == keep_records(records, now),
{
    lemma_insert_all_empty(record_entries(saved));
}

} // verus!
