//! Bidirectional mapping between Matrix room ids and the integer chat ids used elsewhere.
//!
//! A room's id is the first eight bytes of the SHA-256 digest of its name, read big-endian.
//! When that id is already taken by another room, the digest of `"{room}:{id}"` is tried
//! next; the mapping stays one-to-one.

use vstd::prelude::*;
use sha2::Digest;
use crate::text::{append, append_str, chars_of, decimal_i64, decimal_int, eq_chars, string_of};

verus! {

/// The SHA-256 digest of the UTF-8 encoding of `text`.
pub uninterp spec fn sha256_digest(text: Seq<char>) -> Seq<u8>;

/// Wraps `sha2::Sha256::digest` over the bytes of `text`; the digest has 32 bytes.
#[verifier::external_body]
fn sha256_of(text: &str) -> (r: Vec<u8>)
    ensures
        r@ == sha256_digest(text@),
        r@.len() == 32,
{
    sha2::Sha256::digest(text.as_bytes()).to_vec()
}

/// The unsigned big-endian value of the first eight bytes of `b`.
pub open spec fn be_u64(b: Seq<u8>) -> u64 {
    (b[0] as int * 0x100000000000000 + b[1] as int * 0x1000000000000 + b[2] as int * 0x10000000000
        + b[3] as int * 0x100000000 + b[4] as int * 0x1000000 + b[5] as int * 0x10000 + b[6] as int
        * 0x100 + b[7] as int) as u64
}

/// The id first tried for a room.
pub open spec fn first_hash(room: Seq<char>) -> i64 {
    be_u64(sha256_digest(room)) as i64
}

/// The id tried for a room after `h` was found taken.
pub open spec fn next_hash(room: Seq<char>, h: i64) -> i64 {
    be_u64(sha256_digest(room + ":"@ + decimal_int(h as int))) as i64
}

/// Follows the chain of hashes from `h` until a free id, giving up after `fuel` steps.
pub open spec fn hash_chain(room: Seq<char>, taken: Set<i64>, h: i64, fuel: nat) -> Option<i64>
    decreases fuel,
{
    if !taken.contains(h) {
        Some(h)
    } else if fuel == 0 {
        None
    } else {
        hash_chain(room, taken, next_hash(room, h), (fuel - 1) as nat)
    }
}

/// The least id from `k` upward that is not taken, looking at most `fuel` steps ahead.
pub open spec fn free_from(taken: Set<i64>, k: int, fuel: nat) -> int
    decreases fuel,
{
    if !taken.contains(k as i64) || fuel == 0 {
        k
    } else {
        free_from(taken, k + 1, (fuel - 1) as nat)
    }
}

/// The id a new room receives when `taken` holds the `n` ids in use: the first free id of
/// its hash chain within `n + 1` tries, or else the least free non-negative id.
pub open spec fn assigned_id(room: Seq<char>, taken: Set<i64>, n: nat) -> i64 {
    match hash_chain(room, taken, first_hash(room), n) {
        Some(h) => h,
        None => free_from(taken, 0, n) as i64,
    }
}

/// The map that a list of (room, id) pairs describes.
pub open spec fn map_of(ps: Seq<(Seq<char>, i64)>) -> Map<Seq<char>, i64>
    decreases ps.len(),
{
    if ps.len() == 0 {
        Map::empty()
    } else {
        map_of(ps.drop_last()).insert(ps.last().0, ps.last().1)
    }
}

/// No room and no id occurs twice.
pub open spec fn distinct_pairs(ps: Seq<(Seq<char>, i64)>) -> bool {
    forall|i: int, j: int|
        #![trigger ps[i], ps[j]]
        0 <= i < j < ps.len() ==> ps[i].0 != ps[j].0 && ps[i].1 != ps[j].1
}

/// Stored (room, id) entries as plain values.
pub open spec fn pairs_of(entries: Seq<(String, i64)>) -> Seq<(Seq<char>, i64)> {
    entries.map_values(|e: (String, i64)| (e.0@, e.1))
}

/// The mapping after adding pairs read back from storage to `start`, in order: a pair whose
/// room or id is already present is skipped.
pub open spec fn load_pairs_onto(start: Map<Seq<char>, i64>, ps: Seq<(Seq<char>, i64)>) -> Map<Seq<char>, i64>
    decreases ps.len(),
{
    if ps.len() == 0 {
        start
    } else {
        let prev = load_pairs_onto(start, ps.drop_last());
        let (room, id) = ps.last();
        if !prev.contains_key(room) && !prev.contains_value(id) {
            prev.insert(room, id)
        } else {
            prev
        }
    }
}

/// Bidirectional room id to integer id mapping with collision detection.
pub struct MatrixIdMap {
    entries: Vec<(String, i64)>,
}

impl View for MatrixIdMap {
    type V = Map<Seq<char>, i64>;

    closed spec fn view(&self) -> Map<Seq<char>, i64> {
        map_of(self.pairs())
    }
}

impl MatrixIdMap {
    /// The stored (room, id) pairs, in insertion order.
    pub closed spec fn pairs(&self) -> Seq<(Seq<char>, i64)> {
        self.entries@.map_values(|e: (String, i64)| (e.0@, e.1))
    }

    /// The mapping is one-to-one.
    pub closed spec fn wf(&self) -> bool {
        distinct_pairs(self.pairs())
    }

    /// Creates an empty mapping.
    pub fn new() -> (m: Self)
        ensures
            m.wf(),
            m@ == Map::<Seq<char>, i64>::empty(),
    {
        MatrixIdMap { entries: Vec::new() }
    }

    /// Position of the entry for `room`.
    fn room_index(&self, room: &Vec<char>) -> (r: Option<usize>)
        ensures
            r matches Some(i) ==> i < self.pairs().len() && self.pairs()[i as int].0 == room@,
            r is None ==> forall|j: int| 0 <= j < self.pairs().len() ==> self.pairs()[j].0 != room@,
    {
        let mut i: usize = 0;
        while i < self.entries.len()
            invariant
                i <= self.entries@.len(),
                forall|j: int| 0 <= j < i ==> self.pairs()[j].0 != room@,
            decreases self.entries.len() - i,
        {
            let name = chars_of(self.entries[i].0.as_str());
            if eq_chars(&name, room) {
                return Some(i);
            }
            i = i + 1;
        }
        None
    }

    /// Position of the entry holding `id`.
    fn id_index(&self, id: i64) -> (r: Option<usize>)
        ensures
            r matches Some(i) ==> i < self.pairs().len() && self.pairs()[i as int].1 == id,
            r is None ==> forall|j: int| 0 <= j < self.pairs().len() ==> self.pairs()[j].1 != id,
    {
        let mut i: usize = 0;
        while i < self.entries.len()
            invariant
                i <= self.entries@.len(),
                forall|j: int| 0 <= j < i ==> self.pairs()[j].1 != id,
            decreases self.entries.len() - i,
        {
            if self.entries[i].1 == id {
                return Some(i);
            }
            i = i + 1;
        }
        None
    }

    /// Retrieves the room id for a given integer chat id.
    pub fn int_to_room(&self, chat_id: i64) -> (r: Option<String>)
        requires
            self.wf(),
        ensures
            r matches Some(room) ==> self@.contains_key(room@) && self@[room@] == chat_id,
            r is None ==> !self@.contains_value(chat_id),
    {
        proof {
            lemma_map_of_values(self.pairs());
        }
        match self.id_index(chat_id) {
            Some(i) => {
                proof {
                    lemma_map_of_lookup(self.pairs(), i as int);
                }
                Some(self.entries[i].0.clone())
            },
            None => None,
        }
    }

    /// The id already assigned to `room_id`, if any.
    pub fn get_int(&self, room_id: &str) -> (r: Option<i64>)
        requires
            self.wf(),
        ensures
            r matches Some(id) ==> self@.contains_key(room_id@) && self@[room_id@] == id,
            r is None ==> !self@.contains_key(room_id@),
    {
        let room = chars_of(room_id);
        match self.room_index(&room) {
            Some(i) => {
                proof {
                    lemma_map_of_lookup(self.pairs(), i as int);
                }
                Some(self.entries[i].1)
            },
            None => {
                proof {
                    lemma_map_of_absent(self.pairs(), room@);
                }
                None
            },
        }
    }

    /// The first id of the hash chain of `room`.
    fn hash_room(room: &Vec<char>) -> (h: i64)
        ensures
            h == first_hash(room@),
    {
        let s = string_of(room);
        let d = sha256_of(s.as_str());
        be_i64(&d)
    }

    /// The next id of the hash chain of `room` after `h`.
    fn rehash_room(room: &Vec<char>, h: i64) -> (r: i64)
        ensures
            r == next_hash(room@, h),
    {
        let mut text = room.clone();
        append_str(&mut text, ":");
        let digits = decimal_i64(h);
        append(&mut text, &digits);
        let s = string_of(&text);
        let d = sha256_of(s.as_str());
        be_i64(&d)
    }

    /// Converts a room id to its integer id, assigning a fresh one on first use.
    pub fn room_to_int(&mut self, room_id: &str) -> (r: i64)
        requires
            old(self).wf(),
            old(self)@.len() < 0x7fff_ffff_ffff_ffff,
        ensures
            final(self).wf(),
            old(self)@.contains_key(room_id@) ==> r == old(self)@[room_id@] && final(self)@ == old(
                self,
            )@,
            !old(self)@.contains_key(room_id@) ==> {
                &&& !old(self)@.contains_value(r)
                &&& final(self)@ == old(self)@.insert(room_id@, r)
                &&& r == assigned_id(room_id@, old(self)@.values(), old(self)@.len())
            },
            room_step(old(self)@, final(self)@, room_id@),
    {
        let room = chars_of(room_id);
        proof {
            lemma_map_of_values(self.pairs());
            lemma_map_of_len(self.pairs());
        }
        if let Some(i) = self.room_index(&room) {
            proof {
                lemma_map_of_lookup(self.pairs(), i as int);
            }
            return self.entries[i].1;
        }
        proof {
            lemma_map_of_absent(self.pairs(), room@);
        }
        let ghost taken = self@.values();
        let ghost ps = self.pairs();
        let n = self.entries.len();
        let mut h = Self::hash_room(&room);
        let mut tries: usize = 0;
        while tries < n && self.id_index(h).is_some()
            invariant
                tries <= n,
                n == ps.len(),
                ps == self.pairs(),
                forall|x: i64| #[trigger] taken.contains(x) <==> exists|j: int| 0 <= j < ps.len() && ps[j].1 == x,
                hash_chain(room@, taken, first_hash(room@), n as nat) == hash_chain(
                    room@,
                    taken,
                    h,
                    (n - tries) as nat,
                ),
            decreases n - tries,
        {
            h = Self::rehash_room(&room, h);
            tries = tries + 1;
        }
        if self.id_index(h).is_some() {
            // every id of the chain is taken: take the least free non-negative id
            assert(tries == n);
            let nn = n as u64;
            let mut k: u64 = 0;
            while k < nn && self.id_index(k as i64).is_some()
                invariant
                    k <= nn,
                    nn == n,
                    n < 0x7fff_ffff_ffff_ffff,
                    ps == self.pairs(),
                    forall|x: i64| #[trigger] taken.contains(x) <==> exists|j: int| 0 <= j < ps.len() && ps[j].1 == x,
                    forall|x: int| 0 <= x < k ==> #[trigger] taken.contains(x as i64),
                    free_from(taken, 0, n as nat) == free_from(taken, k as int, (n - k) as nat),
                decreases nn - k,
            {
                k = k + 1;
            }
            proof {
                if k == nn && taken.contains(k as i64) {
                    lemma_pigeonhole(ps, taken, k + 1);
                }
            }
            h = k as i64;
        }
        proof {
            assert(!taken.contains(h));
            assert forall|j: int| 0 <= j < ps.len() implies ps[j].1 != h by {
                if ps[j].1 == h {
                    assert(taken.contains(ps[j].1));
                }
            }
        }
        self.entries.push((string_of(&room), h));
        proof {
            assert(self.pairs() == ps.push((room@, h)));
            assert(self.pairs().drop_last() == ps);
            assert(room@ == room_id@);
            let q = self.pairs();
            assert forall|i: int, j: int| #![trigger q[i], q[j]] 0 <= i < j < q.len() implies q[i].0 != q[j].0 && q[i].1 != q[j].1 by {
                if j == q.len() - 1 {
                    assert(q[i] == ps[i]);
                } else {
                    assert(q[i] == ps[i] && q[j] == ps[j]);
                }
            }
        }
        h
    }

    /// Adds a (room, id) pair read back from storage; a pair whose room or id is already
    /// present is refused. Returns whether the pair was added.
    pub fn insert_loaded(&mut self, room_id: &str, id: i64) -> (added: bool)
        requires
            old(self).wf(),
        ensures
            final(self).wf(),
            added == (!old(self)@.contains_key(room_id@) && !old(self)@.contains_value(id)),
            added ==> final(self)@ == old(self)@.insert(room_id@, id),
            !added ==> final(self)@ == old(self)@,
    {
        let room = chars_of(room_id);
        proof {
            lemma_map_of_values(self.pairs());
        }
        if let Some(i) = self.room_index(&room) {
            proof {
                lemma_map_of_lookup(self.pairs(), i as int);
            }
            return false;
        }
        if let Some(i) = self.id_index(id) {
            proof {
                lemma_map_of_lookup(self.pairs(), i as int);
            }
            return false;
        }
        proof {
            lemma_map_of_absent(self.pairs(), room@);
        }
        let ghost ps = self.pairs();
        self.entries.push((string_of(&room), id));
        proof {
            assert(self.pairs() == ps.push((room@, id)));
            assert(self.pairs().drop_last() == ps);
            assert(room@ == room_id@);
            let q = self.pairs();
            assert forall|i: int, j: int| #![trigger q[i], q[j]] 0 <= i < j < q.len() implies q[i].0 != q[j].0 && q[i].1 != q[j].1 by {
                if j == q.len() - 1 {
                    assert(q[i] == ps[i]);
                } else {
                    assert(q[i] == ps[i] && q[j] == ps[j]);
                }
            }
        }
        true
    }

    /// All (room, id) pairs, for persisting the mapping.
    pub fn entries(&self) -> (r: Vec<(String, i64)>)
        requires
            self.wf(),
        ensures
            r@.len() == self@.len(),
            forall|i: int| 0 <= i < r@.len() ==> self@.contains_key((#[trigger] r@[i]).0@) && self@[r@[i].0@] == r@[i].1,
            distinct_pairs(pairs_of(r@)),
            map_of(pairs_of(r@)) == self@,
    {
        proof {
            lemma_map_of_len(self.pairs());
        }
        let mut r: Vec<(String, i64)> = Vec::new();
        let mut i: usize = 0;
        while i < self.entries.len()
            invariant
                i <= self.entries@.len(),
                self.wf(),
                r@.len() == i,
                forall|j: int| 0 <= j < i ==> self@.contains_key((#[trigger] r@[j]).0@) && self@[r@[j].0@] == r@[j].1,
                pairs_of(r@) == self.pairs().take(i as int),
            decreases self.entries.len() - i,
        {
            proof {
                lemma_map_of_lookup(self.pairs(), i as int);
            }
            r.push((self.entries[i].0.clone(), self.entries[i].1));
            assert(pairs_of(r@) =~= self.pairs().take(i + 1));
            i = i + 1;
        }
        assert(self.pairs().take(i as int) =~= self.pairs());
        assert(pairs_of(r@) =~= self.pairs());
        r
    }

    /// Adds pairs read back from storage, in order, each as `insert_loaded` does.
    pub fn load_entries(&mut self, data: &Vec<(String, i64)>)
        requires
            old(self).wf(),
        ensures
            final(self).wf(),
            final(self)@ == load_pairs_onto(old(self)@, pairs_of(data@)),
    {
        let mut i: usize = 0;
        while i < data.len()
            invariant
                i <= data@.len(),
                self.wf(),
                self@ == load_pairs_onto(old(self)@, pairs_of(data@).take(i as int)),
            decreases data.len() - i,
        {
            assert(pairs_of(data@).take(i + 1).drop_last() == pairs_of(data@).take(i as int));
            assert(pairs_of(data@).take(i + 1).last() == (data@[i as int].0@, data@[i as int].1));
            self.insert_loaded(data[i].0.as_str(), data[i].1);
            i = i + 1;
        }
        assert(pairs_of(data@).take(data@.len() as int) == pairs_of(data@));
    }
}

/// The big-endian value of the first eight bytes of a digest, as a signed id.
fn be_i64(d: &Vec<u8>) -> (r: i64)
    requires
        d@.len() >= 8,
    ensures
        r == be_u64(d@) as i64,
{
    let v: u64 = (d[0] as u64) * 0x100000000000000 + (d[1] as u64) * 0x1000000000000 + (d[2] as u64)
        * 0x10000000000 + (d[3] as u64) * 0x100000000 + (d[4] as u64) * 0x1000000 + (d[5] as u64)
        * 0x10000 + (d[6] as u64) * 0x100 + (d[7] as u64);
    v as i64
}

/// In a list with distinct rooms, each entry's room maps to the entry's id.
proof fn lemma_map_of_lookup(ps: Seq<(Seq<char>, i64)>, i: int)
    requires
        distinct_pairs(ps),
        0 <= i < ps.len(),
    ensures
        map_of(ps).contains_key(ps[i].0),
        map_of(ps)[ps[i].0] == ps[i].1,
    decreases ps.len(),
{
    if i < ps.len() - 1 {
        lemma_map_of_lookup(ps.drop_last(), i);
        assert(ps.drop_last()[i] == ps[i]);
        assert(ps[i].0 != ps.last().0);
    }
}

/// A room that no entry holds is not in the map.
proof fn lemma_map_of_absent(ps: Seq<(Seq<char>, i64)>, room: Seq<char>)
    requires
        forall|j: int| 0 <= j < ps.len() ==> ps[j].0 != room,
    ensures
        !map_of(ps).contains_key(room),
    decreases ps.len(),
{
    if ps.len() > 0 {
        lemma_map_of_absent(ps.drop_last(), room);
    }
}

/// The keys of the map are the rooms of the entries, and its values their ids.
proof fn lemma_map_of_values(ps: Seq<(Seq<char>, i64)>)
    requires
        distinct_pairs(ps),
    ensures
        forall|r: Seq<char>| map_of(ps).contains_key(r) ==> exists|j: int| 0 <= j < ps.len() && ps[j].0 == r,
        forall|x: i64| map_of(ps).contains_value(x) <==> exists|j: int| 0 <= j < ps.len() && #[trigger] ps[j].1 == x,
        forall|x: i64| map_of(ps).values().contains(x) <==> exists|j: int| 0 <= j < ps.len() && #[trigger] ps[j].1 == x,
        map_of(ps).is_injective(),
    decreases ps.len(),
{
    if ps.len() > 0 {
        let prev = ps.drop_last();
        assert forall|i: int, j: int| #![trigger prev[i], prev[j]] 0 <= i < j < prev.len() implies prev[i].0 != prev[j].0 && prev[i].1 != prev[j].1 by {
            assert(prev[i] == ps[i] && prev[j] == ps[j]);
        }
        lemma_map_of_values(prev);
        let m = map_of(ps);
        assert forall|r: Seq<char>| m.contains_key(r) implies exists|j: int| 0 <= j < ps.len() && ps[j].0 == r by {
            if r != ps.last().0 {
                let j = choose|j: int| 0 <= j < prev.len() && prev[j].0 == r;
                assert(ps[j] == prev[j]);
            } else {
                assert(ps[ps.len() - 1].0 == r);
            }
        }
        assert forall|x: i64| m.contains_value(x) implies exists|j: int| 0 <= j < ps.len() && #[trigger] ps[j].1 == x by {
            let r = choose|r: Seq<char>| #[trigger] m.contains_key(r) && m[r] == x;
            if r == ps.last().0 {
                assert(ps[ps.len() - 1].1 == x);
            } else {
                assert(map_of(prev).contains_value(x));
                let j = choose|j: int| 0 <= j < prev.len() && #[trigger] prev[j].1 == x;
                assert(ps[j] == prev[j]);
            }
        }
        assert forall|x: i64| (exists|j: int| 0 <= j < ps.len() && #[trigger] ps[j].1 == x) implies m.contains_value(x) by {
            let j = choose|j: int| 0 <= j < ps.len() && #[trigger] ps[j].1 == x;
            if j == ps.len() - 1 {
                assert(m.contains_key(ps.last().0));
            } else {
                assert(prev[j] == ps[j]);
                assert(map_of(prev).contains_value(x));
                let r = choose|r: Seq<char>| #[trigger] map_of(prev).contains_key(r) && map_of(prev)[r] == x;
                let k = choose|k: int| 0 <= k < prev.len() && prev[k].0 == r;
                assert(ps[k] == prev[k]);
                assert(r != ps.last().0);
                assert(m.contains_key(r) && m[r] == x);
            }
        }
        assert forall|x: i64| m.values().contains(x) <==> m.contains_value(x) by {
            if m.contains_value(x) {
                let r = choose|r: Seq<char>| #[trigger] m.contains_key(r) && m[r] == x;
                assert(m.values().contains(x));
            }
        }
        assert forall|a: Seq<char>, b: Seq<char>| m.contains_key(a) && m.contains_key(b) && a != b implies m[a] != m[b] by {
            if a == ps.last().0 {
                let k = choose|k: int| 0 <= k < prev.len() && prev[k].0 == b;
                assert(ps[k] == prev[k]);
                lemma_map_of_lookup(prev, k);
                assert(m[b] == prev[k].1);
            } else if b == ps.last().0 {
                let k = choose|k: int| 0 <= k < prev.len() && prev[k].0 == a;
                assert(ps[k] == prev[k]);
                lemma_map_of_lookup(prev, k);
                assert(m[a] == prev[k].1);
            }
        }
    }
}

/// The map has one key per entry.
proof fn lemma_map_of_len(ps: Seq<(Seq<char>, i64)>)
    requires
        distinct_pairs(ps),
    ensures
        map_of(ps).len() == ps.len(),
        map_of(ps).dom().finite(),
    decreases ps.len(),
{
    if ps.len() > 0 {
        let prev = ps.drop_last();
        assert forall|i: int, j: int| #![trigger prev[i], prev[j]] 0 <= i < j < prev.len() implies prev[i].0 != prev[j].0 && prev[i].1 != prev[j].1 by {
            assert(prev[i] == ps[i] && prev[j] == ps[j]);
        }
        lemma_map_of_len(prev);
        assert forall|j: int| 0 <= j < prev.len() implies prev[j].0 != ps.last().0 by {
            assert(prev[j] == ps[j]);
        }
        lemma_map_of_absent(prev, ps.last().0);
    }
}

/// When the ids `0..k` are all taken, there are at least `k` entries.
proof fn lemma_pigeonhole(ps: Seq<(Seq<char>, i64)>, taken: Set<i64>, k: int)
    requires
        distinct_pairs(ps),
        0 <= k <= i64::MAX + 1,
        forall|x: i64| #[trigger] taken.contains(x) ==> exists|j: int| 0 <= j < ps.len() && ps[j].1 == x,
        forall|x: int| 0 <= x < k ==> #[trigger] taken.contains(x as i64),
    ensures
        k <= ps.len(),
{
    let ids = ps.map_values(|p: (Seq<char>, i64)| p.1 as int);
    assert forall|i: int, j: int| 0 <= i < ids.len() && 0 <= j < ids.len() && i != j implies ids[i] != ids[j] by {
        if i < j {
            assert(ps[i].1 != ps[j].1);
        } else {
            assert(ps[j].1 != ps[i].1);
        }
    }
    assert(ids.no_duplicates());
    ids.unique_seq_to_set();
    vstd::seq_lib::seq_to_set_is_finite(ids);
    let range = vstd::set_lib::set_int_range(0, k);
    vstd::set_lib::lemma_int_range(0, k);
    assert forall|x: int| range.contains(x) implies ids.to_set().contains(x) by {
        assert(taken.contains(x as i64));
        let j = choose|j: int| 0 <= j < ps.len() && ps[j].1 == x as i64;
        assert(ids[j] == x);
    }
    vstd::set_lib::lemma_len_subset(range, ids.to_set());
}

/// The room–id mapping is a bijection: a room's id leads back to the room, and no two
/// rooms share an id.
pub proof fn lemma_round_trip(m: &MatrixIdMap, room: Seq<char>)
    requires
        m.wf(),
        m@.contains_key(room),
    ensures
        m@.is_injective(),
        forall|other: Seq<char>| #[trigger] m@.contains_key(other) && m@[other] == m@[room] ==> other == room,
{
    lemma_map_of_values(m.pairs());
}


/// Loading distinct pairs into an empty mapping gives the mapping they describe.
proof fn lemma_load_distinct(ps: Seq<(Seq<char>, i64)>)
    requires
        distinct_pairs(ps),
    ensures
        load_pairs_onto(Map::empty(), ps) == map_of(ps),
    decreases ps.len(),
{
    if ps.len() > 0 {
        let prev = ps.drop_last();
        assert forall|i: int, j: int| #![trigger prev[i], prev[j]] 0 <= i < j < prev.len() implies prev[i].0
            != prev[j].0 && prev[i].1 != prev[j].1 by {
            assert(prev[i] == ps[i] && prev[j] == ps[j]);
        }
        lemma_load_distinct(prev);
        lemma_map_of_values(prev);
        let last = ps.last();
        if map_of(prev).contains_key(last.0) {
            let j = choose|j: int| 0 <= j < prev.len() && prev[j].0 == last.0;
            assert(ps[j] == prev[j]);
            assert(ps[ps.len() - 1] == last);
        }
        if map_of(prev).contains_value(last.1) {
            let j = choose|j: int| 0 <= j < prev.len() && #[trigger] prev[j].1 == last.1;
            assert(ps[j] == prev[j]);
            assert(ps[ps.len() - 1] == last);
        }
    }
}

/// Saving a mapping and loading it back into a fresh one restores it: the entries the map
/// hands out, added in order to an empty mapping, give the same mapping.
pub proof fn lemma_reload_restores(m: &MatrixIdMap, saved: Seq<(String, i64)>)
    requires
        m.wf(),
        distinct_pairs(pairs_of(saved)),
        map_of(pairs_of(saved)) == m@,
    ensures
        load_pairs_onto(Map::empty(), pairs_of(saved)) == m@,
{
    lemma_load_distinct(pairs_of(saved));
}


/// What one `room_to_int` call for `room` does to the mapping: a known room leaves it as
/// it is; a new room is added under an id not yet in use.
pub open spec fn room_step(before: Map<Seq<char>, i64>, after: Map<Seq<char>, i64>, room: Seq<char>) -> bool {
    if before.contains_key(room) {
        after == before
    } else {
        exists|r: i64| !before.contains_value(r) && after == #[trigger] before.insert(room, r)
    }
}

/// `maps` are the mappings before and after each of a series of `room_to_int` calls for
/// `rooms`, in order.
pub open spec fn room_steps(maps: Seq<Map<Seq<char>, i64>>, rooms: Seq<Seq<char>>) -> bool {
    &&& maps.len() == rooms.len() + 1
    &&& forall|i: int| 0 <= i < rooms.len() ==> room_step(maps[i], maps[i + 1], #[trigger] rooms[i])
}

proof fn lemma_ids_survive(maps: Seq<Map<Seq<char>, i64>>, rooms: Seq<Seq<char>>, room: Seq<char>, id: i64, k: int)
    requires
        room_steps(maps, rooms),
        maps[0].contains_key(room),
        maps[0][room] == id,
        0 <= k < maps.len(),
    ensures
        maps[k].contains_key(room),
        maps[k][room] == id,
    decreases k,
{
    if k > 0 {
        lemma_ids_survive(maps, rooms, room, id, k - 1);
        assert(room_step(maps[k - 1], maps[k], rooms[k - 1]));
        if !maps[k - 1].contains_key(rooms[k - 1]) {
            assert(rooms[k - 1] != room);
        }
    }
}

/// A room's id keeps leading back to the room whatever `room_to_int` calls come after the
/// one that gave it: in the mapping after them the room still has that id, and no other
/// room has it (so `int_to_room` of the id gives the room).
pub proof fn lemma_round_trip_after_calls(
    m: &MatrixIdMap,
    maps: Seq<Map<Seq<char>, i64>>,
    rooms: Seq<Seq<char>>,
    room: Seq<char>,
    id: i64,
)
    requires
        m.wf(),
        room_steps(maps, rooms),
        maps.last() == m@,
        maps[0].contains_key(room),
        maps[0][room] == id,
    ensures
        m@.contains_key(room),
        m@[room] == id,
        forall|other: Seq<char>| #[trigger] m@.contains_key(other) && m@[other] == id ==> other == room,
{
    lemma_ids_survive(maps, rooms, room, id, maps.len() - 1);
    lemma_round_trip(m, room);
}

} // verus!
