//! Sliding-window duplicate detection of incoming event ids.
//!
//! The cache remembers the most recent `capacity` distinct event ids, oldest first; an id
//! is a duplicate while it is remembered.

use vstd::prelude::*;
use crate::text::{chars_of, eq_chars};

verus! {

/// The window after an event that was not remembered arrives.
pub open spec fn after_arrival(window: Seq<Seq<char>>, capacity: nat, event: Seq<char>) -> Seq<Seq<char>> {
    if window.len() + 1 > capacity {
        window.push(event).drop_first()
    } else {
        window.push(event)
    }
}

/// Remembers recent event ids to recognise repeats.
pub struct DedupeCache {
    queue: Vec<String>,
    capacity: usize,
}

impl View for DedupeCache {
    type V = Seq<Seq<char>>;

    /// The remembered event ids, oldest first.
    closed spec fn view(&self) -> Seq<Seq<char>> {
        self.queue@.map_values(|s: String| s@)
    }
}

impl DedupeCache {
    /// The most ids the cache remembers.
    pub closed spec fn capacity_spec(&self) -> nat {
        self.capacity as nat
    }

    /// The window holds distinct ids and no more than the capacity.
    pub closed spec fn wf(&self) -> bool {
        &&& self@.no_duplicates()
        &&& self@.len() <= self.capacity
    }

    /// Creates an empty cache remembering at most `capacity` ids.
    pub fn new(capacity: usize) -> (c: Self)
        ensures
            c.wf(),
            c@ == Seq::<Seq<char>>::empty(),
            c.capacity_spec() == capacity,
    {
        let c = DedupeCache { queue: Vec::new(), capacity };
        assert(c@ =~= Seq::<Seq<char>>::empty());
        c
    }

    /// Reports whether `event_id` is remembered; an id that is not is remembered from now
    /// on, and the oldest id is forgotten when the window would exceed the capacity.
    pub fn check(&mut self, event_id: &str) -> (dup: bool)
        requires
            old(self).wf(),
        ensures
            final(self).wf(),
            final(self).capacity_spec() == old(self).capacity_spec(),
            dup == old(self)@.contains(event_id@),
            dup ==> final(self)@ == old(self)@,
            !dup ==> final(self)@ == after_arrival(old(self)@, old(self).capacity_spec(), event_id@),
    {
        let ev = chars_of(event_id);
        let mut i: usize = 0;
        while i < self.queue.len()
            invariant
                i <= self.queue@.len(),
                ev@ == event_id@,
                self.wf(),
                self@ == old(self)@,
                self.capacity == old(self).capacity,
                forall|j: int| 0 <= j < i ==> self@[j] != ev@,
            decreases self.queue.len() - i,
        {
            let seen = chars_of(self.queue[i].as_str());
            if eq_chars(&seen, &ev) {
                assert(self@[i as int] == event_id@);
                return true;
            }
            i = i + 1;
        }
        let ghost before = self@;
        assert(!before.contains(event_id@));
        self.queue.push(crate::text::string_of(&ev));
        assert(self@ == before.push(event_id@));
        if self.queue.len() > self.capacity {
            self.queue.remove(0);
            assert(self@ == before.push(event_id@).drop_first());
        }
        proof {
            let w = before.push(event_id@);
            assert(w.no_duplicates());
        }
        false
    }
}

/// An id just added is reported as a duplicate when it arrives again, unless the cache
/// remembers nothing.
pub proof fn lemma_new_event_is_remembered(window: Seq<Seq<char>>, capacity: nat, event: Seq<char>)
    requires
        window.len() <= capacity,
        capacity >= 1,
    ensures
        after_arrival(window, capacity, event).contains(event),
        after_arrival(window, capacity, event).len() <= capacity,
{
    let w = window.push(event);
    if window.len() + 1 > capacity {
        assert(w.drop_first()[w.len() - 2] == event);
    } else {
        assert(w[w.len() - 1] == event);
    }
}


/// The window and the ids reported as new after `events` arrive at an empty cache, in
/// order.
pub open spec fn dedupe_run(events: Seq<Seq<char>>, capacity: nat) -> (Seq<Seq<char>>, Seq<Seq<char>>)
    decreases events.len(),
{
    if events.len() == 0 {
        (Seq::empty(), Seq::empty())
    } else {
        let (window, fresh) = dedupe_run(events.drop_last(), capacity);
        let e = events.last();
        if window.contains(e) {
            (window, fresh)
        } else {
            (after_arrival(window, capacity, e), fresh.push(e))
        }
    }
}

/// The last `n` items of `s` (all of them when it has fewer).
pub open spec fn last_n(s: Seq<Seq<char>>, n: nat) -> Seq<Seq<char>> {
    if s.len() > n {
        s.skip(s.len() - n)
    } else {
        s
    }
}

/// `windows` are what a cache made with `capacity` remembers before and after each of a
/// series of `check` calls with `events`, starting empty.
pub open spec fn check_steps(windows: Seq<Seq<Seq<char>>>, events: Seq<Seq<char>>, capacity: nat) -> bool {
    &&& windows.len() == events.len() + 1
    &&& windows[0] == Seq::<Seq<char>>::empty()
    &&& forall|i: int|
        0 <= i < events.len() ==> windows[i + 1] == if windows[i].contains(#[trigger] events[i]) {
            windows[i]
        } else {
            after_arrival(windows[i], capacity, events[i])
        }
}

proof fn lemma_run_window(events: Seq<Seq<char>>, capacity: nat)
    ensures
        dedupe_run(events, capacity).0 == last_n(dedupe_run(events, capacity).1, capacity),
    decreases events.len(),
{
    if events.len() > 0 {
        lemma_run_window(events.drop_last(), capacity);
        let (window, fresh) = dedupe_run(events.drop_last(), capacity);
        let e = events.last();
        if !window.contains(e) {
            let f2 = fresh.push(e);
            if fresh.len() >= capacity {
                assert(window.push(e).drop_first() == f2.skip(f2.len() - capacity));
            } else {
                assert(window.push(e) == f2);
            }
        }
    }
}

proof fn lemma_steps_follow_run(windows: Seq<Seq<Seq<char>>>, events: Seq<Seq<char>>, capacity: nat, k: int)
    requires
        check_steps(windows, events, capacity),
        0 <= k <= events.len(),
    ensures
        windows[k] == dedupe_run(events.take(k), capacity).0,
    decreases k,
{
    if k == 0 {
        assert(events.take(0).len() == 0);
    } else {
        lemma_steps_follow_run(windows, events, capacity, k - 1);
        assert(events.take(k).drop_last() == events.take(k - 1));
        assert(events.take(k).last() == events[k - 1]);
        assert(windows[k] == if windows[k - 1].contains(events[k - 1]) {
            windows[k - 1]
        } else {
            after_arrival(windows[k - 1], capacity, events[k - 1])
        });
    }
}

/// Over any series of `check` calls on a new cache, the cache remembers exactly the last
/// `capacity` ids that were reported as new: a call reports a duplicate exactly when its
/// id is among them (and a cache of capacity 0 reports none).
pub proof fn lemma_window_is_last_new_ids(windows: Seq<Seq<Seq<char>>>, events: Seq<Seq<char>>, capacity: nat)
    requires
        check_steps(windows, events, capacity),
    ensures
        windows.last() == last_n(dedupe_run(events, capacity).1, capacity),
{
    lemma_steps_follow_run(windows, events, capacity, events.len() as int);
    assert(events.take(events.len() as int) == events);
    lemma_run_window(events, capacity);
}

} // verus!
