use std::collections::BTreeMap;
use vstd::prelude::*;

use crate::time::TimerId;
use crate::time_sync::sntp::{wrapping_total, TimeSyncService};
use crate::widget::WidgetId;

verus! {

broadcast use vstd::std_specs::btree::group_btree_axioms;

/// Key of one armed timer: the owning widget and its timer id.
#[derive(Clone, Copy, PartialEq, Eq, Structural)]
pub struct TimerKey {
    pub widget_id: WidgetId,
    pub timer_id: TimerId,
}

/// Canonical record of an armed timer (times in clock ticks).
#[derive(Clone, Copy)]
pub struct TimerEntry {
    pub expiration: u64,
    /// `Some(period)` for recurring timers; `None` for one-shot.
    pub recurring: Option<u64>,
}

/// One scheduled wake-up in the pending queue. Entries whose expiration no
/// longer matches the canonical record are stale and skipped when they surface.
#[derive(Clone, Copy)]
pub struct HeapEntry {
    pub expiration: u64,
    pub widget_id: usize,
    pub timer_id: u32,
}

/// Abstract key of a timer: (widget id, timer id).
pub type Key = (usize, u32);

/// Strict order of queue entries: by expiration, then widget id, then timer id.
pub open spec fn entry_before(a: HeapEntry, b: HeapEntry) -> bool {
    ||| a.expiration < b.expiration
    ||| a.expiration == b.expiration && a.widget_id < b.widget_id
    ||| a.expiration == b.expiration && a.widget_id == b.widget_id && a.timer_id < b.timer_id
}

/// Strict order of keys `a`, `b` of the map `m`: earlier expiration first, ties by key.
pub open spec fn fires_before(m: Map<Key, TimerEntry>, a: Key, b: Key) -> bool {
    ||| m[a].expiration < m[b].expiration
    ||| m[a].expiration == m[b].expiration && a.0 < b.0
    ||| m[a].expiration == m[b].expiration && a.0 == b.0 && a.1 < b.1
}

/// A timer of `m` is due at `now` when its expiration is not later than `now`.
pub open spec fn is_due(m: Map<Key, TimerEntry>, k: Key, now: u64) -> bool {
    m.contains_key(k) && m[k].expiration <= now
}

/// Every due recurring timer can be rescheduled at `now + period` without overflow.
pub open spec fn reschedule_fits(m: Map<Key, TimerEntry>, now: u64) -> bool {
    forall|k: Key|
        #[trigger] is_due(m, k, now) && m[k].recurring is Some ==> now + m[k].recurring->0
            <= u64::MAX
}

/// A due recurring timer of `m` with key `k` can be rescheduled after `now`.
pub open spec fn key_fits(m: Map<Key, TimerEntry>, k: Key, now: u64) -> bool {
    is_due(m, k, now) && m[k].recurring is Some ==> now + m[k].recurring->0 <= u64::MAX
}

/// The timers that remain after a poll at `now`: due one-shot timers are gone,
/// due recurring timers are rescheduled one period after `now`, the rest are kept.
pub open spec fn after_poll(m: Map<Key, TimerEntry>, now: u64) -> Map<Key, TimerEntry> {
    Map::new(
        |k: Key| m.contains_key(k) && !(m[k].expiration <= now && m[k].recurring is None),
        |k: Key|
            if m[k].expiration <= now {
                TimerEntry {
                    expiration: (now + m[k].recurring->0) as u64,
                    recurring: m[k].recurring,
                }
            } else {
                m[k]
            },
    )
}

/// `keys` lists exactly the timers of `m` that are due at `now`, each once,
/// in firing order.
pub open spec fn fired_in_order(m: Map<Key, TimerEntry>, now: u64, keys: Seq<Key>) -> bool {
    &&& forall|i: int| 0 <= i < keys.len() ==> is_due(m, #[trigger] keys[i], now)
    &&& forall|k: Key| is_due(m, k, now) ==> #[trigger] keys.contains(k)
    &&& forall|i: int, j: int|
        0 <= i < j < keys.len() ==> fires_before(m, #[trigger] keys[i], #[trigger] keys[j])
}

/// Tick at which a timer armed at `now` for `duration` ticks expires.
pub open spec fn deadline(now: u64, duration: u64) -> u64 {
    (now + duration) as u64
}

/// A poll at `now` of the timers `before` reported `keys` and left `after`.
pub open spec fn polled(
    before: Map<Key, TimerEntry>,
    after: Map<Key, TimerEntry>,
    now: u64,
    keys: Seq<Key>,
) -> bool {
    fired_in_order(before, now, keys) && after == after_poll(before, now)
}

/// Arming the timer `key` for `duration` ticks at the clock reading `now`
/// took `before` to `after`: armed exactly when the deadline fits in the
/// tick counter, and nothing changed otherwise.
pub open spec fn schedule_outcome(
    before: Map<Key, TimerEntry>,
    after: Map<Key, TimerEntry>,
    key: Key,
    now: u64,
    duration: u64,
    recurring: Option<u64>,
    armed: bool,
) -> bool {
    &&& armed <==> now + duration <= u64::MAX
    &&& if armed {
        after == before.insert(key, TimerEntry { expiration: deadline(now, duration), recurring })
    } else {
        after == before
    }
}

/// A poll at the clock reading `now` took `before` to `after` and reported
/// `keys`: it fails (`None`, nothing changed) exactly when a due recurring
/// timer cannot be rescheduled within the tick counter.
pub open spec fn poll_outcome(
    before: Map<Key, TimerEntry>,
    after: Map<Key, TimerEntry>,
    now: u64,
    keys: Option<Seq<Key>>,
) -> bool {
    &&& keys is None <==> !reschedule_fits(before, now)
    &&& match keys {
        Some(k) => polled(before, after, now, k),
        None => after == before,
    }
}

/// The period of a requested timeout: its duration when recurring.
pub open spec fn period_of(data: crate::time::CreateTimeoutData) -> Option<u64> {
    if data.recurring {
        Some(data.duration)
    } else {
        None
    }
}

/// The keys of the reported timers, if any.
pub open spec fn opt_keys(e: Option<Vec<(WidgetId, TimerId)>>) -> Option<Seq<Key>> {
    match e {
        Some(v) => Some(pair_keys(v@)),
        None => None,
    }
}

pub open spec fn pair_key(p: (WidgetId, TimerId)) -> Key {
    (p.0.0, p.1.0)
}

pub open spec fn pair_keys(s: Seq<(WidgetId, TimerId)>) -> Seq<Key> {
    s.map_values(|p: (WidgetId, TimerId)| pair_key(p))
}

pub open spec fn heap_has(h: Seq<HeapEntry>, k: Key, exp: u64) -> bool {
    h.contains(HeapEntry { expiration: exp, widget_id: k.0, timer_id: k.1 })
}

/// Number of queue entries whose expiration is not later than `now`.
pub open spec fn count_due(h: Seq<HeapEntry>, now: u64) -> nat
    decreases h.len(),
{
    if h.len() == 0 {
        0
    } else {
        count_due(h.drop_last(), now) + if h.last().expiration <= now {
            1nat
        } else {
            0nat
        }
    }
}

proof fn lemma_count_due_push(h: Seq<HeapEntry>, x: HeapEntry, now: u64)
    ensures
        count_due(h.push(x), now) == count_due(h, now) + if x.expiration <= now {
            1nat
        } else {
            0nat
        },
{
    assert(h.push(x).drop_last() =~= h);
}

proof fn lemma_count_due_remove(h: Seq<HeapEntry>, i: int, now: u64)
    requires
        0 <= i < h.len(),
    ensures
        count_due(h, now) == count_due(h.remove(i), now) + if h[i].expiration <= now {
            1nat
        } else {
            0nat
        },
    decreases h.len(),
{
    if i == h.len() - 1 {
        assert(h.remove(i) =~= h.drop_last());
    } else {
        lemma_count_due_remove(h.drop_last(), i, now);
        assert(h.remove(i) =~= h.drop_last().remove(i).push(h.last()));
        lemma_count_due_push(h.drop_last().remove(i), h.last(), now);
    }
}

proof fn lemma_push_contains(s: Seq<Key>, x: Key)
    ensures
        forall|k: Key| #[trigger] s.push(x).contains(k) <==> (s.contains(k) || k == x),
{
    assert forall|k: Key| #[trigger] s.push(x).contains(k) <==> (s.contains(k) || k == x) by {
        if s.contains(k) {
            let j = choose|j: int| 0 <= j < s.len() && s[j] == k;
            assert(s.push(x)[j] == k);
        }
        if k == x {
            assert(s.push(x)[s.len() as int] == k);
        }
        if s.push(x).contains(k) && k != x {
            let j = choose|j: int| 0 <= j < s.push(x).len() && s.push(x)[j] == k;
            assert(s[j] == k);
        }
    }
}

proof fn lemma_contains_after_remove(h: Seq<HeapEntry>, i: int, x: HeapEntry)
    requires
        0 <= i < h.len(),
        h.contains(x),
        x != h[i],
    ensures
        h.remove(i).contains(x),
{
    let j = choose|j: int| 0 <= j < h.len() && h[j] == x;
    if j < i {
        assert(h.remove(i)[j] == x);
    } else {
        assert(h.remove(i)[j - 1] == x);
    }
}

/// Armed timers of all widgets: a canonical map plus a queue of wake-ups
/// that is searched for its earliest entry; cancelled or rescheduled timers
/// leave stale queue entries behind, which are skipped.
pub struct TimerState {
    heap: Vec<HeapEntry>,
    active: BTreeMap<Key, TimerEntry>,
}

impl TimerState {
    /// The armed timers by key.
    pub closed spec fn timers(self) -> Map<Key, TimerEntry> {
        self.active@
    }

    /// The queue of pending wake-ups, stale entries included.
    pub closed spec fn queue(self) -> Seq<HeapEntry> {
        self.heap@
    }

    /// Recurring periods are positive and every armed timer has a queue entry
    /// at its canonical expiration.
    pub closed spec fn wf(self) -> bool {
        &&& forall|k: Key| #[trigger]
            self.active@.contains_key(k) && self.active@[k].recurring is Some
                ==> self.active@[k].recurring->0 > 0
        &&& forall|k: Key| #[trigger]
            self.active@.contains_key(k) ==> heap_has(self.heap@, k, self.active@[k].expiration)
    }

    pub fn new() -> (s: Self)
        ensures
            s.wf(),
            s.timers() == Map::<Key, TimerEntry>::empty(),
    {
        TimerState { heap: Vec::new(), active: BTreeMap::new() }
    }

    /// Arms (or re-arms) `timer_id` of `widget_id` to expire `duration` ticks after `now`.
    pub fn insert(
        &mut self,
        widget_id: WidgetId,
        timer_id: TimerId,
        now: u64,
        duration: u64,
        recurring: Option<u64>,
    )
        requires
            old(self).wf(),
            now + duration <= u64::MAX,
            recurring is Some ==> recurring->0 > 0,
        ensures
            final(self).wf(),
            final(self).timers() == old(self).timers().insert(
                (widget_id.0, timer_id.0),
                TimerEntry { expiration: deadline(now, duration), recurring },
            ),
    {
        let expiration = now + duration;
        let key = (widget_id.0, timer_id.0);
        let ghost old_heap = self.heap@;
        self.active.insert(key, TimerEntry { expiration, recurring });
        let e = HeapEntry { expiration, widget_id: widget_id.0, timer_id: timer_id.0 };
        self.heap.push(e);
        proof {
            assert(self.heap@[self.heap@.len() - 1] == e);
            assert forall|k: Key| #[trigger] self.active@.contains_key(k) implies heap_has(
                self.heap@,
                k,
                self.active@[k].expiration,
            ) by {
                if k != key {
                    let x = HeapEntry {
                        expiration: self.active@[k].expiration,
                        widget_id: k.0,
                        timer_id: k.1,
                    };
                    let j = choose|j: int| 0 <= j < old_heap.len() && old_heap[j] == x;
                    assert(self.heap@[j] == x);
                }
            }
        }
    }

    /// Disarms a timer; its queue entry becomes stale.
    pub fn remove(&mut self, widget_id: WidgetId, timer_id: TimerId)
        requires
            old(self).wf(),
        ensures
            final(self).wf(),
            final(self).timers() == old(self).timers().remove((widget_id.0, timer_id.0)),
    {
        let key = (widget_id.0, timer_id.0);
        self.active.remove(&key);
    }

    /// Index of an earliest queue entry.
    fn min_index(&self) -> (i: usize)
        requires
            self.heap@.len() > 0,
        ensures
            i < self.heap@.len(),
            forall|j: int|
                0 <= j < self.heap@.len() ==> !entry_before(#[trigger] self.heap@[j], self.heap@[i as int]),
    {
        let mut best: usize = 0;
        let mut j: usize = 1;
        while j < self.heap.len()
            invariant
                best < self.heap@.len(),
                1 <= j <= self.heap@.len(),
                forall|k: int| 0 <= k < j ==> !entry_before(#[trigger] self.heap@[k], self.heap@[best as int]),
            decreases self.heap@.len() - j,
        {
            let a = self.heap[j];
            let b = self.heap[best];
            if a.expiration < b.expiration || (a.expiration == b.expiration && (a.widget_id
                < b.widget_id || (a.widget_id == b.widget_id && a.timer_id < b.timer_id))) {
                best = j;
            }
            j = j + 1;
        }
        best
    }

    /// Fires every timer that is due at `now`, in order of expiration (ties by
    /// widget id, then timer id). One-shot timers are disarmed; recurring ones
    /// are re-armed one period after `now`.
    pub fn poll(&mut self, now: u64) -> (expired: Vec<(WidgetId, TimerId)>)
        requires
            old(self).wf(),
            reschedule_fits(old(self).timers(), now),
        ensures
            final(self).wf(),
            fired_in_order(old(self).timers(), now, pair_keys(expired@)),
            final(self).timers() == after_poll(old(self).timers(), now),
            forall|k: Key| #[trigger]
                final(self).timers().contains_key(k) ==> heap_has(
                    final(self).queue(),
                    k,
                    final(self).timers()[k].expiration,
                ),
            forall|j: int|
                0 <= j < final(self).queue().len() ==> #[trigger] final(self).queue()[j].expiration
                    > now,
    {
        let ghost a0 = self.active@;
        let mut expired: Vec<(WidgetId, TimerId)> = Vec::new();
        loop
            invariant
                forall|k: Key| #[trigger]
                    self.active@.contains_key(k) && self.active@[k].recurring is Some
                        ==> self.active@[k].recurring->0 > 0,
                forall|k: Key| #[trigger]
                    self.active@.contains_key(k) ==> heap_has(
                        self.heap@,
                        k,
                        self.active@[k].expiration,
                    ),
                forall|k: Key| #[trigger] self.active@.contains_key(k) ==> a0.contains_key(k),
                forall|k: Key| #[trigger]
                    a0.contains_key(k) && a0[k].recurring is Some ==> a0[k].recurring->0 > 0,
                reschedule_fits(a0, now),
                forall|i: int|
                    0 <= i < expired@.len() ==> is_due(a0, #[trigger] pair_keys(expired@)[i], now),
                forall|i: int, j: int|
                    0 <= i < j < expired@.len() ==> fires_before(
                        a0,
                        #[trigger] pair_keys(expired@)[i],
                        #[trigger] pair_keys(expired@)[j],
                    ),
                forall|i: int, k: Key|
                    0 <= i < expired@.len() && #[trigger] is_due(a0, k, now)
                        && !pair_keys(expired@).contains(k) ==> fires_before(
                        a0,
                        #[trigger] pair_keys(expired@)[i],
                        k,
                    ),
                forall|k: Key| #[trigger]
                    a0.contains_key(k) ==> if is_due(a0, k, now) && pair_keys(expired@).contains(
                        k,
                    ) {
                        if a0[k].recurring is Some {
                            self.active@.contains_key(k) && self.active@[k] == TimerEntry {
                                expiration: (now + a0[k].recurring->0) as u64,
                                recurring: a0[k].recurring,
                            }
                        } else {
                            !self.active@.contains_key(k)
                        }
                    } else {
                        self.active@.contains_key(k) && self.active@[k] == a0[k]
                    },
            ensures
                forall|j: int| 0 <= j < self.heap@.len() ==> #[trigger] self.heap@[j].expiration > now,
                forall|k: Key| #[trigger]
                    self.active@.contains_key(k) && self.active@[k].recurring is Some
                        ==> self.active@[k].recurring->0 > 0,
                forall|k: Key| #[trigger]
                    self.active@.contains_key(k) ==> heap_has(
                        self.heap@,
                        k,
                        self.active@[k].expiration,
                    ),
                forall|k: Key| #[trigger] self.active@.contains_key(k) ==> a0.contains_key(k),
                forall|i: int|
                    0 <= i < expired@.len() ==> is_due(a0, #[trigger] pair_keys(expired@)[i], now),
                forall|i: int, j: int|
                    0 <= i < j < expired@.len() ==> fires_before(
                        a0,
                        #[trigger] pair_keys(expired@)[i],
                        #[trigger] pair_keys(expired@)[j],
                    ),
                forall|k: Key| is_due(a0, k, now) ==> #[trigger] pair_keys(expired@).contains(k),
                forall|k: Key| #[trigger]
                    a0.contains_key(k) ==> if is_due(a0, k, now) && pair_keys(expired@).contains(
                        k,
                    ) {
                        if a0[k].recurring is Some {
                            self.active@.contains_key(k) && self.active@[k] == TimerEntry {
                                expiration: (now + a0[k].recurring->0) as u64,
                                recurring: a0[k].recurring,
                            }
                        } else {
                            !self.active@.contains_key(k)
                        }
                    } else {
                        self.active@.contains_key(k) && self.active@[k] == a0[k]
                    },
            decreases count_due(self.heap@, now),
        {
            if self.heap.len() == 0 {
                proof {
                    assert forall|k: Key| is_due(a0, k, now) implies #[trigger] pair_keys(
                        expired@,
                    ).contains(k) by {
                        if !pair_keys(expired@).contains(k) {
                            assert(heap_has(self.heap@, k, self.active@[k].expiration));
                        }
                    }
                }
                break ;
            }
            let i = self.min_index();
            let e = self.heap[i];
            if e.expiration > now {
                proof {
                    assert forall|j: int| 0 <= j < self.heap@.len() implies #[trigger] self.heap@[j].expiration > now by {
                        assert(!entry_before(self.heap@[j], self.heap@[i as int]));
                    }
                    assert forall|k: Key| is_due(a0, k, now) implies #[trigger] pair_keys(
                        expired@,
                    ).contains(k) by {
                        if !pair_keys(expired@).contains(k) {
                            let x = HeapEntry {
                                expiration: a0[k].expiration,
                                widget_id: k.0,
                                timer_id: k.1,
                            };
                            assert(heap_has(self.heap@, k, self.active@[k].expiration));
                            let j = choose|j: int| 0 <= j < self.heap@.len() && self.heap@[j] == x;
                            assert(!entry_before(self.heap@[j], self.heap@[i as int]));
                        }
                    }
                }
                break ;
            }
            let ghost heap_before = self.heap@;
            let ghost active_before = self.active@;
            self.heap.remove(i);
            proof {
                lemma_count_due_remove(heap_before, i as int, now);
            }
            let key = (e.widget_id, e.timer_id);
            let canonical = match self.active.get(&key) {
                Some(t) => t.expiration == e.expiration,
                None => false,
            };
            if !canonical {
                proof {
                    assert forall|k: Key| #[trigger] self.active@.contains_key(k) implies heap_has(
                        self.heap@,
                        k,
                        self.active@[k].expiration,
                    ) by {
                        let x = HeapEntry {
                            expiration: self.active@[k].expiration,
                            widget_id: k.0,
                            timer_id: k.1,
                        };
                        assert(heap_has(heap_before, k, self.active@[k].expiration));
                        lemma_contains_after_remove(heap_before, i as int, x);
                    }
                }
                continue ;
            }
            let ghost fired_before = expired@;
            let t = *self.active.get(&key).unwrap();
            proof {
                // The surfaced entry is the earliest armed, due, not yet fired timer.
                assert(a0.contains_key(key));
                assert(is_due(a0, key, now));
                assert(!pair_keys(expired@).contains(key)) by {
                    if pair_keys(expired@).contains(key) {
                        if a0[key].recurring is Some {
                            assert(self.active@[key].expiration > now);
                        }
                    }
                }
                assert(t == a0[key]);
                assert forall|k: Key| #[trigger]
                    is_due(a0, k, now) && !pair_keys(expired@).contains(k) && k != key implies fires_before(
                    a0,
                    key,
                    k,
                ) by {
                    let x = HeapEntry { expiration: a0[k].expiration, widget_id: k.0, timer_id: k.1 };
                    assert(heap_has(heap_before, k, active_before[k].expiration));
                    let j = choose|j: int| 0 <= j < heap_before.len() && heap_before[j] == x;
                    assert(!entry_before(heap_before[j], heap_before[i as int]));
                }
            }
            expired.push((WidgetId(e.widget_id), TimerId(e.timer_id)));
            proof {
                assert(pair_keys(expired@) =~= pair_keys(fired_before).push(key));
                lemma_push_contains(pair_keys(fired_before), key);
            }
            match t.recurring {
                Some(period) => {
                    let next = now + period;
                    self.active.insert(key, TimerEntry { expiration: next, recurring: Some(period) });
                    let ne = HeapEntry { expiration: next, widget_id: e.widget_id, timer_id: e.timer_id };
                    let ghost heap_mid = self.heap@;
                    self.heap.push(ne);
                    proof {
                        lemma_count_due_push(heap_mid, ne, now);
                        assert(self.heap@[self.heap@.len() - 1] == ne);
                        assert forall|k: Key| #[trigger] self.active@.contains_key(k) implies heap_has(
                            self.heap@,
                            k,
                            self.active@[k].expiration,
                        ) by {
                            if k != key {
                                let x = HeapEntry {
                                    expiration: self.active@[k].expiration,
                                    widget_id: k.0,
                                    timer_id: k.1,
                                };
                                assert(heap_has(heap_before, k, active_before[k].expiration));
                                lemma_contains_after_remove(heap_before, i as int, x);
                                let j = choose|j: int| 0 <= j < heap_mid.len() && heap_mid[j] == x;
                                assert(self.heap@[j] == x);
                            }
                        }
                    }
                },
                None => {
                    self.active.remove(&key);
                    proof {
                        assert forall|k: Key| #[trigger] self.active@.contains_key(k) implies heap_has(
                            self.heap@,
                            k,
                            self.active@[k].expiration,
                        ) by {
                            let x = HeapEntry {
                                expiration: self.active@[k].expiration,
                                widget_id: k.0,
                                timer_id: k.1,
                            };
                            assert(heap_has(heap_before, k, active_before[k].expiration));
                            lemma_contains_after_remove(heap_before, i as int, x);
                        }
                    }
                },
            }
            proof {
                assert forall|i2: int, k: Key|
                    0 <= i2 < expired@.len() && #[trigger] is_due(a0, k, now)
                        && !pair_keys(expired@).contains(k) implies fires_before(
                    a0,
                    #[trigger] pair_keys(expired@)[i2],
                    k,
                ) by {
                    if i2 < fired_before.len() {
                        assert(pair_keys(expired@)[i2] == pair_keys(fired_before)[i2]);
                        assert(!pair_keys(fired_before).contains(k));
                    }
                }
            }
        }
        proof {
            assert(self.active@ =~= after_poll(a0, now));
        }
        expired
    }
}

} // verus!

verus! {

/// Timers of all widgets (global service), and the clock they are armed
/// and fired against.
pub struct TimeService {
    state: TimerState,
    clock: crate::clock::Clock,
}

impl TimeService {
    pub closed spec fn timers(self) -> Map<Key, TimerEntry> {
        self.state.timers()
    }

    pub closed spec fn wf(self) -> bool {
        self.state.wf()
    }

    /// The latest clock reading this service has taken (0 before the first):
    /// every later reading is at least this.
    pub closed spec fn clock_floor(self) -> u64 {
        self.clock.floor()
    }

    pub fn new() -> (s: Self)
        ensures
            s.wf(),
            s.timers() == Map::<Key, TimerEntry>::empty(),
            s.clock_floor() == 0,
    {
        TimeService { state: TimerState::new(), clock: crate::clock::Clock::new() }
    }

    /// Arms a timer to expire `duration` ticks after `now`.
    pub fn schedule_at(
        &mut self,
        widget_id: WidgetId,
        timer_id: TimerId,
        now: u64,
        duration: u64,
        recurring: Option<u64>,
    )
        requires
            old(self).wf(),
            now + duration <= u64::MAX,
            recurring is Some ==> recurring->0 > 0,
        ensures
            final(self).wf(),
            final(self).timers() == old(self).timers().insert(
                (widget_id.0, timer_id.0),
                TimerEntry { expiration: deadline(now, duration), recurring },
            ),
            final(self).clock_floor() == old(self).clock_floor(),
    {
        self.state.insert(widget_id, timer_id, now, duration, recurring);
    }

    /// Arms a timer to expire `duration` ticks from the current clock reading
    /// `now`: armed exactly when that deadline fits in the tick counter;
    /// otherwise returns `false` and changes nothing.
    pub fn schedule(
        &mut self,
        widget_id: WidgetId,
        timer_id: TimerId,
        duration: u64,
        recurring: Option<u64>,
    ) -> (armed: bool)
        requires
            old(self).wf(),
            recurring is Some ==> recurring->0 > 0,
        ensures
            final(self).wf(),
            exists|now: u64|
                #[trigger] schedule_outcome(
                    old(self).timers(),
                    final(self).timers(),
                    (widget_id.0, timer_id.0),
                    now,
                    duration,
                    recurring,
                    armed,
                ) && now >= old(self).clock_floor() && final(self).clock_floor() == now,
    {
        let now = self.clock.read();
        if now > u64::MAX - duration {
            assert(schedule_outcome(
                old(self).timers(),
                self.timers(),
                (widget_id.0, timer_id.0),
                now,
                duration,
                recurring,
                false,
            ));
            return false;
        }
        self.schedule_at(widget_id, timer_id, now, duration, recurring);
        assert(schedule_outcome(
            old(self).timers(),
            self.timers(),
            (widget_id.0, timer_id.0),
            now,
            duration,
            recurring,
            true,
        ));
        true
    }

    /// Disarms a timer.
    pub fn cancel(&mut self, widget_id: WidgetId, timer_id: TimerId)
        requires
            old(self).wf(),
        ensures
            final(self).wf(),
            final(self).timers() == old(self).timers().remove((widget_id.0, timer_id.0)),
            final(self).clock_floor() == old(self).clock_floor(),
    {
        self.state.remove(widget_id, timer_id);
    }

    /// Fires the timers due at `now`; see [`TimerState::poll`].
    pub fn poll_at(&mut self, now: u64) -> (expired: Vec<(WidgetId, TimerId)>)
        requires
            old(self).wf(),
            reschedule_fits(old(self).timers(), now),
        ensures
            final(self).wf(),
            fired_in_order(old(self).timers(), now, pair_keys(expired@)),
            final(self).timers() == after_poll(old(self).timers(), now),
            final(self).clock_floor() == old(self).clock_floor(),
    {
        self.state.poll(now)
    }

    /// Whether every due recurring timer can be rescheduled after `now`.
    fn reschedule_fits_at(&self, now: u64) -> (r: bool)
        requires
            self.wf(),
        ensures
            r == reschedule_fits(self.timers(), now),
    {
        let mut ok = true;
        let ghost m = self.state.active@;
        let keys = self.state.active.keys();
        let ghost ks = vstd::std_specs::iter::IteratorSpec::remaining(&keys).unref();
        assert(ks.to_set() == m.dom());
        assert forall|j: int| 0 <= j < ks.len() implies m.contains_key(#[trigger] ks[j]) by {
            assert(ks.contains(ks[j]));
            assert(ks.to_set().contains(ks[j]));
        }
        for k in it: keys
            invariant
                m == self.state.active@,
                ks == it.seq().unref(),
                forall|j: int| 0 <= j < ks.len() ==> m.contains_key(#[trigger] ks[j]),
                ok <==> forall|j: int| 0 <= j < it.index() ==> key_fits(m, #[trigger] ks[j], now),
        {
            proof {
                assert(ks[it.index() as int] == *k);
                assert(m.contains_key(*k));
            }
            let t = *self.state.active.get(k).unwrap();
            match t.recurring {
                Some(p) => {
                    if t.expiration <= now && now > u64::MAX - p {
                        ok = false;
                    }
                },
                None => {},
            }
        }
        proof {
            if ok {
                assert forall|k: Key| #[trigger]
                    is_due(m, k, now) && m[k].recurring is Some implies now + m[k].recurring->0
                    <= u64::MAX by {
                    assert(ks.to_set().contains(k));
                    let j = choose|j: int| 0 <= j < ks.len() && ks[j] == k;
                    assert(key_fits(m, ks[j], now));
                }
            } else {
                let j = choose|j: int| 0 <= j < ks.len() && !key_fits(m, #[trigger] ks[j], now);
                assert(ks.contains(ks[j]));
                assert(ks.to_set().contains(ks[j]));
                assert(is_due(m, ks[j], now));
            }
        }
        ok
    }

    /// Fires the timers due at the current clock reading `now`; see
    /// [`TimerState::poll`]. Returns `None` and changes nothing exactly when
    /// a due recurring timer could not be rescheduled within the tick counter.
    pub fn poll(&mut self) -> (expired: Option<Vec<(WidgetId, TimerId)>>)
        requires
            old(self).wf(),
        ensures
            final(self).wf(),
            exists|now: u64|
                #[trigger] poll_outcome(old(self).timers(), final(self).timers(), now, opt_keys(expired))
                    && now >= old(self).clock_floor() && final(self).clock_floor() == now,
    {
        let now = self.clock.read();
        if !self.reschedule_fits_at(now) {
            assert(poll_outcome(old(self).timers(), self.timers(), now, opt_keys(None)));
            return None;
        }
        let v = self.poll_at(now);
        let r = Some(v);
        assert(opt_keys(r) == Some(pair_keys(v@)));
        assert(poll_outcome(old(self).timers(), self.timers(), now, opt_keys(r)));
        r
    }

    /// A per-widget handle whose timer ids start at zero.
    pub fn scoped(&self, widget_id: WidgetId) -> (t: WidgetTime)
        ensures
            t.widget() == widget_id,
            t.next_id() == 0,
    {
        WidgetTime { widget_id, next_id: 0 }
    }
}

/// Timer handle of one widget; hands out sequential timer ids.
pub struct WidgetTime {
    pub widget_id: WidgetId,
    next_id: u32,
}

impl WidgetTime {
    pub closed spec fn next_id(self) -> u32 {
        self.next_id
    }

    pub closed spec fn widget(self) -> WidgetId {
        self.widget_id
    }

    /// Arms a new timer firing `data.duration` ticks after `now` (again every
    /// `data.duration` ticks if recurring) and returns its fresh id.
    pub fn create_timeout_at(
        &mut self,
        service: &mut TimeService,
        now: u64,
        data: crate::time::CreateTimeoutData,
    ) -> (id: TimerId)
        requires
            old(service).wf(),
            old(self).next_id() < u32::MAX,
            now + data.duration <= u64::MAX,
            data.recurring ==> data.duration > 0,
        ensures
            id.0 == old(self).next_id(),
            final(self).next_id() == old(self).next_id() + 1,
            final(self).widget() == old(self).widget(),
            final(service).wf(),
            final(service).timers() == old(service).timers().insert(
                (old(self).widget().0, id.0),
                TimerEntry {
                    expiration: deadline(now, data.duration),
                    recurring: if data.recurring {
                        Some(data.duration)
                    } else {
                        None
                    },
                },
            ),
            final(service).clock_floor() == old(service).clock_floor(),
    {
        let id = TimerId(self.next_id);
        self.next_id = self.next_id + 1;
        let recurring = if data.recurring {
            Some(data.duration)
        } else {
            None
        };
        service.schedule_at(self.widget_id, id, now, data.duration, recurring);
        id
    }

    /// Arms a new timer against the current clock reading `now` and returns
    /// its fresh id: armed exactly when `now + data.duration` fits in the
    /// tick counter; otherwise returns `None` and changes nothing.
    pub fn create_timeout(
        &mut self,
        service: &mut TimeService,
        data: crate::time::CreateTimeoutData,
    ) -> (id: Option<TimerId>)
        requires
            old(service).wf(),
            old(self).next_id() < u32::MAX,
            data.recurring ==> data.duration > 0,
        ensures
            final(service).wf(),
            final(self).widget() == old(self).widget(),
            exists|now: u64|
                #[trigger] schedule_outcome(
                    old(service).timers(),
                    final(service).timers(),
                    (old(self).widget().0, old(self).next_id()),
                    now,
                    data.duration,
                    period_of(data),
                    id is Some,
                ) && now >= old(service).clock_floor() && final(service).clock_floor() == now,
            id is None ==> final(self).next_id() == old(self).next_id(),
            id matches Some(t) ==> t.0 == old(self).next_id() && final(self).next_id() == old(
                self,
            ).next_id() + 1,
    {
        let now = service.clock.read();
        let ghost recurring = period_of(data);
        if now > u64::MAX - data.duration {
            let none: Option<TimerId> = None;
            assert(schedule_outcome(
                old(service).timers(),
                service.timers(),
                (old(self).widget().0, old(self).next_id()),
                now,
                data.duration,
                recurring,
                none is Some,
            ));
            return none;
        }
        let id = Some(self.create_timeout_at(service, now, data));
        assert(schedule_outcome(
            old(service).timers(),
            service.timers(),
            (old(self).widget().0, old(self).next_id()),
            now,
            data.duration,
            recurring,
            id is Some,
        ));
        id
    }

    /// Current Unix time from `sync`, or 0 before the first sync.
    pub fn get_unix_timestamp(&mut self, sync: &TimeSyncService) -> (t: i64)
        requires
            sync.wf(),
        ensures
            *final(self) == *old(self),
            sync.offset() == 0 ==> t == 0,
            sync.offset() != 0 ==> exists|now: u64|
                #![trigger sync.secs_at(now)]
                now >= sync.clock_floor() && t == wrapping_total(sync.offset(), sync.secs_at(now)),
    {
        match sync.get_unix_timestamp() {
            Some(t) => t,
            None => 0,
        }
    }

    /// Unix time received at the last sync, or -1 before the first.
    pub fn get_last_sync(&mut self, sync: &TimeSyncService) -> (t: i64)
        ensures
            *final(self) == *old(self),
            t == (if sync.sync_unix() == 0 {
                -1i64
            } else {
                sync.sync_unix()
            }),
    {
        match sync.get_last_sync_unix() {
            Some(t) => t,
            None => -1,
        }
    }

    /// Disarms one of this widget's timers.
    pub fn delete_timeout(&mut self, service: &mut TimeService, data: crate::time::DeleteTimeoutData)
        requires
            old(service).wf(),
        ensures
            *final(self) == *old(self),
            final(service).wf(),
            final(service).timers() == old(service).timers().remove(
                (old(self).widget().0, data.id.0),
            ),
    {
        service.cancel(self.widget_id, data.id);
    }
}

/// After a poll at `now` no remaining timer is due at `now`: one-shot timers
/// that fired are gone and recurring ones moved a full period past `now`.
pub proof fn lemma_poll_leaves_nothing_due(m: Map<Key, TimerEntry>, now: u64, k: Key)
    requires
        forall|j: Key| #[trigger]
            m.contains_key(j) && m[j].recurring is Some ==> m[j].recurring->0 > 0,
        reschedule_fits(m, now),
    ensures
        !is_due(after_poll(m, now), k, now),
{
    if after_poll(m, now).contains_key(k) && m[k].expiration <= now {
        assert(is_due(m, k, now));
    }
}

/// A cancelled timer is never reported by a later poll.
pub proof fn lemma_cancelled_never_fires(
    m: Map<Key, TimerEntry>,
    k: Key,
    now: u64,
    keys: Seq<Key>,
)
    requires
        fired_in_order(m.remove(k), now, keys),
    ensures
        !keys.contains(k),
{
    if keys.contains(k) {
        let i = choose|i: int| 0 <= i < keys.len() && keys[i] == k;
        assert(is_due(m.remove(k), keys[i], now));
    }
}

/// A timer armed with expiration `e.expiration` is reported by any poll at
/// `now >= e.expiration`, and exactly once.
pub proof fn lemma_armed_timer_fires_once(
    m: Map<Key, TimerEntry>,
    k: Key,
    e: TimerEntry,
    now: u64,
    keys: Seq<Key>,
)
    requires
        e.expiration <= now,
        fired_in_order(m.insert(k, e), now, keys),
    ensures
        keys.contains(k),
        forall|i: int, j: int| 0 <= i < j < keys.len() ==> keys[i] != keys[j],
{
    assert(is_due(m.insert(k, e), k, now));
    assert forall|i: int, j: int| 0 <= i < j < keys.len() implies keys[i] != keys[j] by {
        assert(fires_before(m.insert(k, e), keys[i], keys[j]));
    }
}

/// A timer armed at the clock reading `now` for `duration` ticks expires
/// exactly `duration` ticks after that reading, keeps its period, and so
/// never expires before `duration` ticks after any earlier reading `floor`.
pub proof fn lemma_armed_deadline(
    before: Map<Key, TimerEntry>,
    after: Map<Key, TimerEntry>,
    key: Key,
    now: u64,
    duration: u64,
    recurring: Option<u64>,
    floor: u64,
)
    requires
        schedule_outcome(before, after, key, now, duration, recurring, true),
        now >= floor,
    ensures
        after.contains_key(key),
        after[key].expiration == now + duration,
        after[key].expiration >= floor + duration,
        after[key].recurring == recurring,
        forall|k: Key| k != key ==> #[trigger] after.contains_key(k) == before.contains_key(k),
{
}

} // verus!
