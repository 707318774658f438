use std::collections::BTreeMap;
use vstd::prelude::*;

use crate::timer::key_order::{key_lt, lemma_increasing_keys};
use crate::timer::{TimeoutData, TimerId};
use crate::widget::WidgetId;

verus! {

broadcast use vstd::std_specs::btree::group_btree_axioms;

/// Key of one timer: the owning widget and the widget's timer id.
#[derive(Clone, Copy, PartialEq, Eq, Structural)]
pub struct TimerKey {
    pub widget_id: WidgetId,
    pub timer_id: TimerId,
}

/// Abstract key of a timer: (widget id, timer id).
pub type Key = (usize, u32);

/// `k` is armed and it and every timer with a smaller key have expired at
/// `now`: the timers a poll reports form the longest run, in key order,
/// of expired timers.
pub open spec fn expired_run(m: Map<Key, u64>, k: Key, now: u64) -> bool {
    &&& m.contains_key(k)
    &&& forall|j: Key| #[trigger] m.contains_key(j) && !key_lt(k, j) ==> m[j] <= now
}

/// The timers left by a poll at `now`.
pub open spec fn after_poll(m: Map<Key, u64>, now: u64) -> Map<Key, u64> {
    Map::new(|k: Key| m.contains_key(k) && !expired_run(m, k, now), |k: Key| m[k])
}

/// `keys` lists, in increasing key order, exactly the timers in the expired run of `m` at `now`.
pub open spec fn reported(m: Map<Key, u64>, now: u64, keys: Seq<Key>) -> bool {
    &&& forall|i: int| 0 <= i < keys.len() ==> expired_run(m, #[trigger] keys[i], now)
    &&& forall|k: Key| expired_run(m, k, now) ==> #[trigger] keys.contains(k)
    &&& forall|i: int, j: int|
        0 <= i < j < keys.len() ==> key_lt(#[trigger] keys[i], #[trigger] keys[j])
}

/// A poll at `now` of `before` reported `keys` and left `after`.
pub open spec fn polled(before: Map<Key, u64>, after: Map<Key, u64>, now: u64, keys: Seq<Key>) -> bool {
    reported(before, now, keys) && after == after_poll(before, now)
}

pub open spec fn pair_keys(s: Seq<(WidgetId, TimerId)>) -> Seq<Key> {
    s.map_values(|p: (WidgetId, TimerId)| (p.0.0, p.1.0))
}

/// Tick at which a timer armed at `now` for `duration` ticks expires.
pub open spec fn deadline(now: u64, duration: u64) -> u64 {
    (now + duration) as u64
}

/// Arming the timer `key` for `duration` ticks at the clock reading `now`
/// took `before` to `after`: armed exactly when the deadline fits in the
/// tick counter, and nothing changed otherwise.
pub open spec fn schedule_outcome(
    before: Map<Key, u64>,
    after: Map<Key, u64>,
    key: Key,
    now: u64,
    duration: u64,
    armed: bool,
) -> bool {
    &&& armed <==> now + duration <= u64::MAX
    &&& if armed {
        after == before.insert(key, deadline(now, duration))
    } else {
        after == before
    }
}

/// Expiration ticks of armed timers, ordered by key.
pub struct TimerService {
    timers: BTreeMap<Key, u64>,
    clock: crate::clock::Clock,
}

impl TimerService {
    /// The armed timers: key to expiration tick.
    pub closed spec fn timers(self) -> Map<Key, u64> {
        self.timers@
    }

    /// The latest clock reading this service has taken (0 before the first):
    /// every later reading is at least this.
    pub closed spec fn clock_floor(self) -> u64 {
        self.clock.floor()
    }

    pub fn new() -> (s: Self)
        ensures
            s.timers() == Map::<Key, u64>::empty(),
            s.clock_floor() == 0,
    {
        TimerService { timers: BTreeMap::new(), clock: crate::clock::Clock::new() }
    }

    /// Arms (or re-arms) a timer to expire `duration` ticks after `now`.
    pub fn schedule_at(&mut self, widget_id: WidgetId, timer_id: TimerId, now: u64, duration: u64)
        requires
            now + duration <= u64::MAX,
        ensures
            final(self).timers() == old(self).timers().insert(
                (widget_id.0, timer_id.0),
                deadline(now, duration),
            ),
            final(self).clock_floor() == old(self).clock_floor(),
    {
        let expiration = now + duration;
        self.timers.insert((widget_id.0, timer_id.0), expiration);
    }

    /// Arms a timer against the current clock reading `now`: armed exactly
    /// when `now + duration` fits in the tick counter; otherwise returns
    /// `false` and changes nothing.
    pub fn schedule(&mut self, widget_id: WidgetId, timer_id: TimerId, duration: u64) -> (armed:
        bool)
        ensures
            exists|now: u64|
                #[trigger] schedule_outcome(
                    old(self).timers(),
                    final(self).timers(),
                    (widget_id.0, timer_id.0),
                    now,
                    duration,
                    armed,
                ) && now >= old(self).clock_floor() && final(self).clock_floor() == now,
    {
        let now = self.clock.read();
        if now > u64::MAX - duration {
            assert(schedule_outcome(
                old(self).timers(),
                self.timers(),
                (widget_id.0, timer_id.0),
                now,
                duration,
                false,
            ));
            return false;
        }
        self.schedule_at(widget_id, timer_id, now, duration);
        assert(schedule_outcome(
            old(self).timers(),
            self.timers(),
            (widget_id.0, timer_id.0),
            now,
            duration,
            true,
        ));
        true
    }

    /// Disarms a timer.
    pub fn cancel(&mut self, widget_id: WidgetId, timer_id: TimerId)
        ensures
            final(self).timers() == old(self).timers().remove((widget_id.0, timer_id.0)),
            final(self).clock_floor() == old(self).clock_floor(),
    {
        self.timers.remove(&(widget_id.0, timer_id.0));
    }

    /// Takes timers off the front of the key order while they have expired at
    /// `now`, stopping at the first one that has not (later keys stay armed
    /// even when they have expired).
    pub fn poll_at(&mut self, now: u64) -> (expired: Vec<(WidgetId, TimerId)>)
        ensures
            reported(old(self).timers(), now, pair_keys(expired@)),
            final(self).timers() == after_poll(old(self).timers(), now),
            final(self).clock_floor() == old(self).clock_floor(),
    {
        let ghost m = self.timers@;
        let keys = self.timers.keys();
        let ghost ks = vstd::std_specs::iter::IteratorSpec::remaining(&keys).unref();
        proof {
            lemma_increasing_keys(vstd::std_specs::iter::IteratorSpec::remaining(&keys));
            assert forall|j: int| 0 <= j < ks.len() implies m.contains_key(#[trigger] ks[j]) by {
                assert(ks.contains(ks[j]));
                assert(ks.to_set().contains(ks[j]));
            }
        }
        let mut run: Vec<Key> = Vec::new();
        let mut stopped = false;
        for k in it: keys
            invariant_except_break
                !stopped,
                run@ == ks.take(it.index() as int),
            invariant
                m == self.timers@,
                ks == it.seq().unref(),
                forall|j: int| 0 <= j < ks.len() ==> m.contains_key(#[trigger] ks[j]),
                forall|j: int| 0 <= j < run@.len() ==> m[#[trigger] run@[j]] <= now,
            ensures
                run@ == ks.take(run@.len() as int),
                run@.len() <= ks.len(),
                forall|j: int| 0 <= j < run@.len() ==> m[#[trigger] run@[j]] <= now,
                stopped ==> run@.len() < ks.len() && m[ks[run@.len() as int]] > now,
                !stopped ==> run@.len() == ks.len(),
        {
            proof {
                assert(ks[it.index() as int] == *k);
            }
            let exp = *self.timers.get(k).unwrap();
            if exp > now {
                stopped = true;
                break ;
            }
            run.push(*k);
            proof {
                assert(ks.take(it.index() + 1) =~= ks.take(it.index() as int).push(*k));
            }
        }
        let mut expired: Vec<(WidgetId, TimerId)> = Vec::new();
        let mut i: usize = 0;
        while i < run.len()
            invariant
                i <= run@.len(),
                pair_keys(expired@) == run@.take(i as int),
                forall|k: Key| #[trigger]
                    self.timers@.contains_key(k) <==> m.contains_key(k) && !run@.take(
                        i as int,
                    ).contains(k),
                forall|k: Key| #[trigger] self.timers@.contains_key(k) ==> self.timers@[k] == m[k],
                self.clock_floor() == old(self).clock_floor(),
            decreases run@.len() - i,
        {
            let k = run[i];
            self.timers.remove(&k);
            expired.push((WidgetId(k.0), TimerId(k.1)));
            proof {
                assert(run@.take(i + 1) =~= run@.take(i as int).push(k));
                assert(pair_keys(expired@) =~= run@.take(i + 1));
                assert forall|k2: Key| #[trigger]
                    run@.take(i + 1).contains(k2) <==> (run@.take(i as int).contains(k2) || k2 == k) by {
                    if run@.take(i as int).contains(k2) {
                        let j = choose|j: int| 0 <= j < i && run@.take(i as int)[j] == k2;
                        assert(run@.take(i + 1)[j] == k2);
                    }
                    if k2 == k {
                        assert(run@.take(i + 1)[i as int] == k2);
                    }
                    if run@.take(i + 1).contains(k2) && k2 != k {
                        let j = choose|j: int| 0 <= j < i + 1 && #[trigger] run@.take(i + 1)[j] == k2;
                        assert(run@.take(i as int)[j] == k2);
                    }
                }
            }
            i = i + 1;
        }
        proof {
            assert(run@.take(run@.len() as int) =~= run@);
            // A key lies in the run exactly when it is in the expired run of `m`.
            assert forall|k: Key| #[trigger] run@.contains(k) <==> expired_run(m, k, now) by {
                if run@.contains(k) {
                    let p = choose|p: int| 0 <= p < run@.len() && run@[p] == k;
                    assert(ks[p] == k);
                    assert forall|j: Key| #[trigger] m.contains_key(j) && !key_lt(k, j) implies m[j]
                        <= now by {
                        assert(ks.to_set().contains(j));
                        let q = choose|q: int| 0 <= q < ks.len() && ks[q] == j;
                        if q > p {
                            assert(key_lt(ks[p], ks[q]));
                        }
                        assert(run@[q] == j);
                    }
                }
                if expired_run(m, k, now) {
                    assert(ks.to_set().contains(k));
                    let p = choose|p: int| 0 <= p < ks.len() && ks[p] == k;
                    if p >= run@.len() {
                        let q = run@.len() as int;
                        assert(m.contains_key(ks[q]));
                        if q < p {
                            assert(key_lt(ks[q], ks[p]));
                        }
                        assert(!key_lt(k, ks[q]));
                    } else {
                        assert(run@[p] == k);
                    }
                }
            }
            assert forall|i2: int, j2: int|
                0 <= i2 < j2 < run@.len() implies key_lt(#[trigger] run@[i2], #[trigger] run@[j2]) by {
                assert(run@[i2] == ks[i2] && run@[j2] == ks[j2]);
            }
            assert forall|i2: int| 0 <= i2 < run@.len() implies expired_run(
                m,
                #[trigger] run@[i2],
                now,
            ) by {
                assert(run@.contains(run@[i2]));
            }
            assert(self.timers@ =~= after_poll(m, now));
        }
        expired
    }

    /// Polls against the current clock reading; see [`TimerService::poll_at`].
    pub fn poll(&mut self) -> (expired: Vec<(WidgetId, TimerId)>)
        ensures
            exists|now: u64|
                #[trigger] polled(old(self).timers(), final(self).timers(), now, pair_keys(expired@))
                    && now >= old(self).clock_floor() && final(self).clock_floor() == now,
    {
        let now = self.clock.read();
        let v = self.poll_at(now);
        assert(polled(old(self).timers(), self.timers(), now, pair_keys(v@)));
        v
    }

    /// The timer handle of one widget.
    pub fn scoped(&self, widget_id: WidgetId) -> (t: WidgetTimer)
        ensures
            t.widget_id == widget_id,
    {
        WidgetTimer::new(widget_id)
    }
}

/// Timer handle of one widget; the widget chooses its timer ids.
pub struct WidgetTimer {
    pub widget_id: WidgetId,
}

impl WidgetTimer {
    pub fn new(widget_id: WidgetId) -> (t: Self)
        ensures
            t.widget_id == widget_id,
    {
        Self { widget_id }
    }

    /// Arms this widget's timer `data.id` to expire `data.duration` ticks after `now`.
    pub fn create_timeout_at(&mut self, service: &mut TimerService, now: u64, data: TimeoutData)
        requires
            now + data.duration <= u64::MAX,
        ensures
            final(self).widget_id == old(self).widget_id,
            final(service).timers() == old(service).timers().insert(
                (old(self).widget_id.0, data.id.0),
                deadline(now, data.duration),
            ),
            final(service).clock_floor() == old(service).clock_floor(),
    {
        service.schedule_at(self.widget_id, data.id, now, data.duration);
    }

    /// Arms this widget's timer against the current clock reading `now`:
    /// armed exactly when `now + data.duration` fits in the tick counter;
    /// otherwise returns `false` and changes nothing.
    pub fn create_timeout(&mut self, service: &mut TimerService, data: TimeoutData) -> (armed: bool)
        ensures
            final(self).widget_id == old(self).widget_id,
            exists|now: u64|
                #[trigger] schedule_outcome(
                    old(service).timers(),
                    final(service).timers(),
                    (old(self).widget_id.0, data.id.0),
                    now,
                    data.duration,
                    armed,
                ) && now >= old(service).clock_floor() && final(service).clock_floor() == now,
    {
        service.schedule(self.widget_id, data.id, data.duration)
    }

    /// Disarms this widget's timer `data.id`.
    pub fn delete_timeout(&mut self, service: &mut TimerService, data: TimeoutData)
        ensures
            final(self).widget_id == old(self).widget_id,
            final(service).timers() == old(service).timers().remove(
                (old(self).widget_id.0, data.id.0),
            ),
            final(service).clock_floor() == old(service).clock_floor(),
    {
        service.cancel(self.widget_id, data.id);
    }
}

/// After a poll, the smallest remaining key (if any) has not expired: a
/// second poll at the same instant reports nothing.
pub proof fn lemma_repoll_reports_nothing(m: Map<Key, u64>, now: u64, keys: Seq<Key>)
    requires
        m.dom().finite(),
        reported(after_poll(m, now), now, keys),
    ensures
        keys.len() == 0,
{
    if keys.len() > 0 {
        let k = keys[0];
        let a = after_poll(m, now);
        assert(expired_run(a, k, now));
        assert(m.contains_key(k) && !expired_run(m, k, now));
        let j = choose|j: Key| #[trigger] m.contains_key(j) && !key_lt(k, j) && m[j] > now;
        if a.contains_key(j) {
            assert(a[j] <= now);
        } else {
            assert(expired_run(m, j, now));
            assert(!key_lt(j, j));
        }
    }
}

/// A cancelled timer is not reported by a later poll.
pub proof fn lemma_cancelled_not_reported(m: Map<Key, u64>, k: Key, now: u64, keys: Seq<Key>)
    requires
        reported(m.remove(k), now, keys),
    ensures
        !keys.contains(k),
{
    if keys.contains(k) {
        let i = choose|i: int| 0 <= i < keys.len() && keys[i] == k;
        assert(expired_run(m.remove(k), keys[i], now));
    }
}

} // verus!
