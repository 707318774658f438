//! Grouping of polled timer and HTTP completions into per-widget event lists.
use vstd::prelude::*;

use crate::http::HttpResponse;
use crate::time::TimerId;
use crate::widget::{WidgetEvent, WidgetId};
use std::collections::BTreeMap;
use crate::widget::id_order::lemma_increasing_ids;

verus! {

broadcast use vstd::std_specs::btree::group_btree_axioms;

/// Events gathered for each widget, keyed by widget id.
pub struct EventQueue {
    events: BTreeMap<usize, Vec<WidgetEvent>>,
}

/// The events gathered so far for widget `w`.
pub open spec fn events_of(m: Map<usize, Seq<WidgetEvent>>, w: usize) -> Seq<WidgetEvent> {
    if m.contains_key(w) {
        m[w]
    } else {
        seq![]
    }
}

/// `m` after `e` arrived for widget `w`.
pub open spec fn with_event(m: Map<usize, Seq<WidgetEvent>>, w: usize, e: WidgetEvent) -> Map<
    usize,
    Seq<WidgetEvent>,
> {
    m.insert(w, events_of(m, w).push(e))
}

/// `m` after each event of `pairs` arrived, in order.
pub open spec fn with_events(
    m: Map<usize, Seq<WidgetEvent>>,
    pairs: Seq<(usize, WidgetEvent)>,
) -> Map<usize, Seq<WidgetEvent>>
    decreases pairs.len(),
{
    if pairs.len() == 0 {
        m
    } else {
        with_event(
            with_events(m, pairs.drop_last()),
            pairs.last().0,
            pairs.last().1,
        )
    }
}

/// The events among `pairs` that are for widget `w`, in order.
pub open spec fn arrived_for(pairs: Seq<(usize, WidgetEvent)>, w: usize) -> Seq<WidgetEvent>
    decreases pairs.len(),
{
    if pairs.len() == 0 {
        seq![]
    } else if pairs.last().0 == w {
        arrived_for(pairs.drop_last(), w).push(pairs.last().1)
    } else {
        arrived_for(pairs.drop_last(), w)
    }
}

/// Every widget ends up with the events it had, followed by exactly the
/// newly arrived events addressed to it, in arrival order.
pub proof fn lemma_events_arrive_in_order(
    m: Map<usize, Seq<WidgetEvent>>,
    pairs: Seq<(usize, WidgetEvent)>,
    w: usize,
)
    ensures
        events_of(with_events(m, pairs), w) == events_of(m, w) + arrived_for(pairs, w),
    decreases pairs.len(),
{
    if pairs.len() == 0 {
        assert(events_of(m, w) + seq![] =~= events_of(m, w));
    } else {
        lemma_events_arrive_in_order(m, pairs.drop_last(), w);
        let before = events_of(m, w) + arrived_for(pairs.drop_last(), w);
        if pairs.last().0 == w {
            assert(before.push(pairs.last().1) =~= events_of(m, w) + arrived_for(
                pairs.drop_last(),
                w,
            ).push(pairs.last().1));
        }
    }
}

impl EventQueue {
    /// The events gathered for each widget that has any.
    pub closed spec fn gathered(&self) -> Map<usize, Seq<WidgetEvent>> {
        self.events@.map_values(|v: Vec<WidgetEvent>| v@)
    }

    pub fn new() -> (q: Self)
        ensures
            q.gathered() == Map::<usize, Seq<WidgetEvent>>::empty(),
    {
        let q = EventQueue { events: BTreeMap::new() };
        assert(q.gathered() =~= Map::<usize, Seq<WidgetEvent>>::empty());
        q
    }

    /// Number of widgets that have events.
    pub fn len(&self) -> (n: usize)
        ensures
            n == self.gathered().dom().len(),
    {
        assert(self.gathered().dom() =~= self.events@.dom());
        self.events.len()
    }

    /// Adds `e` at the end of widget `w`'s events.
    pub fn push(&mut self, w: WidgetId, e: WidgetEvent)
        ensures
            final(self).gathered() == with_event(old(self).gathered(), w.0, e),
    {
        let ghost before = self.events@;
        let list = match self.events.remove(&w.0) {
            Some(l) => {
                let mut l = l;
                l.push(e);
                l
            },
            None => {
                let mut l = Vec::new();
                l.push(e);
                l
            },
        };
        self.events.insert(w.0, list);
        proof {
            let g0 = before.map_values(|v: Vec<WidgetEvent>| v@);
            if before.contains_key(w.0) {
                assert(events_of(g0, w.0) == before[w.0]@);
            } else {
                assert(events_of(g0, w.0) =~= seq![]);
                assert(list@ =~= seq![e]);
            }
            assert(self.gathered() =~= with_event(g0, w.0, e));
        }
    }

    /// Hands over the gathered events, widgets in ascending id order, and
    /// leaves the queue empty.
    pub fn take_groups(&mut self) -> (groups: Vec<(WidgetId, Vec<WidgetEvent>)>)
        ensures
            final(self).gathered() == Map::<usize, Seq<WidgetEvent>>::empty(),
            groups@.len() == old(self).gathered().dom().len(),
            forall|i: int|
                0 <= i < groups@.len() ==> old(self).gathered().contains_key(
                    (#[trigger] groups@[i]).0.0,
                ) && groups@[i].1@ == old(self).gathered()[groups@[i].0.0],
            forall|i: int, j: int|
                0 <= i < j < groups@.len() ==> groups@[i].0.0 < groups@[j].0.0,
            forall|w: usize|
                old(self).gathered().contains_key(w) ==> exists|i: int|
                    0 <= i < groups@.len() && (#[trigger] groups@[i]).0.0 == w,
    {
        let mut map: BTreeMap<usize, Vec<WidgetEvent>> = BTreeMap::new();
        core::mem::swap(&mut map, &mut self.events);
        let ghost orig = map@;
        assert(self.gathered() =~= Map::<usize, Seq<WidgetEvent>>::empty());
        let key_iter = map.keys();
        let ghost ks = vstd::std_specs::iter::IteratorSpec::remaining(&key_iter).unref();
        proof {
            lemma_increasing_ids(vstd::std_specs::iter::IteratorSpec::remaining(&key_iter));
            assert forall|j: int| 0 <= j < ks.len() implies orig.contains_key(#[trigger] ks[j]) by {
                assert(ks.contains(ks[j]));
                assert(ks.to_set().contains(ks[j]));
            }
        }
        let mut keys: Vec<usize> = Vec::new();
        for k in it: key_iter
            invariant
                ks == it.seq().unref(),
                keys@ == ks.take(it.index() as int),
        {
            proof {
                assert(ks[it.index() as int] == *k);
            }
            keys.push(*k);
            proof {
                assert(ks.take(it.index() + 1) =~= ks.take(it.index() as int).push(*k));
            }
        }
        assert(keys@ =~= ks);
        let mut groups: Vec<(WidgetId, Vec<WidgetEvent>)> = Vec::new();
        let n = keys.len();
        let mut i: usize = 0;
        while i < n
            invariant
                n == keys@.len(),
                keys@ == ks,
                i <= n,
                forall|a: int, b: int| 0 <= a < b < ks.len() ==> #[trigger] ks[a] < #[trigger] ks[b],
                forall|j: int| 0 <= j < ks.len() ==> orig.contains_key(#[trigger] ks[j]),
                forall|k: usize| #[trigger]
                    map@.contains_key(k) <==> orig.contains_key(k) && !ks.take(i as int).contains(k),
                forall|k: usize| #[trigger] map@.contains_key(k) ==> map@[k] == orig[k],
                groups@.len() == i,
                forall|j: int|
                    0 <= j < i ==> (#[trigger] groups@[j]).0.0 == ks[j] && groups@[j].1
                        == orig[ks[j]],
            decreases n - i,
        {
            let k = keys[i];
            proof {
                assert(!ks.take(i as int).contains(k)) by {
                    if ks.take(i as int).contains(k) {
                        let j = choose|j: int| 0 <= j < i && ks.take(i as int)[j] == k;
                        assert(ks[j] < ks[i as int]);
                    }
                }
            }
            let list = match map.remove(&k) {
                Some(l) => l,
                None => {
                    assert(false);
                    Vec::new()
                },
            };
            groups.push((WidgetId(k), list));
            proof {
                assert forall|k2: usize| #[trigger]
                    ks.take(i + 1).contains(k2) <==> (ks.take(i as int).contains(k2) || k2 == k) by {
                    if ks.take(i as int).contains(k2) {
                        let j = choose|j: int| 0 <= j < i && ks.take(i as int)[j] == k2;
                        assert(ks.take(i + 1)[j] == k2);
                    }
                    if k2 == k {
                        assert(ks.take(i + 1)[i as int] == k2);
                    }
                    if ks.take(i + 1).contains(k2) && k2 != k {
                        let j = choose|j: int| 0 <= j < i + 1 && #[trigger] ks.take(i + 1)[j] == k2;
                        assert(ks.take(i as int)[j] == k2);
                    }
                }
            }
            i = i + 1;
        }
        proof {
            let g = orig.map_values(|v: Vec<WidgetEvent>| v@);
            assert(g.dom() =~= orig.dom());
            assert(ks.to_set() == orig.dom());
            ks.unique_seq_to_set();
            assert forall|w: usize| g.contains_key(w) implies exists|j: int|
                0 <= j < groups@.len() && (#[trigger] groups@[j]).0.0 == w by {
                assert(ks.to_set().contains(w));
                let j = choose|j: int| 0 <= j < ks.len() && ks[j] == w;
                assert(groups@[j].0.0 == w);
            }
        }
        groups
    }
}

/// `e` is the event a widget receives for the finished request `r`:
/// success when headers arrived; missing headers or body become empty.
pub open spec fn is_http_event_of(e: WidgetEvent, r: HttpResponse) -> bool {
    &&& e matches WidgetEvent::HttpResponse { request_id, headers, body, success }
    &&& request_id == r.request_id.0
    &&& success == r.headers is Some
    &&& match r.headers {
        Some(h) => headers == h,
        None => headers@.len() == 0,
    }
    &&& match r.body {
        Some(b) => body == b,
        None => body@.len() == 0,
    }
}

/// The event for a finished HTTP request.
pub fn http_event(r: HttpResponse) -> (e: WidgetEvent)
    ensures
        is_http_event_of(e, r),
{
    let success = r.headers.is_some();
    let headers = match r.headers {
        Some(h) => h,
        None => Vec::new(),
    };
    let body = match r.body {
        Some(b) => b,
        None => String::new(),
    };
    WidgetEvent::HttpResponse { request_id: r.request_id.0, headers, body, success }
}

/// Queues one timer event per expired timer, in the order they expired.
pub fn handle_timer_events(events: &mut EventQueue, expired: Vec<(WidgetId, TimerId)>)
    ensures
        final(events).gathered() == with_events(
            old(events).gathered(),
            expired@.map_values(
                |p: (WidgetId, TimerId)| (p.0.0, WidgetEvent::TimerInterrupt { timer_id: p.1 }),
            ),
        ),
{
    let ghost pairs = expired@.map_values(
        |p: (WidgetId, TimerId)| (p.0.0, WidgetEvent::TimerInterrupt { timer_id: p.1 }),
    );
    let ghost start = events.gathered();
    for p in it: expired
        invariant
            it.seq() == expired@,
            pairs == expired@.map_values(
                |p: (WidgetId, TimerId)| (p.0.0, WidgetEvent::TimerInterrupt { timer_id: p.1 }),
            ),
            events.gathered() == with_events(start, pairs.take(it.index() as int)),
    {
        let (widget_id, timer_id) = p;
        proof {
            assert(pairs.take(it.index() + 1).drop_last() =~= pairs.take(it.index() as int));
        }
        events.push(widget_id, WidgetEvent::TimerInterrupt { timer_id });
    }
    proof {
        assert(pairs.take(pairs.len() as int) =~= pairs);
    }
}

/// Each finished request's widget paired with the event built for it.
pub open spec fn http_pairs(responses: Seq<(WidgetId, HttpResponse)>, evs: Seq<WidgetEvent>) -> Seq<
    (usize, WidgetEvent),
> {
    Seq::new(evs.len(), |i: int| (responses[i].0.0, evs[i]))
}

/// Queues one HTTP event per finished request, in the order they finished.
pub fn handle_http_events(events: &mut EventQueue, responses: Vec<(WidgetId, HttpResponse)>)
    ensures
        exists|evs: Seq<WidgetEvent>|
            #![trigger http_pairs(responses@, evs)]
            {
                &&& evs.len() == responses@.len()
                &&& forall|i: int|
                    0 <= i < evs.len() ==> is_http_event_of(#[trigger] evs[i], responses@[i].1)
                &&& final(events).gathered() == with_events(
                    old(events).gathered(),
                    http_pairs(responses@, evs),
                )
            },
{
    let ghost start = events.gathered();
    let ghost mut evs: Seq<WidgetEvent> = seq![];
    for p in it: responses
        invariant
            it.seq() == responses@,
            evs.len() == it.index(),
            forall|i: int| 0 <= i < evs.len() ==> is_http_event_of(#[trigger] evs[i], responses@[i].1),
            events.gathered() == with_events(start, http_pairs(responses@, evs)),
    {
        let (widget_id, response) = p;
        let e = http_event(response);
        let ghost before = evs;
        proof {
            evs = evs.push(e);
            assert(http_pairs(responses@, evs).drop_last() =~= http_pairs(responses@, before));
        }
        events.push(widget_id, e);
    }
    assert(http_pairs(responses@, evs) == http_pairs(responses@, evs));
}

} // verus!
