use vstd::prelude::*;

use crate::event::{event_key, key_of, KeyView, SseEvent};
use crate::log::{EventLog, Receipt};

verus! {

/// An event passes dedup against the recorded `keys` when it is persisted at
/// all and its key is not yet recorded.
pub open spec fn passes(keys: Seq<KeyView>, e: SseEvent) -> bool {
    key_of(e) is Some && !keys.contains(key_of(e)->Some_0)
}

/// The recorded keys after the events `xs` have been handled, one by one.
pub open spec fn keys_after(keys: Seq<KeyView>, xs: Seq<SseEvent>) -> Seq<KeyView>
    decreases xs.len(),
{
    if xs.len() == 0 {
        keys
    } else {
        let ks = keys_after(keys, xs.drop_last());
        if passes(ks, xs.last()) {
            ks.push(key_of(xs.last())->Some_0)
        } else {
            ks
        }
    }
}

/// The events forwarded downstream, in order, when `xs` are handled one by
/// one against a log that holds `keys`.
pub open spec fn forwarded(keys: Seq<KeyView>, xs: Seq<SseEvent>) -> Seq<SseEvent>
    decreases xs.len(),
{
    if xs.len() == 0 {
        Seq::empty()
    } else {
        let f = forwarded(keys, xs.drop_last());
        if passes(keys_after(keys, xs.drop_last()), xs.last()) {
            f.push(xs.last())
        } else {
            f
        }
    }
}

/// The events of `xs` that came from the upstream `source`, in order.
pub open spec fn from_source(xs: Seq<SseEvent>, source: Seq<char>) -> Seq<SseEvent>
    decreases xs.len(),
{
    if xs.len() == 0 {
        Seq::empty()
    } else if xs.last().source@ == source {
        from_source(xs.drop_last(), source).push(xs.last())
    } else {
        from_source(xs.drop_last(), source)
    }
}

/// How many events of `xs` have the key `k`.
pub open spec fn key_count(xs: Seq<SseEvent>, k: KeyView) -> nat
    decreases xs.len(),
{
    if xs.len() == 0 {
        0
    } else if key_of(xs.last()) == Some(k) {
        key_count(xs.drop_last(), k) + 1
    } else {
        key_count(xs.drop_last(), k)
    }
}

/// Some event of `xs` has the key `k`.
pub open spec fn occurs(xs: Seq<SseEvent>, k: KeyView) -> bool {
    exists|i: int| 0 <= i < xs.len() && key_of(#[trigger] xs[i]) == Some(k)
}

/// Handles one inbound event: writes it to the log (the handshake and
/// shutdown events are not persisted) and returns it when it is to be
/// forwarded to the broadcaster, that is when the log recorded it as new.
pub fn handle_single_event(event: SseEvent, log: &mut EventLog) -> (r: Option<SseEvent>)
    requires
        old(log).wf(),
    ensures
        final(log).wf(),
        r == (if passes(old(log).keys(), event) {
            Some(event)
        } else {
            None::<SseEvent>
        }),
        final(log).keys() == keys_after(old(log).keys(), seq![event]),
        final(log).receipts() == (if key_of(event) is Some {
            old(log).receipts().push(Receipt { source: event.source, id: event.id })
        } else {
            old(log).receipts()
        }),
{
    let ghost k0 = log.keys();
    proof {
        assert(seq![event].drop_last() =~= Seq::<SseEvent>::empty());
        assert(keys_after(k0, seq![event].drop_last()) == k0);
        assert(seq![event].last() == event);
    }
    match event_key(&event) {
        None => None,
        Some(key) => {
            let id = match &event.id {
                Some(s) => Some(s.clone()),
                None => None,
            };
            let outcome = log.save(key, event.source.clone(), id);
            if outcome.forwards() {
                Some(event)
            } else {
                None
            }
        },
    }
}

/// Handles a batch of inbound events in order and returns those forwarded.
pub fn process_events(events: Vec<SseEvent>, log: &mut EventLog) -> (r: Vec<SseEvent>)
    requires
        old(log).wf(),
    ensures
        final(log).wf(),
        r@ == forwarded(old(log).keys(), events@),
        final(log).keys() == keys_after(old(log).keys(), events@),
{
    let ghost all = events@;
    let ghost k0 = log.keys();
    let mut rest = events;
    let mut out: Vec<SseEvent> = Vec::new();
    let mut i: usize = 0;
    let n: usize = rest.len();
    proof {
        assert(all.take(0) =~= Seq::<SseEvent>::empty());
        assert(all.len() <= usize::MAX);
    }
    while rest.len() > 0
        invariant
            log.wf(),
            0 <= i <= all.len(),
            all.len() <= usize::MAX,
            rest@ == all.subrange(i as int, all.len() as int),
            out@ == forwarded(k0, all.take(i as int)),
            log.keys() == keys_after(k0, all.take(i as int)),
        decreases rest.len(),
    {
        let e = rest.remove(0);
        proof {
            assert(all.take(i + 1).drop_last() =~= all.take(i as int));
            assert(all.take(i + 1).last() == e);
            assert(seq![e].drop_last() =~= Seq::<SseEvent>::empty());
            assert(keys_after(log.keys(), seq![e].drop_last()) == log.keys());
            assert(seq![e].last() == e);
        }
        let f = handle_single_event(e, log);
        match f {
            Some(x) => out.push(x),
            None => {},
        }
        i += 1;
    }
    proof {
        assert(all.take(i as int) =~= all);
    }
    out
}

proof fn lemma_push_contains(s: Seq<KeyView>, x: KeyView, k: KeyView)
    ensures
        s.push(x).contains(k) <==> (s.contains(k) || k == x),
{
    let t = s.push(x);
    if s.contains(k) {
        let i = choose|i: int| 0 <= i < s.len() && s[i] == k;
        assert(t[i] == s[i]);
    }
    if k == x {
        assert(t[s.len() as int] == x);
    }
    if t.contains(k) {
        let i = choose|i: int| 0 <= i < t.len() && t[i] == k;
        if i < s.len() {
            assert(s[i] == t[i]);
        }
    }
}

proof fn lemma_keys_after_contains(keys: Seq<KeyView>, xs: Seq<SseEvent>, k: KeyView)
    ensures
        keys_after(keys, xs).contains(k) <==> (keys.contains(k) || occurs(xs, k)),
    decreases xs.len(),
{
    if xs.len() > 0 {
        let ys = xs.drop_last();
        lemma_keys_after_contains(keys, ys, k);
        let ks = keys_after(keys, ys);
        if passes(ks, xs.last()) {
            lemma_push_contains(ks, key_of(xs.last())->Some_0, k);
        }
        if occurs(ys, k) {
            let i = choose|i: int| 0 <= i < ys.len() && key_of(#[trigger] ys[i]) == Some(k);
            assert(xs[i] == ys[i]);
        }
        if occurs(xs, k) && !occurs(ys, k) {
            let i = choose|i: int| 0 <= i < xs.len() && key_of(#[trigger] xs[i]) == Some(k);
            if i < ys.len() {
                assert(ys[i] == xs[i]);
            }
        }
        if key_of(xs.last()) == Some(k) {
            assert(key_of(xs[xs.len() - 1]) == Some(k));
        }
    }
}

/// Every forwarded event is persisted, its key was not in the log it started
/// from, and it is in the log it ends with.
pub proof fn law_forwarded_recorded(keys: Seq<KeyView>, xs: Seq<SseEvent>)
    ensures
        forall|i: int|
            0 <= i < forwarded(keys, xs).len() ==> {
                let k = key_of(#[trigger] forwarded(keys, xs)[i]);
                &&& k is Some
                &&& !keys.contains(k->Some_0)
                &&& keys_after(keys, xs).contains(k->Some_0)
            },
    decreases xs.len(),
{
    if xs.len() > 0 {
        let ys = xs.drop_last();
        law_forwarded_recorded(keys, ys);
        let f = forwarded(keys, xs);
        assert forall|i: int| 0 <= i < f.len() implies {
            let k = key_of(#[trigger] f[i]);
            &&& k is Some
            &&& !keys.contains(k->Some_0)
            &&& keys_after(keys, xs).contains(k->Some_0)
        } by {
            let k = key_of(f[i])->Some_0;
            lemma_keys_after_contains(keys, ys, k);
            lemma_keys_after_contains(keys, xs, k);
            if i < forwarded(keys, ys).len() {
                assert(f[i] == forwarded(keys, ys)[i]);
            }
        }
    }
}

/// Dedup: handling any inbound sequence forwards an event of a given key
/// exactly once when that key occurs in the sequence and is not yet in the
/// log, and never otherwise.
pub proof fn law_dedup(keys: Seq<KeyView>, xs: Seq<SseEvent>, k: KeyView)
    ensures
        key_count(forwarded(keys, xs), k) == (if keys.contains(k) {
            0nat
        } else if occurs(xs, k) {
            1nat
        } else {
            0nat
        }),
    decreases xs.len(),
{
    if xs.len() > 0 {
        let ys = xs.drop_last();
        law_dedup(keys, ys, k);
        lemma_keys_after_contains(keys, ys, k);
        let f = forwarded(keys, ys);
        if passes(keys_after(keys, ys), xs.last()) {
            assert(forwarded(keys, xs).drop_last() =~= f);
        }
        if occurs(ys, k) {
            let i = choose|i: int| 0 <= i < ys.len() && key_of(#[trigger] ys[i]) == Some(k);
            assert(xs[i] == ys[i]);
        }
        if key_of(xs.last()) == Some(k) {
            assert(key_of(xs[xs.len() - 1]) == Some(k));
        } else if occurs(xs, k) {
            let i = choose|i: int| 0 <= i < xs.len() && key_of(#[trigger] xs[i]) == Some(k);
            assert(ys[i] == xs[i]);
        }
    }
}

/// Resume: after an inbound sequence `xs1` has been handled, no event that
/// handling a later sequence `xs2` forwards (a replay after a reconnect, say)
/// has the key of an event already forwarded.
pub proof fn law_resume(keys: Seq<KeyView>, xs1: Seq<SseEvent>, xs2: Seq<SseEvent>)
    ensures
        forall|i: int, j: int|
            0 <= i < forwarded(keys_after(keys, xs1), xs2).len() && 0 <= j < forwarded(
                keys,
                xs1,
            ).len() ==> key_of(#[trigger] forwarded(keys_after(keys, xs1), xs2)[i]) != key_of(
                #[trigger] forwarded(keys, xs1)[j],
            ),
{
    law_forwarded_recorded(keys, xs1);
    law_forwarded_recorded(keys_after(keys, xs1), xs2);
}

/// The two logs hold the same keys of events from `source`.
spec fn agree_on(k1: Seq<KeyView>, k2: Seq<KeyView>, source: Seq<char>) -> bool {
    forall|k: KeyView| k.4 == source ==> (k1.contains(k) <==> k2.contains(k))
}

proof fn lemma_order(k1: Seq<KeyView>, k2: Seq<KeyView>, xs: Seq<SseEvent>, source: Seq<char>)
    requires
        agree_on(k1, k2, source),
    ensures
        from_source(forwarded(k1, xs), source) == forwarded(k2, from_source(xs, source)),
        agree_on(keys_after(k1, xs), keys_after(k2, from_source(xs, source)), source),
    decreases xs.len(),
{
    if xs.len() > 0 {
        let ys = xs.drop_last();
        let e = xs.last();
        lemma_order(k1, k2, ys, source);
        let a1 = keys_after(k1, ys);
        let a2 = keys_after(k2, from_source(ys, source));
        if e.source@ == source {
            let zs = from_source(xs, source);
            assert(zs.drop_last() =~= from_source(ys, source));
            if key_of(e) is Some {
                assert(key_of(e)->Some_0.4 == source);
                assert(a1.contains(key_of(e)->Some_0) == a2.contains(key_of(e)->Some_0));
            }
            if passes(a1, e) {
                assert(forwarded(k1, xs).drop_last() =~= forwarded(k1, ys));
            }
            assert(agree_on(keys_after(k1, xs), keys_after(k2, zs), source)) by {
                assert forall|k: KeyView| k.4 == source implies (keys_after(k1, xs).contains(k)
                    <==> keys_after(k2, zs).contains(k)) by {
                    assert(a1.contains(k) == a2.contains(k));
                    if passes(a1, e) {
                        lemma_push_contains(a1, key_of(e)->Some_0, k);
                        lemma_push_contains(a2, key_of(e)->Some_0, k);
                    }
                }
            }
        } else {
            if passes(a1, e) {
                assert(forwarded(k1, xs).drop_last() =~= forwarded(k1, ys));
                assert(forwarded(k1, xs).last().source@ != source);
                assert(key_of(e)->Some_0.4 != source);
                assert forall|k: KeyView| k.4 == source implies (keys_after(k1, xs).contains(k)
                    <==> a1.contains(k)) by {
                    lemma_push_contains(a1, key_of(e)->Some_0, k);
                }
            }
        }
    }
}

/// Order: the events forwarded from one upstream are, in the same order,
/// exactly those of that upstream's own inbound events that pass dedup,
/// whatever events of other upstreams are interleaved with them.
pub proof fn law_order(keys: Seq<KeyView>, xs: Seq<SseEvent>, source: Seq<char>)
    ensures
        from_source(forwarded(keys, xs), source) == forwarded(keys, from_source(xs, source)),
{
    lemma_order(keys, keys, xs, source);
}

} // verus!
