//! Steps of state resolution: splitting candidate snapshots into the entries
//! they agree on and the conflicted rest, and authorizing conflicted events
//! one by one against the state resolved so far.
use vstd::prelude::*;

use crate::auth::{auth_check, auth_verdict, deref_opt, fetch, fetch_state, AuthError};
use crate::event::{Content, Event, EventType, StateKey};
use crate::room_version::RoomVersion;
use crate::state_compressor::Entry;

verus! {

/// Some snapshot holds `e`.
pub open spec fn held_by_some(snaps: Seq<Set<Entry>>, e: Entry) -> bool {
    exists|i: int| 0 <= i < snaps.len() && #[trigger] snaps[i].contains(e)
}

/// Every snapshot holds `e`.
pub open spec fn held_by_all(snaps: Seq<Set<Entry>>, e: Entry) -> bool {
    forall|i: int| 0 <= i < snaps.len() ==> #[trigger] snaps[i].contains(e)
}

/// The entries that every snapshot holds.
pub open spec fn unconflicted(snaps: Seq<Set<Entry>>) -> Set<Entry> {
    Set::new(|e: Entry| held_by_some(snaps, e) && held_by_all(snaps, e))
}

/// The entries that some snapshot holds and some other lacks.
pub open spec fn conflicted(snaps: Seq<Set<Entry>>) -> Set<Entry> {
    Set::new(|e: Entry| held_by_some(snaps, e) && !held_by_all(snaps, e))
}

/// The snapshots as sets of entries.
pub open spec fn snapshot_sets(state_sets: Seq<Vec<Entry>>) -> Seq<Set<Entry>> {
    Seq::new(state_sets.len(), |i: int| state_sets[i]@.to_set())
}

fn contains_entry(v: &Vec<Entry>, x: Entry) -> (r: bool)
    ensures
        r == v@.to_set().contains(x),
{
    let mut i: usize = 0;
    while i < v.len()
        invariant
            i <= v@.len(),
            forall|j: int| 0 <= j < i ==> v@[j] != x,
        decreases v@.len() - i,
    {
        if v[i].0 == x.0 && v[i].1 == x.1 {
            assert(v@[i as int] == x);
            return true;
        }
        i = i + 1;
    }
    assert(!v@.contains(x));
    false
}

fn in_all(state_sets: &Vec<Vec<Entry>>, x: Entry) -> (r: bool)
    ensures
        r == forall|i: int|
            0 <= i < state_sets@.len() ==> #[trigger] snapshot_sets(state_sets@)[i].contains(x),
{
    let ghost s = snapshot_sets(state_sets@);
    let mut i: usize = 0;
    while i < state_sets.len()
        invariant
            i <= state_sets@.len(),
            s == snapshot_sets(state_sets@),
            forall|j: int| 0 <= j < i ==> #[trigger] s[j].contains(x),
        decreases state_sets@.len() - i,
    {
        if !contains_entry(&state_sets[i], x) {
            assert(!s[i as int].contains(x));
            return false;
        }
        i = i + 1;
    }
    true
}

/// The snapshots split into the entries all of them hold and the conflicted
/// entries, which some hold and others lack.
pub fn separate(state_sets: &Vec<Vec<Entry>>) -> (r: (Vec<Entry>, Vec<Entry>))
    ensures
        r.0@.to_set() == unconflicted(snapshot_sets(state_sets@)),
        r.1@.to_set() == conflicted(snapshot_sets(state_sets@)),
{
    let ghost s = snapshot_sets(state_sets@);
    let mut agreed: Vec<Entry> = Vec::new();
    let mut disputed: Vec<Entry> = Vec::new();
    let mut i: usize = 0;
    while i < state_sets.len()
        invariant
            i <= state_sets@.len(),
            s == snapshot_sets(state_sets@),
            forall|e: Entry|
                #[trigger] agreed@.to_set().contains(e) <==> (exists|j: int|
                    0 <= j < i && #[trigger] s[j].contains(e)) && unconflicted(s).contains(e),
            forall|e: Entry|
                #[trigger] disputed@.to_set().contains(e) <==> (exists|j: int|
                    0 <= j < i && #[trigger] s[j].contains(e)) && !unconflicted(s).contains(e),
        decreases state_sets@.len() - i,
    {
        let snap = &state_sets[i];
        let ghost before_agreed = agreed@;
        let ghost before_disputed = disputed@;
        let mut k: usize = 0;
        while k < snap.len()
            invariant
                i < state_sets@.len(),
                k <= snap@.len(),
                snap == state_sets@[i as int],
                s == snapshot_sets(state_sets@),
                forall|e: Entry|
                    #[trigger] agreed@.to_set().contains(e) <==> before_agreed.to_set().contains(e)
                        || (snap@.subrange(0, k as int).contains(e) && unconflicted(s).contains(e)),
                forall|e: Entry|
                    #[trigger] disputed@.to_set().contains(e) <==> before_disputed.to_set().contains(
                        e,
                    ) || (snap@.subrange(0, k as int).contains(e) && !unconflicted(s).contains(e)),
            decreases snap@.len() - k,
        {
            let x = snap[k];
            let everywhere = in_all(state_sets, x);
            proof {
                assert(snap@[k as int] == x);
                assert(snap@.contains(x));
                assert(s[i as int] == snap@.to_set());
                assert(s[i as int].contains(x));
                assert(held_by_some(s, x));
                assert(everywhere == held_by_all(s, x));
                assert(everywhere == unconflicted(s).contains(x));
                let sub = snap@.subrange(0, k as int);
                assert(snap@.subrange(0, k + 1) == sub.push(x));
                assert forall|e: Entry| #[trigger] snap@.subrange(0, k + 1).contains(e) == (
                sub.contains(e) || e == x) by {
                    if sub.contains(e) {
                        let m = choose|m: int| 0 <= m < sub.len() && #[trigger] sub[m] == e;
                        assert(snap@.subrange(0, k + 1)[m] == e);
                    }
                    if e == x {
                        assert(snap@.subrange(0, k + 1)[k as int] == e);
                    }
                    let longer = snap@.subrange(0, k + 1);
                    if longer.contains(e) {
                        let m = choose|m: int| 0 <= m < longer.len() && #[trigger] longer[m] == e;
                        if m < k {
                            assert(sub[m] == e);
                        }
                    }
                }
            }
            let ghost a0 = agreed@;
            let ghost d0 = disputed@;
            if everywhere {
                agreed.push(x);
                proof {
                    a0.lemma_push_to_set_commute(x);
                }
            } else {
                disputed.push(x);
                proof {
                    d0.lemma_push_to_set_commute(x);
                }
            }
            k = k + 1;
        }
        assert(snap@.subrange(0, snap@.len() as int) == snap@);
        assert forall|e: Entry| #[trigger] agreed@.to_set().contains(e) <==> (exists|j: int|
            0 <= j < i + 1 && #[trigger] s[j].contains(e)) && unconflicted(s).contains(e) by {
            if snap@.contains(e) {
                assert(s[i as int].contains(e));
            }
            if s[i as int].contains(e) {
                assert(snap@.contains(e));
            }
        }
        assert forall|e: Entry| #[trigger] disputed@.to_set().contains(e) <==> (exists|j: int|
            0 <= j < i + 1 && #[trigger] s[j].contains(e)) && !unconflicted(s).contains(e) by {
            if snap@.contains(e) {
                assert(s[i as int].contains(e));
            }
            if s[i as int].contains(e) {
                assert(snap@.contains(e));
            }
        }
        i = i + 1;
    }
    assert(agreed@.to_set() =~= unconflicted(s));
    assert(disputed@.to_set() =~= conflicted(s));
    (agreed, disputed)
}

/// The partition does not depend on the order of the snapshots, nor on
/// repeats among them.
pub proof fn separation_ignores_order(a: Seq<Set<Entry>>, b: Seq<Set<Entry>>)
    requires
        a.to_set() == b.to_set(),
    ensures
        unconflicted(a) == unconflicted(b),
        conflicted(a) == conflicted(b),
{
    assert forall|x: Set<Entry>| #[trigger] a.contains(x) <==> b.contains(x) by {
        assert(a.to_set().contains(x) == a.contains(x));
        assert(b.to_set().contains(x) == b.contains(x));
    }
    assert forall|e: Entry| #[trigger] held_by_some(a, e) == held_by_some(b, e) by {
        if exists|i: int| 0 <= i < a.len() && #[trigger] a[i].contains(e) {
            let i = choose|i: int| 0 <= i < a.len() && #[trigger] a[i].contains(e);
            assert(a.contains(a[i]));
            assert(b.contains(a[i]));
            let j = choose|j: int| 0 <= j < b.len() && b[j] == a[i];
            assert(b[j].contains(e));
        }
        if exists|i: int| 0 <= i < b.len() && #[trigger] b[i].contains(e) {
            let i = choose|i: int| 0 <= i < b.len() && #[trigger] b[i].contains(e);
            assert(b.contains(b[i]));
            assert(a.contains(b[i]));
            let j = choose|j: int| 0 <= j < a.len() && a[j] == b[i];
            assert(a[j].contains(e));
        }
    }
    assert forall|e: Entry| #[trigger] held_by_all(a, e) == held_by_all(b, e) by {
        if forall|i: int| 0 <= i < a.len() ==> #[trigger] a[i].contains(e) {
            assert forall|i: int| 0 <= i < b.len() implies #[trigger] b[i].contains(e) by {
                assert(b.contains(b[i]));
                assert(a.contains(b[i]));
                let j = choose|j: int| 0 <= j < a.len() && a[j] == b[i];
                assert(a[j].contains(e));
            }
        }
        if forall|i: int| 0 <= i < b.len() ==> #[trigger] b[i].contains(e) {
            assert forall|i: int| 0 <= i < a.len() implies #[trigger] a[i].contains(e) by {
                assert(a.contains(a[i]));
                assert(b.contains(a[i]));
                let j = choose|j: int| 0 <= j < b.len() && b[j] == a[i];
                assert(b[j].contains(e));
            }
        }
    }
    assert(unconflicted(a) =~= unconflicted(b));
    assert(conflicted(a) =~= conflicted(b));
}

/// `state` without the events at the state key of `e`, with `e` first.
pub open spec fn replace_at(state: Seq<Event>, e: Event) -> Seq<Event> {
    seq![e] + state.filter(|x: Event| !(x.kind == e.kind && x.state_key == e.state_key))
}

/// The third-party invite event of `state` that the invite `e` may answer.
pub open spec fn invite_for(e: Event, state: Seq<Event>) -> Option<Event> {
    match e.content {
        Content::Member(mc) => match mc.third_party_invite {
            Some(t) => fetch(state, EventType::ThirdPartyInvite, StateKey::Text(t.token)),
            None => None,
        },
        _ => None,
    }
}

/// The state after authorizing `events` in order from `state`: each state
/// event that authorization admits against the state so far replaces the
/// event at its state key; the others are dropped.
pub open spec fn iterative_auth(
    rv: RoomVersion,
    events: Seq<Event>,
    state: Seq<Event>,
    create: Event,
) -> Seq<Event>
    decreases events.len(),
{
    if events.len() == 0 {
        state
    } else {
        let e = events[0];
        let next = if e.state_key.is_some() && auth_verdict(rv, e, invite_for(e, state), state, create)
            == Ok::<bool, AuthError>(true) {
            replace_at(state, e)
        } else {
            state
        };
        iterative_auth(rv, events.drop_first(), next, create)
    }
}

fn replace_in(state: Vec<Event>, e: Event) -> (r: Vec<Event>)
    ensures
        r@ == replace_at(state@, e),
{
    let ghost keep = |x: Event| !(x.kind == e.kind && x.state_key == e.state_key);
    let kind = e.kind;
    let key = e.state_key;
    let mut out: Vec<Event> = Vec::new();
    out.push(e);
    let mut rest = state;
    let ghost all = rest@;
    let mut i: usize = 0;
    let n = rest.len();
    while rest.len() > 0
        invariant
            n == all.len(),
            kind == e.kind,
            key == e.state_key,
            keep == (|x: Event| !(x.kind == e.kind && x.state_key == e.state_key)),
            rest@.len() + i == n,
            rest@ == all.subrange(i as int, n as int),
            out@ == seq![e] + all.subrange(0, i as int).filter(keep),
        decreases rest@.len(),
    {
        let x = rest.remove(0);
        proof {
            assert(x == all[i as int]);
            assert(all.subrange(0, i + 1) == all.subrange(0, i as int).push(x));
            all.subrange(0, i as int).lemma_filter_push(x, keep);
        }
        let ghost f = all.subrange(0, i as int).filter(keep);
        assert(keep(x) == !(x.kind == kind && x.state_key == key));
        if !(x.kind == kind && x.state_key == key) {
            out.push(x);
            assert(seq![e] + f.push(x) == (seq![e] + f).push(x));
        }
        assert(out@ == seq![e] + all.subrange(0, i + 1).filter(keep));
        assert(rest@ == all.subrange(i + 1, n as int));
        i = i + 1;
    }
    assert(all.subrange(0, n as int) == all);
    out
}

fn invite_event<'a>(e: &Event, state: &'a Vec<Event>) -> (r: Option<&'a Event>)
    ensures
        deref_opt(r) == invite_for(*e, state@),
{
    match &e.content {
        Content::Member(mc) => match mc.third_party_invite {
            Some(t) => fetch_state(state, EventType::ThirdPartyInvite, StateKey::Text(t.token)),
            None => None,
        },
        _ => None,
    }
}

/// Authorizes `events` in order, each against the state resolved so far,
/// starting from `state`: an admitted state event replaces the event at its
/// state key.
pub fn iterative_auth_check(
    room_version: &RoomVersion,
    events: Vec<Event>,
    state: Vec<Event>,
    create_event: &Event,
) -> (r: Vec<Event>)
    ensures
        r@ == iterative_auth(*room_version, events@, state@, *create_event),
{
    let mut current = state;
    let mut pending = events;
    while pending.len() > 0
        invariant
            iterative_auth(*room_version, events@, state@, *create_event) == iterative_auth(
                *room_version,
                pending@,
                current@,
                *create_event,
            ),
        decreases pending@.len(),
    {
        let ghost before = pending@;
        let e = pending.remove(0);
        assert(pending@ == before.drop_first());
        let admitted = e.state_key.is_some() && match auth_check(
            room_version,
            &e,
            invite_event(&e, &current),
            &current,
            create_event,
        ) {
            Ok(true) => true,
            _ => false,
        };
        if admitted {
            current = replace_in(current, e);
        }
    }
    current
}

} // verus!
