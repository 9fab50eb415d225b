//! Laws of event authorization, proved from the rules in `auth`.
use vstd::prelude::*;

use crate::auth::{
    auth_verdict, fetch, levels_change_ok, membership_change_allowed, power_levels_allowed,
    sender_power, third_party_invite_valid, user_change_ok, AuthError,
};
use crate::event::{
    distinct_keys, lookup, membership_or_leave, Content, CreateContent, Event, EventType,
    Membership, PowerLevels, SignedInvite, StateKey, UserId,
};
use crate::room_version::RoomVersion;

verus! {

/// Admission is a function of its inputs: two verdicts on the same event,
/// state, create event, invite and room version are the same verdict.
pub proof fn admission_deterministic(
    rv: RoomVersion,
    ev: Event,
    tpi: Option<Event>,
    state: Seq<Event>,
    create: Event,
    first: Result<bool, AuthError>,
    second: Result<bool, AuthError>,
)
    requires
        first == auth_verdict(rv, ev, tpi, state, create),
        second == auth_verdict(rv, ev, tpi, state, create),
    ensures
        first == second,
{
}

/// A create event with previous events is denied.
pub proof fn create_with_prev_events_denied(
    rv: RoomVersion,
    ev: Event,
    tpi: Option<Event>,
    state: Seq<Event>,
    create: Event,
)
    requires
        ev.kind == EventType::Create,
        ev.prev_events@.len() > 0,
    ensures
        auth_verdict(rv, ev, tpi, state, create) == Ok::<bool, AuthError>(false),
{
}

/// A banned user's own join is never admitted, unless it is the creator's
/// first join right after the create event.
pub proof fn banned_user_cannot_join(
    rv: RoomVersion,
    target: UserId,
    target_ev: Option<Event>,
    sender_ev: Option<Event>,
    ev: Event,
    tpi: Option<Event>,
    pl_ev: Option<Event>,
    jr_ev: Option<Event>,
    auth_user: Option<UserId>,
    auth_user_membership: Membership,
    create: Event,
)
    requires
        ev.spec_membership() == Some(Membership::Join),
        membership_or_leave(target_ev) == Membership::Ban,
        !(ev.prev_events@.len() == 1 && ev.prev_events@[0] == create.event_id),
    ensures
        membership_change_allowed(
            rv,
            target,
            target_ev,
            target,
            sender_ev,
            ev,
            tpi,
            pl_ev,
            jr_ev,
            auth_user,
            auth_user_membership,
            create,
        ) != Ok::<bool, AuthError>(true),
{
}

/// A banned user's own join event is not admitted by `auth_check`, unless it
/// is the creator's first join right after the create event.
pub proof fn banned_join_not_admitted(
    rv: RoomVersion,
    ev: Event,
    tpi: Option<Event>,
    state: Seq<Event>,
    create: Event,
)
    requires
        ev.kind == EventType::Member,
        ev.state_key == Some(StateKey::User(ev.sender)),
        ev.spec_membership() == Some(Membership::Join),
        membership_or_leave(fetch(state, EventType::Member, StateKey::User(ev.sender)))
            == Membership::Ban,
        !(ev.prev_events@.len() == 1 && ev.prev_events@[0] == create.event_id),
    ensures
        auth_verdict(rv, ev, tpi, state, create) != Ok::<bool, AuthError>(true),
{
    if !(rv.special_case_aliases_auth && ev.kind == EventType::Aliases) {
        match ev.content {
            Content::Member(mc) => {
                let auth_user = mc.join_authorised_via_users_server;
                let auth_m = match auth_user {
                    Some(u) => membership_or_leave(
                        fetch(state, EventType::Member, StateKey::User(u)),
                    ),
                    None => Membership::Leave,
                };
                banned_user_cannot_join(
                    rv,
                    ev.sender,
                    fetch(state, EventType::Member, StateKey::User(ev.sender)),
                    fetch(state, EventType::Member, StateKey::User(ev.sender)),
                    ev,
                    tpi,
                    fetch(state, EventType::PowerLevels, StateKey::Empty),
                    fetch(state, EventType::JoinRules, StateKey::Empty),
                    auth_user,
                    auth_m,
                    create,
                );
            },
            _ => {},
        }
    }
}

proof fn lemma_lookup_at<K, V>(entries: Seq<(K, V)>, i: int)
    requires
        distinct_keys(entries),
        0 <= i < entries.len(),
    ensures
        lookup(entries, entries[i].0) == Some(entries[i].1),
    decreases entries.len(),
{
    if i > 0 {
        let rest = entries.drop_first();
        assert(entries[0].0 != entries[i].0);
        assert(rest[i - 1] == entries[i]);
        assert(distinct_keys(rest)) by {
            assert forall|a: int, b: int|
                0 <= a < rest.len() && 0 <= b < rest.len() && a != b implies rest[a].0
                != rest[b].0 by {
                assert(rest[a] == entries[a + 1] && rest[b] == entries[b + 1]);
            }
        }
        lemma_lookup_at(rest, i - 1);
    }
}

/// Some level of `new` is above `ul` where it differs from `old`: a user's
/// entry, an event type's entry, or a top-level level.
pub open spec fn raises_above(old: PowerLevels, new: PowerLevels, ul: i64) -> bool {
    ||| exists|i: int|
        0 <= i < new.users@.len() && #[trigger] new.users@[i].1 > ul && old.user_level(
            new.users@[i].0,
        ) != Some(new.users@[i].1)
    ||| exists|i: int|
        0 <= i < new.events@.len() && #[trigger] new.events@[i].1 > ul && old.event_level(
            new.events@[i].0,
        ) != Some(new.events@[i].1)
    ||| new.users_default > ul
    ||| new.events_default > ul
    ||| new.state_default > ul
    ||| new.ban > ul
    ||| new.redact > ul
    ||| new.kick > ul
    ||| new.invite > ul
}

/// A power-levels event that raises any level above the sender's own level
/// `ul` is refused.
pub proof fn raise_above_own_level_denied(
    rv: RoomVersion,
    create: Event,
    cc: CreateContent,
    ev: Event,
    prev: Event,
    old: PowerLevels,
    new: PowerLevels,
    ul: i64,
)
    requires
        ev.state_key == Some(StateKey::Empty),
        ev.content == Content::PowerLevels(new),
        prev.content == Content::PowerLevels(old),
        new.wf(),
        raises_above(old, new, ul),
    ensures
        power_levels_allowed(rv, create, cc, ev, Some(prev), ul) == Some(false),
{
    if exists|i: int|
        0 <= i < new.users@.len() && #[trigger] new.users@[i].1 > ul && old.user_level(
            new.users@[i].0,
        ) != Some(new.users@[i].1) {
        let i = choose|i: int|
            0 <= i < new.users@.len() && #[trigger] new.users@[i].1 > ul && old.user_level(
                new.users@[i].0,
            ) != Some(new.users@[i].1);
        lemma_lookup_at(new.users@, i);
        assert(!user_change_ok(rv, create, cc, old, new, new.users@[i].0, ev.sender, ul));
    } else if exists|i: int|
        0 <= i < new.events@.len() && #[trigger] new.events@[i].1 > ul && old.event_level(
            new.events@[i].0,
        ) != Some(new.events@[i].1) {
        let i = choose|i: int|
            0 <= i < new.events@.len() && #[trigger] new.events@[i].1 > ul && old.event_level(
                new.events@[i].0,
            ) != Some(new.events@[i].1);
        lemma_lookup_at(new.events@, i);
    }
    assert(!levels_change_ok(rv, create, cc, old, new, ev.sender, ul));
}

/// A power-levels event that raises any level above its sender's own level
/// in the room's current power levels is not admitted by `auth_check`.
pub proof fn raise_above_own_level_not_admitted(
    rv: RoomVersion,
    ev: Event,
    tpi: Option<Event>,
    state: Seq<Event>,
    create: Event,
    cc: CreateContent,
    prev: Event,
    old: PowerLevels,
    new: PowerLevels,
)
    requires
        ev.kind == EventType::PowerLevels,
        ev.state_key == Some(StateKey::Empty),
        ev.content == Content::PowerLevels(new),
        new.wf(),
        create.content == Content::Create(cc),
        fetch(state, EventType::PowerLevels, StateKey::Empty) == Some(prev),
        prev.content == Content::PowerLevels(old),
        raises_above(old, new, sender_power(rv, create, cc, Some(old), ev.sender)),
    ensures
        auth_verdict(rv, ev, tpi, state, create) != Ok::<bool, AuthError>(true),
{
    raise_above_own_level_denied(
        rv,
        create,
        cc,
        ev,
        prev,
        old,
        new,
        sender_power(rv, create, cc, Some(old), ev.sender),
    );
}

/// A third-party invite whose token is not the state key of the room's
/// third-party invite event is refused.
pub proof fn mismatched_invite_token_denied(
    target: UserId,
    sender: UserId,
    tp: SignedInvite,
    current: Option<Event>,
)
    requires
        current.is_some() ==> current.unwrap().state_key != Some(StateKey::Text(tp.token)),
    ensures
        !third_party_invite_valid(target, sender, tp, current),
{
}

/// An invite that carries a third-party invite whose token does not match the
/// room's third-party invite event is not admitted as a membership change.
pub proof fn mismatched_invite_not_admitted(
    rv: RoomVersion,
    target: UserId,
    target_ev: Option<Event>,
    sender: UserId,
    sender_ev: Option<Event>,
    ev: Event,
    tpi: Option<Event>,
    pl_ev: Option<Event>,
    jr_ev: Option<Event>,
    auth_user: Option<UserId>,
    auth_user_membership: Membership,
    create: Event,
    tp: SignedInvite,
)
    requires
        ev.spec_membership() == Some(Membership::Invite),
        match ev.content {
            Content::Member(mc) => mc.third_party_invite == Some(tp),
            _ => false,
        },
        tpi.is_some() ==> tpi.unwrap().state_key != Some(StateKey::Text(tp.token)),
    ensures
        membership_change_allowed(
            rv,
            target,
            target_ev,
            sender,
            sender_ev,
            ev,
            tpi,
            pl_ev,
            jr_ev,
            auth_user,
            auth_user_membership,
            create,
        ) != Ok::<bool, AuthError>(true),
{
    mismatched_invite_token_denied(target, sender, tp, tpi);
}

/// A member event that carries a third-party invite whose token does not
/// match the room's third-party invite event is not admitted by `auth_check`.
pub proof fn mismatched_invite_token_not_admitted(
    rv: RoomVersion,
    ev: Event,
    tpi: Option<Event>,
    state: Seq<Event>,
    create: Event,
    tp: SignedInvite,
)
    requires
        ev.kind == EventType::Member,
        ev.spec_membership() == Some(Membership::Invite),
        match ev.content {
            Content::Member(mc) => mc.third_party_invite == Some(tp),
            _ => false,
        },
        tpi.is_some() ==> tpi.unwrap().state_key != Some(StateKey::Text(tp.token)),
    ensures
        auth_verdict(rv, ev, tpi, state, create) != Ok::<bool, AuthError>(true),
{
    match (ev.state_key, ev.content) {
        (Some(StateKey::User(target)), Content::Member(mc)) => {
            let auth_user = mc.join_authorised_via_users_server;
            let auth_m = match auth_user {
                Some(u) => membership_or_leave(fetch(state, EventType::Member, StateKey::User(u))),
                None => Membership::Leave,
            };
            mismatched_invite_not_admitted(
                rv,
                target,
                fetch(state, EventType::Member, StateKey::User(target)),
                ev.sender,
                fetch(state, EventType::Member, StateKey::User(ev.sender)),
                ev,
                tpi,
                fetch(state, EventType::PowerLevels, StateKey::Empty),
                fetch(state, EventType::JoinRules, StateKey::Empty),
                auth_user,
                auth_m,
                create,
                tp,
            );
        },
        _ => {},
    }
}

} // verus!
