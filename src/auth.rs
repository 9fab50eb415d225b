//! Event authorization: which state an event is checked against, and whether
//! that state admits it.
use vstd::prelude::*;

use crate::event::{
    contains_event_id, contains_user, current_membership, membership_or_leave, Content,
    CreateContent, Event, EventType, JoinRule, Membership, PowerLevels, SignedInvite,
    StateKey, UserId,
};
use crate::room_version::RoomVersion;

verus! {

/// The power of a room creator in versions that privilege creators: the
/// largest integer that the event format allows.
pub const MAX_POWER: i64 = 9007199254740991;

/// Why an event could not be judged at all.
#[derive(Clone, Copy, Debug, PartialEq, Eq, Structural)]
pub enum AuthError {
    /// The content of an event is not of the shape its type requires.
    InvalidContent,
    /// A member event names no user as its target, or a member event of the
    /// state states no membership.
    InvalidPdu,
}

/// A `(type, state key)` pair: the address of a piece of room state.
pub type StateAddr = (EventType, StateKey);

/// The first state event of `state` at `(kind, key)`, if any.
pub open spec fn fetch(state: Seq<Event>, kind: EventType, key: StateKey) -> Option<Event>
    decreases state.len(),
{
    if state.len() == 0 {
        None
    } else if state[0].kind == kind && state[0].state_key == Some(key) {
        Some(state[0])
    } else {
        fetch(state.drop_first(), kind, key)
    }
}

/// An optional reference as an optional value.
pub open spec fn deref_opt(e: Option<&Event>) -> Option<Event> {
    match e {
        Some(x) => Some(*x),
        None => None,
    }
}

/// The first state event of `state` at `(kind, key)`, if any.
pub fn fetch_state<'a>(state: &'a Vec<Event>, kind: EventType, key: StateKey) -> (r: Option<
    &'a Event,
>)
    ensures
        deref_opt(r) == fetch(state@, kind, key),
{
    let mut i: usize = 0;
    assert(state@.subrange(0, state@.len() as int) == state@);
    while i < state.len()
        invariant
            i <= state@.len(),
            fetch(state@, kind, key) == fetch(
                state@.subrange(i as int, state@.len() as int),
                kind,
                key,
            ),
        decreases state@.len() - i,
    {
        let ghost rest = state@.subrange(i as int, state@.len() as int);
        assert(rest.drop_first() == state@.subrange(i + 1, state@.len() as int));
        if state[i].kind == kind && state[i].state_key == Some(key) {
            return Some(&state[i]);
        }
        i = i + 1;
    }
    None
}

/// `entries` with `k` added at the end, unless it is there already.
pub open spec fn push_unique(entries: Seq<StateAddr>, k: StateAddr) -> Seq<StateAddr> {
    if entries.contains(k) {
        entries
    } else {
        entries.push(k)
    }
}

fn push_addr(entries: &mut Vec<StateAddr>, k: StateAddr)
    ensures
        final(entries)@ == push_unique(old(entries)@, k),
{
    let mut i: usize = 0;
    while i < entries.len()
        invariant
            i <= entries@.len(),
            forall|j: int| 0 <= j < i ==> entries@[j] != k,
        decreases entries@.len() - i,
    {
        if entries[i].0 == k.0 && entries[i].1 == k.1 {
            assert(entries@.contains(k));
            return;
        }
        i = i + 1;
    }
    entries.push(k);
}

/// The state that authorizes an event of type `kind` from `sender`: what
/// the auth selector returns, in order and without repeats.
pub open spec fn auth_types_spec(
    kind: EventType,
    sender: UserId,
    state_key: Option<StateKey>,
    content: Content,
    room_version: RoomVersion,
) -> Result<Seq<StateAddr>, AuthError> {
    if kind == EventType::Create {
        Ok(seq![])
    } else {
        let base = if room_version.room_ids_as_hashes {
            seq![(EventType::PowerLevels, StateKey::Empty), (EventType::Member, StateKey::User(sender))]
        } else {
            seq![
                (EventType::PowerLevels, StateKey::Empty),
                (EventType::Member, StateKey::User(sender)),
                (EventType::Create, StateKey::Empty),
            ]
        };
        if kind == EventType::Member && state_key.is_some() {
            match content {
                Content::Malformed => Err(AuthError::InvalidContent),
                Content::Member(c) => match c.membership {
                    None => Ok(base),
                    Some(m) => {
                        let with_join_rules = if m == Membership::Join || m == Membership::Invite
                            || m == Membership::Knock {
                            push_unique(base, (EventType::JoinRules, StateKey::Empty))
                        } else {
                            base
                        };
                        let with_rules = match c.join_authorised_via_users_server {
                            Some(u) => push_unique(
                                with_join_rules,
                                (EventType::Member, StateKey::User(u)),
                            ),
                            None => with_join_rules,
                        };
                        let with_target = push_unique(
                            with_rules,
                            (EventType::Member, state_key.unwrap()),
                        );
                        if m == Membership::Invite {
                            match c.third_party_invite {
                                Some(t) => Ok(
                                    push_unique(
                                        with_target,
                                        (EventType::ThirdPartyInvite, StateKey::Text(t.token)),
                                    ),
                                ),
                                None => Ok(with_target),
                            }
                        } else {
                            Ok(with_target)
                        }
                    },
                },
                _ => Ok(base),
            }
        } else {
            Ok(base)
        }
    }
}

/// The state that authorizes an event of type `kind` from `sender`, in the
/// order it is fetched, without repeats. A member event whose content is not
/// an object is an error.
pub fn auth_types_for_event(
    kind: EventType,
    sender: UserId,
    state_key: Option<StateKey>,
    content: &Content,
    room_version: &RoomVersion,
) -> (r: Result<Vec<StateAddr>, AuthError>)
    ensures
        match (r, auth_types_spec(kind, sender, state_key, *content, *room_version)) {
            (Ok(v), Ok(s)) => v@ == s,
            (Err(e), Err(f)) => e == f,
            _ => false,
        },
{
    if kind == EventType::Create {
        return Ok(Vec::new());
    }
    let mut auth_types: Vec<StateAddr> = Vec::new();
    auth_types.push((EventType::PowerLevels, StateKey::Empty));
    auth_types.push((EventType::Member, StateKey::User(sender)));
    if !room_version.room_ids_as_hashes {
        auth_types.push((EventType::Create, StateKey::Empty));
        assert(auth_types@ == seq![
            (EventType::PowerLevels, StateKey::Empty),
            (EventType::Member, StateKey::User(sender)),
            (EventType::Create, StateKey::Empty),
        ]);
    } else {
        assert(auth_types@ == seq![
            (EventType::PowerLevels, StateKey::Empty),
            (EventType::Member, StateKey::User(sender)),
        ]);
    }
    if kind == EventType::Member {
        if let Some(key) = state_key {
            match content {
                Content::Malformed => {
                    return Err(AuthError::InvalidContent);
                },
                Content::Member(c) => {
                    if let Some(m) = c.membership {
                        if m == Membership::Join || m == Membership::Invite || m
                            == Membership::Knock {
                            push_addr(&mut auth_types, (EventType::JoinRules, StateKey::Empty));
                        }
                        if let Some(u) = c.join_authorised_via_users_server {
                            push_addr(&mut auth_types, (EventType::Member, StateKey::User(u)));
                        }
                        push_addr(&mut auth_types, (EventType::Member, key));
                        if m == Membership::Invite {
                            if let Some(t) = c.third_party_invite {
                                push_addr(
                                    &mut auth_types,
                                    (EventType::ThirdPartyInvite, StateKey::Text(t.token)),
                                );
                            }
                        }
                    }
                },
                _ => {},
            }
        }
    }
    Ok(auth_types)
}

/// The power levels that an optional power-levels event states: `None` where
/// the room has none, an error where its content is not power levels.
pub open spec fn levels_of(pl: Option<Event>) -> Result<Option<PowerLevels>, AuthError> {
    match pl {
        None => Ok(None),
        Some(e) => match e.content {
            Content::PowerLevels(l) => Ok(Some(l)),
            _ => Err(AuthError::InvalidContent),
        },
    }
}

fn levels_ref(pl: Option<&Event>) -> (r: Result<Option<&PowerLevels>, AuthError>)
    ensures
        match (r, levels_of(deref_opt(pl))) {
            (Ok(Some(a)), Ok(Some(b))) => *a == b,
            (Ok(None), Ok(None)) => true,
            (Err(e), Err(f)) => e == f,
            _ => false,
        },
{
    match pl {
        None => Ok(None),
        Some(e) => match &e.content {
            Content::PowerLevels(l) => Ok(Some(l)),
            _ => Err(AuthError::InvalidContent),
        },
    }
}

/// An optional reference to power levels as an optional value.
pub open spec fn levels_opt(l: Option<&PowerLevels>) -> Option<PowerLevels> {
    match l {
        Some(x) => Some(*x),
        None => None,
    }
}

/// The level that the room's power levels give `u` by name.
pub open spec fn pl_user_level(l: Option<PowerLevels>, u: UserId) -> Option<i64> {
    match l {
        Some(p) => p.user_level(u),
        None => None,
    }
}

/// `users_default`; 0 in a room without power levels.
pub open spec fn pl_users_default(l: Option<PowerLevels>) -> i64 {
    match l {
        Some(p) => p.users_default,
        None => 0,
    }
}

/// `invite`; 0 in a room without power levels.
pub open spec fn pl_invite(l: Option<PowerLevels>) -> i64 {
    match l {
        Some(p) => p.invite,
        None => 0,
    }
}

/// `ban`; 50 in a room without power levels.
pub open spec fn pl_ban(l: Option<PowerLevels>) -> i64 {
    match l {
        Some(p) => p.ban,
        None => 50,
    }
}

/// `kick`; 50 in a room without power levels.
pub open spec fn pl_kick(l: Option<PowerLevels>) -> i64 {
    match l {
        Some(p) => p.kick,
        None => 50,
    }
}

/// `redact`; 50 in a room without power levels.
pub open spec fn pl_redact(l: Option<PowerLevels>) -> i64 {
    match l {
        Some(p) => p.redact,
        None => 50,
    }
}

/// The level needed to send an event of type `kind`: its own entry, else
/// `state_default` for state events and `events_default` for the others
/// (50 and 0 in a room without power levels).
pub open spec fn send_level(l: Option<PowerLevels>, kind: EventType, is_state: bool) -> i64 {
    match l {
        Some(p) => match p.event_level(kind) {
            Some(x) => x,
            None => if is_state {
                p.state_default
            } else {
                p.events_default
            },
        },
        None => if is_state {
            50
        } else {
            0
        },
    }
}

fn user_level_in(l: Option<&PowerLevels>, u: UserId) -> (r: Option<i64>)
    ensures
        r == pl_user_level(levels_opt(l), u),
{
    match l {
        Some(p) => p.get_user_level(u),
        None => None,
    }
}

fn users_default_in(l: Option<&PowerLevels>) -> (r: i64)
    ensures
        r == pl_users_default(levels_opt(l)),
{
    match l {
        Some(p) => p.users_default,
        None => 0,
    }
}

fn invite_in(l: Option<&PowerLevels>) -> (r: i64)
    ensures
        r == pl_invite(levels_opt(l)),
{
    match l {
        Some(p) => p.invite,
        None => 0,
    }
}

fn ban_in(l: Option<&PowerLevels>) -> (r: i64)
    ensures
        r == pl_ban(levels_opt(l)),
{
    match l {
        Some(p) => p.ban,
        None => 50,
    }
}

fn kick_in(l: Option<&PowerLevels>) -> (r: i64)
    ensures
        r == pl_kick(levels_opt(l)),
{
    match l {
        Some(p) => p.kick,
        None => 50,
    }
}

fn redact_in(l: Option<&PowerLevels>) -> (r: i64)
    ensures
        r == pl_redact(levels_opt(l)),
{
    match l {
        Some(p) => p.redact,
        None => 50,
    }
}

/// The level needed to send an event of type `kind`.
pub fn get_send_level(l: Option<&PowerLevels>, kind: EventType, is_state: bool) -> (r: i64)
    ensures
        r == send_level(levels_opt(l), kind, is_state),
{
    match l {
        Some(p) => match p.get_event_level(kind) {
            Some(x) => x,
            None => if is_state {
                p.state_default
            } else {
                p.events_default
            },
        },
        None => if is_state {
            50
        } else {
            0
        },
    }
}

/// The content of a create event; an error where it is not create content.
pub open spec fn create_content_of(create: Event) -> Result<CreateContent, AuthError> {
    match create.content {
        Content::Create(c) => Ok(c),
        _ => Err(AuthError::InvalidContent),
    }
}

fn create_content_ref(create: &Event) -> (r: Result<&CreateContent, AuthError>)
    ensures
        match (r, create_content_of(*create)) {
            (Ok(a), Ok(b)) => *a == b,
            (Err(e), Err(f)) => e == f,
            _ => false,
        },
{
    match &create.content {
        Content::Create(c) => Ok(c),
        _ => Err(AuthError::InvalidContent),
    }
}

/// `u` sent the create event or is one of its additional creators.
pub open spec fn creator_listed(create: Event, cc: CreateContent, u: UserId) -> bool {
    u == create.sender || cc.additional_creators@.contains(u)
}

fn is_listed_creator(create: &Event, cc: &CreateContent, u: UserId) -> (r: bool)
    ensures
        r == creator_listed(*create, *cc, u),
{
    create.sender == u || contains_user(&cc.additional_creators, u)
}

/// `u` counts as a room creator: by the creator list in versions that
/// privilege creators; otherwise, where the room has no power levels yet, by
/// the create event's sender or its `creator` field.
pub open spec fn creator_spec(
    rv: RoomVersion,
    create: Event,
    cc: CreateContent,
    u: UserId,
    have_pls: bool,
) -> bool {
    if rv.explicitly_privilege_room_creators {
        creator_listed(create, cc, u)
    } else if rv.use_room_create_sender && !have_pls {
        create.sender == u
    } else if !have_pls {
        cc.creator == Some(u)
    } else {
        false
    }
}

fn is_creator(rv: &RoomVersion, create: &Event, cc: &CreateContent, u: UserId, have_pls: bool) -> (r:
    bool)
    ensures
        r == creator_spec(*rv, *create, *cc, u, have_pls),
{
    if rv.explicitly_privilege_room_creators {
        is_listed_creator(create, cc, u)
    } else if rv.use_room_create_sender && !have_pls {
        create.sender == u
    } else if !have_pls {
        cc.creator == Some(u)
    } else {
        false
    }
}

/// The third-party invite `tp` answers the invite event `current` of the
/// room state: it names `target`, its token is that event's state key, both
/// come from `sender`, and the decoded token is one of that event's public keys.
pub open spec fn third_party_invite_valid(
    target: UserId,
    sender: UserId,
    tp: SignedInvite,
    current: Option<Event>,
) -> bool {
    match current {
        None => false,
        Some(c) => {
            &&& target == tp.mxid
            &&& c.state_key == Some(StateKey::Text(tp.token))
            &&& sender == c.sender
            &&& match (c.content, tp.token_decoded) {
                (Content::ThirdPartyInvite(k), Some(t)) => k.public_keys@.contains(t) || k.public_key
                    == t,
                _ => false,
            }
        },
    }
}

fn contains_key(v: &Vec<u64>, x: u64) -> (r: bool)
    ensures
        r == v@.contains(x),
{
    let mut i: usize = 0;
    while i < v.len()
        invariant
            i <= v@.len(),
            forall|j: int| 0 <= j < i ==> v@[j] != x,
        decreases v@.len() - i,
    {
        if v[i] == x {
            return true;
        }
        i = i + 1;
    }
    false
}

/// Whether the third-party invite `tp` answers the invite event `current`.
pub fn verify_third_party_invite(
    target: UserId,
    sender: UserId,
    tp: SignedInvite,
    current: Option<&Event>,
) -> (r: bool)
    ensures
        r == third_party_invite_valid(target, sender, tp, deref_opt(current)),
{
    if target != tp.mxid {
        return false;
    }
    let c = match current {
        Some(c) => c,
        None => {
            return false;
        },
    };
    if c.state_key != Some(StateKey::Text(tp.token)) {
        return false;
    }
    if sender != c.sender {
        return false;
    }
    match (&c.content, tp.token_decoded) {
        (Content::ThirdPartyInvite(k), Some(t)) => contains_key(&k.public_keys, t) || k.public_key
            == t,
        _ => false,
    }
}

/// The power of a user in a member check: the creator maximum where creators
/// are privileged, else the user's own entry, else `users_default` if
/// `joined`, else none.
pub open spec fn member_power(
    rv: RoomVersion,
    create: Event,
    cc: CreateContent,
    l: Option<PowerLevels>,
    u: UserId,
    joined: bool,
) -> Option<i64> {
    if rv.explicitly_privilege_room_creators && creator_listed(create, cc, u) {
        Some(MAX_POWER)
    } else {
        match pl_user_level(l, u) {
            Some(x) => Some(x),
            None => if joined {
                Some(pl_users_default(l))
            } else {
                None
            },
        }
    }
}

fn get_member_power(
    rv: &RoomVersion,
    create: &Event,
    cc: &CreateContent,
    l: Option<&PowerLevels>,
    u: UserId,
    joined: bool,
) -> (r: Option<i64>)
    ensures
        r == member_power(*rv, *create, *cc, levels_opt(l), u, joined),
{
    if rv.explicitly_privilege_room_creators && is_listed_creator(create, cc, u) {
        Some(MAX_POWER)
    } else {
        match user_level_in(l, u) {
            Some(x) => Some(x),
            None => if joined {
                Some(users_default_in(l))
            } else {
                None
            },
        }
    }
}

/// The join rule that an optional join-rules event states: `invite` where the
/// room has none, an error where its content is not a join rule.
pub open spec fn join_rule_of(jr: Option<Event>) -> Result<JoinRule, AuthError> {
    match jr {
        None => Ok(JoinRule::Invite),
        Some(e) => match e.content {
            Content::JoinRules(j) => Ok(j),
            _ => Err(AuthError::InvalidContent),
        },
    }
}

fn get_join_rule(jr: Option<&Event>) -> (r: Result<JoinRule, AuthError>)
    ensures
        r == join_rule_of(deref_opt(jr)),
{
    match jr {
        None => Ok(JoinRule::Invite),
        Some(e) => match &e.content {
            Content::JoinRules(j) => Ok(*j),
            _ => Err(AuthError::InvalidContent),
        },
    }
}

/// `sp` is a power of at least `level`.
pub open spec fn at_least(sp: Option<i64>, level: i64) -> bool {
    match sp {
        Some(p) => p >= level,
        None => false,
    }
}

/// The member event's only previous event is the create event.
pub open spec fn follows_create_only(ev: Event, create: Event) -> bool {
    ev.prev_events@.len() == 1 && ev.prev_events@[0] == create.event_id
}

/// Whether the membership change that the member event `ev` makes, from
/// `sender` on `target`, is allowed by the room state given: the member events
/// of both, the power levels, the join rules, the user that authorises a
/// restricted join and that user's membership, and the create event.
pub open spec fn membership_change_allowed(
    rv: RoomVersion,
    target: UserId,
    target_ev: Option<Event>,
    sender: UserId,
    sender_ev: Option<Event>,
    ev: Event,
    tpi: Option<Event>,
    pl_ev: Option<Event>,
    jr_ev: Option<Event>,
    auth_user: Option<UserId>,
    auth_user_membership: Membership,
    create: Event,
) -> Result<bool, AuthError> {
    match (create_content_of(create), ev.content) {
        (Ok(cc), Content::Member(mc)) => match (mc.membership, levels_of(pl_ev), join_rule_of(jr_ev)) {
            (Some(m), Ok(l), Ok(rule)) => {
                let have_pls = pl_ev.is_some();
                let sender_m = membership_or_leave(sender_ev);
                let sender_joined = sender_m == Membership::Join;
                let target_m = membership_or_leave(target_ev);
                let sp = member_power(rv, create, cc, l, sender, sender_joined);
                let tp = member_power(rv, create, cc, l, target, true);
                let sender_creator = creator_spec(rv, create, cc, sender, have_pls);
                let target_creator = creator_spec(rv, create, cc, target, have_pls);
                let auth_user_valid = match auth_user {
                    Some(u) => auth_user_membership == Membership::Join && (creator_spec(
                        rv,
                        create,
                        cc,
                        u,
                        have_pls,
                    ) || (if have_pls {
                        pl_user_level(l, u).unwrap_or(pl_users_default(l)) >= pl_invite(l)
                    } else {
                        true
                    })),
                    None => false,
                };
                let allows_join = target_m == Membership::Join || target_m == Membership::Invite;
                Ok(
                    match m {
                        Membership::Join => if follows_create_only(ev, create) && sender_creator
                            && target_creator {
                            true
                        } else if sender != target || target_m == Membership::Ban {
                            false
                        } else {
                            match rule {
                                JoinRule::Public => true,
                                JoinRule::Invite => allows_join,
                                JoinRule::Knock => rv.allow_knocking && allows_join,
                                JoinRule::Restricted => rv.restricted_join_rule && (allows_join || auth_user_valid),
                                JoinRule::KnockRestricted => rv.knock_restricted_join_rule && (
                                allows_join || auth_user_valid),
                                JoinRule::Private => false,
                            }
                        },
                        Membership::Invite => match mc.third_party_invite {
                            Some(t) => target_m != Membership::Ban && third_party_invite_valid(
                                target,
                                sender,
                                t,
                                tpi,
                            ),
                            None => sender_joined && target_m != Membership::Join && target_m
                                != Membership::Ban && (sender_creator || at_least(
                                sp,
                                pl_invite(l),
                            )),
                        },
                        Membership::Leave => {
                            let can_unban = target_m != Membership::Ban || sender_creator
                                || at_least(sp, pl_ban(l));
                            let can_kick = target_m == Membership::Ban || target_m
                                == Membership::Leave || sender_creator || (at_least(
                                sp,
                                pl_kick(l),
                            ) && match tp {
                                Some(t) => sp.unwrap() > t,
                                None => true,
                            });
                            if sender == target {
                                target_m == Membership::Join || target_m == Membership::Invite
                                    || target_m == Membership::Knock
                            } else {
                                sender_joined && can_unban && can_kick
                            }
                        },
                        Membership::Ban => sender_joined && (sender_creator || (at_least(
                            sp,
                            pl_ban(l),
                        ) && match tp {
                            Some(t) => t < sp.unwrap(),
                            None => true,
                        })),
                        Membership::Knock => rv.allow_knocking && (rule == JoinRule::Knock || (
                        rule == JoinRule::KnockRestricted && rv.knock_restricted_join_rule))
                            && sender == target && sender_m != Membership::Ban && sender_m
                            != Membership::Invite && sender_m != Membership::Join,
                    },
                )
            },
            (None, _, _) => Err(AuthError::InvalidContent),
            (_, Err(e), _) => Err(e),
            (_, _, Err(e)) => Err(e),
        },
        (Err(e), _) => Err(e),
        (Ok(_), _) => Err(AuthError::InvalidContent),
    }
}

/// Whether the membership change that the member event `current_event`
/// makes is allowed by the room state given.
pub fn valid_membership_change(
    room_version: &RoomVersion,
    target_user: UserId,
    target_user_membership_event: Option<&Event>,
    sender: UserId,
    sender_membership_event: Option<&Event>,
    current_event: &Event,
    current_third_party_invite: Option<&Event>,
    power_levels_event: Option<&Event>,
    join_rules_event: Option<&Event>,
    user_for_join_auth: Option<UserId>,
    user_for_join_auth_membership: Membership,
    create_room: &Event,
) -> (r: Result<bool, AuthError>)
    ensures
        r == membership_change_allowed(
            *room_version,
            target_user,
            deref_opt(target_user_membership_event),
            sender,
            deref_opt(sender_membership_event),
            *current_event,
            deref_opt(current_third_party_invite),
            deref_opt(power_levels_event),
            deref_opt(join_rules_event),
            user_for_join_auth,
            user_for_join_auth_membership,
            *create_room,
        ),
{
    let rv = room_version;
    let cc = match create_content_ref(create_room) {
        Ok(c) => c,
        Err(e) => {
            return Err(e);
        },
    };
    let mc = match &current_event.content {
        Content::Member(mc) => mc,
        _ => {
            return Err(AuthError::InvalidContent);
        },
    };
    let m = match mc.membership {
        Some(m) => m,
        None => {
            return Err(AuthError::InvalidContent);
        },
    };
    let l = match levels_ref(power_levels_event) {
        Ok(l) => l,
        Err(e) => {
            return Err(e);
        },
    };
    let rule = match get_join_rule(join_rules_event) {
        Ok(j) => j,
        Err(e) => {
            return Err(e);
        },
    };
    let have_pls = power_levels_event.is_some();
    let sender_m = current_membership(sender_membership_event);
    let sender_joined = sender_m == Membership::Join;
    let target_m = current_membership(target_user_membership_event);
    let sp = get_member_power(rv, create_room, cc, l, sender, sender_joined);
    let tp = get_member_power(rv, create_room, cc, l, target_user, true);
    let sender_creator = is_creator(rv, create_room, cc, sender, have_pls);
    let target_creator = is_creator(rv, create_room, cc, target_user, have_pls);
    let auth_user_valid = match user_for_join_auth {
        Some(u) => user_for_join_auth_membership == Membership::Join && (is_creator(
            rv,
            create_room,
            cc,
            u,
            have_pls,
        ) || (if have_pls {
            let level = match user_level_in(l, u) {
                Some(x) => x,
                None => users_default_in(l),
            };
            level >= invite_in(l)
        } else {
            true
        })),
        None => false,
    };
    let allows_join = target_m == Membership::Join || target_m == Membership::Invite;
    let allowed = match m {
        Membership::Join => {
            let prev = &current_event.prev_events;
            if prev.len() == 1 && prev[0] == create_room.event_id && sender_creator
                && target_creator {
                true
            } else if sender != target_user || target_m == Membership::Ban {
                false
            } else {
                match rule {
                    JoinRule::Public => true,
                    JoinRule::Invite => allows_join,
                    JoinRule::Knock => rv.allow_knocking && allows_join,
                    JoinRule::Restricted => rv.restricted_join_rule && (allows_join || auth_user_valid),
                    JoinRule::KnockRestricted => rv.knock_restricted_join_rule && (allows_join
                        || auth_user_valid),
                    JoinRule::Private => false,
                }
            }
        },
        Membership::Invite => match mc.third_party_invite {
            Some(t) => target_m != Membership::Ban && verify_third_party_invite(
                target_user,
                sender,
                t,
                current_third_party_invite,
            ),
            None => sender_joined && target_m != Membership::Join && target_m != Membership::Ban
                && (sender_creator || match sp {
                Some(p) => p >= invite_in(l),
                None => false,
            }),
        },
        Membership::Leave => {
            let can_unban = target_m != Membership::Ban || sender_creator || match sp {
                Some(p) => p >= ban_in(l),
                None => false,
            };
            let can_kick = target_m == Membership::Ban || target_m == Membership::Leave
                || sender_creator || match sp {
                Some(p) => p >= kick_in(l) && match tp {
                    Some(t) => p > t,
                    None => true,
                },
                None => false,
            };
            if sender == target_user {
                target_m == Membership::Join || target_m == Membership::Invite || target_m
                    == Membership::Knock
            } else {
                sender_joined && can_unban && can_kick
            }
        },
        Membership::Ban => sender_joined && (sender_creator || match sp {
            Some(p) => p >= ban_in(l) && match tp {
                Some(t) => t < p,
                None => true,
            },
            None => false,
        }),
        Membership::Knock => rv.allow_knocking && (rule == JoinRule::Knock || (rule
            == JoinRule::KnockRestricted && rv.knock_restricted_join_rule)) && sender
            == target_user && sender_m != Membership::Ban && sender_m != Membership::Invite
            && sender_m != Membership::Join,
    };
    Ok(allowed)
}

/// `o` is a level above `ul`.
pub open spec fn above(o: Option<i64>, ul: i64) -> bool {
    match o {
        Some(x) => x > ul,
        None => false,
    }
}

/// The entry of user `u` may go from `old` to `new` when the sender, at
/// level `ul`, sends it: a creator (where creators are privileged) is never
/// listed, and a changed entry was not and does not become above the sender,
/// nor was it equal to the sender's level on another user.
pub open spec fn user_change_ok(
    rv: RoomVersion,
    create: Event,
    cc: CreateContent,
    old: PowerLevels,
    new: PowerLevels,
    u: UserId,
    sender: UserId,
    ul: i64,
) -> bool {
    let o = old.user_level(u);
    let n = new.user_level(u);
    &&& !(n.is_some() && rv.explicitly_privilege_room_creators && creator_listed(create, cc, u))
    &&& (o.is_some() && o == n) || (!(u != sender && o == Some(ul)) && !above(o, ul) && !above(
        n,
        ul,
    ))
}

/// The entry of event type `t` may go from `old` to `new` when sent at level
/// `ul`: unchanged, or neither value above `ul`.
pub open spec fn event_change_ok(old: PowerLevels, new: PowerLevels, t: EventType, ul: i64) -> bool {
    let o = old.event_level(t);
    let n = new.event_level(t);
    (o.is_some() && o == n) || (!above(o, ul) && !above(n, ul))
}

/// No top-level level of `old` or `new` is above `ul`.
pub open spec fn scalars_ok(old: PowerLevels, new: PowerLevels, ul: i64) -> bool {
    &&& old.users_default <= ul && new.users_default <= ul
    &&& old.events_default <= ul && new.events_default <= ul
    &&& old.state_default <= ul && new.state_default <= ul
    &&& old.ban <= ul && new.ban <= ul
    &&& old.redact <= ul && new.redact <= ul
    &&& old.kick <= ul && new.kick <= ul
    &&& old.invite <= ul && new.invite <= ul
}

/// The change from power levels `old` to `new`, sent at level `ul`, breaks
/// none of the rules on users, event types, notifications and top-level levels.
pub open spec fn levels_change_ok(
    rv: RoomVersion,
    create: Event,
    cc: CreateContent,
    old: PowerLevels,
    new: PowerLevels,
    sender: UserId,
    ul: i64,
) -> bool {
    &&& forall|i: int|
        0 <= i < old.users@.len() ==> user_change_ok(
            rv,
            create,
            cc,
            old,
            new,
            #[trigger] old.users@[i].0,
            sender,
            ul,
        )
    &&& forall|i: int|
        0 <= i < new.users@.len() ==> user_change_ok(
            rv,
            create,
            cc,
            old,
            new,
            #[trigger] new.users@[i].0,
            sender,
            ul,
        )
    &&& forall|i: int|
        0 <= i < old.events@.len() ==> event_change_ok(old, new, #[trigger] old.events@[i].0, ul)
    &&& forall|i: int|
        0 <= i < new.events@.len() ==> event_change_ok(old, new, #[trigger] new.events@[i].0, ul)
    &&& !(rv.limit_notifications_power_levels && old.notifications_room != new.notifications_room
        && (old.notifications_room > ul || new.notifications_room > ul))
    &&& scalars_ok(old, new, ul)
}

/// Whether the power-levels event `ev`, sent at level `ul`, may replace the
/// power-levels event `prev` of the room: `None` where either is malformed.
pub open spec fn power_levels_allowed(
    rv: RoomVersion,
    create: Event,
    cc: CreateContent,
    ev: Event,
    prev: Option<Event>,
    ul: i64,
) -> Option<bool> {
    if ev.state_key != Some(StateKey::Empty) {
        None
    } else {
        match ev.content {
            Content::PowerLevels(new) => match prev {
                None => Some(true),
                Some(p) => match p.content {
                    Content::PowerLevels(old) => Some(
                        levels_change_ok(rv, create, cc, old, new, ev.sender, ul),
                    ),
                    _ => None,
                },
            },
            _ => None,
        }
    }
}

fn user_ok(
    rv: &RoomVersion,
    create: &Event,
    cc: &CreateContent,
    old: &PowerLevels,
    new: &PowerLevels,
    u: UserId,
    sender: UserId,
    ul: i64,
) -> (r: bool)
    ensures
        r == user_change_ok(*rv, *create, *cc, *old, *new, u, sender, ul),
{
    let o = old.get_user_level(u);
    let n = new.get_user_level(u);
    if n.is_some() && rv.explicitly_privilege_room_creators && is_listed_creator(create, cc, u) {
        return false;
    }
    if o.is_some() && o == n {
        return true;
    }
    let o_above = match o {
        Some(x) => x > ul,
        None => false,
    };
    let n_above = match n {
        Some(x) => x > ul,
        None => false,
    };
    !(u != sender && o == Some(ul)) && !o_above && !n_above
}

fn users_ok(
    rv: &RoomVersion,
    create: &Event,
    cc: &CreateContent,
    old: &PowerLevels,
    new: &PowerLevels,
    list: &Vec<(UserId, i64)>,
    sender: UserId,
    ul: i64,
) -> (r: bool)
    ensures
        r == forall|i: int|
            0 <= i < list@.len() ==> user_change_ok(
                *rv,
                *create,
                *cc,
                *old,
                *new,
                #[trigger] list@[i].0,
                sender,
                ul,
            ),
{
    let mut i: usize = 0;
    while i < list.len()
        invariant
            i <= list@.len(),
            forall|j: int|
                0 <= j < i ==> user_change_ok(
                    *rv,
                    *create,
                    *cc,
                    *old,
                    *new,
                    #[trigger] list@[j].0,
                    sender,
                    ul,
                ),
        decreases list@.len() - i,
    {
        if !user_ok(rv, create, cc, old, new, list[i].0, sender, ul) {
            return false;
        }
        i = i + 1;
    }
    true
}

fn event_ok(old: &PowerLevels, new: &PowerLevels, t: EventType, ul: i64) -> (r: bool)
    ensures
        r == event_change_ok(*old, *new, t, ul),
{
    let o = old.get_event_level(t);
    let n = new.get_event_level(t);
    if o.is_some() && o == n {
        return true;
    }
    let o_above = match o {
        Some(x) => x > ul,
        None => false,
    };
    let n_above = match n {
        Some(x) => x > ul,
        None => false,
    };
    !o_above && !n_above
}

fn events_ok(old: &PowerLevels, new: &PowerLevels, list: &Vec<(EventType, i64)>, ul: i64) -> (r:
    bool)
    ensures
        r == forall|i: int|
            0 <= i < list@.len() ==> event_change_ok(*old, *new, #[trigger] list@[i].0, ul),
{
    let mut i: usize = 0;
    while i < list.len()
        invariant
            i <= list@.len(),
            forall|j: int| 0 <= j < i ==> event_change_ok(*old, *new, #[trigger] list@[j].0, ul),
        decreases list@.len() - i,
    {
        if !event_ok(old, new, list[i].0, ul) {
            return false;
        }
        i = i + 1;
    }
    true
}

/// Whether the power-levels event `power_event`, sent at level `user_level`,
/// may replace `previous_power_event`; `None` where either is malformed.
pub fn check_power_levels(
    room_version: &RoomVersion,
    create: &Event,
    cc: &CreateContent,
    power_event: &Event,
    previous_power_event: Option<&Event>,
    user_level: i64,
) -> (r: Option<bool>)
    ensures
        r == power_levels_allowed(
            *room_version,
            *create,
            *cc,
            *power_event,
            deref_opt(previous_power_event),
            user_level,
        ),
{
    if power_event.state_key != Some(StateKey::Empty) {
        return None;
    }
    let new = match &power_event.content {
        Content::PowerLevels(n) => n,
        _ => {
            return None;
        },
    };
    let prev = match previous_power_event {
        None => {
            return Some(true);
        },
        Some(p) => p,
    };
    let old = match &prev.content {
        Content::PowerLevels(o) => o,
        _ => {
            return None;
        },
    };
    let rv = room_version;
    let sender = power_event.sender;
    let ul = user_level;
    let ok = users_ok(rv, create, cc, old, new, &old.users, sender, ul) && users_ok(
        rv,
        create,
        cc,
        old,
        new,
        &new.users,
        sender,
        ul,
    ) && events_ok(old, new, &old.events, ul) && events_ok(old, new, &new.events, ul) && !(
    rv.limit_notifications_power_levels && old.notifications_room != new.notifications_room && (
    old.notifications_room > ul || new.notifications_room > ul)) && old.users_default <= ul
        && new.users_default <= ul && old.events_default <= ul && new.events_default <= ul
        && old.state_default <= ul && new.state_default <= ul && old.ban <= ul && new.ban <= ul
        && old.redact <= ul && new.redact <= ul && old.kick <= ul && new.kick <= ul && old.invite
        <= ul && new.invite <= ul;
    Some(ok)
}

/// The event may be sent at level `ul`: `ul` reaches its send level, and a
/// state key that is a user id is the sender's.
pub open spec fn can_send(ev: Event, l: Option<PowerLevels>, ul: i64) -> bool {
    &&& ul >= send_level(l, ev.kind, ev.state_key.is_some())
    &&& match ev.state_key {
        Some(StateKey::User(u)) => u == ev.sender,
        _ => true,
    }
}

/// Whether the event may be sent at level `user_level`.
pub fn can_send_event(event: &Event, l: Option<&PowerLevels>, user_level: i64) -> (r: bool)
    ensures
        r == can_send(*event, levels_opt(l), user_level),
{
    if user_level < get_send_level(l, event.kind, event.state_key.is_some()) {
        return false;
    }
    match event.state_key {
        Some(StateKey::User(u)) => u == event.sender,
        _ => true,
    }
}

/// The server of the event that `ev` redacts, if it names one.
pub open spec fn redacted_server(ev: Event) -> Option<u64> {
    match ev.redacts {
        Some(r) => r.server,
        None => None,
    }
}

/// A redaction is allowed at level `ul` when `ul` reaches the redact level, or
/// when its id names the same server as the id of the redacted event.
pub open spec fn redaction_allowed(ev: Event, ul: i64, redact_level: i64) -> bool {
    ul >= redact_level || ev.event_id.server == redacted_server(ev)
}

/// Whether the redaction `redaction_event` is allowed at level `user_level`.
pub fn check_redaction(redaction_event: &Event, user_level: i64, redact_level: i64) -> (r: bool)
    ensures
        r == redaction_allowed(*redaction_event, user_level, redact_level),
{
    if user_level >= redact_level {
        return true;
    }
    let target = match redaction_event.redacts {
        Some(r) => r.server,
        None => None,
    };
    redaction_event.event_id.server == target
}

/// The verdict on a create event.
pub open spec fn create_verdict(rv: RoomVersion, ev: Event) -> Result<bool, AuthError> {
    if ev.prev_events@.len() > 0 {
        Ok(false)
    } else if ev.room_id.is_some() && ev.room_id.unwrap().server != Some(ev.sender.server) {
        Ok(false)
    } else {
        match create_content_of(ev) {
            Err(e) => Err(e),
            Ok(cc) => Ok(
                cc.room_version_known != Some(false) && !(rv.room_ids_as_hashes
                    && ev.room_id.is_some()) && (rv.use_room_create_sender
                    || rv.explicitly_privilege_room_creators || cc.creator.is_some()),
            ),
        }
    }
}

/// The verdict on a member event, from the room state.
pub open spec fn member_verdict(
    rv: RoomVersion,
    ev: Event,
    tpi: Option<Event>,
    state: Seq<Event>,
    create: Event,
) -> Result<bool, AuthError> {
    match ev.state_key {
        None => Ok(false),
        Some(key) => match ev.content {
            Content::Member(mc) => match mc.membership {
                None => Ok(false),
                Some(_) => match key {
                    StateKey::User(target) => {
                        let auth_user = mc.join_authorised_via_users_server;
                        let auth_m = match auth_user {
                            Some(u) => membership_or_leave(
                                fetch(state, EventType::Member, StateKey::User(u)),
                            ),
                            None => Membership::Leave,
                        };
                        membership_change_allowed(
                            rv,
                            target,
                            fetch(state, EventType::Member, StateKey::User(target)),
                            ev.sender,
                            fetch(state, EventType::Member, StateKey::User(ev.sender)),
                            ev,
                            tpi,
                            fetch(state, EventType::PowerLevels, StateKey::Empty),
                            fetch(state, EventType::JoinRules, StateKey::Empty),
                            auth_user,
                            auth_m,
                            create,
                        )
                    },
                    _ => Err(AuthError::InvalidPdu),
                },
            },
            Content::Malformed => Err(AuthError::InvalidContent),
            _ => Ok(false),
        },
    }
}

/// The sender's power for events other than member events: its entry, else
/// `users_default`; in a room without power levels 100 for the creator and 0
/// for others; the creator maximum where creators are privileged.
pub open spec fn sender_power(
    rv: RoomVersion,
    create: Event,
    cc: CreateContent,
    l: Option<PowerLevels>,
    sender: UserId,
) -> i64 {
    if rv.explicitly_privilege_room_creators && creator_listed(create, cc, sender) {
        MAX_POWER
    } else {
        match l {
            Some(p) => p.user_level(sender).unwrap_or(p.users_default),
            None => if (if rv.use_room_create_sender {
                create.sender == sender
            } else {
                cc.creator == Some(sender)
            }) {
                100
            } else {
                0
            },
        }
    }
}

/// The verdict on an event that is neither a create nor a member event, from
/// the sender's member event and the room's power levels.
pub open spec fn other_verdict(
    rv: RoomVersion,
    ev: Event,
    state: Seq<Event>,
    create: Event,
    cc: CreateContent,
) -> Result<bool, AuthError> {
    let pl_ev = fetch(state, EventType::PowerLevels, StateKey::Empty);
    match fetch(state, EventType::Member, StateKey::User(ev.sender)) {
        None => Ok(false),
        Some(sm) => if sm.room_id != Some(create.spec_room_id_or_hash()) {
            Ok(false)
        } else {
            match sm.spec_membership() {
                None => Err(AuthError::InvalidPdu),
                Some(m) => if m != Membership::Join {
                    Ok(false)
                } else {
                    match levels_of(pl_ev) {
                        Err(e) => Err(e),
                        Ok(l) => {
                            let sp = sender_power(rv, create, cc, l, ev.sender);
                            if ev.kind == EventType::ThirdPartyInvite {
                                Ok(sp >= pl_invite(l))
                            } else {
                                Ok(
                                    can_send(ev, l, sp) && (ev.kind != EventType::PowerLevels
                                        || power_levels_allowed(rv, create, cc, ev, pl_ev, sp)
                                        == Some(true)) && !(rv.extra_redaction_checks && ev.kind
                                        == EventType::Redaction && !redaction_allowed(
                                        ev,
                                        sp,
                                        pl_redact(l),
                                    )),
                                )
                            }
                        },
                    }
                },
            }
        },
    }
}

/// The admission verdict on `ev` against the room state `state` (the state
/// events that the auth selector names), the room's create event, and the
/// third-party invite event that an invite may answer. `Ok(true)` admits the
/// event, `Ok(false)` denies it, an error says it is malformed.
pub open spec fn auth_verdict(
    rv: RoomVersion,
    ev: Event,
    tpi: Option<Event>,
    state: Seq<Event>,
    create: Event,
) -> Result<bool, AuthError> {
    if ev.kind == EventType::Create {
        create_verdict(rv, ev)
    } else {
        match create_content_of(create) {
            Err(e) => Err(e),
            Ok(cc) => {
                let expected = create.spec_room_id_or_hash();
                let pl_ev = fetch(state, EventType::PowerLevels, StateKey::Empty);
                if cc.room_version_known == Some(false) {
                    Ok(false)
                } else if ev.room_id != Some(expected) {
                    Ok(false)
                } else if rv.room_ids_as_hashes == ev.auth_events@.contains(create.event_id) {
                    Ok(false)
                } else if pl_ev.is_some() && pl_ev.unwrap().room_id != Some(expected) {
                    Ok(false)
                } else if !cc.federate && create.sender.server != ev.sender.server {
                    Ok(false)
                } else if rv.special_case_aliases_auth && ev.kind == EventType::Aliases {
                    Ok(ev.state_key == Some(StateKey::Server(ev.sender.server)))
                } else if ev.kind == EventType::Member {
                    member_verdict(rv, ev, tpi, state, create)
                } else {
                    other_verdict(rv, ev, state, create, cc)
                }
            },
        }
    }
}

fn check_create(rv: &RoomVersion, ev: &Event) -> (r: Result<bool, AuthError>)
    ensures
        r == create_verdict(*rv, *ev),
{
    if ev.prev_events.len() > 0 {
        return Ok(false);
    }
    if let Some(room) = ev.room_id {
        if room.server != Some(ev.sender.server) {
            return Ok(false);
        }
    }
    let cc = match create_content_ref(ev) {
        Ok(c) => c,
        Err(e) => {
            return Err(e);
        },
    };
    Ok(
        cc.room_version_known != Some(false) && !(rv.room_ids_as_hashes && ev.room_id.is_some())
            && (rv.use_room_create_sender || rv.explicitly_privilege_room_creators
            || cc.creator.is_some()),
    )
}

fn check_member(
    rv: &RoomVersion,
    ev: &Event,
    tpi: Option<&Event>,
    state: &Vec<Event>,
    create: &Event,
) -> (r: Result<bool, AuthError>)
    ensures
        r == member_verdict(*rv, *ev, deref_opt(tpi), state@, *create),
{
    let key = match ev.state_key {
        None => {
            return Ok(false);
        },
        Some(k) => k,
    };
    let mc = match &ev.content {
        Content::Member(mc) => mc,
        Content::Malformed => {
            return Err(AuthError::InvalidContent);
        },
        _ => {
            return Ok(false);
        },
    };
    if mc.membership.is_none() {
        return Ok(false);
    }
    let target = match key {
        StateKey::User(t) => t,
        _ => {
            return Err(AuthError::InvalidPdu);
        },
    };
    let auth_user = mc.join_authorised_via_users_server;
    let auth_m = match auth_user {
        Some(u) => current_membership(fetch_state(state, EventType::Member, StateKey::User(u))),
        None => Membership::Leave,
    };
    valid_membership_change(
        rv,
        target,
        fetch_state(state, EventType::Member, StateKey::User(target)),
        ev.sender,
        fetch_state(state, EventType::Member, StateKey::User(ev.sender)),
        ev,
        tpi,
        fetch_state(state, EventType::PowerLevels, StateKey::Empty),
        fetch_state(state, EventType::JoinRules, StateKey::Empty),
        auth_user,
        auth_m,
        create,
    )
}

fn get_sender_power(
    rv: &RoomVersion,
    create: &Event,
    cc: &CreateContent,
    l: Option<&PowerLevels>,
    sender: UserId,
) -> (r: i64)
    ensures
        r == sender_power(*rv, *create, *cc, levels_opt(l), sender),
{
    if rv.explicitly_privilege_room_creators && is_listed_creator(create, cc, sender) {
        MAX_POWER
    } else {
        match l {
            Some(p) => match p.get_user_level(sender) {
                Some(x) => x,
                None => p.users_default,
            },
            None => {
                let creator = if rv.use_room_create_sender {
                    create.sender == sender
                } else {
                    cc.creator == Some(sender)
                };
                if creator {
                    100
                } else {
                    0
                }
            },
        }
    }
}

fn check_other(
    rv: &RoomVersion,
    ev: &Event,
    state: &Vec<Event>,
    create: &Event,
    cc: &CreateContent,
) -> (r: Result<bool, AuthError>)
    ensures
        r == other_verdict(*rv, *ev, state@, *create, *cc),
{
    let pl_ev = fetch_state(state, EventType::PowerLevels, StateKey::Empty);
    let sm = match fetch_state(state, EventType::Member, StateKey::User(ev.sender)) {
        None => {
            return Ok(false);
        },
        Some(sm) => sm,
    };
    if sm.room_id != Some(create.room_id_or_hash()) {
        return Ok(false);
    }
    match sm.membership() {
        None => {
            return Err(AuthError::InvalidPdu);
        },
        Some(m) => {
            if m != Membership::Join {
                return Ok(false);
            }
        },
    }
    let l = match levels_ref(pl_ev) {
        Ok(l) => l,
        Err(e) => {
            return Err(e);
        },
    };
    let sp = get_sender_power(rv, create, cc, l, ev.sender);
    if ev.kind == EventType::ThirdPartyInvite {
        return Ok(sp >= invite_in(l));
    }
    if !can_send_event(ev, l, sp) {
        return Ok(false);
    }
    if ev.kind == EventType::PowerLevels {
        match check_power_levels(rv, create, cc, ev, pl_ev, sp) {
            Some(true) => {},
            _ => {
                return Ok(false);
            },
        }
    }
    if rv.extra_redaction_checks && ev.kind == EventType::Redaction {
        if !check_redaction(ev, sp, redact_in(l)) {
            return Ok(false);
        }
    }
    Ok(true)
}

/// Decides whether `incoming_event` is admitted, given the room state that
/// authorizes it, the room's create event, and the third-party invite event
/// that an invite may answer.
pub fn auth_check(
    room_version: &RoomVersion,
    incoming_event: &Event,
    current_third_party_invite: Option<&Event>,
    state: &Vec<Event>,
    create_event: &Event,
) -> (r: Result<bool, AuthError>)
    ensures
        r == auth_verdict(
            *room_version,
            *incoming_event,
            deref_opt(current_third_party_invite),
            state@,
            *create_event,
        ),
{
    let rv = room_version;
    let ev = incoming_event;
    let create = create_event;
    if ev.kind == EventType::Create {
        return check_create(rv, ev);
    }
    let cc = match create_content_ref(create) {
        Ok(c) => c,
        Err(e) => {
            return Err(e);
        },
    };
    let expected = create.room_id_or_hash();
    let pl_ev = fetch_state(state, EventType::PowerLevels, StateKey::Empty);
    if cc.room_version_known == Some(false) {
        return Ok(false);
    }
    if ev.room_id != Some(expected) {
        return Ok(false);
    }
    let claims_create = contains_event_id(&ev.auth_events, create.event_id);
    if rv.room_ids_as_hashes == claims_create {
        return Ok(false);
    }
    if let Some(p) = pl_ev {
        if p.room_id != Some(expected) {
            return Ok(false);
        }
    }
    if !cc.federate && create.sender.server != ev.sender.server {
        return Ok(false);
    }
    if rv.special_case_aliases_auth && ev.kind == EventType::Aliases {
        return Ok(ev.state_key == Some(StateKey::Server(ev.sender.server)));
    }
    if ev.kind == EventType::Member {
        return check_member(rv, ev, current_third_party_invite, state, create);
    }
    check_other(rv, ev, state, create, cc)
}

} // verus!
