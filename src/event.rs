//! Events as event authorization reads them.
//!
//! Identifiers are interned: a user is a localpart and a server name, each
//! given as a number by whoever holds the strings. What the rules read of an
//! identifier is whether two of them are equal and which server they name.
use vstd::prelude::*;

verus! {

/// A user id `@local:server`.
#[derive(Clone, Copy, Debug, PartialEq, Eq, Structural)]
pub struct UserId {
    pub local: u64,
    pub server: u64,
}

/// An event id: `$local:server` in the oldest room versions, a bare hash later.
#[derive(Clone, Copy, Debug, PartialEq, Eq, Structural)]
pub struct EventId {
    pub local: u64,
    pub server: Option<u64>,
}

/// A room id: `!local:server` in older room versions, a bare hash later.
#[derive(Clone, Copy, Debug, PartialEq, Eq, Structural)]
pub struct RoomId {
    pub local: u64,
    pub server: Option<u64>,
}

/// The type of an event.
#[derive(Clone, Copy, Debug, PartialEq, Eq, Structural)]
pub enum EventType {
    Create,
    Member,
    PowerLevels,
    JoinRules,
    ThirdPartyInvite,
    Aliases,
    Redaction,
    /// Any other type, by its interned name.
    Other(u64),
}

/// A state key.
#[derive(Clone, Copy, Debug, PartialEq, Eq, Structural)]
pub enum StateKey {
    /// The empty key.
    Empty,
    /// A key that starts with `@`: a user id.
    User(UserId),
    /// A server name (the key of `m.room.aliases`).
    Server(u64),
    /// Any other key (a third-party invite token among them), interned.
    Text(u64),
}

/// A membership state.
#[derive(Clone, Copy, Debug, PartialEq, Eq, Structural)]
pub enum Membership {
    Join,
    Invite,
    Leave,
    Ban,
    Knock,
}

/// A join rule.
#[derive(Clone, Copy, Debug, PartialEq, Eq, Structural)]
pub enum JoinRule {
    Public,
    Invite,
    Knock,
    Restricted,
    KnockRestricted,
    Private,
}

/// The `signed` part of a third-party invite in a member event.
#[derive(Clone, Copy, Debug, PartialEq, Eq, Structural)]
pub struct SignedInvite {
    /// The invited user.
    pub mxid: UserId,
    /// The token: the state key of the matching `m.room.third_party_invite`.
    pub token: u64,
    /// The token read as unpadded base64, interned; `None` where it is not base64.
    pub token_decoded: Option<u64>,
}

/// The content of `m.room.create`.
#[derive(Clone, Debug)]
pub struct CreateContent {
    /// `None` where absent; `Some(false)` where it names no known version.
    pub room_version_known: Option<bool>,
    pub creator: Option<UserId>,
    pub additional_creators: Vec<UserId>,
    /// `m.federate`; true where absent.
    pub federate: bool,
}

/// The content of `m.room.member`.
#[derive(Clone, Copy, Debug)]
pub struct MemberContent {
    /// `None` where the field is absent or not a membership state.
    pub membership: Option<Membership>,
    pub join_authorised_via_users_server: Option<UserId>,
    pub third_party_invite: Option<SignedInvite>,
}

/// The content of `m.room.power_levels`. Each map is a list of entries with
/// distinct keys.
#[derive(Clone, Debug)]
pub struct PowerLevels {
    pub users: Vec<(UserId, i64)>,
    pub users_default: i64,
    pub events: Vec<(EventType, i64)>,
    pub events_default: i64,
    pub state_default: i64,
    pub ban: i64,
    pub kick: i64,
    pub redact: i64,
    pub invite: i64,
    pub notifications_room: i64,
}

/// The content of `m.room.third_party_invite`: its public keys, decoded and
/// interned.
#[derive(Clone, Debug)]
pub struct ThirdPartyInviteContent {
    pub public_key: u64,
    pub public_keys: Vec<u64>,
}

/// The content of an event, as far as authorization reads it.
#[derive(Clone, Debug)]
pub enum Content {
    Create(CreateContent),
    Member(MemberContent),
    PowerLevels(PowerLevels),
    JoinRules(JoinRule),
    ThirdPartyInvite(ThirdPartyInviteContent),
    /// Content that authorization does not read.
    Other,
    /// Content that is not a JSON object.
    Malformed,
}

/// An event (PDU).
#[derive(Clone, Debug)]
pub struct Event {
    pub event_id: EventId,
    /// Absent only on the create event of a room whose id is its hash.
    pub room_id: Option<RoomId>,
    pub sender: UserId,
    pub kind: EventType,
    pub state_key: Option<StateKey>,
    pub content: Content,
    pub prev_events: Vec<EventId>,
    pub auth_events: Vec<EventId>,
    /// The event that a redaction redacts.
    pub redacts: Option<EventId>,
}

/// A power level within the integers the event format allows: at most
/// 2^53 - 1 in size.
pub open spec fn level_in_range(l: i64) -> bool {
    -9007199254740991 <= l <= 9007199254740991
}

/// The map keys of `entries` are distinct.
pub open spec fn distinct_keys<K, V>(entries: Seq<(K, V)>) -> bool {
    forall|i: int, j: int|
        0 <= i < entries.len() && 0 <= j < entries.len() && i != j ==> entries[i].0
            != entries[j].0
}

/// The value that `entries` gives `k`, if any.
pub open spec fn lookup<K, V>(entries: Seq<(K, V)>, k: K) -> Option<V>
    decreases entries.len(),
{
    if entries.len() == 0 {
        None
    } else if entries[0].0 == k {
        Some(entries[0].1)
    } else {
        lookup(entries.drop_first(), k)
    }
}

impl PowerLevels {
    /// Each map holds each key once.
    pub open spec fn wf(&self) -> bool {
        &&& distinct_keys(self.users@)
        &&& distinct_keys(self.events@)
        &&& forall|i: int| 0 <= i < self.users@.len() ==> level_in_range(#[trigger] self.users@[i].1)
        &&& forall|i: int|
            0 <= i < self.events@.len() ==> level_in_range(#[trigger] self.events@[i].1)
        &&& level_in_range(self.users_default)
        &&& level_in_range(self.events_default)
        &&& level_in_range(self.state_default)
        &&& level_in_range(self.ban)
        &&& level_in_range(self.kick)
        &&& level_in_range(self.redact)
        &&& level_in_range(self.invite)
        &&& level_in_range(self.notifications_room)
    }

    /// The level that `users` gives `u`, if any.
    pub open spec fn user_level(&self, u: UserId) -> Option<i64> {
        lookup(self.users@, u)
    }

    /// The level that `events` gives `t`, if any.
    pub open spec fn event_level(&self, t: EventType) -> Option<i64> {
        lookup(self.events@, t)
    }

    /// The levels of a room without a power-levels event.
    pub fn default_levels() -> (r: PowerLevels)
        ensures
            r.users@.len() == 0,
            r.events@.len() == 0,
            r.users_default == 0,
            r.events_default == 0,
            r.state_default == 50,
            r.ban == 50,
            r.kick == 50,
            r.redact == 50,
            r.invite == 0,
            r.notifications_room == 50,
            r.wf(),
    {
        PowerLevels {
            users: Vec::new(),
            users_default: 0,
            events: Vec::new(),
            events_default: 0,
            state_default: 50,
            ban: 50,
            kick: 50,
            redact: 50,
            invite: 0,
            notifications_room: 50,
        }
    }

    /// The level that `users` gives `u`, if any.
    pub fn get_user_level(&self, u: UserId) -> (r: Option<i64>)
        ensures
            r == self.user_level(u),
    {
        let mut i: usize = 0;
        assert(self.users@.subrange(0, self.users@.len() as int) == self.users@);
        while i < self.users.len()
            invariant
                i <= self.users@.len(),
                lookup(self.users@, u) == lookup(self.users@.subrange(i as int, self.users@.len() as int), u),
            decreases self.users@.len() - i,
        {
            let ghost rest = self.users@.subrange(i as int, self.users@.len() as int);
            assert(rest.drop_first() == self.users@.subrange(i + 1, self.users@.len() as int));
            if self.users[i].0 == u {
                return Some(self.users[i].1);
            }
            i = i + 1;
        }
        None
    }

    /// The level that `events` gives `t`, if any.
    pub fn get_event_level(&self, t: EventType) -> (r: Option<i64>)
        ensures
            r == self.event_level(t),
    {
        let mut i: usize = 0;
        assert(self.events@.subrange(0, self.events@.len() as int) == self.events@);
        while i < self.events.len()
            invariant
                i <= self.events@.len(),
                lookup(self.events@, t) == lookup(self.events@.subrange(i as int, self.events@.len() as int), t),
            decreases self.events@.len() - i,
        {
            let ghost rest = self.events@.subrange(i as int, self.events@.len() as int);
            assert(rest.drop_first() == self.events@.subrange(i + 1, self.events@.len() as int));
            if self.events[i].0 == t {
                return Some(self.events[i].1);
            }
            i = i + 1;
        }
        None
    }
}

impl Event {
    /// The room reference that the create event `self` gives its room: its
    /// room id, or in rooms whose id is a hash, the hash of the event.
    pub open spec fn spec_room_id_or_hash(&self) -> RoomId {
        match self.room_id {
            Some(r) => r,
            None => RoomId { local: self.event_id.local, server: None },
        }
    }

    /// The room reference that the create event `self` gives its room.
    pub fn room_id_or_hash(&self) -> (r: RoomId)
        ensures
            r == self.spec_room_id_or_hash(),
    {
        match self.room_id {
            Some(r) => r,
            None => RoomId { local: self.event_id.local, server: None },
        }
    }

    /// The membership that the member event `self` states, if it states one.
    pub open spec fn spec_membership(&self) -> Option<Membership> {
        match self.content {
            Content::Member(m) => m.membership,
            _ => None,
        }
    }

    /// The membership that the member event `self` states, if it states one.
    pub fn membership(&self) -> (r: Option<Membership>)
        ensures
            r == self.spec_membership(),
    {
        match &self.content {
            Content::Member(m) => m.membership,
            _ => None,
        }
    }
}

/// The membership that an optional member event gives, `leave` where there
/// is none or it states none.
pub open spec fn membership_or_leave(e: Option<Event>) -> Membership {
    match e {
        Some(ev) => match ev.spec_membership() {
            Some(m) => m,
            None => Membership::Leave,
        },
        None => Membership::Leave,
    }
}

/// The membership that an optional member event gives, `leave` where there
/// is none or it states none.
pub fn current_membership(e: Option<&Event>) -> (r: Membership)
    ensures
        r == membership_or_leave(match e {
            Some(ev) => Some(*ev),
            None => None,
        }),
{
    match e {
        Some(ev) => match ev.membership() {
            Some(m) => m,
            None => Membership::Leave,
        },
        None => Membership::Leave,
    }
}

/// `v` holds `x`.
pub fn contains_user(v: &Vec<UserId>, x: UserId) -> (r: bool)
    ensures
        r == v@.contains(x),
{
    let mut i: usize = 0;
    while i < v.len()
        invariant
            i <= v@.len(),
            forall|j: int| 0 <= j < i ==> v@[j] != x,
        decreases v@.len() - i,
    {
        if v[i] == x {
            return true;
        }
        i = i + 1;
    }
    false
}

/// `v` holds `x`.
pub fn contains_event_id(v: &Vec<EventId>, x: EventId) -> (r: bool)
    ensures
        r == v@.contains(x),
{
    let mut i: usize = 0;
    while i < v.len()
        invariant
            i <= v@.len(),
            forall|j: int| 0 <= j < i ==> v@[j] != x,
        decreases v@.len() - i,
    {
        if v[i] == x {
            return true;
        }
        i = i + 1;
    }
    false
}

} // verus!
