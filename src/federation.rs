//! Decisions of the server-to-server endpoints: which missing events are
//! served, and which invites are refused.
use vstd::prelude::*;

use crate::event::{contains_event_id, Event, EventId, EventType, Membership, UserId};

verus! {

/// The most events one `get_missing_events` answer holds.
pub const LIMIT_MAX: usize = 50;

/// The number of events served where the request names no usable limit.
pub const LIMIT_DEFAULT: usize = 10;

/// The limit of a `get_missing_events` answer: the requested one where it
/// fits in memory, else the default, and never more than the maximum.
pub open spec fn limit_of(requested: u64) -> nat {
    let l = if requested <= usize::MAX {
        requested as nat
    } else {
        LIMIT_DEFAULT as nat
    };
    if l > LIMIT_MAX {
        LIMIT_MAX as nat
    } else {
        l
    }
}

/// The limit of a `get_missing_events` answer.
pub fn missing_events_limit(requested: u64) -> (r: usize)
    ensures
        r == limit_of(requested),
{
    let l: usize = if requested <= usize::MAX as u64 {
        requested as usize
    } else {
        LIMIT_DEFAULT
    };
    if l > LIMIT_MAX {
        LIMIT_MAX
    } else {
        l
    }
}

/// The first event of `known` with id `id`.
pub open spec fn find_event(known: Seq<Event>, id: EventId) -> Option<Event>
    decreases known.len(),
{
    if known.len() == 0 {
        None
    } else if known[0].event_id == id {
        Some(known[0])
    } else {
        find_event(known.drop_first(), id)
    }
}

fn get_event<'a>(known: &'a Vec<Event>, id: EventId) -> (r: Option<&'a Event>)
    ensures
        match r {
            Some(e) => find_event(known@, id) == Some(*e),
            None => find_event(known@, id).is_none(),
        },
{
    let mut i: usize = 0;
    assert(known@.subrange(0, known@.len() as int) == known@);
    while i < known.len()
        invariant
            i <= known@.len(),
            find_event(known@, id) == find_event(known@.subrange(i as int, known@.len() as int), id),
        decreases known@.len() - i,
    {
        let ghost rest = known@.subrange(i as int, known@.len() as int);
        assert(rest.drop_first() == known@.subrange(i + 1, known@.len() as int));
        if known[i].event_id == id {
            return Some(&known[i]);
        }
        i = i + 1;
    }
    None
}

/// The events served from the walk at position `i` of `queue`, with `out`
/// served so far: each queued id that is known, not among `earliest` and
/// visible to the requester is served and its previous events are queued,
/// until the queue ends or `limit` events are served.
pub open spec fn walk(
    known: Seq<Event>,
    earliest: Seq<EventId>,
    visible: Seq<EventId>,
    limit: nat,
    queue: Seq<EventId>,
    i: nat,
    out: Seq<EventId>,
) -> Seq<EventId>
    decreases limit - out.len(), queue.len() - i,
{
    if i >= queue.len() || out.len() >= limit {
        out
    } else {
        match find_event(known, queue[i as int]) {
            None => walk(known, earliest, visible, limit, queue, i + 1, out),
            Some(e) => if earliest.contains(queue[i as int]) || !visible.contains(queue[i as int]) {
                walk(known, earliest, visible, limit, queue, i + 1, out)
            } else {
                walk(
                    known,
                    earliest,
                    visible,
                    limit,
                    queue + e.prev_events@,
                    i + 1,
                    out.push(queue[i as int]),
                )
            },
        }
    }
}

fn append_ids(queue: &mut Vec<EventId>, more: &Vec<EventId>)
    ensures
        final(queue)@ == old(queue)@ + more@,
{
    let mut j: usize = 0;
    while j < more.len()
        invariant
            j <= more@.len(),
            queue@ == old(queue)@ + more@.subrange(0, j as int),
        decreases more@.len() - j,
    {
        queue.push(more[j]);
        assert(more@.subrange(0, j + 1) == more@.subrange(0, j as int).push(more@[j as int]));
        j = j + 1;
    }
    assert(more@.subrange(0, more@.len() as int) == more@);
}

/// The events that a server missing history is sent: walking back from
/// `latest` through previous events, over the events this server has
/// (`known`), skipping those the requester named as `earliest` and those it
/// may not see (`visible` lists the ones it may), at most `limit` of them.
pub fn missing_events(
    known: &Vec<Event>,
    earliest: &Vec<EventId>,
    latest: &Vec<EventId>,
    visible: &Vec<EventId>,
    limit: usize,
) -> (r: Vec<EventId>)
    ensures
        r@ == walk(known@, earliest@, visible@, limit as nat, latest@, 0, seq![]),
        r@.len() <= limit,
{
    let mut queue: Vec<EventId> = Vec::new();
    append_ids(&mut queue, latest);
    assert(queue@ == latest@);
    let mut events: Vec<EventId> = Vec::new();
    let mut i: usize = 0;
    while i < queue.len() && events.len() < limit
        invariant
            i <= queue@.len(),
            events@.len() <= limit,
            walk(known@, earliest@, visible@, limit as nat, latest@, 0, seq![]) == walk(
                known@,
                earliest@,
                visible@,
                limit as nat,
                queue@,
                i as nat,
                events@,
            ),
        decreases limit - events@.len(), queue@.len() - i,
    {
        let id = queue[i];
        match get_event(known, id) {
            None => {
                i = i + 1;
            },
            Some(e) => {
                if contains_event_id(earliest, id) || !contains_event_id(visible, id) {
                    i = i + 1;
                } else {
                    append_ids(&mut queue, &e.prev_events);
                    events.push(id);
                    i = i + 1;
                }
            },
        }
    }
    events
}

/// Why an invite from another server is refused.
#[derive(Clone, Copy, Debug, PartialEq, Eq, Structural)]
pub enum InviteError {
    /// The room's version is not supported here.
    IncompatibleRoomVersion,
    /// The room's server or the origin is banned here.
    ServerBanned,
    /// The event is not a member event.
    NotMemberEvent,
    /// The event's content is missing or not member content.
    InvalidContent,
    /// The membership is not `invite`.
    NotInvite,
    /// The sender is missing or not a user id.
    InvalidSender,
    /// The sender's server is not the origin.
    SenderNotOrigin,
    /// The state key is missing or not a user id.
    InvalidStateKey,
    /// The invited user is not a user of this server.
    TargetNotLocal,
    /// The room is banned here.
    RoomBanned,
}

/// An invite as another server sends it, as far as the checks read it.
#[derive(Clone, Copy, Debug, PartialEq, Eq, Structural)]
pub struct InviteRequest {
    pub room_version_supported: bool,
    /// The server of the room id, where the id names one.
    pub room_server: Option<u64>,
    /// The server that sent the request.
    pub origin: u64,
    pub kind: EventType,
    /// The membership of the content; `None` where the content is missing or
    /// not member content.
    pub membership: Option<Membership>,
    pub sender: Option<UserId>,
    /// The invited user, from the state key.
    pub target: Option<UserId>,
}

/// The first check an invite fails, in the order the server makes them.
pub open spec fn invite_fault(
    req: InviteRequest,
    banned_servers: Seq<u64>,
    ours: u64,
    room_banned: bool,
) -> Option<InviteError> {
    if !req.room_version_supported {
        Some(InviteError::IncompatibleRoomVersion)
    } else if req.room_server.is_some() && banned_servers.contains(req.room_server.unwrap()) {
        Some(InviteError::ServerBanned)
    } else if banned_servers.contains(req.origin) {
        Some(InviteError::ServerBanned)
    } else if req.kind != EventType::Member {
        Some(InviteError::NotMemberEvent)
    } else if req.membership.is_none() {
        Some(InviteError::InvalidContent)
    } else if req.membership != Some(Membership::Invite) {
        Some(InviteError::NotInvite)
    } else if req.sender.is_none() {
        Some(InviteError::InvalidSender)
    } else if req.sender.unwrap().server != req.origin {
        Some(InviteError::SenderNotOrigin)
    } else if req.target.is_none() {
        Some(InviteError::InvalidStateKey)
    } else if req.target.unwrap().server != ours {
        Some(InviteError::TargetNotLocal)
    } else if room_banned {
        Some(InviteError::RoomBanned)
    } else {
        None
    }
}

fn contains_server(v: &Vec<u64>, x: u64) -> (r: bool)
    ensures
        r == v@.contains(x),
{
    let mut i: usize = 0;
    while i < v.len()
        invariant
            i <= v@.len(),
            forall|j: int| 0 <= j < i ==> v@[j] != x,
        decreases v@.len() - i,
    {
        if v[i] == x {
            assert(v@[i as int] == x);
            return true;
        }
        i = i + 1;
    }
    false
}

/// Checks an invite that another server sends before this server signs it.
pub fn check_invite(req: &InviteRequest, banned_servers: &Vec<u64>, ours: u64, room_banned: bool) -> (r:
    Result<(), InviteError>)
    ensures
        match r {
            Ok(()) => invite_fault(*req, banned_servers@, ours, room_banned).is_none(),
            Err(e) => invite_fault(*req, banned_servers@, ours, room_banned) == Some(e),
        },
{
    if !req.room_version_supported {
        return Err(InviteError::IncompatibleRoomVersion);
    }
    if let Some(s) = req.room_server {
        if contains_server(banned_servers, s) {
            return Err(InviteError::ServerBanned);
        }
    }
    if contains_server(banned_servers, req.origin) {
        return Err(InviteError::ServerBanned);
    }
    if req.kind != EventType::Member {
        return Err(InviteError::NotMemberEvent);
    }
    match req.membership {
        None => {
            return Err(InviteError::InvalidContent);
        },
        Some(m) => {
            if m != Membership::Invite {
                return Err(InviteError::NotInvite);
            }
        },
    }
    match req.sender {
        None => {
            return Err(InviteError::InvalidSender);
        },
        Some(s) => {
            if s.server != req.origin {
                return Err(InviteError::SenderNotOrigin);
            }
        },
    }
    match req.target {
        None => {
            return Err(InviteError::InvalidStateKey);
        },
        Some(t) => {
            if t.server != ours {
                return Err(InviteError::TargetNotLocal);
            }
        },
    }
    if room_banned {
        return Err(InviteError::RoomBanned);
    }
    Ok(())
}

/// Why a join sent through `send_join` is refused.
#[derive(Clone, Copy, Debug, PartialEq, Eq, Structural)]
pub enum SendJoinError {
    /// The room is not known here.
    UnknownRoom,
    /// This server is not in the room.
    NotInRoom,
    /// The event's room is not the room of the request.
    WrongRoom,
    /// The event is not a member event.
    NotMemberEvent,
    /// The membership is not `join`.
    NotJoin,
    /// The sender is not a user of the origin server.
    SenderNotOrigin,
    /// The state key is not the sender.
    StateKeyNotSender,
    /// The room version has no restricted join rules, yet the event names an
    /// authorising user.
    RestrictedUnsupported,
    /// The authorising user is not a user of this server.
    AuthoriserNotLocal,
    /// The authorising user is not in the room.
    AuthoriserNotJoined,
    /// The joining user does not meet the restricted join rules.
    UnableToAuthorizeJoin,
}

/// A join event as another server sends it through `send_join`, as far as the
/// checks read it, and what this server knows of the room.
#[derive(Clone, Copy, Debug, PartialEq, Eq, Structural)]
pub struct SendJoinRequest {
    pub room_known: bool,
    pub server_in_room: bool,
    /// The number of the room's version.
    pub room_version: u8,
    pub path_room: crate::event::RoomId,
    pub event_room: crate::event::RoomId,
    pub kind: EventType,
    pub membership: Membership,
    pub sender: UserId,
    pub state_key: UserId,
    /// The server that sent the request.
    pub origin: u64,
    pub authorising_user: Option<UserId>,
    /// The authorising user is joined to the room.
    pub authoriser_joined: bool,
    /// The joining user meets the restricted join rules.
    pub restricted_ok: bool,
}

/// The first check a `send_join` event fails, in the order the server makes
/// them.
pub open spec fn send_join_fault(req: SendJoinRequest, ours: u64) -> Option<SendJoinError> {
    if !req.room_known {
        Some(SendJoinError::UnknownRoom)
    } else if !req.server_in_room {
        Some(SendJoinError::NotInRoom)
    } else if req.event_room != req.path_room {
        Some(SendJoinError::WrongRoom)
    } else if req.kind != EventType::Member {
        Some(SendJoinError::NotMemberEvent)
    } else if req.membership != Membership::Join {
        Some(SendJoinError::NotJoin)
    } else if req.sender.server != req.origin {
        Some(SendJoinError::SenderNotOrigin)
    } else if req.state_key != req.sender {
        Some(SendJoinError::StateKeyNotSender)
    } else {
        match req.authorising_user {
            None => None,
            Some(u) => if req.room_version <= 7 {
                Some(SendJoinError::RestrictedUnsupported)
            } else if u.server != ours {
                Some(SendJoinError::AuthoriserNotLocal)
            } else if !req.authoriser_joined {
                Some(SendJoinError::AuthoriserNotJoined)
            } else if !req.restricted_ok {
                Some(SendJoinError::UnableToAuthorizeJoin)
            } else {
                None
            },
        }
    }
}

/// Checks a join event that another server sends through `send_join`.
pub fn check_send_join(req: &SendJoinRequest, ours: u64) -> (r: Result<(), SendJoinError>)
    ensures
        match r {
            Ok(()) => send_join_fault(*req, ours).is_none(),
            Err(e) => send_join_fault(*req, ours) == Some(e),
        },
{
    if !req.room_known {
        return Err(SendJoinError::UnknownRoom);
    }
    if !req.server_in_room {
        return Err(SendJoinError::NotInRoom);
    }
    if req.event_room != req.path_room {
        return Err(SendJoinError::WrongRoom);
    }
    if req.kind != EventType::Member {
        return Err(SendJoinError::NotMemberEvent);
    }
    if req.membership != Membership::Join {
        return Err(SendJoinError::NotJoin);
    }
    if req.sender.server != req.origin {
        return Err(SendJoinError::SenderNotOrigin);
    }
    if req.state_key != req.sender {
        return Err(SendJoinError::StateKeyNotSender);
    }
    if let Some(u) = req.authorising_user {
        if req.room_version <= 7 {
            return Err(SendJoinError::RestrictedUnsupported);
        }
        if u.server != ours {
            return Err(SendJoinError::AuthoriserNotLocal);
        }
        if !req.authoriser_joined {
            return Err(SendJoinError::AuthoriserNotJoined);
        }
        if !req.restricted_ok {
            return Err(SendJoinError::UnableToAuthorizeJoin);
        }
    }
    Ok(())
}

/// The ids of the state events returned to a joining server, in order:
/// all of them, or all but the member events where members are omitted.
pub open spec fn returned_state_spec(state: Seq<Event>, omit_members: bool) -> Seq<EventId>
    decreases state.len(),
{
    if state.len() == 0 {
        seq![]
    } else {
        let rest = returned_state_spec(state.drop_last(), omit_members);
        if omit_members && state.last().kind == EventType::Member {
            rest
        } else {
            rest.push(state.last().event_id)
        }
    }
}

/// The ids of the state events returned to a joining server.
pub fn returned_state(state: &Vec<Event>, omit_members: bool) -> (r: Vec<EventId>)
    ensures
        r@ == returned_state_spec(state@, omit_members),
{
    let mut out: Vec<EventId> = Vec::new();
    let mut i: usize = 0;
    while i < state.len()
        invariant
            i <= state@.len(),
            out@ == returned_state_spec(state@.subrange(0, i as int), omit_members),
        decreases state@.len() - i,
    {
        assert(state@.subrange(0, i + 1).drop_last() == state@.subrange(0, i as int));
        if !(omit_members && state[i].kind == EventType::Member) {
            out.push(state[i].event_id);
        }
        i = i + 1;
    }
    assert(state@.subrange(0, state@.len() as int) == state@);
    out
}

/// `id` names an event of `known`.
pub open spec fn is_known(known: Seq<Event>, id: EventId) -> bool {
    find_event(known, id).is_some()
}

/// The ids of the auth events of the known event `id` that are themselves
/// known; none where `id` is unknown.
pub open spec fn known_auth_of(known: Seq<Event>, id: EventId, x: EventId) -> bool {
    match find_event(known, id) {
        Some(e) => e.auth_events@.contains(x) && is_known(known, x),
        None => false,
    }
}

/// `x` is an auth event of a start event or of an event listed in `out`
/// (in the auth chain, `out` is the part listed before `x`).
pub open spec fn justified(
    known: Seq<Event>,
    start: Seq<EventId>,
    out: Seq<EventId>,
    x: EventId,
) -> bool {
    (exists|s: int| 0 <= s < start.len() && known_auth_of(known, #[trigger] start[s], x)) || (
    exists|j: int| 0 <= j < out.len() && known_auth_of(known, #[trigger] out[j], x))
}

proof fn lemma_known_in_ids(known: Seq<Event>, id: EventId)
    requires
        is_known(known, id),
    ensures
        known.map_values(|e: Event| e.event_id).contains(id),
    decreases known.len(),
{
    let ids = known.map_values(|e: Event| e.event_id);
    if known[0].event_id == id {
        assert(ids[0] == id);
    } else {
        lemma_known_in_ids(known.drop_first(), id);
        let rest = known.drop_first().map_values(|e: Event| e.event_id);
        let k = choose|k: int| 0 <= k < rest.len() && rest[k] == id;
        assert(ids[k + 1] == id);
    }
}

proof fn lemma_bounded(known: Seq<Event>, out: Seq<EventId>)
    requires
        out.no_duplicates(),
        forall|x: EventId| #[trigger] out.contains(x) ==> is_known(known, x),
    ensures
        out.len() <= known.len(),
{
    let ids = known.map_values(|e: Event| e.event_id);
    out.unique_seq_to_set();
    ids.lemma_cardinality_of_set();
    assert forall|x: EventId| out.to_set().contains(x) implies ids.to_set().contains(x) by {
        lemma_known_in_ids(known, x);
    }
    vstd::set_lib::lemma_len_subset(out.to_set(), ids.to_set());
}

/// Adds to `out` each known auth event of `e` that it lacks.
fn add_known_auth(known: &Vec<Event>, e: &Event, out: &mut Vec<EventId>)
    requires
        old(out)@.no_duplicates(),
        forall|x: EventId| #[trigger] old(out)@.contains(x) ==> is_known(known@, x),
    ensures
        final(out)@.no_duplicates(),
        forall|x: EventId| #[trigger] final(out)@.contains(x) ==> is_known(known@, x),
        old(out)@.is_prefix_of(final(out)@),
        forall|x: EventId|
            e.auth_events@.contains(x) && is_known(known@, x) ==> #[trigger] final(out)@.contains(x),
        forall|m: int|
            old(out)@.len() <= m < final(out)@.len() ==> e.auth_events@.contains(
                #[trigger] final(out)@[m],
            ) && is_known(known@, final(out)@[m]),
{
    let ghost start = out@;
    let mut k: usize = 0;
    while k < e.auth_events.len()
        invariant
            k <= e.auth_events@.len(),
            out@.no_duplicates(),
            forall|x: EventId| #[trigger] out@.contains(x) ==> is_known(known@, x),
            start.is_prefix_of(out@),
            forall|m: int|
                0 <= m < k && is_known(known@, e.auth_events@[m]) ==> #[trigger] out@.contains(
                    e.auth_events@[m],
                ),
            forall|m: int|
                start.len() <= m < out@.len() ==> e.auth_events@.contains(#[trigger] out@[m])
                    && is_known(known@, out@[m]),
        decreases e.auth_events@.len() - k,
    {
        let id = e.auth_events[k];
        let ghost before = out@;
        if get_event(known, id).is_some() && !contains_event_id(out, id) {
            out.push(id);
            assert forall|x: EventId| #[trigger] out@.contains(x) implies is_known(known@, x) by {
                if x != id {
                    let j = choose|j: int| 0 <= j < out@.len() && out@[j] == x;
                    assert(before[j] == x);
                    assert(before.contains(x));
                }
            }
            assert forall|m: int| 0 <= m < k + 1 && is_known(known@, e.auth_events@[m]) implies #[trigger] out@.contains(
                e.auth_events@[m],
            ) by {
                if m < k {
                    assert(before.contains(e.auth_events@[m]));
                    let j = choose|j: int| 0 <= j < before.len() && before[j] == e.auth_events@[m];
                    assert(out@[j] == e.auth_events@[m]);
                } else {
                    assert(out@[before.len() as int] == id);
                }
            }
            assert(e.auth_events@[k as int] == id);
        } else {
            if get_event(known, id).is_some() {
                assert(out@.contains(id));
            }
        }
        k = k + 1;
    }
    assert forall|x: EventId| e.auth_events@.contains(x) && is_known(known@, x) implies #[trigger] out@.contains(
        x,
    ) by {
        let m = choose|m: int| 0 <= m < e.auth_events@.len() && e.auth_events@[m] == x;
    }
}

/// The auth chain of the events `start`: the ids of the known events that
/// their auth events reach, each once. It holds every known auth event of a
/// start event and of each event it holds, and each of its ids is named as
/// an auth event by a start event or by an id listed before it, so every id
/// is reachable from the start events.
pub fn auth_chain(known: &Vec<Event>, start: &Vec<EventId>) -> (r: Vec<EventId>)
    ensures
        r@.no_duplicates(),
        forall|x: EventId| #[trigger] r@.contains(x) ==> is_known(known@, x),
        forall|s: int, x: EventId|
            0 <= s < start@.len() && #[trigger] known_auth_of(known@, start@[s], x) ==> r@.contains(
                x,
            ),
        forall|j: int, x: EventId|
            0 <= j < r@.len() && #[trigger] known_auth_of(known@, r@[j], x) ==> r@.contains(x),
        forall|m: int|
            0 <= m < r@.len() ==> justified(known@, start@, r@.subrange(0, m), #[trigger] r@[m]),
{
    let mut out: Vec<EventId> = Vec::new();
    let mut s: usize = 0;
    while s < start.len()
        invariant
            s <= start@.len(),
            out@.no_duplicates(),
            forall|x: EventId| #[trigger] out@.contains(x) ==> is_known(known@, x),
            forall|t: int, x: EventId|
                0 <= t < s && #[trigger] known_auth_of(known@, start@[t], x) ==> out@.contains(x),
            forall|m: int|
                0 <= m < out@.len() ==> justified(known@, start@, out@.subrange(0, m), #[trigger] out@[m]),
        decreases start@.len() - s,
    {
        let ghost before = out@;
        match get_event(known, start[s]) {
            Some(e) => {
                add_known_auth(known, e, &mut out);
                assert forall|t: int, x: EventId|
                    0 <= t < s + 1 && #[trigger] known_auth_of(known@, start@[t], x) implies out@.contains(x) by {
                    if t < s {
                        assert(before.contains(x));
                        let j = choose|j: int| 0 <= j < before.len() && before[j] == x;
                        assert(out@[j] == x);
                    }
                }
                assert forall|m: int| 0 <= m < out@.len() implies justified(
                    known@,
                    start@,
                    out@.subrange(0, m),
                    #[trigger] out@[m],
                ) by {
                    if m < before.len() {
                        assert(out@[m] == before[m]);
                        assert(out@.subrange(0, m) == before.subrange(0, m));
                    } else {
                        assert(known_auth_of(known@, start@[s as int], out@[m]));
                    }
                }
            },
            None => {},
        }
        s = s + 1;
    }
    let mut i: usize = 0;
    while i < out.len()
        invariant
            i <= out@.len(),
            out@.no_duplicates(),
            forall|x: EventId| #[trigger] out@.contains(x) ==> is_known(known@, x),
            forall|t: int, x: EventId|
                0 <= t < start@.len() && #[trigger] known_auth_of(known@, start@[t], x) ==> out@.contains(x),
            forall|j: int, x: EventId|
                0 <= j < i && #[trigger] known_auth_of(known@, out@[j], x) ==> out@.contains(x),
            forall|m: int|
                0 <= m < out@.len() ==> justified(known@, start@, out@.subrange(0, m), #[trigger] out@[m]),
        decreases 2 * known@.len() - out@.len() - i,
    {
        proof {
            lemma_bounded(known@, out@);
        }
        let ghost before = out@;
        let id = out[i];
        match get_event(known, id) {
            Some(e) => {
                add_known_auth(known, e, &mut out);
                proof {
                    lemma_bounded(known@, out@);
                }
                assert forall|t: int, x: EventId|
                    0 <= t < start@.len() && #[trigger] known_auth_of(known@, start@[t], x) implies out@.contains(x) by {
                    assert(before.contains(x));
                    let j = choose|j: int| 0 <= j < before.len() && before[j] == x;
                    assert(out@[j] == x);
                }
                assert forall|j: int, x: EventId|
                    0 <= j < i + 1 && #[trigger] known_auth_of(known@, out@[j], x) implies out@.contains(x) by {
                    assert(out@[j] == before[j]);
                    if j < i {
                        assert(before.contains(x));
                        let m = choose|m: int| 0 <= m < before.len() && before[m] == x;
                        assert(out@[m] == x);
                    }
                }
                assert forall|m: int| 0 <= m < out@.len() implies justified(
                    known@,
                    start@,
                    out@.subrange(0, m),
                    #[trigger] out@[m],
                ) by {
                    if m < before.len() {
                        assert(out@[m] == before[m]);
                        assert(out@.subrange(0, m) == before.subrange(0, m));
                    } else {
                        let pre = out@.subrange(0, m);
                        assert(pre[i as int] == out@[i as int]);
                        assert(known_auth_of(known@, pre[i as int], out@[m]));
                    }
                }
            },
            None => {
                assert(out@.contains(id));
            },
        }
        i = i + 1;
    }
    out
}

} // verus!
