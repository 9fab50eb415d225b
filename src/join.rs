//! The remote-join handshake: which servers are asked, what their answers
//! mean, and the phases a join goes through.
use vstd::multiset::Multiset;
use vstd::prelude::*;

use crate::event::{EventId, EventType, Membership, RoomId, StateKey, UserId};
use crate::random;
use crate::room_version::{version_number, RoomVersionId};

verus! {

/// The largest PDU, in bytes of canonical JSON, that a server accepts.
pub const MAX_PDU_BYTES: usize = 65535;

/// What a remote server answered to `make_join` when it could not help.
#[derive(Clone, Copy, Debug, PartialEq, Eq, Structural)]
pub enum MakeJoinError {
    /// It could not check the restricted join rules for the user.
    UnableToAuthorizeJoin,
    /// It has no user that can authorise the restricted join.
    UnableToGrantJoin,
    /// The room's version is not among the versions offered.
    IncompatibleRoomVersion,
    /// It refuses the join.
    Forbidden,
    /// It does not know the room.
    NotFound,
    /// Any other failure, a timeout among them.
    Other,
}

/// Why a join failed.
#[derive(Clone, Copy, Debug, PartialEq, Eq, Structural)]
pub enum JoinError {
    /// A server gave an answer that ends the attempt.
    Remote(MakeJoinError),
    /// Every candidate server was tried and none could help.
    NoServerAvailable,
    /// The user is banned from the room.
    Banned,
    /// No server to ask, and this server is not in the room.
    NoServers,
    /// The room's version is not one this server supports.
    UnsupportedRoomVersion,
    /// The joining event could not be signed.
    SigningFailed,
    /// `send_join` failed.
    SendJoinFailed,
    /// The event returned by `send_join` is not the event sent.
    EventMismatch,
    /// The server that signed a restricted join left out its signature.
    MissingSignature,
    /// The returned state does not authorize the join.
    NotAuthorized,
}

/// The errors that end the attempt instead of moving on to the next server.
pub open spec fn is_hard(e: MakeJoinError) -> bool {
    e == MakeJoinError::IncompatibleRoomVersion || e == MakeJoinError::Forbidden
}

/// The servers of `s`, without repeats.
pub open spec fn no_repeats(s: Seq<u64>) -> bool {
    forall|i: int, j: int| 0 <= i < s.len() && 0 <= j < s.len() && i != j ==> s[i] != s[j]
}

fn push_new(v: &mut Vec<u64>, x: u64)
    requires
        no_repeats(old(v)@),
    ensures
        no_repeats(final(v)@),
        final(v)@.to_set() == old(v)@.to_set().insert(x),
{
    let mut i: usize = 0;
    while i < v.len()
        invariant
            i <= v@.len(),
            v@ == old(v)@,
            no_repeats(v@),
            forall|j: int| 0 <= j < i ==> v@[j] != x,
        decreases v@.len() - i,
    {
        if v[i] == x {
            assert(v@.to_set() =~= v@.to_set().insert(x)) by {
                assert(v@.contains(x));
            }
            assert(no_repeats(v@));
            return;
        }
        i = i + 1;
    }
    let ghost before = v@;
    v.push(x);
    assert(no_repeats(v@)) by {
        assert forall|a: int, b: int| 0 <= a < v@.len() && 0 <= b < v@.len() && a != b implies v@[a]
            != v@[b] by {
            if a < before.len() && b < before.len() {
                assert(v@[a] == before[a] && v@[b] == before[b]);
            } else if a < before.len() {
                assert(v@[a] == before[a]);
            } else if b < before.len() {
                assert(v@[b] == before[b]);
            }
        }
    }
    assert(v@.to_set() =~= before.to_set().insert(x)) by {
        assert forall|y: u64| v@.contains(y) <==> before.contains(y) || y == x by {
            if v@.contains(y) {
                let k = choose|k: int| 0 <= k < v@.len() && v@[k] == y;
                if k < before.len() {
                    assert(before[k] == y);
                }
            }
            if before.contains(y) {
                let k = choose|k: int| 0 <= k < before.len() && before[k] == y;
                assert(v@[k] == y);
            }
            if y == x {
                assert(v@[before.len() as int] == x);
            }
        }
    }
}

fn push_all_new(v: &mut Vec<u64>, xs: &Vec<u64>)
    requires
        no_repeats(old(v)@),
    ensures
        no_repeats(final(v)@),
        final(v)@.to_set() == old(v)@.to_set().union(xs@.to_set()),
{
    let ghost start = v@.to_set();
    let mut i: usize = 0;
    while i < xs.len()
        invariant
            i <= xs@.len(),
            no_repeats(v@),
            v@.to_set() == start.union(xs@.subrange(0, i as int).to_set()),
        decreases xs@.len() - i,
    {
        push_new(v, xs[i]);
        assert(xs@.subrange(0, i + 1).to_set() =~= xs@.subrange(0, i as int).to_set().insert(
            xs@[i as int],
        )) by {
            assert(xs@.subrange(0, i + 1) == xs@.subrange(0, i as int).push(xs@[i as int]));
            xs@.subrange(0, i as int).lemma_push_to_set_commute(xs@[i as int]);
        }
        assert(v@.to_set() =~= start.union(xs@.subrange(0, i + 1).to_set()));
        i = i + 1;
    }
    assert(xs@.subrange(0, xs@.len() as int) == xs@);
}

/// The servers to ask for a join, in random order and without repeats: the
/// servers that the user named, the servers of the users who invited them,
/// and the server of the room id.
pub fn candidate_servers(via: &Vec<u64>, inviters: &Vec<u64>, room_server: Option<u64>) -> (r:
    Vec<u64>)
    ensures
        no_repeats(r@),
        r@.to_set() == via@.to_set().union(inviters@.to_set()).union(
            match room_server {
                Some(s) => set![s],
                None => Set::empty(),
            },
        ),
{
    let mut servers: Vec<u64> = Vec::new();
    assert(servers@.to_set() =~= Set::empty());
    push_all_new(&mut servers, via);
    push_all_new(&mut servers, inviters);
    let ghost before = servers@.to_set();
    match room_server {
        Some(s) => {
            push_new(&mut servers, s);
            assert(before.insert(s) =~= before.union(set![s]));
        },
        None => {
            assert(before =~= before.union(Set::empty()));
        },
    }
    let ghost unshuffled = servers@;
    random::shuffle(servers.as_mut_slice());
    proof {
        lemma_permutation_keeps(unshuffled, servers@);
    }
    servers
}

proof fn lemma_permutation_keeps(a: Seq<u64>, b: Seq<u64>)
    requires
        a.to_multiset() == b.to_multiset(),
        no_repeats(a),
    ensures
        no_repeats(b),
        a.to_set() == b.to_set(),
{
    a.to_multiset_ensures();
    b.to_multiset_ensures();
    assert forall|x: u64| a.contains(x) <==> b.contains(x) by {
        assert(a.to_multiset().count(x) == b.to_multiset().count(x));
        assert(a.contains(x) <==> a.to_multiset().count(x) > 0);
        assert(b.contains(x) <==> b.to_multiset().count(x) > 0);
    }
    assert(a.to_set() =~= b.to_set());
    assert forall|i: int, j: int| 0 <= i < b.len() && 0 <= j < b.len() && i != j implies b[i]
        != b[j] by {
        if b[i] == b[j] {
            lemma_count_two(b, i, j);
            lemma_count_unique(a, b[i]);
            assert(a.to_multiset().count(b[i]) == b.to_multiset().count(b[i]));
        }
    }
}

proof fn lemma_count_unique(a: Seq<u64>, x: u64)
    requires
        no_repeats(a),
    ensures
        a.to_multiset().count(x) <= 1,
    decreases a.len(),
{
    a.to_multiset_ensures();
    if a.len() > 0 {
        let rest = a.drop_last();
        assert(no_repeats(rest)) by {
            assert forall|i: int, j: int|
                0 <= i < rest.len() && 0 <= j < rest.len() && i != j implies rest[i] != rest[j] by {
                assert(rest[i] == a[i] && rest[j] == a[j]);
            }
        }
        lemma_count_unique(rest, x);
        assert(a == rest.push(a.last()));
        rest.to_multiset_ensures();
        if a.last() == x {
            assert(!rest.contains(x)) by {
                if rest.contains(x) {
                    let k = choose|k: int| 0 <= k < rest.len() && rest[k] == x;
                    assert(a[k] == a[a.len() - 1]);
                }
            }
        }
    } else {
        assert(a.to_multiset() =~= Multiset::empty());
    }
}

proof fn lemma_count_two(b: Seq<u64>, i: int, j: int)
    requires
        0 <= i < b.len(),
        0 <= j < b.len(),
        i != j,
        b[i] == b[j],
    ensures
        b.to_multiset().count(b[i]) >= 2,
    decreases b.len(),
{
    b.to_multiset_ensures();
    let rest = b.drop_last();
    assert(b == rest.push(b.last()));
    rest.to_multiset_ensures();
    if i == b.len() - 1 || j == b.len() - 1 {
        let k = if i == b.len() - 1 {
            j
        } else {
            i
        };
        assert(rest[k] == b[i]);
        assert(rest.contains(b[i]));
    } else {
        assert(rest[i] == rest[j]);
        lemma_count_two(rest, i, j);
    }
}

/// What to do next while looking for a server that prepares the join event.
#[derive(Clone, Copy, Debug, PartialEq, Eq, Structural)]
pub enum MakeJoinStep {
    /// Ask the server at this index of the candidate list.
    Ask(usize),
    /// Take the answer of the server at this index.
    Accept(usize),
    /// Give up with this answer.
    Abort(MakeJoinError),
    /// No candidate is left.
    Exhausted,
}

/// The first index from `from` on whose server is not this one, if any.
pub open spec fn next_candidate_spec(servers: Seq<u64>, ours: u64, from: int) -> Option<int>
    decreases servers.len() - from,
{
    if from < 0 || from >= servers.len() {
        None
    } else if servers[from] != ours {
        Some(from)
    } else {
        next_candidate_spec(servers, ours, from + 1)
    }
}

/// The step that asks the next candidate from `from` on, or ends the search.
pub open spec fn ask_from(servers: Seq<u64>, ours: u64, from: int) -> MakeJoinStep {
    match next_candidate_spec(servers, ours, from) {
        Some(i) => MakeJoinStep::Ask(i as usize),
        None => MakeJoinStep::Exhausted,
    }
}

/// Asks the next server from `from` on that is not this one.
pub fn next_candidate(servers: &Vec<u64>, ours: u64, from: usize) -> (r: MakeJoinStep)
    ensures
        r == ask_from(servers@, ours, from as int),
{
    let mut i: usize = from;
    while i < servers.len()
        invariant
            from <= i,
            next_candidate_spec(servers@, ours, from as int) == next_candidate_spec(
                servers@,
                ours,
                i as int,
            ),
        decreases servers@.len() - i,
    {
        if servers[i] != ours {
            return MakeJoinStep::Ask(i);
        }
        i = i + 1;
    }
    MakeJoinStep::Exhausted
}

/// A server's answer to `make_join`: a join event stub, whether that stub
/// passed validation, or the error it returned.
#[derive(Clone, Copy, Debug, PartialEq, Eq, Structural)]
pub enum MakeJoinReply {
    Stub(bool),
    Failed(MakeJoinError),
}

/// The step after the server at index `i` answered `reply`: a valid stub is
/// taken; an invalid stub and a soft error move on to the next server; a hard
/// error ends the search.
pub open spec fn after_reply(servers: Seq<u64>, ours: u64, i: int, reply: MakeJoinReply) -> MakeJoinStep {
    match reply {
        MakeJoinReply::Stub(true) => MakeJoinStep::Accept(i as usize),
        MakeJoinReply::Stub(false) => ask_from(servers, ours, i + 1),
        MakeJoinReply::Failed(e) => if is_hard(e) {
            MakeJoinStep::Abort(e)
        } else {
            ask_from(servers, ours, i + 1)
        },
    }
}

/// The step after the server at index `i` answered `reply`.
pub fn on_make_join_reply(servers: &Vec<u64>, ours: u64, i: usize, reply: MakeJoinReply) -> (r:
    MakeJoinStep)
    requires
        i < servers@.len(),
    ensures
        r == after_reply(servers@, ours, i as int, reply),
{
    let n = servers.len();
    assert(i < n);
    match reply {
        MakeJoinReply::Stub(true) => MakeJoinStep::Accept(i),
        MakeJoinReply::Stub(false) => next_candidate(servers, ours, i + 1),
        MakeJoinReply::Failed(e) => if e == MakeJoinError::IncompatibleRoomVersion || e
            == MakeJoinError::Forbidden {
            MakeJoinStep::Abort(e)
        } else {
            next_candidate(servers, ours, i + 1)
        },
    }
}

/// The error that ends a search with nothing left to ask, or that aborted it.
pub fn make_join_failure(step: MakeJoinStep) -> (r: Option<JoinError>)
    ensures
        r == match step {
            MakeJoinStep::Exhausted => Some(JoinError::NoServerAvailable),
            MakeJoinStep::Abort(e) => Some(JoinError::Remote(e)),
            _ => None,
        },
{
    match step {
        MakeJoinStep::Exhausted => Some(JoinError::NoServerAvailable),
        MakeJoinStep::Abort(e) => Some(JoinError::Remote(e)),
        _ => None,
    }
}

/// When every server after index `i` is this one or absent, a soft error or
/// an invalid stub from server `i` ends the search with no server available.
pub proof fn exhausting_candidates_fails(servers: Seq<u64>, ours: u64, i: int, reply: MakeJoinReply)
    requires
        0 <= i < servers.len(),
        forall|j: int| i < j < servers.len() ==> servers[j] == ours,
        match reply {
            MakeJoinReply::Stub(valid) => !valid,
            MakeJoinReply::Failed(e) => !is_hard(e),
        },
    ensures
        after_reply(servers, ours, i, reply) == MakeJoinStep::Exhausted,
{
    lemma_no_candidate_after(servers, ours, i + 1);
}

proof fn lemma_no_candidate_after(servers: Seq<u64>, ours: u64, from: int)
    requires
        from >= 1,
        forall|j: int| from <= j < servers.len() ==> servers[j] == ours,
    ensures
        next_candidate_spec(servers, ours, from).is_none(),
    decreases servers.len() - from,
{
    if from < servers.len() {
        lemma_no_candidate_after(servers, ours, from + 1);
    }
}

/// A join event stub as a server returned it: each field, where present.
#[derive(Clone, Copy, Debug, PartialEq, Eq, Structural)]
pub struct MemberStub {
    pub kind: Option<EventType>,
    pub sender: Option<UserId>,
    pub state_key: Option<StateKey>,
    pub room_id: Option<RoomId>,
    /// `None` where `content` is absent or not an object; `Some(None)` where
    /// it has no `membership`.
    pub membership: Option<Option<Membership>>,
}

/// What is wrong with a member event stub.
#[derive(Clone, Copy, Debug, PartialEq, Eq, Structural)]
pub enum StubError {
    MissingType,
    WrongType,
    MissingSender,
    WrongSender,
    MissingStateKey,
    WrongStateKey,
    MissingRoomId,
    WrongRoomId,
    MissingContent,
    MissingMembership,
    WrongMembership,
}

/// The first fault of the stub, checked field by field, or none.
pub open spec fn stub_fault(
    membership: Membership,
    user: UserId,
    room: RoomId,
    stub: MemberStub,
) -> Option<StubError> {
    if stub.kind.is_none() {
        Some(StubError::MissingType)
    } else if stub.kind != Some(EventType::Member) {
        Some(StubError::WrongType)
    } else if stub.sender.is_none() {
        Some(StubError::MissingSender)
    } else if stub.sender != Some(user) {
        Some(StubError::WrongSender)
    } else if stub.state_key.is_none() {
        Some(StubError::MissingStateKey)
    } else if stub.state_key != Some(StateKey::User(user)) {
        Some(StubError::WrongStateKey)
    } else if stub.room_id.is_none() {
        Some(StubError::MissingRoomId)
    } else if stub.room_id != Some(room) {
        Some(StubError::WrongRoomId)
    } else if stub.membership.is_none() {
        Some(StubError::MissingContent)
    } else if stub.membership == Some(None::<Membership>) {
        Some(StubError::MissingMembership)
    } else if stub.membership != Some(Some(membership)) {
        Some(StubError::WrongMembership)
    } else {
        None
    }
}

/// Checks that a stub a server returned is a member event of `user` in
/// `room` with the given membership.
pub fn validate_remote_member_event_stub(
    membership: Membership,
    user: UserId,
    room: RoomId,
    stub: &MemberStub,
) -> (r: Result<(), StubError>)
    ensures
        match r {
            Ok(()) => stub_fault(membership, user, room, *stub).is_none(),
            Err(e) => stub_fault(membership, user, room, *stub) == Some(e),
        },
{
    if stub.kind.is_none() {
        return Err(StubError::MissingType);
    }
    if stub.kind != Some(EventType::Member) {
        return Err(StubError::WrongType);
    }
    if stub.sender.is_none() {
        return Err(StubError::MissingSender);
    }
    if stub.sender != Some(user) {
        return Err(StubError::WrongSender);
    }
    if stub.state_key.is_none() {
        return Err(StubError::MissingStateKey);
    }
    if stub.state_key != Some(StateKey::User(user)) {
        return Err(StubError::WrongStateKey);
    }
    if stub.room_id.is_none() {
        return Err(StubError::MissingRoomId);
    }
    if stub.room_id != Some(room) {
        return Err(StubError::WrongRoomId);
    }
    match stub.membership {
        None => Err(StubError::MissingContent),
        Some(None) => Err(StubError::MissingMembership),
        Some(Some(m)) => if m != membership {
            Err(StubError::WrongMembership)
        } else {
            Ok(())
        },
    }
}

/// Where the join starts: refused for a banned user; refused when there is
/// no server to ask and this server is not in the room; else local when this
/// server is in the room, remote otherwise.
#[derive(Clone, Copy, Debug, PartialEq, Eq, Structural)]
pub enum JoinRoute {
    Local,
    Remote,
}

/// Where a join starts, from the user's current membership, whether this
/// server is in the room, and the number of candidate servers.
pub fn join_route(current: Membership, server_in_room: bool, n_servers: usize) -> (r: Result<
    JoinRoute,
    JoinError,
>)
    ensures
        r == (if current == Membership::Ban {
            Err(JoinError::Banned)
        } else if !server_in_room && n_servers == 0 {
            Err(JoinError::NoServers)
        } else if server_in_room {
            Ok(JoinRoute::Local)
        } else {
            Ok(JoinRoute::Remote)
        }),
{
    if current == Membership::Ban {
        Err(JoinError::Banned)
    } else if !server_in_room && n_servers == 0 {
        Err(JoinError::NoServers)
    } else if server_in_room {
        Ok(JoinRoute::Local)
    } else {
        Ok(JoinRoute::Remote)
    }
}

/// After a local join failed: a remote join is tried unless there is no
/// server to ask other than this one.
pub fn falls_back_to_remote(servers: &Vec<u64>, ours: u64) -> (r: bool)
    ensures
        r == !(servers@.len() == 0 || (servers@.len() == 1 && servers@[0] == ours)),
{
    !(servers.len() == 0 || (servers.len() == 1 && servers[0] == ours))
}

/// The room version that a `make_join` answer gives (version 1 where it
/// names none), if this server supports it.
pub fn accepted_room_version(proposed: Option<RoomVersionId>, supported: &Vec<RoomVersionId>) -> (r:
    Result<RoomVersionId, JoinError>)
    ensures
        ({
            let v = match proposed {
                Some(v) => v,
                None => RoomVersionId::V1,
            };
            r == if supported@.contains(v) {
                Ok(v)
            } else {
                Err(JoinError::UnsupportedRoomVersion)
            }
        }),
{
    let v = match proposed {
        Some(v) => v,
        None => RoomVersionId::V1,
    };
    let mut i: usize = 0;
    while i < supported.len()
        invariant
            i <= supported@.len(),
            v == (match proposed {
                Some(v) => v,
                None => RoomVersionId::V1,
            }),
            forall|j: int| 0 <= j < i ==> supported@[j] != v,
        decreases supported@.len() - i,
    {
        if supported[i] == v {
            assert(supported@[i as int] == v);
            return Ok(v);
        }
        i = i + 1;
    }
    Err(JoinError::UnsupportedRoomVersion)
}

/// The join event names an authorising user only in versions with
/// restricted join rules (8 and later).
pub fn names_authorising_user(v: RoomVersionId) -> (r: bool)
    ensures
        r == (version_number(v) >= 8),
{
    v.number() >= 8
}

/// The PDU keeps its `event_id` only in room versions 1 and 2.
pub fn keeps_event_id(v: RoomVersionId) -> (r: bool)
    ensures
        r == (version_number(v) <= 2),
{
    v.number() <= 2
}

/// The indices of the returned PDUs that fit the size limit, in order.
pub open spec fn fitting(sizes: Seq<usize>) -> Seq<usize>
    decreases sizes.len(),
{
    if sizes.len() == 0 {
        seq![]
    } else {
        let rest = fitting(sizes.drop_last());
        if sizes.last() <= MAX_PDU_BYTES {
            rest.push((sizes.len() - 1) as usize)
        } else {
            rest
        }
    }
}

/// The indices of the returned PDUs, by their canonical size in bytes, that
/// are kept: the oversize ones are dropped.
pub fn pdus_that_fit(sizes: &Vec<usize>) -> (r: Vec<usize>)
    ensures
        r@ == fitting(sizes@),
{
    let mut out: Vec<usize> = Vec::new();
    let mut i: usize = 0;
    while i < sizes.len()
        invariant
            i <= sizes@.len(),
            out@ == fitting(sizes@.subrange(0, i as int)),
        decreases sizes@.len() - i,
    {
        assert(sizes@.subrange(0, i + 1).drop_last() == sizes@.subrange(0, i as int));
        if sizes[i] <= MAX_PDU_BYTES {
            out.push(i);
        }
        i = i + 1;
    }
    assert(sizes@.subrange(0, sizes@.len() as int) == sizes@);
    out
}

/// Checks the event that `send_join` returned for a restricted join: it is
/// the event sent, and it carries the signature of the server asked.
pub fn check_signed_join(sent: EventId, returned: EventId, remote_signed: bool) -> (r: Result<
    (),
    JoinError,
>)
    ensures
        r == (if returned != sent {
            Err(JoinError::EventMismatch)
        } else if !remote_signed {
            Err(JoinError::MissingSignature)
        } else {
            Ok(())
        }),
{
    if returned != sent {
        Err(JoinError::EventMismatch)
    } else if !remote_signed {
        Err(JoinError::MissingSignature)
    } else {
        Ok(())
    }
}

/// The phases of a remote join. The index is the candidate server in use.
#[derive(Clone, Copy, Debug, PartialEq, Eq, Structural)]
pub enum JoinPhase {
    Idle,
    Preparing(usize),
    Signing(usize),
    Submitting(usize),
    Integrating(usize),
    Joined,
    Failed(JoinError),
}

/// What happened in the current phase.
#[derive(Clone, Copy, Debug, PartialEq, Eq, Structural)]
pub enum JoinInput {
    /// The join begins.
    Start,
    /// The server being asked answered `make_join`.
    MakeJoin(MakeJoinReply),
    /// The event was signed, or signing failed.
    Signed(bool),
    /// `send_join` returned the room state, or failed.
    SendJoin(bool),
    /// The returned state authorizes the join event, or does not.
    Authorized(bool),
}

/// The phase that a make-join step leads to.
pub open spec fn phase_of(step: MakeJoinStep) -> JoinPhase {
    match step {
        MakeJoinStep::Ask(i) => JoinPhase::Preparing(i),
        MakeJoinStep::Accept(i) => JoinPhase::Signing(i),
        MakeJoinStep::Abort(e) => JoinPhase::Failed(JoinError::Remote(e)),
        MakeJoinStep::Exhausted => JoinPhase::Failed(JoinError::NoServerAvailable),
    }
}

/// The next phase of a join over the candidate list `servers`. An input that
/// does not belong to the phase leaves it as it is.
pub open spec fn next_phase(servers: Seq<u64>, ours: u64, phase: JoinPhase, input: JoinInput) -> JoinPhase {
    match (phase, input) {
        (JoinPhase::Idle, JoinInput::Start) => phase_of(ask_from(servers, ours, 0)),
        (JoinPhase::Preparing(i), JoinInput::MakeJoin(reply)) => if i < servers.len() {
            phase_of(after_reply(servers, ours, i as int, reply))
        } else {
            phase
        },
        (JoinPhase::Signing(i), JoinInput::Signed(ok)) => if ok {
            JoinPhase::Submitting(i)
        } else {
            JoinPhase::Failed(JoinError::SigningFailed)
        },
        (JoinPhase::Submitting(i), JoinInput::SendJoin(ok)) => if ok {
            JoinPhase::Integrating(i)
        } else {
            JoinPhase::Failed(JoinError::SendJoinFailed)
        },
        (JoinPhase::Integrating(_), JoinInput::Authorized(ok)) => if ok {
            JoinPhase::Joined
        } else {
            JoinPhase::Failed(JoinError::NotAuthorized)
        },
        _ => phase,
    }
}

fn to_phase(step: MakeJoinStep) -> (r: JoinPhase)
    ensures
        r == phase_of(step),
{
    match step {
        MakeJoinStep::Ask(i) => JoinPhase::Preparing(i),
        MakeJoinStep::Accept(i) => JoinPhase::Signing(i),
        MakeJoinStep::Abort(e) => JoinPhase::Failed(JoinError::Remote(e)),
        MakeJoinStep::Exhausted => JoinPhase::Failed(JoinError::NoServerAvailable),
    }
}

/// The next phase of a join, after `input`.
pub fn step(servers: &Vec<u64>, ours: u64, phase: JoinPhase, input: JoinInput) -> (r: JoinPhase)
    ensures
        r == next_phase(servers@, ours, phase, input),
{
    match (phase, input) {
        (JoinPhase::Idle, JoinInput::Start) => to_phase(next_candidate(servers, ours, 0)),
        (JoinPhase::Preparing(i), JoinInput::MakeJoin(reply)) => if i < servers.len() {
            to_phase(on_make_join_reply(servers, ours, i, reply))
        } else {
            phase
        },
        (JoinPhase::Signing(i), JoinInput::Signed(ok)) => if ok {
            JoinPhase::Submitting(i)
        } else {
            JoinPhase::Failed(JoinError::SigningFailed)
        },
        (JoinPhase::Submitting(i), JoinInput::SendJoin(ok)) => if ok {
            JoinPhase::Integrating(i)
        } else {
            JoinPhase::Failed(JoinError::SendJoinFailed)
        },
        (JoinPhase::Integrating(_), JoinInput::Authorized(ok)) => if ok {
            JoinPhase::Joined
        } else {
            JoinPhase::Failed(JoinError::NotAuthorized)
        },
        _ => phase,
    }
}

/// A finished join stays finished.
pub proof fn finished_join_stays(servers: Seq<u64>, ours: u64, phase: JoinPhase, input: JoinInput)
    requires
        phase == JoinPhase::Joined || phase is Failed,
    ensures
        next_phase(servers, ours, phase, input) == phase,
{
}

/// A reply that does not end the search: an invalid stub or a soft error.
pub open spec fn is_soft(reply: MakeJoinReply) -> bool {
    match reply {
        MakeJoinReply::Stub(valid) => !valid,
        MakeJoinReply::Failed(e) => !is_hard(e),
    }
}

/// How the search for a server that prepares the join event ends, asking
/// the candidates from index `i` on, where the server at index `k` answers
/// `replies[k]`: servers that are this one are skipped, a valid stub is
/// taken, a hard error ends the search, anything else moves on.
pub open spec fn search_from(servers: Seq<u64>, ours: u64, replies: Seq<MakeJoinReply>, i: int) -> MakeJoinStep
    decreases servers.len() - i,
{
    if i < 0 || i >= servers.len() {
        MakeJoinStep::Exhausted
    } else if servers[i] == ours {
        search_from(servers, ours, replies, i + 1)
    } else {
        match replies[i] {
            MakeJoinReply::Stub(true) => MakeJoinStep::Accept(i as usize),
            MakeJoinReply::Failed(e) => if is_hard(e) {
                MakeJoinStep::Abort(e)
            } else {
                search_from(servers, ours, replies, i + 1)
            },
            MakeJoinReply::Stub(false) => search_from(servers, ours, replies, i + 1),
        }
    }
}

proof fn lemma_ask_from(servers: Seq<u64>, ours: u64, replies: Seq<MakeJoinReply>, from: int)
    requires
        0 <= from,
        servers.len() <= usize::MAX,
    ensures
        match ask_from(servers, ours, from) {
            MakeJoinStep::Ask(j) => from <= j < servers.len() && servers[j as int] != ours
                && search_from(servers, ours, replies, from) == search_from(
                servers,
                ours,
                replies,
                j as int,
            ),
            MakeJoinStep::Exhausted => search_from(servers, ours, replies, from)
                == MakeJoinStep::Exhausted,
            _ => false,
        },
    decreases servers.len() - from,
{
    if from < servers.len() && servers[from] == ours {
        lemma_ask_from(servers, ours, replies, from + 1);
    }
}

/// Runs the whole search over the candidate list, where the server at index
/// `k` answers `replies[k]`, step by step as the join does.
pub fn run_make_join(servers: &Vec<u64>, ours: u64, replies: &Vec<MakeJoinReply>) -> (r:
    MakeJoinStep)
    requires
        replies@.len() == servers@.len(),
    ensures
        r == search_from(servers@, ours, replies@, 0),
        !(r is Ask),
{
    let n = servers.len();
    assert(servers@.len() == n);
    let mut step = next_candidate(servers, ours, 0);
    proof {
        lemma_ask_from(servers@, ours, replies@, 0);
    }
    let mut i: usize = 0;
    let mut asking = false;
    if let MakeJoinStep::Ask(j) = step {
        i = j;
        asking = true;
    }
    while asking
        invariant
            replies@.len() == servers@.len(),
            servers@.len() <= usize::MAX,
            asking ==> step == MakeJoinStep::Ask(i) && i < servers@.len() && servers@[i as int]
                != ours && search_from(servers@, ours, replies@, 0) == search_from(
                servers@,
                ours,
                replies@,
                i as int,
            ),
            !asking ==> step == search_from(servers@, ours, replies@, 0) && !(step is Ask),
        decreases (if asking {
            servers@.len() - i
        } else {
            0
        }),
    {
        let ghost old_i = i;
        step = on_make_join_reply(servers, ours, i, replies[i]);
        proof {
            lemma_ask_from(servers@, ours, replies@, old_i + 1);
        }
        match step {
            MakeJoinStep::Ask(j) => {
                i = j;
            },
            _ => {
                asking = false;
            },
        }
    }
    step
}

/// When every candidate is this server or answers softly, the search ends
/// with no server available.
pub proof fn exhausting_all_candidates_fails(
    servers: Seq<u64>,
    ours: u64,
    replies: Seq<MakeJoinReply>,
    from: int,
)
    requires
        0 <= from,
        replies.len() == servers.len(),
        forall|k: int| 0 <= k < servers.len() ==> servers[k] == ours || is_soft(#[trigger] replies[k]),
    ensures
        search_from(servers, ours, replies, from) == MakeJoinStep::Exhausted,
    decreases servers.len() - from,
{
    if from < servers.len() {
        exhausting_all_candidates_fails(servers, ours, replies, from + 1);
        assert(servers[from] == ours || is_soft(replies[from]));
    }
}

} // verus!
