use homeserver_core::event::{Content, Event, EventId, EventType, Membership, RoomId, UserId};
use homeserver_core::federation::{
    auth_chain, check_invite, check_send_join, missing_events, missing_events_limit,
    returned_state, InviteError, InviteRequest, SendJoinError, SendJoinRequest, LIMIT_DEFAULT,
    LIMIT_MAX,
};

fn id(n: u64) -> EventId {
    EventId { local: n, server: None }
}

fn msg(n: u64, prev: &[u64]) -> Event {
    Event {
        event_id: id(n),
        room_id: Some(RoomId { local: 1, server: Some(1) }),
        sender: UserId { local: 1, server: 1 },
        kind: EventType::Other(1),
        state_key: None,
        content: Content::Other,
        prev_events: prev.iter().map(|p| id(*p)).collect(),
        auth_events: vec![],
        redacts: None,
    }
}

#[test]
fn walks_back_through_previous_events() {
    // 1 <- 2 <- 3 <- 4 <- 5
    let known = vec![msg(1, &[]), msg(2, &[1]), msg(3, &[2]), msg(4, &[3]), msg(5, &[4])];
    let all: Vec<EventId> = (1..=5).map(id).collect();
    let r = missing_events(&known, &vec![id(2)], &vec![id(5)], &all, 10);
    assert_eq!(r, vec![id(5), id(4), id(3)]);
    let limited = missing_events(&known, &vec![], &vec![id(5)], &all, 2);
    assert_eq!(limited, vec![id(5), id(4)]);
}

#[test]
fn skips_unknown_and_invisible_events() {
    let known = vec![msg(2, &[1]), msg(3, &[2]), msg(4, &[3, 9])];
    let visible = vec![id(4), id(2)];
    let r = missing_events(&known, &vec![], &vec![id(4), id(7)], &visible, 10);
    // 7 is unknown, 3 is invisible, so its ancestors are never queued.
    assert_eq!(r, vec![id(4)]);
    assert!(missing_events(&known, &vec![], &vec![], &visible, 10).is_empty());
}

#[test]
fn limit_is_capped() {
    assert_eq!(missing_events_limit(10), 10);
    assert_eq!(missing_events_limit(1000), LIMIT_MAX);
    assert_eq!(missing_events_limit(0), 0);
    assert_eq!(LIMIT_DEFAULT, 10);
}

fn invite() -> InviteRequest {
    InviteRequest {
        room_version_supported: true,
        room_server: Some(3),
        origin: 2,
        kind: EventType::Member,
        membership: Some(Membership::Invite),
        sender: Some(UserId { local: 1, server: 2 }),
        target: Some(UserId { local: 7, server: 9 }),
    }
}

#[test]
fn invite_checks() {
    assert_eq!(check_invite(&invite(), &vec![], 9, false), Ok(()));
    let mut r = invite();
    r.room_version_supported = false;
    assert_eq!(check_invite(&r, &vec![], 9, false), Err(InviteError::IncompatibleRoomVersion));
    assert_eq!(check_invite(&invite(), &vec![3], 9, false), Err(InviteError::ServerBanned));
    assert_eq!(check_invite(&invite(), &vec![2], 9, false), Err(InviteError::ServerBanned));
    let mut r = invite();
    r.kind = EventType::JoinRules;
    assert_eq!(check_invite(&r, &vec![], 9, false), Err(InviteError::NotMemberEvent));
    let mut r = invite();
    r.membership = Some(Membership::Join);
    assert_eq!(check_invite(&r, &vec![], 9, false), Err(InviteError::NotInvite));
    let mut r = invite();
    r.membership = None;
    assert_eq!(check_invite(&r, &vec![], 9, false), Err(InviteError::InvalidContent));
    let mut r = invite();
    r.sender = Some(UserId { local: 1, server: 4 });
    assert_eq!(check_invite(&r, &vec![], 9, false), Err(InviteError::SenderNotOrigin));
    let mut r = invite();
    r.sender = None;
    assert_eq!(check_invite(&r, &vec![], 9, false), Err(InviteError::InvalidSender));
    let mut r = invite();
    r.target = None;
    assert_eq!(check_invite(&r, &vec![], 9, false), Err(InviteError::InvalidStateKey));
    assert_eq!(check_invite(&invite(), &vec![], 8, false), Err(InviteError::TargetNotLocal));
    assert_eq!(check_invite(&invite(), &vec![], 9, true), Err(InviteError::RoomBanned));
}

fn with_auth(n: u64, kind: EventType, auth: &[u64]) -> Event {
    let mut e = msg(n, &[]);
    e.kind = kind;
    e.auth_events = auth.iter().map(|a| id(*a)).collect();
    e
}

#[test]
fn auth_chain_is_transitive() {
    // create(1) <- member(2) <- power(3); message 4 names 2 and 3; 9 is unknown.
    let known = vec![
        with_auth(1, EventType::Create, &[]),
        with_auth(2, EventType::Member, &[1]),
        with_auth(3, EventType::PowerLevels, &[1, 2]),
        with_auth(4, EventType::Other(1), &[2, 3, 9]),
        with_auth(5, EventType::Other(1), &[1]),
    ];
    let mut chain = auth_chain(&known, &vec![id(4)]);
    chain.sort_by_key(|e| e.local);
    assert_eq!(chain, vec![id(1), id(2), id(3)]);
    assert!(auth_chain(&known, &vec![id(1)]).is_empty());
    assert!(auth_chain(&known, &vec![id(9)]).is_empty());
}

#[test]
fn member_events_omitted_on_request() {
    let state = vec![
        with_auth(1, EventType::Create, &[]),
        with_auth(2, EventType::Member, &[1]),
        with_auth(3, EventType::PowerLevels, &[1]),
    ];
    assert_eq!(returned_state(&state, false), vec![id(1), id(2), id(3)]);
    assert_eq!(returned_state(&state, true), vec![id(1), id(3)]);
}

#[test]
fn send_join_checks() {
    let room = RoomId { local: 1, server: Some(9) };
    let joiner = UserId { local: 3, server: 2 };
    let ok = SendJoinRequest {
        room_known: true,
        server_in_room: true,
        room_version: 10,
        path_room: room,
        event_room: room,
        kind: EventType::Member,
        membership: Membership::Join,
        sender: joiner,
        state_key: joiner,
        origin: 2,
        authorising_user: None,
        authoriser_joined: false,
        restricted_ok: false,
    };
    assert_eq!(check_send_join(&ok, 9), Ok(()));
    let mut r = ok;
    r.room_known = false;
    assert_eq!(check_send_join(&r, 9), Err(SendJoinError::UnknownRoom));
    let mut r = ok;
    r.server_in_room = false;
    assert_eq!(check_send_join(&r, 9), Err(SendJoinError::NotInRoom));
    let mut r = ok;
    r.event_room = RoomId { local: 2, server: Some(9) };
    assert_eq!(check_send_join(&r, 9), Err(SendJoinError::WrongRoom));
    let mut r = ok;
    r.membership = Membership::Leave;
    assert_eq!(check_send_join(&r, 9), Err(SendJoinError::NotJoin));
    let mut r = ok;
    r.origin = 5;
    assert_eq!(check_send_join(&r, 9), Err(SendJoinError::SenderNotOrigin));
    let mut r = ok;
    r.state_key = UserId { local: 4, server: 2 };
    assert_eq!(check_send_join(&r, 9), Err(SendJoinError::StateKeyNotSender));
    let mut r = ok;
    r.authorising_user = Some(UserId { local: 1, server: 9 });
    assert_eq!(check_send_join(&r, 9), Err(SendJoinError::AuthoriserNotJoined));
    r.authoriser_joined = true;
    assert_eq!(check_send_join(&r, 9), Err(SendJoinError::UnableToAuthorizeJoin));
    r.restricted_ok = true;
    assert_eq!(check_send_join(&r, 9), Ok(()));
    r.room_version = 7;
    assert_eq!(check_send_join(&r, 9), Err(SendJoinError::RestrictedUnsupported));
    r.room_version = 8;
    assert_eq!(check_send_join(&r, 8), Err(SendJoinError::AuthoriserNotLocal));
}
