use homeserver_core::auth::{
    auth_check, auth_types_for_event, check_redaction, valid_membership_change,
    verify_third_party_invite, AuthError, MAX_POWER,
};
use homeserver_core::event::{
    Content, CreateContent, Event, EventId, EventType, JoinRule, MemberContent, Membership,
    PowerLevels, RoomId, SignedInvite, StateKey, ThirdPartyInviteContent, UserId,
};
use homeserver_core::room_version::{RoomVersion, RoomVersionId};

const FOO: u64 = 1;

fn user(local: u64) -> UserId {
    UserId { local, server: FOO }
}

fn alice() -> UserId {
    user(1)
}

fn bob() -> UserId {
    user(2)
}

fn charlie() -> UserId {
    user(3)
}

fn ella() -> UserId {
    user(5)
}

fn room_id() -> RoomId {
    RoomId { local: 100, server: Some(FOO) }
}

fn event_id(n: u64) -> EventId {
    EventId { local: n, server: Some(FOO) }
}

const CREATE: u64 = 10;
const IMA: u64 = 11;
const IPOWER: u64 = 12;
const IJR: u64 = 13;
const IMB: u64 = 14;
const IMC: u64 = 15;
const HELLO: u64 = 20;
const NEW: u64 = 21;

fn member(m: Membership) -> Content {
    Content::Member(MemberContent {
        membership: Some(m),
        join_authorised_via_users_server: None,
        third_party_invite: None,
    })
}

fn pdu(
    id: u64,
    sender: UserId,
    kind: EventType,
    state_key: Option<StateKey>,
    content: Content,
    auth: &[u64],
    prev: &[u64],
) -> Event {
    Event {
        event_id: event_id(id),
        room_id: Some(room_id()),
        sender,
        kind,
        state_key,
        content,
        prev_events: prev.iter().map(|i| event_id(*i)).collect(),
        auth_events: auth.iter().map(|i| event_id(*i)).collect(),
        redacts: None,
    }
}

fn create_event() -> Event {
    pdu(
        CREATE,
        alice(),
        EventType::Create,
        Some(StateKey::Empty),
        Content::Create(CreateContent {
            room_version_known: None,
            creator: Some(alice()),
            additional_creators: vec![],
            federate: true,
        }),
        &[],
        &[],
    )
}

fn levels(users: Vec<(UserId, i64)>) -> PowerLevels {
    let mut l = PowerLevels::default_levels();
    l.users = users;
    l
}

fn join_rules(rule: JoinRule) -> Event {
    pdu(
        IJR,
        alice(),
        EventType::JoinRules,
        Some(StateKey::Empty),
        Content::JoinRules(rule),
        &[CREATE, IMA, IPOWER],
        &[IPOWER],
    )
}

fn initial_events() -> Vec<Event> {
    vec![
        create_event(),
        pdu(
            IMA,
            alice(),
            EventType::Member,
            Some(StateKey::User(alice())),
            member(Membership::Join),
            &[CREATE],
            &[CREATE],
        ),
        pdu(
            IPOWER,
            alice(),
            EventType::PowerLevels,
            Some(StateKey::Empty),
            Content::PowerLevels(levels(vec![(alice(), 100)])),
            &[CREATE, IMA],
            &[IMA],
        ),
        join_rules(JoinRule::Public),
        pdu(
            IMB,
            bob(),
            EventType::Member,
            Some(StateKey::User(bob())),
            member(Membership::Join),
            &[CREATE, IJR, IPOWER],
            &[IJR],
        ),
        pdu(
            IMC,
            charlie(),
            EventType::Member,
            Some(StateKey::User(charlie())),
            member(Membership::Join),
            &[CREATE, IJR, IPOWER],
            &[IMB],
        ),
    ]
}

fn find(events: &[Event], kind: EventType, key: StateKey) -> Option<&Event> {
    events.iter().find(|e| e.kind == kind && e.state_key == Some(key))
}

fn member_of(events: &[Event], u: UserId) -> Option<&Event> {
    find(events, EventType::Member, StateKey::User(u))
}

fn check_membership(
    version: RoomVersionId,
    events: &[Event],
    target: UserId,
    sender: UserId,
    requester: &Event,
    auth_user: Option<UserId>,
    auth_user_membership: Membership,
) -> bool {
    valid_membership_change(
        &RoomVersion::new(version),
        target,
        member_of(events, target),
        sender,
        member_of(events, sender),
        requester,
        None,
        find(events, EventType::PowerLevels, StateKey::Empty),
        find(events, EventType::JoinRules, StateKey::Empty),
        auth_user,
        auth_user_membership,
        find(events, EventType::Create, StateKey::Empty).unwrap(),
    )
    .unwrap()
}

#[test]
fn test_ban_pass() {
    let events = initial_events();
    let requester = pdu(
        HELLO,
        alice(),
        EventType::Member,
        Some(StateKey::User(charlie())),
        member(Membership::Ban),
        &[],
        &[IMC],
    );
    assert!(check_membership(
        RoomVersionId::V6,
        &events,
        charlie(),
        alice(),
        &requester,
        None,
        Membership::Leave
    ));
}

#[test]
fn test_join_non_creator() {
    let events = vec![create_event()];
    let requester = pdu(
        HELLO,
        charlie(),
        EventType::Member,
        Some(StateKey::User(charlie())),
        member(Membership::Join),
        &[CREATE],
        &[CREATE],
    );
    assert!(!check_membership(
        RoomVersionId::V6,
        &events,
        charlie(),
        charlie(),
        &requester,
        None,
        Membership::Leave
    ));
}

#[test]
fn test_join_creator() {
    let events = vec![create_event()];
    let requester = pdu(
        HELLO,
        alice(),
        EventType::Member,
        Some(StateKey::User(alice())),
        member(Membership::Join),
        &[CREATE],
        &[CREATE],
    );
    assert!(check_membership(
        RoomVersionId::V6,
        &events,
        alice(),
        alice(),
        &requester,
        None,
        Membership::Leave
    ));
}

#[test]
fn test_ban_fail() {
    let events = initial_events();
    let requester = pdu(
        HELLO,
        charlie(),
        EventType::Member,
        Some(StateKey::User(alice())),
        member(Membership::Ban),
        &[],
        &[IMC],
    );
    assert!(!check_membership(
        RoomVersionId::V6,
        &events,
        alice(),
        charlie(),
        &requester,
        None,
        Membership::Leave
    ));
}

#[test]
fn test_restricted_join_rule() {
    let mut events = initial_events();
    events[3] = join_rules(JoinRule::Restricted);
    let requester = pdu(
        HELLO,
        ella(),
        EventType::Member,
        Some(StateKey::User(ella())),
        member(Membership::Join),
        &[CREATE, IJR, IPOWER, NEW],
        &[NEW],
    );
    assert!(check_membership(
        RoomVersionId::V9,
        &events,
        ella(),
        ella(),
        &requester,
        Some(alice()),
        Membership::Join
    ));
    assert!(!check_membership(
        RoomVersionId::V9,
        &events,
        ella(),
        ella(),
        &requester,
        Some(ella()),
        Membership::Leave
    ));
}

#[test]
fn test_knock() {
    let mut events = initial_events();
    events[3] = join_rules(JoinRule::Knock);
    let requester = pdu(
        HELLO,
        ella(),
        EventType::Member,
        Some(StateKey::User(ella())),
        member(Membership::Knock),
        &[],
        &[IMC],
    );
    assert!(check_membership(
        RoomVersionId::V7,
        &events,
        ella(),
        ella(),
        &requester,
        None,
        Membership::Leave
    ));
}

// Scenarios on the whole admission check.

fn a_s() -> UserId {
    UserId { local: 1, server: 7 }
}

fn b_t() -> UserId {
    UserId { local: 2, server: 8 }
}

fn room_s() -> RoomId {
    RoomId { local: 300, server: Some(7) }
}

fn ev(
    id: u64,
    sender: UserId,
    kind: EventType,
    state_key: Option<StateKey>,
    content: Content,
    auth: Vec<EventId>,
    prev: Vec<EventId>,
) -> Event {
    Event {
        event_id: EventId { local: id, server: None },
        room_id: Some(room_s()),
        sender,
        kind,
        state_key,
        content,
        prev_events: prev,
        auth_events: auth,
        redacts: None,
    }
}

fn create_by(sender: UserId, id: u64) -> Event {
    ev(
        id,
        sender,
        EventType::Create,
        Some(StateKey::Empty),
        Content::Create(CreateContent {
            room_version_known: Some(true),
            creator: Some(sender),
            additional_creators: vec![],
            federate: true,
        }),
        vec![],
        vec![],
    )
}

fn eid(id: u64) -> EventId {
    EventId { local: id, server: None }
}

#[test]
fn creator_self_join_is_allowed() {
    let rv = RoomVersion::new(RoomVersionId::V11);
    let create = create_by(a_s(), 1);
    let join = ev(
        2,
        a_s(),
        EventType::Member,
        Some(StateKey::User(a_s())),
        member(Membership::Join),
        vec![eid(1)],
        vec![eid(1)],
    );
    let state = vec![create.clone()];
    assert_eq!(auth_check(&rv, &join, None, &state, &create), Ok(true));
}

#[test]
fn creator_self_join_in_hash_room_is_allowed() {
    let rv = RoomVersion::new(RoomVersionId::V12);
    let mut create = create_by(a_s(), 1);
    create.room_id = None;
    let hash_room = RoomId { local: 1, server: None };
    let mut join = ev(
        2,
        a_s(),
        EventType::Member,
        Some(StateKey::User(a_s())),
        member(Membership::Join),
        vec![],
        vec![eid(1)],
    );
    join.room_id = Some(hash_room);
    let state = vec![create.clone()];
    assert_eq!(auth_check(&rv, &join, None, &state, &create), Ok(true));
    // A v12 event must not name the create event among its auth events.
    join.auth_events = vec![eid(1)];
    assert_eq!(auth_check(&rv, &join, None, &state, &create), Ok(false));
}

fn room_with_rules(rule: JoinRule, creator: UserId) -> (Event, Vec<Event>) {
    let create = create_by(creator, 1);
    let state = vec![
        create.clone(),
        ev(
            2,
            creator,
            EventType::Member,
            Some(StateKey::User(creator)),
            member(Membership::Join),
            vec![eid(1)],
            vec![eid(1)],
        ),
        ev(
            3,
            creator,
            EventType::PowerLevels,
            Some(StateKey::Empty),
            Content::PowerLevels(levels(vec![(creator, 100)])),
            vec![eid(1), eid(2)],
            vec![eid(2)],
        ),
        ev(
            4,
            creator,
            EventType::JoinRules,
            Some(StateKey::Empty),
            Content::JoinRules(rule),
            vec![eid(1), eid(2), eid(3)],
            vec![eid(3)],
        ),
    ];
    (create, state)
}

#[test]
fn outsider_join_to_invite_only_room_is_denied() {
    let rv = RoomVersion::new(RoomVersionId::V11);
    let (create, state) = room_with_rules(JoinRule::Invite, a_s());
    let join = ev(
        5,
        b_t(),
        EventType::Member,
        Some(StateKey::User(b_t())),
        member(Membership::Join),
        vec![eid(1), eid(3), eid(4)],
        vec![eid(4)],
    );
    assert_eq!(auth_check(&rv, &join, None, &state, &create), Ok(false));
}

#[test]
fn invited_user_may_join_invite_only_room() {
    let rv = RoomVersion::new(RoomVersionId::V11);
    let (create, mut state) = room_with_rules(JoinRule::Invite, a_s());
    state.push(ev(
        5,
        a_s(),
        EventType::Member,
        Some(StateKey::User(b_t())),
        member(Membership::Invite),
        vec![eid(1), eid(3)],
        vec![eid(4)],
    ));
    let join = ev(
        6,
        b_t(),
        EventType::Member,
        Some(StateKey::User(b_t())),
        member(Membership::Join),
        vec![eid(1), eid(3), eid(4), eid(5)],
        vec![eid(5)],
    );
    assert_eq!(auth_check(&rv, &join, None, &state, &create), Ok(true));
}

#[test]
fn restricted_join_with_authorising_user() {
    let rv = RoomVersion::new(RoomVersionId::V9);
    let (create, state) = room_with_rules(JoinRule::Restricted, a_s());
    let join = ev(
        5,
        b_t(),
        EventType::Member,
        Some(StateKey::User(b_t())),
        Content::Member(MemberContent {
            membership: Some(Membership::Join),
            join_authorised_via_users_server: Some(a_s()),
            third_party_invite: None,
        }),
        vec![eid(1), eid(3), eid(4), eid(2)],
        vec![eid(4)],
    );
    assert_eq!(auth_check(&rv, &join, None, &state, &create), Ok(true));
    // The same join where the authorising user is not joined.
    let without: Vec<Event> = state
        .iter()
        .filter(|e| e.kind != EventType::Member)
        .cloned()
        .collect();
    assert_eq!(auth_check(&rv, &join, None, &without, &create), Ok(false));
}

#[test]
fn power_levels_raise_above_self_is_denied() {
    let rv = RoomVersion::new(RoomVersionId::V11);
    let create = create_by(UserId { local: 9, server: 7 }, 1);
    let state = vec![
        create.clone(),
        ev(
            2,
            a_s(),
            EventType::Member,
            Some(StateKey::User(a_s())),
            member(Membership::Join),
            vec![eid(1)],
            vec![eid(1)],
        ),
        ev(
            3,
            a_s(),
            EventType::PowerLevels,
            Some(StateKey::Empty),
            Content::PowerLevels(levels(vec![(a_s(), 50), (b_t(), 50)])),
            vec![eid(1)],
            vec![eid(2)],
        ),
    ];
    let raise = ev(
        4,
        a_s(),
        EventType::PowerLevels,
        Some(StateKey::Empty),
        Content::PowerLevels(levels(vec![(a_s(), 50), (b_t(), 100)])),
        vec![eid(1), eid(2), eid(3)],
        vec![eid(3)],
    );
    assert_eq!(auth_check(&rv, &raise, None, &state, &create), Ok(false));
    // Lowering a user below the sender's level is fine.
    let lower = ev(
        5,
        a_s(),
        EventType::PowerLevels,
        Some(StateKey::Empty),
        Content::PowerLevels(levels(vec![(a_s(), 50), (b_t(), 50), (UserId { local: 3, server: 8 }, 10)])),
        vec![eid(1), eid(2), eid(3)],
        vec![eid(3)],
    );
    assert_eq!(auth_check(&rv, &lower, None, &state, &create), Ok(true));
}

#[test]
fn create_with_previous_events_is_denied() {
    let rv = RoomVersion::new(RoomVersionId::V11);
    let mut create = create_by(a_s(), 1);
    assert_eq!(auth_check(&rv, &create, None, &[].to_vec(), &create.clone()), Ok(true));
    create.prev_events = vec![eid(9)];
    assert_eq!(auth_check(&rv, &create, None, &[].to_vec(), &create.clone()), Ok(false));
}

#[test]
fn create_needs_creator_in_old_versions() {
    let rv = RoomVersion::new(RoomVersionId::V6);
    let mut create = create_by(a_s(), 1);
    if let Content::Create(c) = &mut create.content {
        c.creator = None;
    }
    assert_eq!(auth_check(&rv, &create, None, &vec![], &create.clone()), Ok(false));
    let rv11 = RoomVersion::new(RoomVersionId::V11);
    assert_eq!(auth_check(&rv11, &create, None, &vec![], &create.clone()), Ok(true));
}

#[test]
fn create_from_other_server_is_denied() {
    let rv = RoomVersion::new(RoomVersionId::V11);
    let create = create_by(b_t(), 1);
    assert_eq!(auth_check(&rv, &create, None, &vec![], &create.clone()), Ok(false));
}

#[test]
fn banned_user_cannot_rejoin() {
    let rv = RoomVersion::new(RoomVersionId::V11);
    let (create, mut state) = room_with_rules(JoinRule::Public, a_s());
    state.push(ev(
        5,
        a_s(),
        EventType::Member,
        Some(StateKey::User(b_t())),
        member(Membership::Ban),
        vec![eid(1), eid(3)],
        vec![eid(4)],
    ));
    let join = ev(
        6,
        b_t(),
        EventType::Member,
        Some(StateKey::User(b_t())),
        member(Membership::Join),
        vec![eid(1), eid(3), eid(4), eid(5)],
        vec![eid(5)],
    );
    assert_eq!(auth_check(&rv, &join, None, &state, &create), Ok(false));
}

#[test]
fn malformed_member_content_is_an_error() {
    let rv = RoomVersion::new(RoomVersionId::V11);
    let (create, state) = room_with_rules(JoinRule::Public, a_s());
    let join = ev(
        5,
        b_t(),
        EventType::Member,
        Some(StateKey::User(b_t())),
        Content::Malformed,
        vec![eid(1)],
        vec![eid(4)],
    );
    assert_eq!(auth_check(&rv, &join, None, &state, &create), Err(AuthError::InvalidContent));
    let odd_key = ev(
        6,
        b_t(),
        EventType::Member,
        Some(StateKey::Text(4)),
        member(Membership::Join),
        vec![eid(1)],
        vec![eid(4)],
    );
    assert_eq!(auth_check(&rv, &odd_key, None, &state, &create), Err(AuthError::InvalidPdu));
}

#[test]
fn message_needs_joined_sender() {
    let rv = RoomVersion::new(RoomVersionId::V11);
    let (create, state) = room_with_rules(JoinRule::Public, a_s());
    let msg = |sender: UserId| {
        ev(
            7,
            sender,
            EventType::Other(1),
            None,
            Content::Other,
            vec![eid(1), eid(2), eid(3)],
            vec![eid(4)],
        )
    };
    assert_eq!(auth_check(&rv, &msg(a_s()), None, &state, &create), Ok(true));
    assert_eq!(auth_check(&rv, &msg(b_t()), None, &state, &create), Ok(false));
}

#[test]
fn state_key_of_other_user_is_denied() {
    let rv = RoomVersion::new(RoomVersionId::V11);
    let (create, state) = room_with_rules(JoinRule::Public, a_s());
    let e = ev(
        7,
        a_s(),
        EventType::Other(2),
        Some(StateKey::User(b_t())),
        Content::Other,
        vec![eid(1), eid(2), eid(3)],
        vec![eid(4)],
    );
    assert_eq!(auth_check(&rv, &e, None, &state, &create), Ok(false));
}

#[test]
fn aliases_shortcut_in_old_versions() {
    let rv = RoomVersion::new(RoomVersionId::V5);
    let (create, state) = room_with_rules(JoinRule::Public, a_s());
    let mut e = ev(
        7,
        b_t(),
        EventType::Aliases,
        Some(StateKey::Server(8)),
        Content::Other,
        vec![eid(1)],
        vec![eid(4)],
    );
    assert_eq!(auth_check(&rv, &e, None, &state, &create), Ok(true));
    e.state_key = Some(StateKey::Server(7));
    assert_eq!(auth_check(&rv, &e, None, &state, &create), Ok(false));
}

#[test]
fn unfederated_room_refuses_other_servers() {
    let rv = RoomVersion::new(RoomVersionId::V11);
    let (mut create, mut state) = room_with_rules(JoinRule::Public, a_s());
    if let Content::Create(c) = &mut create.content {
        c.federate = false;
    }
    state[0] = create.clone();
    let join = ev(
        5,
        b_t(),
        EventType::Member,
        Some(StateKey::User(b_t())),
        member(Membership::Join),
        vec![eid(1), eid(3), eid(4)],
        vec![eid(4)],
    );
    assert_eq!(auth_check(&rv, &join, None, &state, &create), Ok(false));
}

#[test]
fn redaction_checks_in_first_versions() {
    let mut e = ev(
        7,
        b_t(),
        EventType::Redaction,
        None,
        Content::Other,
        vec![],
        vec![],
    );
    e.event_id = EventId { local: 7, server: Some(8) };
    e.redacts = Some(EventId { local: 6, server: Some(8) });
    assert!(check_redaction(&e, 0, 50));
    e.redacts = Some(EventId { local: 6, server: Some(7) });
    assert!(!check_redaction(&e, 0, 50));
    assert!(check_redaction(&e, 50, 50));
}

#[test]
fn auth_types_of_member_join() {
    let rv = RoomVersion::new(RoomVersionId::V9);
    let content = Content::Member(MemberContent {
        membership: Some(Membership::Join),
        join_authorised_via_users_server: Some(a_s()),
        third_party_invite: None,
    });
    let types = auth_types_for_event(
        EventType::Member,
        b_t(),
        Some(StateKey::User(b_t())),
        &content,
        &rv,
    )
    .unwrap();
    assert_eq!(
        types,
        vec![
            (EventType::PowerLevels, StateKey::Empty),
            (EventType::Member, StateKey::User(b_t())),
            (EventType::Create, StateKey::Empty),
            (EventType::JoinRules, StateKey::Empty),
            (EventType::Member, StateKey::User(a_s())),
        ]
    );
}

#[test]
fn auth_types_of_create_and_invite() {
    let rv12 = RoomVersion::new(RoomVersionId::V12);
    assert_eq!(
        auth_types_for_event(EventType::Create, a_s(), Some(StateKey::Empty), &Content::Other, &rv12),
        Ok(vec![])
    );
    let invite = Content::Member(MemberContent {
        membership: Some(Membership::Invite),
        join_authorised_via_users_server: None,
        third_party_invite: Some(SignedInvite { mxid: b_t(), token: 44, token_decoded: Some(45) }),
    });
    assert_eq!(
        auth_types_for_event(EventType::Member, a_s(), Some(StateKey::User(b_t())), &invite, &rv12),
        Ok(vec![
            (EventType::PowerLevels, StateKey::Empty),
            (EventType::Member, StateKey::User(a_s())),
            (EventType::JoinRules, StateKey::Empty),
            (EventType::Member, StateKey::User(b_t())),
            (EventType::ThirdPartyInvite, StateKey::Text(44)),
        ])
    );
    assert_eq!(
        auth_types_for_event(
            EventType::Member,
            a_s(),
            Some(StateKey::User(b_t())),
            &Content::Malformed,
            &rv12
        ),
        Err(AuthError::InvalidContent)
    );
}

fn third_party_invite_event(token: u64, key: u64) -> Event {
    ev(
        8,
        a_s(),
        EventType::ThirdPartyInvite,
        Some(StateKey::Text(token)),
        Content::ThirdPartyInvite(ThirdPartyInviteContent { public_key: key, public_keys: vec![] }),
        vec![],
        vec![],
    )
}

#[test]
fn third_party_invite_token_must_match() {
    let tp = SignedInvite { mxid: b_t(), token: 44, token_decoded: Some(45) };
    let good = third_party_invite_event(44, 45);
    assert!(verify_third_party_invite(b_t(), a_s(), tp, Some(&good)));
    let other_token = third_party_invite_event(43, 45);
    assert!(!verify_third_party_invite(b_t(), a_s(), tp, Some(&other_token)));
    let other_key = third_party_invite_event(44, 46);
    assert!(!verify_third_party_invite(b_t(), a_s(), tp, Some(&other_key)));
    assert!(!verify_third_party_invite(b_t(), a_s(), tp, None));
    assert!(!verify_third_party_invite(a_s(), a_s(), tp, Some(&good)));
}

#[test]
fn creators_are_privileged_in_hash_rooms() {
    let rv = RoomVersion::new(RoomVersionId::V12);
    let mut create = create_by(a_s(), 1);
    create.room_id = None;
    if let Content::Create(c) = &mut create.content {
        c.creator = None;
        c.additional_creators = vec![b_t()];
    }
    let hash_room = RoomId { local: 1, server: None };
    let mut member_b = ev(
        2,
        b_t(),
        EventType::Member,
        Some(StateKey::User(b_t())),
        member(Membership::Join),
        vec![],
        vec![eid(1)],
    );
    member_b.room_id = Some(hash_room);
    let mut pl = ev(
        3,
        a_s(),
        EventType::PowerLevels,
        Some(StateKey::Empty),
        Content::PowerLevels(levels(vec![])),
        vec![],
        vec![eid(2)],
    );
    pl.room_id = Some(hash_room);
    let state = vec![create.clone(), member_b, pl];
    let mut raise = ev(
        4,
        b_t(),
        EventType::PowerLevels,
        Some(StateKey::Empty),
        Content::PowerLevels(levels(vec![(UserId { local: 3, server: 8 }, 1000)])),
        vec![],
        vec![eid(3)],
    );
    raise.room_id = Some(hash_room);
    // An additional creator has unbounded power.
    assert_eq!(auth_check(&rv, &raise, None, &state, &create), Ok(true));
    // Creators may not be listed in the users map.
    if let Content::PowerLevels(l) = &mut raise.content {
        l.users = vec![(a_s(), 10)];
    }
    assert_eq!(auth_check(&rv, &raise, None, &state, &create), Ok(false));
    assert_eq!(MAX_POWER, 9007199254740991);
}

#[test]
fn unfederated_hash_room_refuses_other_servers() {
    let rv = RoomVersion::new(RoomVersionId::V12);
    let mut create = create_by(a_s(), 1);
    create.room_id = None;
    if let Content::Create(c) = &mut create.content {
        c.federate = false;
    }
    let hash_room = RoomId { local: 1, server: None };
    let mut join = ev(
        2,
        b_t(),
        EventType::Member,
        Some(StateKey::User(b_t())),
        member(Membership::Join),
        vec![],
        vec![eid(1)],
    );
    join.room_id = Some(hash_room);
    let mut rules = ev(
        3,
        a_s(),
        EventType::JoinRules,
        Some(StateKey::Empty),
        Content::JoinRules(JoinRule::Public),
        vec![],
        vec![eid(1)],
    );
    rules.room_id = Some(hash_room);
    let state = vec![create.clone(), rules];
    assert_eq!(auth_check(&rv, &join, None, &state, &create), Ok(false));
}

#[test]
fn ban_compares_against_default_target_level() {
    let rv = RoomVersion::new(RoomVersionId::V11);
    let create = create_by(UserId { local: 9, server: 7 }, 1);
    let mut l = levels(vec![(a_s(), 55)]);
    l.users_default = 60;
    let state = vec![
        create.clone(),
        ev(
            2,
            a_s(),
            EventType::Member,
            Some(StateKey::User(a_s())),
            member(Membership::Join),
            vec![eid(1)],
            vec![eid(1)],
        ),
        ev(3, a_s(), EventType::PowerLevels, Some(StateKey::Empty), Content::PowerLevels(l), vec![eid(1)], vec![eid(2)]),
    ];
    let ban = ev(
        4,
        a_s(),
        EventType::Member,
        Some(StateKey::User(b_t())),
        member(Membership::Ban),
        vec![eid(1), eid(2), eid(3)],
        vec![eid(3)],
    );
    // The target has no entry, so its level is users_default, 60, above the sender's 55.
    assert_eq!(auth_check(&rv, &ban, None, &state, &create), Ok(false));
}

#[test]
fn auth_types_name_authorising_user_for_any_membership() {
    let rv = RoomVersion::new(RoomVersionId::V11);
    let content = Content::Member(MemberContent {
        membership: Some(Membership::Leave),
        join_authorised_via_users_server: Some(a_s()),
        third_party_invite: None,
    });
    assert_eq!(
        auth_types_for_event(EventType::Member, b_t(), Some(StateKey::User(b_t())), &content, &rv),
        Ok(vec![
            (EventType::PowerLevels, StateKey::Empty),
            (EventType::Member, StateKey::User(b_t())),
            (EventType::Create, StateKey::Empty),
            (EventType::Member, StateKey::User(a_s())),
        ])
    );
}

#[test]
fn restricted_rule_needs_a_version_that_knows_it() {
    let rv = RoomVersion::new(RoomVersionId::V7);
    let (create, state) = room_with_rules(JoinRule::Restricted, a_s());
    let join = ev(
        5,
        b_t(),
        EventType::Member,
        Some(StateKey::User(b_t())),
        Content::Member(MemberContent {
            membership: Some(Membership::Join),
            join_authorised_via_users_server: Some(a_s()),
            third_party_invite: None,
        }),
        vec![eid(1), eid(3), eid(4), eid(2)],
        vec![eid(4)],
    );
    assert_eq!(auth_check(&rv, &join, None, &state, &create), Ok(false));
}
