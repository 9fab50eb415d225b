use homeserver_core::event::{
    Content, CreateContent, Event, EventId, EventType, JoinRule, MemberContent, Membership,
    PowerLevels, RoomId, StateKey, UserId,
};
use homeserver_core::room_version::{RoomVersion, RoomVersionId};
use homeserver_core::state_res::{iterative_auth_check, separate};
use homeserver_core::timeline::{AppendError, Timeline};

fn a() -> UserId {
    UserId { local: 1, server: 7 }
}

fn eid(n: u64) -> EventId {
    EventId { local: n, server: None }
}

fn event(n: u64, kind: EventType, key: Option<StateKey>, content: Content, auth: &[u64]) -> Event {
    Event {
        event_id: eid(n),
        room_id: Some(RoomId { local: 50, server: Some(7) }),
        sender: a(),
        kind,
        state_key: key,
        content,
        prev_events: if n > 1 { vec![eid(n - 1)] } else { vec![] },
        auth_events: auth.iter().map(|x| eid(*x)).collect(),
        redacts: None,
    }
}

fn create() -> Event {
    event(
        1,
        EventType::Create,
        Some(StateKey::Empty),
        Content::Create(CreateContent {
            room_version_known: Some(true),
            creator: None,
            additional_creators: vec![],
            federate: true,
        }),
        &[],
    )
}

fn join() -> Event {
    event(
        2,
        EventType::Member,
        Some(StateKey::User(a())),
        Content::Member(MemberContent {
            membership: Some(Membership::Join),
            join_authorised_via_users_server: None,
            third_party_invite: None,
        }),
        &[1],
    )
}

#[test]
fn appends_admitted_events_in_order() {
    let rv = RoomVersion::new(RoomVersionId::V11);
    let mut t = Timeline::new();
    let c = create();
    assert_eq!(t.append(&rv, c.clone(), None, &vec![], &c), Ok(()));
    assert_eq!(t.append(&rv, join(), None, &vec![c.clone()], &c), Ok(()));
    let msg = event(3, EventType::Other(9), None, Content::Other, &[1, 2]);
    assert_eq!(t.append(&rv, msg, None, &vec![c.clone(), join()], &c), Ok(()));
    assert_eq!(t.len(), 3);
}

#[test]
fn refuses_missing_auth_events_and_denials() {
    let rv = RoomVersion::new(RoomVersionId::V11);
    let mut t = Timeline::new();
    let c = create();
    // The join names the create event, which is not in the timeline yet.
    assert_eq!(
        t.append(&rv, join(), None, &vec![c.clone()], &c),
        Err(AppendError::MissingAuthEvent)
    );
    assert_eq!(t.append(&rv, c.clone(), None, &vec![], &c), Ok(()));
    // A message from a user who never joined is denied.
    let msg = event(3, EventType::Other(9), None, Content::Other, &[1]);
    assert_eq!(t.append(&rv, msg, None, &vec![c.clone()], &c), Err(AppendError::Denied));
    assert_eq!(t.len(), 1);
}

#[test]
fn separate_splits_agreed_and_conflicted_entries() {
    let s1 = vec![(1, 10), (2, 20), (3, 30)];
    let s2 = vec![(1, 10), (2, 21)];
    let (mut agreed, mut disputed) = separate(&vec![s1.clone(), s2.clone()]);
    agreed.sort();
    agreed.dedup();
    disputed.sort();
    disputed.dedup();
    assert_eq!(agreed, vec![(1, 10)]);
    assert_eq!(disputed, vec![(2, 20), (2, 21), (3, 30)]);
    // The order of the snapshots does not matter.
    let (mut agreed2, mut disputed2) = separate(&vec![s2, s1]);
    agreed2.sort();
    agreed2.dedup();
    disputed2.sort();
    disputed2.dedup();
    assert_eq!(agreed2, agreed);
    assert_eq!(disputed2, disputed);
    let (none, nothing) = separate(&vec![]);
    assert!(none.is_empty() && nothing.is_empty());
}

#[test]
fn iterative_auth_keeps_admitted_events() {
    let rv = RoomVersion::new(RoomVersionId::V11);
    let c = create();
    let state = vec![c.clone(), join()];
    let mut levels = PowerLevels::default_levels();
    levels.users = vec![(a(), 100)];
    let pl = event(3, EventType::PowerLevels, Some(StateKey::Empty), Content::PowerLevels(levels), &[1, 2]);
    let mut outsider_rules = event(4, EventType::JoinRules, Some(StateKey::Empty), Content::JoinRules(JoinRule::Invite), &[1]);
    outsider_rules.sender = UserId { local: 2, server: 7 };
    let rules = event(5, EventType::JoinRules, Some(StateKey::Empty), Content::JoinRules(JoinRule::Public), &[1, 2, 3]);
    let message = event(6, EventType::Other(1), None, Content::Other, &[1, 2]);
    let resolved = iterative_auth_check(&rv, vec![pl, outsider_rules, rules, message], state, &c);
    let ids: Vec<u64> = resolved.iter().map(|e| e.event_id.local).collect();
    // The join rules of the outsider and the message are dropped; the power
    // levels and the creator's join rules replace nothing and are kept first.
    assert_eq!(ids, vec![5, 3, 1, 2]);
}
