//! The timeline of one room: the events admitted so far, in the order they
//! were appended.
use vstd::prelude::*;

use crate::auth::{auth_check, auth_verdict, deref_opt, AuthError};
use crate::event::{Event, EventId};
use crate::room_version::RoomVersion;

verus! {

/// What an admission was judged on: the room version, the third-party
/// invite, the room state and the create event.
pub type AdmissionInputs = (RoomVersion, Option<Event>, Seq<Event>, Event);

/// The events of one room. Appending takes the timeline by `&mut`, so the
/// admissions of a room happen one after the other.
pub struct Timeline {
    events: Vec<Event>,
    judged_on: Ghost<Seq<AdmissionInputs>>,
}

/// Why an event was not appended.
#[derive(Clone, Copy, Debug, PartialEq, Eq, Structural)]
pub enum AppendError {
    /// One of its auth events is not in the timeline.
    MissingAuthEvent,
    /// Authorization denied it.
    Denied,
    /// Authorization could not judge it.
    Invalid(AuthError),
}

/// Some event of `events` before position `before` has id `id`.
pub open spec fn appended_before(events: Seq<Event>, before: int, id: EventId) -> bool {
    exists|j: int| 0 <= j < before && #[trigger] events[j].event_id == id
}

/// Each auth event of `ev` is among `events`.
pub open spec fn auth_events_appended(events: Seq<Event>, ev: Event) -> bool {
    forall|k: int|
        0 <= k < ev.auth_events@.len() ==> appended_before(
            events,
            events.len() as int,
            #[trigger] ev.auth_events@[k],
        )
}

/// The outcome of appending an event: refused where an auth event is
/// missing, else as authorization decides.
pub open spec fn append_outcome(present: bool, verdict: Result<bool, AuthError>) -> Result<
    (),
    AppendError,
> {
    if !present {
        Err(AppendError::MissingAuthEvent)
    } else {
        match verdict {
            Ok(true) => Ok(()),
            Ok(false) => Err(AppendError::Denied),
            Err(e) => Err(AppendError::Invalid(e)),
        }
    }
}

impl Timeline {
    /// The events, in order.
    pub closed spec fn view_events(&self) -> Seq<Event> {
        self.events@
    }

    /// Every event was admitted on the inputs recorded for it, and each of
    /// its auth events was appended before it.
    pub closed spec fn wf(&self) -> bool {
        &&& self.judged_on@.len() == self.events@.len()
        &&& forall|i: int|
            0 <= i < self.events@.len() ==> {
                let (rv, tpi, state, create) = #[trigger] self.judged_on@[i];
                auth_verdict(rv, self.events@[i], tpi, state, create) == Ok::<bool, AuthError>(true)
            }
        &&& forall|i: int, k: int|
            0 <= i < self.events@.len() && 0 <= k < self.events@[i].auth_events@.len()
                ==> appended_before(self.events@, i, #[trigger] self.events@[i].auth_events@[k])
    }

    /// An empty timeline.
    pub fn new() -> (r: Timeline)
        ensures
            r.wf(),
            r.view_events().len() == 0,
    {
        Timeline { events: Vec::new(), judged_on: Ghost(Seq::empty()) }
    }

    /// The number of events.
    pub fn len(&self) -> (r: usize)
        ensures
            r == self.view_events().len(),
    {
        self.events.len()
    }

    fn has_event(&self, id: EventId) -> (r: bool)
        ensures
            r == appended_before(self.events@, self.events@.len() as int, id),
    {
        let mut i: usize = 0;
        while i < self.events.len()
            invariant
                i <= self.events@.len(),
                forall|j: int| 0 <= j < i ==> self.events@[j].event_id != id,
            decreases self.events@.len() - i,
        {
            if self.events[i].event_id == id {
                assert(self.events@[i as int].event_id == id);
                return true;
            }
            i = i + 1;
        }
        false
    }

    fn auth_events_present(&self, ev: &Event) -> (r: bool)
        ensures
            r == forall|k: int|
                0 <= k < ev.auth_events@.len() ==> appended_before(
                    self.events@,
                    self.events@.len() as int,
                    #[trigger] ev.auth_events@[k],
                ),
    {
        let mut k: usize = 0;
        while k < ev.auth_events.len()
            invariant
                k <= ev.auth_events@.len(),
                forall|m: int|
                    0 <= m < k ==> appended_before(
                        self.events@,
                        self.events@.len() as int,
                        #[trigger] ev.auth_events@[m],
                    ),
            decreases ev.auth_events@.len() - k,
        {
            if !self.has_event(ev.auth_events[k]) {
                return false;
            }
            k = k + 1;
        }
        true
    }

    /// Appends `event` where each of its auth events is in the timeline and
    /// authorization admits it against `state`.
    pub fn append(
        &mut self,
        room_version: &RoomVersion,
        event: Event,
        current_third_party_invite: Option<&Event>,
        state: &Vec<Event>,
        create_event: &Event,
    ) -> (r: Result<(), AppendError>)
        requires
            old(self).wf(),
        ensures
            final(self).wf(),
            r == append_outcome(
                auth_events_appended(old(self).view_events(), event),
                auth_verdict(
                    *room_version,
                    event,
                    deref_opt(current_third_party_invite),
                    state@,
                    *create_event,
                ),
            ),
            r is Ok ==> final(self).view_events() == old(self).view_events().push(event),
            r is Err ==> final(self).view_events() == old(self).view_events(),
    {
        if !self.auth_events_present(&event) {
            return Err(AppendError::MissingAuthEvent);
        }
        match auth_check(room_version, &event, current_third_party_invite, state, create_event) {
            Ok(true) => {},
            Ok(false) => {
                return Err(AppendError::Denied);
            },
            Err(e) => {
                return Err(AppendError::Invalid(e));
            },
        }
        let ghost old_events = self.events@;
        let ghost inputs = (
            *room_version,
            deref_opt(current_third_party_invite),
            state@,
            *create_event,
        );
        self.events.push(event);
        self.judged_on = Ghost(self.judged_on@.push(inputs));
        assert forall|i: int, k: int|
            0 <= i < self.events@.len() && 0 <= k < self.events@[i].auth_events@.len()
                implies appended_before(self.events@, i, #[trigger] self.events@[i].auth_events@[k]) by {
            let id = self.events@[i].auth_events@[k];
            if i < old_events.len() {
                assert(self.events@[i] == old_events[i]);
                assert(appended_before(old_events, i, id));
                let j = choose|j: int| 0 <= j < i && #[trigger] old_events[j].event_id == id;
                assert(self.events@[j] == old_events[j]);
            } else {
                assert(appended_before(old_events, old_events.len() as int, id));
                let j = choose|j: int|
                    0 <= j < old_events.len() && #[trigger] old_events[j].event_id == id;
                assert(self.events@[j] == old_events[j]);
            }
        }
        assert forall|i: int| 0 <= i < self.events@.len() implies {
            let (rv, tpi, st, cr) = #[trigger] self.judged_on@[i];
            auth_verdict(rv, self.events@[i], tpi, st, cr) == Ok::<bool, AuthError>(true)
        } by {
            if i < old_events.len() {
                assert(self.events@[i] == old_events[i]);
            }
        }
        Ok(())
    }
}

/// Each auth event of an event in a timeline was appended before it, and was
/// itself admitted on the inputs recorded for it.
pub proof fn auth_chain_closed(t: Timeline, i: int, k: int)
    requires
        t.wf(),
        0 <= i < t.view_events().len(),
        0 <= k < t.view_events()[i].auth_events@.len(),
    ensures
        exists|j: int|
            0 <= j < i && #[trigger] t.view_events()[j].event_id == t.view_events()[i].auth_events@[k]
                && t.admitted(j),
{
    let id = t.view_events()[i].auth_events@[k];
    assert(appended_before(t.view_events(), i, id));
    let j = choose|j: int| 0 <= j < i && #[trigger] t.view_events()[j].event_id == id;
    assert(t.admitted(j));
}

impl Timeline {
    /// The event at position `j` was admitted on the inputs recorded for it.
    pub closed spec fn admitted(&self, j: int) -> bool {
        let (rv, tpi, state, create) = self.judged_on@[j];
        auth_verdict(rv, self.events@[j], tpi, state, create) == Ok::<bool, AuthError>(true)
    }
}

} // verus!
