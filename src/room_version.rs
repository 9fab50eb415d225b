//! The behaviour flags that each room version switches on or off.
use vstd::prelude::*;

verus! {

/// The room versions this server knows.
#[derive(Clone, Copy, Debug, PartialEq, Eq, Structural)]
pub enum RoomVersionId {
    V1,
    V2,
    V3,
    V4,
    V5,
    V6,
    V7,
    V8,
    V9,
    V10,
    V11,
    V12,
}

/// The rules of one room version that event authorization reads.
#[derive(Clone, Copy, Debug, PartialEq, Eq, Structural)]
pub struct RoomVersion {
    /// Room ids are the hash of the create event, which no longer names a room.
    pub room_ids_as_hashes: bool,
    /// The sender of the create event is its creator (no `creator` field).
    pub use_room_create_sender: bool,
    /// The create event's sender and `additional_creators` have unbounded power.
    pub explicitly_privilege_room_creators: bool,
    /// `m.room.aliases` is authorized by the sender's server alone.
    pub special_case_aliases_auth: bool,
    /// Knocking is allowed.
    pub allow_knocking: bool,
    /// The `restricted` join rule is known.
    pub restricted_join_rule: bool,
    /// The `knock_restricted` join rule is known.
    pub knock_restricted_join_rule: bool,
    /// Changing the `@room` notification level is bounded by the sender's level.
    pub limit_notifications_power_levels: bool,
    /// Redactions need the redact level or the redacted event's server.
    pub extra_redaction_checks: bool,
}

/// The flags of room version `id`, as the published versions define them.
pub open spec fn version_rules(id: RoomVersionId) -> RoomVersion {
    let n = version_number(id);
    RoomVersion {
        room_ids_as_hashes: n >= 12,
        use_room_create_sender: n >= 11,
        explicitly_privilege_room_creators: n >= 12,
        special_case_aliases_auth: n <= 5,
        allow_knocking: n >= 7,
        restricted_join_rule: n >= 8,
        knock_restricted_join_rule: n >= 10,
        limit_notifications_power_levels: n >= 6,
        extra_redaction_checks: n <= 2,
    }
}

/// The number in the version's name.
pub open spec fn version_number(id: RoomVersionId) -> int {
    match id {
        RoomVersionId::V1 => 1,
        RoomVersionId::V2 => 2,
        RoomVersionId::V3 => 3,
        RoomVersionId::V4 => 4,
        RoomVersionId::V5 => 5,
        RoomVersionId::V6 => 6,
        RoomVersionId::V7 => 7,
        RoomVersionId::V8 => 8,
        RoomVersionId::V9 => 9,
        RoomVersionId::V10 => 10,
        RoomVersionId::V11 => 11,
        RoomVersionId::V12 => 12,
    }
}

impl RoomVersionId {
    /// The number in the version's name.
    pub fn number(self) -> (r: u8)
        ensures
            r == version_number(self),
    {
        match self {
            RoomVersionId::V1 => 1,
            RoomVersionId::V2 => 2,
            RoomVersionId::V3 => 3,
            RoomVersionId::V4 => 4,
            RoomVersionId::V5 => 5,
            RoomVersionId::V6 => 6,
            RoomVersionId::V7 => 7,
            RoomVersionId::V8 => 8,
            RoomVersionId::V9 => 9,
            RoomVersionId::V10 => 10,
            RoomVersionId::V11 => 11,
            RoomVersionId::V12 => 12,
        }
    }
}

impl RoomVersion {
    /// The rules of room version `id`.
    pub fn new(id: RoomVersionId) -> (r: RoomVersion)
        ensures
            r == version_rules(id),
    {
        let n = id.number();
        RoomVersion {
            room_ids_as_hashes: n >= 12,
            use_room_create_sender: n >= 11,
            explicitly_privilege_room_creators: n >= 12,
            special_case_aliases_auth: n <= 5,
            allow_knocking: n >= 7,
            restricted_join_rule: n >= 8,
            knock_restricted_join_rule: n >= 10,
            limit_notifications_power_levels: n >= 6,
            extra_redaction_checks: n <= 2,
        }
    }
}

} // verus!
