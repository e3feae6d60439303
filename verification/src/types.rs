//! Request and response record shapes of the service.
//!
//! Timestamps are unix seconds; identities and nicknames are held in the
//! scrub-on-drop wrapper because they may be personally identifying.
use crate::util::Secret;
use vstd::prelude::*;

verus! {

/// The kind of an announced arrival.
#[derive(Clone, Copy, PartialEq, Eq, Structural, Debug)]
pub enum ArrivalType {
    Connecten,
    Fokus,
    Gammeln,
}

/// A stored arrival announcement.
#[derive(Clone, Copy, PartialEq, Eq, Structural, Debug)]
pub struct Arrival {
    pub arrival_type: ArrivalType,
    /// Client-stated arrival time; may lie before or after `edited_at`.
    pub when: i64,
    /// Instant at which the server accepted the most recent write for the
    /// identity; always server-assigned, never client-supplied.
    pub edited_at: i64,
}

/// Body of an arrival announcement request.
pub struct ArrivalRequest {
    pub nickname: Secret,
    pub arrival_type: ArrivalType,
    pub when: i64,
}

/// Every live arrival announcement, keyed by identity.
pub struct ArrivalResponse {
    pub users: Vec<(Secret, Arrival)>,
}

/// Every identity currently announced present, each with the instant of
/// its announcement.
pub struct PresenceResponse {
    pub users: Vec<(Secret, i64)>,
}

/// A plain message payload.
pub struct Response {
    pub message: Secret,
}

/// Body of a presence announcement carrying a client-supplied nickname;
/// used only by deployments that trust the client with its own identity.
pub struct Presence {
    pub nickname: Secret,
}

} // verus!
