//! Event envelopes: the decoded, versioned form of one domain event. The
//! envelope is a closed tagged union; schema evolution adds new variants and
//! never reshapes an existing one, so readers decode old and new records
//! uniformly by inspecting the tag. Framing envelopes into the byte payloads
//! the store keeps — and decoding them back — belongs to the producing
//! collaborator; the store never looks inside the bytes.

use vstd::prelude::*;

verus! {

/// The first shape of a vote event: who voted, for which date and slot, and
/// how.
#[derive(Debug, Clone)]
pub struct VoteAddedV1 {
    pub participant_email: String,
    /// ISO 8601 date, `YYYY-MM-DD`.
    pub date: String,
    /// A slot label such as `18:00`.
    pub slot: String,
    /// One of `yes`, `no`, `ifneedbe`.
    pub vote: String,
}

/// One versioned domain event.
#[derive(Debug, Clone)]
pub enum Event {
    V1(VoteAddedV1),
}

} // verus!
