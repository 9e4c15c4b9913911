//! The tracker-agnostic ticket model that every later stage consumes.

use vstd::prelude::*;

use crate::extra_fields::DocTextStatus;

verus! {

/// The issue trackers that tickets come from.
#[derive(Clone, Copy, Debug, PartialEq, Eq, Structural)]
pub enum Tracker {
    Bugzilla,
    Jira,
}

/// The short name of a tracker, as it appears in anchors.
pub open spec fn tracker_short_name(tracker: Tracker) -> Seq<char> {
    match tracker {
        Tracker::Bugzilla => "BZ"@,
        Tracker::Jira => "Jira"@,
    }
}

impl Tracker {
    /// The short name of the tracker.
    pub fn short_name(&self) -> (r: &'static str)
        ensures
            r@ == tracker_short_name(*self),
    {
        match self {
            Tracker::Bugzilla => "BZ",
            Tracker::Jira => "Jira",
        }
    }
}

/// Identifies one ticket: its tracker and its key there.
#[derive(Clone, Debug)]
pub struct TicketId {
    pub tracker: Tracker,
    pub key: String,
}

/// A ticket in the canonical form, whichever tracker it came from.
#[derive(Clone, Debug)]
pub struct AbstractTicket {
    pub id: TicketId,
    /// Whether the ticket is visible from outside, so that a link to it may be shown.
    pub public: bool,
    pub url: String,
    pub summary: String,
    pub doc_type: Option<String>,
    /// The release note text, possibly with carriage returns.
    pub doc_text: String,
    pub doc_text_status: DocTextStatus,
    /// The docs contact, or empty where the ticket names none.
    pub docs_contact: String,
    pub target_release: Option<String>,
    pub subsystems: Vec<String>,
    pub components: Vec<String>,
    /// Signatures of the tickets that this one refers to.
    pub references: Vec<String>,
}

} // verus!
