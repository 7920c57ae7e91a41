use vstd::prelude::*;

use crate::entities::{ApprovalOutcome, ApprovalWithTicket, Ticket, TicketState};

verus! {

/// The lifecycle state of `t` at instant `ts`, evaluated over the recorded
/// timestamps in fixed priority order: a reached rejection wins; an instant
/// before creation has no state; then each later timestamp, when reached,
/// moves the state one step further along
/// `Unapproved -> Approving -> Open -> Assigned -> Closed`.
/// An instant before full approval is reported as `Unapproved` when the
/// ticket never completed its chain, and as `Approving` when `approved_time`
/// is set but not yet reached.
pub open spec fn spec_state_at(t: Ticket, ts: i64) -> Option<TicketState> {
    if t.rejected_time matches Some(r) && ts >= r {
        Some(TicketState::Rejected)
    } else if ts < t.created_time {
        None
    } else if t.approved_time is None {
        Some(TicketState::Unapproved)
    } else if ts < t.approved_time->0 {
        Some(TicketState::Approving)
    } else if t.received_time is None || ts < t.received_time->0 {
        Some(TicketState::Open)
    } else if t.finished_time is None || ts < t.finished_time->0 {
        Some(TicketState::Assigned)
    } else {
        Some(TicketState::Closed)
    }
}

impl Ticket {
    /// Point-in-time state reconstruction, used by reporting.
    pub fn get_state_at_moment(&self, timestamp: i64) -> (r: Option<TicketState>)
        ensures
            r == spec_state_at(*self, timestamp),
    {
        if let Some(rejected_time) = self.rejected_time {
            if timestamp >= rejected_time {
                return Some(TicketState::Rejected);
            }
        }
        if timestamp < self.created_time {
            None
        } else if let Some(approved_time) = self.approved_time {
            if timestamp < approved_time {
                Some(TicketState::Approving)
            } else if let Some(received_time) = self.received_time {
                if timestamp < received_time {
                    Some(TicketState::Open)
                } else if let Some(finished_time) = self.finished_time {
                    if timestamp < finished_time {
                        Some(TicketState::Assigned)
                    } else {
                        Some(TicketState::Closed)
                    }
                } else {
                    Some(TicketState::Assigned)
                }
            } else {
                Some(TicketState::Open)
            }
        } else {
            Some(TicketState::Unapproved)
        }
    }
}

/// Whether some record in `records` is an approval of ticket `ticket_id`.
pub open spec fn spec_has_approved_record(records: Seq<ApprovalWithTicket>, ticket_id: i32) -> bool {
    exists|i: int|
        0 <= i < records.len() && records[i].ticket_id == ticket_id
            && records[i].result == ApprovalOutcome::Approved
}

/// The state a ticket shows right now, at an instant at or past every
/// timestamp recorded on it.  This refines `spec_state_at` in one point:
/// a ticket still waiting for sign-offs is `Approving` once any approval
/// record exists for it, and `Unapproved` before the first one.
pub open spec fn spec_current_state(t: Ticket, records: Seq<ApprovalWithTicket>) -> TicketState {
    if t.rejected_time is Some {
        TicketState::Rejected
    } else if t.finished_time is Some {
        TicketState::Closed
    } else if t.received_time is Some {
        TicketState::Assigned
    } else if t.approved_time is Some {
        TicketState::Open
    } else if spec_has_approved_record(records, t.id) {
        TicketState::Approving
    } else {
        TicketState::Unapproved
    }
}

/// Computes `spec_current_state`.
pub fn current_state(t: &Ticket, records: &Vec<ApprovalWithTicket>) -> (r: TicketState)
    ensures
        r == spec_current_state(*t, records@),
{
    if t.rejected_time.is_some() {
        TicketState::Rejected
    } else if t.finished_time.is_some() {
        TicketState::Closed
    } else if t.received_time.is_some() {
        TicketState::Assigned
    } else if t.approved_time.is_some() {
        TicketState::Open
    } else {
        let mut i: usize = 0;
        while i < records.len()
            invariant
                i <= records@.len(),
                t.rejected_time is None,
                t.finished_time is None,
                t.received_time is None,
                t.approved_time is None,
                forall|j: int|
                    0 <= j < i ==> !(records@[j].ticket_id == t.id && records@[j].result
                        == ApprovalOutcome::Approved),
            decreases records@.len() - i,
        {
            if records[i].ticket_id == t.id && matches!(records[i].result, ApprovalOutcome::Approved) {
                assert(spec_has_approved_record(records@, t.id));
                return TicketState::Approving;
            }
            i = i + 1;
        }
        TicketState::Unapproved
    }
}

/// As the observation instant grows, the derived state never moves backwards:
/// a rejected ticket stays rejected, and between two non-rejected states the
/// lifecycle ordering `Unapproved < Approving < Open < Assigned < Closed` is
/// respected.  The rejected branch is entered only from `Unapproved` or
/// `Approving`: whatever state precedes a rejection ranks below `Open`.
pub proof fn lemma_state_monotonic(t: Ticket, t1: i64, t2: i64)
    requires
        crate::entities::ticket_wf(t),
        t1 <= t2,
        spec_state_at(t, t1) is Some,
        spec_state_at(t, t2) is Some,
    ensures
        spec_state_at(t, t1) == Some(TicketState::Rejected) ==> spec_state_at(t, t2) == Some(
            TicketState::Rejected,
        ),
        spec_state_at(t, t2) == Some(TicketState::Rejected) ==> crate::entities::state_rank(
            spec_state_at(t, t1)->0,
        ) < 2 || spec_state_at(t, t1) == Some(TicketState::Rejected),
        (spec_state_at(t, t1) != Some(TicketState::Rejected) && spec_state_at(t, t2) != Some(
            TicketState::Rejected,
        )) ==> crate::entities::state_rank(spec_state_at(t, t1)->0) <= crate::entities::state_rank(
            spec_state_at(t, t2)->0,
        ),
{
}

} // verus!
