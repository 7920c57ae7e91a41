use vstd::prelude::*;

verus! {

/// One line of a ticket's free-form fund breakdown.
#[derive(Debug, Clone)]
pub struct Fund {
    pub reason: String,
    pub amount: i32,
}

/// One rung of a tenant's approval ladder: approvers seated here sign off
/// amounts up to `amount`; `company` scopes the rung to one company, `None`
/// makes it part of the tenant-wide default ladder.
#[derive(Debug, Clone)]
pub struct Approval {
    pub approval_name: String,
    pub amount: i32,
    pub company: Option<String>,
    pub system_id: i32,
    pub id: i32,
}

/// The verdict recorded by one approval decision.
#[derive(Debug, Clone, Copy, PartialEq, Eq, Structural)]
pub enum ApprovalOutcome {
    Approved,
    Rejected,
}

/// An immutable audit row, appended once per approval decision.
#[derive(Debug, Clone, Copy, PartialEq, Eq, Structural)]
pub struct ApprovalWithTicket {
    pub ticket_id: i32,
    pub approval_id: i32,
    pub employee_id: i32,
    pub created_time: i64,
    pub result: ApprovalOutcome,
}

/// A funding/work request.  Its lifecycle state is not stored: it is derived
/// from the optional timestamps (see `state::spec_state_at`).
#[derive(Debug, Clone)]
pub struct Ticket {
    pub id: i32,
    pub creator_id: i32,
    /// The rung whose sign-off the ticket is waiting for; `None` once the
    /// ladder is exhausted (fully approved).
    pub approval_id: Option<i32>,
    pub last_approver_id: Option<i32>,
    pub title: String,
    pub amount: i32,
    pub reason: String,
    pub address: String,
    /// Company scope used to route the approval chain.
    pub company: Option<String>,
    pub funds: Vec<Fund>,
    /// Departments asked to fulfil the ticket once it is open.
    pub department_ids: Vec<i32>,
    pub system_id: i32,
    pub receiver_id: Option<i32>,
    pub created_time: i64,
    pub approved_time: Option<i64>,
    pub received_time: Option<i64>,
    pub finished_time: Option<i64>,
    pub rejected_time: Option<i64>,
}

/// A reference entity: an employee of a tenant.
#[derive(Debug, Clone)]
pub struct Employee {
    pub id: i32,
    pub name: String,
    pub phone: String,
    /// `true` while the employee may take new work.
    pub available: bool,
    /// The single approval rung this employee may sign off at, if any.
    pub approval_id: Option<i32>,
    pub system_id: i32,
    pub company_name: Option<String>,
    pub department_ids: Vec<i32>,
}

/// A department of a tenant.
#[derive(Debug, Clone)]
pub struct Department {
    pub id: i32,
    pub department_name: String,
    pub system_id: i32,
}

/// A per-department headcount requirement of an assist.
#[derive(Debug, Clone, Copy, PartialEq, Eq, Structural)]
pub struct AssistRequirement {
    pub department_id: i32,
    pub total_num: i32,
    pub current_num: i32,
    pub open: bool,
}

/// A sub-request spawned from an already-received ticket, pulling in other
/// departments; it closes independently of the parent ticket.
#[derive(Debug, Clone)]
pub struct Assist {
    pub id: i32,
    pub ticket_id: i32,
    pub submitter_id: i32,
    pub closed: bool,
    pub requirements: Vec<AssistRequirement>,
    pub participant_ids: Vec<i32>,
}

/// The derived lifecycle states.  `Rejected` is a terminal side branch, the
/// others are reached in the order they are listed.
#[derive(Debug, Clone, Copy, PartialEq, Eq, Structural)]
pub enum TicketState {
    Unapproved,
    Approving,
    Open,
    Assigned,
    Closed,
    Rejected,
}

/// Position of a non-rejected state along the lifecycle ordering.
pub open spec fn state_rank(s: TicketState) -> int {
    match s {
        TicketState::Unapproved => 0,
        TicketState::Approving => 1,
        TicketState::Open => 2,
        TicketState::Assigned => 3,
        TicketState::Closed => 4,
        TicketState::Rejected => 5,
    }
}

/// Internal consistency of a ticket's timestamps and references:
/// the chain pointer is cleared exactly when the ticket is fully approved,
/// the timestamps are ordered as the lifecycle reaches them, at most one of
/// the two terminal timestamps is set, and a rejection happens only before
/// full approval.
pub open spec fn ticket_wf(t: Ticket) -> bool {
    &&& (t.approval_id is Some <==> t.approved_time is None)
    &&& (t.approved_time matches Some(a) ==> t.created_time <= a)
    &&& (t.received_time is Some <==> t.receiver_id is Some)
    &&& (t.received_time matches Some(r) ==> t.approved_time is Some && t.approved_time->0 <= r)
    &&& (t.finished_time matches Some(f) ==> t.received_time is Some && t.received_time->0 <= f)
    &&& !(t.finished_time is Some && t.rejected_time is Some)
    &&& (t.rejected_time matches Some(r) ==> t.created_time <= r
        && t.approved_time is None && t.received_time is None)
}

/// Two optional company scopes denote the same scope.
pub open spec fn spec_same_scope(a: Option<String>, b: Option<String>) -> bool {
    match (a, b) {
        (Option::None, Option::None) => true,
        (Option::Some(x), Option::Some(y)) => x@ == y@,
        _ => false,
    }
}

/// Compares two optional company scopes.
pub fn same_scope(a: &Option<String>, b: &Option<String>) -> (r: bool)
    ensures
        r == spec_same_scope(*a, *b),
{
    match (a, b) {
        (Option::None, Option::None) => true,
        (Option::Some(x), Option::Some(y)) => *x == *y,
        _ => false,
    }
}

impl Ticket {
    /// Whether `employee_id` is the ticket's receiver.
    pub fn is_receiver(&self, employee_id: i32) -> (r: bool)
        ensures
            r == (self.receiver_id == Some(employee_id)),
    {
        match self.receiver_id {
            Some(rid) => rid == employee_id,
            None => false,
        }
    }
}

} // verus!
