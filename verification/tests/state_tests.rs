use ticketcore::entities::{ApprovalOutcome, ApprovalWithTicket, Fund, Ticket, TicketState};
use ticketcore::state::current_state;

fn st_ticket() -> Ticket {
    Ticket {
        id: 1,
        creator_id: 2,
        approval_id: None,
        last_approver_id: Some(3),
        title: "title".to_string(),
        amount: 500,
        reason: "reason".to_string(),
        address: "address".to_string(),
        company: None,
        funds: vec![Fund { reason: "supplies".to_string(), amount: 500 }],
        department_ids: vec![],
        system_id: 1,
        receiver_id: Some(5),
        created_time: 1000,
        approved_time: Some(2000),
        received_time: Some(3000),
        finished_time: Some(4000),
        rejected_time: None,
    }
}

#[test]
fn state_at_walks_the_lifecycle_in_timestamp_order() {
    let t = st_ticket();
    assert_eq!(t.get_state_at_moment(999), None);
    assert_eq!(t.get_state_at_moment(1000), Some(TicketState::Approving));
    assert_eq!(t.get_state_at_moment(1999), Some(TicketState::Approving));
    assert_eq!(t.get_state_at_moment(2000), Some(TicketState::Open));
    assert_eq!(t.get_state_at_moment(2999), Some(TicketState::Open));
    assert_eq!(t.get_state_at_moment(3000), Some(TicketState::Assigned));
    assert_eq!(t.get_state_at_moment(3999), Some(TicketState::Assigned));
    assert_eq!(t.get_state_at_moment(4000), Some(TicketState::Closed));
    assert_eq!(t.get_state_at_moment(9999), Some(TicketState::Closed));
}

#[test]
fn state_at_reports_unapproved_before_full_approval() {
    let mut t = st_ticket();
    t.approved_time = None;
    t.received_time = None;
    t.finished_time = None;
    t.receiver_id = None;
    t.approval_id = Some(11);
    assert_eq!(t.get_state_at_moment(1500), Some(TicketState::Unapproved));
}

#[test]
fn reached_rejection_wins_over_everything() {
    let mut t = st_ticket();
    t.approved_time = None;
    t.received_time = None;
    t.finished_time = None;
    t.receiver_id = None;
    t.approval_id = Some(11);
    t.rejected_time = Some(2500);
    assert_eq!(t.get_state_at_moment(2499), Some(TicketState::Unapproved));
    assert_eq!(t.get_state_at_moment(2500), Some(TicketState::Rejected));
    assert_eq!(t.get_state_at_moment(9999), Some(TicketState::Rejected));
    // Before creation there is no state, even with a rejection recorded later.
    assert_eq!(t.get_state_at_moment(999), None);
}

#[test]
fn current_state_tells_unapproved_from_approving_by_the_audit_log() {
    let mut t = st_ticket();
    t.approved_time = None;
    t.received_time = None;
    t.finished_time = None;
    t.receiver_id = None;
    t.approval_id = Some(12);
    let no_records: Vec<ApprovalWithTicket> = vec![];
    assert_eq!(current_state(&t, &no_records), TicketState::Unapproved);
    let records = vec![ApprovalWithTicket {
        ticket_id: 1,
        approval_id: 11,
        employee_id: 3,
        created_time: 1500,
        result: ApprovalOutcome::Approved,
    }];
    assert_eq!(current_state(&t, &records), TicketState::Approving);
    // A decision on some other ticket does not count.
    let other = vec![ApprovalWithTicket {
        ticket_id: 9,
        approval_id: 11,
        employee_id: 3,
        created_time: 1500,
        result: ApprovalOutcome::Approved,
    }];
    assert_eq!(current_state(&t, &other), TicketState::Unapproved);
}

#[test]
fn current_state_of_a_finished_ticket_is_closed() {
    let t = st_ticket();
    let no_records: Vec<ApprovalWithTicket> = vec![];
    assert_eq!(current_state(&t, &no_records), TicketState::Closed);
}
