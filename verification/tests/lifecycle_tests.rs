use ticketcore::api::{LevelItem, SpecialLevelItem};
use ticketcore::catalog::{build_catalog, ScopePolicy};
use ticketcore::entities::{Approval, ApprovalOutcome, ApprovalWithTicket, Employee, Fund, Ticket};
use ticketcore::errors::AppError;
use ticketcore::lifecycle::{approve, create_ticket, finish, reject, take, FinishPolicy};

fn lc_level(name: &str, money_limit: &str) -> LevelItem {
    LevelItem { key: 0, name: name.to_string(), money_limit: money_limit.to_string() }
}

fn lc_employee(id: i32, system_id: i32, seat: Option<i32>, company: Option<&str>) -> Employee {
    Employee {
        id,
        name: format!("employee {}", id),
        phone: "000".to_string(),
        available: true,
        approval_id: seat,
        system_id,
        company_name: company.map(|c| c.to_string()),
        department_ids: vec![],
    }
}

fn lc_funds(amounts: &[i32]) -> Vec<Fund> {
    amounts.iter().map(|a| Fund { reason: "supplies".to_string(), amount: *a }).collect()
}

fn lc_create(creator: &Employee, amounts: &[i32], levels: &Vec<Approval>, now: i64) -> Ticket {
    create_ticket(
        1,
        creator,
        "title".to_string(),
        "reason".to_string(),
        "address".to_string(),
        lc_funds(amounts),
        vec![],
        levels,
        ScopePolicy::SpecificElseDefault,
        now,
    )
    .unwrap()
}

#[test]
fn single_level_chain_opens_after_one_sign_off() {
    // A $500 ticket against a [$1000 default] ladder needs exactly the one
    // sign-off of a seat-$1000 approver.
    let levels = build_catalog(&vec![lc_level("boss", "1000")], &vec![], 1, 11).unwrap();
    let creator = lc_employee(2, 1, None, None);
    let mut t = lc_create(&creator, &[200, 300], &levels, 1000);
    assert_eq!(t.amount, 500);
    assert_eq!(t.approval_id, Some(11));
    assert_eq!(t.approved_time, None);

    let approver = lc_employee(3, 1, Some(11), None);
    let mut records: Vec<ApprovalWithTicket> = vec![];
    approve(&mut t, &mut records, &approver, &levels, ScopePolicy::SpecificElseDefault, 2000)
        .unwrap();
    assert_eq!(t.approval_id, None);
    assert_eq!(t.approved_time, Some(2000));
    assert_eq!(t.last_approver_id, Some(3));
    assert_eq!(records.len(), 1);
    assert_eq!(records[0].ticket_id, 1);
    assert_eq!(records[0].approval_id, 11);
    assert_eq!(records[0].result, ApprovalOutcome::Approved);
}

#[test]
fn chain_climbs_until_a_rung_covers_the_amount() {
    // A $1500 ticket against [$500, $2000]: the $500 sign-off advances the
    // chain, the $2000 sign-off covers the amount and opens the ticket.
    let levels =
        build_catalog(&vec![lc_level("low", "500"), lc_level("high", "2000")], &vec![], 1, 11)
            .unwrap();
    let creator = lc_employee(2, 1, None, None);
    let mut t = lc_create(&creator, &[1500], &levels, 1000);
    assert_eq!(t.approval_id, Some(11));

    let low = lc_employee(3, 1, Some(11), None);
    let high = lc_employee(4, 1, Some(12), None);
    let mut records: Vec<ApprovalWithTicket> = vec![];
    approve(&mut t, &mut records, &low, &levels, ScopePolicy::SpecificElseDefault, 2000).unwrap();
    assert_eq!(t.approval_id, Some(12));
    assert_eq!(t.approved_time, None);
    approve(&mut t, &mut records, &high, &levels, ScopePolicy::SpecificElseDefault, 3000).unwrap();
    assert_eq!(t.approval_id, None);
    assert_eq!(t.approved_time, Some(3000));
    assert_eq!(records.len(), 2);
}

#[test]
fn company_ticket_routes_to_company_rung() {
    // A $1000 Acme ticket against [$500 default] and [$2000 Acme] must wait
    // at the Acme rung, not the default one.
    let levels = build_catalog(
        &vec![lc_level("low", "500")],
        &vec![SpecialLevelItem {
            key: 0,
            name: "Acme".to_string(),
            special_level: vec![lc_level("acme", "2000")],
        }],
        1,
        11,
    )
    .unwrap();
    let creator = lc_employee(2, 1, None, Some("Acme"));
    let t = lc_create(&creator, &[1000], &levels, 1000);
    assert_eq!(t.approval_id, Some(12));
    assert_eq!(levels[1].company.as_deref(), Some("Acme"));
}

#[test]
fn second_sign_off_by_same_approver_conflicts() {
    let levels =
        build_catalog(&vec![lc_level("low", "500"), lc_level("high", "2000")], &vec![], 1, 11)
            .unwrap();
    let creator = lc_employee(2, 1, None, None);
    let mut t = lc_create(&creator, &[1500], &levels, 1000);
    let low = lc_employee(3, 1, Some(11), None);
    let mut records: Vec<ApprovalWithTicket> = vec![];
    approve(&mut t, &mut records, &low, &levels, ScopePolicy::SpecificElseDefault, 2000).unwrap();
    let again = approve(&mut t, &mut records, &low, &levels, ScopePolicy::SpecificElseDefault, 2500);
    assert_eq!(again, Err(AppError::Conflict));
    assert_eq!(records.len(), 1);
    assert_eq!(t.approval_id, Some(12));
}

#[test]
fn sign_off_on_open_ticket_conflicts() {
    let levels = build_catalog(&vec![lc_level("boss", "1000")], &vec![], 1, 11).unwrap();
    let creator = lc_employee(2, 1, None, None);
    let mut t = lc_create(&creator, &[500], &levels, 1000);
    let approver = lc_employee(3, 1, Some(11), None);
    let mut records: Vec<ApprovalWithTicket> = vec![];
    approve(&mut t, &mut records, &approver, &levels, ScopePolicy::SpecificElseDefault, 2000)
        .unwrap();
    let again =
        approve(&mut t, &mut records, &approver, &levels, ScopePolicy::SpecificElseDefault, 3000);
    assert_eq!(again, Err(AppError::Conflict));
}

#[test]
fn sign_off_without_a_seat_or_from_another_tenant_is_not_authorized() {
    let levels = build_catalog(&vec![lc_level("boss", "1000")], &vec![], 1, 11).unwrap();
    let creator = lc_employee(2, 1, None, None);
    let mut t = lc_create(&creator, &[500], &levels, 1000);
    let mut records: Vec<ApprovalWithTicket> = vec![];
    let seatless = lc_employee(3, 1, None, None);
    assert_eq!(
        approve(&mut t, &mut records, &seatless, &levels, ScopePolicy::SpecificElseDefault, 2000),
        Err(AppError::Authorization)
    );
    let stranger = lc_employee(4, 9, Some(11), None);
    assert_eq!(
        approve(&mut t, &mut records, &stranger, &levels, ScopePolicy::SpecificElseDefault, 2000),
        Err(AppError::Authorization)
    );
    assert!(records.is_empty());
    assert_eq!(t.approved_time, None);
}

#[test]
fn sign_off_at_dangling_rung_is_not_found() {
    let levels = build_catalog(&vec![lc_level("boss", "1000")], &vec![], 1, 11).unwrap();
    let creator = lc_employee(2, 1, None, None);
    let mut t = lc_create(&creator, &[500], &levels, 1000);
    t.approval_id = Some(99);
    let approver = lc_employee(3, 1, Some(99), None);
    let mut records: Vec<ApprovalWithTicket> = vec![];
    assert_eq!(
        approve(&mut t, &mut records, &approver, &levels, ScopePolicy::SpecificElseDefault, 2000),
        Err(AppError::NotFound)
    );
}

#[test]
fn create_rejects_negative_fund_lines() {
    let levels = build_catalog(&vec![lc_level("boss", "1000")], &vec![], 1, 11).unwrap();
    let creator = lc_employee(2, 1, None, None);
    let r = create_ticket(
        1,
        &creator,
        "title".to_string(),
        "reason".to_string(),
        "address".to_string(),
        lc_funds(&[100, -1]),
        vec![],
        &levels,
        ScopePolicy::SpecificElseDefault,
        1000,
    );
    assert_eq!(r.err(), Some(AppError::Validation));
}

#[test]
fn create_rejects_fund_sums_out_of_range() {
    let levels = build_catalog(&vec![lc_level("boss", "1000")], &vec![], 1, 11).unwrap();
    let creator = lc_employee(2, 1, None, None);
    let r = create_ticket(
        1,
        &creator,
        "title".to_string(),
        "reason".to_string(),
        "address".to_string(),
        lc_funds(&[2147483647, 1]),
        vec![],
        &levels,
        ScopePolicy::SpecificElseDefault,
        1000,
    );
    assert_eq!(r.err(), Some(AppError::Validation));
}

#[test]
fn create_on_empty_effective_ladder_opens_at_once() {
    // No rung lies strictly above zero, so the chain is exhausted at birth.
    let levels = vec![Approval {
        approval_name: "zero".to_string(),
        amount: 0,
        company: None,
        system_id: 1,
        id: 11,
    }];
    let creator = lc_employee(2, 1, None, None);
    let t = lc_create(&creator, &[100], &levels, 1000);
    assert_eq!(t.approval_id, None);
    assert_eq!(t.approved_time, Some(1000));
}

#[test]
fn rejection_is_terminal() {
    let levels = build_catalog(&vec![lc_level("boss", "1000")], &vec![], 1, 11).unwrap();
    let creator = lc_employee(2, 1, None, None);
    let mut t = lc_create(&creator, &[500], &levels, 1000);
    let approver = lc_employee(3, 1, Some(11), None);
    let mut records: Vec<ApprovalWithTicket> = vec![];
    reject(&mut t, &mut records, &approver, 2000).unwrap();
    assert_eq!(t.rejected_time, Some(2000));
    assert_eq!(records.len(), 1);
    assert_eq!(records[0].result, ApprovalOutcome::Rejected);
    assert_eq!(
        approve(&mut t, &mut records, &approver, &levels, ScopePolicy::SpecificElseDefault, 3000),
        Err(AppError::Conflict)
    );
    assert_eq!(reject(&mut t, &mut records, &approver, 3000), Err(AppError::Conflict));
}

#[test]
fn reject_without_a_seat_is_not_authorized() {
    let levels = build_catalog(&vec![lc_level("boss", "1000")], &vec![], 1, 11).unwrap();
    let creator = lc_employee(2, 1, None, None);
    let mut t = lc_create(&creator, &[500], &levels, 1000);
    let seatless = lc_employee(3, 1, None, None);
    let mut records: Vec<ApprovalWithTicket> = vec![];
    assert_eq!(reject(&mut t, &mut records, &seatless, 2000), Err(AppError::Authorization));
}

#[test]
fn exactly_one_taker_wins_an_open_ticket() {
    let levels = build_catalog(&vec![lc_level("boss", "1000")], &vec![], 1, 11).unwrap();
    let creator = lc_employee(2, 1, None, None);
    let mut t = lc_create(&creator, &[500], &levels, 1000);
    let approver = lc_employee(3, 1, Some(11), None);
    let mut records: Vec<ApprovalWithTicket> = vec![];
    approve(&mut t, &mut records, &approver, &levels, ScopePolicy::SpecificElseDefault, 2000)
        .unwrap();

    let mut worker1 = lc_employee(5, 1, None, None);
    let mut worker2 = lc_employee(6, 1, None, None);
    take(&mut t, &mut worker1, 3000).unwrap();
    assert_eq!(t.receiver_id, Some(5));
    assert_eq!(t.received_time, Some(3000));
    assert!(!worker1.available);
    assert_eq!(take(&mut t, &mut worker2, 3001), Err(AppError::Conflict));
    assert_eq!(t.receiver_id, Some(5));
    assert!(worker2.available);
}

#[test]
fn take_before_full_approval_conflicts() {
    let levels = build_catalog(&vec![lc_level("boss", "1000")], &vec![], 1, 11).unwrap();
    let creator = lc_employee(2, 1, None, None);
    let mut t = lc_create(&creator, &[500], &levels, 1000);
    let mut worker = lc_employee(5, 1, None, None);
    assert_eq!(take(&mut t, &mut worker, 3000), Err(AppError::Conflict));
}

#[test]
fn finish_closes_an_assigned_ticket() {
    let levels = build_catalog(&vec![lc_level("boss", "1000")], &vec![], 1, 11).unwrap();
    let creator = lc_employee(2, 1, None, None);
    let mut t = lc_create(&creator, &[500], &levels, 1000);
    let approver = lc_employee(3, 1, Some(11), None);
    let mut records: Vec<ApprovalWithTicket> = vec![];
    approve(&mut t, &mut records, &approver, &levels, ScopePolicy::SpecificElseDefault, 2000)
        .unwrap();
    let mut worker = lc_employee(5, 1, None, None);
    take(&mut t, &mut worker, 3000).unwrap();
    finish(&mut t, &mut worker, &vec![], FinishPolicy::Unconditional, 4000).unwrap();
    assert_eq!(t.finished_time, Some(4000));
    assert!(worker.available);
    assert_eq!(
        finish(&mut t, &mut worker, &vec![], FinishPolicy::Unconditional, 5000),
        Err(AppError::Conflict)
    );
}

#[test]
fn finish_unassigned_ticket_conflicts() {
    let levels = build_catalog(&vec![lc_level("boss", "1000")], &vec![], 1, 11).unwrap();
    let creator = lc_employee(2, 1, None, None);
    let mut t = lc_create(&creator, &[500], &levels, 1000);
    let mut worker = lc_employee(5, 1, None, None);
    assert_eq!(
        finish(&mut t, &mut worker, &vec![], FinishPolicy::Unconditional, 4000),
        Err(AppError::Conflict)
    );
}

#[test]
fn sign_off_on_corrupt_row_is_an_internal_error() {
    // A row with neither a chain pointer nor an approval instant breaks the
    // store's invariant; the core refuses it as an internal fault.
    let levels = build_catalog(&vec![lc_level("boss", "1000")], &vec![], 1, 11).unwrap();
    let creator = lc_employee(2, 1, None, None);
    let mut t = lc_create(&creator, &[500], &levels, 1000);
    t.approval_id = None;
    let approver = lc_employee(3, 1, Some(11), None);
    let mut records: Vec<ApprovalWithTicket> = vec![];
    assert_eq!(
        approve(&mut t, &mut records, &approver, &levels, ScopePolicy::SpecificElseDefault, 2000),
        Err(AppError::Internal)
    );
}
