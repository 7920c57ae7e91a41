use ticketcore::assist::{create_assist, current_work, join_assist, CurrentWork};
use ticketcore::entities::{Assist, AssistRequirement, Employee, Fund, Ticket};
use ticketcore::errors::AppError;

fn as_ticket(id: i32, receiver: Option<i32>) -> Ticket {
    Ticket {
        id,
        creator_id: 2,
        approval_id: None,
        last_approver_id: Some(3),
        title: "title".to_string(),
        amount: 500,
        reason: "reason".to_string(),
        address: "address".to_string(),
        company: None,
        funds: vec![Fund { reason: "supplies".to_string(), amount: 500 }],
        department_ids: vec![],
        system_id: 1,
        receiver_id: receiver,
        created_time: 1000,
        approved_time: Some(2000),
        received_time: receiver.map(|_| 3000),
        finished_time: None,
        rejected_time: None,
    }
}

fn as_employee(id: i32, departments: Vec<i32>) -> Employee {
    Employee {
        id,
        name: format!("employee {}", id),
        phone: "000".to_string(),
        available: true,
        approval_id: None,
        system_id: 1,
        company_name: None,
        department_ids: departments,
    }
}

#[test]
fn only_the_receiver_may_open_an_assist() {
    let ticket = as_ticket(1, Some(5));
    let receiver = as_employee(5, vec![]);
    let stranger = as_employee(6, vec![]);
    assert_eq!(
        create_assist(10, &ticket, &stranger, vec![(100, 2)]).err(),
        Some(AppError::Authorization)
    );
    let unassigned = as_ticket(2, None);
    assert_eq!(
        create_assist(10, &unassigned, &receiver, vec![(100, 2)]).err(),
        Some(AppError::Authorization)
    );
    let a = create_assist(10, &ticket, &receiver, vec![(100, 2), (200, 1)]).unwrap();
    assert_eq!(a.id, 10);
    assert_eq!(a.ticket_id, 1);
    assert_eq!(a.submitter_id, 5);
    assert!(!a.closed);
    assert!(a.participant_ids.is_empty());
    assert_eq!(a.requirements.len(), 2);
    assert_eq!(a.requirements[0].department_id, 100);
    assert_eq!(a.requirements[0].total_num, 2);
    assert_eq!(a.requirements[0].current_num, 0);
    assert!(a.requirements[0].open);
}

#[test]
fn negative_headcount_is_rejected() {
    let ticket = as_ticket(1, Some(5));
    let receiver = as_employee(5, vec![]);
    assert_eq!(
        create_assist(10, &ticket, &receiver, vec![(100, -1)]).err(),
        Some(AppError::Validation)
    );
}

#[test]
fn joining_counts_heads_per_matching_department() {
    let ticket = as_ticket(1, Some(5));
    let receiver = as_employee(5, vec![]);
    let mut assist = create_assist(10, &ticket, &receiver, vec![(100, 1), (200, 2)]).unwrap();
    let mut joiner = as_employee(7, vec![100, 300]);
    join_assist(&mut assist, &ticket, &mut joiner).unwrap();
    assert_eq!(assist.requirements[0].current_num, 1);
    assert_eq!(assist.requirements[1].current_num, 0);
    assert_eq!(assist.participant_ids, vec![7]);
    assert!(!joiner.available);
}

#[test]
fn joining_saturates_at_the_requested_total() {
    let ticket = as_ticket(1, Some(5));
    let receiver = as_employee(5, vec![]);
    let mut assist = create_assist(10, &ticket, &receiver, vec![(100, 1)]).unwrap();
    let mut first = as_employee(7, vec![100]);
    let mut second = as_employee(8, vec![100]);
    join_assist(&mut assist, &ticket, &mut first).unwrap();
    join_assist(&mut assist, &ticket, &mut second).unwrap();
    assert_eq!(assist.requirements[0].current_num, 1);
    assert_eq!(assist.participant_ids, vec![7, 8]);
}

#[test]
fn joining_a_closed_assist_or_foreign_ticket_conflicts() {
    let ticket = as_ticket(1, Some(5));
    let receiver = as_employee(5, vec![]);
    let mut assist = create_assist(10, &ticket, &receiver, vec![(100, 1)]).unwrap();
    let mut joiner = as_employee(7, vec![100]);
    let other = as_ticket(2, Some(5));
    assert_eq!(join_assist(&mut assist, &other, &mut joiner), Err(AppError::Conflict));
    assist.closed = true;
    assert_eq!(join_assist(&mut assist, &ticket, &mut joiner), Err(AppError::Conflict));
    assert!(assist.participant_ids.is_empty());
    assert!(joiner.available);
}

#[test]
fn current_work_prefers_the_received_ticket() {
    let tickets = vec![as_ticket(1, Some(5))];
    let assists = vec![Assist {
        id: 10,
        ticket_id: 1,
        submitter_id: 5,
        closed: false,
        requirements: vec![],
        participant_ids: vec![5],
    }];
    assert_eq!(current_work(&tickets, &assists, 5), Ok(CurrentWork::MainTicket(0)));
}

#[test]
fn current_work_falls_back_to_the_one_joined_assist() {
    let tickets = vec![as_ticket(1, Some(5))];
    let assists = vec![Assist {
        id: 10,
        ticket_id: 1,
        submitter_id: 5,
        closed: false,
        requirements: vec![AssistRequirement {
            department_id: 100,
            total_num: 1,
            current_num: 1,
            open: true,
        }],
        participant_ids: vec![7],
    }];
    assert_eq!(current_work(&tickets, &assists, 7), Ok(CurrentWork::AssistWork(0)));
}

#[test]
fn current_work_reports_no_work_and_double_booking() {
    let tickets: Vec<Ticket> = vec![];
    let one = Assist {
        id: 10,
        ticket_id: 1,
        submitter_id: 5,
        closed: false,
        requirements: vec![],
        participant_ids: vec![7],
    };
    let mut two = one.clone();
    two.id = 11;
    assert_eq!(current_work(&tickets, &vec![], 7), Err(AppError::NotFound));
    assert_eq!(current_work(&tickets, &vec![one.clone()], 9), Err(AppError::NotFound));
    assert_eq!(current_work(&tickets, &vec![one, two], 7), Err(AppError::Conflict));
}
