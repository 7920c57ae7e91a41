use vstd::prelude::*;

use crate::catalog::{ScopePolicy, spec_next_level, next_level, level_by_id, level_matches,
    spec_ids_distinct};
use crate::entities::{Approval, ApprovalOutcome, ApprovalWithTicket, Assist, Employee, Fund,
    Ticket, ticket_wf};
use crate::errors::AppError;

verus! {

// ---------------------------------------------------------------------------
// Creation
// ---------------------------------------------------------------------------

/// The sum of a fund breakdown.
pub open spec fn spec_funds_total(funds: Seq<Fund>) -> int
    decreases funds.len(),
{
    if funds.len() == 0 {
        0
    } else {
        spec_funds_total(funds.drop_last()) + funds.last().amount
    }
}

/// Whether every fund line carries a non-negative amount.
pub open spec fn spec_funds_nonneg(funds: Seq<Fund>) -> bool {
    forall|i: int| 0 <= i < funds.len() ==> (#[trigger] funds[i]).amount >= 0
}

/// A fund breakdown is acceptable when no line is negative and the sum fits
/// the ticket's amount field.
pub open spec fn spec_funds_ok(funds: Seq<Fund>) -> bool {
    spec_funds_nonneg(funds) && spec_funds_total(funds) <= i32::MAX
}

proof fn lemma_funds_total_nonneg(funds: Seq<Fund>)
    requires
        spec_funds_nonneg(funds),
    ensures
        spec_funds_total(funds) >= 0,
    decreases funds.len(),
{
    if funds.len() > 0 {
        assert(spec_funds_nonneg(funds.drop_last()));
        lemma_funds_total_nonneg(funds.drop_last());
    }
}

proof fn lemma_funds_total_prefix(funds: Seq<Fund>, n: int)
    requires
        spec_funds_nonneg(funds),
        0 <= n <= funds.len(),
    ensures
        spec_funds_total(funds.take(n)) <= spec_funds_total(funds),
    decreases funds.len() - n,
{
    if n == funds.len() {
        assert(funds.take(n) =~= funds);
    } else {
        lemma_funds_total_prefix(funds, n + 1);
        let t = funds.take(n + 1);
        assert(t.drop_last() =~= funds.take(n));
        assert(spec_funds_nonneg(funds.take(n)));
        lemma_funds_total_nonneg(funds.take(n));
    }
}

/// The ticket a creation request denotes: timestamps fresh, the first rung
/// resolved from threshold zero, and — when no rung exists at all — already
/// fully approved at its own creation instant.
pub open spec fn spec_created_ticket(
    id: i32,
    creator: Employee,
    title: String,
    reason: String,
    address: String,
    funds: Seq<Fund>,
    funds_v: Vec<Fund>,
    department_ids: Vec<i32>,
    levels: Seq<Approval>,
    policy: ScopePolicy,
    now: i64,
) -> Ticket {
    let first = spec_next_level(levels, creator.system_id, creator.company_name, 0, policy);
    Ticket {
        id,
        creator_id: creator.id,
        approval_id: match first {
            Some(n) => Some(levels[n].id),
            None => None,
        },
        last_approver_id: None,
        title,
        amount: spec_funds_total(funds) as i32,
        reason,
        address,
        company: creator.company_name,
        funds: funds_v,
        department_ids,
        system_id: creator.system_id,
        receiver_id: None,
        created_time: now,
        approved_time: match first {
            Some(_) => None,
            None => Some(now),
        },
        received_time: None,
        finished_time: None,
        rejected_time: None,
    }
}

/// Builds a fresh ticket: validates the fund breakdown (no negative line,
/// sum within range — rejected before any effect), records the creation
/// instant, and resolves the first approval rung above threshold zero.  A
/// ticket whose amount is at or below the lowest rung still gets that rung:
/// there is no auto-approval below the minimum.  Only when the effective
/// ladder is empty is the ticket fully approved at creation.
pub fn create_ticket(
    id: i32,
    creator: &Employee,
    title: String,
    reason: String,
    address: String,
    funds: Vec<Fund>,
    department_ids: Vec<i32>,
    levels: &Vec<Approval>,
    policy: ScopePolicy,
    now: i64,
) -> (r: Result<Ticket, AppError>)
    ensures
        r is Ok <==> spec_funds_ok(funds@),
        r is Err ==> r == Err::<Ticket, AppError>(AppError::Validation),
        r matches Ok(t) ==> t == spec_created_ticket(
            id,
            *creator,
            title,
            reason,
            address,
            funds@,
            funds,
            department_ids,
            levels@,
            policy,
            now,
        ) && ticket_wf(t),
{
    let mut sum: i64 = 0;
    let mut i: usize = 0;
    while i < funds.len()
        invariant
            0 <= i <= funds@.len(),
            forall|j: int| 0 <= j < i ==> (#[trigger] funds@[j]).amount >= 0,
            sum == spec_funds_total(funds@.take(i as int)),
            0 <= sum <= i32::MAX,
        decreases funds@.len() - i,
    {
        if funds[i].amount < 0 {
            return Err(AppError::Validation);
        }
        proof {
            assert(funds@.take(i + 1).drop_last() =~= funds@.take(i as int));
        }
        sum = sum + funds[i].amount as i64;
        i = i + 1;
        if sum > i32::MAX as i64 {
            proof {
                if spec_funds_nonneg(funds@) {
                    lemma_funds_total_prefix(funds@, i as int);
                }
            }
            return Err(AppError::Validation);
        }
    }
    proof {
        assert(funds@.take(funds@.len() as int) =~= funds@);
    }
    let amount: i32 = sum as i32;
    let first = next_level(levels, creator.system_id, &creator.company_name, 0, policy);
    let (approval_id, approved_time): (Option<i32>, Option<i64>) = match first {
        Some(n) => (Some(levels[n].id), None),
        None => (None, Some(now)),
    };
    Ok(
        Ticket {
            id,
            creator_id: creator.id,
            approval_id,
            last_approver_id: None,
            title,
            amount,
            reason,
            address,
            company: clone_scope(&creator.company_name),
            funds,
            department_ids,
            system_id: creator.system_id,
            receiver_id: None,
            created_time: now,
            approved_time,
            received_time: None,
            finished_time: None,
            rejected_time: None,
        },
    )
}

/// Copies an optional company scope.
fn clone_scope(c: &Option<String>) -> (r: Option<String>)
    ensures
        r == *c,
{
    match c {
        Some(s) => Some(s.clone()),
        None => None,
    }
}

// ---------------------------------------------------------------------------
// Approval progression
// ---------------------------------------------------------------------------

/// The first position in `levels` holding id `id`.
pub open spec fn spec_level_idx(levels: Seq<Approval>, id: i32) -> Option<int>
    decreases levels.len(),
{
    if levels.len() == 0 {
        None
    } else if levels[0].id == id {
        Some(0)
    } else {
        match spec_level_idx(levels.drop_first(), id) {
            Some(i) => Some(i + 1),
            None => None,
        }
    }
}

/// What `spec_level_idx` returns: the first position holding `id`, or `None`
/// exactly when no position holds it.
pub proof fn lemma_level_idx_props(levels: Seq<Approval>, id: i32)
    ensures
        spec_level_idx(levels, id) matches Some(i) ==> 0 <= i < levels.len() && levels[i].id == id
            && forall|j: int| 0 <= j < i ==> (#[trigger] levels[j]).id != id,
        spec_level_idx(levels, id) is None ==> forall|j: int|
            0 <= j < levels.len() ==> (#[trigger] levels[j]).id != id,
    decreases levels.len(),
{
    if levels.len() > 0 && levels[0].id != id {
        let rest = levels.drop_first();
        lemma_level_idx_props(rest, id);
        assert(forall|j: int| 0 <= j < rest.len() ==> rest[j] == levels[j + 1]);
        match spec_level_idx(rest, id) {
            Some(i0) => {
                assert(spec_level_idx(levels, id) == Some(i0 + 1));
                assert(levels[i0 + 1].id == id);
                assert forall|j: int| 0 <= j < i0 + 1 implies (#[trigger] levels[j]).id != id by {
                    if j > 0 {
                        assert(rest[j - 1].id != id);
                    }
                }
            },
            None => {
                assert forall|j: int|
                    0 <= j < levels.len() implies (#[trigger] levels[j]).id != id by {
                    if j > 0 {
                        assert(rest[j - 1].id != id);
                    }
                }
            },
        }
    }
}

/// Whether `records` holds an approval of ticket `tid` made at rung `lid`.
pub open spec fn spec_has_approved_at(
    records: Seq<ApprovalWithTicket>,
    tid: i32,
    lid: i32,
) -> bool {
    exists|i: int|
        0 <= i < records.len() && (#[trigger] records[i]).ticket_id == tid
            && records[i].approval_id == lid && records[i].result == ApprovalOutcome::Approved
}

/// The outcome of one approval sign-off.  In order: a ticket already
/// terminal or already fully approved conflicts; an approver of another
/// tenant, or without a seat, is not authorized; a seat that is not the
/// ticket's current rung conflicts when that rung was already passed (the
/// audit log shows an approval there) and is otherwise not authorized; a
/// current rung missing from the catalog is a dangling reference.  At the
/// matching rung the decision is recorded and the chain advances: it ends —
/// full approval at `now`, the rung pointer cleared — when the rung's
/// threshold covers the ticket's amount or no higher rung exists, and
/// otherwise moves to the next rung above the current threshold.
pub open spec fn spec_approve(
    t: Ticket,
    records: Seq<ApprovalWithTicket>,
    approver: Employee,
    levels: Seq<Approval>,
    policy: ScopePolicy,
    now: i64,
) -> Result<(Ticket, ApprovalWithTicket), AppError> {
    if t.rejected_time is Some || t.finished_time is Some || t.approved_time is Some {
        Err(AppError::Conflict)
    } else if approver.system_id != t.system_id {
        Err(AppError::Authorization)
    } else if approver.approval_id is None {
        Err(AppError::Authorization)
    } else if t.approval_id is None {
        Err(AppError::Internal)
    } else if approver.approval_id->0 != t.approval_id->0 {
        if spec_has_approved_at(records, t.id, approver.approval_id->0) {
            Err(AppError::Conflict)
        } else {
            Err(AppError::Authorization)
        }
    } else {
        match spec_level_idx(levels, t.approval_id->0) {
            None => Err(AppError::NotFound),
            Some(li) => {
                let thr = levels[li].amount;
                let rec = ApprovalWithTicket {
                    ticket_id: t.id,
                    approval_id: t.approval_id->0,
                    employee_id: approver.id,
                    created_time: now,
                    result: ApprovalOutcome::Approved,
                };
                if t.amount <= thr {
                    Ok((spec_opened(t, approver.id, now), rec))
                } else {
                    match spec_next_level(levels, t.system_id, t.company, thr, policy) {
                        Some(n) => Ok(
                            (
                                Ticket {
                                    approval_id: Some(levels[n].id),
                                    last_approver_id: Some(approver.id),
                                    ..t
                                },
                                rec,
                            ),
                        ),
                        None => Ok((spec_opened(t, approver.id, now), rec)),
                    }
                }
            },
        }
    }
}

/// `t` with its chain completed at `now` by `approver_id`: fully approved,
/// rung pointer cleared, open for a receiver.
pub open spec fn spec_opened(t: Ticket, approver_id: i32, now: i64) -> Ticket {
    Ticket {
        approval_id: None,
        approved_time: Some(now),
        last_approver_id: Some(approver_id),
        ..t
    }
}

/// Applies one approval sign-off to the ticket, appending the audit record
/// on success; on failure nothing changes.
pub fn approve(
    t: &mut Ticket,
    records: &mut Vec<ApprovalWithTicket>,
    approver: &Employee,
    levels: &Vec<Approval>,
    policy: ScopePolicy,
    now: i64,
) -> (r: Result<(), AppError>)
    ensures
        spec_approve(*old(t), old(records)@, *approver, levels@, policy, now) matches Ok(p) ==> (r
            is Ok && *final(t) == p.0 && final(records)@ == old(records)@.push(p.1)),
        spec_approve(*old(t), old(records)@, *approver, levels@, policy, now) matches Err(e) ==> (r
            == Err::<(), AppError>(e) && *final(t) == *old(t) && final(records)@ == old(records)@),
{
    if t.rejected_time.is_some() || t.finished_time.is_some() || t.approved_time.is_some() {
        return Err(AppError::Conflict);
    }
    if approver.system_id != t.system_id {
        return Err(AppError::Authorization);
    }
    let seat = match approver.approval_id {
        None => {
            return Err(AppError::Authorization);
        },
        Some(s) => s,
    };
    let cur = match t.approval_id {
        None => {
            return Err(AppError::Internal);
        },
        Some(c) => c,
    };
    if seat != cur {
        if has_approved_at(records, t.id, seat) {
            return Err(AppError::Conflict);
        } else {
            return Err(AppError::Authorization);
        }
    }
    proof {
        lemma_level_idx_props(levels@, cur);
    }
    let li = match level_by_id(levels, cur) {
        None => {
            return Err(AppError::NotFound);
        },
        Some(li) => li,
    };
    let thr = levels[li].amount;
    let rec = ApprovalWithTicket {
        ticket_id: t.id,
        approval_id: cur,
        employee_id: approver.id,
        created_time: now,
        result: ApprovalOutcome::Approved,
    };
    records.push(rec);
    if t.amount <= thr {
        t.approval_id = None;
        t.approved_time = Some(now);
        t.last_approver_id = Some(approver.id);
        return Ok(());
    }
    match next_level(levels, t.system_id, &t.company, thr, policy) {
        Some(n) => {
            t.approval_id = Some(levels[n].id);
            t.last_approver_id = Some(approver.id);
        },
        None => {
            t.approval_id = None;
            t.approved_time = Some(now);
            t.last_approver_id = Some(approver.id);
        },
    }
    Ok(())
}

/// Whether `records` holds an approval of ticket `tid` made at rung `lid`.
fn has_approved_at(records: &Vec<ApprovalWithTicket>, tid: i32, lid: i32) -> (r: bool)
    ensures
        r == spec_has_approved_at(records@, tid, lid),
{
    let mut i: usize = 0;
    while i < records.len()
        invariant
            0 <= i <= records@.len(),
            forall|j: int|
                0 <= j < i ==> !((#[trigger] records@[j]).ticket_id == tid && records@[j].approval_id
                    == lid && records@[j].result == ApprovalOutcome::Approved),
        decreases records@.len() - i,
    {
        if records[i].ticket_id == tid && records[i].approval_id == lid && matches!(
            records[i].result,
            ApprovalOutcome::Approved,
        ) {
            return true;
        }
        i = i + 1;
    }
    false
}

// ---------------------------------------------------------------------------
// Rejection, assignment, completion
// ---------------------------------------------------------------------------

/// The outcome of a rejection: a ticket already terminal or already fully
/// approved conflicts — rejection leaves only the `Unapproved`/`Approving`
/// states; an approver of another tenant, or without a seat, is not
/// authorized.  Otherwise the verdict is recorded at the approver's own rung
/// and the ticket is terminally rejected at `now`.
pub open spec fn spec_reject(
    t: Ticket,
    approver: Employee,
    now: i64,
) -> Result<(Ticket, ApprovalWithTicket), AppError> {
    if t.rejected_time is Some || t.finished_time is Some || t.approved_time is Some {
        Err(AppError::Conflict)
    } else if approver.system_id != t.system_id {
        Err(AppError::Authorization)
    } else if approver.approval_id is None {
        Err(AppError::Authorization)
    } else {
        Ok(
            (
                Ticket { rejected_time: Some(now), ..t },
                ApprovalWithTicket {
                    ticket_id: t.id,
                    approval_id: approver.approval_id->0,
                    employee_id: approver.id,
                    created_time: now,
                    result: ApprovalOutcome::Rejected,
                },
            ),
        )
    }
}

/// Rejects the ticket, appending the audit record on success; on failure
/// nothing changes.
pub fn reject(
    t: &mut Ticket,
    records: &mut Vec<ApprovalWithTicket>,
    approver: &Employee,
    now: i64,
) -> (r: Result<(), AppError>)
    ensures
        spec_reject(*old(t), *approver, now) matches Ok(p) ==> (r is Ok && *final(t) == p.0
            && final(records)@ == old(records)@.push(p.1)),
        spec_reject(*old(t), *approver, now) matches Err(e) ==> (r == Err::<(), AppError>(e)
            && *final(t) == *old(t) && final(records)@ == old(records)@),
{
    if t.rejected_time.is_some() || t.finished_time.is_some() || t.approved_time.is_some() {
        return Err(AppError::Conflict);
    }
    if approver.system_id != t.system_id {
        return Err(AppError::Authorization);
    }
    let seat = match approver.approval_id {
        None => {
            return Err(AppError::Authorization);
        },
        Some(s) => s,
    };
    records.push(
        ApprovalWithTicket {
            ticket_id: t.id,
            approval_id: seat,
            employee_id: approver.id,
            created_time: now,
            result: ApprovalOutcome::Rejected,
        },
    );
    t.rejected_time = Some(now);
    Ok(())
}

/// The outcome of taking a ticket: a ticket that already has a receiver, or
/// is not `Open` (not yet fully approved, rejected, or already past
/// assignment), conflicts; otherwise the taker becomes the receiver at
/// `now`.  The store must run the receiver test and the assignment as one
/// atomic conditional update: of racing takers, the first serialized wins
/// and every later one sees the conflict.
pub open spec fn spec_take(t: Ticket, employee: Employee, now: i64) -> Result<Ticket, AppError> {
    if t.receiver_id is Some {
        Err(AppError::Conflict)
    } else if t.approved_time is None || t.rejected_time is Some || t.finished_time is Some {
        Err(AppError::Conflict)
    } else {
        Ok(Ticket { receiver_id: Some(employee.id), received_time: Some(now), ..t })
    }
}

/// Assigns the ticket to `employee`, marking the employee unavailable; on
/// failure nothing changes.
pub fn take(t: &mut Ticket, employee: &mut Employee, now: i64) -> (r: Result<(), AppError>)
    ensures
        spec_take(*old(t), *old(employee), now) matches Ok(t2) ==> (r is Ok && *final(t) == t2
            && *final(employee) == (Employee { available: false, ..*old(employee) })),
        spec_take(*old(t), *old(employee), now) matches Err(e) ==> (r == Err::<(), AppError>(e)
            && *final(t) == *old(t) && *final(employee) == *old(employee)),
{
    if t.receiver_id.is_some() {
        return Err(AppError::Conflict);
    }
    if t.approved_time.is_none() || t.rejected_time.is_some() || t.finished_time.is_some() {
        return Err(AppError::Conflict);
    }
    t.receiver_id = Some(employee.id);
    t.received_time = Some(now);
    employee.available = false;
    Ok(())
}

/// Whether finishing a parent ticket waits for its assists.
#[derive(Debug, Clone, Copy, PartialEq, Eq, Structural)]
pub enum FinishPolicy {
    /// Finish regardless of outstanding assist work.
    Unconditional,
    /// Refuse to finish while an assist of the ticket still has an open,
    /// unfilled headcount requirement.
    RequireAssistsDone,
}

/// Whether some assist of ticket `tid` still has an open requirement whose
/// headcount is not reached.
pub open spec fn spec_has_open_assist_work(assists: Seq<Assist>, tid: i32) -> bool {
    exists|i: int|
        0 <= i < assists.len() && (#[trigger] assists[i]).ticket_id == tid && exists|j: int|
            0 <= j < assists[i].requirements@.len() && (#[trigger] assists[i].requirements@[j]).open
                && assists[i].requirements@[j].current_num < assists[i].requirements@[j].total_num
}

/// The outcome of finishing a ticket: a ticket not in `Assigned` (no
/// receiver yet, already finished, or rejected) conflicts, as does — under
/// `FinishPolicy::RequireAssistsDone` — outstanding assist work; otherwise
/// the ticket is closed at `now`.
pub open spec fn spec_finish(
    t: Ticket,
    assists: Seq<Assist>,
    policy: FinishPolicy,
    now: i64,
) -> Result<Ticket, AppError> {
    if t.finished_time is Some || t.rejected_time is Some || t.received_time is None {
        Err(AppError::Conflict)
    } else if policy == FinishPolicy::RequireAssistsDone && spec_has_open_assist_work(
        assists,
        t.id,
    ) {
        Err(AppError::Conflict)
    } else {
        Ok(Ticket { finished_time: Some(now), ..t })
    }
}

/// Whether some assist of ticket `tid` still has an open requirement whose
/// headcount is not reached.
pub fn has_open_assist_work(assists: &Vec<Assist>, tid: i32) -> (r: bool)
    ensures
        r == spec_has_open_assist_work(assists@, tid),
{
    let mut i: usize = 0;
    while i < assists.len()
        invariant
            0 <= i <= assists@.len(),
            forall|k: int|
                0 <= k < i ==> !((#[trigger] assists@[k]).ticket_id == tid && exists|j: int|
                    0 <= j < assists@[k].requirements@.len() && (#[trigger] assists@[k].requirements@[j]).open
                        && assists@[k].requirements@[j].current_num
                        < assists@[k].requirements@[j].total_num),
        decreases assists@.len() - i,
    {
        if assists[i].ticket_id == tid {
            let reqs = &assists[i].requirements;
            let mut j: usize = 0;
            while j < reqs.len()
                invariant
                    0 <= j <= reqs@.len(),
                    reqs@ == assists@[i as int].requirements@,
                    0 <= i < assists@.len(),
                    assists@[i as int].ticket_id == tid,
                    forall|m: int|
                        0 <= m < j ==> !((#[trigger] reqs@[m]).open && reqs@[m].current_num
                            < reqs@[m].total_num),
                decreases reqs@.len() - j,
            {
                if reqs[j].open && reqs[j].current_num < reqs[j].total_num {
                    proof {
                        let gi = i as int;
                        let gj = j as int;
                        assert((assists@[gi].requirements@[gj]).open && assists@[gi].requirements@[gj].current_num
                            < assists@[gi].requirements@[gj].total_num);
                        assert((assists@[gi]).ticket_id == tid && exists|m: int|
                            0 <= m < assists@[gi].requirements@.len()
                                && (#[trigger] assists@[gi].requirements@[m]).open
                                && assists@[gi].requirements@[m].current_num
                                < assists@[gi].requirements@[m].total_num);
                    }
                    return true;
                }
                j = j + 1;
            }
        }
        i = i + 1;
    }
    false
}

/// Closes the ticket, marking the finisher available again; on failure
/// nothing changes.
pub fn finish(
    t: &mut Ticket,
    employee: &mut Employee,
    assists: &Vec<Assist>,
    policy: FinishPolicy,
    now: i64,
) -> (r: Result<(), AppError>)
    ensures
        spec_finish(*old(t), assists@, policy, now) matches Ok(t2) ==> (r is Ok && *final(t) == t2
            && *final(employee) == (Employee { available: true, ..*old(employee) })),
        spec_finish(*old(t), assists@, policy, now) matches Err(e) ==> (r == Err::<(), AppError>(e)
            && *final(t) == *old(t) && *final(employee) == *old(employee)),
{
    if t.finished_time.is_some() || t.rejected_time.is_some() || t.received_time.is_none() {
        return Err(AppError::Conflict);
    }
    if matches!(policy, FinishPolicy::RequireAssistsDone) && has_open_assist_work(assists, t.id) {
        return Err(AppError::Conflict);
    }
    t.finished_time = Some(now);
    employee.available = true;
    Ok(())
}

// ---------------------------------------------------------------------------
// Laws of the lifecycle
// ---------------------------------------------------------------------------

/// A successful sign-off preserves the ticket's internal consistency.
pub proof fn lemma_approve_preserves_wf(
    t: Ticket,
    records: Seq<ApprovalWithTicket>,
    approver: Employee,
    levels: Seq<Approval>,
    policy: ScopePolicy,
    now: i64,
    t2: Ticket,
    rec: ApprovalWithTicket,
)
    requires
        ticket_wf(t),
        t.created_time <= now,
        spec_approve(t, records, approver, levels, policy, now) == Ok::<
            (Ticket, ApprovalWithTicket),
            AppError,
        >((t2, rec)),
    ensures
        ticket_wf(t2),
{
}

/// A successful rejection preserves the ticket's internal consistency.
pub proof fn lemma_reject_preserves_wf(
    t: Ticket,
    approver: Employee,
    now: i64,
    t2: Ticket,
    rec: ApprovalWithTicket,
)
    requires
        ticket_wf(t),
        t.created_time <= now,
        spec_reject(t, approver, now) == Ok::<(Ticket, ApprovalWithTicket), AppError>((t2, rec)),
    ensures
        ticket_wf(t2),
{
}

/// A successful assignment preserves the ticket's internal consistency.
pub proof fn lemma_take_preserves_wf(t: Ticket, employee: Employee, now: i64, t2: Ticket)
    requires
        ticket_wf(t),
        t.approved_time matches Some(a) ==> a <= now,
        spec_take(t, employee, now) == Ok::<Ticket, AppError>(t2),
    ensures
        ticket_wf(t2),
{
}

/// A successful completion preserves the ticket's internal consistency.
pub proof fn lemma_finish_preserves_wf(
    t: Ticket,
    assists: Seq<Assist>,
    policy: FinishPolicy,
    now: i64,
    t2: Ticket,
)
    requires
        ticket_wf(t),
        t.received_time matches Some(rt) ==> rt <= now,
        spec_finish(t, assists, policy, now) == Ok::<Ticket, AppError>(t2),
    ensures
        ticket_wf(t2),
{
}

/// Idempotence guard: once a sign-off has advanced the ticket past an
/// approver's rung, a second sign-off by the same approver fails with a
/// conflict rather than silently re-applying.
pub proof fn lemma_approve_twice_conflict(
    t: Ticket,
    records: Seq<ApprovalWithTicket>,
    approver: Employee,
    levels: Seq<Approval>,
    policy: ScopePolicy,
    now: i64,
    now2: i64,
    t2: Ticket,
    rec: ApprovalWithTicket,
)
    requires
        spec_ids_distinct(levels),
        spec_approve(t, records, approver, levels, policy, now) == Ok::<
            (Ticket, ApprovalWithTicket),
            AppError,
        >((t2, rec)),
    ensures
        spec_approve(t2, records.push(rec), approver, levels, policy, now2) == Err::<
            (Ticket, ApprovalWithTicket),
            AppError,
        >(AppError::Conflict),
{
    let cur = t.approval_id->0;
    lemma_level_idx_props(levels, cur);
    let li = spec_level_idx(levels, cur)->0;
    let thr = levels[li].amount;
    if t2.approved_time is Some {
    } else {
        let scope = crate::catalog::spec_effective_scope(levels, t.system_id, t.company, policy);
        crate::catalog::lemma_best_idx_props(levels, t.system_id, scope, thr, levels.len() as int);
        let n = spec_next_level(levels, t.system_id, t.company, thr, policy)->0;
        assert(levels[n].amount > thr);
        assert(n != li);
        assert(t2.approval_id == Some(levels[n].id));
        assert(levels[n].id != cur);
        let pushed = records.push(rec);
        assert(pushed[pushed.len() - 1] == rec);
        assert(spec_has_approved_at(pushed, t2.id, approver.approval_id->0));
    }
}

/// Exclusive assignment: after one taker wins an open ticket, it carries
/// that taker as its one receiver, and every later take — the loser of the
/// race, as the store's atomic conditional update serializes it — fails
/// with a conflict.
pub proof fn lemma_take_exclusive(
    t: Ticket,
    e1: Employee,
    e2: Employee,
    now1: i64,
    now2: i64,
    t2: Ticket,
)
    requires
        spec_take(t, e1, now1) == Ok::<Ticket, AppError>(t2),
    ensures
        t2.receiver_id == Some(e1.id),
        spec_take(t2, e2, now2) == Err::<Ticket, AppError>(AppError::Conflict),
{
}

// ---------------------------------------------------------------------------
// Chain termination (the round trip)
// ---------------------------------------------------------------------------

/// How many candidate rungs lie strictly above `cur` among the first `n`
/// levels of `scope`.
pub open spec fn spec_count_matches(
    levels: Seq<Approval>,
    sys: i32,
    scope: Option<String>,
    cur: i32,
    n: int,
) -> int
    decreases n,
{
    if n <= 0 {
        0
    } else {
        spec_count_matches(levels, sys, scope, cur, n - 1) + (if level_matches(
            levels,
            sys,
            scope,
            cur,
            n - 1,
        ) {
            1int
        } else {
            0int
        })
    }
}

/// How many rungs of the effective scope still lie above threshold `cur`:
/// the measure that every chain advance strictly decreases.
pub open spec fn spec_measure(
    levels: Seq<Approval>,
    sys: i32,
    company: Option<String>,
    cur: i32,
    policy: ScopePolicy,
) -> int {
    spec_count_matches(
        levels,
        sys,
        crate::catalog::spec_effective_scope(levels, sys, company, policy),
        cur,
        levels.len() as int,
    )
}

proof fn lemma_count_mono(
    levels: Seq<Approval>,
    sys: i32,
    scope: Option<String>,
    cur1: i32,
    cur2: i32,
    n: int,
)
    requires
        cur1 <= cur2,
    ensures
        0 <= spec_count_matches(levels, sys, scope, cur2, n) <= spec_count_matches(
            levels,
            sys,
            scope,
            cur1,
            n,
        ),
    decreases n,
{
    if n > 0 {
        lemma_count_mono(levels, sys, scope, cur1, cur2, n - 1);
    }
}

proof fn lemma_count_strict(
    levels: Seq<Approval>,
    sys: i32,
    scope: Option<String>,
    cur1: i32,
    cur2: i32,
    w: int,
    n: int,
)
    requires
        cur1 <= cur2,
        level_matches(levels, sys, scope, cur1, w),
        !level_matches(levels, sys, scope, cur2, w),
        w < n <= levels.len(),
    ensures
        spec_count_matches(levels, sys, scope, cur2, n) < spec_count_matches(
            levels,
            sys,
            scope,
            cur1,
            n,
        ),
    decreases n,
{
    if n - 1 == w {
        lemma_count_mono(levels, sys, scope, cur1, cur2, n - 1);
    } else {
        lemma_count_strict(levels, sys, scope, cur1, cur2, w, n - 1);
    }
}

/// Every maximal run of sign-offs from `t` closes its chain within `fuel`
/// steps: as long as the ticket still waits at a rung, a sign-off by any
/// approver of its tenant seated at that rung succeeds, and the run ends in
/// a fully approved, unassigned ticket — `approved_time` set, the rung
/// pointer null, no receiver.
pub open spec fn spec_chain_closes(
    t: Ticket,
    records: Seq<ApprovalWithTicket>,
    levels: Seq<Approval>,
    policy: ScopePolicy,
    fuel: nat,
) -> bool
    decreases fuel,
{
    if t.approved_time is Some {
        t.approval_id is None && t.receiver_id is None && t.rejected_time is None
            && t.finished_time is None
    } else {
        fuel > 0 && forall|a: Employee, now: i64|
            a.system_id == t.system_id && a.approval_id == t.approval_id ==> (#[trigger] spec_approve(
                t,
                records,
                a,
                levels,
                policy,
                now,
            ) matches Ok(p) && spec_chain_closes(
                p.0,
                records.push(p.1),
                levels,
                policy,
                (fuel - 1) as nat,
            ))
    }
}

/// The inductive step behind the round trip: a ticket that still waits at a
/// resolvable rung, with enough fuel to cover the rungs above it, closes its
/// chain.
pub proof fn lemma_chain_closes(
    t: Ticket,
    records: Seq<ApprovalWithTicket>,
    levels: Seq<Approval>,
    policy: ScopePolicy,
    fuel: nat,
)
    requires
        spec_ids_distinct(levels),
        t.rejected_time is None,
        t.finished_time is None,
        t.receiver_id is None,
        t.approved_time is Some ==> t.approval_id is None,
        t.approved_time is None ==> t.approval_id is Some,
        t.approval_id matches Some(lid) ==> spec_level_idx(levels, lid) is Some,
        t.approved_time is None ==> fuel >= 1 + spec_measure(
            levels,
            t.system_id,
            t.company,
            levels[spec_level_idx(levels, t.approval_id->0)->0].amount,
            policy,
        ),
    ensures
        spec_chain_closes(t, records, levels, policy, fuel),
    decreases fuel,
{
    if t.approved_time is Some {
        return ;
    }
    let cur = t.approval_id->0;
    lemma_level_idx_props(levels, cur);
    let li = spec_level_idx(levels, cur)->0;
    let thr = levels[li].amount;
    let scope = crate::catalog::spec_effective_scope(levels, t.system_id, t.company, policy);
    lemma_count_mono(levels, t.system_id, scope, thr, thr, levels.len() as int);
    assert(fuel > 0);
    assert forall|a: Employee, now: i64|
        a.system_id == t.system_id && a.approval_id == t.approval_id implies (#[trigger] spec_approve(
        t,
        records,
        a,
        levels,
        policy,
        now,
    ) matches Ok(p) && spec_chain_closes(
        p.0,
        records.push(p.1),
        levels,
        policy,
        (fuel - 1) as nat,
    )) by {
        let r = spec_approve(t, records, a, levels, policy, now);
        assert(r is Ok);
        let p = r->Ok_0;
        let t2 = p.0;
        if t2.approved_time is Some {
            assert(spec_chain_closes(t2, records.push(p.1), levels, policy, (fuel - 1) as nat));
        } else {
            crate::catalog::lemma_best_idx_props(
                levels,
                t.system_id,
                scope,
                thr,
                levels.len() as int,
            );
            let n = spec_next_level(levels, t.system_id, t.company, thr, policy)->0;
            assert(level_matches(levels, t.system_id, scope, thr, n));
            assert(t2.approval_id == Some(levels[n].id));
            lemma_level_idx_props(levels, levels[n].id);
            assert(spec_level_idx(levels, levels[n].id) is Some) by {
                if spec_level_idx(levels, levels[n].id) is None {
                    assert(levels[n].id != levels[n].id);
                }
            }
            let li2 = spec_level_idx(levels, levels[n].id)->0;
            assert(li2 == n) by {
                if li2 < n {
                    assert(levels[li2].id != levels[n].id);
                } else if li2 > n {
                    assert(levels[n].id != levels[li2].id);
                }
            }
            let thr2 = levels[n].amount;
            assert(thr2 > thr);
            lemma_count_strict(levels, t.system_id, scope, thr, thr2, n, levels.len() as int);
            lemma_chain_closes(t2, records.push(p.1), levels, policy, (fuel - 1) as nat);
        }
    }
}

/// Round trip: a freshly created ticket, signed off repeatedly by approvers
/// seated at its current rung, ends — within one sign-off per rung of its
/// ladder — fully approved and open for a receiver: `approved_time` set and
/// the rung pointer null.
pub proof fn lemma_round_trip(
    id: i32,
    creator: Employee,
    title: String,
    reason: String,
    address: String,
    funds: Seq<Fund>,
    funds_v: Vec<Fund>,
    department_ids: Vec<i32>,
    levels: Seq<Approval>,
    policy: ScopePolicy,
    now: i64,
)
    requires
        spec_ids_distinct(levels),
    ensures
        spec_chain_closes(
            spec_created_ticket(
                id,
                creator,
                title,
                reason,
                address,
                funds,
                funds_v,
                department_ids,
                levels,
                policy,
                now,
            ),
            Seq::empty(),
            levels,
            policy,
            (1 + spec_measure(levels, creator.system_id, creator.company_name, 0, policy)) as nat,
        ),
{
    let t = spec_created_ticket(
        id,
        creator,
        title,
        reason,
        address,
        funds,
        funds_v,
        department_ids,
        levels,
        policy,
        now,
    );
    let scope = crate::catalog::spec_effective_scope(
        levels,
        creator.system_id,
        creator.company_name,
        policy,
    );
    let fuel = (1 + spec_measure(levels, creator.system_id, creator.company_name, 0, policy)) as nat;
    lemma_count_mono(levels, creator.system_id, scope, 0, 0, levels.len() as int);
    match spec_next_level(levels, creator.system_id, creator.company_name, 0, policy) {
        None => {
            lemma_chain_closes(t, Seq::empty(), levels, policy, fuel);
        },
        Some(n) => {
            crate::catalog::lemma_best_idx_props(
                levels,
                creator.system_id,
                scope,
                0,
                levels.len() as int,
            );
            lemma_level_idx_props(levels, levels[n].id);
            assert(spec_level_idx(levels, levels[n].id) is Some) by {
                if spec_level_idx(levels, levels[n].id) is None {
                    assert(levels[n].id != levels[n].id);
                }
            }
            let li = spec_level_idx(levels, levels[n].id)->0;
            assert(li == n) by {
                if li < n {
                    assert(levels[li].id != levels[n].id);
                } else if li > n {
                    assert(levels[n].id != levels[li].id);
                }
            }
            let thr = levels[n].amount;
            assert(thr > 0);
            lemma_count_strict(levels, creator.system_id, scope, 0, thr, n, levels.len() as int);
            lemma_chain_closes(t, Seq::empty(), levels, policy, fuel);
        },
    }
}

/// Of a racing approval and rejection, the store commits one first and the
/// other must fail: once a rejection has committed, any sign-off on the
/// rejected ticket conflicts.
pub proof fn lemma_reject_then_approve_conflict(
    t: Ticket,
    records: Seq<ApprovalWithTicket>,
    rejecter: Employee,
    approver: Employee,
    levels: Seq<Approval>,
    policy: ScopePolicy,
    now: i64,
    now2: i64,
    t2: Ticket,
    rec: ApprovalWithTicket,
)
    requires
        spec_reject(t, rejecter, now) == Ok::<(Ticket, ApprovalWithTicket), AppError>((t2, rec)),
    ensures
        spec_approve(t2, records, approver, levels, policy, now2) == Err::<
            (Ticket, ApprovalWithTicket),
            AppError,
        >(AppError::Conflict),
{
}

/// The other half of the race: once a sign-off has completed the chain, a
/// rejection of the now fully approved ticket conflicts.
pub proof fn lemma_approve_then_reject_conflict(
    t: Ticket,
    records: Seq<ApprovalWithTicket>,
    approver: Employee,
    rejecter: Employee,
    levels: Seq<Approval>,
    policy: ScopePolicy,
    now: i64,
    now2: i64,
    t2: Ticket,
    rec: ApprovalWithTicket,
)
    requires
        spec_approve(t, records, approver, levels, policy, now) == Ok::<
            (Ticket, ApprovalWithTicket),
            AppError,
        >((t2, rec)),
        t2.approved_time is Some,
    ensures
        spec_reject(t2, rejecter, now2) == Err::<(Ticket, ApprovalWithTicket), AppError>(
            AppError::Conflict,
        ),
{
}

} // verus!
