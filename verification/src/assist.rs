use vstd::prelude::*;
use vstd::pervasive::VecAdditionalExecFns;

use crate::entities::{Assist, AssistRequirement, Employee, Ticket};
use crate::errors::AppError;

verus! {

/// Whether every requested headcount is non-negative.
pub open spec fn spec_requirements_ok(reqs: Seq<(i32, i32)>) -> bool {
    forall|i: int| 0 <= i < reqs.len() ==> (#[trigger] reqs[i]).1 >= 0
}

/// The fresh requirement rows an assist starts with: one per requested
/// department, nobody joined yet, all open.
pub open spec fn spec_initial_requirements(reqs: Seq<(i32, i32)>) -> Seq<AssistRequirement> {
    Seq::new(
        reqs.len(),
        |i: int|
            AssistRequirement {
                department_id: reqs[i].0,
                total_num: reqs[i].1,
                current_num: 0,
                open: true,
            },
    )
}

/// Opens an assist under `ticket`: only the ticket's receiver may submit
/// one, and a negative requested headcount is rejected before any effect.
/// Each requirement starts open with nobody joined.
pub fn create_assist(
    id: i32,
    ticket: &Ticket,
    submitter: &Employee,
    requirements: Vec<(i32, i32)>,
) -> (r: Result<Assist, AppError>)
    ensures
        ticket.receiver_id != Some(submitter.id) ==> r == Err::<Assist, AppError>(
            AppError::Authorization,
        ),
        ticket.receiver_id == Some(submitter.id) && !spec_requirements_ok(requirements@) ==> r
            == Err::<Assist, AppError>(AppError::Validation),
        ticket.receiver_id == Some(submitter.id) && spec_requirements_ok(requirements@) ==> (
        r matches Ok(a) && a.id == id && a.ticket_id == ticket.id && a.submitter_id == submitter.id
            && !a.closed && a.requirements@ == spec_initial_requirements(requirements@)
            && a.participant_ids@ == Seq::<i32>::empty()),
{
    let rid = match ticket.receiver_id {
        Some(rid) => rid,
        None => {
            return Err(AppError::Authorization);
        },
    };
    if rid != submitter.id {
        return Err(AppError::Authorization);
    }
    let mut rows: Vec<AssistRequirement> = Vec::new();
    let mut i: usize = 0;
    while i < requirements.len()
        invariant
            0 <= i <= requirements@.len(),
            ticket.receiver_id == Some(submitter.id),
            forall|j: int| 0 <= j < i ==> (#[trigger] requirements@[j]).1 >= 0,
            rows@ =~= spec_initial_requirements(requirements@).take(i as int),
        decreases requirements@.len() - i,
    {
        let (department_id, total_num) = requirements[i];
        if total_num < 0 {
            return Err(AppError::Validation);
        }
        rows.push(AssistRequirement { department_id, total_num, current_num: 0, open: true });
        i = i + 1;
        proof {
            assert(rows@ =~= spec_initial_requirements(requirements@).take(i as int));
        }
    }
    proof {
        assert(spec_initial_requirements(requirements@).take(requirements@.len() as int)
            =~= spec_initial_requirements(requirements@));
    }
    Ok(
        Assist {
            id,
            ticket_id: ticket.id,
            submitter_id: submitter.id,
            closed: false,
            requirements: rows,
            participant_ids: Vec::new(),
        },
    )
}

/// One requirement after `deps` joins: an open requirement of a department
/// the joiner belongs to gains one head, saturating at the requested total;
/// every other row is untouched.
pub open spec fn spec_joined_requirement(r: AssistRequirement, deps: Seq<i32>) -> AssistRequirement {
    if r.open && deps.contains(r.department_id) && r.current_num < r.total_num {
        AssistRequirement { current_num: (r.current_num + 1) as i32, ..r }
    } else {
        r
    }
}

/// All requirement rows after one employee with departments `deps` joins.
pub open spec fn spec_joined_requirements(
    reqs: Seq<AssistRequirement>,
    deps: Seq<i32>,
) -> Seq<AssistRequirement> {
    Seq::new(reqs.len(), |i: int| spec_joined_requirement(reqs[i], deps))
}

/// Whether joining `assist` under parent `ticket` is allowed: the assist
/// must belong to the ticket, the assist must still be open, and the parent
/// must currently be assigned.
pub open spec fn spec_can_join(assist: Assist, ticket: Ticket) -> bool {
    &&& assist.ticket_id == ticket.id
    &&& !assist.closed
    &&& ticket.received_time is Some
    &&& ticket.finished_time is None
    &&& ticket.rejected_time is None
}

/// Joins `employee` to `assist`: each open requirement of one of the
/// employee's departments gains one head (never exceeding its total,
/// saturating), the employee is appended to the participants and becomes
/// unavailable.  A closed assist, or one whose parent ticket is not
/// currently assigned, conflicts; on failure nothing changes.
pub fn join_assist(assist: &mut Assist, ticket: &Ticket, employee: &mut Employee) -> (r: Result<
    (),
    AppError,
>)
    ensures
        !spec_can_join(*old(assist), *ticket) ==> (r == Err::<(), AppError>(AppError::Conflict)
            && *final(assist) == *old(assist) && *final(employee) == *old(employee)),
        spec_can_join(*old(assist), *ticket) ==> ({
            &&& r is Ok
            &&& *final(employee) == (Employee { available: false, ..*old(employee) })
            &&& final(assist).id == old(assist).id
            &&& final(assist).ticket_id == old(assist).ticket_id
            &&& final(assist).submitter_id == old(assist).submitter_id
            &&& final(assist).closed == old(assist).closed
            &&& final(assist).participant_ids@ == old(assist).participant_ids@.push(old(employee).id)
            &&& final(assist).requirements@ == spec_joined_requirements(
                old(assist).requirements@,
                old(employee).department_ids@,
            )
        }),
{
    if assist.ticket_id != ticket.id || assist.closed || ticket.received_time.is_none()
        || ticket.finished_time.is_some() || ticket.rejected_time.is_some() {
        return Err(AppError::Conflict);
    }
    let ghost orig = assist.requirements@;
    let mut i: usize = 0;
    while i < assist.requirements.len()
        invariant
            0 <= i <= assist.requirements@.len(),
            assist.requirements@.len() == orig.len(),
            assist.id == old(assist).id,
            assist.ticket_id == old(assist).ticket_id,
            assist.submitter_id == old(assist).submitter_id,
            assist.closed == old(assist).closed,
            assist.participant_ids@ == old(assist).participant_ids@,
            orig == old(assist).requirements@,
            employee == old(employee),
            forall|j: int|
                0 <= j < i ==> assist.requirements@[j] == spec_joined_requirement(
                    orig[j],
                    employee.department_ids@,
                ),
            forall|j: int| i <= j < orig.len() ==> assist.requirements@[j] == orig[j],
        decreases orig.len() - i,
    {
        let row = assist.requirements[i];
        if row.open && contains_id(&employee.department_ids, row.department_id)
            && row.current_num < row.total_num {
            assist.requirements.set(
                i,
                AssistRequirement { current_num: row.current_num + 1, ..row },
            );
        }
        i = i + 1;
    }
    assist.participant_ids.push(employee.id);
    employee.available = false;
    proof {
        assert(assist.requirements@ =~= spec_joined_requirements(
            old(assist).requirements@,
            old(employee).department_ids@,
        ));
    }
    Ok(())
}

/// Whether `ids` holds `id`.
pub fn contains_id(ids: &Vec<i32>, id: i32) -> (r: bool)
    ensures
        r == ids@.contains(id),
{
    let mut i: usize = 0;
    while i < ids.len()
        invariant
            0 <= i <= ids@.len(),
            forall|j: int| 0 <= j < i ==> ids@[j] != id,
        decreases ids@.len() - i,
    {
        if ids[i] == id {
            return true;
        }
        i = i + 1;
    }
    proof {
        assert(!ids@.contains(id));
    }
    false
}

/// What an employee is working on right now: the ticket they received, or —
/// when they hold none — the one assist they joined.
#[derive(Debug, Clone, Copy, PartialEq, Eq, Structural)]
pub enum CurrentWork {
    MainTicket(usize),
    AssistWork(usize),
}

/// Whether `tickets[j]` is currently assigned to `eid`.
pub open spec fn spec_is_current_main(tickets: Seq<Ticket>, eid: i32, j: int) -> bool {
    &&& 0 <= j < tickets.len()
    &&& (#[trigger] tickets[j]).receiver_id == Some(eid)
    &&& tickets[j].received_time is Some
    &&& tickets[j].finished_time is None
    &&& tickets[j].rejected_time is None
}

/// How many of the first `n` assists `eid` participates in.
pub open spec fn spec_participation_count(assists: Seq<Assist>, eid: i32, n: int) -> int
    decreases n,
{
    if n <= 0 {
        0
    } else {
        spec_participation_count(assists, eid, n - 1) + (if assists[n - 1].participant_ids@.contains(
            eid,
        ) {
            1int
        } else {
            0int
        })
    }
}

/// Finds the employee's current work: the first ticket they received that is
/// still assigned; failing that, the one assist they participate in.  No
/// work at all is reported as not found; participation in more than one
/// assist is a data-integrity conflict surfaced to the caller, never
/// silently resolved.
pub fn current_work(tickets: &Vec<Ticket>, assists: &Vec<Assist>, employee_id: i32) -> (r: Result<
    CurrentWork,
    AppError,
>)
    ensures
        (exists|j: int| spec_is_current_main(tickets@, employee_id, j)) ==> (r matches Ok(w)
            && w matches CurrentWork::MainTicket(m) && spec_is_current_main(
            tickets@,
            employee_id,
            m as int,
        ) && forall|j: int| 0 <= j < m ==> !spec_is_current_main(tickets@, employee_id, j)),
        !(exists|j: int| spec_is_current_main(tickets@, employee_id, j)) ==> ({
            let c = spec_participation_count(assists@, employee_id, assists@.len() as int);
            &&& c == 0 ==> r == Err::<CurrentWork, AppError>(AppError::NotFound)
            &&& c > 1 ==> r == Err::<CurrentWork, AppError>(AppError::Conflict)
            &&& c == 1 ==> (r matches Ok(w) && w matches CurrentWork::AssistWork(a)
                && a < assists@.len() && assists@[a as int].participant_ids@.contains(employee_id))
        }),
{
    let mut i: usize = 0;
    while i < tickets.len()
        invariant
            0 <= i <= tickets@.len(),
            forall|j: int| 0 <= j < i ==> !spec_is_current_main(tickets@, employee_id, j),
        decreases tickets@.len() - i,
    {
        let t = &tickets[i];
        let is_mine = match t.receiver_id {
            Some(rid) => rid == employee_id,
            None => false,
        };
        if is_mine && t.received_time.is_some() && t.finished_time.is_none()
            && t.rejected_time.is_none() {
            return Ok(CurrentWork::MainTicket(i));
        }
        i = i + 1;
    }
    let mut found: Option<usize> = None;
    let mut count: usize = 0;
    let mut k: usize = 0;
    while k < assists.len()
        invariant
            0 <= k <= assists@.len(),
            forall|j: int| 0 <= j < tickets@.len() ==> !spec_is_current_main(tickets@, employee_id, j),
            count == spec_participation_count(assists@, employee_id, k as int),
            count <= k,
            match found {
                Some(f) => count >= 1 && f < k && assists@[f as int].participant_ids@.contains(
                    employee_id,
                ),
                None => count == 0,
            },
        decreases assists@.len() - k,
    {
        if contains_id(&assists[k].participant_ids, employee_id) {
            if found.is_none() {
                found = Some(k);
            }
            count = count + 1;
        }
        k = k + 1;
    }
    if count == 0 {
        return Err(AppError::NotFound);
    }
    if count > 1 {
        return Err(AppError::Conflict);
    }
    match found {
        Some(f) => Ok(CurrentWork::AssistWork(f)),
        None => Err(AppError::Internal),
    }
}

} // verus!
