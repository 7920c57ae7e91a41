use vstd::prelude::*;

use crate::entities::{ApprovalOutcome, ApprovalWithTicket, Assist, Department, Ticket};

verus! {

/// Whether `tickets[j]` waits for a sign-off at rung `aid`: it belongs to
/// tenant `sys`, its chain points at `aid`, and it is neither fully approved
/// nor rejected.
pub open spec fn spec_pending(tickets: Seq<Ticket>, sys: i32, aid: i32, j: int) -> bool {
    &&& 0 <= j < tickets.len()
    &&& (#[trigger] tickets[j]).system_id == sys
    &&& tickets[j].approval_id == Some(aid)
    &&& tickets[j].approved_time is None
    &&& tickets[j].rejected_time is None
}

/// Lexicographic queue order of two ticket positions: older creation first,
/// and of two tickets created in the same second the lower position first.
pub open spec fn spec_queue_lt(tickets: Seq<Ticket>, a: int, b: int) -> bool {
    tickets[a].created_time < tickets[b].created_time || (tickets[a].created_time
        == tickets[b].created_time && a < b)
}

/// The tickets waiting for a sign-off at rung `aid` of tenant `sys`, as
/// positions into `tickets`, ordered oldest creation first — the FIFO
/// queueing the approver works through — with ties kept in storage order.
pub fn pending_approval(tickets: &Vec<Ticket>, system_id: i32, approval_id: i32) -> (r: Vec<usize>)
    ensures
        forall|k: int|
            0 <= k < r@.len() ==> spec_pending(tickets@, system_id, approval_id, #[trigger] r@[k] as int),
        forall|k1: int, k2: int|
            0 <= k1 < k2 < r@.len() ==> spec_queue_lt(tickets@, r@[k1] as int, r@[k2] as int),
        forall|j: int|
            spec_pending(tickets@, system_id, approval_id, j) ==> exists|k: int|
                0 <= k < r@.len() && #[trigger] r@[k] as int == j,
{
    let mut r: Vec<usize> = Vec::new();
    let mut i: usize = 0;
    while i < tickets.len()
        invariant
            0 <= i <= tickets@.len(),
            forall|k: int|
                0 <= k < r@.len() ==> #[trigger] r@[k] < i && spec_pending(
                    tickets@,
                    system_id,
                    approval_id,
                    r@[k] as int,
                ),
            forall|k1: int, k2: int|
                0 <= k1 < k2 < r@.len() ==> spec_queue_lt(tickets@, r@[k1] as int, r@[k2] as int),
            forall|j: int|
                0 <= j < i && spec_pending(tickets@, system_id, approval_id, j) ==> exists|k: int|
                    0 <= k < r@.len() && #[trigger] r@[k] as int == j,
        decreases tickets@.len() - i,
    {
        let ghost prev = r@;
        let ghost mut gpushed: bool = false;
        let ghost mut gp: int = 0;
        let t = &tickets[i];
        let at_rung = match t.approval_id {
            Some(a) => a == approval_id,
            None => false,
        };
        if t.system_id == system_id && at_rung && t.approved_time.is_none()
            && t.rejected_time.is_none() {
            let mut p: usize = r.len();
            while p > 0 && tickets[r[p - 1]].created_time > t.created_time
                invariant
                    0 <= p <= r@.len(),
                    r@ == prev,
                    0 <= i < tickets@.len(),
                    t.created_time == tickets@[i as int].created_time,
                    forall|k: int|
                        0 <= k < r@.len() ==> #[trigger] r@[k] < i && spec_pending(
                            tickets@,
                            system_id,
                            approval_id,
                            r@[k] as int,
                        ),
                    forall|k: int|
                        p <= k < r@.len() ==> tickets@[#[trigger] r@[k] as int].created_time
                            > tickets@[i as int].created_time,
                decreases p,
            {
                p = p - 1;
            }
            proof {
                assert forall|k: int|
                    0 <= k < p implies tickets@[#[trigger] prev[k] as int].created_time
                    <= tickets@[i as int].created_time by {
                    if k < p - 1 {
                        assert(spec_queue_lt(tickets@, prev[k] as int, prev[p - 1] as int));
                    }
                }
            }
            r.insert(p, i);
            proof {
                gpushed = true;
                gp = p as int;
            }
        }
        i = i + 1;
        proof {
            if gpushed {
                assert(r@ == prev.insert(gp, (i - 1) as usize));
                assert(forall|k: int| 0 <= k < gp ==> r@[k] == prev[k]);
                assert(r@[gp] as int == i - 1);
                assert(forall|k: int| gp < k < r@.len() ==> r@[k] == prev[k - 1]);
                assert forall|k1: int, k2: int|
                    0 <= k1 < k2 < r@.len() implies spec_queue_lt(
                    tickets@,
                    r@[k1] as int,
                    r@[k2] as int,
                ) by {
                    if k1 == gp {
                        assert(tickets@[r@[k2] as int].created_time > tickets@[(i - 1) as int].created_time);
                    } else if k2 == gp {
                        assert(tickets@[r@[k1] as int].created_time <= tickets@[(i - 1) as int].created_time);
                        assert(r@[k1] < i - 1);
                    }
                }
            }
            assert forall|j: int|
                0 <= j < i && spec_pending(tickets@, system_id, approval_id, j) implies exists|k: int|
                0 <= k < r@.len() && #[trigger] r@[k] as int == j by {
                if j == i - 1 {
                    assert(gpushed);
                    assert(r@[gp] as int == j);
                } else {
                    let k0 = choose|k: int| 0 <= k < prev.len() && #[trigger] prev[k] as int == j;
                    if gpushed {
                        if k0 < gp {
                            assert(r@[k0] as int == j);
                        } else {
                            assert(r@[k0 + 1] as int == j);
                        }
                    } else {
                        assert(r@[k0] as int == j);
                    }
                }
            }
        }
    }
    r
}

/// The smaller of two mathematical integers.
pub open spec fn spec_min(a: int, b: int) -> int {
    if a < b {
        a
    } else {
        b
    }
}

/// One page of a position list: positions `(page-1)*size` up to but not
/// including `(page-1)*size + size`, clamped to the list; a page number
/// below one or a negative size yields nothing.
pub fn paginate(items: &Vec<usize>, page: i32, size: i32) -> (r: Vec<usize>)
    ensures
        page >= 1 && size >= 0 ==> r@ == items@.subrange(
            spec_min((page - 1) * size, items@.len() as int),
            spec_min((page - 1) * size + size, items@.len() as int),
        ),
        !(page >= 1 && size >= 0) ==> r@ == Seq::<usize>::empty(),
{
    if page < 1 || size < 0 {
        let r: Vec<usize> = Vec::new();
        proof {
            assert(r@ =~= Seq::<usize>::empty());
        }
        return r;
    }
    let len: u64 = items.len() as u64;
    let pm1: u64 = (page - 1) as u64;
    let sz: u64 = size as u64;
    proof {
        assert(pm1 * sz <= 0x7fffffff * 0x7fffffff) by (nonlinear_arith)
            requires
                pm1 <= 0x7fffffff,
                sz <= 0x7fffffff,
        ;
    }
    let start: u64 = pm1 * sz;
    let lo: u64 = if start > len {
        len
    } else {
        start
    };
    let hi0: u64 = start + sz;
    let hi: u64 = if hi0 > len {
        len
    } else {
        hi0
    };
    let mut r: Vec<usize> = Vec::new();
    let mut k: u64 = lo;
    while k < hi
        invariant
            lo <= k <= hi,
            hi <= len,
            len == items@.len(),
            items@.len() <= usize::MAX as int,
            r@ =~= items@.subrange(lo as int, k as int),
        decreases hi - k,
    {
        proof {
            assert(k < items@.len());
            assert(items@.len() <= usize::MAX as int);
            assert(k <= usize::MAX as u64);
        }
        let idx: usize = k as usize;
        proof {
            assert(idx as int == k as int);
        }
        r.push(items[idx]);
        k = k + 1;
        proof {
            assert(r@ =~= items@.subrange(lo as int, k as int));
        }
    }
    proof {
        assert(lo as int == spec_min((page - 1) * size, items@.len() as int));
        assert(hi as int == spec_min((page - 1) * size + size, items@.len() as int));
        assert(r@ =~= items@.subrange(
            spec_min((page - 1) * size, items@.len() as int),
            spec_min((page - 1) * size + size, items@.len() as int),
        ));
    }
    r
}

// ---------------------------------------------------------------------------
// Plain filters over the stored rows, each returning positions in storage
// order: the positions climb, every returned position satisfies the filter,
// and every position satisfying it is returned.
// ---------------------------------------------------------------------------

/// Whether the department sets `a` and `b` share a member.
pub open spec fn spec_intersects(a: Seq<i32>, b: Seq<i32>) -> bool {
    exists|i: int| 0 <= i < a.len() && b.contains(#[trigger] a[i])
}

/// Whether the department sets `a` and `b` share a member.
pub fn shares_department(a: &Vec<i32>, b: &Vec<i32>) -> (r: bool)
    ensures
        r == spec_intersects(a@, b@),
{
    let mut i: usize = 0;
    while i < a.len()
        invariant
            0 <= i <= a@.len(),
            forall|j: int| 0 <= j < i ==> !b@.contains(#[trigger] a@[j]),
        decreases a@.len() - i,
    {
        if crate::assist::contains_id(b, a[i]) {
            return true;
        }
        i = i + 1;
    }
    false
}

/// Whether `tickets[j]` is open for the taking by an employee of the
/// departments `deps`: fully approved, nobody has received it, not rejected,
/// and asked for by a department the employee belongs to.
pub open spec fn spec_available(tickets: Seq<Ticket>, deps: Seq<i32>, j: int) -> bool {
    &&& 0 <= j < tickets.len()
    &&& (#[trigger] tickets[j]).approved_time is Some
    &&& tickets[j].received_time is None
    &&& tickets[j].rejected_time is None
    &&& spec_intersects(tickets[j].department_ids@, deps)
}

/// The open tickets an employee of the departments `deps` may take.
pub fn available_tickets(tickets: &Vec<Ticket>, deps: &Vec<i32>) -> (r: Vec<usize>)
    ensures
        forall|k: int| 0 <= k < r@.len() ==> spec_available(tickets@, deps@, #[trigger] r@[k] as int),
        forall|k1: int, k2: int| 0 <= k1 < k2 < r@.len() ==> r@[k1] < r@[k2],
        forall|j: int|
            spec_available(tickets@, deps@, j) ==> exists|k: int|
                0 <= k < r@.len() && #[trigger] r@[k] as int == j,
{
    let mut r: Vec<usize> = Vec::new();
    let mut i: usize = 0;
    while i < tickets.len()
        invariant
            0 <= i <= tickets@.len(),
            forall|k: int|
                0 <= k < r@.len() ==> #[trigger] r@[k] < i && spec_available(
                    tickets@,
                    deps@,
                    r@[k] as int,
                ),
            forall|k1: int, k2: int| 0 <= k1 < k2 < r@.len() ==> r@[k1] < r@[k2],
            forall|j: int|
                0 <= j < i && spec_available(tickets@, deps@, j) ==> exists|k: int|
                    0 <= k < r@.len() && #[trigger] r@[k] as int == j,
        decreases tickets@.len() - i,
    {
        let ghost prev = r@;
        let t = &tickets[i];
        if t.approved_time.is_some() && t.received_time.is_none() && t.rejected_time.is_none()
            && shares_department(&t.department_ids, deps) {
            r.push(i);
        }
        i = i + 1;
        proof {
            assert forall|j: int|
                0 <= j < i && spec_available(tickets@, deps@, j) implies exists|k: int|
                0 <= k < r@.len() && #[trigger] r@[k] as int == j by {
                if j == i - 1 {
                    assert(r@[r@.len() - 1] as int == j);
                } else {
                    let k0 = choose|k: int| 0 <= k < prev.len() && #[trigger] prev[k] as int == j;
                    assert(r@[k0] as int == j);
                }
            }
        }
    }
    r
}

/// Whether `tickets[j]` was raised by `creator_id`.
pub open spec fn spec_by_creator(tickets: Seq<Ticket>, creator_id: i32, j: int) -> bool {
    0 <= j < tickets.len() && (#[trigger] tickets[j]).creator_id == creator_id
}

/// The tickets raised by `creator_id`, in any state.
pub fn tickets_by_creator(tickets: &Vec<Ticket>, creator_id: i32) -> (r: Vec<usize>)
    ensures
        forall|k: int| 0 <= k < r@.len() ==> spec_by_creator(tickets@, creator_id, #[trigger] r@[k] as int),
        forall|k1: int, k2: int| 0 <= k1 < k2 < r@.len() ==> r@[k1] < r@[k2],
        forall|j: int|
            spec_by_creator(tickets@, creator_id, j) ==> exists|k: int|
                0 <= k < r@.len() && #[trigger] r@[k] as int == j,
{
    let mut r: Vec<usize> = Vec::new();
    let mut i: usize = 0;
    while i < tickets.len()
        invariant
            0 <= i <= tickets@.len(),
            forall|k: int|
                0 <= k < r@.len() ==> #[trigger] r@[k] < i && spec_by_creator(
                    tickets@,
                    creator_id,
                    r@[k] as int,
                ),
            forall|k1: int, k2: int| 0 <= k1 < k2 < r@.len() ==> r@[k1] < r@[k2],
            forall|j: int|
                0 <= j < i && spec_by_creator(tickets@, creator_id, j) ==> exists|k: int|
                    0 <= k < r@.len() && #[trigger] r@[k] as int == j,
        decreases tickets@.len() - i,
    {
        let ghost prev = r@;
        if tickets[i].creator_id == creator_id {
            r.push(i);
        }
        i = i + 1;
        proof {
            assert forall|j: int|
                0 <= j < i && spec_by_creator(tickets@, creator_id, j) implies exists|k: int|
                0 <= k < r@.len() && #[trigger] r@[k] as int == j by {
                if j == i - 1 {
                    assert(r@[r@.len() - 1] as int == j);
                } else {
                    let k0 = choose|k: int| 0 <= k < prev.len() && #[trigger] prev[k] as int == j;
                    assert(r@[k0] as int == j);
                }
            }
        }
    }
    r
}

/// Whether `tickets[j]` was received by `receiver_id` and finished.
pub open spec fn spec_received_closed(tickets: Seq<Ticket>, receiver_id: i32, j: int) -> bool {
    &&& 0 <= j < tickets.len()
    &&& (#[trigger] tickets[j]).receiver_id == Some(receiver_id)
    &&& tickets[j].finished_time is Some
}

/// The tickets `receiver_id` received and carried to the end.
pub fn history_by_receiver(tickets: &Vec<Ticket>, receiver_id: i32) -> (r: Vec<usize>)
    ensures
        forall|k: int|
            0 <= k < r@.len() ==> spec_received_closed(tickets@, receiver_id, #[trigger] r@[k] as int),
        forall|k1: int, k2: int| 0 <= k1 < k2 < r@.len() ==> r@[k1] < r@[k2],
        forall|j: int|
            spec_received_closed(tickets@, receiver_id, j) ==> exists|k: int|
                0 <= k < r@.len() && #[trigger] r@[k] as int == j,
{
    let mut r: Vec<usize> = Vec::new();
    let mut i: usize = 0;
    while i < tickets.len()
        invariant
            0 <= i <= tickets@.len(),
            forall|k: int|
                0 <= k < r@.len() ==> #[trigger] r@[k] < i && spec_received_closed(
                    tickets@,
                    receiver_id,
                    r@[k] as int,
                ),
            forall|k1: int, k2: int| 0 <= k1 < k2 < r@.len() ==> r@[k1] < r@[k2],
            forall|j: int|
                0 <= j < i && spec_received_closed(tickets@, receiver_id, j) ==> exists|k: int|
                    0 <= k < r@.len() && #[trigger] r@[k] as int == j,
        decreases tickets@.len() - i,
    {
        let ghost prev = r@;
        let mine = match tickets[i].receiver_id {
            Some(rid) => rid == receiver_id,
            None => false,
        };
        if mine && tickets[i].finished_time.is_some() {
            r.push(i);
        }
        i = i + 1;
        proof {
            assert forall|j: int|
                0 <= j < i && spec_received_closed(tickets@, receiver_id, j) implies exists|k: int|
                0 <= k < r@.len() && #[trigger] r@[k] as int == j by {
                if j == i - 1 {
                    assert(r@[r@.len() - 1] as int == j);
                } else {
                    let k0 = choose|k: int| 0 <= k < prev.len() && #[trigger] prev[k] as int == j;
                    assert(r@[k0] as int == j);
                }
            }
        }
    }
    r
}

/// The first ticket currently assigned to `receiver_id`, if any.
pub fn current_by_receiver(tickets: &Vec<Ticket>, receiver_id: i32) -> (r: Option<usize>)
    ensures
        r matches Some(u) ==> crate::assist::spec_is_current_main(tickets@, receiver_id, u as int)
            && forall|j: int|
            0 <= j < u ==> !crate::assist::spec_is_current_main(tickets@, receiver_id, j),
        r is None ==> forall|j: int| !crate::assist::spec_is_current_main(tickets@, receiver_id, j),
{
    let mut i: usize = 0;
    while i < tickets.len()
        invariant
            0 <= i <= tickets@.len(),
            forall|j: int| 0 <= j < i ==> !crate::assist::spec_is_current_main(tickets@, receiver_id, j),
        decreases tickets@.len() - i,
    {
        let t = &tickets[i];
        let mine = match t.receiver_id {
            Some(rid) => rid == receiver_id,
            None => false,
        };
        if mine && t.received_time.is_some() && t.finished_time.is_none()
            && t.rejected_time.is_none() {
            return Some(i);
        }
        i = i + 1;
    }
    None
}

/// Whether the audit log holds a decision on ticket `tid` made by
/// `employee_id` at rung `aid`.
pub open spec fn spec_decided_on(
    records: Seq<ApprovalWithTicket>,
    aid: i32,
    employee_id: i32,
    tid: i32,
) -> bool {
    exists|m: int|
        0 <= m < records.len() && (#[trigger] records[m]).approval_id == aid
            && records[m].employee_id == employee_id && records[m].ticket_id == tid
}

/// Whether the audit log holds a decision on ticket `tid` made by
/// `employee_id` at rung `aid`.
fn decided_on(records: &Vec<ApprovalWithTicket>, aid: i32, employee_id: i32, tid: i32) -> (r: bool)
    ensures
        r == spec_decided_on(records@, aid, employee_id, tid),
{
    let mut m: usize = 0;
    while m < records.len()
        invariant
            0 <= m <= records@.len(),
            forall|j: int|
                0 <= j < m ==> !((#[trigger] records@[j]).approval_id == aid && records@[j].employee_id
                    == employee_id && records@[j].ticket_id == tid),
        decreases records@.len() - m,
    {
        if records[m].approval_id == aid && records[m].employee_id == employee_id
            && records[m].ticket_id == tid {
            return true;
        }
        m = m + 1;
    }
    false
}

/// Whether `tickets[j]` carries a decision by `employee_id` at rung `aid`
/// in the audit log.
pub open spec fn spec_in_approver_history(
    tickets: Seq<Ticket>,
    records: Seq<ApprovalWithTicket>,
    aid: i32,
    employee_id: i32,
    j: int,
) -> bool {
    0 <= j < tickets.len() && spec_decided_on(
        records,
        aid,
        employee_id,
        (#[trigger] tickets[j]).id,
    )
}

/// The tickets `employee_id` has decided on at rung `aid`, as the audit log
/// shows them.
pub fn history_by_approver(
    tickets: &Vec<Ticket>,
    records: &Vec<ApprovalWithTicket>,
    aid: i32,
    employee_id: i32,
) -> (r: Vec<usize>)
    ensures
        forall|k: int|
            0 <= k < r@.len() ==> spec_in_approver_history(
                tickets@,
                records@,
                aid,
                employee_id,
                #[trigger] r@[k] as int,
            ),
        forall|k1: int, k2: int| 0 <= k1 < k2 < r@.len() ==> r@[k1] < r@[k2],
        forall|j: int|
            spec_in_approver_history(tickets@, records@, aid, employee_id, j) ==> exists|k: int|
                0 <= k < r@.len() && #[trigger] r@[k] as int == j,
{
    let mut r: Vec<usize> = Vec::new();
    let mut i: usize = 0;
    while i < tickets.len()
        invariant
            0 <= i <= tickets@.len(),
            forall|k: int|
                0 <= k < r@.len() ==> #[trigger] r@[k] < i && spec_in_approver_history(
                    tickets@,
                    records@,
                    aid,
                    employee_id,
                    r@[k] as int,
                ),
            forall|k1: int, k2: int| 0 <= k1 < k2 < r@.len() ==> r@[k1] < r@[k2],
            forall|j: int|
                0 <= j < i && spec_in_approver_history(tickets@, records@, aid, employee_id, j)
                    ==> exists|k: int| 0 <= k < r@.len() && #[trigger] r@[k] as int == j,
        decreases tickets@.len() - i,
    {
        let ghost prev = r@;
        if decided_on(records, aid, employee_id, tickets[i].id) {
            r.push(i);
        }
        i = i + 1;
        proof {
            assert forall|j: int|
                0 <= j < i && spec_in_approver_history(tickets@, records@, aid, employee_id, j)
                implies exists|k: int| 0 <= k < r@.len() && #[trigger] r@[k] as int == j by {
                if j == i - 1 {
                    assert(r@[r@.len() - 1] as int == j);
                } else {
                    let k0 = choose|k: int| 0 <= k < prev.len() && #[trigger] prev[k] as int == j;
                    assert(r@[k0] as int == j);
                }
            }
        }
    }
    r
}

/// Whether `tickets[j]` of tenant `sys`, created at or before `cutoff`, is
/// still unfinished and unrejected — overdue work the alarm surfaces.
pub open spec fn spec_alarm(tickets: Seq<Ticket>, sys: i32, cutoff: i64, j: int) -> bool {
    &&& 0 <= j < tickets.len()
    &&& (#[trigger] tickets[j]).system_id == sys
    &&& tickets[j].created_time <= cutoff
    &&& tickets[j].finished_time is None
    &&& tickets[j].rejected_time is None
}

/// The overdue tickets of tenant `sys`: created at or before `cutoff` and
/// neither finished nor rejected.
pub fn alarm_tickets(tickets: &Vec<Ticket>, system_id: i32, cutoff: i64) -> (r: Vec<usize>)
    ensures
        forall|k: int|
            0 <= k < r@.len() ==> spec_alarm(tickets@, system_id, cutoff, #[trigger] r@[k] as int),
        forall|k1: int, k2: int| 0 <= k1 < k2 < r@.len() ==> r@[k1] < r@[k2],
        forall|j: int|
            spec_alarm(tickets@, system_id, cutoff, j) ==> exists|k: int|
                0 <= k < r@.len() && #[trigger] r@[k] as int == j,
{
    let mut r: Vec<usize> = Vec::new();
    let mut i: usize = 0;
    while i < tickets.len()
        invariant
            0 <= i <= tickets@.len(),
            forall|k: int|
                0 <= k < r@.len() ==> #[trigger] r@[k] < i && spec_alarm(
                    tickets@,
                    system_id,
                    cutoff,
                    r@[k] as int,
                ),
            forall|k1: int, k2: int| 0 <= k1 < k2 < r@.len() ==> r@[k1] < r@[k2],
            forall|j: int|
                0 <= j < i && spec_alarm(tickets@, system_id, cutoff, j) ==> exists|k: int|
                    0 <= k < r@.len() && #[trigger] r@[k] as int == j,
        decreases tickets@.len() - i,
    {
        let ghost prev = r@;
        let t = &tickets[i];
        if t.system_id == system_id && t.created_time <= cutoff && t.finished_time.is_none()
            && t.rejected_time.is_none() {
            r.push(i);
        }
        i = i + 1;
        proof {
            assert forall|j: int|
                0 <= j < i && spec_alarm(tickets@, system_id, cutoff, j) implies exists|k: int|
                0 <= k < r@.len() && #[trigger] r@[k] as int == j by {
                if j == i - 1 {
                    assert(r@[r@.len() - 1] as int == j);
                } else {
                    let k0 = choose|k: int| 0 <= k < prev.len() && #[trigger] prev[k] as int == j;
                    assert(r@[k0] as int == j);
                }
            }
        }
    }
    r
}

/// Whether `tickets[j]` of tenant `sys` is still in its approval phase.
pub open spec fn spec_approving(tickets: Seq<Ticket>, sys: i32, j: int) -> bool {
    &&& 0 <= j < tickets.len()
    &&& (#[trigger] tickets[j]).system_id == sys
    &&& tickets[j].approved_time is None
    &&& tickets[j].rejected_time is None
}

/// The tickets of tenant `sys` still climbing their approval chain.
pub fn approving_by_system(tickets: &Vec<Ticket>, system_id: i32) -> (r: Vec<usize>)
    ensures
        forall|k: int| 0 <= k < r@.len() ==> spec_approving(tickets@, system_id, #[trigger] r@[k] as int),
        forall|k1: int, k2: int| 0 <= k1 < k2 < r@.len() ==> r@[k1] < r@[k2],
        forall|j: int|
            spec_approving(tickets@, system_id, j) ==> exists|k: int|
                0 <= k < r@.len() && #[trigger] r@[k] as int == j,
{
    let mut r: Vec<usize> = Vec::new();
    let mut i: usize = 0;
    while i < tickets.len()
        invariant
            0 <= i <= tickets@.len(),
            forall|k: int|
                0 <= k < r@.len() ==> #[trigger] r@[k] < i && spec_approving(
                    tickets@,
                    system_id,
                    r@[k] as int,
                ),
            forall|k1: int, k2: int| 0 <= k1 < k2 < r@.len() ==> r@[k1] < r@[k2],
            forall|j: int|
                0 <= j < i && spec_approving(tickets@, system_id, j) ==> exists|k: int|
                    0 <= k < r@.len() && #[trigger] r@[k] as int == j,
        decreases tickets@.len() - i,
    {
        let ghost prev = r@;
        let t = &tickets[i];
        if t.system_id == system_id && t.approved_time.is_none() && t.rejected_time.is_none() {
            r.push(i);
        }
        i = i + 1;
        proof {
            assert forall|j: int|
                0 <= j < i && spec_approving(tickets@, system_id, j) implies exists|k: int|
                0 <= k < r@.len() && #[trigger] r@[k] as int == j by {
                if j == i - 1 {
                    assert(r@[r@.len() - 1] as int == j);
                } else {
                    let k0 = choose|k: int| 0 <= k < prev.len() && #[trigger] prev[k] as int == j;
                    assert(r@[k0] as int == j);
                }
            }
        }
    }
    r
}

/// Finds the first ticket with id `id`.
pub fn find_ticket(tickets: &Vec<Ticket>, id: i32) -> (r: Option<usize>)
    ensures
        r matches Some(u) ==> u < tickets@.len() && tickets@[u as int].id == id && forall|j: int|
            0 <= j < u ==> (#[trigger] tickets@[j]).id != id,
        r is None ==> forall|j: int| 0 <= j < tickets@.len() ==> (#[trigger] tickets@[j]).id != id,
{
    let mut i: usize = 0;
    while i < tickets.len()
        invariant
            0 <= i <= tickets@.len(),
            forall|j: int| 0 <= j < i ==> (#[trigger] tickets@[j]).id != id,
        decreases tickets@.len() - i,
    {
        if tickets[i].id == id {
            return Some(i);
        }
        i = i + 1;
    }
    None
}

/// Finds the first department of tenant `sys` named `name`.
pub fn department_by_name(departments: &Vec<Department>, sys: i32, name: &String) -> (r: Option<
    usize,
>)
    ensures
        r matches Some(u) ==> u < departments@.len() && departments@[u as int].system_id == sys
            && departments@[u as int].department_name@ == name@,
        r is None ==> forall|j: int|
            0 <= j < departments@.len() ==> !((#[trigger] departments@[j]).system_id == sys
                && departments@[j].department_name@ == name@),
{
    let mut i: usize = 0;
    while i < departments.len()
        invariant
            0 <= i <= departments@.len(),
            forall|j: int|
                0 <= j < i ==> !((#[trigger] departments@[j]).system_id == sys
                    && departments@[j].department_name@ == name@),
        decreases departments@.len() - i,
    {
        if departments[i].system_id == sys && departments[i].department_name == *name {
            return Some(i);
        }
        i = i + 1;
    }
    None
}

/// The departments of tenant `sys`.
pub fn departments_of_system(departments: &Vec<Department>, sys: i32) -> (r: Vec<usize>)
    ensures
        forall|k: int|
            0 <= k < r@.len() ==> #[trigger] r@[k] < departments@.len()
                && departments@[r@[k] as int].system_id == sys,
        forall|k1: int, k2: int| 0 <= k1 < k2 < r@.len() ==> r@[k1] < r@[k2],
        forall|j: int|
            0 <= j < departments@.len() && (#[trigger] departments@[j]).system_id == sys
                ==> exists|k: int| 0 <= k < r@.len() && #[trigger] r@[k] as int == j,
{
    let mut r: Vec<usize> = Vec::new();
    let mut i: usize = 0;
    while i < departments.len()
        invariant
            0 <= i <= departments@.len(),
            forall|k: int|
                0 <= k < r@.len() ==> #[trigger] r@[k] < i && departments@[r@[k] as int].system_id
                    == sys,
            forall|k1: int, k2: int| 0 <= k1 < k2 < r@.len() ==> r@[k1] < r@[k2],
            forall|j: int|
                0 <= j < i && (#[trigger] departments@[j]).system_id == sys ==> exists|k: int|
                    0 <= k < r@.len() && #[trigger] r@[k] as int == j,
        decreases departments@.len() - i,
    {
        let ghost prev = r@;
        if departments[i].system_id == sys {
            r.push(i);
        }
        i = i + 1;
        proof {
            assert forall|j: int|
                0 <= j < i && (#[trigger] departments@[j]).system_id == sys implies exists|k: int|
                0 <= k < r@.len() && #[trigger] r@[k] as int == j by {
                if j == i - 1 {
                    assert(r@[r@.len() - 1] as int == j);
                } else {
                    let k0 = choose|k: int| 0 <= k < prev.len() && #[trigger] prev[k] as int == j;
                    assert(r@[k0] as int == j);
                }
            }
        }
    }
    r
}

/// Copies out the display names of the departments at `idx`.
pub fn department_names(departments: &Vec<Department>, idx: &Vec<usize>) -> (r: Vec<String>)
    requires
        forall|k: int| 0 <= k < idx@.len() ==> #[trigger] idx@[k] < departments@.len(),
    ensures
        r@.len() == idx@.len(),
        forall|k: int|
            0 <= k < idx@.len() ==> #[trigger] r@[k] == departments@[idx@[k] as int].department_name,
{
    let mut r: Vec<String> = Vec::new();
    let mut k: usize = 0;
    while k < idx.len()
        invariant
            0 <= k <= idx@.len(),
            forall|j: int| 0 <= j < idx@.len() ==> #[trigger] idx@[j] < departments@.len(),
            r@.len() == k,
            forall|j: int|
                0 <= j < k ==> #[trigger] r@[j] == departments@[idx@[j] as int].department_name,
        decreases idx@.len() - k,
    {
        r.push(departments[idx[k]].department_name.clone());
        k = k + 1;
    }
    r
}

/// Whether `assists[j]` has `employee_id` among its participants.
pub open spec fn spec_assist_joined(assists: Seq<Assist>, employee_id: i32, j: int) -> bool {
    0 <= j < assists.len() && (#[trigger] assists[j]).participant_ids@.contains(employee_id)
}

/// The assists `employee_id` participates in.
pub fn assists_by_participant(assists: &Vec<Assist>, employee_id: i32) -> (r: Vec<usize>)
    ensures
        forall|k: int|
            0 <= k < r@.len() ==> spec_assist_joined(assists@, employee_id, #[trigger] r@[k] as int),
        forall|k1: int, k2: int| 0 <= k1 < k2 < r@.len() ==> r@[k1] < r@[k2],
        forall|j: int|
            spec_assist_joined(assists@, employee_id, j) ==> exists|k: int|
                0 <= k < r@.len() && #[trigger] r@[k] as int == j,
{
    let mut r: Vec<usize> = Vec::new();
    let mut i: usize = 0;
    while i < assists.len()
        invariant
            0 <= i <= assists@.len(),
            forall|k: int|
                0 <= k < r@.len() ==> #[trigger] r@[k] < i && spec_assist_joined(
                    assists@,
                    employee_id,
                    r@[k] as int,
                ),
            forall|k1: int, k2: int| 0 <= k1 < k2 < r@.len() ==> r@[k1] < r@[k2],
            forall|j: int|
                0 <= j < i && spec_assist_joined(assists@, employee_id, j) ==> exists|k: int|
                    0 <= k < r@.len() && #[trigger] r@[k] as int == j,
        decreases assists@.len() - i,
    {
        let ghost prev = r@;
        if crate::assist::contains_id(&assists[i].participant_ids, employee_id) {
            r.push(i);
        }
        i = i + 1;
        proof {
            assert forall|j: int|
                0 <= j < i && spec_assist_joined(assists@, employee_id, j) implies exists|k: int|
                0 <= k < r@.len() && #[trigger] r@[k] as int == j by {
                if j == i - 1 {
                    assert(r@[r@.len() - 1] as int == j);
                } else {
                    let k0 = choose|k: int| 0 <= k < prev.len() && #[trigger] prev[k] as int == j;
                    assert(r@[k0] as int == j);
                }
            }
        }
    }
    r
}

/// Whether `assists[j]` was submitted by `employee_id` and has closed.
pub open spec fn spec_assist_submitted_closed(assists: Seq<Assist>, employee_id: i32, j: int) -> bool {
    0 <= j < assists.len() && (#[trigger] assists[j]).submitter_id == employee_id && assists[j].closed
}

/// The closed assists `employee_id` submitted.
pub fn assists_by_submitter(assists: &Vec<Assist>, employee_id: i32) -> (r: Vec<usize>)
    ensures
        forall|k: int|
            0 <= k < r@.len() ==> spec_assist_submitted_closed(
                assists@,
                employee_id,
                #[trigger] r@[k] as int,
            ),
        forall|k1: int, k2: int| 0 <= k1 < k2 < r@.len() ==> r@[k1] < r@[k2],
        forall|j: int|
            spec_assist_submitted_closed(assists@, employee_id, j) ==> exists|k: int|
                0 <= k < r@.len() && #[trigger] r@[k] as int == j,
{
    let mut r: Vec<usize> = Vec::new();
    let mut i: usize = 0;
    while i < assists.len()
        invariant
            0 <= i <= assists@.len(),
            forall|k: int|
                0 <= k < r@.len() ==> #[trigger] r@[k] < i && spec_assist_submitted_closed(
                    assists@,
                    employee_id,
                    r@[k] as int,
                ),
            forall|k1: int, k2: int| 0 <= k1 < k2 < r@.len() ==> r@[k1] < r@[k2],
            forall|j: int|
                0 <= j < i && spec_assist_submitted_closed(assists@, employee_id, j) ==> exists|k: int|
                    0 <= k < r@.len() && #[trigger] r@[k] as int == j,
        decreases assists@.len() - i,
    {
        let ghost prev = r@;
        if assists[i].submitter_id == employee_id && assists[i].closed {
            r.push(i);
        }
        i = i + 1;
        proof {
            assert forall|j: int|
                0 <= j < i && spec_assist_submitted_closed(assists@, employee_id, j)
                implies exists|k: int| 0 <= k < r@.len() && #[trigger] r@[k] as int == j by {
                if j == i - 1 {
                    assert(r@[r@.len() - 1] as int == j);
                } else {
                    let k0 = choose|k: int| 0 <= k < prev.len() && #[trigger] prev[k] as int == j;
                    assert(r@[k0] as int == j);
                }
            }
        }
    }
    r
}

/// Finds the first assist with id `id`.
pub fn find_assist(assists: &Vec<Assist>, id: i32) -> (r: Option<usize>)
    ensures
        r matches Some(u) ==> u < assists@.len() && assists@[u as int].id == id && forall|j: int|
            0 <= j < u ==> (#[trigger] assists@[j]).id != id,
        r is None ==> forall|j: int| 0 <= j < assists@.len() ==> (#[trigger] assists@[j]).id != id,
{
    let mut i: usize = 0;
    while i < assists.len()
        invariant
            0 <= i <= assists@.len(),
            forall|j: int| 0 <= j < i ==> (#[trigger] assists@[j]).id != id,
        decreases assists@.len() - i,
    {
        if assists[i].id == id {
            return Some(i);
        }
        i = i + 1;
    }
    None
}

} // verus!
