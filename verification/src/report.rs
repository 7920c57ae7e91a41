use vstd::prelude::*;
use vstd::string::StrSliceExecFns;
use vstd::string::StringExecFns;

use crate::api::{BarChartState, GetPieChartDataResponse, TableState};
use crate::datetime::{parse_datetime, parsed_datetime};
use crate::entities::{Ticket, TicketState};
use crate::errors::AppError;
use crate::state::spec_state_at;

verus! {

/// One family of ticket buckets that the charts count.
#[derive(Debug, Clone, Copy, PartialEq, Eq, Structural)]
pub enum CountKind {
    /// Tickets showing exactly this state.
    InState(TicketState),
    /// Tickets still in flight: unapproved, approving, open or assigned.
    StillOpen,
    /// Tickets done: closed or rejected.
    Done,
    /// Still in flight, with an amount inside the inclusive range.
    StillOpenIn(i32, i32),
    /// Done, with an amount inside the inclusive range.
    DoneIn(i32, i32),
}

/// Whether a state counts as still in flight.
pub open spec fn spec_is_open_state(s: TicketState) -> bool {
    s == TicketState::Unapproved || s == TicketState::Approving || s == TicketState::Open || s
        == TicketState::Assigned
}

/// Whether ticket `t`, observed at `ts`, falls into the bucket `kind`.
pub open spec fn spec_bucket(t: Ticket, ts: i64, kind: CountKind) -> bool {
    match kind {
        CountKind::InState(s) => spec_state_at(t, ts) == Some(s),
        CountKind::StillOpen => spec_state_at(t, ts) matches Some(s) && spec_is_open_state(s),
        CountKind::Done => spec_state_at(t, ts) matches Some(s) && !spec_is_open_state(s),
        CountKind::StillOpenIn(lo, hi) => lo <= t.amount <= hi && (spec_state_at(t, ts) matches Some(
            s,
        ) && spec_is_open_state(s)),
        CountKind::DoneIn(lo, hi) => lo <= t.amount <= hi && (spec_state_at(t, ts) matches Some(s)
            && !spec_is_open_state(s)),
    }
}

/// How many of the first `n` tickets fall into the bucket `kind` at `ts`.
pub open spec fn spec_count(tickets: Seq<Ticket>, ts: i64, kind: CountKind, n: int) -> int
    decreases n,
{
    if n <= 0 {
        0
    } else {
        spec_count(tickets, ts, kind, n - 1) + (if spec_bucket(tickets[n - 1], ts, kind) {
            1int
        } else {
            0int
        })
    }
}

/// A bucket count lies between zero and the number of tickets counted.
pub proof fn lemma_count_bounds(tickets: Seq<Ticket>, ts: i64, kind: CountKind, n: int)
    requires
        0 <= n,
    ensures
        0 <= spec_count(tickets, ts, kind, n) <= n,
    decreases n,
{
    if n > 0 {
        lemma_count_bounds(tickets, ts, kind, n - 1);
    }
}

/// Whether ticket `t`, observed at `ts`, falls into the bucket `kind`.
fn bucket_test(t: &Ticket, ts: i64, kind: CountKind) -> (r: bool)
    ensures
        r == spec_bucket(*t, ts, kind),
{
    let state = t.get_state_at_moment(ts);
    match kind {
        CountKind::InState(s) => {
            match state {
                Some(actual) => actual == s,
                None => false,
            }
        },
        CountKind::StillOpen => {
            match state {
                Some(actual) => is_open_state(actual),
                None => false,
            }
        },
        CountKind::Done => {
            match state {
                Some(actual) => !is_open_state(actual),
                None => false,
            }
        },
        CountKind::StillOpenIn(lo, hi) => {
            lo <= t.amount && t.amount <= hi && match state {
                Some(actual) => is_open_state(actual),
                None => false,
            }
        },
        CountKind::DoneIn(lo, hi) => {
            lo <= t.amount && t.amount <= hi && match state {
                Some(actual) => !is_open_state(actual),
                None => false,
            }
        },
    }
}

/// Whether `s` counts as still in flight.
fn is_open_state(s: TicketState) -> (r: bool)
    ensures
        r == spec_is_open_state(s),
{
    match s {
        TicketState::Unapproved => true,
        TicketState::Approving => true,
        TicketState::Open => true,
        TicketState::Assigned => true,
        TicketState::Closed => false,
        TicketState::Rejected => false,
    }
}

/// Counts the tickets falling into the bucket `kind` at `ts`.
pub fn count_bucket(tickets: &Vec<Ticket>, ts: i64, kind: CountKind) -> (r: u64)
    ensures
        r as int == spec_count(tickets@, ts, kind, tickets@.len() as int),
{
    let mut count: u64 = 0;
    let mut i: usize = 0;
    while i < tickets.len()
        invariant
            0 <= i <= tickets@.len(),
            count as int == spec_count(tickets@, ts, kind, i as int),
            count <= i,
        decreases tickets@.len() - i,
    {
        if bucket_test(&tickets[i], ts, kind) {
            count = count + 1;
        }
        i = i + 1;
    }
    count
}

/// The bucket counts of every ticket of a tenant at instant `ts`.
pub open spec fn spec_pie_at(tickets: Seq<Ticket>, ts: i64) -> GetPieChartDataResponse {
    GetPieChartDataResponse {
        unapproved: spec_count(
            tickets,
            ts,
            CountKind::InState(TicketState::Unapproved),
            tickets.len() as int,
        ) as u64,
        approving: spec_count(
            tickets,
            ts,
            CountKind::InState(TicketState::Approving),
            tickets.len() as int,
        ) as u64,
        available: spec_count(
            tickets,
            ts,
            CountKind::InState(TicketState::Open),
            tickets.len() as int,
        ) as u64,
        received: spec_count(
            tickets,
            ts,
            CountKind::InState(TicketState::Assigned),
            tickets.len() as int,
        ) as u64,
        closed: spec_count(
            tickets,
            ts,
            CountKind::InState(TicketState::Closed),
            tickets.len() as int,
        ) as u64,
        rejected: spec_count(
            tickets,
            ts,
            CountKind::InState(TicketState::Rejected),
            tickets.len() as int,
        ) as u64,
    }
}

/// Buckets every ticket at instant `ts` into the point-in-time counters.
pub fn get_pie_chart_data(tickets: &Vec<Ticket>, ts: i64) -> (r: GetPieChartDataResponse)
    ensures
        r == spec_pie_at(tickets@, ts),
{
    proof {
        lemma_count_bounds(
            tickets@,
            ts,
            CountKind::InState(TicketState::Unapproved),
            tickets@.len() as int,
        );
        lemma_count_bounds(
            tickets@,
            ts,
            CountKind::InState(TicketState::Approving),
            tickets@.len() as int,
        );
        lemma_count_bounds(
            tickets@,
            ts,
            CountKind::InState(TicketState::Open),
            tickets@.len() as int,
        );
        lemma_count_bounds(
            tickets@,
            ts,
            CountKind::InState(TicketState::Assigned),
            tickets@.len() as int,
        );
        lemma_count_bounds(
            tickets@,
            ts,
            CountKind::InState(TicketState::Closed),
            tickets@.len() as int,
        );
        lemma_count_bounds(
            tickets@,
            ts,
            CountKind::InState(TicketState::Rejected),
            tickets@.len() as int,
        );
    }
    GetPieChartDataResponse {
        unapproved: count_bucket(tickets, ts, CountKind::InState(TicketState::Unapproved)),
        approving: count_bucket(tickets, ts, CountKind::InState(TicketState::Approving)),
        available: count_bucket(tickets, ts, CountKind::InState(TicketState::Open)),
        received: count_bucket(tickets, ts, CountKind::InState(TicketState::Assigned)),
        closed: count_bucket(tickets, ts, CountKind::InState(TicketState::Closed)),
        rejected: count_bucket(tickets, ts, CountKind::InState(TicketState::Rejected)),
    }
}

pub open spec fn spec_weekday(ts: int) -> int {
    (((ts + 9253440000000000000) % 604800) / 86400 + 3) % 7
}

/// The day of week of the instant `ts`, numbered from Monday as zero.
pub fn weekday_of(ts: i64) -> (r: i32)
    ensures
        0 <= r < 7,
        r as int == spec_weekday(ts as int),
{
    let shifted: i128 = (ts as i128) + 9253440000000000000i128;
    let m: i128 = shifted % 604800;
    let wd: i128 = (m / 86400 + 3) % 7;
    wd as i32
}

// ---------------------------------------------------------------------------
// Weekly aggregation
// ---------------------------------------------------------------------------

/// The sum of `d` daily point-evaluations of the bucket `kind`, one per day
/// walking back from `ts`.
pub open spec fn spec_week_total(tickets: Seq<Ticket>, ts: i64, kind: CountKind, d: int) -> int
    decreases d,
{
    if d <= 0 {
        0
    } else {
        spec_week_total(tickets, ts, kind, d - 1) + spec_count(
            tickets,
            (ts - (d - 1) * 86400) as i64,
            kind,
            tickets.len() as int,
        )
    }
}

/// The weekly counters: the arithmetic sum of seven daily point-evaluations,
/// not a true windowed count.
pub open spec fn spec_pie_week(tickets: Seq<Ticket>, ts: i64) -> GetPieChartDataResponse {
    GetPieChartDataResponse {
        unapproved: spec_week_total(tickets, ts, CountKind::InState(TicketState::Unapproved), 7) as u64,
        approving: spec_week_total(tickets, ts, CountKind::InState(TicketState::Approving), 7) as u64,
        available: spec_week_total(tickets, ts, CountKind::InState(TicketState::Open), 7) as u64,
        received: spec_week_total(tickets, ts, CountKind::InState(TicketState::Assigned), 7) as u64,
        closed: spec_week_total(tickets, ts, CountKind::InState(TicketState::Closed), 7) as u64,
        rejected: spec_week_total(tickets, ts, CountKind::InState(TicketState::Rejected), 7) as u64,
    }
}

/// Sums seven daily point-evaluations, one per day walking back from `ts`.
/// Each counter of the result is the literal sum of the seven
/// individually-computed daily counters: callers must accept this documented
/// approximation of a windowed count.
pub fn get_pie_chart_week(tickets: &Vec<Ticket>, ts: i64) -> (r: GetPieChartDataResponse)
    requires
        ts >= i64::MIN + 518400,
        tickets@.len() <= 0x2000000000000000,
    ensures
        r == spec_pie_week(tickets@, ts),
{
    let mut unapproved: u64 = 0;
    let mut approving: u64 = 0;
    let mut available: u64 = 0;
    let mut received: u64 = 0;
    let mut closed: u64 = 0;
    let mut rejected: u64 = 0;
    let mut d: u64 = 0;
    while d < 7
        invariant
            0 <= d <= 7,
            ts >= i64::MIN + 518400,
            tickets@.len() <= 0x2000000000000000,
            unapproved as int == spec_week_total(
                tickets@,
                ts,
                CountKind::InState(TicketState::Unapproved),
                d as int,
            ),
            approving as int == spec_week_total(
                tickets@,
                ts,
                CountKind::InState(TicketState::Approving),
                d as int,
            ),
            available as int == spec_week_total(
                tickets@,
                ts,
                CountKind::InState(TicketState::Open),
                d as int,
            ),
            received as int == spec_week_total(
                tickets@,
                ts,
                CountKind::InState(TicketState::Assigned),
                d as int,
            ),
            closed as int == spec_week_total(
                tickets@,
                ts,
                CountKind::InState(TicketState::Closed),
                d as int,
            ),
            rejected as int == spec_week_total(
                tickets@,
                ts,
                CountKind::InState(TicketState::Rejected),
                d as int,
            ),
            unapproved as int <= d * tickets@.len(),
            approving as int <= d * tickets@.len(),
            available as int <= d * tickets@.len(),
            received as int <= d * tickets@.len(),
            closed as int <= d * tickets@.len(),
            rejected as int <= d * tickets@.len(),
        decreases 7 - d,
    {
        let td: i64 = ts - (d as i64) * 86400;
        proof {
            assert((d + 1) * tickets@.len() == d * tickets@.len() + tickets@.len())
                by (nonlinear_arith);
            assert(7 * tickets@.len() <= 7 * 0x2000000000000000) by (nonlinear_arith)
                requires tickets@.len() <= 0x2000000000000000;
            assert(d * tickets@.len() <= 7 * tickets@.len()) by (nonlinear_arith)
                requires 0 <= d <= 7;
            lemma_count_bounds(
                tickets@,
                td,
                CountKind::InState(TicketState::Unapproved),
                tickets@.len() as int,
            );
            lemma_count_bounds(
                tickets@,
                td,
                CountKind::InState(TicketState::Approving),
                tickets@.len() as int,
            );
            lemma_count_bounds(
                tickets@,
                td,
                CountKind::InState(TicketState::Open),
                tickets@.len() as int,
            );
            lemma_count_bounds(
                tickets@,
                td,
                CountKind::InState(TicketState::Assigned),
                tickets@.len() as int,
            );
            lemma_count_bounds(
                tickets@,
                td,
                CountKind::InState(TicketState::Closed),
                tickets@.len() as int,
            );
            lemma_count_bounds(
                tickets@,
                td,
                CountKind::InState(TicketState::Rejected),
                tickets@.len() as int,
            );
        }
        unapproved = unapproved + count_bucket(
            tickets,
            td,
            CountKind::InState(TicketState::Unapproved),
        );
        approving = approving + count_bucket(
            tickets,
            td,
            CountKind::InState(TicketState::Approving),
        );
        available = available + count_bucket(tickets, td, CountKind::InState(TicketState::Open));
        received = received + count_bucket(tickets, td, CountKind::InState(TicketState::Assigned));
        closed = closed + count_bucket(tickets, td, CountKind::InState(TicketState::Closed));
        rejected = rejected + count_bucket(tickets, td, CountKind::InState(TicketState::Rejected));
        d = d + 1;
    }
    GetPieChartDataResponse { unapproved, approving, available, received, closed, rejected }
}

// ---------------------------------------------------------------------------
// Date-keyed chart endpoints
// ---------------------------------------------------------------------------

/// The datetime text that closes the day of `date`.
fn day_end_key(date: &str) -> (s: String)
    ensures
        s@ == date@ + " 23:59:59"@,
{
    let mut s = date.to_owned();
    s.append(" 23:59:59");
    s
}

/// The daily pie chart for `date`: point-in-time counters at the last second
/// of that day.  A text that is not a calendar date is rejected.
pub fn pie_chart_daily(tickets: &Vec<Ticket>, date: &str) -> (r: Result<
    GetPieChartDataResponse,
    AppError,
>)
    ensures
        parsed_datetime(date@ + " 23:59:59"@) is None ==> r == Err::<
            GetPieChartDataResponse,
            AppError,
        >(AppError::Validation),
        parsed_datetime(date@ + " 23:59:59"@) matches Some(ts) ==> r == Ok::<
            GetPieChartDataResponse,
            AppError,
        >(spec_pie_at(tickets@, ts)),
{
    let key = day_end_key(date);
    match parse_datetime(key.as_str()) {
        None => Err(AppError::Validation),
        Some(ts) => Ok(get_pie_chart_data(tickets, ts)),
    }
}

/// The weekly pie chart for `date`: the sum of seven daily point-evaluations
/// ending at that date.  A text that is not a calendar date, or one so far in
/// the past that the seven-day walk leaves the representable range, is
/// rejected.
pub fn pie_chart_weekly(tickets: &Vec<Ticket>, date: &str) -> (r: Result<
    GetPieChartDataResponse,
    AppError,
>)
    requires
        tickets@.len() <= 0x2000000000000000,
    ensures
        parsed_datetime(date@ + " 23:59:59"@) is None ==> r == Err::<
            GetPieChartDataResponse,
            AppError,
        >(AppError::Validation),
        parsed_datetime(date@ + " 23:59:59"@) matches Some(ts) ==> (if ts >= i64::MIN + 518400 {
            r == Ok::<GetPieChartDataResponse, AppError>(spec_pie_week(tickets@, ts))
        } else {
            r == Err::<GetPieChartDataResponse, AppError>(AppError::Validation)
        }),
{
    let key = day_end_key(date);
    match parse_datetime(key.as_str()) {
        None => Err(AppError::Validation),
        Some(ts) => {
            if ts >= i64::MIN + 518400 {
                Ok(get_pie_chart_week(tickets, ts))
            } else {
                Err(AppError::Validation)
            }
        },
    }
}

/// The end instant of the bar chart's day period `i`.
pub open spec fn spec_end_time(i: int) -> Seq<char> {
    if i == 0 {
        "3:59:59"@
    } else if i == 1 {
        "7:59:59"@
    } else if i == 2 {
        "11:59:59"@
    } else if i == 3 {
        "15:59:59"@
    } else if i == 4 {
        "21:59:59"@
    } else {
        "23:59:59"@
    }
}

/// The display label of the bar chart's day period `i`.
pub open spec fn spec_period(i: int) -> Seq<char> {
    if i == 0 {
        "0:00-4:00"@
    } else if i == 1 {
        "4:00-8:00"@
    } else if i == 2 {
        "8:00-12:00"@
    } else if i == 3 {
        "12:00-16:00"@
    } else if i == 4 {
        "16:00-20:00"@
    } else {
        "20:00-24:00"@
    }
}

/// What one bar of the daily bar chart must show for period `i` of `date`:
/// the period's end instant parses, and the bar carries that instant's
/// weekday, the period's label, and the still-open/done counts at it.
pub open spec fn spec_daily_bar_ok(
    tickets: Seq<Ticket>,
    date: Seq<char>,
    b: BarChartState,
    i: int,
) -> bool {
    parsed_datetime(date + " "@ + spec_end_time(i)) matches Some(ts) && ({
        &&& b.weekday as int == spec_weekday(ts as int)
        &&& b.period matches Some(p) && p@ == spec_period(i)
        &&& b.open as int == spec_count(tickets, ts, CountKind::StillOpen, tickets.len() as int)
        &&& b.closed as int == spec_count(tickets, ts, CountKind::Done, tickets.len() as int)
    })
}

/// The still-open and done counts at instant `ts`.
pub fn bar_counts(tickets: &Vec<Ticket>, ts: i64) -> (r: (u64, u64))
    ensures
        r.0 as int == spec_count(tickets@, ts, CountKind::StillOpen, tickets@.len() as int),
        r.1 as int == spec_count(tickets@, ts, CountKind::Done, tickets@.len() as int),
{
    (count_bucket(tickets, ts, CountKind::StillOpen), count_bucket(tickets, ts, CountKind::Done))
}

/// The daily bar chart of `date`: six bars, one per period of the day, each
/// counting still-open against done tickets at the period's end.  A text
/// that is not a calendar date is rejected.
pub fn bar_chart_daily(tickets: &Vec<Ticket>, date: &str) -> (r: Result<Vec<BarChartState>, AppError>)
    ensures
        r matches Ok(v) ==> v@.len() == 6 && forall|i: int|
            0 <= i < 6 ==> spec_daily_bar_ok(tickets@, date@, #[trigger] v@[i], i),
        r is Err ==> r == Err::<Vec<BarChartState>, AppError>(AppError::Validation) && exists|i: int|
            0 <= i < 6 && parsed_datetime(date@ + " "@ + spec_end_time(i)) is None,
{
    let mut v: Vec<BarChartState> = Vec::new();
    let mut i: usize = 0;
    while i < 6
        invariant
            0 <= i <= 6,
            v@.len() == i,
            forall|k: int| 0 <= k < i ==> spec_daily_bar_ok(tickets@, date@, #[trigger] v@[k], k),
        decreases 6 - i,
    {
        let end: &str = if i == 0 {
            "3:59:59"
        } else if i == 1 {
            "7:59:59"
        } else if i == 2 {
            "11:59:59"
        } else if i == 3 {
            "15:59:59"
        } else if i == 4 {
            "21:59:59"
        } else {
            "23:59:59"
        };
        let label: &str = if i == 0 {
            "0:00-4:00"
        } else if i == 1 {
            "4:00-8:00"
        } else if i == 2 {
            "8:00-12:00"
        } else if i == 3 {
            "12:00-16:00"
        } else if i == 4 {
            "16:00-20:00"
        } else {
            "20:00-24:00"
        };
        proof {
            assert(end@ == spec_end_time(i as int));
            assert(label@ == spec_period(i as int));
        }
        let mut key = date.to_owned();
        key.append(" ");
        key.append(end);
        let ts = match parse_datetime(key.as_str()) {
            None => {
                return Err(AppError::Validation);
            },
            Some(ts) => ts,
        };
        let weekday = weekday_of(ts);
        let (open, closed) = bar_counts(tickets, ts);
        v.push(BarChartState { weekday, period: Some(label.to_owned()), open, closed });
        i = i + 1;
    }
    Ok(v)
}

/// What one bar of the weekly bar chart must show for the day `d` days
/// before the base instant `ts0`.
pub open spec fn spec_weekly_bar_ok(tickets: Seq<Ticket>, ts0: i64, b: BarChartState, d: int) -> bool {
    let ts = (ts0 - d * 86400) as i64;
    &&& b.weekday as int == spec_weekday(ts as int)
    &&& b.period is None
    &&& b.open as int == spec_count(tickets, ts, CountKind::StillOpen, tickets.len() as int)
    &&& b.closed as int == spec_count(tickets, ts, CountKind::Done, tickets.len() as int)
}

/// The weekly bar chart of `date`: seven bars, one per day walking back from
/// the last second of that date, each counting still-open against done
/// tickets at that day's end.  A text that is not a calendar date, or one so
/// far in the past that the walk leaves the representable range, is
/// rejected.
pub fn bar_chart_weekly(tickets: &Vec<Ticket>, date: &str) -> (r: Result<
    Vec<BarChartState>,
    AppError,
>)
    ensures
        parsed_datetime(date@ + " 23:59:59"@) is None ==> r == Err::<Vec<BarChartState>, AppError>(
            AppError::Validation,
        ),
        parsed_datetime(date@ + " 23:59:59"@) matches Some(ts0) ==> (if ts0 >= i64::MIN + 518400 {
            r matches Ok(v) && v@.len() == 7 && forall|d: int|
                0 <= d < 7 ==> spec_weekly_bar_ok(tickets@, ts0, #[trigger] v@[d], d)
        } else {
            r == Err::<Vec<BarChartState>, AppError>(AppError::Validation)
        }),
{
    let key = day_end_key(date);
    let ts0 = match parse_datetime(key.as_str()) {
        None => {
            return Err(AppError::Validation);
        },
        Some(ts0) => ts0,
    };
    if ts0 < i64::MIN + 518400 {
        return Err(AppError::Validation);
    }
    let mut v: Vec<BarChartState> = Vec::new();
    let mut d: u64 = 0;
    while d < 7
        invariant
            0 <= d <= 7,
            ts0 >= i64::MIN + 518400,
            v@.len() == d,
            forall|k: int| 0 <= k < d ==> spec_weekly_bar_ok(tickets@, ts0, #[trigger] v@[k], k),
        decreases 7 - d,
    {
        let ts: i64 = ts0 - (d as i64) * 86400;
        let weekday = weekday_of(ts);
        let (open, closed) = bar_counts(tickets, ts);
        v.push(BarChartState { weekday, period: None, open, closed });
        d = d + 1;
    }
    Ok(v)
}

/// The open/done table over consecutive amount ranges at instant `ts`: one
/// row per adjacent pair of `ranges`, counting the tickets whose amount lies
/// in the inclusive range.
pub fn get_table_by_date(tickets: &Vec<Ticket>, ranges: &Vec<i32>, ts: i64) -> (r: Vec<TableState>)
    ensures
        ranges@.len() == 0 ==> r@.len() == 0,
        ranges@.len() > 0 ==> r@.len() == ranges@.len() - 1,
        forall|i: int|
            0 <= i < r@.len() ==> #[trigger] r@[i] == (TableState {
                range_low: ranges@[i],
                range_high: ranges@[i + 1],
                open: spec_count(
                    tickets@,
                    ts,
                    CountKind::StillOpenIn(ranges@[i], ranges@[i + 1]),
                    tickets@.len() as int,
                ) as u64,
                closed: spec_count(
                    tickets@,
                    ts,
                    CountKind::DoneIn(ranges@[i], ranges@[i + 1]),
                    tickets@.len() as int,
                ) as u64,
            }),
{
    let mut r: Vec<TableState> = Vec::new();
    if ranges.len() == 0 {
        return r;
    }
    let mut i: usize = 0;
    while i < ranges.len() - 1
        invariant
            ranges@.len() > 0,
            0 <= i <= ranges@.len() - 1,
            r@.len() == i,
            forall|k: int|
                0 <= k < i ==> #[trigger] r@[k] == (TableState {
                    range_low: ranges@[k],
                    range_high: ranges@[k + 1],
                    open: spec_count(
                        tickets@,
                        ts,
                        CountKind::StillOpenIn(ranges@[k], ranges@[k + 1]),
                        tickets@.len() as int,
                    ) as u64,
                    closed: spec_count(
                        tickets@,
                        ts,
                        CountKind::DoneIn(ranges@[k], ranges@[k + 1]),
                        tickets@.len() as int,
                    ) as u64,
                }),
        decreases ranges@.len() - 1 - i,
    {
        proof {
            lemma_count_bounds(
                tickets@,
                ts,
                CountKind::StillOpenIn(ranges@[i as int], ranges@[i as int + 1]),
                tickets@.len() as int,
            );
            lemma_count_bounds(
                tickets@,
                ts,
                CountKind::DoneIn(ranges@[i as int], ranges@[i as int + 1]),
                tickets@.len() as int,
            );
        }
        let lo = ranges[i];
        let hi = ranges[i + 1];
        let open = count_bucket(tickets, ts, CountKind::StillOpenIn(lo, hi));
        let closed = count_bucket(tickets, ts, CountKind::DoneIn(lo, hi));
        r.push(TableState { range_low: lo, range_high: hi, open, closed });
        i = i + 1;
    }
    r
}

} // verus!
