use ticketcore::api::GetPieChartDataResponse;
use ticketcore::entities::{Fund, Ticket};
use ticketcore::errors::AppError;
use ticketcore::report::{
    bar_chart_daily, bar_chart_weekly, get_pie_chart_data, get_table_by_date, pie_chart_daily,
    pie_chart_weekly, weekday_of,
};

fn rp_ticket(id: i32, created: i64) -> Ticket {
    Ticket {
        id,
        creator_id: 2,
        approval_id: Some(11),
        last_approver_id: None,
        title: "title".to_string(),
        amount: 500,
        reason: "reason".to_string(),
        address: "address".to_string(),
        company: None,
        funds: vec![Fund { reason: "supplies".to_string(), amount: 500 }],
        department_ids: vec![],
        system_id: 1,
        receiver_id: None,
        created_time: created,
        approved_time: None,
        received_time: None,
        finished_time: None,
        rejected_time: None,
    }
}

// 2024-01-10 00:00:00 UTC.
const DAY_D: i64 = 1704844800;

#[test]
fn date_texts_are_read_to_the_exact_second() {
    // One ticket approved at the very last second of 2024-01-10, one a
    // second later: the day's chart must count the first as open and still
    // show the second in its approval phase.
    let mut last_second = rp_ticket(1, DAY_D);
    last_second.approval_id = None;
    last_second.approved_time = Some(DAY_D + 86399);
    let mut next_second = rp_ticket(2, DAY_D);
    next_second.approval_id = None;
    next_second.approved_time = Some(DAY_D + 86400);
    let tickets = vec![last_second, next_second];
    let on_d = pie_chart_daily(&tickets, "2024-01-10").unwrap();
    assert_eq!(on_d.available, 1);
    assert_eq!(on_d.approving, 1);
    let on_d1 = pie_chart_daily(&tickets, "2024-01-11").unwrap();
    assert_eq!(on_d1.available, 2);
    // Cross-check one instant against the calendar library the core's
    // parser relies on: a ticket created at a chrono-computed timestamp is
    // visible on that date and invisible the day before.
    let created = chrono::NaiveDateTime::parse_from_str("2031-07-19 05:06:07", "%Y-%m-%d %H:%M:%S")
        .unwrap()
        .and_utc()
        .timestamp();
    let far = vec![rp_ticket(3, created)];
    assert_eq!(pie_chart_daily(&far, "2031-07-19").unwrap().unapproved, 1);
    assert_eq!(pie_chart_daily(&far, "2031-07-18").unwrap().unapproved, 0);
    // Texts that are not calendar datetimes are rejected.
    assert_eq!(pie_chart_daily(&far, "2024-02-30"), Err(AppError::Validation));
    assert_eq!(pie_chart_daily(&far, "not a date"), Err(AppError::Validation));
}

#[test]
fn weekday_numbers_from_monday() {
    // 1970-01-01 was a Thursday.
    assert_eq!(weekday_of(0), 3);
    // 2024-01-10 was a Wednesday, at every second of the day.
    assert_eq!(weekday_of(DAY_D), 2);
    assert_eq!(weekday_of(DAY_D + 86399), 2);
    assert_eq!(weekday_of(DAY_D + 86400), 3);
    // 1969-12-31 was a Wednesday: instants before the epoch work too.
    assert_eq!(weekday_of(-1), 2);
    assert_eq!(weekday_of(-86400), 2);
}

#[test]
fn pie_chart_counts_each_state_bucket() {
    let mut approved = rp_ticket(2, DAY_D);
    approved.approval_id = None;
    approved.approved_time = Some(DAY_D + 3600);
    let mut rejected = rp_ticket(3, DAY_D);
    rejected.rejected_time = Some(DAY_D + 100);
    let tickets = vec![rp_ticket(1, DAY_D), approved, rejected];
    let counts = get_pie_chart_data(&tickets, DAY_D + 7200);
    assert_eq!(counts.unapproved, 1);
    assert_eq!(counts.approving, 0);
    assert_eq!(counts.available, 1);
    assert_eq!(counts.received, 0);
    assert_eq!(counts.closed, 0);
    assert_eq!(counts.rejected, 1);
}

#[test]
fn daily_pie_chart_reads_the_day_from_the_date_text() {
    // Created on 2024-01-10 and approved the day after.  The reconstruction
    // sees the recorded approval instant, so day D shows the ticket still in
    // its approval phase, and day D+1 shows it open.
    let mut t = rp_ticket(1, DAY_D + 3600);
    t.approval_id = None;
    t.approved_time = Some(DAY_D + 86400 + 3600);
    let tickets = vec![t];
    let on_d = pie_chart_daily(&tickets, "2024-01-10").unwrap();
    assert_eq!(on_d.approving, 1);
    assert_eq!(on_d.available, 0);
    let on_d1 = pie_chart_daily(&tickets, "2024-01-11").unwrap();
    assert_eq!(on_d1.unapproved, 0);
    assert_eq!(on_d1.available, 1);
    // A day before the ticket existed counts nothing at all.
    let early = pie_chart_daily(&tickets, "2020-01-01").unwrap();
    assert_eq!(early.unapproved + early.approving + early.available, 0);
    assert_eq!(pie_chart_daily(&tickets, "2024-01-32"), Err(AppError::Validation));
}

#[test]
fn weekly_pie_chart_is_the_sum_of_seven_daily_charts() {
    let mut approved = rp_ticket(2, DAY_D);
    approved.approval_id = None;
    approved.approved_time = Some(DAY_D + 86400 + 3600);
    let tickets = vec![rp_ticket(1, DAY_D + 2 * 86400), approved];
    let weekly = pie_chart_weekly(&tickets, "2024-01-16").unwrap();
    let days = [
        "2024-01-16",
        "2024-01-15",
        "2024-01-14",
        "2024-01-13",
        "2024-01-12",
        "2024-01-11",
        "2024-01-10",
    ];
    let mut sum = GetPieChartDataResponse {
        unapproved: 0,
        approving: 0,
        available: 0,
        received: 0,
        closed: 0,
        rejected: 0,
    };
    for day in days.iter() {
        let daily = pie_chart_daily(&tickets, day).unwrap();
        sum.unapproved += daily.unapproved;
        sum.approving += daily.approving;
        sum.available += daily.available;
        sum.received += daily.received;
        sum.closed += daily.closed;
        sum.rejected += daily.rejected;
    }
    assert_eq!(weekly, sum);
    // The sum double-counts across days: this documented approximation is
    // what callers must accept.
    assert_eq!(weekly.unapproved, 5);
    assert_eq!(weekly.available, 6);
}

#[test]
fn daily_bar_chart_labels_six_periods_of_the_day() {
    let mut done = rp_ticket(2, DAY_D);
    done.rejected_time = Some(DAY_D + 5 * 3600);
    let tickets = vec![rp_ticket(1, DAY_D), done];
    let bars = bar_chart_daily(&tickets, "2024-01-10").unwrap();
    assert_eq!(bars.len(), 6);
    for bar in bars.iter() {
        assert_eq!(bar.weekday, 2);
    }
    assert_eq!(bars[0].period.as_deref(), Some("0:00-4:00"));
    assert_eq!(bars[5].period.as_deref(), Some("20:00-24:00"));
    // In the first period both tickets are open; from the second period on
    // the rejection at five o'clock shows.
    assert_eq!(bars[0].open, 2);
    assert_eq!(bars[0].closed, 0);
    assert_eq!(bars[1].open, 1);
    assert_eq!(bars[1].closed, 1);
    assert_eq!(bar_chart_daily(&tickets, "nonsense").err(), Some(AppError::Validation));
}

#[test]
fn weekly_bar_chart_walks_seven_days_backwards() {
    let tickets = vec![rp_ticket(1, DAY_D)];
    let bars = bar_chart_weekly(&tickets, "2024-01-16").unwrap();
    assert_eq!(bars.len(), 7);
    // 2024-01-16 was a Tuesday; the walk runs Tue, Mon, Sun, Sat, ...
    let weekdays: Vec<i32> = bars.iter().map(|b| b.weekday).collect();
    assert_eq!(weekdays, vec![1, 0, 6, 5, 4, 3, 2]);
    for bar in bars.iter() {
        assert_eq!(bar.period, None);
        assert_eq!(bar.open, 1);
        assert_eq!(bar.closed, 0);
    }
}

#[test]
fn table_buckets_open_and_done_by_amount_range() {
    let mut cheap = rp_ticket(1, DAY_D);
    cheap.amount = 50;
    let mut pricey = rp_ticket(2, DAY_D);
    pricey.amount = 800;
    pricey.rejected_time = Some(DAY_D + 10);
    let tickets = vec![cheap, pricey];
    let table = get_table_by_date(&tickets, &vec![0, 100, 1000], DAY_D + 3600);
    assert_eq!(table.len(), 2);
    assert_eq!(table[0].range_low, 0);
    assert_eq!(table[0].range_high, 100);
    assert_eq!(table[0].open, 1);
    assert_eq!(table[0].closed, 0);
    assert_eq!(table[1].open, 0);
    assert_eq!(table[1].closed, 1);
    assert!(get_table_by_date(&tickets, &vec![], DAY_D).is_empty());
}
