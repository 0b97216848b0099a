use gym_sniper::api::ClassInfo;
use gym_sniper::clock::{LocalDateTime, MILLIS_PER_DAY, MILLIS_PER_HOUR, MILLIS_PER_MINUTE};
use gym_sniper::config::ClassTarget;
use gym_sniper::retry::{
    classify_booking_error, AttemptAction, AttemptLoop, BookingReply, FailureReason, RetryClass,
    ATTEMPT_DELAY_MILLIS, MAX_ATTEMPTS,
};
use gym_sniper::scheduler::{plan_bookings, target_matches, PlannedBooking};
use gym_sniper::snipe::{
    daemon_step, failure_message, record_outcome, step_for_status, DaemonAction, SnipeOutcome,
    SnipeStep, SnipeWait, WaitAction,
};
use gym_sniper::snipe_queue::{SnipeEntry, SnipeQueue, SnipeStatus};

/// Drives one reservation race against a scripted booking service; returns
/// the number of calls, the pauses taken and the final decision.
fn race(mut service: impl FnMut(u32) -> Result<(), String>) -> (u32, Vec<u64>, AttemptAction) {
    let mut attempts = AttemptLoop::new();
    let mut calls = 0;
    let mut pauses = Vec::new();
    loop {
        calls += 1;
        let reply = match service(calls) {
            Ok(()) => BookingReply::Booked,
            Err(text) => BookingReply::from_error_text(&text),
        };
        match attempts.record(reply) {
            AttemptAction::RetryAfter(ms) => pauses.push(ms),
            done => return (calls, pauses, done),
        }
    }
}

#[test]
fn classify_each_vendor_signal() {
    assert_eq!(
        classify_booking_error("Booking failed (400): {\"Errors\":[\"DailyBookingLimitReached\"]}"),
        RetryClass::PermanentStop
    );
    assert_eq!(classify_booking_error("Booking failed (400): TooSoonToBook"), RetryClass::NotYetOpen);
    assert_eq!(classify_booking_error("You are already booked"), RetryClass::AlreadyDone);
    assert_eq!(classify_booking_error("AlreadyBooked"), RetryClass::AlreadyDone);
    assert_eq!(classify_booking_error("ClassIsFull"), RetryClass::CapacityFull);
    assert_eq!(classify_booking_error("class full"), RetryClass::CapacityFull);
    assert_eq!(classify_booking_error("Awaitable"), RetryClass::CapacityFull);
    assert_eq!(classify_booking_error("Booking failed (500): oops"), RetryClass::Unknown);
    // Tokens are exact: case matters, and the daily limit wins over the rest.
    assert_eq!(classify_booking_error("dailybookinglimitreached"), RetryClass::Unknown);
    assert_eq!(
        classify_booking_error("DailyBookingLimitReached, already full"),
        RetryClass::PermanentStop
    );
}

#[test]
fn daily_limit_stops_after_one_attempt() {
    let (calls, pauses, action) = race(|_| Err("Booking failed (400): DailyBookingLimitReached".to_string()));
    assert_eq!(calls, 1);
    assert!(pauses.is_empty());
    assert_eq!(action, AttemptAction::Fail(FailureReason::DailyLimitReached));
    assert_eq!(failure_message(FailureReason::DailyLimitReached), "Daily booking limit reached");
}

#[test]
fn already_booked_is_success_without_second_call() {
    let (calls, pauses, action) = race(|n| {
        assert_eq!(n, 1);
        Err("Booking failed (400): You have already booked this class".to_string())
    });
    assert_eq!(calls, 1);
    assert!(pauses.is_empty());
    assert_eq!(action, AttemptAction::Succeed { newly_booked: false });
}

#[test]
fn unknown_errors_exhaust_the_attempt_budget() {
    let (calls, pauses, action) = race(|_| Err("Booking failed (500): Internal Server Error".to_string()));
    assert_eq!(calls, MAX_ATTEMPTS);
    assert_eq!(calls, 10);
    assert_eq!(pauses, vec![ATTEMPT_DELAY_MILLIS; 9]);
    assert_eq!(ATTEMPT_DELAY_MILLIS, 200);
    assert_eq!(action, AttemptAction::Fail(FailureReason::MaxAttemptsReached));
    assert_eq!(failure_message(FailureReason::MaxAttemptsReached), "Max attempts reached");
}

#[test]
fn first_success_ends_the_race() {
    let (calls, pauses, action) = race(|n| {
        if n < 4 {
            Err("TooSoonToBook".to_string())
        } else {
            Ok(())
        }
    });
    assert_eq!(calls, 4);
    assert_eq!(pauses, vec![200, 200, 200]);
    assert_eq!(action, AttemptAction::Succeed { newly_booked: true });
}

#[test]
fn capacity_full_counts_toward_the_budget() {
    let (calls, _, action) = race(|_| Err("Class is Full".to_string()));
    assert_eq!(calls, 10);
    assert_eq!(action, AttemptAction::Fail(FailureReason::MaxAttemptsReached));
}

#[test]
fn slot_status_decides_the_first_step() {
    assert_eq!(step_for_status("Bookable"), SnipeStep::AttemptNow);
    assert_eq!(step_for_status("Booked"), SnipeStep::AlreadyHeld);
    assert_eq!(step_for_status("Awaiting"), SnipeStep::AlreadyHeld);
    assert_eq!(step_for_status("Full"), SnipeStep::KeepWaiting);
    assert_eq!(step_for_status("Unavailable"), SnipeStep::KeepWaiting);
    assert_eq!(step_for_status("bookable"), SnipeStep::KeepWaiting);
}

fn at(ms: i64) -> LocalDateTime {
    LocalDateTime { utc_millis: ms, offset_seconds: 0 }
}

#[test]
fn waiting_sleeps_in_chunks_then_refreshes_polls_and_aligns() {
    let opening = 10 * MILLIS_PER_DAY;
    let mut wait = SnipeWait::new(at(opening));
    assert_eq!(wait.next_action(at(opening - 2 * MILLIS_PER_DAY)), WaitAction::Sleep(3_600_000));
    assert_eq!(wait.next_action(at(opening - 30 * MILLIS_PER_MINUTE)), WaitAction::Sleep(1_500_000));
    assert_eq!(wait.next_action(at(opening - 5 * MILLIS_PER_MINUTE)), WaitAction::RefreshLogin);
    assert!(wait.refreshed);
    assert_eq!(wait.next_action(at(opening - 5 * MILLIS_PER_MINUTE)), WaitAction::PollThenSleep(30_000));
    assert_eq!(wait.next_action(at(opening - 60_000)), WaitAction::PollThenSleep(10_000));
    assert_eq!(wait.next_action(at(opening - 20_000)), WaitAction::PollThenSleep(2000));
    assert_eq!(wait.next_action(at(opening - 1500)), WaitAction::PollThenSleep(500));
    assert_eq!(wait.next_action(at(opening - 800)), WaitAction::Sleep(800));
    assert_eq!(wait.next_action(at(opening)), WaitAction::Attempt);
    assert_eq!(wait.next_action(at(opening + 5)), WaitAction::Attempt);
}

#[test]
fn waiting_refreshes_once_even_when_started_late() {
    let mut wait = SnipeWait::new(at(1_000_000));
    assert_eq!(wait.next_action(at(1_000_000)), WaitAction::RefreshLogin);
    assert_eq!(wait.next_action(at(1_000_000)), WaitAction::Attempt);
}

#[test]
fn daemon_sleeps_by_tiers_then_snipes_when_near() {
    let now = at(1_000 * MILLIS_PER_DAY);
    let mut queue = SnipeQueue::new();
    assert_eq!(daemon_step(&queue, now), DaemonAction::Idle(60_000));

    let entry = SnipeEntry::pending(100, "Yoga".to_string(), at(now.utc_millis + 8 * MILLIS_PER_DAY), None, now);
    let opening = entry.booking_window.utc_millis;
    queue.add(entry).unwrap();

    // Window opens 22 hours from now: more than an hour away.
    assert_eq!(daemon_step(&queue, now), DaemonAction::Sleep(30 * 60_000));
    assert_eq!(daemon_step(&queue, at(opening - 45 * MILLIS_PER_MINUTE)), DaemonAction::Sleep(10 * 60_000));
    assert_eq!(daemon_step(&queue, at(opening - 20 * MILLIS_PER_MINUTE)), DaemonAction::Sleep(60_000));
    assert_eq!(daemon_step(&queue, at(opening - 5 * MILLIS_PER_MINUTE - 1)), DaemonAction::Sleep(60_000));
    assert_eq!(
        daemon_step(&queue, at(opening - 5 * MILLIS_PER_MINUTE)),
        DaemonAction::Snipe { class_id: 100 }
    );
    assert_eq!(daemon_step(&queue, at(opening + MILLIS_PER_HOUR)), DaemonAction::Snipe { class_id: 100 });

    assert!(record_outcome(&mut queue, 100, SnipeOutcome::Succeeded));
    assert_eq!(queue.snipes[0].status, SnipeStatus::Completed);
    assert_eq!(daemon_step(&queue, now), DaemonAction::Idle(60_000));
}

#[test]
fn daemon_takes_the_earliest_window_first() {
    let now = at(1_000 * MILLIS_PER_DAY);
    let mut queue = SnipeQueue::new();
    let later = SnipeEntry::pending(1, "Later".to_string(), at(now.utc_millis + 9 * MILLIS_PER_DAY), None, now);
    let sooner = SnipeEntry::pending(2, "Sooner".to_string(), at(now.utc_millis + 8 * MILLIS_PER_DAY), None, now);
    let opening = sooner.booking_window.utc_millis;
    queue.add(later).unwrap();
    queue.add(sooner).unwrap();
    assert_eq!(daemon_step(&queue, at(opening)), DaemonAction::Snipe { class_id: 2 });
    assert!(record_outcome(&mut queue, 2, SnipeOutcome::Failed("Max attempts reached".to_string())));
    assert_eq!(queue.snipes[1].status, SnipeStatus::Failed);
    assert_eq!(queue.snipes[1].error_message.as_deref(), Some("Max attempts reached"));
    assert_eq!(daemon_step(&queue, at(opening)), DaemonAction::Sleep(30 * 60_000));
}

fn class(id: u64, name: &str, start: i64, status: &str) -> ClassInfo {
    ClassInfo { id, name: name.to_string(), start_time: at(start), status: status.to_string(), trainer: None }
}

fn target(name: &str, days: Option<Vec<&str>>, time: Option<&str>) -> ClassTarget {
    ClassTarget {
        class_name: name.to_string(),
        days: days.map(|d| d.into_iter().map(|s| s.to_string()).collect()),
        time: time.map(|t| t.to_string()),
    }
}

// 2025-01-15T09:00:00Z, a Wednesday.
const WED_0900: i64 = 1_736_931_600_000;

#[test]
fn target_matching_by_name_day_time_and_status() {
    let c = class(1, "Morning YOGA Flow", WED_0900, "Bookable");
    assert!(target_matches(&target("yoga", None, None), &c));
    assert!(!target_matches(&target("spin", None, None), &c));
    assert!(target_matches(&target("Yoga", Some(vec!["Mon", "wednesday"]), Some("09:00")), &c));
    assert!(!target_matches(&target("Yoga", Some(vec!["thu"]), None), &c));
    assert!(!target_matches(&target("Yoga", None, Some("09:30")), &c));
    assert!(!target_matches(&target("Yoga", None, None), &class(1, "Yoga", WED_0900, "Full")));
}

#[test]
fn periodic_plan_books_open_and_imminent_windows() {
    let window = 7 * MILLIS_PER_DAY + 2 * MILLIS_PER_HOUR;
    let now = WED_0900 - window;
    let classes = vec![
        class(1, "Yoga", WED_0900 - MILLIS_PER_HOUR, "Bookable"),
        class(2, "Yoga", WED_0900 + 3 * MILLIS_PER_MINUTE, "Bookable"),
        class(3, "Yoga", WED_0900 + 10 * MILLIS_PER_MINUTE, "Bookable"),
        class(4, "Spin", WED_0900, "Bookable"),
        class(5, "Yoga", WED_0900, "Booked"),
    ];
    let targets = vec![target("yoga", None, None), target("spin", None, None)];
    let plan = plan_bookings(&targets, &classes, at(now));
    assert_eq!(
        plan,
        vec![
            PlannedBooking { class_index: 0, wait_millis: 0 },
            PlannedBooking { class_index: 1, wait_millis: 3 * 60_000 },
            PlannedBooking { class_index: 3, wait_millis: 0 },
        ]
    );
}

#[test]
fn parse_class_item_reads_local_wall_clock_time() {
    let info = gym_sniper::api::parse_class_item(
        7,
        "Spin".to_string(),
        "2025-01-15T18:00:00",
        "Bookable".to_string(),
        Some("Bob".to_string()),
    )
    .unwrap();
    assert_eq!(info.id, 7);
    assert_eq!(info.name, "Spin");
    assert_eq!(info.trainer.as_deref(), Some("Bob"));
    assert_eq!(info.start_time.minute_of_day(), 18 * 60);
    assert_eq!(info.start_time.weekday(), gym_sniper::clock::Weekday::Wed);
    let expected = chrono::NaiveDate::from_ymd_opt(2025, 1, 15)
        .unwrap()
        .and_hms_opt(18, 0, 0)
        .unwrap()
        .and_local_timezone(chrono::Local)
        .single()
        .unwrap();
    assert_eq!(info.start_time.utc_millis, expected.timestamp_millis());
}

#[test]
fn parse_class_item_rejects_malformed_time() {
    let r = gym_sniper::api::parse_class_item(7, "Spin".to_string(), "15/01/2025 18:00", "Full".to_string(), None);
    assert_eq!(r.unwrap_err(), "Failed to parse start time");
}

#[test]
fn catalog_sorted_by_start_time_keeps_ties_in_order() {
    let classes = vec![
        class(1, "Spin", WED_0900 + MILLIS_PER_HOUR, "Bookable"),
        class(2, "Yoga", WED_0900, "Full"),
        class(3, "HIIT", WED_0900 + MILLIS_PER_HOUR, "Bookable"),
        class(4, "Pilates", WED_0900 - MILLIS_PER_HOUR, "Bookable"),
    ];
    let sorted = gym_sniper::api::sort_by_start_time(classes);
    assert_eq!(sorted.iter().map(|c| c.id).collect::<Vec<_>>(), vec![4, 2, 1, 3]);
}

#[test]
fn trainer_search_ignores_case() {
    let mut c = class(1, "HIIT", WED_0900, "Bookable");
    assert!(!gym_sniper::scheduler::trainer_matches(&c, "mike"));
    c.trainer = Some("Coach Mike".to_string());
    assert!(gym_sniper::scheduler::trainer_matches(&c, "MIKE"));
    assert!(gym_sniper::scheduler::trainer_matches(&c, "coach"));
    assert!(!gym_sniper::scheduler::trainer_matches(&c, "alice"));
}
