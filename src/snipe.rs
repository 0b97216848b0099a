//! The decisions of one snipe and of the daemon that runs the queue. Each is a
//! step from a state and an observation to the next action; the caller
//! performs the action (sleep, log in, fetch, reserve) and reports back.
use crate::clock::LocalDateTime;
use crate::retry::FailureReason;
use crate::snipe_queue::{
    entry_is_pending, marked, sort_by_window, SnipeEntry, SnipeQueue, SnipeStatus,
};
use crate::text::text_equals;
use vstd::prelude::*;

verus! {

/// Within this distance of an opening, coarse sleeping stops: the session is
/// refreshed and the target is watched closely.
pub const NEAR_THRESHOLD_MILLIS: i64 = 5 * 60_000;

/// Longest single sleep while waiting for an opening.
pub const MAX_SLEEP_CHUNK_MILLIS: i64 = 3_600_000;

/// Polls stop this long before the opening; one last sleep aligns the first
/// attempt with it.
pub const FINAL_ALIGN_MILLIS: i64 = 1000;

/// The daemon's pause when nothing is pending.
pub const IDLE_POLL_MILLIS: u64 = 60_000;

/// The daemon's pause after a snipe, before looking at the queue again.
pub const PAUSE_AFTER_SNIPE_MILLIS: u64 = 5000;

/// What a slot's reported status means for a snipe.
#[derive(Clone, Copy, Debug, PartialEq, Eq, Structural)]
pub enum SnipeStep {
    /// The slot can be reserved now: start attempting.
    AttemptNow,
    /// The member already holds the slot or is waitlisted: done, successfully.
    AlreadyHeld,
    /// Anything else: keep waiting for the window.
    KeepWaiting,
}

pub open spec fn step_for(status: Seq<char>) -> SnipeStep {
    if status == "Bookable"@ {
        SnipeStep::AttemptNow
    } else if status == "Booked"@ || status == "Awaiting"@ {
        SnipeStep::AlreadyHeld
    } else {
        SnipeStep::KeepWaiting
    }
}

/// The step for a slot status, as first fetched or as seen by a poll.
pub fn step_for_status(status: &str) -> (r: SnipeStep)
    ensures
        r == step_for(status@),
{
    if text_equals(status, "Bookable") {
        SnipeStep::AttemptNow
    } else if text_equals(status, "Booked") || text_equals(status, "Awaiting") {
        SnipeStep::AlreadyHeld
    } else {
        SnipeStep::KeepWaiting
    }
}

/// What to do next while waiting for a window to open.
#[derive(Clone, Copy, Debug, PartialEq, Eq, Structural)]
pub enum WaitAction {
    /// Sleep this many milliseconds, then look again.
    Sleep(u64),
    /// Log in afresh, then look again.
    RefreshLogin,
    /// Fetch the slot's status and act on `step_for_status`; if it says to
    /// keep waiting, sleep this many milliseconds, then look again.
    PollThenSleep(u64),
    /// The window is open: start attempting.
    Attempt,
}

/// Poll cadence, finer as the opening approaches.
pub open spec fn poll_interval(remaining: int) -> int {
    if remaining > 120_000 {
        30_000
    } else if remaining > 30_000 {
        10_000
    } else {
        2000
    }
}

pub open spec fn min(a: int, b: int) -> int {
    if a <= b {
        a
    } else {
        b
    }
}

/// The action `remaining` milliseconds before the opening; `refreshed` says
/// whether the session was already renewed near it.
pub open spec fn wait_action(remaining: int, refreshed: bool) -> WaitAction {
    if remaining > NEAR_THRESHOLD_MILLIS {
        WaitAction::Sleep(min(remaining - NEAR_THRESHOLD_MILLIS, MAX_SLEEP_CHUNK_MILLIS as int) as u64)
    } else if !refreshed {
        WaitAction::RefreshLogin
    } else if remaining <= 0 {
        WaitAction::Attempt
    } else if remaining <= FINAL_ALIGN_MILLIS {
        WaitAction::Sleep(remaining as u64)
    } else {
        WaitAction::PollThenSleep(
            min(poll_interval(remaining), remaining - FINAL_ALIGN_MILLIS) as u64,
        )
    }
}

/// One target waiting for its window.
#[derive(Clone, Copy, Debug, PartialEq, Eq, Structural)]
pub struct SnipeWait {
    pub opening: LocalDateTime,
    pub refreshed: bool,
}

impl SnipeWait {
    /// Start waiting for a window opening at `opening`.
    pub fn new(opening: LocalDateTime) -> (r: SnipeWait)
        ensures
            r.opening == opening,
            !r.refreshed,
    {
        SnipeWait { opening, refreshed: false }
    }

    /// The next action at time `now`. Asking for a fresh login is done once.
    pub fn next_action(&mut self, now: LocalDateTime) -> (r: WaitAction)
        requires
            old(self).opening.wf(),
            now.wf(),
        ensures
            r == wait_action(old(self).opening.utc_millis - now.utc_millis, old(self).refreshed),
            final(self).opening == old(self).opening,
            final(self).refreshed == (old(self).refreshed || r == WaitAction::RefreshLogin),
    {
        let remaining = self.opening.utc_millis - now.utc_millis;
        if remaining > NEAR_THRESHOLD_MILLIS {
            let chunk = if remaining - NEAR_THRESHOLD_MILLIS <= MAX_SLEEP_CHUNK_MILLIS {
                remaining - NEAR_THRESHOLD_MILLIS
            } else {
                MAX_SLEEP_CHUNK_MILLIS
            };
            WaitAction::Sleep(chunk as u64)
        } else if !self.refreshed {
            self.refreshed = true;
            WaitAction::RefreshLogin
        } else if remaining <= 0 {
            WaitAction::Attempt
        } else if remaining <= FINAL_ALIGN_MILLIS {
            WaitAction::Sleep(remaining as u64)
        } else {
            let interval: i64 = if remaining > 120_000 {
                30_000
            } else if remaining > 30_000 {
                10_000
            } else {
                2000
            };
            let pause = if interval <= remaining - FINAL_ALIGN_MILLIS {
                interval
            } else {
                remaining - FINAL_ALIGN_MILLIS
            };
            WaitAction::PollThenSleep(pause as u64)
        }
    }
}

/// What the daemon does next.
#[derive(Clone, Copy, Debug, PartialEq, Eq, Structural)]
pub enum DaemonAction {
    /// Nothing is pending: sleep this many milliseconds.
    Idle(u64),
    /// The earliest window is still far: sleep this many milliseconds.
    Sleep(u64),
    /// The earliest window is near: log in and snipe this class.
    Snipe { class_id: u64 },
}

/// The daemon's sleep when the earliest window is `remaining` milliseconds
/// away: coarser the further it is.
pub open spec fn daemon_sleep(remaining: int) -> int {
    if remaining > 60 * 60_000 {
        1_800_000
    } else if remaining > 30 * 60_000 {
        600_000
    } else {
        60_000
    }
}

/// The daemon's decision over the pending entries in window order.
pub open spec fn daemon_action(pending: Seq<SnipeEntry>, now: int) -> DaemonAction {
    if pending.len() == 0 {
        DaemonAction::Idle(IDLE_POLL_MILLIS)
    } else if pending[0].window_key() - now > NEAR_THRESHOLD_MILLIS {
        DaemonAction::Sleep(daemon_sleep(pending[0].window_key() - now) as u64)
    } else {
        DaemonAction::Snipe { class_id: pending[0].class_id }
    }
}

/// The pending entries of a queue, earliest window first.
pub open spec fn queue_order(s: Seq<SnipeEntry>) -> Seq<SnipeEntry> {
    sort_by_window(s.filter(entry_is_pending()))
}

/// One round of the daemon at time `now`.
pub fn daemon_step(queue: &SnipeQueue, now: LocalDateTime) -> (r: DaemonAction)
    requires
        queue.wf(),
        now.wf(),
    ensures
        r == daemon_action(queue_order(queue.snipes@), now.utc_millis as int),
{
    let pending = queue.pending_snipes();
    if pending.len() == 0 {
        return DaemonAction::Idle(IDLE_POLL_MILLIS);
    }
    let next = pending[0];
    proof {
        assert(crate::snipe_queue::entries_of(pending@)[0] == *next);
        let f = queue.snipes@.filter(entry_is_pending());
        let sorted = crate::snipe_queue::entries_of(pending@);
        sorted.to_multiset_ensures();
        f.to_multiset_ensures();
        assert(sorted.contains(*next));
        assert(sorted.to_multiset().count(*next) > 0);
        assert(f.contains(*next));
        queue.snipes@.lemma_filter_contains_rev(entry_is_pending(), *next);
        let j = choose|j: int| 0 <= j < queue.snipes@.len() && queue.snipes@[j] == *next;
        assert(queue.snipes@[j].times_wf());
    }
    let remaining = next.booking_window.utc_millis - now.utc_millis;
    if remaining > NEAR_THRESHOLD_MILLIS {
        let pause: u64 = if remaining > 60 * 60_000 {
            30 * 60_000
        } else if remaining > 30 * 60_000 {
            10 * 60_000
        } else {
            60_000
        };
        DaemonAction::Sleep(pause)
    } else {
        DaemonAction::Snipe { class_id: next.class_id }
    }
}

/// A queue holding a single pending target: the daemon sleeps, by the
/// tiers of `daemon_sleep`, while the target's window is more than five
/// minutes away, and snipes it once the window is five minutes away or less.
pub proof fn lemma_daemon_waits_until_near(e: SnipeEntry, now: int)
    requires
        e.is_pending(),
    ensures
        queue_order(seq![e]) == seq![e],
        e.window_key() - now > NEAR_THRESHOLD_MILLIS ==> daemon_action(queue_order(seq![e]), now)
            == DaemonAction::Sleep(daemon_sleep(e.window_key() - now) as u64),
        e.window_key() - now <= NEAR_THRESHOLD_MILLIS ==> daemon_action(queue_order(seq![e]), now)
            == (DaemonAction::Snipe { class_id: e.class_id }),
{
    let s = seq![e];
    assert(s.drop_last() =~= Seq::<SnipeEntry>::empty());
    reveal_with_fuel(Seq::filter, 2);
    assert(Seq::<SnipeEntry>::empty().filter(entry_is_pending()) =~= Seq::<SnipeEntry>::empty());
    assert(s.filter(entry_is_pending()) =~= s);
    assert(sort_by_window(s) == crate::order::insert_by_key(
        sort_by_window(Seq::<SnipeEntry>::empty()),
        e,
        crate::snipe_queue::window_of(),
    ));
}

/// How a snipe ended.
#[derive(Clone, Debug)]
pub enum SnipeOutcome {
    Succeeded,
    Failed(String),
}

/// Record the outcome of a snipe in the queue: the pending entry of the class
/// becomes Completed, or Failed with the reason. True when an entry changed.
pub fn record_outcome(queue: &mut SnipeQueue, class_id: u64, outcome: SnipeOutcome) -> (r: bool)
    ensures
        old(queue).wf() ==> final(queue).wf(),
        old(queue).consistent() ==> final(queue).consistent(),
        match outcome {
            SnipeOutcome::Succeeded => final(queue).snipes@ == marked(
                old(queue).snipes@,
                class_id,
                SnipeStatus::Completed,
                None,
            ),
            SnipeOutcome::Failed(reason) => final(queue).snipes@ == marked(
                old(queue).snipes@,
                class_id,
                SnipeStatus::Failed,
                Some(reason),
            ),
        },
        r == exists|k: int|
            0 <= k < old(queue).snipes@.len() && (#[trigger] old(queue).snipes@[k]).class_id == class_id
                && old(queue).snipes@[k].is_pending(),
{
    match outcome {
        SnipeOutcome::Succeeded => queue.mark_completed(class_id),
        SnipeOutcome::Failed(reason) => queue.mark_failed(class_id, reason),
    }
}

pub open spec fn failure_text(reason: FailureReason) -> Seq<char> {
    match reason {
        FailureReason::DailyLimitReached => "Daily booking limit reached"@,
        FailureReason::MaxAttemptsReached => "Max attempts reached"@,
    }
}

/// The message recorded for a failed race.
pub fn failure_message(reason: FailureReason) -> (r: String)
    ensures
        r@ == failure_text(reason),
{
    match reason {
        FailureReason::DailyLimitReached => String::from_str("Daily booking limit reached"),
        FailureReason::MaxAttemptsReached => String::from_str("Max attempts reached"),
    }
}

} // verus!
