//! Classification of failed reservation attempts, and the bounded retry loop
//! that decides, after each attempt, whether to stop or try again.
use crate::text::{contains_seq, text_contains};
use vstd::prelude::*;

verus! {

/// Attempts made before giving up.
pub const MAX_ATTEMPTS: u32 = 10;

/// Pause between two attempts, in milliseconds.
pub const ATTEMPT_DELAY_MILLIS: u64 = 200;

/// What a failed reservation attempt means for the loop.
#[derive(Clone, Copy, Debug, PartialEq, Eq, Structural)]
pub enum RetryClass {
    /// The daily reservation limit is reached: stop at once.
    PermanentStop,
    /// The slot is already held or waitlisted: nothing left to do.
    AlreadyDone,
    /// The window has not opened yet.
    NotYetOpen,
    /// The slot is full or waitlist-only.
    CapacityFull,
    /// Anything else.
    Unknown,
}

/// The class of an error text, by the vendor's exact tokens, in this order.
pub open spec fn class_of_error(text: Seq<char>) -> RetryClass {
    if contains_seq(text, "DailyBookingLimitReached"@) {
        RetryClass::PermanentStop
    } else if contains_seq(text, "TooSoonToBook"@) {
        RetryClass::NotYetOpen
    } else if contains_seq(text, "already"@) || contains_seq(text, "Already"@) {
        RetryClass::AlreadyDone
    } else if contains_seq(text, "Full"@) || contains_seq(text, "full"@) || contains_seq(
        text,
        "Awaitable"@,
    ) {
        RetryClass::CapacityFull
    } else {
        RetryClass::Unknown
    }
}

/// Classify the text of a failed reservation attempt.
pub fn classify_booking_error(text: &str) -> (r: RetryClass)
    ensures
        r == class_of_error(text@),
{
    if text_contains(text, "DailyBookingLimitReached") {
        RetryClass::PermanentStop
    } else if text_contains(text, "TooSoonToBook") {
        RetryClass::NotYetOpen
    } else if text_contains(text, "already") || text_contains(text, "Already") {
        RetryClass::AlreadyDone
    } else if text_contains(text, "Full") || text_contains(text, "full") || text_contains(
        text,
        "Awaitable",
    ) {
        RetryClass::CapacityFull
    } else {
        RetryClass::Unknown
    }
}

/// The answer to one reservation attempt.
#[derive(Clone, Copy, Debug, PartialEq, Eq, Structural)]
pub enum BookingReply {
    Booked,
    Rejected(RetryClass),
}

impl BookingReply {
    /// The reply for a failed attempt with the given error text.
    pub fn from_error_text(text: &str) -> (r: BookingReply)
        ensures
            r == BookingReply::Rejected(class_of_error(text@)),
    {
        BookingReply::Rejected(classify_booking_error(text))
    }
}

/// Why the loop gave up.
#[derive(Clone, Copy, Debug, PartialEq, Eq, Structural)]
pub enum FailureReason {
    DailyLimitReached,
    MaxAttemptsReached,
}

/// What to do after an attempt.
#[derive(Clone, Copy, Debug, PartialEq, Eq, Structural)]
pub enum AttemptAction {
    /// Wait this many milliseconds, then attempt again.
    RetryAfter(u64),
    /// Stop and report success; `newly_booked` is false when the slot was
    /// already held.
    Succeed { newly_booked: bool },
    /// Stop and report failure.
    Fail(FailureReason),
}

impl AttemptAction {
    /// The loop ends here, with exactly one success or one failure to report.
    pub open spec fn is_final(self) -> bool {
        !(self is RetryAfter)
    }
}

/// The decision after the `made`-th attempt (counting from 1) got `reply`.
pub open spec fn next_action(made: int, reply: BookingReply) -> AttemptAction {
    match reply {
        BookingReply::Booked => AttemptAction::Succeed { newly_booked: true },
        BookingReply::Rejected(RetryClass::PermanentStop) => AttemptAction::Fail(
            FailureReason::DailyLimitReached,
        ),
        BookingReply::Rejected(RetryClass::AlreadyDone) => AttemptAction::Succeed {
            newly_booked: false,
        },
        BookingReply::Rejected(_) => if made >= MAX_ATTEMPTS {
            AttemptAction::Fail(FailureReason::MaxAttemptsReached)
        } else {
            AttemptAction::RetryAfter(ATTEMPT_DELAY_MILLIS)
        },
    }
}

/// How many attempts the loop makes on a scripted run of replies, after
/// `made` attempts already: it stops at the first final decision, or when the
/// replies run out.
pub open spec fn calls_made(made: nat, replies: Seq<BookingReply>) -> nat
    decreases replies.len(),
{
    if replies.len() == 0 {
        0
    } else if next_action(made + 1 as int, replies[0]).is_final() {
        1
    } else {
        1 + calls_made(made + 1, replies.drop_first())
    }
}

/// The final decision of the loop on a scripted run of replies, if it reaches one.
pub open spec fn final_action(made: nat, replies: Seq<BookingReply>) -> Option<AttemptAction>
    decreases replies.len(),
{
    if replies.len() == 0 {
        None
    } else if next_action(made + 1 as int, replies[0]).is_final() {
        Some(next_action(made + 1 as int, replies[0]))
    } else {
        final_action(made + 1, replies.drop_first())
    }
}

/// A reply after which the loop tries again while attempts remain.
pub open spec fn is_retryable(reply: BookingReply) -> bool {
    reply == BookingReply::Rejected(RetryClass::NotYetOpen) || reply == BookingReply::Rejected(
        RetryClass::CapacityFull,
    ) || reply == BookingReply::Rejected(RetryClass::Unknown)
}

/// The state of one reservation race: how many attempts have been made.
#[derive(Clone, Copy, Debug, PartialEq, Eq, Structural)]
pub struct AttemptLoop {
    pub attempts: u32,
}

impl AttemptLoop {
    /// A race with no attempt made yet.
    pub fn new() -> (r: AttemptLoop)
        ensures
            r.attempts == 0,
    {
        AttemptLoop { attempts: 0 }
    }

    /// Count an attempt and decide what follows its reply. An attempt is only
    /// made while the budget lasts; the decision after the last one is final.
    pub fn record(&mut self, reply: BookingReply) -> (r: AttemptAction)
        requires
            old(self).attempts < MAX_ATTEMPTS,
        ensures
            final(self).attempts == old(self).attempts + 1,
            r == next_action(final(self).attempts as int, reply),
            final(self).attempts == MAX_ATTEMPTS ==> r.is_final(),
    {
        self.attempts = self.attempts + 1;
        match reply {
            BookingReply::Booked => AttemptAction::Succeed { newly_booked: true },
            BookingReply::Rejected(RetryClass::PermanentStop) => AttemptAction::Fail(
                FailureReason::DailyLimitReached,
            ),
            BookingReply::Rejected(RetryClass::AlreadyDone) => AttemptAction::Succeed {
                newly_booked: false,
            },
            BookingReply::Rejected(_) => {
                if self.attempts >= MAX_ATTEMPTS {
                    AttemptAction::Fail(FailureReason::MaxAttemptsReached)
                } else {
                    AttemptAction::RetryAfter(ATTEMPT_DELAY_MILLIS)
                }
            },
        }
    }
}

/// A daily-limit rejection ends the race at the first attempt, as a failure,
/// with no pause.
pub proof fn lemma_daily_limit_stops_at_once(replies: Seq<BookingReply>)
    requires
        replies.len() >= 1,
        replies[0] == BookingReply::Rejected(RetryClass::PermanentStop),
    ensures
        calls_made(0, replies) == 1,
        final_action(0, replies) == Some(AttemptAction::Fail(FailureReason::DailyLimitReached)),
{
}

/// An "already booked" rejection at the first attempt ends the race as a
/// success, with no second attempt.
pub proof fn lemma_already_held_is_success(replies: Seq<BookingReply>)
    requires
        replies.len() >= 1,
        replies[0] == BookingReply::Rejected(RetryClass::AlreadyDone),
    ensures
        calls_made(0, replies) == 1,
        final_action(0, replies) == Some(AttemptAction::Succeed { newly_booked: false }),
{
}

/// When every reply can be retried, the race makes exactly the maximum number
/// of attempts, pausing the fixed delay between any two, and then fails.
pub proof fn lemma_retryable_replies_exhaust_budget(made: nat, replies: Seq<BookingReply>)
    requires
        made < MAX_ATTEMPTS,
        replies.len() >= MAX_ATTEMPTS - made,
        forall|i: int| 0 <= i < replies.len() ==> is_retryable(#[trigger] replies[i]),
    ensures
        calls_made(made, replies) == MAX_ATTEMPTS - made,
        final_action(made, replies) == Some(AttemptAction::Fail(FailureReason::MaxAttemptsReached)),
        forall|k: int|
            0 <= k < MAX_ATTEMPTS - made - 1 ==> next_action(made + k + 1, #[trigger] replies[k])
                == AttemptAction::RetryAfter(ATTEMPT_DELAY_MILLIS),
    decreases MAX_ATTEMPTS - made,
{
    assert(is_retryable(replies[0]));
    if made + 1 < MAX_ATTEMPTS {
        let rest = replies.drop_first();
        assert forall|i: int| 0 <= i < rest.len() implies is_retryable(#[trigger] rest[i]) by {
            assert(rest[i] == replies[i + 1]);
        }
        lemma_retryable_replies_exhaust_budget(made + 1, rest);
        assert forall|k: int| 0 <= k < MAX_ATTEMPTS - made - 1 implies next_action(
            made + k + 1,
            #[trigger] replies[k],
        ) == AttemptAction::RetryAfter(ATTEMPT_DELAY_MILLIS) by {
            if k > 0 {
                assert(replies[k] == rest[k - 1]);
            }
        }
    }
}

} // verus!
