//! Recurring targets: which catalog classes a target names, and which of them
//! to book on one tick of the periodic scheduler.
use crate::api::ClassInfo;
use crate::clock::{LocalDateTime, Weekday, BOOKING_WINDOW_MILLIS};
use crate::config::ClassTarget;
use crate::snipe::NEAR_THRESHOLD_MILLIS;
use crate::text::{
    chars_of, contains_seq, digit, digit_char, lowercase_of, text_contains, text_equals, to_lowercase,
};
use vstd::prelude::*;

verus! {

pub open spec fn full_day_name(wd: Weekday) -> Seq<char> {
    match wd {
        Weekday::Mon => "monday"@,
        Weekday::Tue => "tuesday"@,
        Weekday::Wed => "wednesday"@,
        Weekday::Thu => "thursday"@,
        Weekday::Fri => "friday"@,
        Weekday::Sat => "saturday"@,
        Weekday::Sun => "sunday"@,
    }
}

pub open spec fn short_day_name(wd: Weekday) -> Seq<char> {
    match wd {
        Weekday::Mon => "mon"@,
        Weekday::Tue => "tue"@,
        Weekday::Wed => "wed"@,
        Weekday::Thu => "thu"@,
        Weekday::Fri => "fri"@,
        Weekday::Sat => "sat"@,
        Weekday::Sun => "sun"@,
    }
}

/// A lower-case day name, full or three-letter, that names `wd`.
pub open spec fn names_weekday(lowered: Seq<char>, wd: Weekday) -> bool {
    lowered == full_day_name(wd) || lowered == short_day_name(wd)
}

/// Whether an already lower-cased day name names `wd`.
pub fn weekday_name_matches(lowered: &str, wd: Weekday) -> (r: bool)
    ensures
        r == names_weekday(lowered@, wd),
{
    let (full, short) = match wd {
        Weekday::Mon => ("monday", "mon"),
        Weekday::Tue => ("tuesday", "tue"),
        Weekday::Wed => ("wednesday", "wed"),
        Weekday::Thu => ("thursday", "thu"),
        Weekday::Fri => ("friday", "fri"),
        Weekday::Sat => ("saturday", "sat"),
        Weekday::Sun => ("sunday", "sun"),
    };
    text_equals(lowered, full) || text_equals(lowered, short)
}

/// Check if a day string matches a weekday, ignoring case.
pub fn weekday_matches(day_str: &str, weekday: Weekday) -> (r: bool)
    ensures
        r == names_weekday(lowercase_of(day_str@), weekday),
{
    let lowered = to_lowercase(day_str);
    weekday_name_matches(lowered.as_str(), weekday)
}

/// A time of day, given in minutes since midnight, written "HH:MM".
pub open spec fn clock_text(minute: int) -> Seq<char> {
    let h = minute / 60;
    let m = minute % 60;
    seq![digit_char(h / 10), digit_char(h % 10), ':', digit_char(m / 10), digit_char(m % 10)]
}

/// Whether `text` is the "HH:MM" form of a time of day.
pub fn clock_text_matches(text: &str, minute: u32) -> (r: bool)
    requires
        minute < 1440,
    ensures
        r == (text@ == clock_text(minute as int)),
{
    let t = chars_of(text);
    let h = minute / 60;
    let m = minute % 60;
    let expected = vec![digit(h / 10), digit(h % 10), ':', digit(m / 10), digit(m % 10)];
    proof {
        assert(expected@ =~= clock_text(minute as int));
    }
    if t.len() != 5 {
        return false;
    }
    let mut i: usize = 0;
    while i < 5
        invariant
            t@ == text@,
            t@.len() == 5,
            expected@ == clock_text(minute as int),
            expected@.len() == 5,
            i <= 5,
            forall|k: int| 0 <= k < i ==> t@[k] == expected@[k],
        decreases 5 - i,
    {
        if t[i] != expected[i] {
            proof {
                assert(text@[i as int] != clock_text(minute as int)[i as int]);
            }
            return false;
        }
        i += 1;
    }
    proof {
        assert(t@ =~= expected@);
    }
    true
}

/// Some listed day name names the weekday, ignoring case.
pub open spec fn any_day_matches(days: Seq<String>, wd: Weekday) -> bool {
    exists|i: int| 0 <= i < days.len() && names_weekday(lowercase_of(days[i]@), wd)
}

/// A recurring target names this class, and the class can be booked.
pub open spec fn target_matches_class(target: ClassTarget, class: ClassInfo) -> bool {
    &&& contains_seq(lowercase_of(class.name@), lowercase_of(target.class_name@))
    &&& match target.days {
        None => true,
        Some(days) => any_day_matches(days@, class.start_time.day_of_week()),
    }
    &&& match target.time {
        None => true,
        Some(t) => t@ == clock_text(class.start_time.wall_minute()),
    }
    &&& class.status@ == "Bookable"@
}

/// Whether a recurring target names this class and the class can be booked.
pub fn target_matches(target: &ClassTarget, class: &ClassInfo) -> (r: bool)
    requires
        class.start_time.wf(),
    ensures
        r == target_matches_class(*target, *class),
{
    let name = to_lowercase(class.name.as_str());
    let wanted = to_lowercase(target.class_name.as_str());
    let name_matches = text_contains(name.as_str(), wanted.as_str());
    let day_matches = match &target.days {
        None => true,
        Some(days) => {
            let wd = class.start_time.weekday();
            let mut found = false;
            let mut i: usize = 0;
            while i < days.len()
                invariant
                    i <= days@.len(),
                    found == exists|k: int|
                        0 <= k < i && names_weekday(lowercase_of(days@[k]@), wd),
                decreases days@.len() - i,
            {
                if weekday_matches(days[i].as_str(), wd) {
                    found = true;
                }
                i += 1;
            }
            found
        },
    };
    let time_matches = match &target.time {
        None => true,
        Some(t) => clock_text_matches(t.as_str(), class.start_time.minute_of_day()),
    };
    let bookable = text_equals(class.status.as_str(), "Bookable");
    name_matches && day_matches && time_matches && bookable
}

/// The class has a trainer whose name contains `search`, ignoring case.
pub open spec fn trainer_matches_class(class: ClassInfo, search: Seq<char>) -> bool {
    match class.trainer {
        Some(t) => contains_seq(lowercase_of(t@), lowercase_of(search)),
        None => false,
    }
}

/// Whether the class's trainer matches a search, ignoring case.
pub fn trainer_matches(class: &ClassInfo, search: &str) -> (r: bool)
    ensures
        r == trainer_matches_class(*class, search@),
{
    match &class.trainer {
        Some(t) => {
            let trainer = to_lowercase(t.as_str());
            let wanted = to_lowercase(search);
            text_contains(trainer.as_str(), wanted.as_str())
        },
        None => false,
    }
}

/// A class to book on this tick: the index in the catalog, and how long to
/// wait before booking (zero when its window is already open).
#[derive(Clone, Copy, Debug, PartialEq, Eq, Structural)]
pub struct PlannedBooking {
    pub class_index: usize,
    pub wait_millis: u64,
}

/// Milliseconds from `now` until the booking window of a class starting at
/// `start` opens.
pub open spec fn until_opening(start: LocalDateTime, now: int) -> int {
    start.utc_millis - BOOKING_WINDOW_MILLIS - now
}

/// The bookings for one target over the classes of a catalog, in catalog order:
/// every matching class whose window is open or opens within the lookahead.
pub open spec fn plan_for_target(t: ClassTarget, classes: Seq<ClassInfo>, now: int) -> Seq<
    PlannedBooking,
>
    decreases classes.len(),
{
    if classes.len() == 0 {
        Seq::empty()
    } else {
        let rest = plan_for_target(t, classes.drop_last(), now);
        let c = classes.last();
        let remaining = until_opening(c.start_time, now);
        if target_matches_class(t, c) && remaining <= NEAR_THRESHOLD_MILLIS {
            rest.push(
                PlannedBooking {
                    class_index: (classes.len() - 1) as usize,
                    wait_millis: (if remaining > 0 {
                        remaining
                    } else {
                        0
                    }) as u64,
                },
            )
        } else {
            rest
        }
    }
}

/// The bookings of one tick: for each target in turn, its bookings.
pub open spec fn booking_plan(targets: Seq<ClassTarget>, classes: Seq<ClassInfo>, now: int) -> Seq<
    PlannedBooking,
>
    decreases targets.len(),
{
    if targets.len() == 0 {
        Seq::empty()
    } else {
        booking_plan(targets.drop_last(), classes, now) + plan_for_target(
            targets.last(),
            classes,
            now,
        )
    }
}

/// One tick of the periodic scheduler at time `now`: which catalog classes to
/// book, and when.
pub fn plan_bookings(targets: &Vec<ClassTarget>, classes: &Vec<ClassInfo>, now: LocalDateTime) -> (r:
    Vec<PlannedBooking>)
    requires
        now.wf(),
        forall|i: int| 0 <= i < classes@.len() ==> (#[trigger] classes@[i]).start_time.wf(),
    ensures
        r@ == booking_plan(targets@, classes@, now.utc_millis as int),
{
    let mut plan: Vec<PlannedBooking> = Vec::new();
    let mut i: usize = 0;
    proof {
        assert(targets@.subrange(0, 0).len() == 0);
    }
    while i < targets.len()
        invariant
            now.wf(),
            forall|k: int| 0 <= k < classes@.len() ==> (#[trigger] classes@[k]).start_time.wf(),
            i <= targets@.len(),
            plan@ == booking_plan(targets@.subrange(0, i as int), classes@, now.utc_millis as int),
        decreases targets@.len() - i,
    {
        let target = &targets[i];
        let ghost done = plan@;
        let mut j: usize = 0;
        proof {
            assert(classes@.subrange(0, 0).len() == 0);
            assert(plan@ =~= done + plan_for_target(*target, classes@.subrange(0, 0), now.utc_millis as int));
        }
        while j < classes.len()
            invariant
                now.wf(),
                forall|k: int| 0 <= k < classes@.len() ==> (#[trigger] classes@[k]).start_time.wf(),
                j <= classes@.len(),
                *target == targets@[i as int],
                plan@ == done + plan_for_target(*target, classes@.subrange(0, j as int), now.utc_millis as int),
            decreases classes@.len() - j,
        {
            let class = &classes[j];
            let ghost before = plan_for_target(*target, classes@.subrange(0, j as int), now.utc_millis as int);
            proof {
                assert(classes@.subrange(0, j + 1).drop_last() =~= classes@.subrange(0, j as int));
                assert(classes@.subrange(0, j + 1).last() == *class);
            }
            let remaining = class.start_time.utc_millis - BOOKING_WINDOW_MILLIS - now.utc_millis;
            if target_matches(target, class) && remaining <= NEAR_THRESHOLD_MILLIS {
                let wait: u64 = if remaining > 0 {
                    remaining as u64
                } else {
                    0
                };
                plan.push(PlannedBooking { class_index: j, wait_millis: wait });
                proof {
                    assert(plan@ =~= done + before.push(PlannedBooking { class_index: j, wait_millis: wait }));
                }
            }
            j += 1;
        }
        proof {
            assert(classes@.subrange(0, classes@.len() as int) =~= classes@);
            assert(targets@.subrange(0, i + 1).drop_last() =~= targets@.subrange(0, i as int));
            assert(targets@.subrange(0, i + 1).last() == *target);
        }
        i += 1;
    }
    proof {
        assert(targets@.subrange(0, targets@.len() as int) =~= targets@);
    }
    plan
}

} // verus!
