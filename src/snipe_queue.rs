//! The queue of snipe targets: at most one pending target per calendar day,
//! read in order of booking-window opening, with stale finished entries
//! garbage-collected. Reading and writing the queue file is the caller's part.
use crate::clock::{now_local, opening_instant, LocalDateTime, BOOKING_WINDOW_MILLIS, MAX_ABS_MILLIS};
use crate::order::{lemma_insert_at, lemma_insert_keeps_order, sorted_by_key, stable_sort_by_key};
use vstd::prelude::*;

verus! {

/// Finished entries are kept for seven days after their class time.
pub const RETENTION_MILLIS: i64 = 7 * 86_400_000;

#[derive(Clone, Copy, Debug, PartialEq, Eq, Structural)]
pub enum SnipeStatus {
    Pending,
    Completed,
    Failed,
}

/// One queued target: a class to reserve as soon as its booking window opens.
#[derive(Clone, Debug)]
pub struct SnipeEntry {
    pub class_id: u64,
    pub class_name: String,
    pub class_time: LocalDateTime,
    pub booking_window: LocalDateTime,
    pub trainer: Option<String>,
    pub added_at: LocalDateTime,
    pub status: SnipeStatus,
    pub error_message: Option<String>,
}

impl SnipeEntry {
    pub open spec fn is_pending(self) -> bool {
        self.status == SnipeStatus::Pending
    }

    /// The scheduling priority: when the booking window opens.
    pub open spec fn window_key(self) -> int {
        self.booking_window.utc_millis as int
    }

    pub open spec fn times_wf(self) -> bool {
        self.class_time.wf() && self.booking_window.wf()
    }

    /// Pending, for a class on the given local calendar day.
    pub open spec fn pending_on(self, day: int) -> bool {
        self.is_pending() && self.class_time.calendar_day() == day
    }

    /// A new pending entry for a class; its booking window is computed from
    /// the class time.
    pub fn pending(
        class_id: u64,
        class_name: String,
        class_time: LocalDateTime,
        trainer: Option<String>,
        added_at: LocalDateTime,
    ) -> (r: SnipeEntry)
        requires
            class_time.wf(),
            class_time.utc_millis >= -MAX_ABS_MILLIS + BOOKING_WINDOW_MILLIS,
        ensures
            r.class_id == class_id,
            r.class_name == class_name,
            r.class_time == class_time,
            r.booking_window.utc_millis == class_time.utc_millis - BOOKING_WINDOW_MILLIS,
            r.booking_window.wf(),
            r.trainer == trainer,
            r.added_at == added_at,
            r.status == SnipeStatus::Pending,
            r.error_message is None,
    {
        SnipeEntry {
            class_id,
            class_name,
            class_time,
            booking_window: opening_instant(class_time),
            trainer,
            added_at,
            status: SnipeStatus::Pending,
            error_message: None,
        }
    }
}

/// Some entry of `s` is pending for a class on `day`.
pub open spec fn has_pending_on(s: Seq<SnipeEntry>, day: int) -> bool {
    exists|i: int| 0 <= i < s.len() && s[i].pending_on(day)
}

/// Some entry of `s`, whatever its status, is for class `id`.
pub open spec fn has_class_id(s: Seq<SnipeEntry>, id: u64) -> bool {
    exists|i: int| 0 <= i < s.len() && s[i].class_id == id
}

/// `e` is the first entry of `s` that is pending on `day`.
pub open spec fn is_first_pending_on(s: Seq<SnipeEntry>, day: int, e: SnipeEntry) -> bool {
    exists|i: int|
        0 <= i < s.len() && s[i] == e && e.pending_on(day) && forall|j: int|
            0 <= j < i ==> !(#[trigger] s[j]).pending_on(day)
}

pub open spec fn entry_is_pending() -> spec_fn(SnipeEntry) -> bool {
    |e: SnipeEntry| e.status == SnipeStatus::Pending
}

/// The booking-window opening of an entry, as a sort key.
pub open spec fn window_of() -> spec_fn(SnipeEntry) -> int {
    |e: SnipeEntry| e.window_key()
}

/// Entries in order of booking-window opening.
pub open spec fn by_window(s: Seq<SnipeEntry>) -> bool {
    sorted_by_key(s, window_of())
}

/// The stable sort of `s` by booking-window opening: equal openings keep
/// their order.
pub open spec fn sort_by_window(s: Seq<SnipeEntry>) -> Seq<SnipeEntry> {
    stable_sort_by_key(s, window_of())
}

/// The entries that a list of references points at.
pub open spec fn entries_of(s: Seq<&SnipeEntry>) -> Seq<SnipeEntry> {
    s.map_values(|e: &SnipeEntry| *e)
}

/// Which entries a removal takes out of the queue.
pub enum Selector {
    /// Every entry for this class.
    ClassId(u64),
    /// Finished entries whose class started before this instant.
    FinishedBy(i64),
}

impl Selector {
    pub open spec fn selects(self, e: SnipeEntry) -> bool {
        match self {
            Selector::ClassId(id) => e.class_id == id,
            Selector::FinishedBy(cutoff) => !e.is_pending() && e.class_time.utc_millis < cutoff,
        }
    }

    pub open spec fn keeps(self) -> spec_fn(SnipeEntry) -> bool {
        |e: SnipeEntry| !self.selects(e)
    }

    fn selects_entry(&self, e: &SnipeEntry) -> (r: bool)
        ensures
            r == self.selects(*e),
    {
        match self {
            Selector::ClassId(id) => e.class_id == *id,
            Selector::FinishedBy(cutoff) => e.status != SnipeStatus::Pending && e.class_time.utc_millis
                < *cutoff,
        }
    }
}

/// Finished entries whose class started before this instant are stale.
pub open spec fn retention_cutoff(now: LocalDateTime) -> i64 {
    (now.utc_millis - RETENTION_MILLIS) as i64
}

/// `e` with a final status and message recorded.
pub open spec fn finished(e: SnipeEntry, status: SnipeStatus, message: Option<String>) -> SnipeEntry {
    SnipeEntry { status, error_message: message, ..e }
}

/// The entries of a queue after recording a final status for the pending
/// entries of one class; every other entry is unchanged.
pub open spec fn marked(
    s: Seq<SnipeEntry>,
    id: u64,
    status: SnipeStatus,
    message: Option<String>,
) -> Seq<SnipeEntry> {
    s.map_values(
        |e: SnipeEntry|
            if e.class_id == id && e.is_pending() {
                finished(e, status, message)
            } else {
                e
            },
    )
}

/// Cleanup at `now` keeps an entry exactly when it is pending or its class
/// started at most seven days before `now`; a pending entry is always kept,
/// however old. A finished entry whose class started more than seven days
/// before `now` is gone afterwards, and so is every entry for its class when
/// no other entry shares that class.
pub proof fn lemma_cleanup_retention(s: Seq<SnipeEntry>, now: LocalDateTime)
    requires
        now.wf(),
    ensures
        forall|e: SnipeEntry|
            #[trigger] Selector::FinishedBy(retention_cutoff(now)).keeps()(e) <==> (e.is_pending()
                || e.class_time.utc_millis >= now.utc_millis - RETENTION_MILLIS),
        forall|i: int|
            0 <= i < s.len() && (#[trigger] s[i]).is_pending() ==> s.filter(
                Selector::FinishedBy(retention_cutoff(now)).keeps(),
            ).contains(s[i]),
        forall|i: int|
            0 <= i < s.len() && !(#[trigger] s[i]).is_pending() && s[i].class_time.utc_millis
                < now.utc_millis - RETENTION_MILLIS ==> !s.filter(
                Selector::FinishedBy(retention_cutoff(now)).keeps(),
            ).contains(s[i]),
        forall|i: int, k: int|
            0 <= i < s.len() && !(#[trigger] s[i]).is_pending() && s[i].class_time.utc_millis
                < now.utc_millis - RETENTION_MILLIS && (forall|j: int|
                0 <= j < s.len() && j != i ==> s[j].class_id != s[i].class_id) && 0 <= k < s.filter(
                Selector::FinishedBy(retention_cutoff(now)).keeps(),
            ).len() ==> (#[trigger] s.filter(Selector::FinishedBy(retention_cutoff(now)).keeps())[k]).class_id
                != s[i].class_id,
{
    let keep = Selector::FinishedBy(retention_cutoff(now)).keeps();
    let f = s.filter(keep);
    assert forall|i: int| 0 <= i < s.len() && (#[trigger] s[i]).is_pending() implies f.contains(
        s[i],
    ) by {
        s.lemma_filter_contains(keep, i);
    }
    assert forall|i: int|
        0 <= i < s.len() && !(#[trigger] s[i]).is_pending() && s[i].class_time.utc_millis
            < now.utc_millis - RETENTION_MILLIS implies !f.contains(s[i]) by {
        if f.contains(s[i]) {
            let k = choose|k: int| 0 <= k < f.len() && f[k] == s[i];
            s.lemma_filter_pred(keep, k);
        }
    }
    assert forall|i: int, k: int|
        0 <= i < s.len() && !(#[trigger] s[i]).is_pending() && s[i].class_time.utc_millis
            < now.utc_millis - RETENTION_MILLIS && (forall|j: int|
            0 <= j < s.len() && j != i ==> s[j].class_id != s[i].class_id) && 0 <= k
            < f.len() implies (#[trigger] f[k]).class_id != s[i].class_id by {
        s.lemma_filter_pred(keep, k);
        assert(f.contains(f[k]));
        s.lemma_filter_contains_rev(keep, f[k]);
        let j = choose|j: int| 0 <= j < s.len() && s[j] == f[k];
        if j == i {
            assert(!keep(s[i]));
        }
    }
}

/// Once a pending entry is queued, its calendar day and its class are taken:
/// by the contract of `add`, a later pending entry for that day is refused
/// with `DayTaken`, and any later entry for that class is refused.
pub proof fn lemma_queued_entry_blocks_day_and_class(s: Seq<SnipeEntry>, e: SnipeEntry)
    requires
        e.is_pending(),
    ensures
        has_pending_on(s.push(e), e.class_time.calendar_day()),
        has_class_id(s.push(e), e.class_id),
        is_first_pending_on(s.push(e), e.class_time.calendar_day(), e) || has_pending_on(
            s,
            e.class_time.calendar_day(),
        ),
{
    let t = s.push(e);
    assert(t[s.len() as int] == e);
    if !has_pending_on(s, e.class_time.calendar_day()) {
        assert forall|j: int| 0 <= j < s.len() implies !(#[trigger] t[j]).pending_on(
            e.class_time.calendar_day(),
        ) by {
            assert(t[j] == s[j]);
        }
    }
}

/// Recording an outcome never touches an entry that is already finished:
/// Completed and Failed are final, and only a pending entry moves to one of them.
pub proof fn lemma_finished_entries_are_final(
    s: Seq<SnipeEntry>,
    id: u64,
    status: SnipeStatus,
    message: Option<String>,
)
    ensures
        marked(s, id, status, message).len() == s.len(),
        forall|i: int|
            0 <= i < s.len() && !(#[trigger] s[i]).is_pending() ==> marked(s, id, status, message)[i]
                == s[i],
        forall|i: int|
            0 <= i < s.len() && (#[trigger] s[i]).is_pending() && s[i].class_id == id ==> marked(
                s,
                id,
                status,
                message,
            )[i] == finished(s[i], status, message),
{
}

/// Why a target could not be added.
#[derive(Debug)]
pub enum QueueError {
    /// A pending target for the same calendar day is already queued.
    DayTaken { existing_class_id: u64, existing_class_name: String, existing_class_time: LocalDateTime },
    /// The class is already in the queue.
    AlreadyQueued { class_id: u64 },
}

/// The persisted set of snipe targets, in insertion order.
#[derive(Debug)]
pub struct SnipeQueue {
    pub snipes: Vec<SnipeEntry>,
}

impl SnipeQueue {
    /// Every class time can be placed on a calendar day, and every booking
    /// window lies in the representable range.
    pub open spec fn wf(&self) -> bool {
        forall|i: int| 0 <= i < self.snipes@.len() ==> (#[trigger] self.snipes@[i]).times_wf()
    }

    /// The invariants that `add` maintains: no two pending entries on one
    /// calendar day, and no two entries for one class.
    pub open spec fn consistent(&self) -> bool {
        let s = self.snipes@;
        &&& forall|i: int, j: int|
            0 <= i < j < s.len() && s[i].is_pending() && s[j].is_pending() ==> s[i].class_time.calendar_day()
                != s[j].class_time.calendar_day()
        &&& forall|i: int, j: int| 0 <= i < j < s.len() ==> s[i].class_id != s[j].class_id
    }

    /// Whether `wf` holds: for a queue read from storage.
    pub fn is_well_formed(&self) -> (r: bool)
        ensures
            r == self.wf(),
    {
        let mut i: usize = 0;
        while i < self.snipes.len()
            invariant
                i <= self.snipes@.len(),
                forall|k: int| 0 <= k < i ==> (#[trigger] self.snipes@[k]).times_wf(),
            decreases self.snipes@.len() - i,
        {
            let e = &self.snipes[i];
            if !(e.class_time.is_wf() && e.booking_window.is_wf()) {
                return false;
            }
            i += 1;
        }
        true
    }

    /// An empty queue.
    pub fn new() -> (r: SnipeQueue)
        ensures
            r.snipes@.len() == 0,
            r.wf(),
            r.consistent(),
    {
        SnipeQueue { snipes: Vec::new() }
    }

    /// The first pending entry for a class on the given local calendar day.
    pub fn has_snipe_for_date(&self, date: i64) -> (r: Option<&SnipeEntry>)
        requires
            self.wf(),
        ensures
            r is None <==> !has_pending_on(self.snipes@, date as int),
            r matches Some(e) ==> is_first_pending_on(self.snipes@, date as int, *e),
    {
        let mut i: usize = 0;
        while i < self.snipes.len()
            invariant
                self.wf(),
                i <= self.snipes@.len(),
                forall|j: int| 0 <= j < i ==> !(#[trigger] self.snipes@[j]).pending_on(date as int),
            decreases self.snipes@.len() - i,
        {
            let e = &self.snipes[i];
            if e.status == SnipeStatus::Pending && e.class_time.local_day() == date {
                return Some(e);
            }
            i += 1;
        }
        None
    }

    /// Whether some entry, whatever its status, is for class `class_id`.
    pub fn contains_class(&self, class_id: u64) -> (r: bool)
        ensures
            r == has_class_id(self.snipes@, class_id),
    {
        let mut i: usize = 0;
        while i < self.snipes.len()
            invariant
                i <= self.snipes@.len(),
                forall|j: int| 0 <= j < i ==> (#[trigger] self.snipes@[j]).class_id != class_id,
            decreases self.snipes@.len() - i,
        {
            if self.snipes[i].class_id == class_id {
                return true;
            }
            i += 1;
        }
        false
    }

    /// Add a new snipe entry. It is refused when a pending entry exists for a
    /// class on the same local calendar day, and otherwise when the class is
    /// already queued; on refusal the queue is unchanged.
    pub fn add(&mut self, entry: SnipeEntry) -> (r: Result<(), QueueError>)
        requires
            old(self).wf(),
            entry.times_wf(),
        ensures
            final(self).wf(),
            old(self).consistent() ==> final(self).consistent(),
            match r {
                Ok(()) => {
                    &&& !has_pending_on(old(self).snipes@, entry.class_time.calendar_day())
                    &&& !has_class_id(old(self).snipes@, entry.class_id)
                    &&& final(self).snipes@ == old(self).snipes@.push(entry)
                },
                Err(QueueError::DayTaken { existing_class_id, existing_class_name, existing_class_time }) => {
                    &&& *final(self) == *old(self)
                    &&& exists|e: SnipeEntry|
                        is_first_pending_on(old(self).snipes@, entry.class_time.calendar_day(), e)
                            && e.class_id == existing_class_id && e.class_name == existing_class_name
                            && e.class_time == existing_class_time
                },
                Err(QueueError::AlreadyQueued { class_id }) => {
                    &&& *final(self) == *old(self)
                    &&& !has_pending_on(old(self).snipes@, entry.class_time.calendar_day())
                    &&& has_class_id(old(self).snipes@, entry.class_id)
                    &&& class_id == entry.class_id
                },
            },
    {
        let day = entry.class_time.local_day();
        match self.has_snipe_for_date(day) {
            Some(existing) => {
                return Err(
                    QueueError::DayTaken {
                        existing_class_id: existing.class_id,
                        existing_class_name: existing.class_name.clone(),
                        existing_class_time: existing.class_time,
                    },
                );
            },
            None => {},
        }
        if self.contains_class(entry.class_id) {
            return Err(QueueError::AlreadyQueued { class_id: entry.class_id });
        }
        let ghost before = self.snipes@;
        self.snipes.push(entry);
        proof {
            let s = self.snipes@;
            assert forall|i: int| 0 <= i < s.len() implies (#[trigger] s[i]).times_wf() by {
                if i < before.len() {
                    assert(s[i] == before[i]);
                }
            }
            if old(self).consistent() {
                assert forall|i: int, j: int|
                    0 <= i < j < s.len() && s[i].is_pending() && s[j].is_pending() implies s[i].class_time.calendar_day()
                    != s[j].class_time.calendar_day() by {
                    if j == before.len() {
                        assert(s[i] == before[i]);
                        if s[i].class_time.calendar_day() == entry.class_time.calendar_day() {
                            assert(before[i].pending_on(entry.class_time.calendar_day()));
                        }
                    } else {
                        assert(s[i] == before[i] && s[j] == before[j]);
                    }
                }
                assert forall|i: int, j: int| 0 <= i < j < s.len() implies s[i].class_id
                    != s[j].class_id by {
                    if j == before.len() {
                        assert(s[i] == before[i]);
                    } else {
                        assert(s[i] == before[i] && s[j] == before[j]);
                    }
                }
            }
        }
        Ok(())
    }

    /// Take out every entry that `sel` selects; true when one was taken out.
    fn remove_selected(&mut self, sel: &Selector) -> (r: bool)
        ensures
            old(self).wf() ==> final(self).wf(),
            old(self).consistent() ==> final(self).consistent(),
            final(self).snipes@ == old(self).snipes@.filter(sel.keeps()),
            r == exists|k: int| 0 <= k < old(self).snipes@.len() && sel.selects(old(self).snipes@[k]),
    {
        let ghost start = self.snipes@;
        let ghost keep = sel.keeps();
        let ghost mut j: int = 0;
        let mut removed = false;
        let mut i: usize = 0;
        while i < self.snipes.len()
            invariant
                0 <= j <= start.len(),
                keep == sel.keeps(),
                self.snipes@ == start.subrange(0, j).filter(keep) + start.subrange(j, start.len() as int),
                i == start.subrange(0, j).filter(keep).len(),
                removed == exists|k: int| 0 <= k < j && sel.selects(start[k]),
                old(self).wf() ==> self.wf(),
                old(self).consistent() ==> self.consistent(),
            decreases start.len() - j,
        {
            let ghost kept = start.subrange(0, j).filter(keep);
            proof {
                assert(self.snipes@[i as int] == start[j]);
                assert(start.subrange(0, j + 1) =~= start.subrange(0, j).push(start[j]));
                start.subrange(0, j).lemma_filter_push(start[j], keep);
            }
            if sel.selects_entry(&self.snipes[i]) {
                let ghost prev = self.snipes@;
                self.snipes.remove(i);
                removed = true;
                proof {
                    prev.remove_ensures(i as int);
                    if old(self).wf() {
                        assert forall|k: int| 0 <= k < self.snipes@.len() implies (
                        #[trigger] self.snipes@[k]).times_wf() by {
                            if k < i {
                                assert(self.snipes@[k] == prev[k]);
                            } else {
                                assert(self.snipes@[k] == prev[k + 1]);
                            }
                        }
                    }
                    if old(self).consistent() {
                        let now = self.snipes@;
                        assert forall|a: int, b: int| 0 <= a < b < now.len() implies now[a] == prev[if a < i {
                            a
                        } else {
                            a + 1
                        }] && now[b] == prev[if b < i {
                            b
                        } else {
                            b + 1
                        }] by {}
                    }
                    assert(self.snipes@ =~= kept + start.subrange(j + 1, start.len() as int));
                }
            } else {
                i += 1;
                proof {
                    assert(self.snipes@ =~= kept.push(start[j]) + start.subrange(j + 1, start.len() as int));
                }
            }
            proof {
                j = j + 1;
            }
        }
        proof {
            assert(start.subrange(0, j) =~= start);
            assert(start.subrange(j, start.len() as int) =~= Seq::<SnipeEntry>::empty());
            assert(self.snipes@ =~= start.filter(keep));
        }
        removed
    }

    /// Remove every entry for a class; true when one was removed.
    pub fn remove(&mut self, class_id: u64) -> (r: bool)
        ensures
            old(self).consistent() ==> final(self).consistent(),
            old(self).wf() ==> final(self).wf(),
            final(self).snipes@ == old(self).snipes@.filter(Selector::ClassId(class_id).keeps()),
            r == has_class_id(old(self).snipes@, class_id),
    {
        let sel = Selector::ClassId(class_id);
        self.remove_selected(&sel)
    }

    /// Record a final status for the pending entries of a class; entries
    /// already finished keep theirs. True when an entry changed.
    fn mark(&mut self, class_id: u64, status: SnipeStatus, message: Option<String>) -> (r: bool)
        ensures
            old(self).consistent() ==> final(self).consistent(),
            old(self).wf() ==> final(self).wf(),
            final(self).snipes@ == marked(old(self).snipes@, class_id, status, message),
            r == exists|k: int|
                0 <= k < old(self).snipes@.len() && (#[trigger] old(self).snipes@[k]).class_id == class_id
                    && old(self).snipes@[k].is_pending(),
    {
        let ghost start = self.snipes@;
        let mut changed = false;
        let mut i: usize = 0;
        while i < self.snipes.len()
            invariant
                self.snipes@.len() == start.len(),
                i <= start.len(),
                forall|k: int|
                    0 <= k < i ==> #[trigger] self.snipes@[k] == marked(start, class_id, status, message)[k],
                forall|k: int| i <= k < start.len() ==> #[trigger] self.snipes@[k] == start[k],
                changed == exists|k: int|
                    0 <= k < i && (#[trigger] start[k]).class_id == class_id && start[k].is_pending(),
            decreases start.len() - i,
        {
            if self.snipes[i].class_id == class_id && self.snipes[i].status == SnipeStatus::Pending {
                self.snipes[i].status = status;
                self.snipes[i].error_message = message.clone();
                changed = true;
            }
            i += 1;
        }
        proof {
            assert(self.snipes@ =~= marked(start, class_id, status, message));
            if old(self).wf() {
                assert forall|k: int| 0 <= k < self.snipes@.len() implies (
                #[trigger] self.snipes@[k]).times_wf() by {
                    assert(start[k].times_wf());
                }
            }
            if old(self).consistent() {
                let now = self.snipes@;
                assert forall|a: int, b: int| 0 <= a < b < now.len() implies now[a].class_id == start[a].class_id
                    && now[b].class_id == start[b].class_id && now[a].class_time == start[a].class_time
                    && now[b].class_time == start[b].class_time && (now[a].is_pending()
                    ==> start[a].is_pending()) && (now[b].is_pending() ==> start[b].is_pending()) by {}
            }
        }
        changed
    }

    /// Record that the pending entry of a class was booked.
    pub fn mark_completed(&mut self, class_id: u64) -> (r: bool)
        ensures
            old(self).consistent() ==> final(self).consistent(),
            old(self).wf() ==> final(self).wf(),
            final(self).snipes@ == marked(old(self).snipes@, class_id, SnipeStatus::Completed, None),
            r == exists|k: int|
                0 <= k < old(self).snipes@.len() && (#[trigger] old(self).snipes@[k]).class_id == class_id
                    && old(self).snipes@[k].is_pending(),
    {
        self.mark(class_id, SnipeStatus::Completed, None)
    }

    /// Record that the snipe of a class failed, and why.
    pub fn mark_failed(&mut self, class_id: u64, reason: String) -> (r: bool)
        ensures
            old(self).consistent() ==> final(self).consistent(),
            old(self).wf() ==> final(self).wf(),
            final(self).snipes@ == marked(old(self).snipes@, class_id, SnipeStatus::Failed, Some(reason)),
            r == exists|k: int|
                0 <= k < old(self).snipes@.len() && (#[trigger] old(self).snipes@[k]).class_id == class_id
                    && old(self).snipes@[k].is_pending(),
    {
        self.mark(class_id, SnipeStatus::Failed, Some(reason))
    }

    /// All pending entries, ordered by when their booking window opens;
    /// entries that open together keep their queue order.
    pub fn pending_snipes(&self) -> (r: Vec<&SnipeEntry>)
        ensures
            entries_of(r@) == sort_by_window(self.snipes@.filter(entry_is_pending())),
            by_window(entries_of(r@)),
            forall|i: int| 0 <= i < r@.len() ==> (#[trigger] r@[i]).is_pending(),
            entries_of(r@).to_multiset() == self.snipes@.filter(entry_is_pending()).to_multiset(),
    {
        let ghost all = self.snipes@;
        let ghost pend = entry_is_pending();
        let mut res: Vec<&SnipeEntry> = Vec::new();
        let mut i: usize = 0;
        proof {
            assert(all.subrange(0, 0).filter(pend) =~= Seq::<SnipeEntry>::empty()) by {
                reveal(Seq::filter);
            }
            assert(entries_of(res@) =~= Seq::<SnipeEntry>::empty());
        }
        while i < self.snipes.len()
            invariant
                all == self.snipes@,
                pend == entry_is_pending(),
                i <= all.len(),
                entries_of(res@) == sort_by_window(all.subrange(0, i as int).filter(pend)),
                by_window(entries_of(res@)),
                entries_of(res@).to_multiset() == all.subrange(0, i as int).filter(pend).to_multiset(),
            decreases all.len() - i,
        {
            let e = &self.snipes[i];
            let ghost before = all.subrange(0, i as int).filter(pend);
            proof {
                assert(all.subrange(0, i + 1) =~= all.subrange(0, i as int).push(*e));
                all.subrange(0, i as int).lemma_filter_push(*e, pend);
            }
            if e.status == SnipeStatus::Pending {
                let ghost t = entries_of(res@);
                let mut p: usize = res.len();
                while p > 0 && res[p - 1].booking_window.utc_millis > e.booking_window.utc_millis
                    invariant
                        p <= res@.len(),
                        t == entries_of(res@),
                        forall|j: int| p <= j < t.len() ==> (#[trigger] t[j]).window_key() > e.window_key(),
                    decreases p,
                {
                    p -= 1;
                }
                proof {
                    lemma_insert_at(t, *e, p as int, window_of());
                    assert(before.push(*e).drop_last() =~= before);
                    lemma_insert_keeps_order(t, *e, p as int, window_of());
                    before.to_multiset_ensures();
                }
                res.insert(p, e);
                proof {
                    assert(entries_of(res@) =~= t.insert(p as int, *e));
                }
            }
            i += 1;
        }
        proof {
            assert(all.subrange(0, all.len() as int) =~= all);
            let f = all.filter(pend);
            let sorted = entries_of(res@);
            sorted.to_multiset_ensures();
            f.to_multiset_ensures();
            assert forall|i: int| 0 <= i < res@.len() implies (#[trigger] res@[i]).is_pending() by {
                let x = sorted[i];
                assert(sorted.contains(x));
                assert(sorted.to_multiset().count(x) > 0);
                assert(f.to_multiset().count(x) > 0);
                assert(f.contains(x));
                let k = choose|k: int| 0 <= k < f.len() && f[k] == x;
                all.lemma_filter_pred(pend, k);
            }
        }
        res
    }

    /// Clean up finished entries whose class started more than seven days
    /// before `now`; pending entries are always kept. True when one was removed.
    pub fn cleanup_old_entries_at(&mut self, now: LocalDateTime) -> (r: bool)
        requires
            now.wf(),
        ensures
            old(self).consistent() ==> final(self).consistent(),
            old(self).wf() ==> final(self).wf(),
            final(self).snipes@ == old(self).snipes@.filter(
                Selector::FinishedBy(retention_cutoff(now)).keeps(),
            ),
            r == exists|k: int|
                0 <= k < old(self).snipes@.len() && Selector::FinishedBy(
                    retention_cutoff(now),
                ).selects(old(self).snipes@[k]),
    {
        let sel = Selector::FinishedBy(now.utc_millis - RETENTION_MILLIS);
        self.remove_selected(&sel)
    }

    /// Clean up finished entries whose class started more than seven days
    /// before the current time. True when one was removed.
    pub fn cleanup_old_entries(&mut self) -> (r: bool)
        ensures
            old(self).consistent() ==> final(self).consistent(),
            old(self).wf() ==> final(self).wf(),
            exists|now: LocalDateTime|
                now.wf() && final(self).snipes@ == old(self).snipes@.filter(
                    Selector::FinishedBy(retention_cutoff(now)).keeps(),
                ) && r == exists|k: int|
                    0 <= k < old(self).snipes@.len() && Selector::FinishedBy(
                        retention_cutoff(now),
                    ).selects(old(self).snipes@[k]),
    {
        let now = now_local();
        self.cleanup_old_entries_at(now)
    }
}

} // verus!
