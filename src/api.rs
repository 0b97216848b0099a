//! What the booking service reports about classes and reservations.
use crate::clock::{parse_local_timestamp, LocalDateTime};
use crate::order::{lemma_insert_at, lemma_insert_keeps_order, sorted_by_key, stable_sort_by_key};
use vstd::prelude::*;

verus! {

/// A class in the catalog.
#[derive(Clone, Debug)]
pub struct ClassInfo {
    pub id: u64,
    pub name: String,
    pub start_time: LocalDateTime,
    pub status: String,
    pub trainer: Option<String>,
}

/// The ticket returned by a successful reservation.
#[derive(Clone, Debug)]
pub struct BookingResult {
    pub name: String,
    pub start_time: LocalDateTime,
    pub trainer: Option<String>,
}

/// A class as the member sees it, with their waitlist position if any.
#[derive(Clone, Debug)]
pub struct MyBooking {
    pub id: u64,
    pub name: String,
    pub start_time: LocalDateTime,
    pub status: String,
    pub waitlist_position: Option<u32>,
    pub trainer: Option<String>,
}

/// The start time of a class, as a sort key.
pub open spec fn start_of() -> spec_fn(ClassInfo) -> int {
    |c: ClassInfo| c.start_time.utc_millis as int
}

/// A catalog entry as the service sends it, with its start time still text.
/// Err when the start time is not a valid local "YYYY-MM-DDTHH:MM:SS" time
/// within the range of `LocalDateTime`.
pub fn parse_class_item(
    id: u64,
    name: String,
    start_time: &str,
    status: String,
    trainer: Option<String>,
) -> (r: Result<ClassInfo, String>)
    ensures
        match r {
            Ok(c) => {
                &&& c.id == id
                &&& c.name == name
                &&& c.start_time.wf()
                &&& c.status == status
                &&& c.trainer == trainer
            },
            Err(e) => e@ == "Failed to parse start time"@,
        },
{
    match parse_local_timestamp(start_time) {
        Some(t) => {
            if t.is_wf() {
                Ok(ClassInfo { id, name, start_time: t, status, trainer })
            } else {
                Err(String::from_str("Failed to parse start time"))
            }
        },
        None => Err(String::from_str("Failed to parse start time")),
    }
}

/// A catalog in order of start time; classes starting together keep their order.
pub fn sort_by_start_time(classes: Vec<ClassInfo>) -> (r: Vec<ClassInfo>)
    ensures
        r@ == stable_sort_by_key(classes@, start_of()),
        sorted_by_key(r@, start_of()),
        r@.to_multiset() == classes@.to_multiset(),
{
    let ghost all = classes@;
    let mut rest = classes;
    let mut sorted: Vec<ClassInfo> = Vec::new();
    let ghost mut i: int = 0;
    proof {
        assert(all.subrange(0, 0) =~= Seq::<ClassInfo>::empty());
        assert(rest@ =~= all.subrange(0, all.len() as int));
    }
    while rest.len() > 0
        invariant
            0 <= i <= all.len(),
            rest@ == all.subrange(i, all.len() as int),
            sorted@ == stable_sort_by_key(all.subrange(0, i), start_of()),
            sorted_by_key(sorted@, start_of()),
            sorted@.to_multiset() == all.subrange(0, i).to_multiset(),
        decreases rest@.len(),
    {
        let c = rest.remove(0);
        let ghost before = all.subrange(0, i);
        let ghost t = sorted@;
        proof {
            assert(c == all[i]);
            assert(all.subrange(0, i + 1) =~= before.push(c));
            assert(before.push(c).drop_last() =~= before);
        }
        let mut p: usize = sorted.len();
        while p > 0 && sorted[p - 1].start_time.utc_millis > c.start_time.utc_millis
            invariant
                p <= sorted@.len(),
                t == sorted@,
                forall|j: int| p <= j < t.len() ==> (#[trigger] t[j]).start_time.utc_millis > c.start_time.utc_millis,
            decreases p,
        {
            p -= 1;
        }
        proof {
            lemma_insert_at(t, c, p as int, start_of());
            lemma_insert_keeps_order(t, c, p as int, start_of());
            before.to_multiset_ensures();
        }
        sorted.insert(p, c);
        proof {
            i = i + 1;
            assert(rest@ =~= all.subrange(i, all.len() as int));
        }
    }
    proof {
        assert(all.subrange(0, i) =~= all);
    }
    sorted
}

} // verus!
