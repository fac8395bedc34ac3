//! The dates a user has marked.
//!
//! A [`MarkedDateSet`] is a set of dates: a date is in it or not, and no
//! order is kept. Each date is stored under its day number.

use crate::logic::date::CalendarDate;
use crate::logic::gregorian::{lemma_known_day_numbers, lemma_representable_range};
use std::collections::HashSet;
use vstd::prelude::*;

verus! {

/// `marks` with `date` put in if it was not there, and taken out if it was.
pub open spec fn toggled(marks: Set<CalendarDate>, date: CalendarDate) -> Set<CalendarDate> {
    if marks.contains(date) {
        marks.remove(date)
    } else {
        marks.insert(date)
    }
}

/// Toggling the same date twice leaves the marks as they were; on no marks
/// at all it leaves none.
pub proof fn lemma_toggle_twice(marks: Set<CalendarDate>, date: CalendarDate)
    ensures
        toggled(toggled(marks, date), date) == marks,
        toggled(toggled(Set::<CalendarDate>::empty(), date), date) == Set::<CalendarDate>::empty(),
{
    assert(toggled(toggled(marks, date), date) =~= marks);
    assert(toggled(toggled(Set::<CalendarDate>::empty(), date), date) =~= Set::<
        CalendarDate,
    >::empty());
}

/// No two dates are stored under the same number.
proof fn lemma_stored_apart(a: CalendarDate, b: CalendarDate)
    requires
        a.is_valid(),
        b.is_valid(),
    ensures
        a@.day_number() as i32 == b@.day_number() as i32 <==> a == b,
        a@.day_number() as i32 == a@.day_number(),
{
    lemma_representable_range(a@);
    lemma_representable_range(b@);
    lemma_known_day_numbers();
    if a@.day_number() == b@.day_number() {
        a.lemma_equal_by_day_number(b);
    }
}

/// A set of marked dates.
pub struct MarkedDateSet {
    keys: HashSet<i32>,
}

impl View for MarkedDateSet {
    type V = Set<CalendarDate>;

    closed spec fn view(&self) -> Set<CalendarDate> {
        Set::new(|date: CalendarDate| date.is_valid() && self.keys@.contains(date@.day_number() as i32))
    }
}

impl MarkedDateSet {
    #[verifier::type_invariant]
    closed spec fn stores_dates_only(self) -> bool {
        forall|key: i32| #[trigger]
            self.keys@.contains(key) ==> exists|date: CalendarDate|
                date.is_valid() && #[trigger] date@.day_number() == key
    }

    /// A set without dates.
    pub fn new() -> (marks: MarkedDateSet)
        ensures
            marks@ == Set::<CalendarDate>::empty(),
    {
        MarkedDateSet { keys: HashSet::new() }
    }

    /// Whether `date` is marked.
    pub fn contains(&self, date: &CalendarDate) -> (found: bool)
        ensures
            found == self@.contains(*date),
    {
        broadcast use vstd::std_specs::hash::group_hash_axioms;

        proof {
            use_type_invariant(date);
        }
        let key: i32 = date.num_days_from_ce();
        self.keys.contains(&key)
    }

    /// Whether no date is marked.
    pub fn is_empty(&self) -> (empty: bool)
        ensures
            empty == (self@ == Set::<CalendarDate>::empty()),
    {
        proof {
            use_type_invariant(self);
        }
        let empty = self.keys.is_empty();
        proof {
            if empty {
                assert(self@ =~= Set::<CalendarDate>::empty());
            } else {
                let key = choose|key: i32| self.keys@.contains(key);
                let date = choose|date: CalendarDate|
                    date.is_valid() && #[trigger] date@.day_number() == key;
                assert(self@.contains(date));
            }
        }
        empty
    }

    /// Marks `date`. Returns whether it was not marked before.
    pub fn insert(&mut self, date: CalendarDate) -> (added: bool)
        ensures
            final(self)@ == old(self)@.insert(date),
            added == !old(self)@.contains(date),
    {
        broadcast use vstd::std_specs::hash::group_hash_axioms;

        proof {
            use_type_invariant(&*self);
            use_type_invariant(&date);
        }
        let key: i32 = date.num_days_from_ce();
        let mut keys: HashSet<i32> = HashSet::new();
        std::mem::swap(&mut self.keys, &mut keys);
        let added = keys.insert(key);
        std::mem::swap(&mut self.keys, &mut keys);
        proof {
            assert forall|other: CalendarDate| other.is_valid() implies (other@.day_number() as i32
                == key <==> other == date) by {
                lemma_stored_apart(other, date);
            }
            assert(self@ =~= old(self)@.insert(date));
        }
        added
    }

    /// Takes the mark off `date`. Returns whether it was marked before.
    pub fn remove(&mut self, date: &CalendarDate) -> (removed: bool)
        ensures
            final(self)@ == old(self)@.remove(*date),
            removed == old(self)@.contains(*date),
    {
        broadcast use vstd::std_specs::hash::group_hash_axioms;

        proof {
            use_type_invariant(&*self);
            use_type_invariant(&date);
        }
        let key: i32 = date.num_days_from_ce();
        let mut keys: HashSet<i32> = HashSet::new();
        std::mem::swap(&mut self.keys, &mut keys);
        let removed = keys.remove(&key);
        std::mem::swap(&mut self.keys, &mut keys);
        proof {
            assert forall|other: CalendarDate| other.is_valid() implies (other@.day_number() as i32
                == key <==> other == *date) by {
                lemma_stored_apart(other, *date);
            }
            assert(self@ =~= old(self)@.remove(*date));
        }
        removed
    }

    /// Marks `date` if it is not marked, and takes the mark off if it is.
    pub fn toggle(&mut self, date: CalendarDate)
        ensures
            final(self)@ == toggled(old(self)@, date),
    {
        if self.contains(&date) {
            self.remove(&date);
        } else {
            self.insert(date);
        }
    }

    /// Takes all marks off.
    pub fn clear(&mut self)
        ensures
            final(self)@ == Set::<CalendarDate>::empty(),
    {
        let mut keys: HashSet<i32> = HashSet::new();
        std::mem::swap(&mut self.keys, &mut keys);
        keys.clear();
        std::mem::swap(&mut self.keys, &mut keys);
        proof {
            assert(self@ =~= Set::<CalendarDate>::empty());
        }
    }
}

} // verus!
