//! The food log: what each user ate on each day.
//!
//! Entries are kept in the order in which they were recorded. The entries of
//! one user on one day are addressed by their position among themselves.

use vstd::prelude::*;
use crate::database::{entry_views, Database, DatabaseView};
use crate::models::{FoodLogEntry, FoodLogEntryView};
use crate::summary::eaten_on;

verus! {

/// The entries of `log` that record what `user_id` ate on `date`, in order.
pub open spec fn day_entries(log: Seq<FoodLogEntryView>, user_id: Seq<char>, date: Seq<char>) -> Seq<
    FoodLogEntryView,
>
    decreases log.len(),
{
    if log.len() == 0 {
        Seq::empty()
    } else if eaten_on(log.last(), user_id, date) {
        day_entries(log.drop_last(), user_id, date).push(log.last())
    } else {
        day_entries(log.drop_last(), user_id, date)
    }
}

/// The place in `log` of the entry that stands at `position` among the
/// entries of `user_id` on `date`; `-1` where there is no such entry.
pub open spec fn day_entry_place(
    log: Seq<FoodLogEntryView>,
    user_id: Seq<char>,
    date: Seq<char>,
    position: int,
) -> int
    decreases log.len(),
{
    if log.len() == 0 {
        -1
    } else if eaten_on(log.last(), user_id, date) && position == day_entries(
        log.drop_last(),
        user_id,
        date,
    ).len() {
        log.len() - 1
    } else {
        day_entry_place(log.drop_last(), user_id, date, position)
    }
}

/// The place of a day's entry is the place of an entry of that day, and as
/// many entries of the day stand before it as its position says.
pub proof fn lemma_day_entry_place(
    log: Seq<FoodLogEntryView>,
    user_id: Seq<char>,
    date: Seq<char>,
    position: int,
)
    ensures
        ({
            let place = day_entry_place(log, user_id, date, position);
            if 0 <= position < day_entries(log, user_id, date).len() {
                &&& 0 <= place < log.len()
                &&& eaten_on(log[place], user_id, date)
                &&& log[place] == day_entries(log, user_id, date)[position]
                &&& day_entries(log.take(place), user_id, date).len() == position
            } else {
                place == -1
            }
        }),
    decreases log.len(),
{
    if log.len() > 0 {
        let shorter = log.drop_last();
        lemma_day_entry_place(shorter, user_id, date, position);
        let place = day_entry_place(log, user_id, date, position);
        if place == log.len() - 1 {
            assert(log.take(place) =~= shorter);
        } else if 0 <= place {
            assert(log.take(place) =~= shorter.take(place));
        }
    }
}

/// Taking the entry at `place` out of the log takes it out of its own day
/// and leaves every other day as it was.
pub proof fn lemma_removal_touches_one_day(
    log: Seq<FoodLogEntryView>,
    place: int,
    user_id: Seq<char>,
    date: Seq<char>,
)
    requires
        0 <= place < log.len(),
    ensures
        day_entries(log.remove(place), user_id, date) == if eaten_on(log[place], user_id, date) {
            day_entries(log, user_id, date).remove(
                day_entries(log.take(place), user_id, date).len() as int,
            )
        } else {
            day_entries(log, user_id, date)
        },
        day_entries(log.take(place), user_id, date).len() <= day_entries(
            log,
            user_id,
            date,
        ).len(),
        eaten_on(log[place], user_id, date) ==> day_entries(log.take(place), user_id, date).len()
            < day_entries(log, user_id, date).len(),
    decreases log.len(),
{
    let shorter = log.drop_last();
    if place == log.len() - 1 {
        assert(log.remove(place) =~= shorter);
        assert(log.take(place) =~= shorter);
        if eaten_on(log[place], user_id, date) {
            let day = day_entries(shorter, user_id, date);
            assert(day.push(log.last()).remove(day.len() as int) =~= day);
        }
    } else {
        let removed = log.remove(place);
        assert(removed.drop_last() =~= shorter.remove(place));
        assert(removed.last() == log.last());
        assert(log.take(place) =~= shorter.take(place));
        lemma_removal_touches_one_day(shorter, place, user_id, date);
        if eaten_on(log[place], user_id, date) && eaten_on(log.last(), user_id, date) {
            let day = day_entries(shorter, user_id, date);
            let before = day_entries(log.take(place), user_id, date).len() as int;
            assert(day.remove(before).push(log.last()) =~= day.push(log.last()).remove(before));
        }
    }
}

impl DatabaseView {
    /// The entries that record what `user_id` ate on `date`, in the order
    /// in which they were recorded.
    pub open spec fn entries_on(self, user_id: Seq<char>, date: Seq<char>) -> Seq<
        FoodLogEntryView,
    > {
        day_entries(self.food_logs, user_id, date)
    }
}

impl Database {
    /// Records an entry at the end of the log.
    pub fn append_log_entry(&mut self, entry: FoodLogEntry)
        requires
            old(self).wf(),
        ensures
            final(self).wf(),
            final(self)@ == (DatabaseView {
                food_logs: old(self)@.food_logs.push(entry@),
                ..old(self)@
            }),
    {
        self.food_logs.push(entry);
        assert(entry_views(self.food_logs@) =~= entry_views(old(self).food_logs@).push(entry@));
    }

    /// Copies of the entries that record what `user_id` ate on `date`, in
    /// the order in which they were recorded.
    pub fn entries_on(&self, user_id: &str, date: &str) -> (list: Vec<FoodLogEntry>)
        ensures
            entry_views(list@) == self@.entries_on(user_id@, date@),
    {
        let mut list: Vec<FoodLogEntry> = Vec::new();
        let mut k: usize = 0;
        while k < self.food_logs.len()
            invariant
                k <= self.food_logs.len(),
                entry_views(list@) == day_entries(self@.food_logs.take(k as int), user_id@, date@),
            decreases self.food_logs.len() - k,
        {
            let entry = &self.food_logs[k];
            proof {
                let after = self@.food_logs.take(k + 1);
                assert(after.drop_last() =~= self@.food_logs.take(k as int));
                assert(after.last() == entry@);
            }
            if entry.user_id.as_str().eq(user_id) && entry.date.as_str().eq(date) {
                let ghost before = entry_views(list@);
                let copy = entry.clone();
                list.push(copy);
                assert(entry_views(list@) =~= before.push(entry@));
            }
            k = k + 1;
        }
        assert(self@.food_logs.take(k as int) =~= self@.food_logs);
        list
    }

    /// Removes the entry that stands at `position` among the entries of
    /// `user_id` on `date`, and says whether there was one.
    ///
    /// The other entries of that day keep their order, and the entries of
    /// every other user and day stay as they were.
    pub fn delete_log_entry(&mut self, user_id: &str, date: &str, position: usize) -> (removed:
        bool)
        requires
            old(self).wf(),
        ensures
            final(self).wf(),
            removed == (position < old(self)@.entries_on(user_id@, date@).len()),
            final(self)@ == if removed {
                DatabaseView {
                    food_logs: old(self)@.food_logs.remove(
                        day_entry_place(old(self)@.food_logs, user_id@, date@, position as int),
                    ),
                    ..old(self)@
                }
            } else {
                old(self)@
            },
            removed ==> final(self)@.entries_on(user_id@, date@) == old(self)@.entries_on(
                user_id@,
                date@,
            ).remove(position as int),
    {
        let ghost log = self@.food_logs;
        let mut seen: usize = 0;
        let mut k: usize = 0;
        while k < self.food_logs.len()
            invariant
                self.wf(),
                *self == *old(self),
                log == self@.food_logs,
                k <= self.food_logs.len(),
                seen <= k,
                seen == day_entries(log.take(k as int), user_id@, date@).len(),
                seen <= position,
            decreases self.food_logs.len() - k,
        {
            let entry = &self.food_logs[k];
            proof {
                let after = log.take(k + 1);
                assert(after.drop_last() =~= log.take(k as int));
                assert(after.last() == entry@);
            }
            if entry.user_id.as_str().eq(user_id) && entry.date.as_str().eq(date) {
                if seen == position {
                    proof {
                        lemma_removal_touches_one_day(log, k as int, user_id@, date@);
                        lemma_day_entry_place(log, user_id@, date@, position as int);
                        let place = day_entry_place(log, user_id@, date@, position as int);
                        lemma_prefix_counts_grow(log, user_id@, date@, place, k as int);
                        lemma_prefix_counts_grow(log, user_id@, date@, k as int, place);
                    }
                    self.food_logs.remove(k);
                    assert(entry_views(self.food_logs@) =~= log.remove(k as int));
                    return true;
                }
                seen = seen + 1;
            }
            k = k + 1;
        }
        assert(log.take(k as int) =~= log);
        false
    }
}

/// Before a later place stand at least as many entries of the day as
/// before an earlier one, and more if an entry of the day stands at the
/// earlier place.
pub proof fn lemma_prefix_counts_grow(
    log: Seq<FoodLogEntryView>,
    user_id: Seq<char>,
    date: Seq<char>,
    earlier: int,
    later: int,
)
    requires
        0 <= earlier < log.len(),
        0 <= later < log.len(),
    ensures
        earlier <= later ==> day_entries(log.take(earlier), user_id, date).len() <= day_entries(
            log.take(later),
            user_id,
            date,
        ).len(),
        earlier < later && eaten_on(log[earlier], user_id, date) ==> day_entries(
            log.take(earlier),
            user_id,
            date,
        ).len() < day_entries(log.take(later), user_id, date).len(),
    decreases later,
{
    if earlier < later {
        lemma_prefix_counts_grow(log, user_id, date, earlier, later - 1);
        assert(log.take(later).drop_last() =~= log.take(later - 1));
        assert(log.take(later).last() == log[later - 1]);
    }
}

} // verus!
