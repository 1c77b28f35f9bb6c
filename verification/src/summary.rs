//! The calorie balance of one user on one day.

use vstd::prelude::*;
use crate::amount::{add_amounts, lemma_saturate_absorbs, portion, portion_calories, saturate};
use crate::database::{Database, DatabaseView};
use crate::models::{FoodLogEntry, FoodLogEntryView};
use crate::resolve::lemma_calories_depend_on_foods;
use crate::table::{find_key, lemma_table_entry};

verus! {

/// The entry records what `user_id` ate on `date`.
pub open spec fn eaten_on(entry: FoodLogEntryView, user_id: Seq<char>, date: Seq<char>) -> bool {
    entry.user_id == user_id && entry.date == date
}

impl DatabaseView {
    /// The calories that a log entry stands for. An entry whose food has no
    /// calorie value, because it is unknown or contains itself, counts as
    /// nothing.
    pub open spec fn entry_calories(self, entry: FoodLogEntryView) -> nat {
        match self.calories_of(entry.food_id) {
            Ok(calories) => portion(calories as nat, entry.servings as nat),
            Err(_) => 0,
        }
    }

    /// The exact sum of the calories of those entries of `log` that record
    /// what `user_id` ate on `date`.
    pub open spec fn log_total(
        self,
        log: Seq<FoodLogEntryView>,
        user_id: Seq<char>,
        date: Seq<char>,
    ) -> nat
        decreases log.len(),
    {
        if log.len() == 0 {
            0
        } else {
            let counted: nat = if eaten_on(log.last(), user_id, date) {
                self.entry_calories(log.last())
            } else {
                0
            };
            self.log_total(log.drop_last(), user_id, date) + counted
        }
    }

    /// What `user_id` consumed on `date`, in thousandths of a kilocalorie.
    pub open spec fn consumed(self, user_id: Seq<char>, date: Seq<char>) -> u64 {
        saturate(self.log_total(self.food_logs, user_id, date)) as u64
    }

    /// The daily target of `user_id` in thousandths of a kilocalorie: zero
    /// for an unknown user and for a profile that is not valid.
    pub open spec fn target(self, user_id: Seq<char>) -> i64 {
        if self.users.contains_key(user_id) && self.users[user_id].profile.is_valid() {
            self.users[user_id].profile.target_calories() as i64
        } else {
            0
        }
    }

    /// What is left of the target of `user_id` on `date`; negative when the
    /// target is exceeded.
    pub open spec fn remaining(self, user_id: Seq<char>, date: Seq<char>) -> int {
        self.target(user_id) - self.consumed(user_id, date)
    }
}

/// A log without an entry of `user_id` on `date` sums to nothing.
pub proof fn lemma_log_without_entries(
    db: DatabaseView,
    log: Seq<FoodLogEntryView>,
    user_id: Seq<char>,
    date: Seq<char>,
)
    requires
        forall|i: int| 0 <= i < log.len() ==> !eaten_on(#[trigger] log[i], user_id, date),
    ensures
        db.log_total(log, user_id, date) == 0,
    decreases log.len(),
{
    if log.len() > 0 {
        lemma_log_without_entries(db, log.drop_last(), user_id, date);
    }
}

/// On a day for which the user has logged nothing, nothing is consumed and
/// the whole target remains.
pub proof fn lemma_empty_day(db: DatabaseView, user_id: Seq<char>, date: Seq<char>)
    requires
        forall|i: int|
            0 <= i < db.food_logs.len() ==> !eaten_on(#[trigger] db.food_logs[i], user_id, date),
    ensures
        db.consumed(user_id, date) == 0,
        db.remaining(user_id, date) == db.target(user_id),
{
    lemma_log_without_entries(db, db.food_logs, user_id, date);
}

/// Taking one entry out of a log lowers the sum by what that entry counted.
proof fn lemma_log_total_remove(
    db: DatabaseView,
    log: Seq<FoodLogEntryView>,
    place: int,
    user_id: Seq<char>,
    date: Seq<char>,
)
    requires
        0 <= place < log.len(),
    ensures
        db.log_total(log, user_id, date) == db.log_total(log.remove(place), user_id, date) + (
        if eaten_on(log[place], user_id, date) {
            db.entry_calories(log[place])
        } else {
            0
        }),
    decreases log.len(),
{
    if place == log.len() - 1 {
        assert(log.remove(place) =~= log.drop_last());
    } else {
        let shorter = log.remove(place);
        assert(shorter.drop_last() =~= log.drop_last().remove(place));
        assert(shorter.last() == log.last());
        lemma_log_total_remove(db, log.drop_last(), place, user_id, date);
    }
}

/// The sum over a log does not depend on the order of its entries: two logs
/// that hold the same entries, each as often as the other, sum to the same.
pub proof fn lemma_log_total_ignores_order(
    db: DatabaseView,
    log: Seq<FoodLogEntryView>,
    permuted: Seq<FoodLogEntryView>,
    user_id: Seq<char>,
    date: Seq<char>,
)
    requires
        log.to_multiset() == permuted.to_multiset(),
    ensures
        db.log_total(log, user_id, date) == db.log_total(permuted, user_id, date),
    decreases log.len(),
{
    broadcast use vstd::seq_lib::group_to_multiset_ensures;

    log.to_multiset_ensures();
    permuted.to_multiset_ensures();
    if log.len() == 0 {
        assert(permuted.len() == 0);
    } else {
        let entry = log.last();
        assert(log.drop_last().push(entry) =~= log);
        assert(log.to_multiset().count(entry) > 0);
        assert(permuted.contains(entry));
        let place = choose|i: int| 0 <= i < permuted.len() && permuted[i] == entry;
        assert(log.drop_last().to_multiset() =~= log.to_multiset().remove(entry)) by {
            assert(log.drop_last() =~= log.remove(log.len() - 1));
        }
        assert(permuted.remove(place).to_multiset() =~= permuted.to_multiset().remove(entry));
        lemma_log_total_ignores_order(
            db,
            log.drop_last(),
            permuted.remove(place),
            user_id,
            date,
        );
        lemma_log_total_remove(db, permuted, place, user_id, date);
    }
}

/// What a user consumed on a day does not depend on the order of the log:
/// two databases with the same foods whose logs hold the same entries give
/// the same total.
pub proof fn lemma_consumed_ignores_order(
    db: DatabaseView,
    other: DatabaseView,
    user_id: Seq<char>,
    date: Seq<char>,
)
    requires
        db.wf(),
        db.basic_foods == other.basic_foods,
        db.composite_foods == other.composite_foods,
        db.food_logs.to_multiset() == other.food_logs.to_multiset(),
    ensures
        db.consumed(user_id, date) == other.consumed(user_id, date),
{
    lemma_log_total_ignores_order(db, db.food_logs, other.food_logs, user_id, date);
    lemma_log_total_same_foods(db, other, other.food_logs, user_id, date);
}

/// The sum over a log depends on the foods of the database alone.
proof fn lemma_log_total_same_foods(
    db: DatabaseView,
    other: DatabaseView,
    log: Seq<FoodLogEntryView>,
    user_id: Seq<char>,
    date: Seq<char>,
)
    requires
        db.wf(),
        db.basic_foods == other.basic_foods,
        db.composite_foods == other.composite_foods,
    ensures
        db.log_total(log, user_id, date) == other.log_total(log, user_id, date),
    decreases log.len(),
{
    if log.len() > 0 {
        lemma_log_total_same_foods(db, other, log.drop_last(), user_id, date);
        lemma_calories_depend_on_foods(db, other, log.last().food_id);
    }
}

impl Database {
    /// Whether the entry records what `user_id` ate on `date`.
    fn entry_is_for(entry: &FoodLogEntry, user_id: &str, date: &str) -> (yes: bool)
        ensures
            yes == eaten_on(entry@, user_id@, date@),
    {
        entry.user_id.as_str().eq(user_id) && entry.date.as_str().eq(date)
    }

    /// The daily target of `user_id`.
    fn target_of(&self, user_id: &str) -> (target: i64)
        requires
            self.wf(),
        ensures
            target == self@.target(user_id@),
    {
        match find_key(&self.users, user_id) {
            Some(i) => {
                proof {
                    lemma_table_entry(self.users@, i as int);
                }
                match self.users[i].profile.calculate_target_calories() {
                    Ok(target) => target,
                    Err(_) => 0,
                }
            },
            None => 0,
        }
    }

    /// The calorie balance of `user_id` on `date` as the triple
    /// `(consumed, target, remaining)`, each in thousandths of a kilocalorie.
    ///
    /// `consumed` sums the portions of the user's log entries of that day,
    /// where an entry whose food has no calorie value counts as nothing.
    /// `target` follows from the user's profile and is zero for an unknown
    /// user or a profile that is not valid. `remaining` is their difference.
    pub fn calculate_calories(&self, user_id: &str, date: &str) -> (summary: (u64, i64, i128))
        requires
            self.wf(),
        ensures
            summary.0 == self@.consumed(user_id@, date@),
            summary.1 == self@.target(user_id@),
            summary.2 == self@.remaining(user_id@, date@),
    {
        let mut total: u64 = 0;
        let mut k: usize = 0;
        while k < self.food_logs.len()
            invariant
                self.wf(),
                k <= self.food_logs.len(),
                total == saturate(self@.log_total(self@.food_logs.take(k as int), user_id@, date@)),
            decreases self.food_logs.len() - k,
        {
            let entry = &self.food_logs[k];
            proof {
                let before = self@.food_logs.take(k as int);
                let after = self@.food_logs.take(k + 1);
                assert(after.drop_last() =~= before);
                assert(after.last() == entry@);
            }
            if Self::entry_is_for(entry, user_id, date) {
                match self.get_food_calories(entry.food_id.as_str()) {
                    Ok(calories) => {
                        proof {
                            lemma_saturate_absorbs(
                                self@.log_total(self@.food_logs.take(k as int), user_id@, date@),
                                portion(calories as nat, entry.servings as nat),
                            );
                        }
                        total = add_amounts(total, portion_calories(calories, entry.servings));
                    },
                    Err(_) => {},
                }
            }
            k = k + 1;
        }
        assert(self@.food_logs.take(k as int) =~= self@.food_logs);
        let target: i64 = self.target_of(user_id);
        let remaining: i128 = target as i128 - total as i128;
        (total, target, remaining)
    }
}

} // verus!
