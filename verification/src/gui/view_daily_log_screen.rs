//! The daily log: one day's entries of the user who is logged in.

use vstd::prelude::*;
use crate::app_state::AppState;
use crate::database::{entry_views, Database, DatabaseView};
use crate::dates::CalendarDay;
use crate::log::day_entry_place;
use crate::models::{FoodLogEntry, FoodLogEntryView, UserProfile};

verus! {

/// What is left of `log` when the entries of `user_id` on `date` at the
/// given positions are removed one after the other, the last position first.
/// A position at which no entry stands removes nothing.
pub open spec fn log_without(
    log: Seq<FoodLogEntryView>,
    user_id: Seq<char>,
    date: Seq<char>,
    positions: Seq<usize>,
) -> Seq<FoodLogEntryView>
    decreases positions.len(),
{
    if positions.len() == 0 {
        log
    } else {
        let place = day_entry_place(log, user_id, date, positions.last() as int);
        let shorter = if place >= 0 {
            log.remove(place)
        } else {
            log
        };
        log_without(shorter, user_id, date, positions.drop_last())
    }
}

/// The state of the screen: the day that is shown.
#[derive(Debug)]
pub struct ViewDailyLogScreen {
    pub selected_date: CalendarDay,
}

impl ViewDailyLogScreen {
    /// The screen showing the day `today`.
    pub fn new(today: CalendarDay) -> (screen: Self)
        ensures
            screen.selected_date == today,
    {
        Self { selected_date: today }
    }

    /// The button to the left: shows the day before, if there is one.
    pub fn previous_day(&mut self)
        ensures
            final(self).selected_date == match old(self).selected_date.day_before() {
                Some((year, month, day)) => CalendarDay { year, month, day },
                None => old(self).selected_date,
            },
    {
        if let Some(day) = self.selected_date.previous() {
            self.selected_date = day;
        }
    }

    /// The button to the right: shows the day after, if there is one.
    pub fn next_day(&mut self)
        ensures
            final(self).selected_date == match old(self).selected_date.day_after() {
                Some((year, month, day)) => CalendarDay { year, month, day },
                None => old(self).selected_date,
            },
    {
        if let Some(day) = self.selected_date.next() {
            self.selected_date = day;
        }
    }

    /// The day that is shown, written as `YYYY-MM-DD`; none where the
    /// screen holds a day that does not exist.
    pub fn date_text(&self) -> (text: Option<String>)
        ensures
            text is Some == self.selected_date.is_valid(),
            text matches Some(written) ==> written@ == self.selected_date.text(),
    {
        self.selected_date.iso_text()
    }

    /// The calorie balance of the user who is logged in on the day that is
    /// shown, as the triple `(consumed, target, remaining)`; none where the
    /// screen holds a day that does not exist.
    pub fn summary(&self, db: &Database) -> (result: Option<(u64, i64, i128)>)
        requires
            db.wf(),
        ensures
            result is Some == self.selected_date.is_valid(),
            result matches Some(summary) ==> {
                &&& summary.0 == db@.consumed(db@.current_user, self.selected_date.text())
                &&& summary.1 == db@.target(db@.current_user)
                &&& summary.2 == db@.remaining(db@.current_user, self.selected_date.text())
            },
    {
        match self.date_text() {
            Some(date) => Some(db.calculate_calories(db.current_user(), date.as_str())),
            None => None,
        }
    }

    /// Copies of the entries of the user who is logged in on the day that
    /// is shown, in the order in which they were recorded; none where the
    /// screen holds a day that does not exist.
    pub fn entries(&self, db: &Database) -> (list: Vec<FoodLogEntry>)
        ensures
            entry_views(list@) == if self.selected_date.is_valid() {
                db@.entries_on(db@.current_user, self.selected_date.text())
            } else {
                Seq::<FoodLogEntryView>::empty()
            },
    {
        match self.date_text() {
            Some(date) => db.entries_on(db.current_user(), date.as_str()),
            None => {
                let list: Vec<FoodLogEntry> = Vec::new();
                assert(entry_views(list@) =~= Seq::<FoodLogEntryView>::empty());
                list
            },
        }
    }

    /// The Delete buttons: removes the entries of the shown day at the
    /// given positions, the last position first, so that a removal does not
    /// shift the entries still to be removed when the positions ascend.
    pub fn delete_entries(&self, db: &mut Database, positions: &Vec<usize>)
        requires
            old(db).wf(),
        ensures
            final(db).wf(),
            final(db)@ == if self.selected_date.is_valid() {
                DatabaseView {
                    food_logs: log_without(
                        old(db)@.food_logs,
                        old(db)@.current_user,
                        self.selected_date.text(),
                        positions@,
                    ),
                    ..old(db)@
                }
            } else {
                old(db)@
            },
    {
        let date: String = match self.date_text() {
            Some(date) => date,
            None => {
                return ;
            },
        };
        let user_id: String = db.current_user().to_owned();
        let ghost start = db@;
        let mut i: usize = positions.len();
        assert(positions@.take(i as int) =~= positions@);
        while i > 0
            invariant
                db.wf(),
                i <= positions.len(),
                date@ == self.selected_date.text(),
                user_id@ == start.current_user,
                db@ == (DatabaseView { food_logs: db@.food_logs, ..start }),
                log_without(db@.food_logs, user_id@, date@, positions@.take(i as int))
                    == log_without(start.food_logs, user_id@, date@, positions@),
            decreases i,
        {
            proof {
                let pending = positions@.take(i as int);
                assert(pending.drop_last() =~= positions@.take(i - 1));
                assert(pending.last() == positions[i - 1]);
                crate::log::lemma_day_entry_place(
                    db@.food_logs,
                    user_id@,
                    date@,
                    positions[i - 1] as int,
                );
            }
            i = i - 1;
            db.delete_log_entry(user_id.as_str(), date.as_str(), positions[i]);
        }
    }

    /// The daily target of a profile in thousandths of a kilocalorie; zero
    /// for a profile that is not valid.
    pub fn calculate_daily_goal(&self, profile: &UserProfile) -> (goal: i64)
        ensures
            goal == if profile.is_valid() {
                profile.target_calories() as i64
            } else {
                0
            },
    {
        match profile.calculate_target_calories() {
            Ok(target) => target,
            Err(_) => 0,
        }
    }

    /// The Back button: shows the home screen.
    pub fn back(&self, current_state: &mut AppState)
        ensures
            *final(current_state) == AppState::Home,
    {
        *current_state = AppState::Home;
    }
}

} // verus!
