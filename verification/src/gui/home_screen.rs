//! The home screen: navigation, and the balance of the day.

use vstd::prelude::*;
use crate::app_state::AppState;
use crate::database::{Database, DatabaseView};
use crate::table::{find_key, lemma_table_entry};

verus! {

/// The buttons of the home screen.
#[derive(Debug, Clone, Copy, PartialEq, Eq, Structural)]
pub enum HomeButton {
    AddBasicFood,
    AddCompositeFood,
    ViewDailyLog,
    AddFoodToLog,
    EditFoodLog,
    UpdateProfile,
    Logout,
}

impl HomeButton {
    /// The screen to which the button leads.
    pub open spec fn leads_to(self) -> AppState {
        match self {
            HomeButton::AddBasicFood => AppState::AddBasicFood,
            HomeButton::AddCompositeFood => AppState::AddCompositeFood,
            HomeButton::ViewDailyLog => AppState::ViewDailyLog,
            HomeButton::AddFoodToLog => AppState::AddFoodToLog,
            HomeButton::EditFoodLog => AppState::EditFoodLog,
            HomeButton::UpdateProfile => AppState::UpdateProfile,
            HomeButton::Logout => AppState::Login,
        }
    }
}

/// How the day stands against the target, in thousandths of a kilocalorie.
#[derive(Debug, Clone, Copy, PartialEq, Eq, Structural)]
pub enum Balance {
    /// This much of the target is left.
    Remaining(u64),
    /// The target is exceeded by this much.
    OverBy(u128),
}

/// The home screen. It has no state of its own.
#[derive(Debug)]
pub struct HomeScreen;

impl HomeScreen {
    /// A button was pressed: shows the screen to which it leads. The
    /// Logout button also logs out whoever is logged in.
    pub fn press(&self, button: HomeButton, db: &mut Database, current_state: &mut AppState)
        requires
            old(db).wf(),
        ensures
            final(db).wf(),
            *final(current_state) == button.leads_to(),
            final(db)@ == if button == HomeButton::Logout {
                DatabaseView { current_user: Seq::<char>::empty(), ..old(db)@ }
            } else {
                old(db)@
            },
    {
        match button {
            HomeButton::AddBasicFood => {
                *current_state = AppState::AddBasicFood;
            },
            HomeButton::AddCompositeFood => {
                *current_state = AppState::AddCompositeFood;
            },
            HomeButton::ViewDailyLog => {
                *current_state = AppState::ViewDailyLog;
            },
            HomeButton::AddFoodToLog => {
                *current_state = AppState::AddFoodToLog;
            },
            HomeButton::EditFoodLog => {
                *current_state = AppState::EditFoodLog;
            },
            HomeButton::UpdateProfile => {
                *current_state = AppState::UpdateProfile;
            },
            HomeButton::Logout => {
                db.log_out();
                *current_state = AppState::Login;
            },
        }
    }

    /// The Undo button: puts back the earlier state of the database, if
    /// the history had one.
    pub fn undo(&self, db: &mut Database, previous: Option<Database>)
        ensures
            *final(db) == match previous {
                Some(earlier) => earlier,
                None => *old(db),
            },
    {
        if let Some(earlier) = previous {
            *db = earlier;
        }
    }

    /// The name by which to greet the user who is logged in, if somebody is.
    pub fn welcome_name(&self, db: &Database) -> (name: Option<String>)
        requires
            db.wf(),
        ensures
            name is Some == db@.users.contains_key(db@.current_user),
            name matches Some(text) ==> text@ == db@.users[db@.current_user].username,
    {
        let users = db.users();
        match find_key(users, db.current_user()) {
            Some(i) => {
                proof {
                    lemma_table_entry(users@, i as int);
                }
                Some(users[i].username.clone())
            },
            None => None,
        }
    }

    /// The calorie balance of `user_id` on `date` as the triple
    /// `(consumed, target, remaining)`, each in thousandths of a
    /// kilocalorie.
    pub fn calculate_user_calories(&self, db: &Database, user_id: &str, date: &str) -> (summary: (
        u64,
        i64,
        i128,
    ))
        requires
            db.wf(),
        ensures
            summary.0 == db@.consumed(user_id@, date@),
            summary.1 == db@.target(user_id@),
            summary.2 == db@.remaining(user_id@, date@),
    {
        db.calculate_calories(user_id, date)
    }

    /// Whether something of the target is left or the target is exceeded,
    /// and by how much.
    pub fn balance(consumed: u64, target: i64) -> (result: Balance)
        ensures
            result == if target - consumed >= 0 {
                Balance::Remaining((target - consumed) as u64)
            } else {
                Balance::OverBy((consumed - target) as u128)
            },
    {
        let difference: i128 = target as i128 - consumed as i128;
        if difference >= 0 {
            Balance::Remaining(difference as u64)
        } else {
            Balance::OverBy((-difference) as u128)
        }
    }

    /// How much of a positive target is consumed, in thousandths of the
    /// target and rounded down; none where there is no positive target.
    pub fn progress(consumed: u64, target: i64) -> (result: Option<u128>)
        ensures
            result == if target > 0 {
                Some(((consumed * 1000) / (target as int)) as u128)
            } else {
                None
            },
    {
        if target > 0 {
            let scaled: u128 = consumed as u128 * 1000;
            let share: u128 = scaled / (target as u128);
            assert(share == (consumed * 1000) / (target as int));
            Some(share)
        } else {
            None
        }
    }

    /// The part of the progress bar to fill, in thousandths: the progress,
    /// but at most the whole bar.
    pub fn bar_fill(progress: u128) -> (fill: u32)
        ensures
            fill == if progress > 1000 {
                1000
            } else {
                progress
            },
    {
        if progress > 1000 {
            1000
        } else {
            progress as u32
        }
    }
}

} // verus!
