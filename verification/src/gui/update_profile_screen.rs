//! The form that changes the profile of the user who is logged in.

use vstd::prelude::*;
use crate::app_state::AppState;
use crate::database::{Database, DatabaseView};
use crate::models::{ActivityLevel, CalorieCalculationMethod, Gender, UserProfile, UserView};
use crate::parse::{amount, parse_amount, parse_whole_number, whole_number};

verus! {

/// What a text means as a positive measure in thousandths that fits 32 bits.
pub open spec fn measure(text: Seq<char>) -> Option<u32> {
    match amount(text) {
        Ok(value) => if 0 < value <= u32::MAX {
            Some(value as u32)
        } else {
            None
        },
        Err(_) => None,
    }
}

/// What a text means as a positive number of years.
pub open spec fn positive_years(text: Seq<char>) -> Option<u32> {
    match whole_number(text) {
        Ok(value) => if value > 0 {
            Some(value)
        } else {
            None
        },
        Err(_) => None,
    }
}

/// Reads a text as a positive measure in thousandths.
pub fn parse_measure(text: &str) -> (result: Option<u32>)
    ensures
        result == measure(text@),
{
    match parse_amount(text) {
        Ok(value) => if 0 < value && value <= 0xFFFF_FFFF {
            Some(value as u32)
        } else {
            None
        },
        Err(_) => None,
    }
}

/// Reads a text as a positive number of years.
pub fn parse_years(text: &str) -> (result: Option<u32>)
    ensures
        result == positive_years(text@),
{
    match parse_whole_number(text) {
        Ok(value) => if value > 0 {
            Some(value)
        } else {
            None
        },
        Err(_) => None,
    }
}

/// The state of the form. Height, weight and age are held as the user
/// typed them.
#[derive(Debug)]
pub struct UpdateProfileScreen {
    pub gender: Gender,
    pub height_cm: String,
    pub weight_kg: String,
    pub age: String,
    pub activity_level: ActivityLevel,
    pub calorie_method: CalorieCalculationMethod,
    pub error_message: Option<String>,
}

impl UpdateProfileScreen {
    /// The profile that the form describes, if height, weight and age are
    /// all positive numbers that fit.
    pub open spec fn profile(&self) -> Option<UserProfile> {
        if measure(self.height_cm@) is Some && measure(self.weight_kg@) is Some && positive_years(
            self.age@,
        ) is Some {
            Some(
                UserProfile {
                    gender: self.gender,
                    height_cm: measure(self.height_cm@)->Some_0,
                    age: positive_years(self.age@)->Some_0,
                    calorie_method: self.calorie_method,
                    weight_kg: measure(self.weight_kg@)->Some_0,
                    activity_level: self.activity_level,
                },
            )
        } else {
            None
        }
    }

    /// Why the profile cannot be stored in the database `db`, if it cannot.
    pub open spec fn problem(&self, db: DatabaseView) -> Option<Seq<char>> {
        if self.profile() is None {
            Some("Invalid height, weight or age."@)
        } else if !db.users.contains_key(db.current_user) {
            Some("No user is logged in."@)
        } else {
            None
        }
    }

    /// An empty form.
    pub fn new() -> (screen: Self)
        ensures
            screen.gender == Gender::Male,
            screen.height_cm@ == Seq::<char>::empty(),
            screen.weight_kg@ == Seq::<char>::empty(),
            screen.age@ == Seq::<char>::empty(),
            screen.activity_level == ActivityLevel::Sedentary,
            screen.calorie_method == CalorieCalculationMethod::HarrisBenedict,
            screen.error_message is None,
    {
        Self {
            gender: Gender::Male,
            height_cm: String::new(),
            weight_kg: String::new(),
            age: String::new(),
            activity_level: ActivityLevel::Sedentary,
            calorie_method: CalorieCalculationMethod::HarrisBenedict,
            error_message: None,
        }
    }

    /// The Save button: stores the profile that the form describes for the
    /// user who is logged in and shows the home screen, or shows on the
    /// form why it cannot.
    pub fn submit(&mut self, db: &mut Database, current_state: &mut AppState)
        requires
            old(db).wf(),
        ensures
            final(db).wf(),
            final(self).gender == old(self).gender,
            final(self).height_cm == old(self).height_cm,
            final(self).weight_kg == old(self).weight_kg,
            final(self).age == old(self).age,
            final(self).activity_level == old(self).activity_level,
            final(self).calorie_method == old(self).calorie_method,
            match old(self).problem(old(db)@) {
                Some(message) => {
                    &&& final(db)@ == old(db)@
                    &&& *final(current_state) == *old(current_state)
                    &&& final(self).error_message matches Some(shown) && shown@ == message
                },
                None => {
                    &&& final(db)@ == (DatabaseView {
                        users: old(db)@.users.insert(
                            old(db)@.current_user,
                            UserView {
                                profile: old(self).profile()->Some_0,
                                ..old(db)@.users[old(db)@.current_user]
                            },
                        ),
                        ..old(db)@
                    })
                    &&& *final(current_state) == AppState::Home
                    &&& final(self).error_message == old(self).error_message
                },
            },
    {
        let height = parse_measure(self.height_cm.as_str());
        let weight = parse_measure(self.weight_kg.as_str());
        let age = parse_years(self.age.as_str());
        let profile = match (height, weight, age) {
            (Some(height_cm), Some(weight_kg), Some(age)) => UserProfile {
                gender: self.gender,
                height_cm,
                age,
                calorie_method: self.calorie_method,
                weight_kg,
                activity_level: self.activity_level,
            },
            _ => {
                self.error_message = Some("Invalid height, weight or age.".to_owned());
                return ;
            },
        };
        let user_id: String = db.current_user().to_owned();
        match db.update_profile(user_id.as_str(), profile) {
            Ok(_) => {
                *current_state = AppState::Home;
            },
            Err(_) => {
                self.error_message = Some("No user is logged in.".to_owned());
            },
        }
    }

    /// The Cancel button: shows the home screen.
    pub fn cancel(&self, current_state: &mut AppState)
        ensures
            *final(current_state) == AppState::Home,
    {
        *current_state = AppState::Home;
    }
}

} // verus!
