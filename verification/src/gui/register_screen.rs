//! The registration form.

use vstd::prelude::*;
use crate::app_state::AppState;
use crate::database::{Database, DatabaseView};
use crate::models::{ActivityLevel, CalorieCalculationMethod, Gender, User, UserProfile, UserView};
use crate::gui::update_profile_screen::{measure, parse_measure, parse_years, positive_years};
use crate::table::find_key;

verus! {

/// The state of the registration form. Height and age are held as the user
/// typed them.
#[derive(Debug)]
pub struct RegisterScreen {
    pub username: String,
    pub password: String,
    pub gender: Gender,
    pub height_cm: String,
    pub age: String,
    pub activity_level: ActivityLevel,
    pub calorie_method: CalorieCalculationMethod,
    pub error_message: Option<String>,
}

impl RegisterScreen {
    /// The height that the form holds, in thousandths of a centimetre, if
    /// it is a positive amount that fits.
    pub open spec fn height(&self) -> Option<u32> {
        measure(self.height_cm@)
    }

    /// The age that the form holds, if it is a positive whole number.
    pub open spec fn years(&self) -> Option<u32> {
        positive_years(self.age@)
    }

    /// Why the form cannot be registered with the database `db`, if it
    /// cannot.
    pub open spec fn problem(&self, db: DatabaseView) -> Option<Seq<char>> {
        if self.username@.len() == 0 || self.password@.len() == 0 {
            Some("Username and password are required."@)
        } else if db.has_username(self.username@) || db.users.contains_key(self.username@) {
            Some("Username already exists."@)
        } else if self.height() is None || self.years() is None {
            Some("Invalid height or age."@)
        } else {
            None
        }
    }

    /// The user that the form describes. The user name serves as the
    /// identifier, and the weight is entered later.
    pub open spec fn user(&self) -> UserView {
        UserView {
            user_id: self.username@,
            username: self.username@,
            password: self.password@,
            profile: UserProfile {
                gender: self.gender,
                height_cm: self.height()->Some_0,
                age: self.years()->Some_0,
                calorie_method: self.calorie_method,
                weight_kg: 0,
                activity_level: self.activity_level,
            },
        }
    }

    /// An empty form.
    pub fn new() -> (screen: Self)
        ensures
            screen.username@ == Seq::<char>::empty(),
            screen.password@ == Seq::<char>::empty(),
            screen.gender == Gender::Male,
            screen.height_cm@ == Seq::<char>::empty(),
            screen.age@ == Seq::<char>::empty(),
            screen.activity_level == ActivityLevel::Sedentary,
            screen.calorie_method == CalorieCalculationMethod::HarrisBenedict,
            screen.error_message is None,
    {
        Self {
            username: String::new(),
            password: String::new(),
            gender: Gender::Male,
            height_cm: String::new(),
            age: String::new(),
            activity_level: ActivityLevel::Sedentary,
            calorie_method: CalorieCalculationMethod::HarrisBenedict,
            error_message: None,
        }
    }

    /// Shows `message` on the form.
    fn complain(&mut self, message: &str)
        ensures
            final(self).username == old(self).username,
            final(self).password == old(self).password,
            final(self).gender == old(self).gender,
            final(self).height_cm == old(self).height_cm,
            final(self).age == old(self).age,
            final(self).activity_level == old(self).activity_level,
            final(self).calorie_method == old(self).calorie_method,
            final(self).error_message matches Some(shown) && shown@ == message@,
    {
        self.error_message = Some(message.to_owned());
    }

    /// The Register button: adds the user that the form describes and shows
    /// the home screen, or shows on the form why it cannot.
    pub fn submit(&mut self, db: &mut Database, current_state: &mut AppState)
        requires
            old(db).wf(),
        ensures
            final(db).wf(),
            final(self).username == old(self).username,
            final(self).password == old(self).password,
            final(self).gender == old(self).gender,
            final(self).height_cm == old(self).height_cm,
            final(self).age == old(self).age,
            final(self).activity_level == old(self).activity_level,
            final(self).calorie_method == old(self).calorie_method,
            match old(self).problem(old(db)@) {
                Some(message) => {
                    &&& final(db)@ == old(db)@
                    &&& *final(current_state) == *old(current_state)
                    &&& final(self).error_message matches Some(shown) && shown@ == message
                },
                None => {
                    &&& final(db)@ == (DatabaseView {
                        users: old(db)@.users.insert(old(self).username@, old(self).user()),
                        ..old(db)@
                    })
                    &&& *final(current_state) == AppState::Home
                    &&& final(self).error_message == old(self).error_message
                },
            },
    {
        if self.username.as_str().is_empty() || self.password.as_str().is_empty() {
            self.complain("Username and password are required.");
            return ;
        }
        let height: u32 = match parse_measure(self.height_cm.as_str()) {
            Some(value) => value,
            None => 0,
        };
        let age: u32 = match parse_years(self.age.as_str()) {
            Some(value) => value,
            None => 0,
        };
        let user = User {
            user_id: self.username.clone(),
            username: self.username.clone(),
            password: self.password.clone(),
            profile: UserProfile {
                gender: self.gender,
                height_cm: height,
                age,
                calorie_method: self.calorie_method,
                weight_kg: 0,
                activity_level: self.activity_level,
            },
        };
        if height == 0 || age == 0 {
            if find_key(db.users(), self.username.as_str()).is_some() || db.has_user_named(
                self.username.as_str(),
            ) {
                self.complain("Username already exists.");
            } else {
                self.complain("Invalid height or age.");
            }
            return ;
        }
        match db.add_user(user) {
            Ok(_) => {
                *current_state = AppState::Home;
            },
            Err(_) => {
                self.complain("Username already exists.");
            },
        }
    }

    /// The Back button: shows the login form.
    pub fn back_to_login(&self, current_state: &mut AppState)
        ensures
            *final(current_state) == AppState::Login,
    {
        *current_state = AppState::Login;
    }
}

} // verus!
