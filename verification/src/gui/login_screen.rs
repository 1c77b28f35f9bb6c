//! The login form.

use vstd::prelude::*;
use vstd::string::StringExecFns;
use crate::app_state::AppState;
use crate::database::{Database, DatabaseView, LoginError};

verus! {

/// The state of the login form.
#[derive(Debug)]
pub struct LoginScreen {
    pub username: String,
    pub password: String,
    pub error_message: Option<String>,
}

impl LoginScreen {
    /// An empty form.
    pub fn new() -> (screen: Self)
        ensures
            screen.username@ == Seq::<char>::empty(),
            screen.password@ == Seq::<char>::empty(),
            screen.error_message is None,
    {
        Self { username: String::new(), password: String::new(), error_message: None }
    }

    /// The Login button: logs in the user whose name and password the form
    /// holds, and says whether that succeeded. On success the caller saves
    /// the database and reports with [`LoginScreen::finish`]; otherwise the
    /// form shows why nobody was logged in.
    pub fn submit(&mut self, db: &mut Database) -> (logged_in: bool)
        requires
            old(db).wf(),
        ensures
            final(db).wf(),
            final(self).username == old(self).username,
            final(self).password == old(self).password,
            logged_in == (old(db)@.has_username(old(self).username@) && old(db)@.user_named(
                old(self).username@,
            ).password == old(self).password@),
            logged_in ==> final(self).error_message == old(self).error_message && final(db)@ == (
            DatabaseView {
                current_user: old(db)@.user_named(old(self).username@).user_id,
                ..old(db)@
            }),
            !logged_in ==> final(db)@ == old(db)@ && (final(self).error_message matches Some(
                message,
            ) && message@ == if old(db)@.has_username(old(self).username@) {
                "Incorrect password."@
            } else {
                "User not found."@
            }),
    {
        match db.log_in(self.username.as_str(), self.password.as_str()) {
            Ok(_) => true,
            Err(LoginError::IncorrectPassword) => {
                self.error_message = Some("Incorrect password.".to_owned());
                false
            },
            Err(LoginError::UserNotFound) => {
                self.error_message = Some("User not found.".to_owned());
                false
            },
        }
    }

    /// What follows the saving of the database after a login: the home
    /// screen where it was saved, and a message where it was not.
    pub fn finish(&mut self, saved: Result<(), String>, current_state: &mut AppState)
        ensures
            final(self).username == old(self).username,
            final(self).password == old(self).password,
            match saved {
                Ok(_) => *final(current_state) == AppState::Home && final(self).error_message
                    is None,
                Err(reason) => {
                    &&& *final(current_state) == *old(current_state)
                    &&& final(self).error_message matches Some(message) && message@
                        == "Failed to save login state: "@ + reason@
                },
            },
    {
        match saved {
            Ok(_) => {
                *current_state = AppState::Home;
                self.error_message = None;
            },
            Err(reason) => {
                let mut message = "Failed to save login state: ".to_owned();
                message.append(reason.as_str());
                self.error_message = Some(message);
            },
        }
    }

    /// The Register button: shows the registration form.
    pub fn open_register(&self, current_state: &mut AppState)
        ensures
            *final(current_state) == AppState::Register,
    {
        *current_state = AppState::Register;
    }
}

} // verus!
