//! What each screen decides. Drawing the screens and reading the clock and
//! the disk is left to the caller: a screen here is the state of a form and
//! the effect of its buttons on that state and on the database.

pub mod add_basic_food_screen;
pub mod add_composite_food_screen;
pub mod add_food_to_log_screen;
pub mod home_screen;
pub mod login_screen;
pub mod register_screen;
pub mod update_profile_screen;
pub mod view_daily_log_screen;
