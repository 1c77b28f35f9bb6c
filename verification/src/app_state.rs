//! Which screen is shown.

use vstd::prelude::*;

verus! {

/// The screens of the application.
#[derive(Debug, Clone, Copy, PartialEq, Eq, Structural)]
pub enum AppState {
    Login,
    Register,
    Home,
    AddBasicFood,
    AddCompositeFood,
    ViewDailyLog,
    AddFoodToLog,
    EditFoodLog,
    UpdateProfile,
}

} // verus!
