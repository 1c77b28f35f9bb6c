//! The form that adds a basic food.

use vstd::prelude::*;
use crate::app_state::AppState;
use crate::database::{Database, DatabaseView};
use crate::models::{BasicFood, BasicFoodView};
use crate::parse::{amount, parse_amount, ParseError};
use crate::search::{keywords_of, parse_keywords};

verus! {

/// The state of the form: identifier, comma-separated keywords and calories
/// per serving, each as the user typed it.
#[derive(Debug)]
pub struct AddBasicFoodScreen {
    pub new_food_id: String,
    pub new_food_keywords: String,
    pub new_food_calories: String,
}

impl AddBasicFoodScreen {
    /// The food that the form describes when its calories read as
    /// `calories`. The identifier serves as the name.
    pub open spec fn food(&self, calories: u64) -> BasicFoodView {
        BasicFoodView {
            id: self.new_food_id@,
            name: self.new_food_id@,
            keywords: keywords_of(self.new_food_keywords@),
            calories_per_serving: calories,
        }
    }

    /// An empty form.
    pub fn new() -> (screen: Self)
        ensures
            screen.new_food_id@ == Seq::<char>::empty(),
            screen.new_food_keywords@ == Seq::<char>::empty(),
            screen.new_food_calories@ == Seq::<char>::empty(),
    {
        Self {
            new_food_id: String::new(),
            new_food_keywords: String::new(),
            new_food_calories: String::new(),
        }
    }

    /// The Save button: stores the food that the form describes and shows
    /// the home screen. Where the calories are not an amount, nothing is
    /// stored, the form stays, and the error says why.
    pub fn save(&self, db: &mut Database, current_state: &mut AppState) -> (result: Result<
        (),
        ParseError,
    >)
        requires
            old(db).wf(),
        ensures
            final(db).wf(),
            match amount(self.new_food_calories@) {
                Ok(calories) => {
                    &&& result is Ok
                    &&& final(db)@ == (DatabaseView {
                        basic_foods: old(db)@.basic_foods.insert(
                            self.new_food_id@,
                            self.food(calories),
                        ),
                        ..old(db)@
                    })
                    &&& *final(current_state) == AppState::Home
                },
                Err(error) => {
                    &&& result == Err::<(), ParseError>(error)
                    &&& final(db)@ == old(db)@
                    &&& *final(current_state) == *old(current_state)
                },
            },
    {
        let calories: u64 = match parse_amount(self.new_food_calories.as_str()) {
            Ok(calories) => calories,
            Err(error) => {
                return Err(error);
            },
        };
        let food = BasicFood {
            id: self.new_food_id.clone(),
            name: self.new_food_id.clone(),
            keywords: parse_keywords(self.new_food_keywords.as_str()),
            calories_per_serving: calories,
        };
        db.add_basic_food(food);
        *current_state = AppState::Home;
        Ok(())
    }

    /// The Cancel button: shows the home screen.
    pub fn cancel(&self, current_state: &mut AppState)
        ensures
            *final(current_state) == AppState::Home,
    {
        *current_state = AppState::Home;
    }
}

} // verus!
