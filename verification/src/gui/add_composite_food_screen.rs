//! The form that adds a composite food.

use vstd::prelude::*;
use crate::app_state::AppState;
use crate::database::{Database, DatabaseView};
use crate::models::{
    component_views, CompositeFood, CompositeFoodView, FoodComponent, FoodComponentView,
};
use crate::parse::{amount, parse_amount, ParseError};
use crate::search::{keywords_of, parse_keywords};

verus! {

/// The state of the form: identifier and comma-separated keywords of the
/// new food, the components gathered so far, and the component that is
/// being entered, its servings as the user typed them.
#[derive(Debug)]
pub struct AddCompositeFoodScreen {
    pub new_food_id: String,
    pub new_food_keywords: String,
    pub components: Vec<FoodComponent>,
    pub component_food_id: String,
    pub component_servings: String,
}

impl AddCompositeFoodScreen {
    /// The food that the form describes. The identifier serves as the name.
    pub open spec fn food(&self) -> CompositeFoodView {
        CompositeFoodView {
            id: self.new_food_id@,
            name: self.new_food_id@,
            keywords: keywords_of(self.new_food_keywords@),
            components: component_views(self.components@),
        }
    }

    /// An empty form.
    pub fn new() -> (screen: Self)
        ensures
            screen.new_food_id@ == Seq::<char>::empty(),
            screen.new_food_keywords@ == Seq::<char>::empty(),
            screen.components@ == Seq::<FoodComponent>::empty(),
            screen.component_food_id@ == Seq::<char>::empty(),
            screen.component_servings@ == Seq::<char>::empty(),
    {
        Self {
            new_food_id: String::new(),
            new_food_keywords: String::new(),
            components: Vec::new(),
            component_food_id: String::new(),
            component_servings: String::new(),
        }
    }

    /// The Add Component button: puts the component that is being entered
    /// at the end of the components. Where its servings are not an amount,
    /// the components stay as they are and the error says why.
    pub fn add_component(&mut self) -> (result: Result<(), ParseError>)
        ensures
            final(self).new_food_id == old(self).new_food_id,
            final(self).new_food_keywords == old(self).new_food_keywords,
            final(self).component_food_id == old(self).component_food_id,
            final(self).component_servings == old(self).component_servings,
            match amount(old(self).component_servings@) {
                Ok(servings) => {
                    &&& result is Ok
                    &&& component_views(final(self).components@) == component_views(
                        old(self).components@,
                    ).push(
                        FoodComponentView { food_id: old(self).component_food_id@, servings },
                    )
                },
                Err(error) => {
                    &&& result == Err::<(), ParseError>(error)
                    &&& final(self).components == old(self).components
                },
            },
    {
        match parse_amount(self.component_servings.as_str()) {
            Ok(servings) => {
                let component = FoodComponent {
                    food_id: self.component_food_id.clone(),
                    servings,
                };
                let ghost before = component_views(self.components@);
                self.components.push(component);
                assert(component_views(self.components@) =~= before.push(component@));
                Ok(())
            },
            Err(error) => Err(error),
        }
    }

    /// The Save button: stores the food that the form describes and shows
    /// the home screen.
    pub fn save(&self, db: &mut Database, current_state: &mut AppState)
        requires
            old(db).wf(),
        ensures
            final(db).wf(),
            final(db)@ == (DatabaseView {
                composite_foods: old(db)@.composite_foods.insert(self.new_food_id@, self.food()),
                ..old(db)@
            }),
            *final(current_state) == AppState::Home,
    {
        let mut components: Vec<FoodComponent> = Vec::new();
        let mut i: usize = 0;
        while i < self.components.len()
            invariant
                i <= self.components.len(),
                components.len() == i,
                forall|j: int| 0 <= j < i ==> (#[trigger] components[j])@ == self.components[j]@,
            decreases self.components.len() - i,
        {
            components.push(self.components[i].clone());
            i = i + 1;
        }
        assert(component_views(components@) =~= component_views(self.components@));
        let food = CompositeFood {
            id: self.new_food_id.clone(),
            name: self.new_food_id.clone(),
            keywords: parse_keywords(self.new_food_keywords.as_str()),
            components,
        };
        db.add_composite_food(food);
        *current_state = AppState::Home;
    }

    /// The Cancel button: shows the home screen.
    pub fn cancel(&self, current_state: &mut AppState)
        ensures
            *final(current_state) == AppState::Home,
    {
        *current_state = AppState::Home;
    }
}

} // verus!
