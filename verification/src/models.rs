//! The records of the diet tracker and their mathematical views.
//!
//! Amounts are fixed-point numbers in thousandths (see [`crate::amount`]):
//! a `calories_per_serving` of `95_000` is 95 kcal, a `servings` of `1_500`
//! is one and a half servings, a `weight_kg` of `70_000` is 70 kg.

use vstd::prelude::*;
use crate::text::{clone_texts, texts};

verus! {

/// A food with a fixed calorie value per serving.
#[derive(Debug)]
pub struct BasicFood {
    pub id: String,
    pub name: String,
    pub keywords: Vec<String>,
    /// Thousandths of a kilocalorie in one serving.
    pub calories_per_serving: u64,
}

pub struct BasicFoodView {
    pub id: Seq<char>,
    pub name: Seq<char>,
    pub keywords: Seq<Seq<char>>,
    pub calories_per_serving: u64,
}

impl View for BasicFood {
    type V = BasicFoodView;

    open spec fn view(&self) -> BasicFoodView {
        BasicFoodView {
            id: self.id@,
            name: self.name@,
            keywords: texts(self.keywords@),
            calories_per_serving: self.calories_per_serving,
        }
    }
}

impl Clone for BasicFood {
    fn clone(&self) -> (copy: Self)
        ensures
            copy@ == self@,
    {
        BasicFood {
            id: self.id.clone(),
            name: self.name.clone(),
            keywords: clone_texts(&self.keywords),
            calories_per_serving: self.calories_per_serving,
        }
    }
}

/// One ingredient of a composite food: another food and how much of it.
#[derive(Debug)]
pub struct FoodComponent {
    pub food_id: String,
    /// Thousandths of a serving of `food_id`.
    pub servings: u64,
}

pub struct FoodComponentView {
    pub food_id: Seq<char>,
    pub servings: u64,
}

impl View for FoodComponent {
    type V = FoodComponentView;

    open spec fn view(&self) -> FoodComponentView {
        FoodComponentView { food_id: self.food_id@, servings: self.servings }
    }
}

impl Clone for FoodComponent {
    fn clone(&self) -> (copy: Self)
        ensures
            copy@ == self@,
    {
        FoodComponent { food_id: self.food_id.clone(), servings: self.servings }
    }
}

/// The views of a list of components.
pub open spec fn component_views(list: Seq<FoodComponent>) -> Seq<FoodComponentView> {
    list.map_values(|c: FoodComponent| c@)
}

/// A food made of other foods. Its calories are not stored: they follow
/// from its components.
#[derive(Debug)]
pub struct CompositeFood {
    pub id: String,
    pub name: String,
    pub keywords: Vec<String>,
    pub components: Vec<FoodComponent>,
}

pub struct CompositeFoodView {
    pub id: Seq<char>,
    pub name: Seq<char>,
    pub keywords: Seq<Seq<char>>,
    pub components: Seq<FoodComponentView>,
}

impl View for CompositeFood {
    type V = CompositeFoodView;

    open spec fn view(&self) -> CompositeFoodView {
        CompositeFoodView {
            id: self.id@,
            name: self.name@,
            keywords: texts(self.keywords@),
            components: component_views(self.components@),
        }
    }
}

impl Clone for CompositeFood {
    fn clone(&self) -> (copy: Self)
        ensures
            copy@ == self@,
    {
        let mut components: Vec<FoodComponent> = Vec::new();
        let mut i: usize = 0;
        while i < self.components.len()
            invariant
                i <= self.components.len(),
                components.len() == i,
                forall|j: int| 0 <= j < i ==> components[j]@ == self.components[j]@,
            decreases self.components.len() - i,
        {
            components.push(self.components[i].clone());
            i = i + 1;
        }
        assert(component_views(components@) =~= component_views(self.components@));
        CompositeFood {
            id: self.id.clone(),
            name: self.name.clone(),
            keywords: clone_texts(&self.keywords),
            components,
        }
    }
}

/// A record that a user ate some servings of a food on a day.
#[derive(Debug)]
pub struct FoodLogEntry {
    /// The calendar day, written as `YYYY-MM-DD`.
    pub date: String,
    pub food_id: String,
    /// Thousandths of a serving.
    pub servings: u64,
    pub user_id: String,
}

pub struct FoodLogEntryView {
    pub date: Seq<char>,
    pub food_id: Seq<char>,
    pub servings: u64,
    pub user_id: Seq<char>,
}

impl View for FoodLogEntry {
    type V = FoodLogEntryView;

    open spec fn view(&self) -> FoodLogEntryView {
        FoodLogEntryView {
            date: self.date@,
            food_id: self.food_id@,
            servings: self.servings,
            user_id: self.user_id@,
        }
    }
}

impl Clone for FoodLogEntry {
    fn clone(&self) -> (copy: Self)
        ensures
            copy@ == self@,
    {
        FoodLogEntry {
            date: self.date.clone(),
            food_id: self.food_id.clone(),
            servings: self.servings,
            user_id: self.user_id.clone(),
        }
    }
}

#[derive(Debug, Clone, Copy, PartialEq, Eq, Structural)]
pub enum Gender {
    Male,
    Female,
}

#[derive(Debug, Clone, Copy, PartialEq, Eq, Structural)]
pub enum ActivityLevel {
    Sedentary,
    Light,
    Moderate,
    VeryActive,
    ExtraActive,
}

#[derive(Debug, Clone, Copy, PartialEq, Eq, Structural)]
pub enum CalorieCalculationMethod {
    HarrisBenedict,
    MifflinStJeor,
}

/// The body data from which a daily calorie target is derived.
#[derive(Debug, Clone, Copy, PartialEq, Eq, Structural)]
pub struct UserProfile {
    pub gender: Gender,
    /// Thousandths of a centimetre.
    pub height_cm: u32,
    /// Whole years.
    pub age: u32,
    pub calorie_method: CalorieCalculationMethod,
    /// Thousandths of a kilogram.
    pub weight_kg: u32,
    pub activity_level: ActivityLevel,
}

/// A registered user.
#[derive(Debug)]
pub struct User {
    pub user_id: String,
    pub username: String,
    pub password: String,
    pub profile: UserProfile,
}

pub struct UserView {
    pub user_id: Seq<char>,
    pub username: Seq<char>,
    pub password: Seq<char>,
    pub profile: UserProfile,
}

impl View for User {
    type V = UserView;

    open spec fn view(&self) -> UserView {
        UserView {
            user_id: self.user_id@,
            username: self.username@,
            password: self.password@,
            profile: self.profile,
        }
    }
}

impl Clone for User {
    fn clone(&self) -> (copy: Self)
        ensures
            copy@ == self@,
    {
        User {
            user_id: self.user_id.clone(),
            username: self.username.clone(),
            password: self.password.clone(),
            profile: self.profile,
        }
    }
}

} // verus!
