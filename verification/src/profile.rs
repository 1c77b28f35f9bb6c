//! The daily calorie target of a profile.
//!
//! The basal metabolic rate follows the revised Harris-Benedict equation,
//!
//! ```text
//! male:    88.362 + 13.397 * weight_kg + 4.799 * height_cm - 5.677 * age
//! female: 447.593 +  9.247 * weight_kg + 3.098 * height_cm - 4.330 * age
//! ```
//!
//! and the target is that rate times the factor of the activity level. All
//! coefficients have three decimals and the profile stores thousandths, so
//! the rate is an exact whole number of millionths of a kilocalorie.

use vstd::prelude::*;
use crate::models::{ActivityLevel, Gender, UserProfile};

verus! {

/// Why a profile has no calorie target.
#[derive(Debug, Clone, Copy, PartialEq, Eq, Structural)]
pub enum ProfileError {
    /// Height, weight or age is not positive.
    InvalidProfileInput,
}

impl ActivityLevel {
    /// The factor by which this activity level scales the basal metabolic
    /// rate, in thousandths.
    pub open spec fn factor(self) -> int {
        match self {
            ActivityLevel::Sedentary => 1200,
            ActivityLevel::Light => 1375,
            ActivityLevel::Moderate => 1550,
            ActivityLevel::VeryActive => 1725,
            ActivityLevel::ExtraActive => 1900,
        }
    }

    /// The factor of this activity level, in thousandths: 1.2 is `1200`.
    pub fn multiplier(&self) -> (factor: i64)
        ensures
            factor == self.factor(),
    {
        match self {
            ActivityLevel::Sedentary => 1200,
            ActivityLevel::Light => 1375,
            ActivityLevel::Moderate => 1550,
            ActivityLevel::VeryActive => 1725,
            ActivityLevel::ExtraActive => 1900,
        }
    }
}

impl UserProfile {
    /// Height, weight and age are all positive.
    pub open spec fn is_valid(self) -> bool {
        self.height_cm > 0 && self.weight_kg > 0 && self.age > 0
    }

    /// The basal metabolic rate in millionths of a kilocalorie per day.
    pub open spec fn bmr(self) -> int {
        match self.gender {
            Gender::Male => 88_362_000 + 13_397 * self.weight_kg + 4_799 * self.height_cm
                - 5_677_000 * self.age,
            Gender::Female => 447_593_000 + 9_247 * self.weight_kg + 3_098 * self.height_cm
                - 4_330_000 * self.age,
        }
    }

    /// The daily target in thousandths of a kilocalorie: the basal metabolic
    /// rate times the activity factor, rounded down.
    pub open spec fn target_calories(self) -> int {
        (self.bmr() * self.activity_level.factor()) / 1_000_000
    }

    /// The target of any profile fits a signed 64-bit number.
    pub proof fn lemma_target_fits(self)
        ensures
            i64::MIN <= self.target_calories() <= i64::MAX,
    {
        let rate = self.bmr();
        let factor = self.activity_level.factor();
        assert(-46_600_000_000_000_000_000 <= rate * factor <= 46_600_000_000_000_000_000)
            by (nonlinear_arith)
            requires
                -24_500_000_000_000_000 <= rate <= 78_300_000_000_000,
                1200 <= factor <= 1900,
        ;
    }

    /// Whether height, weight and age are all positive.
    pub fn has_valid_input(&self) -> (valid: bool)
        ensures
            valid == self.is_valid(),
    {
        self.height_cm > 0 && self.weight_kg > 0 && self.age > 0
    }

    /// The basal metabolic rate in millionths of a kilocalorie per day.
    ///
    /// The formula is evaluated as it stands, on any input: for a profile
    /// that is not valid the result has no meaning and may be negative.
    pub fn basal_metabolic_rate(&self) -> (rate: i64)
        ensures
            rate == self.bmr(),
    {
        let weight: i64 = self.weight_kg as i64;
        let height: i64 = self.height_cm as i64;
        let age: i64 = self.age as i64;
        match self.gender {
            Gender::Male => 88_362_000 + 13_397 * weight + 4_799 * height - 5_677_000 * age,
            Gender::Female => 447_593_000 + 9_247 * weight + 3_098 * height - 4_330_000 * age,
        }
    }

    /// The daily calorie target in thousandths of a kilocalorie, or
    /// `InvalidProfileInput` where height, weight or age is not positive.
    ///
    /// The stored calculation method does not enter: the revised
    /// Harris-Benedict equation is evaluated for every profile.
    pub fn calculate_target_calories(&self) -> (result: Result<i64, ProfileError>)
        ensures
            result == if self.is_valid() {
                Ok::<i64, ProfileError>(self.target_calories() as i64)
            } else {
                Err::<i64, ProfileError>(ProfileError::InvalidProfileInput)
            },
    {
        proof {
            self.lemma_target_fits();
        }
        if !self.has_valid_input() {
            return Err(ProfileError::InvalidProfileInput);
        }
        let rate: i128 = self.basal_metabolic_rate() as i128;
        let factor: i128 = self.activity_level.multiplier() as i128;
        assert(-46_600_000_000_000_000_000 <= rate * factor <= 46_600_000_000_000_000_000)
            by (nonlinear_arith)
            requires
                -24_500_000_000_000_000 <= rate <= 78_300_000_000_000,
                1200 <= factor <= 1900,
        ;
        let scaled: i128 = rate * factor;
        let target: i128 = if scaled >= 0 {
            scaled / 1_000_000
        } else {
            -((-scaled + 999_999) / 1_000_000)
        };
        assert(target == (scaled as int) / 1_000_000);
        Ok(target as i64)
    }
}

} // verus!
