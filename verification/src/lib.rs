//! A verified core for a personal diet tracker: a catalog of foods, a log of
//! what was eaten, and the daily calorie balance against a target derived
//! from the user's profile.
//!
//! Every quantity is a fixed-point number counted in thousandths, so that
//! totals are exact and do not depend on the order in which they are summed.

pub mod amount;
pub mod app_state;
pub mod database;
pub mod dates;
pub mod gui;
pub mod log;
pub mod models;
pub mod parse;
pub mod profile;
pub mod resolve;
pub mod search;
pub mod summary;
pub mod table;
pub mod text;
