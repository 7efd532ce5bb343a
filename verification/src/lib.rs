//! A yak herd whose members age day by day and yield milk and wool, and the
//! shop that adds up what the herd yields.
//!
//! All quantities are integers: ages are whole days, milk is counted in
//! hundredths of a litre and wool in skins.

pub mod age;
pub mod error;
pub mod order;
pub mod products;
pub mod shop;
pub mod text;
pub mod yak;

pub use age::{yak_float_years_to_days, InvalidAge};
pub use error::YakShopError;
pub use order::Delivery;
pub use products::{yak_can_produce_wool, yak_milk_production, Products, Tally};
pub use shop::{RefusedEntry, Shop};
pub use yak::Yak;
