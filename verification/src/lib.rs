//! A pay-to-reveal grid game: a field of numbered cells with hidden values,
//! opened against payment in one of several configured currencies.

pub mod assoc;
pub mod contract;
pub mod cooldowns;
pub mod error;
pub mod field;
pub mod msg;
pub mod networks;
pub mod powerups;
pub mod random;
pub mod state;
pub mod utils;
