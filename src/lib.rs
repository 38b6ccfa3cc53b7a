//! A note manager's profile engine: notes grouped in a profile, the
//! operations on them, the column layout of listings, and the byte layer of
//! the profile file (optional password-based encryption).

pub mod clock;
pub mod command;
pub mod crypt;
pub mod error;
pub mod item;
pub mod layout;
pub mod listing;
pub mod profile;
pub mod search;
pub mod store;
pub mod text;
