pub mod booking;
pub mod error;
pub mod poll;
pub mod race;
pub mod types;
