pub mod admin;
pub mod public;
