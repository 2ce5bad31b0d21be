//! The full-screen front end: what its keys do, and what it shows.

pub mod app;
pub mod keys;
pub mod layout;
pub mod open;
pub mod picker;
pub mod render;
pub mod rows;
pub mod transcript;
