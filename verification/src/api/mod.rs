//! What the applets compute from what the outside services return.
pub mod birthday;
pub mod discord;
pub mod open_library;
pub mod remotive;
pub mod wikipedia;
