//! A friend address book whose per-friend profiles unlock small applets
//! (job feed, book recommendations, conversation prep, birthdays, Discord).
pub mod api;
pub mod app;
pub mod apps;
pub mod data;
pub mod date;
pub mod events;
pub mod text;
pub mod ui;
pub mod web;
