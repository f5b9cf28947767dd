pub mod friend;
pub mod profile;
