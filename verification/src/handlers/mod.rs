pub mod auth;
pub mod files;
pub mod share;
pub mod users;
