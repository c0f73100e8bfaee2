pub mod share;
pub mod user;
