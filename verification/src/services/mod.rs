pub mod share_service;
pub mod auth_service;
pub mod user_service;
pub mod file_service;
pub mod media_service;
pub mod thumbnail_service;
