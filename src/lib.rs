pub mod text;
pub mod position;
pub mod color;
pub mod user;
pub mod canvas;
pub mod messages;
pub mod session;
pub mod handler;
pub mod auth;
