pub mod common;
pub mod keys;
pub mod validate;
mod clock;
pub mod conversation;
pub mod creation;
pub mod message;
pub mod registry;
pub mod ingress;
pub mod session;
pub mod auth;
pub mod user;
