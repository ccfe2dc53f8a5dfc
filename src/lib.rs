pub mod chat;
pub mod store;
pub mod event;
pub mod handler;
pub mod channel;
pub mod client;
