pub mod api;
pub mod chat;
pub mod chat_view;
pub mod client;
pub mod commands;
pub mod config;
pub mod copying;
pub mod dispatch;
pub mod import;
pub mod json;
pub mod keys;
pub mod release;
pub mod search_view;
pub mod settings;
pub mod settings_view;
pub mod sse;
pub mod text;
pub mod transfer;
