//! The rules of a bot that mirrors social-media posts into chats.
//!
//! Every decision the bot takes stands in this crate as a function from plain
//! values to plain values with a proved contract. Talking to the chat service,
//! to the sites, to the disk and to the clock is left to the program around it.
pub mod caption;
pub mod config;
pub mod db;
pub mod handlers;
pub mod html;
pub mod json;
pub mod link_cache;
pub mod links;
pub mod names;
pub mod photo;
pub mod queue;
pub mod rate_limit;
pub mod send;
pub mod site;
pub mod state;
pub mod table;
pub mod text;
pub mod upkeep;

