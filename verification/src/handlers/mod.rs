//! What the bot does with an update: commands, links, buttons, replies to its
//! prompts and inline queries.
pub mod callback;
pub mod commands;
pub mod edit;
pub mod grammar;
pub mod inline;
pub mod message;
pub mod repair;
pub mod shared;
pub mod urls;
