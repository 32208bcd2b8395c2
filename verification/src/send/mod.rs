//! Sending: the tasks, how errors are classified, and the machines that drive a
//! send, its upload fallback and what follows it.
pub mod classify;
pub mod media;
pub mod post;
pub mod run;
pub mod task;
