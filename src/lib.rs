//! Picks a command of the system, condenses its manual page into a short
//! brief, and drives the exchange with a chat-completion service that turns
//! the brief into a learning exercise.
//!
//! Every function here computes on plain values; reading files, running the
//! manual tool and talking to the network is left to the caller.

pub mod text;
pub mod manual;
pub mod credentials;
pub mod commands;
pub mod project;
pub mod chat;
