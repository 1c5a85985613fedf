//! Repeat/echo decision engine for a chat-message relay, together with the
//! pure text helpers the relay layer uses: command-argument parsing, markdown
//! formatting, and URL report composition.

pub mod commands;
pub mod msgfmt;
pub mod rpt;
pub mod textops;
pub mod urlenhance;
pub mod userinteract;
