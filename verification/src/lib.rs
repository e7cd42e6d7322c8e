//! Interactive Telegram questions for coding agents.
//!
//! A question goes to the user's private chat with a bot, with one button for each choice, and
//! waits for a button or for a message. This crate decides everything about it: what may be
//! asked ([`question`]), what the message shows ([`message`]), which calls of the Bot API are
//! made ([`call`]), what Telegram's updates answer ([`update`]), who may ask ([`lock`]), when a
//! failed call is repeated ([`retry`]), and in which order all of this happens ([`session`]).
//! [`course`] states what every session keeps to. Whoever uses the crate makes the calls, and
//! has the clock and the files.

pub mod call;
pub mod course;
pub mod error;
pub mod json;
pub mod lock;
pub mod message;
pub mod question;
pub mod retry;
pub mod session;
pub mod text;
pub mod update;
