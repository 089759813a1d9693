//! Signed and sealed chat messages for peers that are known by their public
//! keys, together with the decisions of the loops that carry them: which
//! inbound connection a dispatcher hands on, and what a session does with an
//! overlay event or a line of operator input.

pub mod chars;
pub mod command;
pub mod dispatch;
pub mod envelope;
pub mod keys;
pub mod message;
pub mod sealing;
pub mod session;
pub mod text;
pub mod wire;
