//! The verified core of a chat-completion gateway.

pub mod api;
pub mod execution;
pub mod json;
pub mod number;
pub mod tally;
pub mod text;
pub mod toolcall;
pub mod upstream;
pub mod views;
