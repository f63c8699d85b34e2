//! Instruction handlers: the single post instruction.

pub mod send_tweet;
