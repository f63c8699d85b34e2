//! An on-chain message-posting module: a single `send_tweet` instruction
//! validates a topic and a content string, stamps them with the chain clock,
//! and materializes a fixed-size record account owned by the program.
//!
//! The account framing (discriminator, author key, timestamp, two
//! length-prefixed UTF-8 strings) is specified and proved down to the byte.

pub mod codec;
pub mod constants;
pub mod errors;
pub mod instructions;
pub mod program;
pub mod state;
