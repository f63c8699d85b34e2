//! The instruction wire format and the end-to-end dispatch.

use twitter::errors::{ErrorCode, ProgramError};
use twitter::program::{
    encode_send_tweet_data, parse_send_tweet_data, process_instruction, program_id,
    send_tweet_discriminator,
};
use twitter::state::twitter::{tweet_discriminator, Tweet};

#[test]
fn program_identity_is_a_32_byte_key() {
    assert_eq!(program_id().len(), 32);
    // base-58 "D1XH..." opens with these bytes
    assert_eq!(&program_id()[..4], &[178, 110, 125, 192]);
}

#[test]
fn instruction_and_account_discriminators_differ() {
    assert_eq!(send_tweet_discriminator().len(), 8);
    assert_eq!(tweet_discriminator().len(), 8);
    assert_ne!(send_tweet_discriminator(), tweet_discriminator());
}

#[test]
fn instruction_data_round_trips() {
    let data = encode_send_tweet_data("solana", "Hello, world!");
    assert_eq!(&data[..8], &send_tweet_discriminator()[..]);
    assert_eq!(&data[8..12], 6u32.to_le_bytes());
    assert_eq!(&data[12..18], b"solana");
    let (topic, content) = parse_send_tweet_data(&data).expect("well-formed data parses");
    assert_eq!(topic, "solana");
    assert_eq!(content, "Hello, world!");
}

#[test]
fn parse_rejects_unknown_discriminator() {
    let mut data = encode_send_tweet_data("a", "b");
    data[7] ^= 1;
    assert_eq!(parse_send_tweet_data(&data), Err(ProgramError::UnknownInstruction));
    assert_eq!(parse_send_tweet_data(&[]), Err(ProgramError::UnknownInstruction));
}

#[test]
fn parse_rejects_malformed_arguments() {
    let data = encode_send_tweet_data("ab", "cd");
    // truncated: the content bytes are cut short
    assert_eq!(
        parse_send_tweet_data(&data[..data.len() - 1]),
        Err(ProgramError::InvalidInstructionData)
    );
    // a trailing byte is not consumed
    let mut longer = data.clone();
    longer.push(0);
    assert_eq!(parse_send_tweet_data(&longer), Err(ProgramError::InvalidInstructionData));
    // the discriminator alone carries no arguments
    assert_eq!(
        parse_send_tweet_data(&data[..8]),
        Err(ProgramError::InvalidInstructionData)
    );
}

#[test]
fn process_writes_the_record_account() {
    let author: Vec<u8> = (100u8..132).collect();
    let data = encode_send_tweet_data("solana", "Hello, world!");
    let mut account: Vec<u8> = Vec::new();
    let r = process_instruction(&mut account, &author, true, &data, 1_700_000_000);
    assert_eq!(r, Ok(()));
    assert_eq!(account.len(), Tweet::LEN);
    let t = Tweet::try_deserialize(&account).expect("the written account parses");
    assert_eq!(t.author, author);
    assert_eq!(t.timestamp, 1_700_000_000);
    assert_eq!(t.topic, "solana");
    assert_eq!(t.content, "Hello, world!");
}

#[test]
fn process_requires_the_author_signature() {
    let author = vec![9u8; 32];
    let data = encode_send_tweet_data("solana", "hi");
    let mut account: Vec<u8> = Vec::new();
    let r = process_instruction(&mut account, &author, false, &data, 7);
    assert_eq!(r, Err(ProgramError::MissingRequiredSignature));
    // rejected before the handler body runs: nothing was written
    assert!(account.is_empty());
}

#[test]
fn process_surfaces_validation_errors() {
    let author = vec![9u8; 32];
    let mut account: Vec<u8> = Vec::new();
    let data = encode_send_tweet_data(&"x".repeat(51), "ok");
    assert_eq!(
        process_instruction(&mut account, &author, true, &data, 7),
        Err(ProgramError::Custom(ErrorCode::TopicTooLong))
    );
    assert!(account.is_empty());
    let data = encode_send_tweet_data("ok", &"x".repeat(281));
    assert_eq!(
        process_instruction(&mut account, &author, true, &data, 7),
        Err(ProgramError::Custom(ErrorCode::ContentTooLong))
    );
    let data = encode_send_tweet_data(&"x".repeat(51), &"x".repeat(281));
    assert_eq!(
        process_instruction(&mut account, &author, true, &data, 7),
        Err(ProgramError::Custom(ErrorCode::TopicTooLong))
    );
    assert!(account.is_empty());
}

#[test]
fn process_rejects_unknown_instructions() {
    let author = vec![9u8; 32];
    let mut account: Vec<u8> = Vec::new();
    let r = process_instruction(&mut account, &author, true, &[1, 2, 3], 7);
    assert_eq!(r, Err(ProgramError::UnknownInstruction));
    assert!(account.is_empty());
}

#[test]
fn program_send_tweet_forwards_to_the_handler() {
    let mut ctx = twitter::instructions::send_tweet::SendTweet {
        tweet: Tweet {
            author: Vec::new(),
            timestamp: 0,
            topic: String::new(),
            content: String::new(),
        },
        author: vec![5u8; 32],
    };
    let r = twitter::program::send_tweet(&mut ctx, String::from("solana"), String::from("hi"), 3);
    assert_eq!(r, Ok(()));
    assert_eq!(ctx.tweet.topic, "solana");
    assert_eq!(ctx.tweet.timestamp, 3);
    assert_eq!(ctx.tweet.author, vec![5u8; 32]);
    let r = twitter::program::send_tweet(&mut fresh_program_ctx(), String::from("x").repeat(51), String::from("hi"), 3);
    assert_eq!(r, Err(ErrorCode::TopicTooLong));
}

fn fresh_program_ctx() -> twitter::instructions::send_tweet::SendTweet {
    twitter::instructions::send_tweet::SendTweet {
        tweet: Tweet {
            author: Vec::new(),
            timestamp: 0,
            topic: String::new(),
            content: String::new(),
        },
        author: vec![5u8; 32],
    }
}
