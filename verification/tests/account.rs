//! The record account's byte layout: size, framing, and round trips.

use twitter::constants::{
    DISCRIMINATOR_LENGTH, MAX_CONTENT_LENGTH, MAX_TOPIC_LENGTH, PUBLIC_KEY_LENGTH,
    STRING_LENGTH_PREFIX, TIMESTAMP_LENGTH,
};
use twitter::state::twitter::{tweet_discriminator, Tweet, CONTENT_LEN_OFFSET, CONTENT_OFFSET, TOPIC_LEN_OFFSET, TOPIC_OFFSET};

fn sample(topic: &str, content: &str) -> Tweet {
    Tweet {
        author: (0u8..32).collect(),
        timestamp: -42,
        topic: String::from(topic),
        content: String::from(content),
    }
}

#[test]
fn record_len_is_the_sum_of_its_parts() {
    assert_eq!(
        Tweet::LEN,
        DISCRIMINATOR_LENGTH
            + PUBLIC_KEY_LENGTH
            + TIMESTAMP_LENGTH
            + STRING_LENGTH_PREFIX
            + MAX_TOPIC_LENGTH
            + STRING_LENGTH_PREFIX
            + MAX_CONTENT_LENGTH
    );
    assert_eq!(Tweet::LEN, 1376);
}

#[test]
fn serialized_record_occupies_exactly_len_bytes() {
    assert_eq!(sample("", "").try_serialize().len(), Tweet::LEN);
    assert_eq!(sample("solana", "Hello, world!").try_serialize().len(), Tweet::LEN);
    assert_eq!(
        sample(&"x".repeat(50), &"y".repeat(280)).try_serialize().len(),
        Tweet::LEN
    );
}

#[test]
fn serialized_layout_is_framed_as_specified() {
    let t = sample("ab", "cde");
    let bytes = t.try_serialize();
    assert_eq!(&bytes[..8], &tweet_discriminator()[..]);
    assert_eq!(&bytes[8..40], &t.author[..]);
    assert_eq!(&bytes[40..48], (-42i64).to_le_bytes());
    assert_eq!(&bytes[TOPIC_LEN_OFFSET..TOPIC_OFFSET], 2u32.to_le_bytes());
    assert_eq!(&bytes[TOPIC_OFFSET..TOPIC_OFFSET + 2], b"ab");
    assert!(bytes[TOPIC_OFFSET + 2..CONTENT_LEN_OFFSET].iter().all(|&b| b == 0));
    assert_eq!(&bytes[CONTENT_LEN_OFFSET..CONTENT_OFFSET], 3u32.to_le_bytes());
    assert_eq!(&bytes[CONTENT_OFFSET..CONTENT_OFFSET + 3], b"cde");
    assert!(bytes[CONTENT_OFFSET + 3..].iter().all(|&b| b == 0));
}

#[test]
fn multibyte_topic_is_stored_with_its_byte_length() {
    // one scalar, two bytes: the length prefix counts bytes, not scalars
    let t = sample("\u{e9}", "");
    let bytes = t.try_serialize();
    assert_eq!(&bytes[TOPIC_LEN_OFFSET..TOPIC_OFFSET], 2u32.to_le_bytes());
    assert_eq!(&bytes[TOPIC_OFFSET..TOPIC_OFFSET + 2], "\u{e9}".as_bytes());
}

#[test]
fn record_round_trips_through_the_account() {
    let t = sample(&"\u{e9}".repeat(50), "caf\u{e9} corner");
    let bytes = t.try_serialize();
    let back = Tweet::try_deserialize(&bytes).expect("a serialized record parses");
    assert_eq!(back.author, t.author);
    assert_eq!(back.timestamp, t.timestamp);
    assert_eq!(back.topic, t.topic);
    assert_eq!(back.content, t.content);
}

#[test]
fn empty_record_round_trips() {
    let t = sample("", "");
    let back = Tweet::try_deserialize(&t.try_serialize()).expect("parses");
    assert_eq!(back.topic, "");
    assert_eq!(back.content, "");
    assert_eq!(back.timestamp, -42);
}

#[test]
fn deserialize_rejects_wrong_size() {
    assert!(Tweet::try_deserialize(&[]).is_none());
    assert!(Tweet::try_deserialize(&vec![0u8; Tweet::LEN - 1]).is_none());
    assert!(Tweet::try_deserialize(&vec![0u8; Tweet::LEN + 1]).is_none());
}

#[test]
fn deserialize_rejects_wrong_discriminator() {
    let mut bytes = sample("a", "b").try_serialize();
    bytes[0] ^= 0xff;
    assert!(Tweet::try_deserialize(&bytes).is_none());
}

#[test]
fn deserialize_rejects_invalid_utf8() {
    let mut bytes = sample("a", "b").try_serialize();
    // the topic slot claims one byte, and that byte is no valid UTF-8
    bytes[TOPIC_OFFSET] = 0xff;
    assert!(Tweet::try_deserialize(&bytes).is_none());
}

#[test]
fn deserialize_rejects_oversized_length_prefix() {
    let mut bytes = sample("a", "b").try_serialize();
    let over = (MAX_TOPIC_LENGTH as u32 + 1).to_le_bytes();
    bytes[TOPIC_LEN_OFFSET..TOPIC_OFFSET].copy_from_slice(&over);
    assert!(Tweet::try_deserialize(&bytes).is_none());
}
