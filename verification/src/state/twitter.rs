//! The record schema: a posted message with its author, timestamp and two
//! bounded strings, together with its fixed-size account encoding.

use crate::codec::{
    bytes_eq, i64_from_le_bytes, i64_to_le_bytes, lemma_encode_utf8_len, lemma_i64_le_bytes_inverse,
    lemma_i64_le_bytes_roundtrip, lemma_u32_le_bytes_inverse, lemma_u32_le_bytes_roundtrip,
    push_bytes, push_zeros, spec_i64_to_le_bytes, string_from_utf8,
};
use crate::constants::{
    DISCRIMINATOR_LENGTH, MAX_CONTENT_CHARS, MAX_CONTENT_LENGTH, MAX_TOPIC_CHARS, MAX_TOPIC_LENGTH,
    PUBLIC_KEY_LENGTH, STRING_LENGTH_PREFIX, TIMESTAMP_LENGTH,
};
use vstd::bytes::*;
use vstd::prelude::*;
use vstd::slice::*;
use vstd::utf8::*;

verus! {

/// A posted record: the author's 32-byte public key, the creation time in
/// seconds since the chain's epoch, and the two validated strings.
pub struct Tweet {
    pub author: Vec<u8>,
    pub timestamp: i64,
    pub topic: String,
    pub content: String,
}

/// Offset of the author key inside a record account.
pub const AUTHOR_OFFSET: usize = DISCRIMINATOR_LENGTH;

/// Offset of the timestamp inside a record account.
pub const TIMESTAMP_OFFSET: usize = AUTHOR_OFFSET + PUBLIC_KEY_LENGTH;

/// Offset of the topic's byte-length prefix inside a record account.
pub const TOPIC_LEN_OFFSET: usize = TIMESTAMP_OFFSET + TIMESTAMP_LENGTH;

/// Offset of the topic's UTF-8 bytes inside a record account.
pub const TOPIC_OFFSET: usize = TOPIC_LEN_OFFSET + STRING_LENGTH_PREFIX;

/// Offset of the content's byte-length prefix inside a record account.
pub const CONTENT_LEN_OFFSET: usize = TOPIC_OFFSET + MAX_TOPIC_LENGTH;

/// Offset of the content's UTF-8 bytes inside a record account.
pub const CONTENT_OFFSET: usize = CONTENT_LEN_OFFSET + STRING_LENGTH_PREFIX;

/// The 8-byte discriminator that marks an account as holding a `Tweet`
/// record: the first 8 bytes of the SHA-256 digest of `"account:Tweet"`.
pub open spec fn spec_tweet_discriminator() -> Seq<u8> {
    seq![229u8, 13u8, 110u8, 58u8, 118u8, 6u8, 20u8, 79u8]
}

/// The account discriminator of `Tweet` records, as bytes.
pub fn tweet_discriminator() -> (r: Vec<u8>)
    ensures
        r@ == spec_tweet_discriminator(),
        r@.len() == DISCRIMINATOR_LENGTH,
{
    let v: Vec<u8> = vec![229u8, 13u8, 110u8, 58u8, 118u8, 6u8, 20u8, 79u8];
    proof {
        assert(v@ =~= spec_tweet_discriminator());
    }
    v
}

/// True when `bytes` frames the given record fields: the discriminator, the
/// author key, the little-endian timestamp, then each string as a 4-byte
/// little-endian byte length followed by its UTF-8 bytes inside its fixed
/// slot.  Trailing slot capacity is left free.
pub open spec fn spec_encodes_fields(
    bytes: Seq<u8>,
    author: Seq<u8>,
    timestamp: i64,
    topic: Seq<char>,
    content: Seq<char>,
) -> bool {
    let tb = encode_utf8(topic);
    let cb = encode_utf8(content);
    &&& bytes.len() == Tweet::LEN
    &&& bytes.subrange(0, AUTHOR_OFFSET as int) == spec_tweet_discriminator()
    &&& bytes.subrange(AUTHOR_OFFSET as int, TIMESTAMP_OFFSET as int) == author
    &&& bytes.subrange(TIMESTAMP_OFFSET as int, TOPIC_LEN_OFFSET as int)
        == spec_i64_to_le_bytes(timestamp)
    &&& tb.len() <= MAX_TOPIC_LENGTH
    &&& bytes.subrange(TOPIC_LEN_OFFSET as int, TOPIC_OFFSET as int) == spec_u32_to_le_bytes(
        tb.len() as u32,
    )
    &&& bytes.subrange(TOPIC_OFFSET as int, TOPIC_OFFSET + tb.len()) == tb
    &&& cb.len() <= MAX_CONTENT_LENGTH
    &&& bytes.subrange(CONTENT_LEN_OFFSET as int, CONTENT_OFFSET as int) == spec_u32_to_le_bytes(
        cb.len() as u32,
    )
    &&& bytes.subrange(CONTENT_OFFSET as int, CONTENT_OFFSET + cb.len()) == cb
}

/// True when `bytes` frames the record `t`.
pub open spec fn spec_encodes(bytes: Seq<u8>, t: Tweet) -> bool {
    spec_encodes_fields(bytes, t.author@, t.timestamp, t.topic@, t.content@)
}

/// True when the unused slot capacity behind each string is zeroed, as the
/// serializer leaves it.
pub open spec fn spec_zero_padded(bytes: Seq<u8>, topic: Seq<char>, content: Seq<char>) -> bool {
    &&& forall|i: int|
        TOPIC_OFFSET + encode_utf8(topic).len() <= i < CONTENT_LEN_OFFSET ==> #[trigger] bytes[i]
            == 0u8
    &&& forall|i: int|
        CONTENT_OFFSET + encode_utf8(content).len() <= i < Tweet::LEN ==> #[trigger] bytes[i]
            == 0u8
}

/// Two records carry the same data.
pub open spec fn same_record(a: Tweet, b: Tweet) -> bool {
    &&& a.author@ == b.author@
    &&& a.timestamp == b.timestamp
    &&& a.topic@ == b.topic@
    &&& a.content@ == b.content@
}

impl Tweet {
    /// The exact byte size of a record account: discriminator, key,
    /// timestamp, and one length-prefixed slot per string.
    pub const LEN: usize = DISCRIMINATOR_LENGTH + PUBLIC_KEY_LENGTH + TIMESTAMP_LENGTH
        + STRING_LENGTH_PREFIX + MAX_TOPIC_LENGTH + STRING_LENGTH_PREFIX + MAX_CONTENT_LENGTH;

    /// A record is well formed when its key has the key width and both
    /// strings observe their bounds in Unicode scalar values.
    pub open spec fn wf(self) -> bool {
        &&& self.author@.len() == PUBLIC_KEY_LENGTH
        &&& self.topic@.len() <= MAX_TOPIC_CHARS
        &&& self.content@.len() <= MAX_CONTENT_CHARS
    }

    /// Serializes the record into exactly `Tweet::LEN` bytes, zeroing the
    /// unused slot capacity.
    pub fn try_serialize(&self) -> (r: Vec<u8>)
        requires
            self.wf(),
        ensures
            r@.len() == Tweet::LEN,
            spec_encodes(r@, *self),
            spec_zero_padded(r@, self.topic@, self.content@),
    {
        proof {
            lemma_encode_utf8_len(self.topic@);
            lemma_encode_utf8_len(self.content@);
        }
        let mut out: Vec<u8> = Vec::new();
        let disc = tweet_discriminator();
        push_bytes(&mut out, disc.as_slice());
        push_bytes(&mut out, self.author.as_slice());
        let ts = i64_to_le_bytes(self.timestamp);
        push_bytes(&mut out, ts.as_slice());
        let tb = self.topic.as_str().as_bytes_vec();
        let tl = u32_to_le_bytes(tb.len() as u32);
        push_bytes(&mut out, tl.as_slice());
        push_bytes(&mut out, tb.as_slice());
        push_zeros(&mut out, MAX_TOPIC_LENGTH - tb.len());
        let cb = self.content.as_str().as_bytes_vec();
        let cl = u32_to_le_bytes(cb.len() as u32);
        push_bytes(&mut out, cl.as_slice());
        push_bytes(&mut out, cb.as_slice());
        push_zeros(&mut out, MAX_CONTENT_LENGTH - cb.len());
        proof {
            let tbl = encode_utf8(self.topic@).len() as int;
            let cbl = encode_utf8(self.content@).len() as int;
            assert(out@.len() == Tweet::LEN);
            assert(out@.subrange(0, AUTHOR_OFFSET as int) =~= spec_tweet_discriminator());
            assert(out@.subrange(AUTHOR_OFFSET as int, TIMESTAMP_OFFSET as int) =~= self.author@);
            assert(out@.subrange(TIMESTAMP_OFFSET as int, TOPIC_LEN_OFFSET as int)
                =~= spec_i64_to_le_bytes(self.timestamp));
            assert(out@.subrange(TOPIC_LEN_OFFSET as int, TOPIC_OFFSET as int)
                =~= spec_u32_to_le_bytes(encode_utf8(self.topic@).len() as u32));
            assert(out@.subrange(TOPIC_OFFSET as int, TOPIC_OFFSET + tbl) =~= encode_utf8(
                self.topic@,
            ));
            assert(out@.subrange(CONTENT_LEN_OFFSET as int, CONTENT_OFFSET as int)
                =~= spec_u32_to_le_bytes(encode_utf8(self.content@).len() as u32));
            assert(out@.subrange(CONTENT_OFFSET as int, CONTENT_OFFSET + cbl) =~= encode_utf8(
                self.content@,
            ));
        }
        out
    }

    /// Parses a record account.  Succeeds exactly on buffers that frame some
    /// record, and then returns that record.
    pub fn try_deserialize(buf: &[u8]) -> (r: Option<Tweet>)
        ensures
            match r {
                Some(t) => spec_encodes(buf@, t),
                None => forall|t: Tweet| !spec_encodes(buf@, t),
            },
            forall|t: Tweet|
                spec_encodes(buf@, t) ==> r is Some && same_record(#[trigger] r->0, t),
    {
        if buf.len() != Tweet::LEN {
            return None;
        }
        let disc = tweet_discriminator();
        if !bytes_eq(slice_subrange(buf, 0, AUTHOR_OFFSET), disc.as_slice()) {
            return None;
        }
        let author = slice_to_vec(slice_subrange(buf, AUTHOR_OFFSET, TIMESTAMP_OFFSET));
        let timestamp = i64_from_le_bytes(slice_subrange(buf, TIMESTAMP_OFFSET, TOPIC_LEN_OFFSET));
        let tn = u32_from_le_bytes(slice_subrange(buf, TOPIC_LEN_OFFSET, TOPIC_OFFSET));
        if tn > MAX_TOPIC_LENGTH as u32 {
            proof {
                assert forall|t: Tweet| !spec_encodes(buf@, t) by {
                    if spec_encodes(buf@, t) {
                        lemma_u32_le_bytes_roundtrip(encode_utf8(t.topic@).len() as u32);
                    }
                }
            }
            return None;
        }
        let tn = tn as usize;
        let tb = slice_to_vec(slice_subrange(buf, TOPIC_OFFSET, TOPIC_OFFSET + tn));
        let topic = match string_from_utf8(tb) {
            Some(s) => s,
            None => {
                proof {
                    assert forall|t: Tweet| !spec_encodes(buf@, t) by {
                        if spec_encodes(buf@, t) {
                            broadcast use encode_utf8_valid_utf8;

                            lemma_u32_le_bytes_roundtrip(encode_utf8(t.topic@).len() as u32);
                            assert(encode_utf8(t.topic@).len() == tn);
                        }
                    }
                }
                return None;
            },
        };
        let cn = u32_from_le_bytes(slice_subrange(buf, CONTENT_LEN_OFFSET, CONTENT_OFFSET));
        if cn > MAX_CONTENT_LENGTH as u32 {
            proof {
                assert forall|t: Tweet| !spec_encodes(buf@, t) by {
                    if spec_encodes(buf@, t) {
                        lemma_u32_le_bytes_roundtrip(encode_utf8(t.content@).len() as u32);
                    }
                }
            }
            return None;
        }
        let cn = cn as usize;
        let cb = slice_to_vec(slice_subrange(buf, CONTENT_OFFSET, CONTENT_OFFSET + cn));
        let content = match string_from_utf8(cb) {
            Some(s) => s,
            None => {
                proof {
                    assert forall|t: Tweet| !spec_encodes(buf@, t) by {
                        if spec_encodes(buf@, t) {
                            broadcast use encode_utf8_valid_utf8;

                            lemma_u32_le_bytes_roundtrip(encode_utf8(t.content@).len() as u32);
                            assert(encode_utf8(t.content@).len() == cn);
                        }
                    }
                }
                return None;
            },
        };
        let t = Tweet { author, timestamp, topic, content };
        proof {
            broadcast use decode_utf8_encode_utf8;
            broadcast use encode_utf8_decode_utf8;

            lemma_i64_le_bytes_inverse(buf@.subrange(
                TIMESTAMP_OFFSET as int,
                TOPIC_LEN_OFFSET as int,
            ));
            lemma_u32_le_bytes_inverse(buf@.subrange(TOPIC_LEN_OFFSET as int, TOPIC_OFFSET as int));
            lemma_u32_le_bytes_inverse(buf@.subrange(
                CONTENT_LEN_OFFSET as int,
                CONTENT_OFFSET as int,
            ));
            assert(spec_encodes(buf@, t));
            assert forall|o: Tweet| spec_encodes(buf@, o) implies same_record(t, o) by {
                lemma_u32_le_bytes_roundtrip(encode_utf8(o.topic@).len() as u32);
                lemma_u32_le_bytes_roundtrip(encode_utf8(o.content@).len() as u32);
                assert(encode_utf8(o.topic@).len() == tn);
                assert(encode_utf8(o.content@).len() == cn);
                lemma_i64_le_bytes_roundtrip(o.timestamp);
            }
        }
        Some(t)
    }
}

/// A buffer frames at most one record: if two records are both read from the
/// same bytes, they carry the same data.
pub proof fn lemma_record_encoding_unambiguous(bytes: Seq<u8>, a: Tweet, b: Tweet)
    requires
        spec_encodes(bytes, a),
        spec_encodes(bytes, b),
    ensures
        same_record(a, b),
{
    broadcast use encode_utf8_decode_utf8;

    lemma_u32_le_bytes_roundtrip(encode_utf8(a.topic@).len() as u32);
    lemma_u32_le_bytes_roundtrip(encode_utf8(b.topic@).len() as u32);
    lemma_u32_le_bytes_roundtrip(encode_utf8(a.content@).len() as u32);
    lemma_u32_le_bytes_roundtrip(encode_utf8(b.content@).len() as u32);
    lemma_i64_le_bytes_roundtrip(a.timestamp);
    lemma_i64_le_bytes_roundtrip(b.timestamp);
    assert(encode_utf8(a.topic@).len() == encode_utf8(b.topic@).len());
    assert(encode_utf8(a.topic@) == encode_utf8(b.topic@));
    assert(encode_utf8(a.content@).len() == encode_utf8(b.content@).len());
    assert(encode_utf8(a.content@) == encode_utf8(b.content@));
    assert(decode_utf8(encode_utf8(a.topic@)) == a.topic@);
    assert(decode_utf8(encode_utf8(b.topic@)) == b.topic@);
    assert(decode_utf8(encode_utf8(a.content@)) == a.content@);
    assert(decode_utf8(encode_utf8(b.content@)) == b.content@);
}

} // verus!
