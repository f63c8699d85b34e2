//! The program entrypoint: the fixed program identity, the instruction wire
//! format, and a dispatch that models the runtime framing around the
//! handler — discriminator check, argument decoding, signer check, and the
//! write of the freshly allocated record account.

use crate::codec::{
    bytes_eq, lemma_u32_le_bytes_inverse, lemma_u32_le_bytes_roundtrip, push_bytes,
    string_from_utf8,
};
use crate::constants::{DISCRIMINATOR_LENGTH, PUBLIC_KEY_LENGTH, STRING_LENGTH_PREFIX};
use crate::errors::{ErrorCode, ProgramError};
use crate::instructions::send_tweet::{spec_validate, SendTweet};
use crate::state::twitter::{spec_encodes_fields, spec_zero_padded, Tweet};
use vstd::bytes::{spec_u32_from_le_bytes, spec_u32_to_le_bytes, u32_from_le_bytes, u32_to_le_bytes};
use vstd::prelude::*;
use vstd::slice::{slice_subrange, slice_to_vec};
use vstd::string::StrSliceExecFns;
use vstd::utf8::{
    decode_utf8, decode_utf8_encode_utf8, encode_utf8, encode_utf8_decode_utf8,
    encode_utf8_valid_utf8, valid_utf8,
};

verus! {

/// The program's fixed 32-byte on-chain address; its base-58 form is
/// `D1XHmse2CeLU1hcoNhFeVzVsqcspLUqavv2CZPP6bWBF`.
pub open spec fn spec_program_id() -> Seq<u8> {
    seq![
        178u8, 110u8, 125u8, 192u8, 240u8, 202u8, 183u8, 176u8, 196u8, 107u8, 176u8, 126u8, 61u8,
        195u8, 238u8, 145u8, 100u8, 157u8, 11u8, 142u8, 190u8, 95u8, 66u8, 18u8, 43u8, 211u8,
        244u8, 63u8, 158u8, 201u8, 64u8, 70u8,
    ]
}

/// The program's fixed 32-byte on-chain address, as bytes.
pub fn program_id() -> (r: Vec<u8>)
    ensures
        r@ == spec_program_id(),
        r@.len() == PUBLIC_KEY_LENGTH,
{
    let v: Vec<u8> = vec![
        178u8, 110u8, 125u8, 192u8, 240u8, 202u8, 183u8, 176u8, 196u8, 107u8, 176u8, 126u8, 61u8,
        195u8, 238u8, 145u8, 100u8, 157u8, 11u8, 142u8, 190u8, 95u8, 66u8, 18u8, 43u8, 211u8,
        244u8, 63u8, 158u8, 201u8, 64u8, 70u8,
    ];
    proof {
        assert(v@ =~= spec_program_id());
    }
    v
}

/// The 8-byte discriminator that names the post instruction: the first 8
/// bytes of the SHA-256 digest of `"global:send_tweet"`.
pub open spec fn spec_send_tweet_discriminator() -> Seq<u8> {
    seq![179u8, 213u8, 79u8, 165u8, 123u8, 247u8, 82u8, 109u8]
}

/// The post instruction's discriminator, as bytes.
pub fn send_tweet_discriminator() -> (r: Vec<u8>)
    ensures
        r@ == spec_send_tweet_discriminator(),
        r@.len() == DISCRIMINATOR_LENGTH,
{
    let v: Vec<u8> = vec![179u8, 213u8, 79u8, 165u8, 123u8, 247u8, 82u8, 109u8];
    proof {
        assert(v@ =~= spec_send_tweet_discriminator());
    }
    v
}

/// The wire form of a post instruction: the discriminator, then each string
/// as a 4-byte little-endian byte length followed by its UTF-8 bytes.
pub open spec fn spec_instruction_data(topic: Seq<char>, content: Seq<char>) -> Seq<u8> {
    let tb = encode_utf8(topic);
    let cb = encode_utf8(content);
    spec_send_tweet_discriminator() + spec_u32_to_le_bytes(tb.len() as u32) + tb
        + spec_u32_to_le_bytes(cb.len() as u32) + cb
}

/// Both strings' UTF-8 encodings fit their 4-byte length prefixes.
pub open spec fn spec_wire_ok(topic: Seq<char>, content: Seq<char>) -> bool {
    encode_utf8(topic).len() <= u32::MAX && encode_utf8(content).len() <= u32::MAX
}

/// The data opens with the post instruction's discriminator.
pub open spec fn spec_is_send_tweet(data: Seq<u8>) -> bool {
    data.len() >= DISCRIMINATOR_LENGTH && data.subrange(0, DISCRIMINATOR_LENGTH as int)
        == spec_send_tweet_discriminator()
}

/// The data is exactly the wire form of some pair of strings.
pub open spec fn spec_parses_send_tweet(data: Seq<u8>) -> bool {
    exists|topic: Seq<char>, content: Seq<char>|
        spec_wire_ok(topic, content) && data == #[trigger] spec_instruction_data(topic, content)
}

/// Builds the instruction data that submits a topic and a content.
pub fn encode_send_tweet_data(topic: &str, content: &str) -> (r: Vec<u8>)
    requires
        spec_wire_ok(topic@, content@),
    ensures
        r@ == spec_instruction_data(topic@, content@),
{
    let mut out: Vec<u8> = Vec::new();
    let disc = send_tweet_discriminator();
    push_bytes(&mut out, disc.as_slice());
    let tb = topic.as_bytes_vec();
    let tl = u32_to_le_bytes(tb.len() as u32);
    push_bytes(&mut out, tl.as_slice());
    push_bytes(&mut out, tb.as_slice());
    let cb = content.as_bytes_vec();
    let cl = u32_to_le_bytes(cb.len() as u32);
    push_bytes(&mut out, cl.as_slice());
    push_bytes(&mut out, cb.as_slice());
    proof {
        assert(out@ =~= spec_instruction_data(topic@, content@));
    }
    out
}

/// Decodes instruction data.  An unknown discriminator is rejected as such;
/// data that carries the discriminator but is not the exact wire form of a
/// pair of strings is rejected as malformed; otherwise the pair is returned.
pub fn parse_send_tweet_data(data: &[u8]) -> (r: Result<(String, String), ProgramError>)
    ensures
        match r {
            Ok(p) => spec_wire_ok(p.0@, p.1@) && data@ == spec_instruction_data(p.0@, p.1@)
                && spec_is_send_tweet(data@) && spec_parses_send_tweet(data@),
            Err(e) => {
                &&& (e == ProgramError::UnknownInstruction <==> !spec_is_send_tweet(data@))
                &&& (e is UnknownInstruction || e is InvalidInstructionData)
                &&& !spec_parses_send_tweet(data@)
            },
        },
        forall|t: Seq<char>, c: Seq<char>|
            spec_wire_ok(t, c) && data@ == #[trigger] spec_instruction_data(t, c) ==> (r matches Ok(
                p,
            ) && p.0@ == t && p.1@ == c),
{
    let n = data.len();
    let disc = send_tweet_discriminator();
    if n < DISCRIMINATOR_LENGTH {
        proof {
            lemma_no_parse_short_or_wrong_disc(data@);
        }
        return Err(ProgramError::UnknownInstruction);
    }
    if !bytes_eq(slice_subrange(data, 0, DISCRIMINATOR_LENGTH), disc.as_slice()) {
        proof {
            lemma_no_parse_short_or_wrong_disc(data@);
        }
        return Err(ProgramError::UnknownInstruction);
    }
    let topic_len_end = DISCRIMINATOR_LENGTH + STRING_LENGTH_PREFIX;
    if n < topic_len_end {
        proof {
            lemma_data_shape(data@);
        }
        return Err(ProgramError::InvalidInstructionData);
    }
    let tn = u32_from_le_bytes(slice_subrange(data, DISCRIMINATOR_LENGTH, topic_len_end));
    if (topic_len_end as u64) + (tn as u64) + (STRING_LENGTH_PREFIX as u64) > n as u64 {
        proof {
            lemma_data_shape(data@);
        }
        return Err(ProgramError::InvalidInstructionData);
    }
    let topic_end = topic_len_end + (tn as usize);
    let content_start = topic_end + STRING_LENGTH_PREFIX;
    let cn = u32_from_le_bytes(slice_subrange(data, topic_end, content_start));
    if (content_start as u64) + (cn as u64) != n as u64 {
        proof {
            lemma_data_shape(data@);
        }
        return Err(ProgramError::InvalidInstructionData);
    }
    let tb = slice_to_vec(slice_subrange(data, topic_len_end, topic_end));
    let topic = match string_from_utf8(tb) {
        Some(s) => s,
        None => {
            proof {
                lemma_data_shape(data@);
            }
            return Err(ProgramError::InvalidInstructionData);
        },
    };
    let cb = slice_to_vec(slice_subrange(data, content_start, n));
    let content = match string_from_utf8(cb) {
        Some(s) => s,
        None => {
            proof {
                lemma_data_shape(data@);
            }
            return Err(ProgramError::InvalidInstructionData);
        },
    };
    proof {
        lemma_data_shape(data@);
        decode_utf8_encode_utf8(data@.subrange(topic_len_end as int, topic_end as int));
        decode_utf8_encode_utf8(data@.subrange(content_start as int, n as int));
        lemma_u32_le_bytes_inverse(data@.subrange(DISCRIMINATOR_LENGTH as int, topic_len_end as int));
        lemma_u32_le_bytes_inverse(data@.subrange(topic_end as int, content_start as int));
        assert(data@ =~= spec_instruction_data(topic@, content@));
    }
    Ok((topic, content))
}

/// The post instruction as the program publishes it: forwards to the
/// handler unchanged.
pub fn send_tweet(ctx: &mut SendTweet, topic: String, content: String, now: i64) -> (r: Result<
    (),
    ErrorCode,
>)
    ensures
        r == spec_validate(topic@, content@),
        r is Err ==> *final(ctx) == *old(ctx),
        r is Ok ==> final(ctx).author@ == old(ctx).author@ && final(ctx).tweet.author@ == old(
            ctx,
        ).author@ && final(ctx).tweet.timestamp == now && final(ctx).tweet.topic@ == topic@
            && final(ctx).tweet.content@ == content@,
        old(ctx).wf() && r is Ok ==> final(ctx).wf() && final(ctx).tweet.wf(),
{
    crate::instructions::send_tweet::send_tweet(ctx, topic, content, now)
}

/// Runs one transaction's worth of this program on plain values: checks the
/// instruction discriminator, decodes the arguments, requires the author's
/// signature, validates, and writes the freshly allocated record account.
/// The account data stays empty on every failure.
pub fn process_instruction(
    tweet_data: &mut Vec<u8>,
    author_key: &Vec<u8>,
    author_is_signer: bool,
    data: &[u8],
    now: i64,
) -> (r: Result<(), ProgramError>)
    requires
        old(tweet_data)@.len() == 0,
        author_key@.len() == PUBLIC_KEY_LENGTH,
    ensures
        r is Err ==> final(tweet_data)@ == old(tweet_data)@,
        r == Err::<(), ProgramError>(ProgramError::UnknownInstruction) <==> !spec_is_send_tweet(data@),
        r == Err::<(), ProgramError>(ProgramError::InvalidInstructionData) <==> spec_is_send_tweet(data@)
            && !spec_parses_send_tweet(data@),
        r == Err::<(), ProgramError>(ProgramError::MissingRequiredSignature) <==> spec_parses_send_tweet(data@)
            && !author_is_signer,
        r is Ok ==> spec_parses_send_tweet(data@) && author_is_signer && final(tweet_data)@.len()
            == Tweet::LEN,
        forall|t: Seq<char>, c: Seq<char>|
            spec_wire_ok(t, c) && data@ == #[trigger] spec_instruction_data(t, c)
                && author_is_signer ==> r == (match spec_validate(t, c) {
                Ok(()) => Ok::<(), ProgramError>(()),
                Err(e) => Err::<(), ProgramError>(ProgramError::Custom(e)),
            }),
        forall|t: Seq<char>, c: Seq<char>|
            spec_wire_ok(t, c) && data@ == #[trigger] spec_instruction_data(t, c)
                && author_is_signer && spec_validate(t, c) is Ok ==> spec_encodes_fields(
                final(tweet_data)@,
                author_key@,
                now,
                t,
                c,
            ) && spec_zero_padded(final(tweet_data)@, t, c),
{
    let (topic, content) = match parse_send_tweet_data(data) {
        Ok(p) => p,
        Err(e) => {
            return Err(e);
        },
    };
    if !author_is_signer {
        return Err(ProgramError::MissingRequiredSignature);
    }
    let mut ctx = SendTweet {
        tweet: Tweet {
            author: Vec::new(),
            timestamp: 0,
            topic: String::new(),
            content: String::new(),
        },
        author: slice_to_vec(author_key.as_slice()),
    };
    match crate::instructions::send_tweet::send_tweet(&mut ctx, topic, content, now) {
        Ok(()) => {
            let bytes = ctx.tweet.try_serialize();
            *tweet_data = bytes;
            Ok(())
        },
        Err(e) => Err(ProgramError::Custom(e)),
    }
}

/// Instruction data names at most one pair of strings: two pairs with the
/// same wire form are equal.
pub proof fn lemma_instruction_data_unambiguous(
    t1: Seq<char>,
    c1: Seq<char>,
    t2: Seq<char>,
    c2: Seq<char>,
)
    requires
        spec_wire_ok(t1, c1),
        spec_wire_ok(t2, c2),
        spec_instruction_data(t1, c1) == spec_instruction_data(t2, c2),
    ensures
        t1 == t2,
        c1 == c2,
{
    let data = spec_instruction_data(t1, c1);
    lemma_data_shape(data);
    assert(encode_utf8(t1).len() == encode_utf8(t2).len());
    assert(decode_utf8(encode_utf8(t1)) == t1);
    assert(decode_utf8(encode_utf8(t2)) == t2);
    assert(decode_utf8(encode_utf8(c1)) == c1);
    assert(decode_utf8(encode_utf8(c2)) == c2);
}

/// Instruction data that is shorter than a discriminator, or opens with
/// other bytes, is no post instruction.
proof fn lemma_no_parse_short_or_wrong_disc(data: Seq<u8>)
    requires
        !spec_is_send_tweet(data),
    ensures
        !spec_parses_send_tweet(data),
{
    assert forall|t: Seq<char>, c: Seq<char>|
        !(spec_wire_ok(t, c) && data == #[trigger] spec_instruction_data(t, c)) by {
        if spec_wire_ok(t, c) && data == spec_instruction_data(t, c) {
            assert(data.subrange(0, DISCRIMINATOR_LENGTH as int)
                =~= spec_send_tweet_discriminator());
        }
    }
}

/// For every pair of strings whose wire form equals `data`, the parsed
/// lengths and slices of `data` agree with that pair.
proof fn lemma_data_shape(data: Seq<u8>)
    ensures
        forall|t: Seq<char>, c: Seq<char>|
            spec_wire_ok(t, c) && data == #[trigger] spec_instruction_data(t, c) ==> {
                let tb = encode_utf8(t);
                let cb = encode_utf8(c);
                let tle = (DISCRIMINATOR_LENGTH + STRING_LENGTH_PREFIX) as int;
                &&& data.len() == tle + STRING_LENGTH_PREFIX + tb.len() + cb.len()
                &&& spec_u32_from_le_bytes(data.subrange(DISCRIMINATOR_LENGTH as int, tle))
                    == tb.len()
                &&& data.subrange(tle, tle + tb.len()) == tb
                &&& spec_u32_from_le_bytes(
                    data.subrange(tle + tb.len(), tle + tb.len() + STRING_LENGTH_PREFIX as int),
                ) == cb.len()
                &&& data.subrange(tle + tb.len() + STRING_LENGTH_PREFIX as int, data.len() as int)
                    == cb
                &&& valid_utf8(tb)
                &&& valid_utf8(cb)
                &&& decode_utf8(tb) == t
                &&& decode_utf8(cb) == c
            },
{
    assert forall|t: Seq<char>, c: Seq<char>|
        spec_wire_ok(t, c) && data == #[trigger] spec_instruction_data(t, c) implies {
        let tb = encode_utf8(t);
        let cb = encode_utf8(c);
        let tle = (DISCRIMINATOR_LENGTH + STRING_LENGTH_PREFIX) as int;
        &&& data.len() == tle + STRING_LENGTH_PREFIX + tb.len() + cb.len()
        &&& spec_u32_from_le_bytes(data.subrange(DISCRIMINATOR_LENGTH as int, tle)) == tb.len()
        &&& data.subrange(tle, tle + tb.len()) == tb
        &&& spec_u32_from_le_bytes(
            data.subrange(tle + tb.len(), tle + tb.len() + STRING_LENGTH_PREFIX as int),
        ) == cb.len()
        &&& data.subrange(tle + tb.len() + STRING_LENGTH_PREFIX as int, data.len() as int) == cb
        &&& valid_utf8(tb)
        &&& valid_utf8(cb)
        &&& decode_utf8(tb) == t
        &&& decode_utf8(cb) == c
    } by {
        let tb = encode_utf8(t);
        let cb = encode_utf8(c);
        let tle = (DISCRIMINATOR_LENGTH + STRING_LENGTH_PREFIX) as int;
        lemma_u32_le_bytes_roundtrip(tb.len() as u32);
        lemma_u32_le_bytes_roundtrip(cb.len() as u32);
        encode_utf8_valid_utf8(t);
        encode_utf8_valid_utf8(c);
        encode_utf8_decode_utf8(t);
        encode_utf8_decode_utf8(c);
        assert(data.subrange(DISCRIMINATOR_LENGTH as int, tle) =~= spec_u32_to_le_bytes(
            tb.len() as u32,
        ));
        assert(data.subrange(tle, tle + tb.len()) =~= tb);
        assert(data.subrange(tle + tb.len(), tle + tb.len() + STRING_LENGTH_PREFIX as int)
            =~= spec_u32_to_le_bytes(cb.len() as u32));
        assert(data.subrange(tle + tb.len() + STRING_LENGTH_PREFIX as int, data.len() as int)
            =~= cb);
    }
}


} // verus!
