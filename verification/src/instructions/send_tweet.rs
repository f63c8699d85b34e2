//! The post instruction: input validation and the fields it persists.

use crate::constants::{MAX_CONTENT_CHARS, MAX_TOPIC_CHARS, PUBLIC_KEY_LENGTH};
use crate::errors::ErrorCode;
use crate::state::twitter::Tweet;
use vstd::prelude::*;
use vstd::slice::slice_to_vec;
use vstd::string::StrSliceExecFns;

verus! {

/// The account set of the post instruction, after the runtime has accepted
/// it: the record account being initialized and the signing author's key.
pub struct SendTweet {
    pub tweet: Tweet,
    pub author: Vec<u8>,
}

impl SendTweet {
    /// The author key has the key width.
    pub open spec fn wf(self) -> bool {
        self.author@.len() == PUBLIC_KEY_LENGTH
    }
}

/// The validation verdict on a topic and a content, measured in Unicode
/// scalar values.  Both bounds are inclusive, and an oversize topic is
/// reported ahead of an oversize content.
pub open spec fn spec_validate(topic: Seq<char>, content: Seq<char>) -> Result<(), ErrorCode> {
    if topic.len() > MAX_TOPIC_CHARS {
        Err(ErrorCode::TopicTooLong)
    } else if content.len() > MAX_CONTENT_CHARS {
        Err(ErrorCode::ContentTooLong)
    } else {
        Ok(())
    }
}

/// Validates the inputs and, on success, writes the author key, the clock's
/// timestamp, the topic and the content into the record.  A rejected input
/// leaves the accounts untouched.
pub fn send_tweet(ctx: &mut SendTweet, topic: String, content: String, now: i64) -> (r: Result<
    (),
    ErrorCode,
>)
    ensures
        r == spec_validate(topic@, content@),
        r is Err ==> *final(ctx) == *old(ctx),
        r is Ok ==> final(ctx).author@ == old(ctx).author@ && final(ctx).tweet.author@ == old(
            ctx,
        ).author@ && final(ctx).tweet.timestamp == now && final(ctx).tweet.topic@ == topic@
            && final(ctx).tweet.content@ == content@,
        old(ctx).wf() && r is Ok ==> final(ctx).wf() && final(ctx).tweet.wf(),
{
    if topic.as_str().unicode_len() > MAX_TOPIC_CHARS {
        return Err(ErrorCode::TopicTooLong);
    }
    if content.as_str().unicode_len() > MAX_CONTENT_CHARS {
        return Err(ErrorCode::ContentTooLong);
    }
    ctx.tweet.author = slice_to_vec(ctx.author.as_slice());
    ctx.tweet.timestamp = now;
    ctx.tweet.topic = topic;
    ctx.tweet.content = content;
    Ok(())
}

} // verus!
