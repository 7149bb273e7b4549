//! The command handlers, one module for each family of commands.
use vstd::prelude::*;
use crate::redis_engine::util::Text;

pub mod hash;
pub mod kvp;
pub mod list;
pub mod one_off;

verus! {

/// What a command hands back: the text of its reply, or the text of its error.
pub type Reply = Result<String, String>;

/// A reply as the contracts see it.
pub type ReplyText = Result<Text, Text>;

/// The texts that a reply holds.
pub open spec fn reply_view(r: Reply) -> ReplyText {
    match r {
        Ok(s) => Ok(s@),
        Err(e) => Err(e@),
    }
}

} // verus!
