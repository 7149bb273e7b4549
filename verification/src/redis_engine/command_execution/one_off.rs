//! Commands that touch no keyspace.
use vstd::prelude::*;
use crate::redis_engine::command_execution::{reply_view, Reply, ReplyText};
use crate::redis_engine::util::Text;

verus! {

/// What `echo` replies: its one argument.
pub open spec fn echo_reply(args: Seq<Text>) -> ReplyText {
    if args.len() < 1 {
        Err("Too few arguments for \"echo\""@)
    } else if args.len() > 1 {
        Err("Too many arguments for \"echo\""@)
    } else {
        Ok(args[0])
    }
}

/// What `ping` replies: `pong`, or its one argument.
pub open spec fn ping_reply(args: Seq<Text>) -> ReplyText {
    if args.len() == 1 {
        echo_reply(args)
    } else if args.len() == 0 {
        Ok("pong"@)
    } else {
        Err("Too many arguments for \"echo\""@)
    }
}

/// `echo TEXT`: replies the text.
pub fn echo(args: Vec<&str>) -> (reply: Reply)
    ensures
        reply_view(reply) == echo_reply(args.deep_view()),
{
    if args.len() < 1 {
        Err("Too few arguments for \"echo\"".to_owned())
    } else if args.len() > 1 {
        Err("Too many arguments for \"echo\"".to_owned())
    } else {
        Ok(args[0].to_owned())
    }
}

/// `ping [TEXT]`: replies `pong`, or the text where one is given.
pub fn ping(args: Vec<&str>) -> (reply: Reply)
    ensures
        reply_view(reply) == ping_reply(args.deep_view()),
{
    if args.len() == 1 {
        self::echo(args)
    } else if args.len() == 0 {
        Ok("pong".to_owned())
    } else {
        Err("Too many arguments for \"echo\"".to_owned())
    }
}

} // verus!
