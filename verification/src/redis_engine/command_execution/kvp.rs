//! Commands on the string keyspace.
use vstd::prelude::*;
use crate::redis_engine::command_execution::{reply_view, Reply, ReplyText};
use crate::redis_engine::table::{assoc_del, assoc_get, assoc_put, Table};
use crate::redis_engine::util::{parse_usize, parse_usize_spec, RedisValue, Rendering, Text};

verus! {

/// The string keyspace: each key names one value.
pub type KeyValuePairs = Table<RedisValue>;

/// The string keyspace as the contracts see it.
pub type KeyValueModel = Seq<(Text, Text)>;

/// The error of a command that got another number of arguments than it takes.
pub open spec fn arity_error(command: Text, takes: Text) -> Text {
    "[ERROR]: \""@ + command + "\" accepts exactly "@ + takes
}

/// Writes the error of a command that got a wrong number of arguments.
pub fn wrong_arity(command: &str, takes: &str) -> (reply: Reply)
    ensures
        reply_view(reply) == Err::<Text, Text>(arity_error(command@, takes@)),
{
    let mut msg = "[ERROR]: \"".to_owned();
    msg.append(command);
    msg.append("\" accepts exactly ");
    msg.append(takes);
    Err(msg)
}

/// What `set` replies.
pub open spec fn set_reply(args: Seq<Text>) -> ReplyText {
    if args.len() != 2 {
        Err(arity_error("set"@, "two arguments"@))
    } else {
        Ok("Ok"@)
    }
}

/// The string keyspace that `set` leaves.
pub open spec fn set_store(store: KeyValueModel, args: Seq<Text>) -> KeyValueModel {
    if args.len() != 2 {
        store
    } else {
        assoc_put(store, args[0], args[1])
    }
}

/// `set KEY VALUE`: puts the value under the key.
pub fn set(kvps: &mut KeyValuePairs, args: Vec<&str>) -> (reply: Reply)
    requires
        old(kvps).wf(),
    ensures
        final(kvps).wf(),
        final(kvps).deep_view() == set_store(old(kvps).deep_view(), args.deep_view()),
        reply_view(reply) == set_reply(args.deep_view()),
{
    if args.len() != 2 {
        return wrong_arity("set", "two arguments");
    }
    kvps.insert(args[0].to_owned(), RedisValue::from_str(args[1]));
    Ok("Ok".to_owned())
}

/// What `get` replies: the bare value, or `(nil)` where the key has none.
pub open spec fn get_reply(store: KeyValueModel, args: Seq<Text>) -> ReplyText {
    if args.len() != 1 {
        Err(arity_error("get"@, "one argument"@))
    } else {
        match assoc_get(store, args[0]) {
            Some(v) => Ok(v),
            None => Ok("(nil)"@),
        }
    }
}

/// `get KEY`: the value under the key.
pub fn get(kvps: &mut KeyValuePairs, args: Vec<&str>) -> (reply: Reply)
    requires
        old(kvps).wf(),
    ensures
        *final(kvps) == *old(kvps),
        reply_view(reply) == get_reply(old(kvps).deep_view(), args.deep_view()),
{
    if args.len() != 1 {
        return wrong_arity("get", "one argument");
    }
    match kvps.get(args[0]) {
        Some(v) => Ok(v.render(Rendering::Raw)),
        None => Ok("(nil)".to_owned()),
    }
}

/// What `key` replies: `Ok` where the key has a value, `(nil)` where not.
pub open spec fn key_reply(store: KeyValueModel, args: Seq<Text>) -> ReplyText {
    if args.len() != 1 {
        Err(arity_error("key"@, "one argument"@))
    } else if assoc_get(store, args[0]) is Some {
        Ok("Ok"@)
    } else {
        Ok("(nil)"@)
    }
}

/// `key KEY`: whether the key has a value.
pub fn key(kvps: &mut KeyValuePairs, args: Vec<&str>) -> (reply: Reply)
    requires
        old(kvps).wf(),
    ensures
        *final(kvps) == *old(kvps),
        reply_view(reply) == key_reply(old(kvps).deep_view(), args.deep_view()),
{
    if args.len() != 1 {
        return wrong_arity("key", "one argument");
    }
    if kvps.contains_key(args[0]) {
        Ok("Ok".to_owned())
    } else {
        Ok("(nil)".to_owned())
    }
}

/// What `type` replies: `string` where the key has a value, `none` where not.
pub open spec fn type_reply(store: KeyValueModel, args: Seq<Text>) -> ReplyText {
    if args.len() != 1 {
        Err(arity_error("type"@, "one argument"@))
    } else if assoc_get(store, args[0]) is Some {
        Ok("string"@)
    } else {
        Ok("none"@)
    }
}

/// `type KEY`: the kind of value under the key.
pub fn type_of(kvps: &mut KeyValuePairs, args: Vec<&str>) -> (reply: Reply)
    requires
        old(kvps).wf(),
    ensures
        *final(kvps) == *old(kvps),
        reply_view(reply) == type_reply(old(kvps).deep_view(), args.deep_view()),
{
    if args.len() != 1 {
        return wrong_arity("type", "one argument");
    }
    if kvps.contains_key(args[0]) {
        Ok("string".to_owned())
    } else {
        Ok("none".to_owned())
    }
}

/// What `del` and `unlink` reply: how many keys they took out.
pub open spec fn del_reply(store: KeyValueModel, args: Seq<Text>, command: Text) -> ReplyText {
    if args.len() != 1 {
        Err(arity_error(command, "one argument"@))
    } else if assoc_get(store, args[0]) is Some {
        Ok("1"@)
    } else {
        Ok("0"@)
    }
}

/// The string keyspace that `del` and `unlink` leave.
pub open spec fn del_store(store: KeyValueModel, args: Seq<Text>) -> KeyValueModel {
    if args.len() != 1 {
        store
    } else {
        assoc_del(store, args[0])
    }
}

/// Takes the key of `args` out of the keyspace.
fn delete(kvps: &mut KeyValuePairs, args: &Vec<&str>, command: &str) -> (reply: Reply)
    requires
        old(kvps).wf(),
    ensures
        final(kvps).wf(),
        final(kvps).deep_view() == del_store(old(kvps).deep_view(), args.deep_view()),
        reply_view(reply) == del_reply(old(kvps).deep_view(), args.deep_view(), command@),
{
    if args.len() != 1 {
        return wrong_arity(command, "one argument");
    }
    match kvps.remove(args[0]) {
        Some(_) => Ok("1".to_owned()),
        None => Ok("0".to_owned()),
    }
}

/// `del KEY`: takes the key and its value out.
pub fn del(kvps: &mut KeyValuePairs, args: Vec<&str>) -> (reply: Reply)
    requires
        old(kvps).wf(),
    ensures
        final(kvps).wf(),
        final(kvps).deep_view() == del_store(old(kvps).deep_view(), args.deep_view()),
        reply_view(reply) == del_reply(old(kvps).deep_view(), args.deep_view(), "del"@),
{
    delete(kvps, &args, "del")
}

/// `unlink KEY`: takes the key and its value out, as `del` does.
pub fn unlink(kvps: &mut KeyValuePairs, args: Vec<&str>) -> (reply: Reply)
    requires
        old(kvps).wf(),
    ensures
        final(kvps).wf(),
        final(kvps).deep_view() == del_store(old(kvps).deep_view(), args.deep_view()),
        reply_view(reply) == del_reply(old(kvps).deep_view(), args.deep_view(), "unlink"@),
{
    delete(kvps, &args, "unlink")
}

/// What `rename` replies.
pub open spec fn rename_reply(store: KeyValueModel, args: Seq<Text>) -> ReplyText {
    if args.len() != 2 {
        Err(arity_error("rename"@, "two arguments"@))
    } else if assoc_get(store, args[0]) is Some {
        Ok("Ok"@)
    } else {
        Err("[ERROR]: no such key"@)
    }
}

/// The string keyspace that `rename` leaves: the value of the old key stands
/// under the new key, and the old key has none.
pub open spec fn rename_store(store: KeyValueModel, args: Seq<Text>) -> KeyValueModel {
    if args.len() != 2 {
        store
    } else {
        match assoc_get(store, args[0]) {
            Some(v) => assoc_put(assoc_del(store, args[0]), args[1], v),
            None => store,
        }
    }
}

/// `rename OLD NEW`: moves the value of one key to another.
pub fn rename(kvps: &mut KeyValuePairs, args: Vec<&str>) -> (reply: Reply)
    requires
        old(kvps).wf(),
    ensures
        final(kvps).wf(),
        final(kvps).deep_view() == rename_store(old(kvps).deep_view(), args.deep_view()),
        reply_view(reply) == rename_reply(old(kvps).deep_view(), args.deep_view()),
{
    if args.len() != 2 {
        return wrong_arity("rename", "two arguments");
    }
    match kvps.remove(args[0]) {
        Some(v) => {
            kvps.insert(args[1].to_owned(), v);
            Ok("Ok".to_owned())
        },
        None => Err("[ERROR]: no such key".to_owned()),
    }
}

/// A removal that is due some time after an `expire`.
pub struct Timer {
    /// The key to take out.
    pub key: String,
    /// The seconds to wait before taking it out.
    pub seconds: usize,
    /// The expiration that was installed for the key when the timer started.
    pub token: u64,
}

/// A timer as the contracts see it: the key, the seconds and the expiration.
pub type TimerModel = (Text, nat, u64);

/// What `expire` replies: `1` where the key has a value, `0` where not.
pub open spec fn expire_reply(store: KeyValueModel, args: Seq<Text>) -> ReplyText {
    if args.len() != 2 {
        Err(arity_error("expire"@, "two arguments"@))
    } else if parse_usize_spec(args[1]) is None {
        Err("[ERROR]: ttl value is not an integer. Usage: expire KEY SECONDS"@)
    } else if assoc_get(store, args[0]) is Some {
        Ok("1"@)
    } else {
        Ok("0"@)
    }
}

/// The removal that `expire` asks for: one where the key has a value, and
/// none where the key has no value or the command fails.
pub open spec fn expire_timer(store: KeyValueModel, args: Seq<Text>, token: u64) -> Option<
    TimerModel,
> {
    if args.len() == 2 && parse_usize_spec(args[1]) is Some && assoc_get(store, args[0]) is Some {
        Some((args[0], parse_usize_spec(args[1])->0 as nat, token))
    } else {
        None
    }
}

/// A timer as the contracts see it.
pub open spec fn timer_view(timer: Option<Timer>) -> Option<TimerModel> {
    match timer {
        Some(t) => Some((t.key@, t.seconds as nat, t.token)),
        None => None,
    }
}

/// `expire KEY SECONDS`: asks for the key to be taken out after the seconds.
/// The keyspace stays as it is: the reply does not wait, and the removal is
/// due when the timer that comes back, which carries `token`, has run out.
pub fn expire(kvps: &mut KeyValuePairs, args: Vec<&str>, token: u64) -> (out: (
    Reply,
    Option<Timer>,
))
    requires
        old(kvps).wf(),
    ensures
        *final(kvps) == *old(kvps),
        reply_view(out.0) == expire_reply(old(kvps).deep_view(), args.deep_view()),
        timer_view(out.1) == expire_timer(old(kvps).deep_view(), args.deep_view(), token),
{
    if args.len() != 2 {
        return (wrong_arity("expire", "two arguments"), None);
    }
    let seconds = match parse_usize(args[1]) {
        Some(s) => s,
        None => {
            return (
                Err("[ERROR]: ttl value is not an integer. Usage: expire KEY SECONDS".to_owned()),
                None,
            );
        },
    };
    if kvps.contains_key(args[0]) {
        (Ok("1".to_owned()), Some(Timer { key: args[0].to_owned(), seconds, token }))
    } else {
        (Ok("0".to_owned()), None)
    }
}

/// Takes the key out where it has a value, and says whether it did: what a
/// removal that is due does to the keyspace.
pub fn expire_key(kvps: &mut KeyValuePairs, key: &str) -> (removed: bool)
    requires
        old(kvps).wf(),
    ensures
        final(kvps).wf(),
        final(kvps).deep_view() == assoc_del(old(kvps).deep_view(), key@),
        removed == assoc_get(old(kvps).deep_view(), key@).is_some(),
{
    kvps.remove(key).is_some()
}

} // verus!
