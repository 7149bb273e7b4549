//! The command execution engine: the three keyspaces, the dispatcher that
//! routes a command line to its handler, and the snapshot of the whole state.
use vstd::prelude::*;
use crate::redis_engine::command_execution::hash::{hash_wf, Hashes};
use crate::redis_engine::command_execution::kvp::{
    KeyValueModel, KeyValuePairs, Timer, TimerModel,
};
use crate::redis_engine::command_execution::list::{List, ListModel};
use crate::redis_engine::command_execution::hash::HashModel;
use crate::redis_engine::command_execution::{hash, kvp, list, one_off};
use crate::redis_engine::command_execution::{reply_view, Reply, ReplyText};
use crate::redis_engine::json::{parse_json, pretty_json};
use crate::redis_engine::snapshot::{
    frame_snapshot, load_spec, read_document, save_spec, write_fields, write_hashes, write_lists,
    SnapshotError, StoreModel,
};
use crate::redis_engine::table::{assoc_del, assoc_get, assoc_put, Table};
use crate::redis_engine::util::{same_text, split_on_space, split_words, Text};

pub mod command_execution;
pub mod json;
pub mod laws;
pub mod snapshot;
pub mod table;
pub mod util;

verus! {

/// The snapshot file of a server in production.
pub const DUMP_FILE_NAME: &'static str = "dump.my_rdb";

/// The snapshot file of a server in debug mode.
pub const DEBUG_DUMP_FILE_NAME: &'static str = "debug_dump.my_rdb";

/// The contents of a new snapshot file: three sections without entries.
pub const EMPTY_DUMP: &'static str =
    "{\n    \"key_value_pairs\": {\n\n    },\n    \"lists\": {\n\n    },\n    \"hashes\": {\n\n    }\n}";

/// The three keyspaces. One key may at once name a string, a list and a hash.
pub struct ExecutionContext {
    pub key_value_pairs: KeyValuePairs,
    pub lists: List,
    pub hashes: Hashes,
}

impl View for ExecutionContext {
    type V = StoreModel;

    open spec fn view(&self) -> StoreModel {
        StoreModel {
            strings: self.key_value_pairs.deep_view(),
            lists: self.lists.deep_view(),
            hashes: self.hashes.deep_view(),
        }
    }
}

impl ExecutionContext {
    /// The invariant of the keyspaces: no key twice in one keyspace, and no
    /// field twice in one hash.
    pub open spec fn wf(&self) -> bool {
        &&& self.key_value_pairs.wf()
        &&& self.lists.wf()
        &&& hash_wf(&self.hashes)
    }

    /// Tests the invariant of the keyspaces.
    pub fn is_well_formed(&self) -> (good: bool)
        ensures
            good == self.wf(),
    {
        if !self.key_value_pairs.is_well_formed() || !self.lists.is_well_formed()
            || !self.hashes.is_well_formed() {
            return false;
        }
        let mut i: usize = 0;
        while i < self.hashes.vals.len()
            invariant
                i <= self.hashes.vals.len(),
                forall|j: int| 0 <= j < i ==> (#[trigger] self.hashes.vals[j]).wf(),
            decreases self.hashes.vals.len() - i,
        {
            if !self.hashes.vals[i].is_well_formed() {
                return false;
            }
            i += 1;
        }
        true
    }

    /// Three empty keyspaces.
    pub fn new() -> (context: Self)
        ensures
            context.wf(),
            context@ == (StoreModel {
                strings: Seq::empty(),
                lists: Seq::empty(),
                hashes: Seq::empty(),
            }),
    {
        ExecutionContext { key_value_pairs: Table::new(), lists: Table::new(), hashes: Table::new() }
    }

    /// Reads the keyspaces from the text of a snapshot.
    pub fn from_file_contents(text: &str) -> (out: Result<Self, SnapshotError>)
        ensures
            match out {
                Ok(context) => context.wf() && load_spec(text@) == Some(context@),
                Err(e) => load_spec(text@) is None && e == SnapshotError::Malformed,
            },
    {
        let doc = match parse_json(text) {
            Some(doc) => doc,
            None => {
                return Err(SnapshotError::Malformed);
            },
        };
        match read_document(&doc) {
            Some((key_value_pairs, lists, hashes)) => Ok(
                ExecutionContext { key_value_pairs, lists, hashes },
            ),
            None => Err(SnapshotError::Malformed),
        }
    }

    /// Writes the keyspaces as the text of a snapshot, and reads the text
    /// back as a check.
    pub fn to_string(&self) -> (out: Result<String, SnapshotError>)
        requires
            self.wf(),
        ensures
            match out {
                Ok(text) => save_spec(self@) == Ok::<Text, SnapshotError>(text@),
                Err(e) => save_spec(self@) == Err::<Text, SnapshotError>(e),
            },
    {
        let strings = pretty_json(&write_fields(&self.key_value_pairs));
        let lists = pretty_json(&write_lists(&self.lists));
        let hashes = pretty_json(&write_hashes(&self.hashes));
        let text = frame_snapshot(&strings, &lists, &hashes);
        match parse_json(text.as_str()) {
            Some(_) => Ok(text),
            None => Err(SnapshotError::Corrupted),
        }
    }
}

/// The four families of commands.
#[derive(Clone, Copy, Debug, PartialEq, Eq)]
pub enum Family {
    /// Commands that touch no keyspace.
    OneOff,
    /// Commands on the string keyspace.
    KeyValue,
    /// Commands on the list keyspace.
    List,
    /// Commands on the hash keyspace.
    Hash,
}

/// The family of a command name. Names are lower case; any other name
/// belongs to no family.
pub open spec fn family_of(name: Text) -> Option<Family> {
    if name == "echo"@ || name == "ping"@ || name == "flushall"@ {
        Some(Family::OneOff)
    } else if name == "set"@ || name == "get"@ || name == "key"@ || name == "type"@ || name
        == "del"@ || name == "unlink"@ || name == "expire"@ || name == "rename"@ {
        Some(Family::KeyValue)
    } else if name == "llen"@ || name == "lrem"@ || name == "lindex"@ || name == "lpop"@ || name
        == "rpop"@ || name == "lpush"@ || name == "rpush"@ || name == "lset"@ {
        Some(Family::List)
    } else if name == "hget"@ || name == "hexists"@ || name == "hdel"@ || name == "hgetall"@
        || name == "hkeys"@ || name == "hlen"@ || name == "hmset"@ || name == "hset"@ || name
        == "hvals"@ {
        Some(Family::Hash)
    } else {
        None
    }
}

/// Finds the family of a command name.
pub fn classify(name: &str) -> (family: Option<Family>)
    ensures
        family == family_of(name@),
{
    if same_text(name, "echo") || same_text(name, "ping") || same_text(name, "flushall") {
        Some(Family::OneOff)
    } else if same_text(name, "set") || same_text(name, "get") || same_text(name, "key")
        || same_text(name, "type") || same_text(name, "del") || same_text(name, "unlink")
        || same_text(name, "expire") || same_text(name, "rename") {
        Some(Family::KeyValue)
    } else if same_text(name, "llen") || same_text(name, "lrem") || same_text(name, "lindex")
        || same_text(name, "lpop") || same_text(name, "rpop") || same_text(name, "lpush")
        || same_text(name, "rpush") || same_text(name, "lset") {
        Some(Family::List)
    } else if same_text(name, "hget") || same_text(name, "hexists") || same_text(name, "hdel")
        || same_text(name, "hgetall") || same_text(name, "hkeys") || same_text(name, "hlen")
        || same_text(name, "hmset") || same_text(name, "hset") || same_text(name, "hvals") {
        Some(Family::Hash)
    } else {
        None
    }
}

/// What a command that touches no keyspace replies. `flushall` is accepted
/// and does nothing.
pub open spec fn one_off_reply(command: Text, args: Seq<Text>) -> ReplyText {
    if command == "echo"@ {
        one_off::echo_reply(args)
    } else if command == "ping"@ {
        one_off::ping_reply(args)
    } else {
        Ok("(nil)"@)
    }
}

/// What a command on the string keyspace replies.
pub open spec fn kvp_reply(store: KeyValueModel, command: Text, args: Seq<Text>) -> ReplyText {
    if command == "set"@ {
        kvp::set_reply(args)
    } else if command == "get"@ {
        kvp::get_reply(store, args)
    } else if command == "key"@ {
        kvp::key_reply(store, args)
    } else if command == "type"@ {
        kvp::type_reply(store, args)
    } else if command == "del"@ {
        kvp::del_reply(store, args, "del"@)
    } else if command == "unlink"@ {
        kvp::del_reply(store, args, "unlink"@)
    } else if command == "expire"@ {
        kvp::expire_reply(store, args)
    } else {
        kvp::rename_reply(store, args)
    }
}

/// The string keyspace that a command on it leaves.
pub open spec fn kvp_store(store: KeyValueModel, command: Text, args: Seq<Text>) -> KeyValueModel {
    if command == "set"@ {
        kvp::set_store(store, args)
    } else if command == "get"@ || command == "key"@ || command == "type"@ {
        store
    } else if command == "del"@ || command == "unlink"@ {
        kvp::del_store(store, args)
    } else if command == "expire"@ {
        store
    } else {
        kvp::rename_store(store, args)
    }
}

/// The removal that a command on the string keyspace asks for, where
/// `token` is the next expiration to install.
pub open spec fn kvp_timer(
    store: KeyValueModel,
    command: Text,
    args: Seq<Text>,
    token: u64,
) -> Option<TimerModel> {
    if command == "set"@ || command == "get"@ || command == "key"@ || command == "type"@
        || command == "del"@ || command == "unlink"@ {
        None
    } else if command == "expire"@ {
        kvp::expire_timer(store, args, token)
    } else {
        None
    }
}

/// The expirations as the contracts see them: the keys that have one
/// installed, each with its expiration.
pub type Installed = Seq<(Text, u64)>;

/// The expiration after `token`.
pub open spec fn token_after(token: u64) -> u64 {
    if token == u64::MAX {
        0
    } else {
        (token + 1) as u64
    }
}

/// The expirations that a command on the string keyspace leaves, where
/// `token` is the next one to install. An `expire` that asks for a removal
/// installs `token` for its key, in the place of the one that the key had;
/// `del`, `unlink` and `rename` drop the expiration of a key that they
/// leave without a value. Every other command leaves them as they are.
pub open spec fn kvp_installed(
    installed: Installed,
    store: KeyValueModel,
    command: Text,
    args: Seq<Text>,
    token: u64,
) -> Installed {
    if command == "set"@ || command == "get"@ || command == "key"@ || command == "type"@ {
        installed
    } else if command == "expire"@ {
        if kvp::expire_timer(store, args, token) is Some {
            assoc_put(installed, args[0], token)
        } else {
            installed
        }
    } else if args.len() >= 1 && assoc_get(kvp_store(store, command, args), args[0]) is None {
        assoc_del(installed, args[0])
    } else {
        installed
    }
}

/// The next expiration to install after a command on the string keyspace.
pub open spec fn kvp_next_token(
    store: KeyValueModel,
    command: Text,
    args: Seq<Text>,
    token: u64,
) -> u64 {
    if kvp_timer(store, command, args, token) is Some {
        token_after(token)
    } else {
        token
    }
}

/// Whether the removal that a timer stands for is still due: the key has the
/// expiration of the timer installed.
pub open spec fn still_due(installed: Installed, key: Text, token: u64) -> bool {
    assoc_get(installed, key) == Some(token)
}

/// The string keyspace after a timer with `token` for `key` has run out:
/// without the key where the removal is still due, as it was where not.
pub open spec fn fired_store(
    store: KeyValueModel,
    installed: Installed,
    key: Text,
    token: u64,
) -> KeyValueModel {
    if still_due(installed, key, token) {
        assoc_del(store, key)
    } else {
        store
    }
}

/// The expirations after a timer with `token` for `key` has run out.
pub open spec fn fired_installed(installed: Installed, key: Text, token: u64) -> Installed {
    if still_due(installed, key, token) {
        assoc_del(installed, key)
    } else {
        installed
    }
}

/// What a command on the list keyspace replies.
pub open spec fn list_reply(store: ListModel, command: Text, args: Seq<Text>) -> ReplyText {
    if command == "llen"@ {
        list::llen_reply(store, args)
    } else if command == "lrem"@ {
        list::lrem_reply(store, args)
    } else if command == "lindex"@ {
        list::lindex_reply(store, args)
    } else if command == "lpop"@ {
        list::pop_reply(store, args, true)
    } else if command == "rpop"@ {
        list::pop_reply(store, args, false)
    } else if command == "lpush"@ {
        list::lpush_reply(args)
    } else if command == "rpush"@ {
        list::rpush_reply(args)
    } else {
        list::lset_reply(store, args)
    }
}

/// The list keyspace that a command on it leaves.
pub open spec fn list_store(store: ListModel, command: Text, args: Seq<Text>) -> ListModel {
    if command == "llen"@ {
        store
    } else if command == "lrem"@ {
        list::lrem_store(store, args)
    } else if command == "lindex"@ {
        store
    } else if command == "lpop"@ {
        list::pop_store(store, args, true)
    } else if command == "rpop"@ {
        list::pop_store(store, args, false)
    } else if command == "lpush"@ {
        list::push_store(store, args, true)
    } else if command == "rpush"@ {
        list::push_store(store, args, false)
    } else {
        list::lset_store(store, args)
    }
}

/// What a command on the hash keyspace replies.
pub open spec fn hash_reply(store: HashModel, command: Text, args: Seq<Text>) -> ReplyText {
    if command == "hget"@ {
        hash::hget_reply(store, args)
    } else if command == "hexists"@ {
        hash::hexists_reply(store, args)
    } else if command == "hdel"@ {
        hash::hdel_reply(store, args)
    } else if command == "hgetall"@ {
        hash::listing_reply(store, args, hash::Listing::Pairs)
    } else if command == "hkeys"@ {
        hash::listing_reply(store, args, hash::Listing::Names)
    } else if command == "hlen"@ {
        hash::hlen_reply(store, args)
    } else if command == "hmset"@ {
        hash::hmset_reply(args)
    } else if command == "hset"@ {
        hash::hset_reply(store, args)
    } else {
        hash::listing_reply(store, args, hash::Listing::Values)
    }
}

/// The hash keyspace that a command on it leaves.
pub open spec fn hash_store(store: HashModel, command: Text, args: Seq<Text>) -> HashModel {
    if command == "hget"@ || command == "hexists"@ {
        store
    } else if command == "hdel"@ {
        hash::hdel_store(store, args)
    } else if command == "hgetall"@ || command == "hkeys"@ || command == "hlen"@ {
        store
    } else if command == "hmset"@ || command == "hset"@ {
        hash::hset_store(store, args)
    } else {
        store
    }
}

/// The name of the command of a line: its first word.
pub open spec fn command_name(line: Text) -> Text {
    split_on_space(line)[0]
}

/// The arguments of the command of a line: the words after the first.
pub open spec fn command_args(line: Text) -> Seq<Text> {
    split_on_space(line).skip(1)
}

/// What the engine replies to a command line.
pub open spec fn exec_reply(store: StoreModel, line: Text) -> ReplyText {
    let name = command_name(line);
    let args = command_args(line);
    match family_of(name) {
        Some(Family::OneOff) => one_off_reply(name, args),
        Some(Family::KeyValue) => kvp_reply(store.strings, name, args),
        Some(Family::List) => list_reply(store.lists, name, args),
        Some(Family::Hash) => hash_reply(store.hashes, name, args),
        None => Err("Unknown command \""@ + name + "\" provided."@),
    }
}

/// The keyspaces that a command line leaves.
pub open spec fn exec_store(store: StoreModel, line: Text) -> StoreModel {
    let name = command_name(line);
    let args = command_args(line);
    match family_of(name) {
        Some(Family::KeyValue) => StoreModel {
            strings: kvp_store(store.strings, name, args),
            ..store
        },
        Some(Family::List) => StoreModel { lists: list_store(store.lists, name, args), ..store },
        Some(Family::Hash) => StoreModel { hashes: hash_store(store.hashes, name, args), ..store },
        _ => store,
    }
}

/// The removal that a command line asks for, where `token` is the next
/// expiration to install.
pub open spec fn exec_timer(store: StoreModel, line: Text, token: u64) -> Option<TimerModel> {
    if family_of(command_name(line)) == Some(Family::KeyValue) {
        kvp_timer(store.strings, command_name(line), command_args(line), token)
    } else {
        None
    }
}

/// The expirations that a command line leaves.
pub open spec fn exec_installed(
    installed: Installed,
    store: StoreModel,
    line: Text,
    token: u64,
) -> Installed {
    if family_of(command_name(line)) == Some(Family::KeyValue) {
        kvp_installed(installed, store.strings, command_name(line), command_args(line), token)
    } else {
        installed
    }
}

/// The removals that are waiting, with one more where there is one.
pub open spec fn with_timer(timers: Seq<TimerModel>, timer: Option<TimerModel>) -> Seq<
    TimerModel,
> {
    match timer {
        Some(t) => timers.push(t),
        None => timers,
    }
}

/// The engine: the keyspaces, whether they were set up, where their
/// snapshot goes, the expiration that each key of the string keyspace has
/// installed, and the timers that `expire` started and that nobody has taken
/// over yet.
pub struct Executor {
    pub context: ExecutionContext,
    pub setup_properly: bool,
    pub dump_file_path: &'static str,
    /// The expiration installed for a key: that of its latest `expire`.
    pub expirations: Table<u64>,
    /// The expiration that the next `expire` installs.
    pub next_token: u64,
    pub timers: Vec<Timer>,
}

/// A snapshot to write: the file and its new contents.
pub struct Save {
    pub path: &'static str,
    pub contents: String,
}

/// The snapshot file of a mode.
pub open spec fn dump_file_of(debug_mode: bool) -> Text {
    if debug_mode {
        DEBUG_DUMP_FILE_NAME@
    } else {
        DUMP_FILE_NAME@
    }
}

/// Sets the engine up from what the snapshot file holds; `None` stands for a
/// file that does not exist yet, and gives empty keyspaces. Where the text
/// is no snapshot the engine comes back with `setup_properly` false.
pub fn setup_executor(debug_mode: bool, snapshot: Option<&str>) -> (executor: Executor)
    ensures
        executor.wf(),
        executor.timers@.len() == 0,
        executor.expirations.deep_view().len() == 0,
        executor.next_token == 0,
        match snapshot {
            None => executor.setup_properly && executor.context@ == (StoreModel {
                strings: Seq::empty(),
                lists: Seq::empty(),
                hashes: Seq::empty(),
            }) && executor.dump_file_path@ == dump_file_of(debug_mode),
            Some(text) => match load_spec(text@) {
                Some(store) => executor.setup_properly && executor.context@ == store
                    && executor.dump_file_path@ == dump_file_of(debug_mode),
                None => !executor.setup_properly && executor.dump_file_path@ == ""@,
            },
        },
{
    let dump_file_path = if debug_mode {
        DEBUG_DUMP_FILE_NAME
    } else {
        DUMP_FILE_NAME
    };
    match snapshot {
        None => Executor {
            context: ExecutionContext::new(),
            setup_properly: true,
            dump_file_path,
            expirations: Table::new(),
            next_token: 0,
            timers: Vec::new(),
        },
        Some(text) => match ExecutionContext::from_file_contents(text) {
            Ok(context) => Executor {
                context,
                setup_properly: true,
                dump_file_path,
                expirations: Table::new(),
                next_token: 0,
                timers: Vec::new(),
            },
            Err(_) => Executor::error_default(),
        },
    }
}

impl Executor {
    /// The invariant of the engine: that of its keyspaces, and no key with
    /// two expirations.
    pub open spec fn wf(&self) -> bool {
        self.context.wf() && self.expirations.wf()
    }

    /// Tests the invariant of the engine.
    pub fn is_well_formed(&self) -> (good: bool)
        ensures
            good == self.wf(),
    {
        self.context.is_well_formed() && self.expirations.is_well_formed()
    }

    /// The removals that are waiting, as the contracts see them.
    pub open spec fn waiting(&self) -> Seq<TimerModel> {
        Seq::new(
            self.timers.len() as nat,
            |i: int| (self.timers[i].key@, self.timers[i].seconds as nat, self.timers[i].token),
        )
    }

    /// The engine that could not be set up: empty, and marked as such.
    pub fn error_default() -> (executor: Self)
        ensures
            executor.wf(),
            !executor.setup_properly,
            executor.dump_file_path@ == ""@,
            executor.timers@.len() == 0,
            executor.expirations.deep_view().len() == 0,
            executor.next_token == 0,
            executor.context@ == (StoreModel {
                strings: Seq::empty(),
                lists: Seq::empty(),
                hashes: Seq::empty(),
            }),
    {
        Executor {
            context: ExecutionContext::new(),
            setup_properly: false,
            dump_file_path: "",
            expirations: Table::new(),
            next_token: 0,
            timers: Vec::new(),
        }
    }

    /// Runs a command that touches no keyspace.
    pub fn exec_one_off(&self, command: &str, args: Vec<&str>) -> (reply: Reply)
        requires
            family_of(command@) == Some(Family::OneOff),
        ensures
            reply_view(reply) == one_off_reply(command@, args.deep_view()),
    {
        if same_text(command, "echo") {
            one_off::echo(args)
        } else if same_text(command, "ping") {
            one_off::ping(args)
        } else {
            Ok("(nil)".to_owned())
        }
    }

    /// Runs a command on the string keyspace, and keeps the expirations
    /// in step with it.
    pub fn exec_kvp_command(&mut self, command: &str, args: Vec<&str>) -> (reply: Reply)
        requires
            old(self).wf(),
            family_of(command@) == Some(Family::KeyValue),
        ensures
            final(self).wf(),
            reply_view(reply) == kvp_reply(old(self).context@.strings, command@, args.deep_view()),
            final(self).context@ == (StoreModel {
                strings: kvp_store(old(self).context@.strings, command@, args.deep_view()),
                ..old(self).context@
            }),
            final(self).waiting() == with_timer(
                old(self).waiting(),
                kvp_timer(
                    old(self).context@.strings,
                    command@,
                    args.deep_view(),
                    old(self).next_token,
                ),
            ),
            final(self).expirations.deep_view() == kvp_installed(
                old(self).expirations.deep_view(),
                old(self).context@.strings,
                command@,
                args.deep_view(),
                old(self).next_token,
            ),
            final(self).next_token == kvp_next_token(
                old(self).context@.strings,
                command@,
                args.deep_view(),
                old(self).next_token,
            ),
            final(self).setup_properly == old(self).setup_properly,
            final(self).dump_file_path == old(self).dump_file_path,
    {
        let ghost before = self.waiting();
        let ctx = &mut self.context.key_value_pairs;
        if same_text(command, "set") {
            kvp::set(ctx, args)
        } else if same_text(command, "get") {
            kvp::get(ctx, args)
        } else if same_text(command, "key") {
            kvp::key(ctx, args)
        } else if same_text(command, "type") {
            kvp::type_of(ctx, args)
        } else if same_text(command, "expire") {
            proof {
                reveal_strlit("expire");
                reveal_strlit("del");
                reveal_strlit("unlink");
                assert("expire"@[0] == 'e' && "del"@[0] == 'd' && "unlink"@[0] == 'u');
            }
            let key: Option<String> = if args.len() >= 1 {
                Some(args[0].to_owned())
            } else {
                None
            };
            let token = self.next_token;
            let (reply, timer) = kvp::expire(ctx, args, token);
            match (timer, key) {
                (Some(t), Some(key)) => {
                    self.expirations.insert(key, token);
                    self.next_token = if token == u64::MAX {
                        0
                    } else {
                        token + 1
                    };
                    self.timers.push(t);
                    assert(self.waiting() =~= before.push((t.key@, t.seconds as nat, t.token)));
                },
                _ => {},
            }
            reply
        } else {
            let key: Option<String> = if args.len() >= 1 {
                Some(args[0].to_owned())
            } else {
                None
            };
            let reply = if same_text(command, "del") {
                kvp::del(ctx, args)
            } else if same_text(command, "unlink") {
                kvp::unlink(ctx, args)
            } else {
                kvp::rename(ctx, args)
            };
            match key {
                Some(key) => {
                    if !self.context.key_value_pairs.contains_key(key.as_str()) {
                        let _ = self.expirations.remove(key.as_str());
                    }
                },
                None => {},
            }
            reply
        }
    }

    /// Runs a command on the list keyspace.
    pub fn exec_list_command(&mut self, command: &str, args: Vec<&str>) -> (reply: Reply)
        requires
            old(self).wf(),
            family_of(command@) == Some(Family::List),
        ensures
            final(self).wf(),
            reply_view(reply) == list_reply(old(self).context@.lists, command@, args.deep_view()),
            final(self).context@ == (StoreModel {
                lists: list_store(old(self).context@.lists, command@, args.deep_view()),
                ..old(self).context@
            }),
            final(self).timers == old(self).timers,
            final(self).expirations == old(self).expirations,
            final(self).next_token == old(self).next_token,
            final(self).setup_properly == old(self).setup_properly,
            final(self).dump_file_path == old(self).dump_file_path,
    {
        let ctx = &mut self.context.lists;
        if same_text(command, "llen") {
            list::llen(ctx, args)
        } else if same_text(command, "lrem") {
            list::lrem(ctx, args)
        } else if same_text(command, "lindex") {
            list::lindex(ctx, args)
        } else if same_text(command, "lpop") {
            list::lpop(ctx, args)
        } else if same_text(command, "rpop") {
            list::rpop(ctx, args)
        } else if same_text(command, "lpush") {
            list::lpush(ctx, args)
        } else if same_text(command, "rpush") {
            list::rpush(ctx, args)
        } else {
            list::lset(ctx, args)
        }
    }

    /// Runs a command on the hash keyspace.
    pub fn exec_hash_command(&mut self, command: &str, args: Vec<&str>) -> (reply: Reply)
        requires
            old(self).wf(),
            family_of(command@) == Some(Family::Hash),
        ensures
            final(self).wf(),
            reply_view(reply) == hash_reply(old(self).context@.hashes, command@, args.deep_view()),
            final(self).context@ == (StoreModel {
                hashes: hash_store(old(self).context@.hashes, command@, args.deep_view()),
                ..old(self).context@
            }),
            final(self).timers == old(self).timers,
            final(self).expirations == old(self).expirations,
            final(self).next_token == old(self).next_token,
            final(self).setup_properly == old(self).setup_properly,
            final(self).dump_file_path == old(self).dump_file_path,
    {
        let ctx = &mut self.context.hashes;
        if same_text(command, "hget") {
            hash::hget(ctx, args)
        } else if same_text(command, "hexists") {
            hash::hexists(ctx, args)
        } else if same_text(command, "hdel") {
            hash::hdel(ctx, args)
        } else if same_text(command, "hgetall") {
            hash::hgetall(ctx, args)
        } else if same_text(command, "hkeys") {
            hash::hkeys(ctx, args)
        } else if same_text(command, "hlen") {
            hash::hlen(ctx, args)
        } else if same_text(command, "hmset") {
            hash::hmset(ctx, args)
        } else if same_text(command, "hset") {
            hash::hset(ctx, args)
        } else {
            hash::hvals(ctx, args)
        }
    }

    /// Runs one command line: splits it at single spaces, takes the first
    /// word as the name of the command and the others as its arguments, and
    /// hands them to the family of the command.
    pub fn exec(&mut self, command: String) -> (reply: Reply)
        requires
            old(self).wf(),
        ensures
            final(self).wf(),
            reply_view(reply) == exec_reply(old(self).context@, command@),
            final(self).context@ == exec_store(old(self).context@, command@),
            final(self).waiting() == with_timer(
                old(self).waiting(),
                exec_timer(old(self).context@, command@, old(self).next_token),
            ),
            final(self).expirations.deep_view() == exec_installed(
                old(self).expirations.deep_view(),
                old(self).context@,
                command@,
                old(self).next_token,
            ),
            final(self).next_token == (if exec_timer(
                old(self).context@,
                command@,
                old(self).next_token,
            ) is Some {
                token_after(old(self).next_token)
            } else {
                old(self).next_token
            }),
            final(self).setup_properly == old(self).setup_properly,
            final(self).dump_file_path == old(self).dump_file_path,
    {
        let mut words = split_words(command.as_str());
        proof {
            crate::redis_engine::util::lemma_split_nonempty(command@);
        }
        let ghost all = words.deep_view();
        let cmd_name = words.remove(0);
        let cmd_args = words;
        assert(cmd_args.deep_view() =~= all.skip(1));
        assert(cmd_name@ == all[0]);
        match classify(cmd_name) {
            Some(Family::OneOff) => self.exec_one_off(cmd_name, cmd_args),
            Some(Family::KeyValue) => self.exec_kvp_command(cmd_name, cmd_args),
            Some(Family::List) => self.exec_list_command(cmd_name, cmd_args),
            Some(Family::Hash) => self.exec_hash_command(cmd_name, cmd_args),
            None => {
                let mut msg = "Unknown command \"".to_owned();
                msg.append(cmd_name);
                msg.append("\" provided.");
                Err(msg)
            },
        }
    }

    /// Hands over the removals that `expire` asked for since the last call.
    /// Each is due its seconds from now: `expire_key` carries it out.
    pub fn take_timers(&mut self) -> (due: Vec<Timer>)
        ensures
            due == old(self).timers,
            final(self).timers@.len() == 0,
            final(self).context == old(self).context,
            final(self).expirations == old(self).expirations,
            final(self).next_token == old(self).next_token,
            final(self).setup_properly == old(self).setup_properly,
            final(self).dump_file_path == old(self).dump_file_path,
    {
        let mut due: Vec<Timer> = Vec::new();
        std::mem::swap(&mut due, &mut self.timers);
        due
    }

    /// What is due when a timer has run out: takes the key of the timer out
    /// of the string keyspace where the key still has the expiration of the
    /// timer installed, and says whether it took a value out. A key that got
    /// a later `expire`, or lost its value in between, stays as it is.
    pub fn expire_key(&mut self, key: &str, token: u64) -> (removed: bool)
        requires
            old(self).wf(),
        ensures
            final(self).wf(),
            final(self).context@ == (StoreModel {
                strings: fired_store(
                    old(self).context@.strings,
                    old(self).expirations.deep_view(),
                    key@,
                    token,
                ),
                ..old(self).context@
            }),
            final(self).expirations.deep_view() == fired_installed(
                old(self).expirations.deep_view(),
                key@,
                token,
            ),
            removed == (still_due(old(self).expirations.deep_view(), key@, token) && assoc_get(
                old(self).context@.strings,
                key@,
            ) is Some),
            final(self).timers == old(self).timers,
            final(self).next_token == old(self).next_token,
            final(self).setup_properly == old(self).setup_properly,
            final(self).dump_file_path == old(self).dump_file_path,
    {
        let due = match self.expirations.get(key) {
            Some(installed) => *installed == token,
            None => false,
        };
        if due {
            let _ = self.expirations.remove(key);
            kvp::expire_key(&mut self.context.key_value_pairs, key)
        } else {
            false
        }
    }

    /// What to write to save the keyspaces: the snapshot file and its new
    /// contents, or the error that no valid snapshot text came about.
    pub fn save(&self) -> (out: Result<Save, SnapshotError>)
        requires
            self.context.wf(),
        ensures
            match out {
                Ok(save) => save_spec(self.context@) == Ok::<Text, SnapshotError>(save.contents@)
                    && save.path == self.dump_file_path,
                Err(e) => save_spec(self.context@) == Err::<Text, SnapshotError>(e),
            },
    {
        match self.context.to_string() {
            Ok(contents) => Ok(Save { path: self.dump_file_path, contents }),
            Err(e) => Err(e),
        }
    }
}

} // verus!
