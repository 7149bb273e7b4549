//! Commands on the hash keyspace.
use vstd::prelude::*;
use crate::redis_engine::command_execution::{reply_view, Reply, ReplyText};
use crate::redis_engine::table::{
    assoc_del, assoc_get, assoc_index, assoc_put, lemma_assoc_index, Table,
};
use crate::redis_engine::util::{
    aggregate, decimal, decimal_text, render_aggregate, RedisValue, Rendering, Text,
};

verus! {

/// The hash keyspace: each key names a table from fields to values.
pub type Hashes = Table<Table<RedisValue>>;

/// The fields of one hash as the contracts see them.
pub type FieldModel = Seq<(Text, Text)>;

/// The hash keyspace as the contracts see it.
pub type HashModel = Seq<(Text, FieldModel)>;

/// The invariant of the hash keyspace: no key twice, and no field twice
/// under one key.
pub open spec fn hash_wf(hash: &Hashes) -> bool {
    &&& hash.wf()
    &&& forall|i: int| 0 <= i < hash.vals.len() ==> (#[trigger] hash.vals[i]).wf()
}

/// The fields under `key`; a key without a hash names the empty one.
pub open spec fn hash_fields(store: HashModel, key: Text) -> FieldModel {
    match assoc_get(store, key) {
        Some(fields) => fields,
        None => Seq::empty(),
    }
}

/// The names of the fields, in the order of the fields.
pub open spec fn field_names(fields: FieldModel) -> Seq<Text> {
    Seq::new(fields.len(), |i: int| fields[i].0)
}

/// The values of the fields, in the order of the fields.
pub open spec fn field_values(fields: FieldModel) -> Seq<Text> {
    Seq::new(fields.len(), |i: int| fields[i].1)
}

/// Each field's name and then its value, in the order of the fields.
pub open spec fn field_pairs(fields: FieldModel) -> Seq<Text> {
    Seq::new(
        2 * fields.len(),
        |i: int|
            if i % 2 == 0 {
                fields[i / 2].0
            } else {
                fields[i / 2].1
            },
    )
}

/// The error of a hash command that got a wrong number of arguments.
pub open spec fn hash_usage(usage: Text) -> Text {
    "[ERROR]: wrong number of arguments. Usage: "@ + usage
}

/// Writes the error of a hash command that got a wrong number of arguments.
pub fn wrong_usage(usage: &str) -> (reply: Reply)
    ensures
        reply_view(reply) == Err::<Text, Text>(hash_usage(usage@)),
{
    let mut msg = "[ERROR]: wrong number of arguments. Usage: ".to_owned();
    msg.append(usage);
    Err(msg)
}

/// What `hget` replies: the bare value, or `(nil)` where the field has none.
pub open spec fn hget_reply(store: HashModel, args: Seq<Text>) -> ReplyText {
    if args.len() != 2 {
        Err(hash_usage("hget KEY FIELD"@))
    } else {
        match assoc_get(hash_fields(store, args[0]), args[1]) {
            Some(v) => Ok(v),
            None => Ok("(nil)"@),
        }
    }
}

/// `hget KEY FIELD`: the value of the field.
pub fn hget(hash: &mut Hashes, args: Vec<&str>) -> (reply: Reply)
    requires
        hash_wf(old(hash)),
    ensures
        *final(hash) == *old(hash),
        reply_view(reply) == hget_reply(old(hash).deep_view(), args.deep_view()),
{
    if args.len() != 2 {
        return wrong_usage("hget KEY FIELD");
    }
    match hash.position(args[0]) {
        Some(at) => match hash.vals[at].get(args[1]) {
            Some(v) => Ok(v.render(Rendering::Raw)),
            None => Ok("(nil)".to_owned()),
        },
        None => {
            assert(assoc_index(Seq::<(Text, Text)>::empty(), args[1]@) is None);
            Ok("(nil)".to_owned())
        },
    }
}

/// What `hexists` replies: `true` where the field has a value, else `false`.
pub open spec fn hexists_reply(store: HashModel, args: Seq<Text>) -> ReplyText {
    if args.len() != 2 {
        Err(hash_usage("hexists KEY FIELD"@))
    } else if assoc_get(hash_fields(store, args[0]), args[1]) is Some {
        Ok("true"@)
    } else {
        Ok("false"@)
    }
}

/// `hexists KEY FIELD`: whether the field has a value.
pub fn hexists(hash: &mut Hashes, args: Vec<&str>) -> (reply: Reply)
    requires
        hash_wf(old(hash)),
    ensures
        *final(hash) == *old(hash),
        reply_view(reply) == hexists_reply(old(hash).deep_view(), args.deep_view()),
{
    if args.len() != 2 {
        return wrong_usage("hexists KEY FIELD");
    }
    let present = match hash.position(args[0]) {
        Some(at) => hash.vals[at].contains_key(args[1]),
        None => {
            assert(assoc_index(Seq::<(Text, Text)>::empty(), args[1]@) is None);
            false
        },
    };
    if present {
        Ok("true".to_owned())
    } else {
        Ok("false".to_owned())
    }
}

/// What `hlen` replies: the number of fields.
pub open spec fn hlen_reply(store: HashModel, args: Seq<Text>) -> ReplyText {
    if args.len() != 1 {
        Err(hash_usage("hlen KEY"@))
    } else {
        Ok(decimal(hash_fields(store, args[0]).len()))
    }
}

/// `hlen KEY`: the number of fields under the key.
pub fn hlen(hash: &mut Hashes, args: Vec<&str>) -> (reply: Reply)
    requires
        hash_wf(old(hash)),
    ensures
        *final(hash) == *old(hash),
        reply_view(reply) == hlen_reply(old(hash).deep_view(), args.deep_view()),
{
    if args.len() != 1 {
        return wrong_usage("hlen KEY");
    }
    match hash.get(args[0]) {
        Some(fields) => Ok(decimal_text(fields.len())),
        None => Ok(decimal_text(0)),
    }
}

/// Which part of its fields a listing shows.
#[derive(Clone, Copy, Debug, PartialEq, Eq)]
pub enum Listing {
    /// The names of the fields.
    Names,
    /// The values of the fields.
    Values,
    /// Each field's name and then its value.
    Pairs,
}

/// The texts that a listing of the fields shows.
pub open spec fn listed(fields: FieldModel, what: Listing) -> Seq<Text> {
    match what {
        Listing::Names => field_names(fields),
        Listing::Values => field_values(fields),
        Listing::Pairs => field_pairs(fields),
    }
}

/// The usage line of a listing command.
pub open spec fn listing_usage(what: Listing) -> Text {
    match what {
        Listing::Names => "hkeys KEY"@,
        Listing::Values => "hvals KEY"@,
        Listing::Pairs => "hgetall KEY"@,
    }
}

/// What `hkeys`, `hvals` and `hgetall` reply: the aggregate of what they list.
pub open spec fn listing_reply(store: HashModel, args: Seq<Text>, what: Listing) -> ReplyText {
    if args.len() != 1 {
        Err(hash_usage(listing_usage(what)))
    } else {
        Ok(aggregate(listed(hash_fields(store, args[0]), what)))
    }
}

/// Collects what a listing of the fields shows.
pub fn list_fields(fields: &Table<RedisValue>, what: Listing) -> (out: Vec<RedisValue>)
    requires
        fields.wf(),
    ensures
        out.deep_view() == listed(fields.deep_view(), what),
{
    let ghost model = fields.deep_view();
    let mut out: Vec<RedisValue> = Vec::new();
    let mut i: usize = 0;
    while i < fields.keys.len()
        invariant
            i <= fields.keys.len(),
            fields.wf(),
            model == fields.deep_view(),
            what == Listing::Pairs ==> out.len() == 2 * i,
            what != Listing::Pairs ==> out.len() == i,
            forall|j: int| 0 <= j < out.len() ==> out[j]@ == listed(model, what)[j],
        decreases fields.keys.len() - i,
    {
        match what {
            Listing::Names => {
                out.push(RedisValue::from_str(fields.keys[i].as_str()));
            },
            Listing::Values => {
                out.push(fields.vals[i].clone());
            },
            Listing::Pairs => {
                out.push(RedisValue::from_str(fields.keys[i].as_str()));
                out.push(fields.vals[i].clone());
            },
        }
        i += 1;
    }
    assert(out.deep_view() =~= listed(model, what));
    out
}

/// Replies the aggregate of what a listing of the fields under the key shows.
fn listing(hash: &Hashes, args: &Vec<&str>, what: Listing) -> (reply: Reply)
    requires
        hash_wf(hash),
    ensures
        reply_view(reply) == listing_reply(hash.deep_view(), args.deep_view(), what),
{
    if args.len() != 1 {
        return wrong_usage(
            match what {
                Listing::Names => "hkeys KEY",
                Listing::Values => "hvals KEY",
                Listing::Pairs => "hgetall KEY",
            },
        );
    }
    let shown = match hash.position(args[0]) {
        Some(at) => list_fields(&hash.vals[at], what),
        None => {
            let none: Vec<RedisValue> = Vec::new();
            assert(none.deep_view() =~= listed(Seq::<(Text, Text)>::empty(), what));
            none
        },
    };
    Ok(render_aggregate(&shown))
}

/// `hkeys KEY`: the names of the fields under the key.
pub fn hkeys(hash: &mut Hashes, args: Vec<&str>) -> (reply: Reply)
    requires
        hash_wf(old(hash)),
    ensures
        *final(hash) == *old(hash),
        reply_view(reply) == listing_reply(old(hash).deep_view(), args.deep_view(), Listing::Names),
{
    listing(hash, &args, Listing::Names)
}

/// `hvals KEY`: the values of the fields under the key.
pub fn hvals(hash: &mut Hashes, args: Vec<&str>) -> (reply: Reply)
    requires
        hash_wf(old(hash)),
    ensures
        *final(hash) == *old(hash),
        reply_view(reply) == listing_reply(
            old(hash).deep_view(),
            args.deep_view(),
            Listing::Values,
        ),
{
    listing(hash, &args, Listing::Values)
}

/// `hgetall KEY`: each field under the key, its name and then its value.
pub fn hgetall(hash: &mut Hashes, args: Vec<&str>) -> (reply: Reply)
    requires
        hash_wf(old(hash)),
    ensures
        *final(hash) == *old(hash),
        reply_view(reply) == listing_reply(old(hash).deep_view(), args.deep_view(), Listing::Pairs),
{
    listing(hash, &args, Listing::Pairs)
}

/// The fields after each name of `pairs` got the value that follows it, one
/// pair after the other.
pub open spec fn put_fields(fields: FieldModel, pairs: Seq<Text>) -> FieldModel
    decreases pairs.len(),
{
    if pairs.len() < 2 {
        fields
    } else {
        let n = pairs.len();
        assoc_put(put_fields(fields, pairs.take(n - 2)), pairs[n - 2], pairs[n - 1])
    }
}

/// How many of the pairs made a field that was not there before.
pub open spec fn fresh_fields(fields: FieldModel, pairs: Seq<Text>) -> nat
    decreases pairs.len(),
{
    if pairs.len() < 2 {
        0
    } else {
        let n = pairs.len();
        let earlier = pairs.take(n - 2);
        fresh_fields(fields, earlier) + if assoc_get(put_fields(fields, earlier), pairs[n - 2])
            is None {
            1nat
        } else {
            0nat
        }
    }
}

/// Whether the arguments of `hset` and `hmset` are a key and then pairs.
pub open spec fn pairs_given(args: Seq<Text>) -> bool {
    args.len() >= 3 && args.len() % 2 == 1
}

/// The hash keyspace that `hset` and `hmset` leave.
pub open spec fn hset_store(store: HashModel, args: Seq<Text>) -> HashModel {
    if pairs_given(args) {
        assoc_put(store, args[0], put_fields(hash_fields(store, args[0]), args.skip(1)))
    } else {
        store
    }
}

/// What `hset` replies: how many fields are new.
pub open spec fn hset_reply(store: HashModel, args: Seq<Text>) -> ReplyText {
    if pairs_given(args) {
        Ok(decimal(fresh_fields(hash_fields(store, args[0]), args.skip(1))))
    } else {
        Err(hash_usage("hset KEY FIELD VALUE [FIELD VALUE ...]"@))
    }
}

/// What `hmset` replies.
pub open spec fn hmset_reply(args: Seq<Text>) -> ReplyText {
    if pairs_given(args) {
        Ok("Ok"@)
    } else {
        Err(hash_usage("hmset KEY FIELD VALUE [FIELD VALUE ...]"@))
    }
}

/// Takes the fields under the key out of the keyspace, or makes new ones,
/// and says where they stood.
fn take_fields(hash: &mut Hashes, key: &str) -> (out: (Table<RedisValue>, Option<usize>))
    requires
        hash_wf(old(hash)),
    ensures
        out.0.wf(),
        out.0.deep_view() == hash_fields(old(hash).deep_view(), key@),
        final(hash).wf(),
        final(hash).keys == old(hash).keys,
        final(hash).vals.len() == old(hash).vals.len(),
        match out.1 {
            Some(at) => {
                &&& at < old(hash).keys.len()
                &&& assoc_index(old(hash).deep_view(), key@) == Some(at as int)
                &&& old(hash).keys[at as int]@ == key@
                &&& forall|j: int|
                    0 <= j < final(hash).vals.len() && j != at ==> final(hash).vals[j] == old(
                        hash,
                    ).vals[j]
            },
            None => {
                &&& assoc_index(old(hash).deep_view(), key@) is None
                &&& *final(hash) == *old(hash)
                &&& forall|j: int| 0 <= j < old(hash).keys.len() ==> old(hash).keys[j]@ != key@
            },
        },
{
    match hash.position(key) {
        Some(at) => {
            let mut fields: Table<RedisValue> = Table::new();
            std::mem::swap(&mut fields, &mut hash.vals[at]);
            (fields, Some(at))
        },
        None => {
            proof {
                let model = hash.deep_view();
                lemma_assoc_index(model, key@);
                assert forall|j: int| 0 <= j < hash.keys.len() implies hash.keys[j]@ != key@ by {
                    assert(model[j].0 == hash.keys[j]@);
                }
            }
            (Table::new(), None)
        },
    }
}

/// Puts fields back under the key, at the place where they stood.
fn store_fields(hash: &mut Hashes, key: &str, at: Option<usize>, fields: Table<RedisValue>)
    requires
        old(hash).wf(),
        fields.wf(),
        forall|j: int|
            0 <= j < old(hash).vals.len() && Some(j as usize) != at ==> (#[trigger] old(
                hash,
            ).vals[j]).wf(),
        match at {
            Some(i) => i < old(hash).keys.len() && old(hash).keys[i as int]@ == key@,
            None => forall|j: int| 0 <= j < old(hash).keys.len() ==> old(hash).keys[j]@ != key@,
        },
    ensures
        hash_wf(final(hash)),
        final(hash).keys.len() == old(hash).keys.len() + if at is None {
            1int
        } else {
            0int
        },
        forall|j: int|
            0 <= j < old(hash).keys.len() ==> final(hash).keys[j] == old(hash).keys[j] && (Some(
                j as usize,
            ) != at ==> final(hash).vals[j] == old(hash).vals[j]),
        match at {
            Some(i) => final(hash).vals[i as int].deep_view() == fields.deep_view(),
            None => final(hash).keys@.last()@ == key@ && final(hash).vals@.last().deep_view()
                == fields.deep_view(),
        },
{
    match at {
        Some(i) => {
            hash.vals[i] = fields;
        },
        None => {
            hash.keys.push(key.to_owned());
            hash.vals.push(fields);
        },
    }
}

/// Gives each name among the arguments the value that follows it.
fn put_pairs(hash: &mut Hashes, args: &Vec<&str>) -> (fresh: usize)
    requires
        hash_wf(old(hash)),
        pairs_given(args.deep_view()),
    ensures
        hash_wf(final(hash)),
        final(hash).deep_view() == hset_store(old(hash).deep_view(), args.deep_view()),
        fresh == fresh_fields(hash_fields(old(hash).deep_view(), args[0]@), args.deep_view().skip(1)),
{
    let ghost before = hash.deep_view();
    let ghost pairs = args.deep_view().skip(1);
    let (mut fields, at) = take_fields(hash, args[0]);
    let ghost old_fields = fields.deep_view();
    let mut fresh: usize = 0;
    let mut i: usize = 1;
    assert(pairs.take(0) =~= Seq::<Text>::empty());
    while i < args.len()
        invariant
            1 <= i <= args.len(),
            i % 2 == 1,
            args.len() % 2 == 1,
            pairs == args.deep_view().skip(1),
            fields.wf(),
            fields.deep_view() == put_fields(old_fields, pairs.take(i - 1)),
            fresh == fresh_fields(old_fields, pairs.take(i - 1)),
            fresh <= i,
        decreases args.len() - i,
    {
        proof {
            let next = pairs.take(i + 1);
            assert(next.take(next.len() - 2) =~= pairs.take(i - 1));
            assert(next[next.len() - 2] == args[i as int]@);
            assert(next[next.len() - 1] == args[i + 1]@);
        }
        if fields.insert(args[i].to_owned(), RedisValue::from_str(args[i + 1])) {
            fresh += 1;
        }
        i += 2;
    }
    assert(pairs.take(args.len() - 1) =~= pairs);
    store_fields(hash, args[0], at, fields);
    proof {
        let after = hash.deep_view();
        let put = put_fields(old_fields, pairs);
        match at {
            Some(k) => {
                assert(after =~= before.update(k as int, (args[0]@, put)));
            },
            None => {
                assert(after =~= before.push((args[0]@, put)));
            },
        }
    }
    fresh
}

/// `hset KEY FIELD VALUE [FIELD VALUE ...]`: gives each field its value and
/// replies how many of the fields are new.
pub fn hset(hash: &mut Hashes, args: Vec<&str>) -> (reply: Reply)
    requires
        hash_wf(old(hash)),
    ensures
        hash_wf(final(hash)),
        final(hash).deep_view() == hset_store(old(hash).deep_view(), args.deep_view()),
        reply_view(reply) == hset_reply(old(hash).deep_view(), args.deep_view()),
{
    if args.len() < 3 || args.len() % 2 != 1 {
        return wrong_usage("hset KEY FIELD VALUE [FIELD VALUE ...]");
    }
    let fresh = put_pairs(hash, &args);
    Ok(decimal_text(fresh))
}

/// `hmset KEY FIELD VALUE [FIELD VALUE ...]`: gives each field its value.
pub fn hmset(hash: &mut Hashes, args: Vec<&str>) -> (reply: Reply)
    requires
        hash_wf(old(hash)),
    ensures
        hash_wf(final(hash)),
        final(hash).deep_view() == hset_store(old(hash).deep_view(), args.deep_view()),
        reply_view(reply) == hmset_reply(args.deep_view()),
{
    if args.len() < 3 || args.len() % 2 != 1 {
        return wrong_usage("hmset KEY FIELD VALUE [FIELD VALUE ...]");
    }
    let _ = put_pairs(hash, &args);
    Ok("Ok".to_owned())
}

/// The fields without those of the given names.
pub open spec fn del_fields(fields: FieldModel, names: Seq<Text>) -> FieldModel
    decreases names.len(),
{
    if names.len() == 0 {
        fields
    } else {
        assoc_del(del_fields(fields, names.drop_last()), names.last())
    }
}

/// How many of the names took a field out.
pub open spec fn gone_fields(fields: FieldModel, names: Seq<Text>) -> nat
    decreases names.len(),
{
    if names.len() == 0 {
        0
    } else {
        gone_fields(fields, names.drop_last()) + if assoc_get(
            del_fields(fields, names.drop_last()),
            names.last(),
        ) is Some {
            1nat
        } else {
            0nat
        }
    }
}

/// The hash keyspace that `hdel` leaves.
pub open spec fn hdel_store(store: HashModel, args: Seq<Text>) -> HashModel {
    if args.len() < 2 {
        store
    } else {
        match assoc_get(store, args[0]) {
            Some(fields) => assoc_put(store, args[0], del_fields(fields, args.skip(1))),
            None => store,
        }
    }
}

/// What `hdel` replies: how many fields it took out.
pub open spec fn hdel_reply(store: HashModel, args: Seq<Text>) -> ReplyText {
    if args.len() < 2 {
        Err(hash_usage("hdel KEY FIELD [FIELD ...]"@))
    } else {
        Ok(decimal(gone_fields(hash_fields(store, args[0]), args.skip(1))))
    }
}

/// Without fields there is nothing to take out.
pub proof fn lemma_nothing_to_delete(names: Seq<Text>)
    ensures
        del_fields(Seq::empty(), names) == Seq::<(Text, Text)>::empty(),
        gone_fields(Seq::empty(), names) == 0,
    decreases names.len(),
{
    if names.len() > 0 {
        lemma_nothing_to_delete(names.drop_last());
    }
}

/// `hdel KEY FIELD [FIELD ...]`: takes the fields out and replies how many
/// of them were there.
pub fn hdel(hash: &mut Hashes, args: Vec<&str>) -> (reply: Reply)
    requires
        hash_wf(old(hash)),
    ensures
        hash_wf(final(hash)),
        final(hash).deep_view() == hdel_store(old(hash).deep_view(), args.deep_view()),
        reply_view(reply) == hdel_reply(old(hash).deep_view(), args.deep_view()),
{
    if args.len() < 2 {
        return wrong_usage("hdel KEY FIELD [FIELD ...]");
    }
    let ghost before = hash.deep_view();
    let ghost names = args.deep_view().skip(1);
    let (mut fields, at) = take_fields(hash, args[0]);
    let at = match at {
        Some(at) => at,
        None => {
            proof {
                lemma_nothing_to_delete(names);
            }
            return Ok(decimal_text(0));
        },
    };
    let ghost old_fields = fields.deep_view();
    let mut gone: usize = 0;
    let mut i: usize = 1;
    assert(names.take(0) =~= Seq::<Text>::empty());
    while i < args.len()
        invariant
            1 <= i <= args.len(),
            names == args.deep_view().skip(1),
            fields.wf(),
            fields.deep_view() == del_fields(old_fields, names.take(i - 1)),
            gone == gone_fields(old_fields, names.take(i - 1)),
            gone <= i,
        decreases args.len() - i,
    {
        proof {
            let next = names.take(i as int);
            assert(next.drop_last() =~= names.take(i - 1));
            assert(next.last() == args[i as int]@);
        }
        if fields.remove(args[i]).is_some() {
            gone += 1;
        }
        i += 1;
    }
    assert(names.take(args.len() - 1) =~= names);
    store_fields(hash, args[0], Some(at), fields);
    assert(hash.deep_view() =~= before.update(
        at as int,
        (args[0]@, del_fields(old_fields, names)),
    ));
    Ok(decimal_text(gone))
}

} // verus!
