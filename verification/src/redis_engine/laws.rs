//! Laws of the commands: what holds of every keyspace and every argument.
use vstd::prelude::*;
use crate::redis_engine::command_execution::hash::{FieldModel, HashModel};
use crate::redis_engine::command_execution::kvp::{
    del_reply, del_store, get_reply, rename_reply, rename_store,
    set_reply, set_store, KeyValueModel,
};
use crate::redis_engine::command_execution::list::{
    drop_matches, lemma_drop_matches_len, lindex_reply, list_items, llen_reply, lrem_items,
    lrem_reply, lrem_store, pop_reply, pop_store, push_store, resolve_index, ListModel,
};
use crate::redis_engine::json::JsonModel;
use crate::redis_engine::snapshot::{
    array_tree, assoc_from, decode_array, decode_document, decode_fields, decode_hashes,
    decode_lists, fields_tree, hashes_tree, lists_tree, member, scalar_text, StoreModel,
};
use crate::redis_engine::table::{
    assoc_del, assoc_distinct, assoc_get, assoc_map, assoc_put, lemma_assoc_index_is,
    lemma_assoc_index_none, lemma_get_after_del, lemma_get_after_put, lemma_get_entry,
    lemma_get_mapped, lemma_get_other_after_put, same_lookup,
};
use crate::redis_engine::util::{
    aggregate, all_digits, decimal, digits_value, join_words, lemma_split_of_join,
    parse_i32_spec, parse_usize_spec, quoted, space_free, Text,
};
use crate::redis_engine::{
    exec_reply, exec_store, family_of, fired_installed, fired_store, kvp_installed, kvp_reply,
    kvp_store, kvp_timer, still_due, ExecutionContext, Family, Installed,
};

verus! {

/// `llen` of a key that names no list replies `0`.
pub proof fn law_llen_of_absent_key(store: ListModel, key: Text)
    requires
        assoc_get(store, key) is None,
    ensures
        llen_reply(store, seq![key]) == Ok::<Text, Text>("0"@),
{
}

/// `llen` of one key never fails, and a key whose list is empty replies as a
/// key that names no list does.
pub proof fn law_llen_never_fails(store: ListModel, key: Text)
    ensures
        llen_reply(store, seq![key]) is Ok,
        list_items(store, key).len() == 0 ==> llen_reply(store, seq![key]) == Ok::<Text, Text>(
            "0"@,
        ),
{
    reveal_strlit("0");
    assert(decimal(0) =~= "0"@);
}

/// After `set` of a key, `get` of the key replies the bare value.
pub proof fn law_get_after_set(store: KeyValueModel, key: Text, value: Text)
    ensures
        set_reply(seq![key, value]) == Ok::<Text, Text>("Ok"@),
        get_reply(set_store(store, seq![key, value]), seq![key]) == Ok::<Text, Text>(value),
{
    lemma_get_after_put(store, key, value);
}

/// The command line `set KEY VALUE` followed by the command line `get KEY`
/// replies the bare value, for every key and value that hold no space.
pub proof fn law_exec_get_after_set(store: StoreModel, key: Text, value: Text)
    requires
        space_free(key),
        space_free(value),
    ensures
        exec_reply(store, join_words(seq!["set"@, key, value])) == Ok::<Text, Text>("Ok"@),
        exec_reply(
            exec_store(store, join_words(seq!["set"@, key, value])),
            join_words(seq!["get"@, key]),
        ) == Ok::<Text, Text>(value),
{
    reveal_strlit("set");
    reveal_strlit("get");
    reveal_strlit("echo");
    reveal_strlit("ping");
    reveal_strlit("flushall");
    let set = "set"@;
    let get = "get"@;
    assert(set.len() == 3 && get.len() == 3 && set[0] == 's' && get[0] == 'g');
    assert("echo"@.len() == 4 && "ping"@.len() == 4 && "flushall"@.len() == 8);
    assert(space_free(set)) by {
        assert(set[0] == 's' && set[1] == 'e' && set[2] == 't');
    }
    assert(space_free(get)) by {
        assert(get[0] == 'g' && get[1] == 'e' && get[2] == 't');
    }
    let set_words = seq![set, key, value];
    let get_words = seq![get, key];
    lemma_split_of_join(set_words);
    lemma_split_of_join(get_words);
    assert(set_words.skip(1) =~= seq![key, value]);
    assert(get_words.skip(1) =~= seq![key]);
    assert(family_of(set) == Some(Family::KeyValue));
    assert(family_of(get) == Some(Family::KeyValue));
    lemma_get_after_put(store.strings, key, value);
}

/// `del` and `unlink` of a key without a value reply `0` and leave the
/// keyspace as it is.
pub proof fn law_del_of_absent_key(store: KeyValueModel, key: Text, command: Text)
    requires
        assoc_get(store, key) is None,
    ensures
        del_reply(store, seq![key], command) == Ok::<Text, Text>("0"@),
        del_store(store, seq![key]) == store,
{
}

/// `del` and `unlink` of a key with a value reply `1`, and `get` of the key
/// then replies `(nil)`.
pub proof fn law_del_of_present_key(store: KeyValueModel, key: Text, command: Text)
    requires
        assoc_distinct(store),
        assoc_get(store, key) is Some,
    ensures
        del_reply(store, seq![key], command) == Ok::<Text, Text>("1"@),
        get_reply(del_store(store, seq![key]), seq![key]) == Ok::<Text, Text>("(nil)"@),
{
    lemma_get_after_del(store, key);
}

/// After `rename` of one key to another, `get` of the old key replies as for
/// a key without a value, and `get` of the new key replies the value that
/// the old key had.
pub proof fn law_get_after_rename(store: KeyValueModel, from: Text, to: Text, value: Text)
    requires
        assoc_distinct(store),
        assoc_get(store, from) == Some(value),
        from != to,
    ensures
        rename_reply(store, seq![from, to]) == Ok::<Text, Text>("Ok"@),
        get_reply(rename_store(store, seq![from, to]), seq![from]) == Ok::<Text, Text>("(nil)"@),
        get_reply(rename_store(store, seq![from, to]), seq![to]) == Ok::<Text, Text>(value),
{
    let without = assoc_del(store, from);
    lemma_get_after_del(store, from);
    lemma_get_other_after_put(without, to, value, from);
    lemma_get_after_put(without, to, value);
}

/// `1` read as seconds is the number one.
pub proof fn lemma_one_second()
    ensures
        parse_usize_spec("1"@) == Some(1usize),
{
    reveal_strlit("1");
    let one = "1"@;
    assert(one =~= seq!['1']);
    assert(one.drop_last() =~= Seq::<char>::empty());
    reveal_with_fuel(digits_value, 3);
    assert(all_digits(one));
    assert(digits_value(one) == 1);
}

/// `expire` of a key with a value replies `1`, starts a timer for the key
/// and installs the expiration of the timer for the key. `get` of the key
/// right after still replies the value. When the timer has run out the key
/// is taken out, and `get` of the key replies `(nil)`.
pub proof fn law_expire(
    store: KeyValueModel,
    installed: Installed,
    key: Text,
    value: Text,
    token: u64,
)
    requires
        assoc_distinct(store),
        assoc_get(store, key) == Some(value),
    ensures
        kvp_reply(store, "expire"@, seq![key, "1"@]) == Ok::<Text, Text>("1"@),
        kvp_timer(store, "expire"@, seq![key, "1"@], token) == Some((key, 1nat, token)),
        kvp_store(store, "expire"@, seq![key, "1"@]) == store,
        get_reply(store, seq![key]) == Ok::<Text, Text>(value),
        ({
            let after = kvp_installed(installed, store, "expire"@, seq![key, "1"@], token);
            &&& still_due(after, key, token)
            &&& get_reply(fired_store(store, after, key, token), seq![key]) == Ok::<Text, Text>(
                "(nil)"@,
            )
        }),
{
    reveal_strlit("expire");
    reveal_strlit("set");
    reveal_strlit("get");
    reveal_strlit("key");
    reveal_strlit("type");
    reveal_strlit("del");
    reveal_strlit("unlink");
    let expire = "expire"@;
    assert(expire.len() == 6 && expire[0] == 'e');
    assert("set"@.len() == 3 && "get"@.len() == 3 && "key"@.len() == 3 && "del"@.len() == 3);
    assert("type"@.len() == 4);
    assert("unlink"@.len() == 6 && "unlink"@[0] == 'u');
    lemma_one_second();
    lemma_get_after_put(installed, key, token);
    lemma_get_after_del(store, key);
}

/// The latest `expire` of a key wins: a timer of an earlier `expire` that
/// runs out takes nothing out and leaves the later expiration installed.
pub proof fn law_latest_expire_wins(
    store: KeyValueModel,
    installed: Installed,
    key: Text,
    earlier: u64,
    later: u64,
)
    requires
        earlier != later,
    ensures
        ({
            let after = assoc_put(assoc_put(installed, key, earlier), key, later);
            &&& fired_store(store, after, key, earlier) == store
            &&& fired_installed(after, key, earlier) == after
            &&& still_due(after, key, later)
        }),
{
    lemma_get_after_put(assoc_put(installed, key, earlier), key, later);
}

/// A timer that runs out for a key that has no expiration installed, as
/// after `del`, `unlink` or `rename` of the key, takes nothing out.
pub proof fn law_timer_without_expiration(
    store: KeyValueModel,
    installed: Installed,
    key: Text,
    token: u64,
)
    requires
        assoc_distinct(installed),
    ensures
        fired_store(store, assoc_del(installed, key), key, token) == store,
{
    lemma_get_after_del(installed, key);
}

/// `lrem` replies how many values it took out, and `llen` then replies the
/// length that is left. A count other than zero takes out no more values
/// than its magnitude.
pub proof fn law_lrem_count(store: ListModel, key: Text, count: Text, value: Text)
    requires
        assoc_get(store, key) is Some,
        parse_i32_spec(count) is Some,
    ensures
        ({
            let n = parse_i32_spec(count)->0 as int;
            let before = list_items(store, key);
            let after = lrem_items(before, n, value);
            &&& after.len() <= before.len()
            &&& n > 0 ==> before.len() - after.len() <= n
            &&& n < 0 ==> before.len() - after.len() <= -n
            &&& lrem_reply(store, seq![key, count, value]) == Ok::<Text, Text>(
                decimal((before.len() - after.len()) as nat),
            )
            &&& llen_reply(lrem_store(store, seq![key, count, value]), seq![key]) == Ok::<
                Text,
                Text,
            >(decimal(after.len()))
        }),
{
    let n = parse_i32_spec(count)->0 as int;
    let before = list_items(store, key);
    lemma_drop_matches_len(before, value, before.len());
    lemma_drop_matches_len(before, value, n as nat);
    lemma_drop_matches_len(before.reverse(), value, (-n) as nat);
    lemma_get_after_put(store, key, lrem_items(before, n, value));
}

/// After `rpush` of values to a key, the list under the key ends with the
/// values in the order given, and `lrem` with a negative count then takes
/// out no more values than its magnitude, replies how many it took, and
/// leaves a list of which `llen` replies the length.
pub proof fn law_lrem_after_rpush(
    store: ListModel,
    key: Text,
    values: Seq<Text>,
    count: Text,
    value: Text,
)
    requires
        values.len() >= 1,
        parse_i32_spec(count) is Some,
        parse_i32_spec(count)->0 < 0,
    ensures
        ({
            let pushed = push_store(store, seq![key] + values, false);
            let n = parse_i32_spec(count)->0 as int;
            let before = list_items(pushed, key);
            let after = lrem_items(before, n, value);
            &&& before == list_items(store, key) + values
            &&& before.len() - after.len() <= -n
            &&& lrem_reply(pushed, seq![key, count, value]) == Ok::<Text, Text>(
                decimal((before.len() - after.len()) as nat),
            )
            &&& llen_reply(lrem_store(pushed, seq![key, count, value]), seq![key]) == Ok::<
                Text,
                Text,
            >(decimal(after.len()))
        }),
{
    let args = seq![key] + values;
    assert(args.skip(1) =~= values);
    assert(args[0] == key);
    let pushed = push_store(store, args, false);
    match assoc_get(store, key) {
        Some(items) => {
            lemma_get_after_put(store, key, items + values);
        },
        None => {
            lemma_get_after_put(store, key, values);
            assert(Seq::<Text>::empty() + values =~= values);
        },
    }
    law_lrem_count(pushed, key, count, value);
}

/// `lrem` takes out only values equal to the one given: what it leaves,
/// without the values equal to that one, is the list without them.
pub proof fn law_lrem_keeps_other_values(items: Seq<Text>, count: int, value: Text)
    ensures
        others(lrem_items(items, count, value), value) == others(items, value),
{
    if count == 0 {
        lemma_others_after_drop(items, value, items.len());
    } else if count > 0 {
        lemma_others_after_drop(items, value, count as nat);
    } else {
        let back = items.reverse();
        lemma_others_after_drop(back, value, (-count) as nat);
        lemma_others_reverse(drop_matches(back, value, (-count) as nat), value);
        lemma_others_reverse(back, value);
        assert(back.reverse() =~= items);
    }
}

/// The values of a list that differ from `value`, in their order.
pub open spec fn others(items: Seq<Text>, value: Text) -> Seq<Text>
    decreases items.len(),
{
    if items.len() == 0 {
        items
    } else if items[0] == value {
        others(items.skip(1), value)
    } else {
        seq![items[0]] + others(items.skip(1), value)
    }
}

proof fn lemma_others_after_drop(items: Seq<Text>, value: Text, n: nat)
    ensures
        others(drop_matches(items, value, n), value) == others(items, value),
    decreases items.len(),
{
    if items.len() == 0 {
    } else if n > 0 && items[0] == value {
        lemma_others_after_drop(items.skip(1), value, (n - 1) as nat);
    } else {
        let rest = drop_matches(items.skip(1), value, n);
        let kept = seq![items[0]] + rest;
        lemma_others_after_drop(items.skip(1), value, n);
        assert(kept.skip(1) =~= rest);
    }
}

proof fn lemma_others_append(a: Seq<Text>, b: Seq<Text>, value: Text)
    ensures
        others(a + b, value) == others(a, value) + others(b, value),
    decreases a.len(),
{
    if a.len() == 0 {
        assert(a + b =~= b);
        assert(others(a, value) + others(b, value) =~= others(b, value));
    } else {
        assert((a + b).skip(1) =~= a.skip(1) + b);
        lemma_others_append(a.skip(1), b, value);
        if a[0] != value {
            assert(seq![a[0]] + (others(a.skip(1), value) + others(b, value)) =~= (seq![a[0]]
                + others(a.skip(1), value)) + others(b, value));
        }
    }
}

proof fn lemma_others_reverse(items: Seq<Text>, value: Text)
    ensures
        others(items.reverse(), value) == others(items, value).reverse(),
    decreases items.len(),
{
    if items.len() == 0 {
        assert(items.reverse() =~= items);
        assert(others(items, value).reverse() =~= others(items, value));
    } else {
        let rest = items.skip(1);
        let head = seq![items[0]];
        reveal_with_fuel(others, 3);
        lemma_others_reverse(rest, value);
        assert(items.reverse() =~= rest.reverse() + head);
        lemma_others_append(rest.reverse(), head, value);
        assert(head.skip(1) =~= Seq::<Text>::empty());
        if items[0] == value {
            assert(others(head, value) =~= Seq::<Text>::empty());
            assert(others(rest.reverse(), value) + Seq::<Text>::empty() =~= others(
                rest.reverse(),
                value,
            ));
        } else {
            assert(others(head, value) =~= head);
            assert((head + others(rest, value)).reverse() =~= others(rest, value).reverse()
                + head);
        }
    }
}

/// The index `-1` names the value that the last index from the head names,
/// and every index from the tail names the value that its counterpart from
/// the head names.
pub proof fn law_lindex_from_tail(store: ListModel, key: Text, back: Text, front: Text)
    requires
        parse_i32_spec(back) is Some,
        parse_i32_spec(front) is Some,
        parse_i32_spec(back)->0 < 0,
        parse_i32_spec(front)->0 >= 0,
        parse_i32_spec(front)->0 == list_items(store, key).len() + parse_i32_spec(back)->0,
    ensures
        lindex_reply(store, seq![key, back]) == lindex_reply(store, seq![key, front]),
        resolve_index(list_items(store, key).len(), -1) == resolve_index(
            list_items(store, key).len(),
            list_items(store, key).len() - 1,
        ),
{
}

/// An index beyond either end of the list makes `lindex` fail.
pub proof fn law_lindex_out_of_range(store: ListModel, key: Text, index: Text)
    requires
        parse_i32_spec(index) is Some,
        parse_i32_spec(index)->0 >= list_items(store, key).len() || parse_i32_spec(index)->0 < -(
        list_items(store, key).len() as int),
    ensures
        lindex_reply(store, seq![key, index]) == Err::<Text, Text>("[ERROR]: index out of range"@),
{
}

/// `lpop` without a count replies the head of the list, bare, and takes
/// it out.
pub proof fn law_lpop_one(store: ListModel, key: Text)
    requires
        list_items(store, key).len() >= 1,
    ensures
        pop_reply(store, seq![key], true) == Ok::<Text, Text>(list_items(store, key)[0]),
        list_items(pop_store(store, seq![key], true), key) == list_items(store, key).skip(1),
{
    let items = list_items(store, key);
    lemma_get_after_put(store, key, items.skip(1));
}

/// `lpop` with the count two replies the first two values of the list as an
/// aggregate, in the order in which they stood.
pub proof fn law_lpop_two(store: ListModel, key: Text, count: Text)
    requires
        list_items(store, key).len() >= 2,
        parse_usize_spec(count) == Some(2usize),
    ensures
        pop_reply(store, seq![key, count], true) == Ok::<Text, Text>(
            aggregate(seq![list_items(store, key)[0], list_items(store, key)[1]]),
        ),
        aggregate(seq![list_items(store, key)[0], list_items(store, key)[1]]) == seq!['[']
            + quoted(list_items(store, key)[0]) + seq![',', ' '] + quoted(
            list_items(store, key)[1],
        ) + seq![']'],
{
    let items = list_items(store, key);
    let two = seq![items[0], items[1]];
    assert(items.take(2) =~= two);
    assert(two.drop_last() =~= seq![items[0]]);
    reveal_with_fuel(crate::redis_engine::util::join_quoted, 3);
}

/// An object whose members have different names stands for its members as
/// they are.
pub proof fn lemma_assoc_from_distinct<T>(pairs: Seq<(Text, T)>)
    requires
        assoc_distinct(pairs),
    ensures
        assoc_from(pairs) == pairs,
    decreases pairs.len(),
{
    if pairs.len() > 0 {
        let front = pairs.drop_last();
        lemma_assoc_from_distinct(front);
        assert forall|j: int| 0 <= j < front.len() implies (#[trigger] front[j]).0
            != pairs.last().0 by {
            assert(front[j] == pairs[j]);
        }
        lemma_assoc_index_none(front, pairs.last().0);
        assert(front.push(pairs.last()) =~= pairs);
    }
}

/// The three sections of a snapshot under their names.
pub open spec fn document_tree(store: StoreModel) -> JsonModel {
    JsonModel::Object(
        seq![
            ("key_value_pairs"@, fields_tree(store.strings)),
            ("lists"@, lists_tree(store.lists)),
            ("hashes"@, hashes_tree(store.hashes)),
        ],
    )
}

/// Whether no key occurs twice in a keyspace, and no field twice in a hash.
pub open spec fn store_distinct(store: StoreModel) -> bool {
    &&& assoc_distinct(store.strings)
    &&& assoc_distinct(store.lists)
    &&& assoc_distinct(store.hashes)
    &&& forall|i: int| 0 <= i < store.hashes.len() ==> assoc_distinct((#[trigger] store.hashes[i]).1)
}

/// The keyspaces of a well-formed engine hold no key twice, and no field
/// twice in a hash: what the laws of the commands ask of a keyspace holds
/// of every keyspace that the engine can be in.
pub proof fn law_well_formed_is_distinct(context: &ExecutionContext)
    requires
        context.wf(),
    ensures
        store_distinct(context@),
{
    context.key_value_pairs.lemma_distinct();
    context.lists.lemma_distinct();
    context.hashes.lemma_distinct();
    let hashes = context@.hashes;
    assert forall|i: int| 0 <= i < hashes.len() implies assoc_distinct((#[trigger] hashes[i]).1) by {
        context.hashes.vals[i].lemma_distinct();
    }
}

/// The fields written as an object read back as they were.
pub proof fn lemma_fields_round_trip(fields: FieldModel)
    requires
        assoc_distinct(fields),
    ensures
        decode_fields(fields_tree(fields)) == Some(fields),
{
    let members = fields_tree(fields)->Object_0;
    let pairs = Seq::new(members.len(), |i: int| (members[i].0, scalar_text(members[i].1)->0));
    assert(pairs =~= fields);
    lemma_assoc_from_distinct(fields);
}

/// A list written as an array reads back as it was.
pub proof fn lemma_array_round_trip(items: Seq<Text>)
    ensures
        decode_array(array_tree(items)) == Some(items),
{
    let docs = array_tree(items)->Array_0;
    assert(Seq::new(docs.len(), |i: int| scalar_text(docs[i])->0) =~= items);
}

/// The snapshot document of the keyspaces reads back as the same keyspaces:
/// the same keys with the same values, the same lists in the same order, and
/// the same hashes with the same fields.
pub proof fn law_snapshot_round_trip(store: StoreModel)
    requires
        store_distinct(store),
    ensures
        decode_document(document_tree(store)) == Some(store),
{
    reveal_strlit("key_value_pairs");
    reveal_strlit("lists");
    reveal_strlit("hashes");
    let sections = document_tree(store)->Object_0;
    assert("key_value_pairs"@.len() == 15 && "lists"@.len() == 5 && "hashes"@.len() == 6);
    lemma_assoc_index_is(sections, "key_value_pairs"@, 0);
    lemma_assoc_index_is(sections, "lists"@, 1);
    lemma_assoc_index_is(sections, "hashes"@, 2);
    lemma_fields_round_trip(store.strings);

    let lists = lists_tree(store.lists)->Object_0;
    assert forall|i: int| 0 <= i < lists.len() implies decode_array((#[trigger] lists[i]).1)
        == Some(store.lists[i].1) by {
        lemma_array_round_trip(store.lists[i].1);
    }
    assert(Seq::new(lists.len(), |i: int| (lists[i].0, decode_array(lists[i].1)->0))
        =~= store.lists);
    lemma_assoc_from_distinct(store.lists);

    let hashes = hashes_tree(store.hashes)->Object_0;
    assert forall|i: int| 0 <= i < hashes.len() implies decode_fields((#[trigger] hashes[i]).1)
        == Some(store.hashes[i].1) by {
        lemma_fields_round_trip(store.hashes[i].1);
    }
    assert(Seq::new(hashes.len(), |i: int| (hashes[i].0, decode_fields(hashes[i].1)->0))
        =~= store.hashes);
    lemma_assoc_from_distinct(store.hashes);
}

/// Whether a document is an object that holds no name twice and holds under
/// every name what `other` holds under it: `other` with its members in
/// any order.
pub open spec fn same_members(doc: JsonModel, other: JsonModel) -> bool {
    &&& doc is Object
    &&& other is Object
    &&& assoc_distinct(doc->Object_0)
    &&& same_lookup(doc->Object_0, other->Object_0)
}

/// Whether a document is an object of objects that holds no name twice and
/// holds under every name the members that `other` holds under it, in any
/// order.
pub open spec fn same_nested_members(doc: JsonModel, other: JsonModel) -> bool {
    &&& doc is Object
    &&& other is Object
    &&& assoc_distinct(doc->Object_0)
    &&& forall|k: Text|
        match (
            #[trigger] assoc_get(doc->Object_0, k),
            assoc_get(other->Object_0, k),
        ) {
            (Some(x), Some(y)) => same_members(x, y),
            (None, None) => true,
            _ => false,
        }
}

/// Whether a document holds the three sections of the snapshot of the
/// keyspaces, the members of each object in any order.
pub open spec fn reordered_snapshot(doc: JsonModel, store: StoreModel) -> bool {
    &&& match member(doc, "key_value_pairs"@) {
        Some(section) => same_members(section, fields_tree(store.strings)),
        None => false,
    }
    &&& match member(doc, "lists"@) {
        Some(section) => same_members(section, lists_tree(store.lists)),
        None => false,
    }
    &&& match member(doc, "hashes"@) {
        Some(section) => same_nested_members(section, hashes_tree(store.hashes)),
        None => false,
    }
}

/// Whether two hash keyspaces hold the same hashes: under every key either
/// none, or fields with the same value under every name.
pub open spec fn same_hashes(a: HashModel, b: HashModel) -> bool {
    forall|k: Text|
        match (#[trigger] assoc_get(a, k), assoc_get(b, k)) {
            (Some(x), Some(y)) => same_lookup(x, y),
            (None, None) => true,
            _ => false,
        }
}

/// Whether two sets of keyspaces hold the same but for the order of keys and
/// fields: the same keys with the same values, the same lists in the same
/// order, the same hashes with the same fields.
pub open spec fn same_store(a: StoreModel, b: StoreModel) -> bool {
    &&& same_lookup(a.strings, b.strings)
    &&& same_lookup(a.lists, b.lists)
    &&& same_hashes(a.hashes, b.hashes)
}

/// An object that holds the fields in any order reads back as fields with
/// the same value under every name.
pub proof fn lemma_fields_reordered(doc: JsonModel, fields: FieldModel)
    requires
        same_members(doc, fields_tree(fields)),
    ensures
        decode_fields(doc) is Some,
        assoc_distinct(decode_fields(doc)->0),
        same_lookup(decode_fields(doc)->0, fields),
{
    let members = doc->Object_0;
    let wrap = |t: Text| JsonModel::Text(t);
    let unwrap = |d: JsonModel| scalar_text(d)->0;
    let written = fields_tree(fields)->Object_0;
    assert(written =~= assoc_map(fields, wrap));
    assert forall|i: int| 0 <= i < members.len() implies scalar_text((#[trigger] members[i]).1)
        is Some by {
        lemma_get_entry(members, i);
        lemma_get_mapped(fields, wrap, members[i].0);
    }
    let pairs = Seq::new(members.len(), |i: int| (members[i].0, scalar_text(members[i].1)->0));
    assert(pairs =~= assoc_map(members, unwrap));
    assert(assoc_distinct(pairs));
    lemma_assoc_from_distinct(pairs);
    assert forall|k: Text| assoc_get(pairs, k) == assoc_get(fields, k) by {
        lemma_get_mapped(members, unwrap, k);
        lemma_get_mapped(fields, wrap, k);
    }
}

/// An object that holds the lists in any order reads back as a keyspace
/// with the same list under every key.
pub proof fn lemma_lists_reordered(doc: JsonModel, lists: ListModel)
    requires
        same_members(doc, lists_tree(lists)),
    ensures
        decode_lists(doc) is Some,
        same_lookup(decode_lists(doc)->0, lists),
{
    let members = doc->Object_0;
    let wrap = |items: Seq<Text>| array_tree(items);
    let unwrap = |d: JsonModel| decode_array(d)->0;
    let written = lists_tree(lists)->Object_0;
    assert(written =~= assoc_map(lists, wrap));
    assert forall|i: int| 0 <= i < members.len() implies decode_array((#[trigger] members[i]).1)
        is Some by {
        lemma_get_entry(members, i);
        lemma_get_mapped(lists, wrap, members[i].0);
        let items = assoc_get(lists, members[i].0)->0;
        lemma_array_round_trip(items);
    }
    let pairs = Seq::new(members.len(), |i: int| (members[i].0, decode_array(members[i].1)->0));
    assert(pairs =~= assoc_map(members, unwrap));
    assert(assoc_distinct(pairs));
    lemma_assoc_from_distinct(pairs);
    assert forall|k: Text| assoc_get(pairs, k) == assoc_get(lists, k) by {
        lemma_get_mapped(members, unwrap, k);
        lemma_get_mapped(lists, wrap, k);
        if assoc_get(lists, k) is Some {
            lemma_array_round_trip(assoc_get(lists, k)->0);
        }
    }
}

/// An object that holds the hashes in any order, each with its fields in
/// any order, reads back as a keyspace with the same hashes.
pub proof fn lemma_hashes_reordered(doc: JsonModel, hashes: HashModel)
    requires
        same_nested_members(doc, hashes_tree(hashes)),
    ensures
        decode_hashes(doc) is Some,
        same_hashes(decode_hashes(doc)->0, hashes),
{
    let members = doc->Object_0;
    let wrap = |fields: FieldModel| fields_tree(fields);
    let unwrap = |d: JsonModel| decode_fields(d)->0;
    let written = hashes_tree(hashes)->Object_0;
    assert(written =~= assoc_map(hashes, wrap));
    assert forall|i: int| 0 <= i < members.len() implies decode_fields((#[trigger] members[i]).1)
        is Some by {
        lemma_get_entry(members, i);
        let k = members[i].0;
        lemma_get_mapped(hashes, wrap, k);
        assert(assoc_get(members, k) is Some);
        lemma_fields_reordered(members[i].1, assoc_get(hashes, k)->0);
    }
    let pairs = Seq::new(members.len(), |i: int| (members[i].0, decode_fields(members[i].1)->0));
    assert(pairs =~= assoc_map(members, unwrap));
    assert(assoc_distinct(pairs));
    lemma_assoc_from_distinct(pairs);
    assert forall|k: Text|
        match (#[trigger] assoc_get(pairs, k), assoc_get(hashes, k)) {
            (Some(x), Some(y)) => same_lookup(x, y),
            (None, None) => true,
            _ => false,
        } by {
        lemma_get_mapped(members, unwrap, k);
        lemma_get_mapped(hashes, wrap, k);
        assert(assoc_get(members, k) is Some || assoc_get(members, k) is None);
        if assoc_get(members, k) is Some {
            lemma_fields_reordered(assoc_get(members, k)->0, assoc_get(hashes, k)->0);
        }
    }
}

/// A document that holds the snapshot of the keyspaces with the members of
/// its objects in any order reads back as keyspaces that hold the same as
/// those that were written.
pub proof fn law_snapshot_round_trip_reordered(store: StoreModel, doc: JsonModel)
    requires
        reordered_snapshot(doc, store),
    ensures
        decode_document(doc) is Some,
        same_store(decode_document(doc)->0, store),
{
    lemma_fields_reordered(member(doc, "key_value_pairs"@)->0, store.strings);
    lemma_lists_reordered(member(doc, "lists"@)->0, store.lists);
    lemma_hashes_reordered(member(doc, "hashes"@)->0, store.hashes);
}

} // verus!
