//! Commands on the list keyspace.
use vstd::prelude::*;
use crate::redis_engine::command_execution::{reply_view, Reply, ReplyText};
use crate::redis_engine::table::{assoc_get, assoc_put, Table};
use crate::redis_engine::util::{
    aggregate, decimal, decimal_text, parse_i32, parse_i32_spec, parse_usize, parse_usize_spec,
    quoted, render_aggregate, same_text, RedisValue, Rendering, Text,
};

verus! {

/// The list keyspace: each key names a sequence of values.
pub type List = Table<Vec<RedisValue>>;

/// The list keyspace as the contracts see it.
pub type ListModel = Seq<(Text, Seq<Text>)>;

/// The list under `key`; a key without a list names the empty list.
pub open spec fn list_items(store: ListModel, key: Text) -> Seq<Text> {
    match assoc_get(store, key) {
        Some(items) => items,
        None => Seq::empty(),
    }
}

/// What `llen` replies.
pub open spec fn llen_reply(store: ListModel, args: Seq<Text>) -> ReplyText {
    if args.len() != 1 {
        Err("[ERROR]: \"llen\" accepts only one argument"@)
    } else {
        match assoc_get(store, args[0]) {
            Some(items) => Ok(decimal(items.len())),
            None => Ok("0"@),
        }
    }
}

/// `llen KEY`: the length of the list under the key.
pub fn llen(list: &mut List, args: Vec<&str>) -> (reply: Reply)
    requires
        old(list).wf(),
    ensures
        *final(list) == *old(list),
        reply_view(reply) == llen_reply(old(list).deep_view(), args.deep_view()),
{
    if args.len() != 1 {
        return Err("[ERROR]: \"llen\" accepts only one argument".to_owned());
    }
    match list.get(args[0]) {
        Some(items) => {
            assert(items.deep_view().len() == items.len());
            Ok(decimal_text(items.len()))
        },
        None => Ok("0".to_owned()),
    }
}

/// The values that the arguments from position `from` on write.
pub fn values_of(args: &Vec<&str>, from: usize) -> (values: Vec<RedisValue>)
    requires
        from <= args.len(),
    ensures
        values.deep_view() == args.deep_view().skip(from as int),
{
    let mut values: Vec<RedisValue> = Vec::new();
    let mut i: usize = from;
    while i < args.len()
        invariant
            from <= i <= args.len(),
            values.deep_view() == args.deep_view().subrange(from as int, i as int),
        decreases args.len() - i,
    {
        let ghost before = values.deep_view();
        values.push(RedisValue::from_str(args[i]));
        assert(values.deep_view() =~= before.push(args[i as int]@));
        assert(before.push(args[i as int]@) =~= args.deep_view().subrange(from as int, i + 1));
        i += 1;
    }
    assert(args.deep_view().subrange(from as int, args.len() as int) =~= args.deep_view().skip(
        from as int,
    ));
    values
}

/// The list keyspace after a push: the new values before (`at_head`) or
/// after the list under the key, in the order in which they were given.
pub open spec fn push_store(store: ListModel, args: Seq<Text>, at_head: bool) -> ListModel {
    if args.len() < 2 {
        store
    } else {
        let added = args.skip(1);
        match assoc_get(store, args[0]) {
            Some(items) => assoc_put(
                store,
                args[0],
                if at_head {
                    added + items
                } else {
                    items + added
                },
            ),
            None => assoc_put(store, args[0], added),
        }
    }
}

/// What `lpush` replies.
pub open spec fn lpush_reply(args: Seq<Text>) -> ReplyText {
    if args.len() < 2 {
        Err("[ERROR]: At least two arguments required for \"llen\"!"@)
    } else {
        Ok(decimal((args.len() - 1) as nat))
    }
}

/// What `rpush` replies.
pub open spec fn rpush_reply(args: Seq<Text>) -> ReplyText {
    if args.len() < 2 {
        Err("[ERROR]: At least two arguments required for \"rpush\"!"@)
    } else {
        Ok(decimal((args.len() - 1) as nat))
    }
}

/// Puts the values of `args` before or after the list under the key.
fn push_values(list: &mut List, args: &Vec<&str>, at_head: bool)
    requires
        old(list).wf(),
        args.len() >= 2,
    ensures
        final(list).wf(),
        final(list).deep_view() == push_store(old(list).deep_view(), args.deep_view(), at_head),
{
    let mut added = values_of(args, 1);
    let ghost before = list.deep_view();
    let ghost new_items = added.deep_view();
    match list.position(args[0]) {
        Some(i) => {
            let ghost old_items = list.vals[i as int].deep_view();
            let slot = &mut list.vals[i];
            if at_head {
                added.append(slot);
                *slot = added;
                assert(slot.deep_view() =~= new_items + old_items);
            } else {
                slot.append(&mut added);
                assert(slot.deep_view() =~= old_items + new_items);
            }
            assert(list.deep_view() =~= before.update(
                i as int,
                (args[0]@, list.vals[i as int].deep_view()),
            ));
        },
        None => {
            list.insert(args[0].to_owned(), added);
        },
    }
}

/// `lpush KEY VALUE [VALUE ...]`: puts the values, in the order given, before
/// the list under the key, and replies how many values came in.
pub fn lpush(list: &mut List, args: Vec<&str>) -> (reply: Reply)
    requires
        old(list).wf(),
    ensures
        final(list).wf(),
        final(list).deep_view() == push_store(old(list).deep_view(), args.deep_view(), true),
        reply_view(reply) == lpush_reply(args.deep_view()),
{
    if args.len() < 2 {
        return Err("[ERROR]: At least two arguments required for \"llen\"!".to_owned());
    }
    push_values(list, &args, true);
    Ok(decimal_text(args.len() - 1))
}

/// `rpush KEY VALUE [VALUE ...]`: puts the values, in the order given, after
/// the list under the key, and replies how many values came in.
pub fn rpush(list: &mut List, args: Vec<&str>) -> (reply: Reply)
    requires
        old(list).wf(),
    ensures
        final(list).wf(),
        final(list).deep_view() == push_store(old(list).deep_view(), args.deep_view(), false),
        reply_view(reply) == rpush_reply(args.deep_view()),
{
    if args.len() < 2 {
        return Err("[ERROR]: At least two arguments required for \"rpush\"!".to_owned());
    }
    push_values(list, &args, false);
    Ok(decimal_text(args.len() - 1))
}

/// `items` without the first `n` values equal to `value`, counted from the head.
pub open spec fn drop_matches(items: Seq<Text>, value: Text, n: nat) -> Seq<Text>
    decreases items.len(),
{
    if items.len() == 0 {
        items
    } else if n > 0 && items[0] == value {
        drop_matches(items.skip(1), value, (n - 1) as nat)
    } else {
        seq![items[0]] + drop_matches(items.skip(1), value, n)
    }
}

/// The list that `lrem` leaves. A count of zero takes out every value equal
/// to `value`, a positive count the first `count` of them from the head, a
/// negative count the first `-count` of them from the tail.
pub open spec fn lrem_items(items: Seq<Text>, count: int, value: Text) -> Seq<Text> {
    if count == 0 {
        drop_matches(items, value, items.len())
    } else if count > 0 {
        drop_matches(items, value, count as nat)
    } else {
        drop_matches(items.reverse(), value, (-count) as nat).reverse()
    }
}

/// `drop_matches` takes out at most `n` values and never adds one.
pub proof fn lemma_drop_matches_len(items: Seq<Text>, value: Text, n: nat)
    ensures
        drop_matches(items, value, n).len() <= items.len(),
        items.len() - drop_matches(items, value, n).len() <= n,
    decreases items.len(),
{
    if items.len() == 0 {
    } else if n > 0 && items[0] == value {
        lemma_drop_matches_len(items.skip(1), value, (n - 1) as nat);
    } else {
        lemma_drop_matches_len(items.skip(1), value, n);
    }
}

/// What `lrem` replies.
pub open spec fn lrem_reply(store: ListModel, args: Seq<Text>) -> ReplyText {
    if args.len() < 3 {
        Err("[ERROR]: At least three arguments required for \"llen\"!"@)
    } else {
        match parse_i32_spec(args[1]) {
            None => Err(
                "Second argument of \"lrem\" MUST be a whole number! Got \""@ + args[1] + "\""@,
            ),
            Some(count) => match assoc_get(store, args[0]) {
                None => Ok("0"@),
                Some(items) => Ok(
                    decimal((items.len() - lrem_items(items, count as int, args[2]).len()) as nat),
                ),
            },
        }
    }
}

/// The list keyspace that `lrem` leaves.
pub open spec fn lrem_store(store: ListModel, args: Seq<Text>) -> ListModel {
    if args.len() < 3 {
        store
    } else {
        match parse_i32_spec(args[1]) {
            None => store,
            Some(count) => match assoc_get(store, args[0]) {
                None => store,
                Some(items) => assoc_put(store, args[0], lrem_items(items, count as int, args[2])),
            },
        }
    }
}

/// The values of `items` in the opposite order.
pub fn reversed(items: &Vec<RedisValue>) -> (out: Vec<RedisValue>)
    ensures
        out.deep_view() == items.deep_view().reverse(),
{
    let n = items.len();
    let mut out: Vec<RedisValue> = Vec::new();
    let mut i: usize = 0;
    while i < n
        invariant
            i <= n,
            n == items.len(),
            out.len() == i,
            forall|j: int| 0 <= j < i ==> out[j]@ == items[n - 1 - j]@,
        decreases n - i,
    {
        out.push(items[n - 1 - i].clone());
        i += 1;
    }
    assert(out.deep_view() =~= items.deep_view().reverse());
    out
}

/// The values of `items` but the first `limit` that equal `value`.
pub fn without_matches(items: &Vec<RedisValue>, value: &str, limit: usize) -> (out: Vec<
    RedisValue,
>)
    ensures
        out.deep_view() == drop_matches(items.deep_view(), value@, limit as nat),
{
    let ghost all = items.deep_view();
    let mut out: Vec<RedisValue> = Vec::new();
    let mut left: usize = limit;
    let mut i: usize = 0;
    assert(all.skip(0) =~= all);
    assert(out.deep_view() =~= Seq::<Text>::empty());
    while i < items.len()
        invariant
            i <= items.len(),
            all == items.deep_view(),
            out.deep_view() + drop_matches(all.skip(i as int), value@, left as nat)
                == drop_matches(all, value@, limit as nat),
        decreases items.len() - i,
    {
        let ghost rest = all.skip(i as int);
        let ghost before = out.deep_view();
        proof {
            assert(rest[0] == items[i as int]@);
            assert(rest.skip(1) =~= all.skip(i + 1));
        }
        if left > 0 && same_text(items[i].as_str(), value) {
            left -= 1;
        } else {
            out.push(items[i].clone());
            assert(out.deep_view() =~= before.push(items[i as int]@));
            assert(before.push(items[i as int]@) + drop_matches(
                all.skip(i + 1),
                value@,
                left as nat,
            ) =~= before + drop_matches(rest, value@, left as nat));
        }
        i += 1;
    }
    assert(all.skip(items.len() as int) =~= Seq::<Text>::empty());
    assert(out.deep_view() + Seq::<Text>::empty() =~= out.deep_view());
    out
}

/// `lrem KEY COUNT VALUE`: takes values equal to `VALUE` out of the list under
/// the key and replies how many it took.
pub fn lrem(list: &mut List, args: Vec<&str>) -> (reply: Reply)
    requires
        old(list).wf(),
    ensures
        final(list).wf(),
        final(list).deep_view() == lrem_store(old(list).deep_view(), args.deep_view()),
        reply_view(reply) == lrem_reply(old(list).deep_view(), args.deep_view()),
{
    if args.len() < 3 {
        return Err("[ERROR]: At least three arguments required for \"llen\"!".to_owned());
    }
    let name = args[0];
    let key = args[2];
    let count: i32 = match parse_i32(args[1]) {
        Some(c) => c,
        None => {
            let mut msg = "Second argument of \"lrem\" MUST be a whole number! Got \"".to_owned();
            msg.append(args[1]);
            msg.append("\"");
            return Err(msg);
        },
    };
    let ghost before = list.deep_view();
    let at = match list.position(name) {
        Some(i) => i,
        None => {
            return Ok("0".to_owned());
        },
    };
    let old_len = list.vals[at].len();
    let ghost old_items = list.vals[at as int].deep_view();
    let kept = if count == 0 {
        without_matches(&list.vals[at], key, old_len)
    } else if count < 0 {
        let to_remove: usize = (0 - count as i64) as usize;
        let from_tail = reversed(&list.vals[at]);
        let survivors = without_matches(&from_tail, key, to_remove);
        reversed(&survivors)
    } else {
        without_matches(&list.vals[at], key, count as usize)
    };
    proof {
        assert(kept.deep_view() == lrem_items(old_items, count as int, key@));
        lemma_drop_matches_len(old_items, key@, old_items.len());
        lemma_drop_matches_len(old_items, key@, count as nat);
        lemma_drop_matches_len(old_items.reverse(), key@, (-count) as nat);
        assert(kept.deep_view().len() == kept.len());
        assert(old_items.len() == old_len);
    }
    let new_len = kept.len();
    list.vals[at] = kept;
    assert(list.deep_view() =~= before.update(at as int, (name@, kept.deep_view())));
    Ok(decimal_text(old_len - new_len))
}

/// The position that an index names in a list of `len` values: counted from
/// the head where it is not negative, from the tail where it is, `-1` being
/// the last value. An index beyond either end names no position.
pub open spec fn resolve_index(len: nat, index: int) -> Option<int> {
    if 0 <= index < len {
        Some(index)
    } else if index < 0 && len + index >= 0 {
        Some(len + index)
    } else {
        None
    }
}

/// Finds the position that an index names.
pub fn locate(len: usize, index: i32) -> (at: Option<usize>)
    ensures
        match at {
            Some(i) => resolve_index(len as nat, index as int) == Some(i as int),
            None => resolve_index(len as nat, index as int) is None,
        },
{
    if index >= 0 {
        if (index as u32 as u64) < (len as u64) {
            Some(index as usize)
        } else {
            None
        }
    } else {
        let back: u64 = (0 - index as i64) as u64;
        if back <= len as u64 {
            Some((len as u64 - back) as usize)
        } else {
            None
        }
    }
}

/// What `lindex` replies.
pub open spec fn lindex_reply(store: ListModel, args: Seq<Text>) -> ReplyText {
    if args.len() != 2 {
        Err("[ERROR]: \"lindex\" accepts exactly two arguments. Usage: lindex LISTNAME INDEX"@)
    } else {
        match parse_i32_spec(args[1]) {
            None => Err("[ERROR]: index value is not an integer. Usage: lindex LISTNAME INDEX"@),
            Some(index) => {
                let items = list_items(store, args[0]);
                match resolve_index(items.len(), index as int) {
                    None => Err("[ERROR]: index out of range"@),
                    Some(i) => Ok(quoted(items[i])),
                }
            },
        }
    }
}

/// `lindex KEY INDEX`: the value at the index, between double quotes.
pub fn lindex(list: &mut List, args: Vec<&str>) -> (reply: Reply)
    requires
        old(list).wf(),
    ensures
        *final(list) == *old(list),
        reply_view(reply) == lindex_reply(old(list).deep_view(), args.deep_view()),
{
    if args.len() != 2 {
        return Err(
            "[ERROR]: \"lindex\" accepts exactly two arguments. Usage: lindex LISTNAME INDEX".to_owned(),
        );
    }
    let index: i32 = match parse_i32(args[1]) {
        Some(i) => i,
        None => {
            return Err(
                "[ERROR]: index value is not an integer. Usage: lindex LISTNAME INDEX".to_owned(),
            );
        },
    };
    match list.get(args[0]) {
        Some(items) => {
            assert(items.deep_view().len() == items.len());
            match locate(items.len(), index) {
                Some(i) => {
                    assert(items.deep_view()[i as int] == items[i as int]@);
                    Ok(items[i].render(Rendering::Quoted))
                },
                None => Err("[ERROR]: index out of range".to_owned()),
            }
        },
        None => Err("[ERROR]: index out of range".to_owned()),
    }
}

/// What `lset` replies.
pub open spec fn lset_reply(store: ListModel, args: Seq<Text>) -> ReplyText {
    if args.len() != 3 {
        Err("[ERROR]: \"lset\" accepts exactly three arguments. Usage: lset LISTNAME INDEX VALUE"@)
    } else {
        match parse_i32_spec(args[1]) {
            None => Err(
                "[ERROR]: index value is not an integer. Usage: lset LISTNAME INDEX VALUE"@,
            ),
            Some(index) => match resolve_index(list_items(store, args[0]).len(), index as int) {
                None => Err("[ERROR]: index out of range"@),
                Some(i) => Ok("Ok"@),
            },
        }
    }
}

/// The list keyspace that `lset` leaves.
pub open spec fn lset_store(store: ListModel, args: Seq<Text>) -> ListModel {
    if lset_reply(store, args) is Ok {
        let items = list_items(store, args[0]);
        let i = resolve_index(items.len(), parse_i32_spec(args[1])->0 as int)->0;
        assoc_put(store, args[0], items.update(i, args[2]))
    } else {
        store
    }
}

/// `lset KEY INDEX VALUE`: puts the value in the place of the one at the index.
pub fn lset(list: &mut List, args: Vec<&str>) -> (reply: Reply)
    requires
        old(list).wf(),
    ensures
        final(list).wf(),
        final(list).deep_view() == lset_store(old(list).deep_view(), args.deep_view()),
        reply_view(reply) == lset_reply(old(list).deep_view(), args.deep_view()),
{
    if args.len() != 3 {
        return Err(
            "[ERROR]: \"lset\" accepts exactly three arguments. Usage: lset LISTNAME INDEX VALUE".to_owned(),
        );
    }
    let index: i32 = match parse_i32(args[1]) {
        Some(i) => i,
        None => {
            return Err(
                "[ERROR]: index value is not an integer. Usage: lset LISTNAME INDEX VALUE".to_owned(),
            );
        },
    };
    let ghost before = list.deep_view();
    let at = match list.position(args[0]) {
        Some(at) => at,
        None => {
            return Err("[ERROR]: index out of range".to_owned());
        },
    };
    let ghost old_items = list.vals[at as int].deep_view();
    assert(old_items.len() == list.vals[at as int].len());
    match locate(list.vals[at].len(), index) {
        Some(i) => {
            let slot = &mut list.vals[at];
            slot[i] = RedisValue::from_str(args[2]);
            assert(slot.deep_view() =~= old_items.update(i as int, args[2]@));
            assert(list.deep_view() =~= before.update(
                at as int,
                (args[0]@, old_items.update(i as int, args[2]@)),
            ));
            Ok("Ok".to_owned())
        },
        None => Err("[ERROR]: index out of range".to_owned()),
    }
}

/// The error of a pop with a wrong number of arguments.
pub open spec fn pop_arity_error(from_head: bool) -> Text {
    if from_head {
        "[ERROR]: \"lpop\" accepts one or two arguments. Usage: lpop LISTNAME [COUNT]"@
    } else {
        "[ERROR]: \"rpop\" accepts one or two arguments. Usage: rpop LISTNAME [COUNT]"@
    }
}

/// The error of a pop whose count is no natural number.
pub open spec fn pop_count_error(from_head: bool) -> Text {
    if from_head {
        "[ERROR]: count value is not an integer. Usage: lpop LISTNAME [COUNT]"@
    } else {
        "[ERROR]: count value is not an integer. Usage: rpop LISTNAME [COUNT]"@
    }
}

/// How many values a pop takes: one where no count is given, else the count,
/// and never more than the list holds.
pub open spec fn pop_count(len: nat, args: Seq<Text>) -> nat {
    let asked: nat = if args.len() == 1 {
        1
    } else {
        parse_usize_spec(args[1])->0 as nat
    };
    if asked <= len {
        asked
    } else {
        len
    }
}

/// The `k` values that a pop takes, in the order in which they leave: from
/// the head on, or from the tail back.
pub open spec fn popped(items: Seq<Text>, k: nat, from_head: bool) -> Seq<Text> {
    if from_head {
        items.take(k as int)
    } else {
        items.skip(items.len() - k).reverse()
    }
}

/// The values that a pop of `k` values leaves.
pub open spec fn unpopped(items: Seq<Text>, k: nat, from_head: bool) -> Seq<Text> {
    if from_head {
        items.skip(k as int)
    } else {
        items.take(items.len() - k)
    }
}

/// What `lpop` (`from_head`) and `rpop` reply. Without a count the reply is
/// the one value that left, bare, or `(nil)` where the list is empty; with a
/// count it is the aggregate of the values that left.
pub open spec fn pop_reply(store: ListModel, args: Seq<Text>, from_head: bool) -> ReplyText {
    if args.len() != 1 && args.len() != 2 {
        Err(pop_arity_error(from_head))
    } else if args.len() == 2 && parse_usize_spec(args[1]) is None {
        Err(pop_count_error(from_head))
    } else {
        let items = list_items(store, args[0]);
        let taken = popped(items, pop_count(items.len(), args), from_head);
        if args.len() == 2 {
            Ok(aggregate(taken))
        } else if taken.len() == 0 {
            Ok("(nil)"@)
        } else {
            Ok(taken[0])
        }
    }
}

/// The list keyspace that `lpop` (`from_head`) and `rpop` leave.
pub open spec fn pop_store(store: ListModel, args: Seq<Text>, from_head: bool) -> ListModel {
    if pop_reply(store, args, from_head) is Err {
        store
    } else {
        match assoc_get(store, args[0]) {
            None => store,
            Some(items) => assoc_put(
                store,
                args[0],
                unpopped(items, pop_count(items.len(), args), from_head),
            ),
        }
    }
}

/// Takes values from the head or the tail of the list under the key.
fn pop_values(list: &mut List, args: &Vec<&str>, from_head: bool) -> (reply: Reply)
    requires
        old(list).wf(),
    ensures
        final(list).wf(),
        final(list).deep_view() == pop_store(old(list).deep_view(), args.deep_view(), from_head),
        reply_view(reply) == pop_reply(old(list).deep_view(), args.deep_view(), from_head),
{
    if args.len() != 1 && args.len() != 2 {
        return Err(
            if from_head {
                "[ERROR]: \"lpop\" accepts one or two arguments. Usage: lpop LISTNAME [COUNT]".to_owned()
            } else {
                "[ERROR]: \"rpop\" accepts one or two arguments. Usage: rpop LISTNAME [COUNT]".to_owned()
            },
        );
    }
    let counted = args.len() == 2;
    let asked: usize = if counted {
        match parse_usize(args[1]) {
            Some(n) => n,
            None => {
                return Err(
                    if from_head {
                        "[ERROR]: count value is not an integer. Usage: lpop LISTNAME [COUNT]".to_owned()
                    } else {
                        "[ERROR]: count value is not an integer. Usage: rpop LISTNAME [COUNT]".to_owned()
                    },
                );
            },
        }
    } else {
        1
    };
    let ghost before = list.deep_view();
    let taken: Vec<RedisValue> = match list.position(args[0]) {
        Some(at) => {
            let ghost old_items = list.vals[at as int].deep_view();
            let len = list.vals[at].len();
            let k = if asked <= len {
                asked
            } else {
                len
            };
            let slot = &mut list.vals[at];
            let taken = if from_head {
                let mut rest = slot.split_off(k);
                std::mem::swap(slot, &mut rest);
                rest
            } else {
                let tail = slot.split_off(len - k);
                reversed(&tail)
            };
            proof {
                assert(taken.deep_view() =~= popped(old_items, k as nat, from_head));
                assert(list.vals[at as int].deep_view() =~= unpopped(
                    old_items,
                    k as nat,
                    from_head,
                ));
                assert(list.deep_view() =~= before.update(
                    at as int,
                    (args[0]@, unpopped(old_items, k as nat, from_head)),
                ));
            }
            taken
        },
        None => {
            let none: Vec<RedisValue> = Vec::new();
            proof {
                let empty = Seq::<Text>::empty();
                assert(none.deep_view() =~= popped(empty, 0, from_head));
            }
            none
        },
    };
    if counted {
        Ok(render_aggregate(&taken))
    } else if taken.len() == 0 {
        Ok("(nil)".to_owned())
    } else {
        assert(taken.deep_view()[0] == taken[0]@);
        Ok(taken[0].render(Rendering::Raw))
    }
}

/// `lpop KEY [COUNT]`: takes values from the head of the list under the key.
pub fn lpop(list: &mut List, args: Vec<&str>) -> (reply: Reply)
    requires
        old(list).wf(),
    ensures
        final(list).wf(),
        final(list).deep_view() == pop_store(old(list).deep_view(), args.deep_view(), true),
        reply_view(reply) == pop_reply(old(list).deep_view(), args.deep_view(), true),
{
    pop_values(list, &args, true)
}

/// `rpop KEY [COUNT]`: takes values from the tail of the list under the key.
pub fn rpop(list: &mut List, args: Vec<&str>) -> (reply: Reply)
    requires
        old(list).wf(),
    ensures
        final(list).wf(),
        final(list).deep_view() == pop_store(old(list).deep_view(), args.deep_view(), false),
        reply_view(reply) == pop_reply(old(list).deep_view(), args.deep_view(), false),
{
    pop_values(list, &args, false)
}

} // verus!
