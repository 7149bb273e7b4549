use my_redis_server::redis_engine::command_execution::list::{
    lindex, llen, locate, lpop, lpush, lrem, lset, reversed, rpop, rpush, values_of,
    without_matches, List,
};
use my_redis_server::redis_engine::util::RedisValue;

fn ok(text: &str) -> Result<String, String> {
    Ok(text.to_string())
}

fn err(text: &str) -> Result<String, String> {
    Err(text.to_string())
}

fn texts(list: &List, key: &str) -> Vec<String> {
    match list.get(key) {
        Some(items) => items.iter().map(|v| v.to_string()).collect(),
        None => vec![],
    }
}

fn list_of(key: &str, items: &[&str]) -> List {
    let mut list = List::new();
    let mut args = vec![key];
    args.extend_from_slice(items);
    assert_eq!(rpush(&mut list, args), ok(&items.len().to_string()));
    list
}

#[test]
fn llen_of_missing_list_is_zero() {
    let mut list = List::new();
    assert_eq!(llen(&mut list, vec!["nothing_here"]), ok("0"));
    assert_eq!(list.len(), 0);
}

#[test]
fn llen_takes_one_argument() {
    let mut list = List::new();
    assert_eq!(llen(&mut list, vec![]), err("[ERROR]: \"llen\" accepts only one argument"));
    assert_eq!(llen(&mut list, vec!["a", "b"]), err("[ERROR]: \"llen\" accepts only one argument"));
}

#[test]
fn llen_of_a_long_list() {
    let mut list = List::new();
    for _ in 0..12 {
        assert_eq!(rpush(&mut list, vec!["l", "x"]), ok("1"));
    }
    assert_eq!(llen(&mut list, vec!["l"]), ok("12"));
}

#[test]
fn rpush_then_lrem_from_tail() {
    let mut list = List::new();
    assert_eq!(rpush(&mut list, vec!["list", "hello"]), ok("1"));
    assert_eq!(rpush(&mut list, vec!["list", "foo"]), ok("1"));
    assert_eq!(rpush(&mut list, vec!["list", "hello"]), ok("1"));
    assert_eq!(rpush(&mut list, vec!["list", "hello"]), ok("1"));
    assert_eq!(lrem(&mut list, vec!["list", "-2", "hello"]), ok("2"));
    assert_eq!(llen(&mut list, vec!["list"]), ok("2"));
    assert_eq!(texts(&list, "list"), vec!["hello", "foo"]);
}

#[test]
fn lrem_from_head_all_and_none() {
    let mut list = list_of("l", &["a", "b", "a", "c", "a"]);
    assert_eq!(lrem(&mut list, vec!["l", "2", "a"]), ok("2"));
    assert_eq!(texts(&list, "l"), vec!["b", "c", "a"]);

    let mut list = list_of("l", &["a", "b", "a", "c", "a"]);
    assert_eq!(lrem(&mut list, vec!["l", "0", "a"]), ok("3"));
    assert_eq!(texts(&list, "l"), vec!["b", "c"]);

    let mut list = list_of("l", &["a", "b", "a", "c", "a"]);
    assert_eq!(lrem(&mut list, vec!["l", "-1", "a"]), ok("1"));
    assert_eq!(texts(&list, "l"), vec!["a", "b", "a", "c"]);

    let mut list = list_of("l", &["a", "b", "a", "c", "a"]);
    assert_eq!(lrem(&mut list, vec!["l", "-7", "a"]), ok("3"));
    assert_eq!(texts(&list, "l"), vec!["b", "c"]);

    let mut list = list_of("l", &["a", "b"]);
    assert_eq!(lrem(&mut list, vec!["l", "5", "zzz"]), ok("0"));
    assert_eq!(texts(&list, "l"), vec!["a", "b"]);

    let mut list = list_of("l", &["a", "a"]);
    assert_eq!(lrem(&mut list, vec!["l", "-2147483648", "a"]), ok("2"));
    assert_eq!(llen(&mut list, vec!["l"]), ok("0"));
    assert_eq!(lrem(&mut list, vec!["missing", "1", "a"]), ok("0"));
}

#[test]
fn lrem_checks_its_arguments() {
    let mut list = list_of("l", &["a"]);
    assert_eq!(
        lrem(&mut list, vec!["l", "1"]),
        err("[ERROR]: At least three arguments required for \"llen\"!")
    );
    assert_eq!(
        lrem(&mut list, vec!["l", "one", "a"]),
        err("Second argument of \"lrem\" MUST be a whole number! Got \"one\"")
    );
    assert_eq!(
        lrem(&mut list, vec!["missing", "1.5", "a"]),
        err("Second argument of \"lrem\" MUST be a whole number! Got \"1.5\"")
    );
    assert_eq!(texts(&list, "l"), vec!["a"]);
}

#[test]
fn lpush_puts_values_before_the_list() {
    let mut list = List::new();
    assert_eq!(lpush(&mut list, vec!["l", "a", "b"]), ok("2"));
    assert_eq!(lpush(&mut list, vec!["l", "c"]), ok("1"));
    assert_eq!(texts(&list, "l"), vec!["c", "a", "b"]);
    assert_eq!(lpush(&mut list, vec!["l", "x", "y", "z"]), ok("3"));
    assert_eq!(texts(&list, "l"), vec!["x", "y", "z", "c", "a", "b"]);
}

#[test]
fn rpush_puts_values_after_the_list() {
    let mut list = List::new();
    assert_eq!(rpush(&mut list, vec!["l", "a", "b"]), ok("2"));
    assert_eq!(rpush(&mut list, vec!["l", "c", "d"]), ok("2"));
    assert_eq!(rpush(&mut list, vec!["other", "z"]), ok("1"));
    assert_eq!(texts(&list, "l"), vec!["a", "b", "c", "d"]);
    assert_eq!(texts(&list, "other"), vec!["z"]);
}

#[test]
fn pushes_need_a_key_and_a_value() {
    let mut list = List::new();
    assert_eq!(
        lpush(&mut list, vec!["l"]),
        err("[ERROR]: At least two arguments required for \"llen\"!")
    );
    assert_eq!(
        rpush(&mut list, vec![]),
        err("[ERROR]: At least two arguments required for \"rpush\"!")
    );
    assert_eq!(list.len(), 0);
}

#[test]
fn lindex_counts_from_both_ends() {
    let mut list = list_of("l", &["a", "b", "c"]);
    assert_eq!(lindex(&mut list, vec!["l", "0"]), ok("\"a\""));
    assert_eq!(lindex(&mut list, vec!["l", "2"]), ok("\"c\""));
    assert_eq!(lindex(&mut list, vec!["l", "-1"]), ok("\"c\""));
    assert_eq!(lindex(&mut list, vec!["l", "-3"]), ok("\"a\""));
    assert_eq!(lindex(&mut list, vec!["l", "-1"]), lindex(&mut list, vec!["l", "2"]));
}

#[test]
fn lindex_out_of_range_fails() {
    let mut list = list_of("l", &["a", "b", "c"]);
    let out = err("[ERROR]: index out of range");
    assert_eq!(lindex(&mut list, vec!["l", "3"]), out);
    assert_eq!(lindex(&mut list, vec!["l", "-4"]), out);
    assert_eq!(lindex(&mut list, vec!["l", "2147483647"]), out);
    assert_eq!(lindex(&mut list, vec!["l", "-2147483648"]), out);
    assert_eq!(lindex(&mut list, vec!["missing", "0"]), out);
    assert_eq!(lindex(&mut list, vec!["missing", "-1"]), out);
}

#[test]
fn lindex_checks_its_arguments() {
    let mut list = list_of("l", &["a"]);
    assert_eq!(
        lindex(&mut list, vec!["l"]),
        err("[ERROR]: \"lindex\" accepts exactly two arguments. Usage: lindex LISTNAME INDEX")
    );
    assert_eq!(
        lindex(&mut list, vec!["l", "first"]),
        err("[ERROR]: index value is not an integer. Usage: lindex LISTNAME INDEX")
    );
}

#[test]
fn lset_overwrites_in_place() {
    let mut list = list_of("l", &["a", "b", "c"]);
    assert_eq!(lset(&mut list, vec!["l", "1", "B"]), ok("Ok"));
    assert_eq!(lset(&mut list, vec!["l", "-1", "C"]), ok("Ok"));
    assert_eq!(texts(&list, "l"), vec!["a", "B", "C"]);
}

#[test]
fn lset_checks_its_arguments() {
    let mut list = list_of("l", &["a"]);
    let out = err("[ERROR]: index out of range");
    assert_eq!(lset(&mut list, vec!["l", "1", "x"]), out);
    assert_eq!(lset(&mut list, vec!["l", "-2", "x"]), out);
    assert_eq!(lset(&mut list, vec!["missing", "0", "x"]), out);
    assert_eq!(
        lset(&mut list, vec!["l", "0"]),
        err("[ERROR]: \"lset\" accepts exactly three arguments. Usage: lset LISTNAME INDEX VALUE")
    );
    assert_eq!(
        lset(&mut list, vec!["l", "zero", "x"]),
        err("[ERROR]: index value is not an integer. Usage: lset LISTNAME INDEX VALUE")
    );
    assert_eq!(texts(&list, "l"), vec!["a"]);
    assert_eq!(list.len(), 1);
}

#[test]
fn pops_take_no_more_than_there_is() {
    let mut list = list_of("l", &["a", "b", "c"]);
    assert_eq!(lpop(&mut list, vec!["l", "0"]), ok("[]"));
    assert_eq!(lpop(&mut list, vec!["l", "5"]), ok("[\"a\", \"b\", \"c\"]"));
    assert_eq!(lpop(&mut list, vec!["l"]), ok("(nil)"));
    assert_eq!(lpop(&mut list, vec!["l", "2"]), ok("[]"));
    assert_eq!(rpop(&mut list, vec!["missing"]), ok("(nil)"));
    assert_eq!(rpop(&mut list, vec!["missing", "3"]), ok("[]"));
    assert_eq!(list.len(), 1);

    let mut list = list_of("l", &["a", "b", "c"]);
    assert_eq!(rpop(&mut list, vec!["l", "1"]), ok("[\"c\"]"));
    assert_eq!(rpop(&mut list, vec!["l", "9"]), ok("[\"b\", \"a\"]"));
    assert_eq!(llen(&mut list, vec!["l"]), ok("0"));
}

#[test]
fn pops_check_their_arguments() {
    let mut list = list_of("l", &["a"]);
    assert_eq!(
        lpop(&mut list, vec![]),
        err("[ERROR]: \"lpop\" accepts one or two arguments. Usage: lpop LISTNAME [COUNT]")
    );
    assert_eq!(
        rpop(&mut list, vec!["l", "1", "2"]),
        err("[ERROR]: \"rpop\" accepts one or two arguments. Usage: rpop LISTNAME [COUNT]")
    );
    assert_eq!(
        lpop(&mut list, vec!["l", "-1"]),
        err("[ERROR]: count value is not an integer. Usage: lpop LISTNAME [COUNT]")
    );
    assert_eq!(
        rpop(&mut list, vec!["missing", "many"]),
        err("[ERROR]: count value is not an integer. Usage: rpop LISTNAME [COUNT]")
    );
    assert_eq!(texts(&list, "l"), vec!["a"]);
}

#[test]
fn locate_resolves_indices() {
    assert_eq!(locate(4, 0), Some(0));
    assert_eq!(locate(4, 3), Some(3));
    assert_eq!(locate(4, 4), None);
    assert_eq!(locate(4, -1), Some(3));
    assert_eq!(locate(4, -4), Some(0));
    assert_eq!(locate(4, -5), None);
    assert_eq!(locate(0, 0), None);
    assert_eq!(locate(0, -1), None);
    assert_eq!(locate(usize::MAX, i32::MIN), Some(usize::MAX - 2147483648));
}

#[test]
fn helpers_on_values() {
    let strs = |v: &Vec<RedisValue>| v.iter().map(|x| x.to_string()).collect::<Vec<_>>();
    let values = values_of(&vec!["k", "a", "b", "a"], 1);
    assert_eq!(strs(&values), vec!["a", "b", "a"]);
    assert_eq!(strs(&reversed(&values)), vec!["a", "b", "a"]);
    assert_eq!(strs(&reversed(&values_of(&vec!["x", "y", "z"], 0))), vec!["z", "y", "x"]);
    assert_eq!(strs(&without_matches(&values, "a", 1)), vec!["b", "a"]);
    assert_eq!(strs(&without_matches(&values, "a", 0)), vec!["a", "b", "a"]);
    assert_eq!(strs(&without_matches(&values, "a", 9)), vec!["b"]);
    assert!(values_of(&vec!["k"], 1).is_empty());
}
