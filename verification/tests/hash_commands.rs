use my_redis_server::redis_engine::command_execution::hash::{
    hdel, hexists, hget, hgetall, hkeys, hlen, hmset, hset, hvals, Hashes,
};
use my_redis_server::redis_engine::setup_executor;

fn ok(text: &str) -> Result<String, String> {
    Ok(text.to_string())
}

fn err(text: &str) -> Result<String, String> {
    Err(text.to_string())
}

#[test]
fn reads_of_a_missing_hash_see_no_fields() {
    let mut hash = Hashes::new();
    assert_eq!(hget(&mut hash, vec!["h", "f"]), ok("(nil)"));
    assert_eq!(hexists(&mut hash, vec!["h", "f"]), ok("false"));
    assert_eq!(hlen(&mut hash, vec!["h"]), ok("0"));
    assert_eq!(hkeys(&mut hash, vec!["h"]), ok("[]"));
    assert_eq!(hvals(&mut hash, vec!["h"]), ok("[]"));
    assert_eq!(hgetall(&mut hash, vec!["h"]), ok("[]"));
    assert_eq!(hdel(&mut hash, vec!["h", "f", "g"]), ok("0"));
    assert_eq!(hash.len(), 0);
}

#[test]
fn hset_counts_new_fields_only() {
    let mut hash = Hashes::new();
    assert_eq!(hset(&mut hash, vec!["h", "a", "1", "b", "2"]), ok("2"));
    assert_eq!(hset(&mut hash, vec!["h", "a", "10", "c", "3"]), ok("1"));
    assert_eq!(hset(&mut hash, vec!["h", "a", "11"]), ok("0"));
    assert_eq!(hset(&mut hash, vec!["h", "d", "1", "d", "2"]), ok("1"));
    assert_eq!(hget(&mut hash, vec!["h", "a"]), ok("11"));
    assert_eq!(hget(&mut hash, vec!["h", "d"]), ok("2"));
    assert_eq!(hlen(&mut hash, vec!["h"]), ok("4"));
}

#[test]
fn hmset_replies_ok() {
    let mut hash = Hashes::new();
    assert_eq!(hmset(&mut hash, vec!["h", "a", "1", "b", "2"]), ok("Ok"));
    assert_eq!(hmset(&mut hash, vec!["h", "a", "3"]), ok("Ok"));
    assert_eq!(hget(&mut hash, vec!["h", "a"]), ok("3"));
    assert_eq!(hget(&mut hash, vec!["h", "b"]), ok("2"));
}

#[test]
fn listings_follow_the_order_of_the_fields() {
    let mut hash = Hashes::new();
    assert_eq!(hset(&mut hash, vec!["h", "name", "ann", "age", "30"]), ok("2"));
    assert_eq!(hkeys(&mut hash, vec!["h"]), ok("[\"name\", \"age\"]"));
    assert_eq!(hvals(&mut hash, vec!["h"]), ok("[\"ann\", \"30\"]"));
    assert_eq!(hgetall(&mut hash, vec!["h"]), ok("[\"name\", \"ann\", \"age\", \"30\"]"));
    assert_eq!(hset(&mut hash, vec!["h", "name", "bob"]), ok("0"));
    assert_eq!(hgetall(&mut hash, vec!["h"]), ok("[\"name\", \"bob\", \"age\", \"30\"]"));
}

#[test]
fn hexists_tells_present_from_absent() {
    let mut hash = Hashes::new();
    assert_eq!(hset(&mut hash, vec!["h", "f", "v"]), ok("1"));
    assert_eq!(hexists(&mut hash, vec!["h", "f"]), ok("true"));
    assert_eq!(hexists(&mut hash, vec!["h", "g"]), ok("false"));
    assert_eq!(hexists(&mut hash, vec!["other", "f"]), ok("false"));
}

#[test]
fn hdel_counts_the_fields_it_took() {
    let mut hash = Hashes::new();
    assert_eq!(hset(&mut hash, vec!["h", "a", "1", "b", "2", "c", "3"]), ok("3"));
    assert_eq!(hset(&mut hash, vec!["other", "a", "1"]), ok("1"));
    assert_eq!(hdel(&mut hash, vec!["h", "a", "x", "c", "a"]), ok("2"));
    assert_eq!(hkeys(&mut hash, vec!["h"]), ok("[\"b\"]"));
    assert_eq!(hdel(&mut hash, vec!["h", "b"]), ok("1"));
    assert_eq!(hlen(&mut hash, vec!["h"]), ok("0"));
    assert_eq!(hget(&mut hash, vec!["other", "a"]), ok("1"));
}

#[test]
fn hash_commands_check_their_arguments() {
    let mut hash = Hashes::new();
    let usage = |u: &str| err(&format!("[ERROR]: wrong number of arguments. Usage: {u}"));
    assert_eq!(hget(&mut hash, vec!["h"]), usage("hget KEY FIELD"));
    assert_eq!(hexists(&mut hash, vec!["h", "f", "g"]), usage("hexists KEY FIELD"));
    assert_eq!(hlen(&mut hash, vec![]), usage("hlen KEY"));
    assert_eq!(hkeys(&mut hash, vec![]), usage("hkeys KEY"));
    assert_eq!(hvals(&mut hash, vec!["a", "b"]), usage("hvals KEY"));
    assert_eq!(hgetall(&mut hash, vec![]), usage("hgetall KEY"));
    assert_eq!(hdel(&mut hash, vec!["h"]), usage("hdel KEY FIELD [FIELD ...]"));
    assert_eq!(hset(&mut hash, vec!["h"]), usage("hset KEY FIELD VALUE [FIELD VALUE ...]"));
    assert_eq!(hset(&mut hash, vec!["h", "f"]), usage("hset KEY FIELD VALUE [FIELD VALUE ...]"));
    assert_eq!(
        hset(&mut hash, vec!["h", "f", "v", "g"]),
        usage("hset KEY FIELD VALUE [FIELD VALUE ...]")
    );
    assert_eq!(
        hmset(&mut hash, vec!["h", "f", "v", "g"]),
        usage("hmset KEY FIELD VALUE [FIELD VALUE ...]")
    );
    assert_eq!(hash.len(), 0);
}

#[test]
fn hash_commands_through_the_engine() {
    let mut executor = setup_executor(true, None);
    assert_eq!(executor.exec("hset user name ann age 30".to_string()), ok("2"));
    assert_eq!(executor.exec("hmset user city rome".to_string()), ok("Ok"));
    assert_eq!(executor.exec("hget user name".to_string()), ok("ann"));
    assert_eq!(executor.exec("hexists user age".to_string()), ok("true"));
    assert_eq!(executor.exec("hlen user".to_string()), ok("3"));
    assert_eq!(executor.exec("hkeys user".to_string()), ok("[\"name\", \"age\", \"city\"]"));
    assert_eq!(executor.exec("hvals user".to_string()), ok("[\"ann\", \"30\", \"rome\"]"));
    assert_eq!(
        executor.exec("hgetall user".to_string()),
        ok("[\"name\", \"ann\", \"age\", \"30\", \"city\", \"rome\"]")
    );
    assert_eq!(executor.exec("hdel user age nothing".to_string()), ok("1"));
    assert_eq!(executor.exec("hlen user".to_string()), ok("2"));
    assert!(executor.is_well_formed());
}
