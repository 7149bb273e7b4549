use my_redis_server::redis_engine::command_execution::one_off::{echo, ping};
use my_redis_server::redis_engine::{classify, setup_executor, Family};

fn ok(text: &str) -> Result<String, String> {
    Ok(text.to_string())
}

fn err(text: &str) -> Result<String, String> {
    Err(text.to_string())
}

#[test]
fn every_command_has_its_family() {
    for name in ["echo", "ping", "flushall"] {
        assert_eq!(classify(name), Some(Family::OneOff), "{}", name);
    }
    for name in ["set", "get", "key", "type", "del", "unlink", "expire", "rename"] {
        assert_eq!(classify(name), Some(Family::KeyValue), "{}", name);
    }
    for name in ["llen", "lrem", "lindex", "lpop", "rpop", "lpush", "rpush", "lset"] {
        assert_eq!(classify(name), Some(Family::List), "{}", name);
    }
    for name in ["hget", "hexists", "hdel", "hgetall", "hkeys", "hlen", "hmset", "hset", "hvals"] {
        assert_eq!(classify(name), Some(Family::Hash), "{}", name);
    }
    for name in ["", "Echo", "SET", "lpushx", "hget ", "quit"] {
        assert_eq!(classify(name), None, "{:?}", name);
    }
}

#[test]
fn echo_takes_one_argument() {
    assert_eq!(echo(vec!["hi"]), ok("hi"));
    assert_eq!(echo(vec![]), err("Too few arguments for \"echo\""));
    assert_eq!(echo(vec!["a", "b"]), err("Too many arguments for \"echo\""));
}

#[test]
fn ping_replies_pong_or_its_argument() {
    assert_eq!(ping(vec![]), ok("pong"));
    assert_eq!(ping(vec!["asd"]), ok("asd"));
    assert_eq!(ping(vec!["a", "b"]), err("Too many arguments for \"echo\""));
}

#[test]
fn families_run_their_commands() {
    let mut executor = setup_executor(true, None);
    assert_eq!(executor.exec_one_off("echo", vec!["x"]), ok("x"));
    assert_eq!(executor.exec_one_off("ping", vec![]), ok("pong"));
    assert_eq!(executor.exec_one_off("flushall", vec![]), ok("(nil)"));
    assert_eq!(executor.exec_kvp_command("set", vec!["k", "v"]), ok("Ok"));
    assert_eq!(executor.exec_kvp_command("get", vec!["k"]), ok("v"));
    assert_eq!(executor.exec_kvp_command("key", vec!["k"]), ok("Ok"));
    assert_eq!(executor.exec_kvp_command("type", vec!["k"]), ok("string"));
    assert_eq!(executor.exec_kvp_command("expire", vec!["k", "3"]), ok("1"));
    assert_eq!(executor.exec_kvp_command("rename", vec!["k", "m"]), ok("Ok"));
    assert_eq!(executor.exec_kvp_command("unlink", vec!["m"]), ok("1"));
    assert_eq!(executor.exec_kvp_command("del", vec!["m"]), ok("0"));
    assert_eq!(executor.exec_list_command("rpush", vec!["l", "a", "b"]), ok("2"));
    assert_eq!(executor.exec_list_command("lpush", vec!["l", "z"]), ok("1"));
    assert_eq!(executor.exec_list_command("llen", vec!["l"]), ok("3"));
    assert_eq!(executor.exec_list_command("lindex", vec!["l", "0"]), ok("\"z\""));
    assert_eq!(executor.exec_list_command("lset", vec!["l", "0", "y"]), ok("Ok"));
    assert_eq!(executor.exec_list_command("lrem", vec!["l", "0", "a"]), ok("1"));
    assert_eq!(executor.exec_list_command("lpop", vec!["l"]), ok("y"));
    assert_eq!(executor.exec_list_command("rpop", vec!["l"]), ok("b"));
    assert_eq!(executor.exec_hash_command("hset", vec!["h", "f", "v"]), ok("1"));
    assert_eq!(executor.exec_hash_command("hmset", vec!["h", "g", "w"]), ok("Ok"));
    assert_eq!(executor.exec_hash_command("hget", vec!["h", "f"]), ok("v"));
    assert_eq!(executor.exec_hash_command("hexists", vec!["h", "f"]), ok("true"));
    assert_eq!(executor.exec_hash_command("hlen", vec!["h"]), ok("2"));
    assert_eq!(executor.exec_hash_command("hkeys", vec!["h"]), ok("[\"f\", \"g\"]"));
    assert_eq!(executor.exec_hash_command("hvals", vec!["h"]), ok("[\"v\", \"w\"]"));
    assert_eq!(executor.exec_hash_command("hgetall", vec!["h"]), ok("[\"f\", \"v\", \"g\", \"w\"]"));
    assert_eq!(executor.exec_hash_command("hdel", vec!["h", "f"]), ok("1"));
    assert_eq!(executor.take_timers().len(), 1);
    assert!(executor.is_well_formed());
}
