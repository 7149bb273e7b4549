use my_redis_server::redis_engine::{setup_executor, Executor};

fn ok(text: &str) -> Result<String, String> {
    Ok(text.to_string())
}

fn err(text: &str) -> Result<String, String> {
    Err(text.to_string())
}

fn fresh() -> Executor {
    setup_executor(true, None)
}

#[test]
fn commands_execute_properly() {
    let commands = vec![
        "echo hi",
        "ping",
        "ping asd",
        "set kekw hi",
        "get kekw",
        "key kekw",
        "type kekw",
        "del namaikatiputkata",
        "del kekw",
        "set kekw sadeg",
        "set dummy val",
        "unlink dummy",
    ];
    let responses: Vec<Result<String, String>> = vec![
        ok("hi"),
        ok("pong"),
        ok("asd"),
        ok("Ok"),
        ok("hi"),
        ok("Ok"),
        ok("string"),
        ok("0"),
        ok("1"),
        ok("Ok"),
        ok("Ok"),
        ok("1"),
    ];

    let mut executor = fresh();

    if executor.setup_properly {
        for i in 0..commands.len() {
            assert!(executor.exec(commands[i].to_string()) == responses[i])
        }
    } else {
        assert!(false);
    }
}

#[test]
fn expire_delays_properly() {
    let mut executor = fresh();
    if executor.setup_properly {
        assert_eq!(executor.exec("set dummy asd".to_string()), ok("Ok"));
        assert_eq!(executor.exec("expire dummy 1".to_string()), ok("1"));
        assert_eq!(executor.exec("get dummy".to_string()), ok("asd"));
        let due = executor.take_timers();
        assert_eq!(due.len(), 1);
        assert_eq!(due[0].key, "dummy");
        assert_eq!(due[0].seconds, 1);
        assert!(executor.expire_key(&due[0].key, due[0].token));
        assert_ne!(executor.exec("get dummy".to_string()), ok("asd"));
        assert_eq!(executor.exec("get dummy".to_string()), ok("(nil)"));
    } else {
        assert!(false);
    }
    assert!(true)
}

#[test]
fn renaming_works_as_expected() {
    let commands = vec!["set dummy 123", "get dummy", "rename dummy henlo", "get henlo"];

    let responses = vec![ok("Ok"), ok("123"), ok("Ok"), ok("123")];

    let mut executor = fresh();

    if executor.setup_properly {
        for i in 0..commands.len() {
            assert!(executor.exec(commands[i].to_string()) == responses[i])
        }
    } else {
        assert!(false);
    }
}

#[test]
fn basic_list_operations_work_properly() {
    let commands = vec![
        "llen list1",
        "llen list_that_doesnt_exist",
        "rpush new_list 1 2 3",
        "llen new_list",
    ];

    let responses = vec![ok("2"), ok("0"), ok("3"), ok("3")];

    let snapshot = "{\"key_value_pairs\": {}, \"lists\": {\"list1\": [\"a\", \"b\"]}, \"hashes\": {}}";
    let mut executor = setup_executor(true, Some(snapshot));

    if executor.setup_properly {
        for i in 0..commands.len() {
            assert!(executor.exec(commands[i].to_string()) == responses[i])
        }
    } else {
        assert!(false);
    }
}

#[test]
fn lrem_works_as_expected() {
    let mut executor = fresh();

    assert_eq!(executor.exec("rpush list hello".to_string()), ok("1"));
    assert_eq!(executor.exec("rpush list foo".to_string()), ok("1"));
    assert_eq!(executor.exec("rpush list hello".to_string()), ok("1"));
    assert_eq!(executor.exec("rpush list hello".to_string()), ok("1"));

    assert_eq!(executor.exec("lrem list -2 hello".to_string()), ok("2"));
    assert_eq!(executor.exec("llen list".to_string()), ok("2"));
}

#[test]
fn lindex_works_as_expected() {
    let mut executor = fresh();

    assert_eq!(executor.exec("rpush list hello".to_string()), ok("1"));
    assert_eq!(executor.exec("rpush list foo".to_string()), ok("1"));
    assert_eq!(executor.exec("rpush list hello2".to_string()), ok("1"));
    assert_eq!(executor.exec("rpush list hello3".to_string()), ok("1"));
    assert_eq!(executor.exec("llen list".to_string()), ok("4"));

    assert_eq!(executor.exec("lindex list 1".to_string()), ok("\"foo\""));
    assert_eq!(executor.exec("lindex list 2".to_string()), ok("\"hello2\""));
    assert_eq!(executor.exec("lindex list -1".to_string()), ok("\"hello3\""));
    assert_eq!(executor.exec("lindex list -2".to_string()), ok("\"hello2\""));
}

#[test]
fn lpop_works_as_expected() {
    let mut executor = fresh();

    assert_eq!(executor.exec("rpush list hello".to_string()), ok("1"));
    assert_eq!(executor.exec("rpush list foo".to_string()), ok("1"));
    assert_eq!(executor.exec("rpush list hello2".to_string()), ok("1"));
    assert_eq!(executor.exec("rpush list hello3".to_string()), ok("1"));
    assert_eq!(executor.exec("llen list".to_string()), ok("4"));

    assert_eq!(
        executor.exec("lpop list asd".to_string()),
        err("[ERROR]: count value is not an integer. Usage: lpop LISTNAME [COUNT]")
    );
    assert_eq!(executor.exec("lpop list".to_string()), ok("hello"));
    assert_eq!(executor.exec("lpop list 2".to_string()), ok("[\"foo\", \"hello2\"]"));
    assert_eq!(executor.exec("llen list".to_string()), ok("1"));
}

#[test]
fn rpop_works_as_expected() {
    let mut executor = fresh();

    assert_eq!(executor.exec("rpush list hello".to_string()), ok("1"));
    assert_eq!(executor.exec("rpush list foo".to_string()), ok("1"));
    assert_eq!(executor.exec("rpush list hello2".to_string()), ok("1"));
    assert_eq!(executor.exec("rpush list hello3".to_string()), ok("1"));
    assert_eq!(executor.exec("llen list".to_string()), ok("4"));

    assert_eq!(
        executor.exec("rpop list asd".to_string()),
        err("[ERROR]: count value is not an integer. Usage: rpop LISTNAME [COUNT]")
    );
    assert_eq!(executor.exec("rpop list".to_string()), ok("hello3"));
    assert_eq!(executor.exec("rpop list 2".to_string()), ok("[\"hello2\", \"foo\"]"));
    assert_eq!(executor.exec("llen list".to_string()), ok("1"));
}

#[test]
fn lpush_works_as_expected() {
    let mut executor = fresh();

    assert_eq!(executor.exec("lpush list hello".to_string()), ok("1"));
    assert_eq!(executor.exec("lpush list foo".to_string()), ok("1"));
    assert_eq!(executor.exec("lpush list hello2".to_string()), ok("1"));
    assert_eq!(executor.exec("lpush list hello3".to_string()), ok("1"));
    assert_eq!(executor.exec("llen list".to_string()), ok("4"));
}

#[test]
fn lset_works_as_expected() {
    let mut executor = fresh();

    assert_eq!(executor.exec("lpush list hello".to_string()), ok("1"));
    assert_eq!(executor.exec("lpush list foo".to_string()), ok("1"));
    assert_eq!(executor.exec("lset list 0 hello2".to_string()), ok("Ok"));
    assert_eq!(executor.exec("lset list -2 hello3".to_string()), ok("Ok"));
    assert_eq!(executor.exec("llen list".to_string()), ok("2"));
    assert_eq!(executor.exec("lindex list 0".to_string()), ok("\"hello3\""));
}

#[test]
fn unknown_command_names_the_word() {
    let mut executor = fresh();
    assert_eq!(
        executor.exec("frobnicate a b".to_string()),
        err("Unknown command \"frobnicate\" provided.")
    );
    assert_eq!(executor.exec("".to_string()), err("Unknown command \"\" provided."));
    assert_eq!(executor.exec("ECHO hi".to_string()), err("Unknown command \"ECHO\" provided."));
}

#[test]
fn repeated_spaces_make_empty_words() {
    let mut executor = fresh();
    assert_eq!(executor.exec("echo  hi".to_string()), err("Too many arguments for \"echo\""));
    assert_eq!(executor.exec("echo ".to_string()), ok(""));
    assert_eq!(executor.exec("echo".to_string()), err("Too few arguments for \"echo\""));
}

#[test]
fn ping_with_two_arguments_fails() {
    let mut executor = fresh();
    assert_eq!(executor.exec("ping a b".to_string()), err("Too many arguments for \"echo\""));
}

#[test]
fn flushall_does_nothing() {
    let mut executor = fresh();
    assert_eq!(executor.exec("set k v".to_string()), ok("Ok"));
    assert_eq!(executor.exec("flushall".to_string()), ok("(nil)"));
    assert_eq!(executor.exec("flushall now".to_string()), ok("(nil)"));
    assert_eq!(executor.exec("get k".to_string()), ok("v"));
}

#[test]
fn keyspaces_are_disjoint() {
    let mut executor = fresh();
    assert_eq!(executor.exec("set k text".to_string()), ok("Ok"));
    assert_eq!(executor.exec("rpush k a b".to_string()), ok("2"));
    assert_eq!(executor.exec("hset k f v".to_string()), ok("1"));
    assert_eq!(executor.exec("get k".to_string()), ok("text"));
    assert_eq!(executor.exec("llen k".to_string()), ok("2"));
    assert_eq!(executor.exec("hget k f".to_string()), ok("v"));
    assert_eq!(executor.exec("del k".to_string()), ok("1"));
    assert_eq!(executor.exec("llen k".to_string()), ok("2"));
    assert_eq!(executor.exec("hlen k".to_string()), ok("1"));
}

#[test]
fn string_commands_check_their_argument_counts() {
    let mut executor = fresh();
    assert_eq!(
        executor.exec("set k".to_string()),
        err("[ERROR]: \"set\" accepts exactly two arguments")
    );
    assert_eq!(
        executor.exec("get".to_string()),
        err("[ERROR]: \"get\" accepts exactly one argument")
    );
    assert_eq!(
        executor.exec("key a b".to_string()),
        err("[ERROR]: \"key\" accepts exactly one argument")
    );
    assert_eq!(
        executor.exec("type".to_string()),
        err("[ERROR]: \"type\" accepts exactly one argument")
    );
    assert_eq!(
        executor.exec("del".to_string()),
        err("[ERROR]: \"del\" accepts exactly one argument")
    );
    assert_eq!(
        executor.exec("unlink a b".to_string()),
        err("[ERROR]: \"unlink\" accepts exactly one argument")
    );
    assert_eq!(
        executor.exec("rename a".to_string()),
        err("[ERROR]: \"rename\" accepts exactly two arguments")
    );
    assert_eq!(
        executor.exec("expire a".to_string()),
        err("[ERROR]: \"expire\" accepts exactly two arguments")
    );
}

#[test]
fn absent_keys_of_the_string_keyspace() {
    let mut executor = fresh();
    assert_eq!(executor.exec("get nothing".to_string()), ok("(nil)"));
    assert_eq!(executor.exec("key nothing".to_string()), ok("(nil)"));
    assert_eq!(executor.exec("type nothing".to_string()), ok("none"));
    assert_eq!(executor.exec("unlink nothing".to_string()), ok("0"));
    assert_eq!(executor.exec("rename nothing other".to_string()), err("[ERROR]: no such key"));
    assert_eq!(executor.exec("expire nothing 5".to_string()), ok("0"));
    assert_eq!(executor.take_timers().len(), 0);
}

#[test]
fn del_and_unlink_then_get_is_nil() {
    let mut executor = fresh();
    assert_eq!(executor.exec("set a 1".to_string()), ok("Ok"));
    assert_eq!(executor.exec("set b 2".to_string()), ok("Ok"));
    assert_eq!(executor.exec("del a".to_string()), ok("1"));
    assert_eq!(executor.exec("get a".to_string()), ok("(nil)"));
    assert_eq!(executor.exec("unlink b".to_string()), ok("1"));
    assert_eq!(executor.exec("get b".to_string()), ok("(nil)"));
}

#[test]
fn rename_leaves_the_old_key_absent() {
    let mut executor = fresh();
    assert_eq!(executor.exec("set a 1".to_string()), ok("Ok"));
    assert_eq!(executor.exec("set b 2".to_string()), ok("Ok"));
    assert_eq!(executor.exec("rename a b".to_string()), ok("Ok"));
    assert_eq!(executor.exec("get a".to_string()), ok("(nil)"));
    assert_eq!(executor.exec("get b".to_string()), ok("1"));
    assert_eq!(executor.exec("rename b b".to_string()), ok("Ok"));
    assert_eq!(executor.exec("get b".to_string()), ok("1"));
}

#[test]
fn expire_rejects_a_ttl_that_is_no_number() {
    let mut executor = fresh();
    assert_eq!(executor.exec("set a 1".to_string()), ok("Ok"));
    assert_eq!(
        executor.exec("expire a soon".to_string()),
        err("[ERROR]: ttl value is not an integer. Usage: expire KEY SECONDS")
    );
    assert_eq!(
        executor.exec("expire a -1".to_string()),
        err("[ERROR]: ttl value is not an integer. Usage: expire KEY SECONDS")
    );
    assert_eq!(executor.take_timers().len(), 0);
}

#[test]
fn each_expire_starts_its_own_timer_and_the_latest_wins() {
    let mut executor = fresh();
    assert_eq!(executor.exec("set a 1".to_string()), ok("Ok"));
    assert_eq!(executor.exec("expire a 10".to_string()), ok("1"));
    assert_eq!(executor.exec("expire a 20".to_string()), ok("1"));
    let due = executor.take_timers();
    assert_eq!(due.len(), 2);
    assert_eq!((due[0].key.as_str(), due[0].seconds), ("a", 10));
    assert_eq!((due[1].key.as_str(), due[1].seconds), ("a", 20));
    assert_ne!(due[0].token, due[1].token);
    assert_eq!(executor.take_timers().len(), 0);
    assert!(!executor.expire_key("a", due[0].token));
    assert_eq!(executor.exec("get a".to_string()), ok("1"));
    assert!(executor.expire_key("a", due[1].token));
    assert_eq!(executor.exec("get a".to_string()), ok("(nil)"));
    assert!(!executor.expire_key("a", due[1].token));
    assert!(executor.is_well_formed());
}

#[test]
fn a_timer_does_not_take_out_a_key_that_was_deleted_and_set_again() {
    let mut executor = fresh();
    assert_eq!(executor.exec("set a 1".to_string()), ok("Ok"));
    assert_eq!(executor.exec("expire a 5".to_string()), ok("1"));
    assert_eq!(executor.exec("del a".to_string()), ok("1"));
    assert_eq!(executor.exec("set a 2".to_string()), ok("Ok"));
    let due = executor.take_timers();
    assert_eq!(due.len(), 1);
    assert!(!executor.expire_key("a", due[0].token));
    assert_eq!(executor.exec("get a".to_string()), ok("2"));
}

#[test]
fn a_timer_takes_out_a_key_whose_value_was_set_again() {
    let mut executor = fresh();
    assert_eq!(executor.exec("set a 1".to_string()), ok("Ok"));
    assert_eq!(executor.exec("expire a 5".to_string()), ok("1"));
    assert_eq!(executor.exec("set a 2".to_string()), ok("Ok"));
    let due = executor.take_timers();
    assert!(executor.expire_key("a", due[0].token));
    assert_eq!(executor.exec("get a".to_string()), ok("(nil)"));
}

#[test]
fn rename_and_unlink_drop_the_expiration_of_the_old_key() {
    let mut executor = fresh();
    assert_eq!(executor.exec("set a 1".to_string()), ok("Ok"));
    assert_eq!(executor.exec("set c 3".to_string()), ok("Ok"));
    assert_eq!(executor.exec("expire a 5".to_string()), ok("1"));
    assert_eq!(executor.exec("expire c 5".to_string()), ok("1"));
    assert_eq!(executor.exec("rename a b".to_string()), ok("Ok"));
    assert_eq!(executor.exec("unlink c".to_string()), ok("1"));
    assert_eq!(executor.exec("set a again".to_string()), ok("Ok"));
    assert_eq!(executor.exec("set c again".to_string()), ok("Ok"));
    let due = executor.take_timers();
    assert_eq!(due.len(), 2);
    assert!(!executor.expire_key(&due[0].key, due[0].token));
    assert!(!executor.expire_key(&due[1].key, due[1].token));
    assert!(!executor.expire_key("b", due[0].token));
    assert_eq!(executor.exec("get a".to_string()), ok("again"));
    assert_eq!(executor.exec("get b".to_string()), ok("1"));
    assert_eq!(executor.exec("get c".to_string()), ok("again"));
    assert_eq!(executor.expirations.len(), 0);
}

#[test]
fn expirations_are_counted_on_past_the_largest() {
    let mut executor = fresh();
    executor.next_token = u64::MAX;
    assert_eq!(executor.exec("set a 1".to_string()), ok("Ok"));
    assert_eq!(executor.exec("expire a 1".to_string()), ok("1"));
    assert_eq!(executor.next_token, 0);
    assert_eq!(executor.exec("expire missing 1".to_string()), ok("0"));
    assert_eq!(executor.next_token, 0);
    let due = executor.take_timers();
    assert_eq!(due[0].token, u64::MAX);
}

#[test]
fn error_default_is_not_set_up() {
    let executor = Executor::error_default();
    assert!(!executor.setup_properly);
    assert_eq!(executor.dump_file_path, "");
    assert_eq!(executor.context.key_value_pairs.len(), 0);
}
