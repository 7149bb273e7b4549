use my_redis_server::redis_engine::table::Table;
use my_redis_server::redis_engine::util::RedisValue;

fn value(text: &str) -> RedisValue {
    RedisValue::from_str(text)
}

#[test]
fn insert_keeps_the_place_of_a_key() {
    let mut table: Table<RedisValue> = Table::new();
    assert!(table.insert("a".to_string(), value("1")));
    assert!(table.insert("b".to_string(), value("2")));
    assert!(!table.insert("a".to_string(), value("3")));
    assert_eq!(table.len(), 2);
    assert_eq!(table.keys, vec!["a", "b"]);
    assert_eq!(table.get("a").map(|v| v.to_string()), Some("3".to_string()));
    assert_eq!(table.position("b"), Some(1));
    assert_eq!(table.position("c"), None);
    assert!(table.contains_key("a"));
    assert!(!table.contains_key("c"));
    assert!(table.is_well_formed());
}

#[test]
fn remove_takes_the_entry_out() {
    let mut table: Table<RedisValue> = Table::new();
    table.insert("a".to_string(), value("1"));
    table.insert("b".to_string(), value("2"));
    table.insert("c".to_string(), value("3"));
    assert_eq!(table.remove("b").map(|v| v.to_string()), Some("2".to_string()));
    assert!(table.remove("b").is_none());
    assert_eq!(table.keys, vec!["a", "c"]);
    assert_eq!(table.get("c").map(|v| v.to_string()), Some("3".to_string()));
    assert!(table.get("b").is_none());
}

#[test]
fn a_table_with_a_key_twice_is_not_well_formed() {
    let twice = Table {
        keys: vec!["a".to_string(), "b".to_string(), "a".to_string()],
        vals: vec![value("1"), value("2"), value("3")],
    };
    assert!(!twice.is_well_formed());
    let uneven = Table { keys: vec!["a".to_string()], vals: Vec::<RedisValue>::new() };
    assert!(!uneven.is_well_formed());
    let good = Table { keys: vec!["a".to_string(), "b".to_string()], vals: vec![value("1"), value("2")] };
    assert!(good.is_well_formed());
}
