use aam_rs::builder::AAMBuilder;
use aam_rs::error::AamlError;
use aam_rs::found_value::FoundValue;
use aam_rs::imports::ImportStack;
use aam_rs::store::{first_key_of, Store};

fn store_of(pairs: &[(&str, &str)]) -> Store {
    let mut store = Store::new();
    for (key, value) in pairs {
        store.insert(key.to_string(), value.to_string());
    }
    store
}

#[test]
fn new_store_is_empty() {
    let store = Store::new();
    assert_eq!(store.len(), 0);
    assert_eq!(store.get("a"), None);
    assert_eq!(store.find_key("a"), None);
    assert_eq!(store.find_obj("a"), None);
    assert_eq!(store.find_deep("a"), None);
}

#[test]
fn presized_store_is_empty() {
    for capacity in [0, 1, 1000, 0x10_0000, 0x10_0001, usize::MAX] {
        let store = Store::with_capacity(capacity);
        assert_eq!(store.len(), 0);
        assert_eq!(store.get("a"), None);
    }
}

#[test]
fn insert_then_get() {
    let mut store = Store::new();
    store.insert("a".to_string(), "1".to_string());
    assert_eq!(store.get("a"), Some("1"));
    assert_eq!(store.get("1"), None);
    assert_eq!(store.len(), 1);
}

#[test]
fn insert_replaces() {
    let mut store = store_of(&[("a", "1"), ("b", "2")]);
    store.insert("a".to_string(), "3".to_string());
    assert_eq!(store.get("a"), Some("3"));
    assert_eq!(store.get("b"), Some("2"));
    assert_eq!(store.len(), 2);
}

#[test]
fn absorb_prefers_the_other() {
    let mut left = store_of(&[("a", "1"), ("c", "4")]);
    let right = store_of(&[("a", "2"), ("b", "3")]);
    left.absorb(right);
    assert_eq!(left.len(), 3);
    assert_eq!(left.get("a"), Some("2"));
    assert_eq!(left.get("b"), Some("3"));
    assert_eq!(left.get("c"), Some("4"));
}

#[test]
fn find_key_finds_a_key_of_the_value() {
    let store = store_of(&[("a", "1"), ("b", "2"), ("c", "2")]);
    assert_eq!(store.find_key("1"), Some("a"));
    let found = store.find_key("2").unwrap();
    assert!(found == "b" || found == "c");
    assert_eq!(store.find_key("3"), None);
    assert_eq!(store.find_key("a"), None);
}

#[test]
fn find_key_is_steady_for_one_store() {
    let store = store_of(&[("a", "x"), ("b", "x"), ("c", "x"), ("d", "x")]);
    let first = store.find_key("x").unwrap().to_string();
    for _ in 0..10 {
        assert_eq!(store.find_key("x"), Some(first.as_str()));
    }
}

#[test]
fn find_obj_prefers_the_key() {
    let store = store_of(&[("a", "b"), ("b", "c")]);
    assert_eq!(store.find_obj("a"), Some("b"));
    assert_eq!(store.find_obj("b"), Some("c"));
    assert_eq!(store.find_obj("c"), Some("b"));
    assert_eq!(store.find_obj("d"), None);
}

#[test]
fn find_deep_follows_aliases() {
    let store = store_of(&[("a", "b"), ("b", "c"), ("c", "d"), ("d", "end")]);
    assert_eq!(store.find_deep("a"), Some("end"));
    assert_eq!(store.find_deep("c"), Some("end"));
    assert_eq!(store.find_deep("d"), Some("end"));
    assert_eq!(store.find_deep("end"), None);
}

#[test]
fn find_deep_stops_on_cycles() {
    let one = store_of(&[("a", "a")]);
    assert_eq!(one.find_deep("a"), Some("a"));
    let two = store_of(&[("a", "b"), ("b", "a")]);
    assert_eq!(two.find_deep("a"), Some("b"));
    assert_eq!(two.find_deep("b"), Some("a"));
    let three = store_of(&[("a", "b"), ("b", "c"), ("c", "a")]);
    assert_eq!(three.find_deep("a"), Some("c"));
    assert_eq!(three.find_deep("b"), Some("a"));
    let tail = store_of(&[("x", "a"), ("a", "b"), ("b", "a")]);
    assert_eq!(tail.find_deep("x"), Some("b"));
    let into_self = store_of(&[("x", "a"), ("a", "a")]);
    assert_eq!(into_self.find_deep("x"), Some("a"));
}

#[test]
fn find_deep_on_a_long_chain() {
    let mut store = Store::new();
    for i in 0..2000 {
        store.insert(format!("k{}", i), format!("k{}", i + 1));
    }
    assert_eq!(store.find_deep("k0"), Some("k2000"));
}

#[test]
fn found_value_conversions() {
    let v = FoundValue::new("42");
    assert_eq!(v.as_str(), "42");
    assert_eq!(v.to_text(), "42".to_string());
    assert_eq!(v.as_i32(), Some(42));
    assert_eq!(v.as_bool(), None);
    assert_eq!(FoundValue::new("-7").as_i32(), Some(-7));
    assert_eq!(FoundValue::new("4.2").as_i32(), None);
    assert_eq!(FoundValue::new("").as_i32(), None);
    assert_eq!(FoundValue::new("TRUE").as_bool(), Some(true));
    assert_eq!(FoundValue::new("1").as_bool(), Some(true));
    assert_eq!(FoundValue::new("false").as_bool(), Some(false));
    assert_eq!(FoundValue::new("0").as_bool(), Some(false));
    assert_eq!(FoundValue::new("yes").as_bool(), None);
    assert_eq!(FoundValue::new("1").as_i32(), Some(1));
}

#[test]
fn builder_starts_empty() {
    assert_eq!(AAMBuilder::new().build(), "");
    assert_eq!(AAMBuilder::default().build(), "");
    assert_eq!(AAMBuilder::with_capacity(0).build(), "");
    assert_eq!(AAMBuilder::with_capacity(4096).as_string(), "");
}

#[test]
fn builder_joins_lines_with_line_feeds() {
    let mut builder = AAMBuilder::with_capacity(64);
    builder.add_line("a", "1");
    assert_eq!(builder.as_string(), "a = 1");
    builder.add_raw("# note");
    builder.add_line("b", "two words");
    builder.add_raw("");
    builder.add_raw("@type t = i32");
    assert_eq!(builder.as_str(), "a = 1\n# note\nb = two words\n\n@type t = i32");
    assert_eq!(builder.len(), 41);
    assert_eq!(builder.build(), "a = 1\n# note\nb = two words\n\n@type t = i32");
}

#[test]
fn builder_first_raw_line_has_no_line_feed_before_it() {
    let mut builder = AAMBuilder::new();
    builder.add_raw("x = y");
    assert_eq!(builder.build(), "x = y");
}

#[test]
fn import_stack_refuses_a_file_twice() {
    let mut stack = ImportStack::new();
    assert_eq!(stack.depth(), 0);
    assert!(stack.enter("a.aam").is_ok());
    assert!(stack.enter("b.aam").is_ok());
    assert_eq!(stack.depth(), 2);
    match stack.enter("a.aam") {
        Err(AamlError::ParseError { line, content, details }) => {
            assert_eq!(line, 0);
            assert_eq!(content, "a.aam");
            assert_eq!(details, "Import cycle");
        }
        other => panic!("expected a parse error, got {:?}", other),
    }
    assert_eq!(stack.depth(), 2);
    stack.leave();
    assert_eq!(stack.depth(), 1);
    assert!(stack.enter("b.aam").is_ok());
    stack.leave();
    stack.leave();
    stack.leave();
    assert_eq!(stack.depth(), 0);
    assert!(stack.enter("a.aam").is_ok());
}

#[test]
fn first_key_of_takes_the_first_pair_with_the_value() {
    let (a, b, c) = ("a".to_string(), "b".to_string(), "c".to_string());
    let (x, y) = ("x".to_string(), "y".to_string());
    let pairs = vec![(&a, &x), (&b, &y), (&c, &y)];
    assert_eq!(first_key_of(&pairs, "y"), Some("b"));
    assert_eq!(first_key_of(&pairs, "x"), Some("a"));
    assert_eq!(first_key_of(&pairs, "z"), None);
    assert_eq!(first_key_of(&Vec::new(), "x"), None);
}
