use xplr_config::merge::Mergeable;
use xplr_config::ordered_map::OrderedMap;
use xplr_config::text::{key_order, lines, same_text, KeyOrder};

fn std_lines(s: &str) -> Vec<String> {
    s.lines().map(|l| l.to_string()).collect()
}

#[test]
fn lines_agree_with_the_standard_library() {
    let samples = [
        "",
        "a",
        "a\n",
        "a\nb",
        "a\n\nb",
        "\n",
        "\n\n",
        "a\r\n",
        "a\r\nb\r\n",
        "a\r",
        "a\r\r\n",
        "\r\n",
        "\r",
        "a\rb\nc",
        "first line\nsecond line\n",
        "héllo\nwörld\r\n✓",
        "tab\there\n  indented",
    ];
    for s in samples {
        assert_eq!(lines(s), std_lines(s), "input {:?}", s);
    }
}

#[test]
fn lines_exact_values() {
    assert_eq!(lines("one\ntwo"), vec!["one".to_string(), "two".to_string()]);
    assert_eq!(lines("one\r\ntwo\n"), vec!["one".to_string(), "two".to_string()]);
    assert_eq!(lines("a\n\nb"), vec!["a".to_string(), "".to_string(), "b".to_string()]);
    assert_eq!(lines(""), Vec::<String>::new());
    assert_eq!(lines("\n"), vec!["".to_string()]);
    assert_eq!(lines("x\r"), vec!["x\r".to_string()]);
}

#[test]
fn key_order_agrees_with_the_order_of_strings() {
    let samples = ["", "a", "b", "ab", "abc", "B", "é", "z", "ctrl-c", "ctrl-a", "~", "日本", "a b", "a_b"];
    for a in samples {
        for b in samples {
            let want = if a < b {
                KeyOrder::Before
            } else if a == b {
                KeyOrder::Same
            } else {
                KeyOrder::After
            };
            assert_eq!(key_order(a, b), want, "{:?} against {:?}", a, b);
        }
    }
}

#[test]
fn same_text_tells_equal_from_different() {
    assert!(same_text("go to", "go to"));
    assert!(!same_text("go to", "go_to"));
    assert!(!same_text("go", "go to"));
    assert!(same_text("", ""));
    assert!(!same_text("é", "e"));
}

#[test]
fn ordered_map_keeps_keys_ascending() {
    let mut m: OrderedMap<String> = OrderedMap::new();
    assert!(m.is_empty());
    assert_eq!(m.insert("k".to_string(), "up".to_string()), None);
    assert_eq!(m.insert("a".to_string(), "first".to_string()), None);
    assert_eq!(m.insert("z".to_string(), "last".to_string()), None);
    assert_eq!(m.insert("j".to_string(), "down".to_string()), None);
    assert_eq!(m.len(), 4);
    let keys: Vec<&str> = (0..m.len()).map(|i| m.key_at(i)).collect();
    assert_eq!(keys, vec!["a", "j", "k", "z"]);
    let values: Vec<&str> = (0..m.len()).map(|i| m.value_at(i).as_str()).collect();
    assert_eq!(values, vec!["first", "down", "up", "last"]);
}

#[test]
fn ordered_map_insert_replaces_and_returns_the_old_value() {
    let mut m: OrderedMap<String> = OrderedMap::new();
    m.insert("a".to_string(), "1".to_string());
    m.insert("b".to_string(), "2".to_string());
    assert_eq!(m.insert("a".to_string(), "3".to_string()), Some("1".to_string()));
    assert_eq!(m.insert("b".to_string(), "4".to_string()), Some("2".to_string()));
    assert_eq!(m.len(), 2);
    assert_eq!(m.get("a"), Some(&"3".to_string()));
    assert_eq!(m.get("b"), Some(&"4".to_string()));
}

#[test]
fn ordered_map_get_position_and_contains() {
    let mut m: OrderedMap<String> = OrderedMap::new();
    m.insert("b".to_string(), "2".to_string());
    m.insert("a".to_string(), "1".to_string());
    assert_eq!(m.get("a"), Some(&"1".to_string()));
    assert_eq!(m.get("c"), None);
    assert_eq!(m.position("a"), Some(0));
    assert_eq!(m.position("b"), Some(1));
    assert_eq!(m.position("c"), None);
    assert!(m.contains_key("b"));
    assert!(!m.contains_key(""));
}

#[test]
fn ordered_map_extend_unites_and_overlay_wins_for_text() {
    let mut base: OrderedMap<String> = OrderedMap::new();
    base.insert("a".to_string(), "base a".to_string());
    base.insert("c".to_string(), "base c".to_string());
    let mut over: OrderedMap<String> = OrderedMap::new();
    over.insert("b".to_string(), "over b".to_string());
    over.insert("c".to_string(), "over c".to_string());
    let r = base.extend(over);
    assert_eq!(r.len(), 3);
    assert_eq!(r.get("a"), Some(&"base a".to_string()));
    assert_eq!(r.get("b"), Some(&"over b".to_string()));
    assert_eq!(r.get("c"), Some(&"over c".to_string()));
    let keys: Vec<&str> = (0..r.len()).map(|i| r.key_at(i)).collect();
    assert_eq!(keys, vec!["a", "b", "c"]);
}

#[test]
fn ordered_map_merge_entry_lays_the_value_onto_the_old_one() {
    let mut m: OrderedMap<String> = OrderedMap::new();
    m.merge_entry("a".to_string(), "1".to_string());
    m.merge_entry("a".to_string(), "2".to_string());
    m.merge_entry("b".to_string(), "3".to_string());
    assert_eq!(m.len(), 2);
    assert_eq!(m.get("a"), Some(&"2".to_string()));
    assert_eq!(m.get("b"), Some(&"3".to_string()));
}

#[test]
fn ordered_map_extend_onto_itself_changes_nothing() {
    let mut m: OrderedMap<String> = OrderedMap::new();
    m.insert("x".to_string(), "1".to_string());
    m.insert("y".to_string(), "2".to_string());
    assert_eq!(m.clone().extend(m.clone()), m);
}

#[test]
fn ordered_map_clone_default_and_entries() {
    let mut m: OrderedMap<String> = OrderedMap::default();
    assert_eq!(m.len(), 0);
    m.insert("b".to_string(), "2".to_string());
    m.insert("a".to_string(), "1".to_string());
    let c = m.clone();
    assert_eq!(c, m);
    assert_eq!(
        c.into_entries(),
        vec![("a".to_string(), "1".to_string()), ("b".to_string(), "2".to_string())]
    );
}

#[test]
fn text_merges_to_the_overlay() {
    assert_eq!("base".to_string().merge("over".to_string()), "over".to_string());
}
