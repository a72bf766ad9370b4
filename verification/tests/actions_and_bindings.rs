use xplr_config::action::{Action, ExternalMsg};
use xplr_config::key_bindings::KeyBindings;
use xplr_config::ordered_map::OrderedMap;

fn safe(payload: &str) -> ExternalMsg {
    ExternalMsg { payload: payload.to_string(), read_only: true }
}

fn risky(payload: &str) -> ExternalMsg {
    ExternalMsg { payload: payload.to_string(), read_only: false }
}

fn action(help: Option<&str>, messages: Vec<ExternalMsg>) -> Action {
    Action { help: help.map(|h| h.to_string()), messages }
}

#[test]
fn message_reports_whether_it_is_read_only() {
    assert!(safe("FocusNext").is_read_only());
    assert!(!risky("BashExec").is_read_only());
}

#[test]
fn action_without_messages_is_void() {
    assert_eq!(action(Some("nothing"), vec![]).sanitized(false), None);
    assert_eq!(action(Some("nothing"), vec![]).sanitized(true), None);
    assert_eq!(Action::default().sanitized(false), None);
}

#[test]
fn action_passes_when_not_read_only() {
    let a = action(Some("run"), vec![risky("BashExec"), safe("Refresh")]);
    assert_eq!(a.clone().sanitized(false), Some(a));
}

#[test]
fn action_with_an_unsafe_message_is_dropped_when_read_only() {
    assert_eq!(action(Some("run"), vec![risky("BashExec")]).sanitized(true), None);
    assert_eq!(action(None, vec![safe("a"), safe("b"), risky("c")]).sanitized(true), None);
    assert_eq!(action(None, vec![risky("c"), safe("a")]).sanitized(true), None);
}

#[test]
fn action_with_safe_messages_is_unchanged_when_read_only() {
    let a = action(Some("down"), vec![safe("FocusNext"), safe("Refresh")]);
    assert_eq!(a.clone().sanitized(true), Some(a));
}

#[test]
fn action_extend_is_right_biased() {
    let base = action(Some("base help"), vec![safe("a"), safe("b")]);
    let over = action(None, vec![risky("c")]);
    let r = base.clone().extend(over.clone());
    assert_eq!(r.help, Some("base help".to_string()));
    assert_eq!(r.messages, over.messages);

    let over = action(Some("over help"), vec![]);
    let r = base.clone().extend(over);
    assert_eq!(r.help, Some("over help".to_string()));
    assert_eq!(r.messages, vec![]);

    assert_eq!(base.clone().extend(base.clone()), base);
}

fn bindings() -> KeyBindings {
    let mut on_key: OrderedMap<Action> = OrderedMap::new();
    on_key.insert("down".to_string(), action(Some("down"), vec![safe("FocusNext")]));
    on_key.insert("up".to_string(), action(Some("up"), vec![safe("FocusPrevious")]));
    on_key.insert("d".to_string(), action(Some("delete"), vec![risky("BashExec rm")]));
    on_key.insert("void".to_string(), action(Some("void"), vec![]));
    let mut remaps: OrderedMap<String> = OrderedMap::new();
    remaps.insert("j".to_string(), "down".to_string());
    remaps.insert("k".to_string(), "up".to_string());
    remaps.insert("x".to_string(), "d".to_string());
    remaps.insert("y".to_string(), "missing".to_string());
    remaps.insert("z".to_string(), "void".to_string());
    KeyBindings {
        remaps,
        on_key,
        on_alphabet: Some(action(Some("type"), vec![safe("BufferInputFromKey")])),
        on_number: Some(action(Some("number"), vec![risky("Call")])),
        on_special_character: Some(action(None, vec![])),
        default: None,
    }
}

#[test]
fn key_bindings_are_untouched_when_not_read_only() {
    let b = bindings();
    assert_eq!(b.clone().sanitized(false), b);
}

#[test]
fn key_bindings_sanitized_drops_unsafe_actions_and_orphaned_remaps() {
    let r = bindings().sanitized(true);
    let keys: Vec<&str> = (0..r.on_key.len()).map(|i| r.on_key.key_at(i)).collect();
    assert_eq!(keys, vec!["down", "up"]);
    assert_eq!(r.on_key.get("down"), bindings().on_key.get("down"));
    assert_eq!(r.on_key.get("up"), bindings().on_key.get("up"));
    let remap_keys: Vec<&str> = (0..r.remaps.len()).map(|i| r.remaps.key_at(i)).collect();
    assert_eq!(remap_keys, vec!["j", "k"]);
    assert_eq!(r.remaps.get("j"), Some(&"down".to_string()));
    assert_eq!(r.remaps.get("k"), Some(&"up".to_string()));
    assert_eq!(r.on_alphabet, bindings().on_alphabet);
    assert_eq!(r.on_number, None);
    assert_eq!(r.on_special_character, None);
    assert_eq!(r.default, None);
}

#[test]
fn after_sanitizing_every_remap_leads_to_a_binding() {
    let r = bindings().sanitized(true);
    for i in 0..r.remaps.len() {
        assert!(r.on_key.contains_key(r.remaps.value_at(i)));
    }
    for i in 0..r.on_key.len() {
        let a = r.on_key.value_at(i);
        assert!(!a.messages.is_empty());
        assert!(a.messages.iter().all(|m| m.is_read_only()));
    }
}

#[test]
fn key_bindings_extend_unites_and_lays_actions_onto_each_other() {
    let base = bindings();
    let mut on_key: OrderedMap<Action> = OrderedMap::new();
    on_key.insert("down".to_string(), action(None, vec![safe("FocusNextByRelativeIndex")]));
    on_key.insert("enter".to_string(), action(Some("enter"), vec![safe("Enter")]));
    let mut remaps: OrderedMap<String> = OrderedMap::new();
    remaps.insert("j".to_string(), "enter".to_string());
    remaps.insert("l".to_string(), "enter".to_string());
    let over = KeyBindings {
        remaps,
        on_key,
        on_alphabet: None,
        on_number: Some(action(Some("count"), vec![safe("BufferInputFromKey")])),
        on_special_character: None,
        default: Some(action(Some("any"), vec![safe("Refresh")])),
    };
    let r = base.clone().extend(over.clone());
    assert_eq!(r.on_key.len(), 5);
    assert_eq!(
        r.on_key.get("down"),
        Some(&action(Some("down"), vec![safe("FocusNextByRelativeIndex")]))
    );
    assert_eq!(r.on_key.get("enter"), over.on_key.get("enter"));
    assert_eq!(r.on_key.get("up"), base.on_key.get("up"));
    assert_eq!(r.remaps.len(), 6);
    assert_eq!(r.remaps.get("j"), Some(&"enter".to_string()));
    assert_eq!(r.remaps.get("k"), Some(&"up".to_string()));
    assert_eq!(r.remaps.get("l"), Some(&"enter".to_string()));
    assert_eq!(r.on_alphabet, base.on_alphabet);
    assert_eq!(r.on_number, over.on_number);
    assert_eq!(r.on_special_character, base.on_special_character);
    assert_eq!(r.default, over.default);
}

#[test]
fn key_bindings_extend_onto_themselves_changes_nothing() {
    let b = bindings();
    assert_eq!(b.clone().extend(b.clone()), b);
}

#[test]
fn remap_targets_are_recognised() {
    let b = bindings();
    assert!(b.is_remap_target("down"));
    assert!(b.is_remap_target("missing"));
    assert!(!b.is_remap_target("j"));
    assert!(!b.is_remap_target("enter"));
}
