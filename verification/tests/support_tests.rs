use blitz_mustang::dom_control::DefaultDomPolicy;
use blitz_mustang::dom_control::DomCapabilityPolicy;
use blitz_mustang::focus::generate_focus_events;
use blitz_mustang::focus::FocusEvent;
use blitz_mustang::focus::FocusEventKind;
use blitz_mustang::script::EventHandled;
use blitz_mustang::script::NoopScriptEngine;
use blitz_mustang::script::ScriptError;
use blitz_mustang::script::ScriptLanguage;

#[test]
fn test_focus_events_move() {
    let events = generate_focus_events(Some(1), Some(2));
    assert_eq!(
        events,
        vec![
            FocusEvent { node: 1, kind: FocusEventKind::Blur },
            FocusEvent { node: 1, kind: FocusEventKind::FocusOut },
            FocusEvent { node: 2, kind: FocusEventKind::Focus },
            FocusEvent { node: 2, kind: FocusEventKind::FocusIn },
        ]
    );
}

#[test]
fn test_focus_events_gain_only() {
    let events = generate_focus_events(None, Some(3));
    assert_eq!(
        events,
        vec![
            FocusEvent { node: 3, kind: FocusEventKind::Focus },
            FocusEvent { node: 3, kind: FocusEventKind::FocusIn },
        ]
    );
}

#[test]
fn test_focus_events_loss_only() {
    let events = generate_focus_events(Some(4), None);
    assert_eq!(
        events,
        vec![
            FocusEvent { node: 4, kind: FocusEventKind::Blur },
            FocusEvent { node: 4, kind: FocusEventKind::FocusOut },
        ]
    );
}

#[test]
fn test_focus_events_unchanged() {
    assert!(generate_focus_events(Some(5), Some(5)).is_empty());
    assert!(generate_focus_events(None, None).is_empty());
}

#[test]
fn test_noop_engine_tick() {
    let mut engine = NoopScriptEngine;
    assert!(matches!(engine.tick(), Ok(false)));
}

#[test]
fn test_noop_engine_execute_unsupported() {
    let mut engine = NoopScriptEngine;
    match engine.execute("1 + 1", ScriptLanguage::JavaScript) {
        Err(ScriptError::UnsupportedLanguage(lang)) => assert_eq!(lang, "javascript"),
        _ => panic!("expected an unsupported-language error"),
    }
}

#[test]
fn test_noop_engine_propagates_events() {
    let mut engine = NoopScriptEngine;
    assert!(matches!(engine.handle_event(), EventHandled::Propagate));
}

#[test]
fn test_script_language_names() {
    assert_eq!(ScriptLanguage::JavaScript.as_str(), "javascript");
    assert_eq!(ScriptLanguage::Lua.as_str(), "lua");
    assert_eq!(ScriptLanguage::Casm.as_str(), "casm");
}

#[test]
fn test_default_dom_policy_allows_everything() {
    let policy = DefaultDomPolicy;
    assert!(policy.allow_query(0, "#app"));
    assert!(policy.allow_mutation(0, 7, "set_attribute"));
    assert!(policy.allow_event_listener(0, 7, "click"));
}
