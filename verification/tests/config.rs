use windowsorter::config::{AppConfig, ConfigFile};
use windowsorter::{decide_action, Action, Window};

fn entry(
    name: Option<&str>,
    classes: &[&str],
    default_workspace: u32,
    forbidden: &[u32],
    mandatory_workspace: Option<u32>,
) -> AppConfig {
    AppConfig {
        name: name.map(String::from),
        classes: classes.iter().map(|s| s.to_string()).collect(),
        default_workspace,
        forbidden: forbidden.to_vec(),
        mandatory_workspace,
    }
}

#[test]
fn to_rules_lowercases_classes() {
    let cfg = ConfigFile { app: vec![entry(Some("browser"), &["FireFox"], 2, &[1], None)] };
    let rules = cfg.to_rules();
    assert_eq!(rules.app_types.len(), 1);
    assert!(rules.app_types[0].matches_class("firefox"));
    assert!(!rules.app_types[0].matches_class("FireFox"));
    let w = Window { class: String::from("Firefox"), workspace: 1 };
    assert_eq!(decide_action(&w, &rules), Action::MoveTo(2));
}

#[test]
fn to_rules_deduplicates() {
    let cfg = ConfigFile { app: vec![entry(Some("x"), &["A", "a", "b"], 1, &[2, 2, 3], None)] };
    let rules = cfg.to_rules();
    assert_eq!(rules.app_types[0].classes, vec!["a".to_string(), "b".to_string()]);
    assert_eq!(rules.app_types[0].forbidden, vec![2, 3]);
}

#[test]
fn to_rules_keeps_given_name() {
    let cfg = ConfigFile { app: vec![entry(Some("my terminal"), &["kitty"], 1, &[], None)] };
    assert_eq!(cfg.to_rules().app_types[0].name, "my terminal");
}

#[test]
fn to_rules_synthesizes_missing_name() {
    let cfg = ConfigFile { app: vec![entry(None, &["B", "a", "b"], 1, &[], None)] };
    // Classes lowercase and deduplicate to {b, a}; the name joins them.
    assert_eq!(cfg.to_rules().app_types[0].name, "b,a");

    let single = ConfigFile { app: vec![entry(None, &["mpv"], 1, &[], None)] };
    assert_eq!(single.to_rules().app_types[0].name, "mpv");

    let none = ConfigFile { app: vec![entry(None, &[], 1, &[], None)] };
    assert_eq!(none.to_rules().app_types[0].name, "");
}

#[test]
fn to_rules_passes_workspaces_through() {
    let cfg = ConfigFile { app: vec![entry(None, &["slack"], 7, &[1, 9], Some(3))] };
    let rule = &cfg.to_rules().app_types[0];
    assert_eq!(rule.default_workspace, 7);
    assert_eq!(rule.forbidden, vec![1, 9]);
    assert_eq!(rule.mandatory_workspace, Some(3));
}

#[test]
fn to_rules_preserves_declaration_order() {
    let cfg = ConfigFile {
        app: vec![
            entry(Some("first"), &["x"], 2, &[1], None),
            entry(Some("second"), &["x"], 7, &[1], Some(9)),
        ],
    };
    let rules = cfg.to_rules();
    assert_eq!(rules.app_types.len(), 2);
    assert_eq!(rules.app_types[0].name, "first");
    assert_eq!(rules.app_types[1].name, "second");
    // First-match precedence over the built rules.
    let w = Window { class: String::from("x"), workspace: 1 };
    assert_eq!(decide_action(&w, &rules), Action::MoveTo(2));
}

#[test]
fn empty_config_yields_inert_rules() {
    let cfg = ConfigFile { app: vec![] };
    let rules = cfg.to_rules();
    assert!(rules.app_types.is_empty());
    let w = Window { class: String::from("mpv"), workspace: 1 };
    assert_eq!(decide_action(&w, &rules), Action::NoOp);
}
