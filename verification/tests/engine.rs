use windowsorter::{decide_action, Action, AppType, Rules, Window};

fn window(class: &str, workspace: u32) -> Window {
    Window { class: String::from(class), workspace }
}

fn one_rule(rule: AppType) -> Rules {
    Rules { app_types: vec![rule] }
}

#[test]
fn determinism_repeated_calls() {
    let rules = one_rule(AppType::new("media", &["mpv"], 4, &[1, 2], None));
    let w = window("mpv", 2);
    let first = decide_action(&w, &rules);
    let second = decide_action(&w, &rules);
    let third = decide_action(&w, &rules);
    assert_eq!(first, second);
    assert_eq!(second, third);
}

#[test]
fn case_insensitive_matching() {
    let rules = one_rule(AppType::new("browser", &["firefox"], 2, &[1], None));
    let a = decide_action(&window("Firefox", 1), &rules);
    let b = decide_action(&window("firefox", 1), &rules);
    let c = decide_action(&window("FIREFOX", 1), &rules);
    assert_eq!(a, b);
    assert_eq!(b, c);
    assert_eq!(a, Action::MoveTo(2));
}

#[test]
fn first_match_precedence() {
    let rules = Rules {
        app_types: vec![
            AppType::new("first", &["x"], 2, &[1], None),
            AppType::new("second", &["x"], 7, &[1], Some(9)),
        ],
    };
    // The first rule decides: remap from forbidden workspace 1 to its
    // default, not to the second rule's mandatory workspace.
    assert_eq!(decide_action(&window("x", 1), &rules), Action::MoveTo(2));
    // The first rule also decides the no-op case, although the second
    // would dictate a move to 9.
    assert_eq!(decide_action(&window("x", 5), &rules), Action::NoOp);
}

#[test]
fn mandatory_overrides_forbidden() {
    // Both a mandatory workspace and a forbidden set holding the current
    // workspace: the mandatory policy wins.
    let rules = one_rule(AppType::new("chat", &["slack"], 1, &[1], Some(3)));
    assert_eq!(decide_action(&window("slack", 1), &rules), Action::MoveTo(3));
    assert_eq!(decide_action(&window("slack", 3), &rules), Action::NoOp);
}

#[test]
fn no_match_is_no_op() {
    let rules = one_rule(AppType::new("media", &["mpv"], 4, &[1, 2], None));
    assert_eq!(decide_action(&window("emacs", 1), &rules), Action::NoOp);
    assert_eq!(decide_action(&window("", 2), &rules), Action::NoOp);
}

#[test]
fn empty_rules_are_no_op() {
    let rules = Rules { app_types: vec![] };
    assert_eq!(decide_action(&window("mpv", 1), &rules), Action::NoOp);
    assert_eq!(decide_action(&window("", 0), &rules), Action::NoOp);
    assert_eq!(decide_action(&window("anything", 42), &rules), Action::NoOp);
}

#[test]
fn scenario_media_player() {
    let rules = one_rule(AppType::new("media", &["mpv"], 4, &[1, 2], None));
    assert_eq!(decide_action(&window("mpv", 2), &rules), Action::MoveTo(4));
    assert_eq!(decide_action(&window("mpv", 4), &rules), Action::NoOp);
}

#[test]
fn scenario_mandatory_chat() {
    let rules = one_rule(AppType::new("chat", &["slack"], 1, &[], Some(3)));
    // "Slack" must be folded to "slack" to match at all: this fails if
    // lowercasing handed its argument back unchanged.
    assert_eq!(decide_action(&window("Slack", 1), &rules), Action::MoveTo(3));
    assert_eq!(decide_action(&window("slack", 3), &rules), Action::NoOp);
}

#[test]
fn scenario_default_also_forbidden() {
    // Pathological config: the rule's own default workspace is forbidden.
    // The engine still reports the (in practice no-op) move.
    let rules = one_rule(AppType::new("odd", &["a"], 5, &[5], None));
    assert_eq!(decide_action(&window("a", 5), &rules), Action::MoveTo(5));
}

#[test]
fn matches_class_is_membership() {
    let rule = AppType::new("multi", &["a", "a", "b"], 1, &[], None);
    assert!(rule.matches_class("a"));
    assert!(rule.matches_class("b"));
    assert!(!rule.matches_class("c"));
    assert!(!rule.matches_class(""));
}

#[test]
fn new_keeps_fields() {
    let rule = AppType::new("term", &["alacritty", "kitty"], 2, &[3, 3, 4], Some(6));
    assert_eq!(rule.name, "term");
    assert_eq!(rule.default_workspace, 2);
    assert_eq!(rule.mandatory_workspace, Some(6));
    // The duplicated forbidden entry is kept once: the list stands for a set.
    assert_eq!(rule.forbidden, vec![3, 4]);
    assert_eq!(rule.classes, vec!["alacritty".to_string(), "kitty".to_string()]);
}
