//! Rule engine for moving windows between workspaces.
//!
//! A small ordered list of [`AppType`] rules decides, for a window identified
//! by its class and current workspace, whether the window should be moved to
//! another workspace. Matching is case-insensitive on the class, the first
//! matching rule wins, and a rule's `mandatory_workspace` takes precedence
//! over its `forbidden`/`default_workspace` policy.
use vstd::prelude::*;
use vstd::string::StringExecFns;

pub mod config;

verus! {

/// A simple representation of a window.
#[derive(Debug, Clone, PartialEq, Eq)]
pub struct Window {
    /// Window class (e.g., "firefox", "Alacritty"). Lowercase preferred.
    pub class: String,
    /// Numeric workspace index (1-based).
    pub workspace: u32,
}

/// What action to take for a window.
#[derive(Debug, Clone, PartialEq, Eq)]
pub enum Action {
    /// Do nothing.
    NoOp,
    /// Move to the given workspace.
    MoveTo(u32),
}

/// A general application type: matches a set of classes, provides a default
/// workspace, a set of forbidden workspaces and an optional mandatory
/// workspace where instances must live.
#[derive(Debug, Clone)]
pub struct AppType {
    /// Human readable name.
    pub name: String,
    /// Lowercased class names to match. Order carries no meaning: only
    /// membership does, and `new` keeps the list free of duplicates.
    pub classes: Vec<String>,
    /// Default workspace to move to when remapping from a forbidden location.
    pub default_workspace: u32,
    /// Workspaces that this app must not be opened on (will be remapped).
    pub forbidden: Vec<u32>,
    /// If set, this is the mandatory workspace for the app type. If present,
    /// windows of this type should always be moved here.
    pub mandatory_workspace: Option<u32>,
}

/// Rules configuration: a list of `AppType`s. The first matching app type wins.
#[derive(Debug, Clone)]
pub struct Rules {
    pub app_types: Vec<AppType>,
}

/// The Unicode lowercase mapping of a string, as `str::to_lowercase`
/// computes it. The mapping is pinned down only by the trusted wrapper
/// around that call: contracts relate results of the engine through it.
pub uninterp spec fn lower_of(s: Seq<char>) -> Seq<char>;

/// Relies on `str::to_lowercase`: the returned string is the Unicode
/// lowercase mapping of the input and depends on the input characters alone.
#[verifier::external_body]
pub(crate) fn lowercase(s: &str) -> (r: String)
    ensures
        r@ == lower_of(s@),
{
    s.to_lowercase()
}

/// Membership of a class string in a list of class strings, compared by
/// characters: the list stands for a set.
pub open spec fn class_listed(classes: Seq<Seq<char>>, c: Seq<char>) -> bool {
    classes.contains(c)
}

/// A list free of duplicates: it faithfully represents a set.
pub open spec fn no_duplicates<T>(s: Seq<T>) -> bool {
    forall|i: int, j: int| 0 <= i < j < s.len() ==> s[i] != s[j]
}

/// Whether the (already lowercased) class belongs to this app type.
pub open spec fn spec_matches(app: AppType, class_lc: Seq<char>) -> bool {
    class_listed(app.classes.deep_view(), class_lc)
}

/// Membership of a string in a list of strings, compared by characters.
pub(crate) fn class_vec_contains(classes: &Vec<String>, c: &String) -> (r: bool)
    ensures
        r == class_listed(classes.deep_view(), c@),
{
    let mut i: usize = 0;
    while i < classes.len()
        invariant
            0 <= i <= classes.len(),
            forall|j: int| 0 <= j < i ==> classes.deep_view()[j] != c@,
        decreases classes.len() - i,
    {
        if classes[i] == *c {
            assert(classes.deep_view()[i as int] == c@);
            return true;
        }
        i += 1;
    }
    false
}

/// Copies the strings in order, keeping only the first occurrence of each:
/// the result lists the same class set, free of duplicates.
pub(crate) fn dedup_strings(src: &Vec<String>) -> (r: Vec<String>)
    ensures
        forall|c: Seq<char>|
            #[trigger] class_listed(r.deep_view(), c) == class_listed(src.deep_view(), c),
        no_duplicates(r.deep_view()),
{
    let mut out: Vec<String> = Vec::new();
    let mut i: usize = 0;
    while i < src.len()
        invariant
            0 <= i <= src.len(),
            no_duplicates(out.deep_view()),
            forall|c: Seq<char>|
                #[trigger] class_listed(out.deep_view(), c) <==> (exists|j: int|
                    0 <= j < i && src.deep_view()[j] == c),
        decreases src.len() - i,
    {
        let s = src[i].clone();
        let ghost sv = s@;
        let ghost prev = out.deep_view();
        let present = class_vec_contains(&out, &s);
        if !present {
            out.push(s);
        }
        proof {
            assert(sv == src.deep_view()[i as int]);
            if !present {
                assert(out.deep_view() =~= prev.push(sv));
            }
            assert forall|c: Seq<char>| #[trigger] class_listed(out.deep_view(), c) implies (
            exists|j: int| 0 <= j < i + 1 && src.deep_view()[j] == c) by {
                if !present {
                    vstd::seq_lib::lemma_seq_contains_after_push(prev, sv, c);
                }
                if prev.contains(c) {
                    assert(class_listed(prev, c));
                    let j = choose|j: int| 0 <= j < i && src.deep_view()[j] == c;
                    assert(0 <= j < i + 1 && src.deep_view()[j] == c);
                } else {
                    assert(c == sv);
                    assert(src.deep_view()[i as int] == c);
                }
            }
            assert forall|c: Seq<char>| (exists|j: int|
                0 <= j < i + 1 && src.deep_view()[j] == c) implies #[trigger] class_listed(
                out.deep_view(),
                c,
            ) by {
                if !present {
                    vstd::seq_lib::lemma_seq_contains_after_push(prev, sv, c);
                }
                let j = choose|j: int| 0 <= j < i + 1 && src.deep_view()[j] == c;
                if j < i {
                    assert(class_listed(prev, c));
                } else {
                    assert(c == sv);
                    if present {
                        assert(class_listed(prev, sv));
                    }
                }
            }
            assert forall|a: int, b: int|
                0 <= a < b < out.deep_view().len() implies out.deep_view()[a]
                != out.deep_view()[b] by {
                if !present && b == prev.len() {
                    assert(out.deep_view()[b] == sv);
                    assert(prev[a] == out.deep_view()[a]);
                    assert(!prev.contains(sv));
                }
            }
        }
        i += 1;
    }
    out
}

/// Copies the workspace numbers in order, keeping only the first occurrence
/// of each: the result holds the same set, free of duplicates.
pub(crate) fn dedup_workspaces(src: &[u32]) -> (r: Vec<u32>)
    ensures
        forall|w: u32| #[trigger] r@.contains(w) == src@.contains(w),
        no_duplicates(r@),
{
    let mut out: Vec<u32> = Vec::new();
    let mut k: usize = 0;
    while k < src.len()
        invariant
            0 <= k <= src.len(),
            no_duplicates(out@),
            forall|w: u32|
                #[trigger] out@.contains(w) <==> (exists|j: int| 0 <= j < k && src@[j] == w),
        decreases src.len() - k,
    {
        let w = src[k];
        let ghost prev = out@;
        let present = forbidden_contains(&out, w);
        if !present {
            out.push(w);
        }
        proof {
            if !present {
                assert(out@ =~= prev.push(w));
            }
            assert forall|x: u32| #[trigger] out@.contains(x) implies (exists|j: int|
                0 <= j < k + 1 && src@[j] == x) by {
                if !present {
                    vstd::seq_lib::lemma_seq_contains_after_push(prev, w, x);
                }
                if prev.contains(x) {
                    let j = choose|j: int| 0 <= j < k && src@[j] == x;
                    assert(0 <= j < k + 1 && src@[j] == x);
                } else {
                    assert(x == w);
                    assert(src@[k as int] == x);
                }
            }
            assert forall|x: u32| (exists|j: int| 0 <= j < k + 1 && src@[j] == x)
                implies #[trigger] out@.contains(x) by {
                if !present {
                    vstd::seq_lib::lemma_seq_contains_after_push(prev, w, x);
                }
                let j = choose|j: int| 0 <= j < k + 1 && src@[j] == x;
                if j < k {
                    assert(prev.contains(x));
                } else {
                    assert(x == w);
                    if present {
                        assert(prev.contains(w));
                    }
                }
            }
            assert forall|a: int, b: int| 0 <= a < b < out@.len() implies out@[a] != out@[b] by {
                if !present && b == prev.len() {
                    assert(out@[b] == w);
                    assert(prev[a] == out@[a]);
                    assert(!prev.contains(w));
                }
            }
        }
        k += 1;
    }
    out
}

impl AppType {
    /// Convenience constructor from slices. Classes are taken as given (not
    /// lowercased here); each of the two list arguments is deduplicated, so
    /// the stored lists carry set semantics.
    pub fn new(
        name: &str,
        classes: &[&str],
        default_workspace: u32,
        forbidden: &[u32],
        mandatory_workspace: Option<u32>,
    ) -> (r: AppType)
        ensures
            r.name@ == name@,
            forall|c: Seq<char>|
                #[trigger] class_listed(r.classes.deep_view(), c) == class_listed(
                    classes.deep_view(),
                    c,
                ),
            no_duplicates(r.classes.deep_view()),
            r.default_workspace == default_workspace,
            forall|w: u32| r.forbidden@.contains(w) == forbidden@.contains(w),
            no_duplicates(r.forbidden@),
            r.mandatory_workspace == mandatory_workspace,
    {
        let mut all: Vec<String> = Vec::new();
        let mut i: usize = 0;
        while i < classes.len()
            invariant
                0 <= i <= classes.len(),
                all@.len() == i,
                forall|j: int| 0 <= j < i ==> all.deep_view()[j] == classes.deep_view()[j],
            decreases classes.len() - i,
        {
            let s = String::from_str(classes[i]);
            let ghost prev = all.deep_view();
            let ghost sv = s@;
            all.push(s);
            proof {
                assert(all.deep_view() =~= prev.push(sv));
                assert(sv == classes.deep_view()[i as int]);
            }
            i += 1;
        }
        proof {
            assert(all.deep_view() =~= classes.deep_view());
        }
        AppType {
            name: String::from_str(name),
            classes: dedup_strings(&all),
            default_workspace,
            forbidden: dedup_workspaces(forbidden),
            mandatory_workspace,
        }
    }

    /// Returns true if the given lowercased class matches this app type.
    pub fn matches_class(&self, class_lc: &str) -> (r: bool)
        ensures
            r == spec_matches(*self, class_lc@),
    {
        let needle = String::from_str(class_lc);
        class_vec_contains(&self.classes, &needle)
    }
}

/// The outcome the first matching rule dictates for a window standing on
/// `workspace`: a mandatory workspace wins over the forbidden/default policy.
pub open spec fn spec_rule_action(app: AppType, workspace: u32) -> Action {
    match app.mandatory_workspace {
        Option::Some(m) => if workspace != m {
            Action::MoveTo(m)
        } else {
            Action::NoOp
        },
        Option::None => if app.forbidden@.contains(workspace) {
            Action::MoveTo(app.default_workspace)
        } else {
            Action::NoOp
        },
    }
}

/// Scan of the rule list in declaration order: the first app type whose
/// class set holds the lowercased class decides; none matching means no-op.
pub open spec fn spec_decide_seq(class_lc: Seq<char>, workspace: u32, apps: Seq<AppType>) -> Action
    decreases apps.len(),
{
    if apps.len() == 0 {
        Action::NoOp
    } else if spec_matches(apps[0], class_lc) {
        spec_rule_action(apps[0], workspace)
    } else {
        spec_decide_seq(class_lc, workspace, apps.drop_first())
    }
}

/// What `decide_action` returns: the scan of the rules against the
/// lowercase mapping of the window's class.
pub open spec fn spec_decide(window: Window, rules: Rules) -> Action {
    spec_decide_seq(lower_of(window.class@), window.workspace, rules.app_types@)
}

/// A scan skips over a prefix in which nothing matches.
proof fn lemma_decide_seq_skip_prefix(class_lc: Seq<char>, workspace: u32, apps: Seq<AppType>, k: int)
    requires
        0 <= k <= apps.len(),
        forall|j: int| 0 <= j < k ==> !spec_matches(#[trigger] apps[j], class_lc),
    ensures
        spec_decide_seq(class_lc, workspace, apps) == spec_decide_seq(
            class_lc,
            workspace,
            apps.skip(k),
        ),
    decreases k,
{
    if k == 0 {
        assert(apps.skip(0) =~= apps);
    } else {
        assert(!spec_matches(apps[0], class_lc));
        assert forall|j: int| 0 <= j < k - 1 implies !spec_matches(
            #[trigger] apps.drop_first()[j],
            class_lc,
        ) by {
            assert(apps.drop_first()[j] == apps[j + 1]);
        }
        lemma_decide_seq_skip_prefix(class_lc, workspace, apps.drop_first(), k - 1);
        assert(apps.drop_first().skip(k - 1) =~= apps.skip(k));
    }
}

/// Membership of a workspace in the forbidden list.
pub(crate) fn forbidden_contains(forbidden: &Vec<u32>, workspace: u32) -> (r: bool)
    ensures
        r == forbidden@.contains(workspace),
{
    let mut i: usize = 0;
    while i < forbidden.len()
        invariant
            0 <= i <= forbidden.len(),
            forall|j: int| 0 <= j < i ==> forbidden@[j] != workspace,
        decreases forbidden.len() - i,
    {
        if forbidden[i] == workspace {
            return true;
        }
        i += 1;
    }
    false
}

/// Decide what to do with a newly opened or focused window.
///
/// Pure and total: the class is lowercased, the rules are scanned in
/// declaration order, and the first app type listing the class decides.
pub fn decide_action(window: &Window, rules: &Rules) -> (r: Action)
    ensures
        r == spec_decide(*window, *rules),
{
    let class = lowercase(window.class.as_str());
    let ghost class_lc = lower_of(window.class@);
    let mut i: usize = 0;
    while i < rules.app_types.len()
        invariant
            class@ == class_lc,
            class_lc == lower_of(window.class@),
            0 <= i <= rules.app_types.len(),
            forall|j: int|
                0 <= j < i ==> !spec_matches(#[trigger] rules.app_types@[j], class_lc),
        decreases rules.app_types.len() - i,
    {
        let app = &rules.app_types[i];
        if app.matches_class(class.as_str()) {
            proof {
                lemma_decide_seq_skip_prefix(class_lc, window.workspace, rules.app_types@, i as int);
                assert(rules.app_types@.skip(i as int)[0] == rules.app_types@[i as int]);
            }
            if let Some(mand_ws) = app.mandatory_workspace {
                if window.workspace != mand_ws {
                    return Action::MoveTo(mand_ws);
                }
                return Action::NoOp;
            }
            if forbidden_contains(&app.forbidden, window.workspace) {
                return Action::MoveTo(app.default_workspace);
            }
            return Action::NoOp;
        }
        i += 1;
    }
    proof {
        lemma_decide_seq_skip_prefix(
            class_lc,
            window.workspace,
            rules.app_types@,
            rules.app_types@.len() as int,
        );
    }
    Action::NoOp
}

/// Determinism: the decision is a function of the window and the rules
/// alone, so any two results obtained for the same pair are equal. This is
/// what `decide_action`'s contract pins each call's result to.
pub proof fn lemma_decide_deterministic(window: Window, rules: Rules, r1: Action, r2: Action)
    requires
        r1 == spec_decide(window, rules),
        r2 == spec_decide(window, rules),
    ensures
        r1 == r2,
{
}

/// Case insensitivity: two windows on the same workspace whose classes have
/// the same lowercase mapping (as spellings of one word in different cases
/// do) receive the same decision.
pub proof fn lemma_decide_case_insensitive(w1: Window, w2: Window, rules: Rules)
    requires
        lower_of(w1.class@) == lower_of(w2.class@),
        w1.workspace == w2.workspace,
    ensures
        spec_decide(w1, rules) == spec_decide(w2, rules),
{
}

/// First-match precedence: where rule `i` matches the window's class and no
/// earlier rule does, rule `i`'s policy alone determines the outcome,
/// whatever any later rule would dictate.
pub proof fn lemma_first_match_wins(window: Window, rules: Rules, i: int)
    requires
        0 <= i < rules.app_types@.len(),
        spec_matches(rules.app_types@[i], lower_of(window.class@)),
        forall|j: int|
            0 <= j < i ==> !spec_matches(#[trigger] rules.app_types@[j], lower_of(window.class@)),
    ensures
        spec_decide(window, rules) == spec_rule_action(rules.app_types@[i], window.workspace),
{
    lemma_decide_seq_skip_prefix(lower_of(window.class@), window.workspace, rules.app_types@, i);
    assert(rules.app_types@.skip(i)[0] == rules.app_types@[i]);
}

/// A mandatory workspace overrides the forbidden/default policy: where the
/// first matching rule carries `mandatory_workspace = m`, the outcome is a
/// move to `m` (or no-op if the window already stands there), regardless of
/// what the rule's `forbidden` set and `default_workspace` hold.
pub proof fn lemma_mandatory_overrides_forbidden(window: Window, rules: Rules, i: int, m: u32)
    requires
        0 <= i < rules.app_types@.len(),
        spec_matches(rules.app_types@[i], lower_of(window.class@)),
        forall|j: int|
            0 <= j < i ==> !spec_matches(#[trigger] rules.app_types@[j], lower_of(window.class@)),
        rules.app_types@[i].mandatory_workspace == Option::Some(m),
    ensures
        spec_decide(window, rules) == if window.workspace != m {
            Action::MoveTo(m)
        } else {
            Action::NoOp
        },
{
    lemma_first_match_wins(window, rules, i);
}

/// No match means no-op: a window whose lowercased class stands in no rule's
/// class set is left alone.
pub proof fn lemma_no_match_no_op(window: Window, rules: Rules)
    requires
        forall|j: int|
            0 <= j < rules.app_types@.len() ==> !spec_matches(
                #[trigger] rules.app_types@[j],
                lower_of(window.class@),
            ),
    ensures
        spec_decide(window, rules) == Action::NoOp,
{
    lemma_decide_seq_skip_prefix(
        lower_of(window.class@),
        window.workspace,
        rules.app_types@,
        rules.app_types@.len() as int,
    );
}

/// An empty rule set decides no-op for every input.
pub proof fn lemma_empty_rules_no_op(window: Window, rules: Rules)
    requires
        rules.app_types@.len() == 0,
    ensures
        spec_decide(window, rules) == Action::NoOp,
{
}

} // verus!
