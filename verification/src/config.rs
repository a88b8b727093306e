//! Raw configuration entries and their conversion into runtime [`Rules`].
//!
//! The serialization format and the reading of the file belong to the caller;
//! this module only turns already-parsed raw entries into the immutable rule
//! set that the engine consumes: classes are lowercased and deduplicated,
//! a missing name is synthesized from the class set, and declaration order
//! is preserved exactly.
use vstd::prelude::*;
use vstd::string::StringExecFns;

use crate::class_listed;
use crate::dedup_strings;
use crate::dedup_workspaces;
use crate::lower_of;
use crate::lowercase;
use crate::no_duplicates;
use crate::AppType;
use crate::Rules;

verus! {

/// Representation of a single raw app entry from configuration.
#[derive(Debug, Clone)]
pub struct AppConfig {
    pub name: Option<String>,
    pub classes: Vec<String>,
    pub default_workspace: u32,
    pub forbidden: Vec<u32>,
    pub mandatory_workspace: Option<u32>,
}

/// Top-level raw configuration: an ordered list of app entries.
#[derive(Debug, Clone)]
pub struct ConfigFile {
    pub app: Vec<AppConfig>,
}

/// The class parts joined with a single comma between neighbours.
pub open spec fn spec_join_comma(parts: Seq<Seq<char>>) -> Seq<char>
    decreases parts.len(),
{
    if parts.len() == 0 {
        Seq::empty()
    } else if parts.len() == 1 {
        parts[0]
    } else {
        spec_join_comma(parts.drop_last()) + seq![','] + parts.last()
    }
}

/// How one runtime rule relates to the raw entry it was built from:
/// classes are the lowercase mappings of the raw classes (as a set, free of
/// duplicates), the forbidden set keeps its members, workspace numbers pass
/// through unchanged, and a missing name is synthesized by joining the
/// class set with commas.
pub open spec fn rule_built_from(app: AppType, raw: AppConfig) -> bool {
    &&& forall|c: Seq<char>|
        #[trigger] class_listed(app.classes.deep_view(), c) <==> (exists|j: int|
            0 <= j < raw.classes@.len() && lower_of(raw.classes@[j]@) == c)
    &&& no_duplicates(app.classes.deep_view())
    &&& app.default_workspace == raw.default_workspace
    &&& forall|w: u32| #[trigger] app.forbidden@.contains(w) <==> raw.forbidden@.contains(w)
    &&& no_duplicates(app.forbidden@)
    &&& app.mandatory_workspace == raw.mandatory_workspace
    &&& match raw.name {
        Option::Some(n) => app.name@ == n@,
        Option::None => app.name@ == spec_join_comma(app.classes.deep_view()),
    }
}

/// Joins the strings with commas, in list order.
fn join_comma(parts: &Vec<String>) -> (r: String)
    ensures
        r@ == spec_join_comma(parts.deep_view()),
{
    let ghost dv = parts.deep_view();
    let mut out = String::new();
    let mut i: usize = 0;
    while i < parts.len()
        invariant
            dv == parts.deep_view(),
            0 <= i <= parts.len(),
            out@ == spec_join_comma(dv.take(i as int)),
        decreases parts.len() - i,
    {
        if i > 0 {
            out.append(",");
        }
        out.append(parts[i].as_str());
        proof {
            reveal_strlit(",");
            assert(dv.take(i + 1).drop_last() =~= dv.take(i as int));
            assert(dv.take(i + 1).last() == dv[i as int]);
            if i == 0 {
                assert(out@ =~= dv[0]);
                assert(dv.take(1) =~= seq![dv[0]]);
            } else {
                assert(out@ =~= spec_join_comma(dv.take(i as int)) + seq![','] + dv[i as int]);
            }
        }
        i += 1;
    }
    proof {
        assert(dv.take(parts.len() as int) =~= dv);
    }
    out
}

/// Builds one runtime rule from one raw entry.
fn build_rule(raw: &AppConfig) -> (app: AppType)
    ensures
        rule_built_from(app, *raw),
{
    let mut all: Vec<String> = Vec::new();
    let mut i: usize = 0;
    while i < raw.classes.len()
        invariant
            0 <= i <= raw.classes.len(),
            all@.len() == i,
            forall|j: int| 0 <= j < i ==> all.deep_view()[j] == lower_of(raw.classes@[j]@),
        decreases raw.classes.len() - i,
    {
        let s = lowercase(raw.classes[i].as_str());
        let ghost prev = all.deep_view();
        let ghost sv = s@;
        all.push(s);
        proof {
            assert(all.deep_view() =~= prev.push(sv));
            assert(sv == lower_of(raw.classes@[i as int]@));
        }
        i += 1;
    }
    let cl = dedup_strings(&all);
    proof {
        assert(all.deep_view().len() == raw.classes@.len());
        assert forall|c: Seq<char>| #[trigger] class_listed(cl.deep_view(), c) implies (
        exists|j: int| 0 <= j < raw.classes@.len() && lower_of(raw.classes@[j]@) == c) by {
            assert(class_listed(all.deep_view(), c));
            let k = choose|k: int| 0 <= k < all.deep_view().len() && all.deep_view()[k] == c;
            assert(0 <= k < raw.classes@.len() && lower_of(raw.classes@[k]@) == c);
        }
        assert forall|c: Seq<char>| (exists|j: int|
            0 <= j < raw.classes@.len() && lower_of(raw.classes@[j]@) == c)
            implies #[trigger] class_listed(cl.deep_view(), c) by {
            let j = choose|j: int|
                0 <= j < raw.classes@.len() && lower_of(raw.classes@[j]@) == c;
            assert(all.deep_view()[j] == c);
            assert(class_listed(all.deep_view(), c));
        }
    }
    let fb = dedup_workspaces(raw.forbidden.as_slice());
    let name = match &raw.name {
        Some(n) => n.clone(),
        None => join_comma(&cl),
    };
    AppType {
        name,
        classes: cl,
        default_workspace: raw.default_workspace,
        forbidden: fb,
        mandatory_workspace: raw.mandatory_workspace,
    }
}

impl ConfigFile {
    /// Convert to runtime Rules: one rule per raw entry, in declaration
    /// order, each built as `rule_built_from` states.
    pub fn to_rules(&self) -> (r: Rules)
        ensures
            r.app_types@.len() == self.app@.len(),
            forall|e: int|
                0 <= e < self.app@.len() ==> rule_built_from(
                    #[trigger] r.app_types@[e],
                    self.app@[e],
                ),
    {
        let mut app_types: Vec<AppType> = Vec::new();
        let mut i: usize = 0;
        while i < self.app.len()
            invariant
                app_types@.len() == i,
                0 <= i <= self.app.len(),
                forall|e: int|
                    0 <= e < i ==> rule_built_from(#[trigger] app_types@[e], self.app@[e]),
            decreases self.app.len() - i,
        {
            let app = build_rule(&self.app[i]);
            app_types.push(app);
            i += 1;
        }
        Rules { app_types }
    }
}

} // verus!
