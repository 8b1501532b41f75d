//! App rules: which of them a window meets, and which one is applied.
use crate::config::AppWorkspaceRule;
use crate::text::{eq_ignore_ascii_case, text_contains, text_eq};
use vstd::prelude::*;

verus! {

/// A compiled regular expression.
#[verifier::external_type_specification]
#[verifier::external_body]
pub struct ExRegex(regex::Regex);

/// The regular expression that a pattern compiles to, case being ignored;
/// `None` for a pattern that is not valid.
pub uninterp spec fn compiled(pattern: Seq<char>) -> Option<regex::Regex>;

/// A regular expression matches somewhere in a text.
pub uninterp spec fn found_in(re: regex::Regex, text: Seq<char>) -> bool;

/// `regex::RegexBuilder` with `case_insensitive(true)`, then `build`: what it
/// gives depends on the pattern alone. The reason of a refusal is dropped.
#[verifier::external_body]
fn compile(pattern: &str) -> (r: Option<regex::Regex>)
    ensures
        r == compiled(pattern@),
{
    regex::RegexBuilder::new(pattern).case_insensitive(true).build().ok()
}

/// `regex::Regex::is_match`: the answer depends on the expression and the text.
#[verifier::external_body]
fn matches_text(re: &regex::Regex, text: &str) -> (r: bool)
    ensures
        r == found_in(*re, text@),
{
    re.is_match(text)
}

/// What rules look at in a window.
pub struct WindowTraits {
    pub bundle_id: Option<Seq<char>>,
    pub app_name: Option<Seq<char>>,
    pub title: Option<Seq<char>>,
    pub ax_role: Option<Seq<char>>,
    pub ax_subrole: Option<Seq<char>>,
}

pub open spec fn text_view(s: Option<&str>) -> Option<Seq<char>> {
    match s {
        Some(text) => Some(text@),
        None => None,
    }
}

pub open spec fn window_traits(
    app_bundle_id: Option<&str>,
    app_name: Option<&str>,
    window_title: Option<&str>,
    ax_role: Option<&str>,
    ax_subrole: Option<&str>,
) -> WindowTraits {
    WindowTraits {
        bundle_id: text_view(app_bundle_id),
        app_name: text_view(app_name),
        title: text_view(window_title),
        ax_role: text_view(ax_role),
        ax_subrole: text_view(ax_subrole),
    }
}

/// A bundle identifier that differs from the rule's at most in ASCII case.
pub open spec fn app_id_met(rule: AppWorkspaceRule, t: WindowTraits) -> bool {
    rule.app_id matches Some(id) ==> t.bundle_id matches Some(bundle)
        && crate::text::same_ignoring_ascii_case(id@, bundle)
}

/// One of the two names contains the other, in lower case.
pub open spec fn app_name_met(rule: AppWorkspaceRule, t: WindowTraits) -> bool {
    rule.app_name matches Some(wanted) ==> t.app_name matches Some(name) && {
        let (a, b) = (crate::text::lowercase(name), crate::text::lowercase(wanted@));
        crate::text::contains_text(a, b) || crate::text::contains_text(b, a)
    }
}

/// A title in which the rule's pattern, which is valid and not empty, is found.
pub open spec fn title_regex_met(rule: AppWorkspaceRule, t: WindowTraits) -> bool {
    match rule.title_regex {
        Some(pattern) => pattern@.len() > 0 && match (t.title, compiled(pattern@)) {
            (Some(title), Some(re)) => found_in(re, title),
            _ => false,
        },
        None => true,
    }
}

/// A title that contains the rule's text, which is not empty, in lower case.
pub open spec fn title_substring_met(rule: AppWorkspaceRule, t: WindowTraits) -> bool {
    match rule.title_substring {
        Some(part) => part@.len() > 0 && match t.title {
            Some(title) => crate::text::contains_text(
                crate::text::lowercase(title),
                crate::text::lowercase(part@),
            ),
            None => false,
        },
        None => true,
    }
}

/// The value is there, is not empty, and is the wanted one.
pub open spec fn exactly(wanted: Option<String>, actual: Option<Seq<char>>) -> bool {
    wanted matches Some(text) ==> text@.len() > 0 && actual == Some(text@)
}

/// The window meets every condition that the rule gives.
pub open spec fn rule_met(rule: AppWorkspaceRule, t: WindowTraits) -> bool {
    &&& app_id_met(rule, t)
    &&& app_name_met(rule, t)
    &&& title_regex_met(rule, t)
    &&& title_substring_met(rule, t)
    &&& exactly(rule.ax_role, t.ax_role)
    &&& exactly(rule.ax_subrole, t.ax_subrole)
}

pub open spec fn counted(condition: Option<String>) -> nat {
    match condition {
        Some(text) if text@.len() > 0 => 1,
        _ => 0,
    }
}

/// The number of conditions of a rule that are not empty.
pub open spec fn specificity(rule: AppWorkspaceRule) -> nat {
    counted(rule.app_id) + counted(rule.app_name) + counted(rule.title_regex) + counted(
        rule.title_substring,
    ) + counted(rule.ax_role) + counted(rule.ax_subrole)
}

/// The app that a rule is for, where it names one.
pub open spec fn app_of(rule: AppWorkspaceRule) -> Option<Seq<char>> {
    match rule.app_id {
        Some(id) if id@.len() > 0 => Some(id@),
        _ => None,
    }
}

/// Rule `i` is met, and so is another rule for the same app.
pub open spec fn has_rival(rules: Seq<AppWorkspaceRule>, met: Seq<bool>, i: int) -> bool {
    met[i] && app_of(rules[i]) is Some && exists|j: int|
        0 <= j < rules.len() && j != i && #[trigger] met[j] && app_of(rules[j]) == app_of(rules[i])
}

/// Rule `i` is the first one with a rival.
pub open spec fn leads(rules: Seq<AppWorkspaceRule>, met: Seq<bool>, i: int) -> bool {
    &&& 0 <= i < rules.len()
    &&& has_rival(rules, met, i)
    &&& forall|k: int| 0 <= k < i ==> !#[trigger] has_rival(rules, met, k)
}

/// Rule `j` is met, and is for the app of the first rule with a rival, where
/// there is such a rule.
pub open spec fn in_question(rules: Seq<AppWorkspaceRule>, met: Seq<bool>, j: int) -> bool {
    &&& 0 <= j < rules.len()
    &&& met[j]
    &&& forall|i: int| #[trigger] leads(rules, met, i) ==> app_of(rules[j]) == app_of(rules[i])
}

/// Rule `i` is preferred to rule `j`: it is more specific, or as specific and
/// no later.
pub open spec fn preferred(rules: Seq<AppWorkspaceRule>, i: int, j: int) -> bool {
    specificity(rules[j]) < specificity(rules[i]) || (specificity(rules[j]) == specificity(rules[i])
        && i <= j)
}

/// Rule `i` is the one to apply, of the rules that are met.
pub open spec fn applies(rules: Seq<AppWorkspaceRule>, met: Seq<bool>, i: int) -> bool {
    &&& in_question(rules, met, i)
    &&& forall|j: int| #[trigger] in_question(rules, met, j) ==> preferred(rules, i, j)
}

/// Which of the rules a window meets.
pub open spec fn met_by(rules: Seq<AppWorkspaceRule>, t: WindowTraits) -> Seq<bool> {
    Seq::new(rules.len(), |i: int| rule_met(rules[i], t))
}

/// The rule that is applied to a window.
pub open spec fn rule_for(rules: Seq<AppWorkspaceRule>, t: WindowTraits) -> Option<
    AppWorkspaceRule,
> {
    if exists|i: int| #[trigger] applies(rules, met_by(rules, t), i) {
        Some(rules[choose|i: int| #[trigger] applies(rules, met_by(rules, t), i)])
    } else {
        None
    }
}

fn count(condition: &Option<String>) -> (r: usize)
    ensures
        r == counted(*condition),
        r <= 1,
{
    match condition {
        Some(text) => {
            if text.as_str().is_empty() {
                0
            } else {
                1
            }
        },
        None => 0,
    }
}

fn rule_specificity(rule: &AppWorkspaceRule) -> (r: usize)
    ensures
        r == specificity(*rule),
{
    count(&rule.app_id) + count(&rule.app_name) + count(&rule.title_regex) + count(
        &rule.title_substring,
    ) + count(&rule.ax_role) + count(&rule.ax_subrole)
}

fn is_exactly(wanted: &Option<String>, actual: Option<&str>) -> (r: bool)
    ensures
        r == exactly(*wanted, text_view(actual)),
{
    match wanted {
        Some(text) => {
            if text.as_str().is_empty() {
                return false;
            }
            match actual {
                Some(value) => text_eq(value, text.as_str()),
                None => false,
            }
        },
        None => true,
    }
}

/// The window meets the rule; `re` is the rule's compiled title pattern.
fn meets_rule(
    rule: &AppWorkspaceRule,
    re: &Option<regex::Regex>,
    app_bundle_id: Option<&str>,
    app_name: Option<&str>,
    window_title: Option<&str>,
    ax_role: Option<&str>,
    ax_subrole: Option<&str>,
) -> (r: bool)
    requires
        rule.title_regex matches Some(pattern) ==> pattern@.len() > 0 ==> *re == compiled(pattern@),
    ensures
        r == rule_met(
            *rule,
            window_traits(app_bundle_id, app_name, window_title, ax_role, ax_subrole),
        ),
{
    if let Some(rule_app_id) = &rule.app_id {
        match app_bundle_id {
            Some(bundle_id) => {
                if !eq_ignore_ascii_case(rule_app_id.as_str(), bundle_id) {
                    return false;
                }
            },
            None => return false,
        }
    }
    if let Some(rule_name) = &rule.app_name {
        match app_name {
            Some(name) => {
                let name_l = name.to_lowercase();
                let rule_name_l = rule_name.as_str().to_lowercase();
                if !(text_contains(name_l.as_str(), rule_name_l.as_str()) || text_contains(
                    rule_name_l.as_str(),
                    name_l.as_str(),
                )) {
                    return false;
                }
            },
            None => return false,
        }
    }
    if let Some(rule_re) = &rule.title_regex {
        if rule_re.as_str().is_empty() {
            return false;
        }
        match (window_title, re) {
            (Some(title), Some(re)) => {
                if !matches_text(re, title) {
                    return false;
                }
            },
            _ => return false,
        }
    }
    if let Some(title_sub) = &rule.title_substring {
        if title_sub.as_str().is_empty() {
            return false;
        }
        match window_title {
            Some(title) => {
                let title_l = title.to_lowercase();
                let sub_l = title_sub.as_str().to_lowercase();
                if !text_contains(title_l.as_str(), sub_l.as_str()) {
                    return false;
                }
            },
            None => return false,
        }
    }
    is_exactly(&rule.ax_role, ax_role) && is_exactly(&rule.ax_subrole, ax_subrole)
}

fn is_same_app(a: &AppWorkspaceRule, b: &AppWorkspaceRule) -> (r: bool)
    ensures
        r == (app_of(*a) is Some && app_of(*a) == app_of(*b)),
{
    match (&a.app_id, &b.app_id) {
        (Some(x), Some(y)) => !x.as_str().is_empty() && *x == *y,
        _ => false,
    }
}

fn is_rivalled(rules: &Vec<AppWorkspaceRule>, met: &Vec<bool>, i: usize) -> (r: bool)
    requires
        met@.len() == rules@.len(),
        i < rules@.len(),
    ensures
        r == has_rival(rules@, met@, i as int),
{
    if !met[i] {
        return false;
    }
    for j in 0..rules.len()
        invariant
            met@.len() == rules@.len(),
            i < rules@.len(),
            met@[i as int],
            forall|k: int|
                0 <= k < j && k != i && #[trigger] met@[k] ==> !(app_of(rules@[i as int]) is Some
                    && app_of(rules@[k]) == app_of(rules@[i as int])),
    {
        if j != i && met[j] && is_same_app(&rules[i], &rules[j]) {
            return true;
        }
    }
    false
}

/// The rule to apply, of the rules that are met.
pub fn select_rule(rules: &Vec<AppWorkspaceRule>, met: &Vec<bool>) -> (r: Option<usize>)
    requires
        met@.len() == rules@.len(),
    ensures
        match r {
            Some(i) => applies(rules@, met@, i as int),
            None => forall|i: int| 0 <= i < met@.len() ==> !#[trigger] met@[i],
        },
{
    let mut leader: Option<usize> = None;
    let mut i: usize = 0;
    while i < rules.len() && leader.is_none()
        invariant
            met@.len() == rules@.len(),
            i <= rules@.len(),
            leader is None ==> forall|k: int| 0 <= k < i ==> !#[trigger] has_rival(rules@, met@, k),
            leader matches Some(l) ==> leads(rules@, met@, l as int),
        decreases rules@.len() - i,
    {
        if is_rivalled(rules, met, i) {
            leader = Some(i);
        }
        i = i + 1;
    }
    proof {
        assert forall|a: int, b: int| #[trigger] leads(rules@, met@, a) && #[trigger] leads(
            rules@,
            met@,
            b,
        ) implies a == b by {
            assert(has_rival(rules@, met@, a) && has_rival(rules@, met@, b));
        }
    }
    let mut best: Option<usize> = None;
    for j in 0..rules.len()
        invariant
            met@.len() == rules@.len(),
            leader is None ==> forall|k: int|
                0 <= k < rules@.len() ==> !#[trigger] has_rival(rules@, met@, k),
            leader matches Some(l) ==> leads(rules@, met@, l as int),
            forall|a: int, b: int| #[trigger]
                leads(rules@, met@, a) && #[trigger] leads(rules@, met@, b) ==> a == b,
            best is None ==> forall|k: int| 0 <= k < j ==> !#[trigger] in_question(rules@, met@, k),
            best matches Some(b) ==> b < j && in_question(rules@, met@, b as int) && forall|k: int|
                0 <= k < j && #[trigger] in_question(rules@, met@, k) ==> preferred(
                    rules@,
                    b as int,
                    k,
                ),
    {
        let candidate = met[j] && match leader {
            Some(l) => is_same_app(&rules[l], &rules[j]),
            None => true,
        };
        assert(candidate == in_question(rules@, met@, j as int));
        if candidate {
            match best {
                Some(b) => {
                    if rule_specificity(&rules[j]) > rule_specificity(&rules[b]) {
                        best = Some(j);
                    }
                },
                None => {
                    best = Some(j);
                },
            }
        }
    }
    proof {
        if best is None {
            assert forall|k: int| 0 <= k < met@.len() implies !#[trigger] met@[k] by {
                match leader {
                    Some(l) => {
                        assert(in_question(rules@, met@, l as int));
                    },
                    None => {
                        assert(!in_question(rules@, met@, k));
                    },
                }
            }
        }
    }
    best
}

/// At most one rule is the one to apply.
pub proof fn lemma_one_rule_applies(
    rules: Seq<AppWorkspaceRule>,
    met: Seq<bool>,
    i: int,
    j: int,
)
    requires
        applies(rules, met, i),
        applies(rules, met, j),
    ensures
        i == j,
{
    assert(preferred(rules, i, j) && preferred(rules, j, i));
}

/// Some rule applies if any is met.
pub proof fn lemma_some_rule_applies(rules: Seq<AppWorkspaceRule>, met: Seq<bool>, i: int)
    requires
        met.len() == rules.len(),
        0 <= i < rules.len(),
        met[i],
    ensures
        exists|k: int| #[trigger] applies(rules, met, k),
{
    let candidate = if exists|k: int| #[trigger] leads(rules, met, k) {
        choose|k: int| #[trigger] leads(rules, met, k)
    } else {
        i
    };
    assert(in_question(rules, met, candidate)) by {
        assert forall|k: int| #[trigger] leads(rules, met, k) implies app_of(rules[candidate])
            == app_of(rules[k]) by {
            assert(leads(rules, met, candidate));
            assert(has_rival(rules, met, k) && has_rival(rules, met, candidate));
        }
    }
    lemma_best_in_question(rules, met, candidate);
}

/// Of the rules in question one is preferred to all.
proof fn lemma_best_in_question(rules: Seq<AppWorkspaceRule>, met: Seq<bool>, i: int)
    requires
        in_question(rules, met, i),
    ensures
        exists|k: int| #[trigger] applies(rules, met, k),
    decreases 6 - specificity(rules[i]), i,
{
    if exists|j: int| #[trigger] in_question(rules, met, j) && !preferred(rules, i, j) {
        let j = choose|j: int| #[trigger] in_question(rules, met, j) && !preferred(rules, i, j);
        lemma_best_in_question(rules, met, j);
    } else {
        assert(applies(rules, met, i));
    }
}

/// The compiled title pattern of a rule, where it has a valid one.
pub open spec fn title_pattern(rule: AppWorkspaceRule) -> Option<regex::Regex> {
    match rule.title_regex {
        Some(pattern) if pattern@.len() > 0 => compiled(pattern@),
        _ => None,
    }
}

/// The app rules together with their compiled title patterns.
#[derive(Debug)]
pub struct AppRuleSet {
    rules: Vec<AppWorkspaceRule>,
    regex_cache: Vec<Option<regex::Regex>>,
}

impl View for AppRuleSet {
    type V = Seq<AppWorkspaceRule>;

    closed spec fn view(&self) -> Seq<AppWorkspaceRule> {
        self.rules@
    }
}

/// The compiled title pattern of each rule.
fn rebuild_app_rule_regex_cache(rules: &Vec<AppWorkspaceRule>) -> (r: Vec<Option<regex::Regex>>)
    ensures
        r@ == rules@.map_values(|rule: AppWorkspaceRule| title_pattern(rule)),
{
    let mut r: Vec<Option<regex::Regex>> = Vec::new();
    for i in 0..rules.len()
        invariant
            r@ =~= rules@.take(i as int).map_values(|rule: AppWorkspaceRule| title_pattern(rule)),
    {
        let re = match &rules[i].title_regex {
            Some(pattern) => {
                if pattern.as_str().is_empty() {
                    None
                } else {
                    compile(pattern.as_str())
                }
            },
            None => None,
        };
        r.push(re);
    }
    assert(rules@.take(rules@.len() as int) =~= rules@);
    r
}

impl AppRuleSet {
    #[verifier::type_invariant]
    spec fn cache_fits(self) -> bool {
        self.regex_cache@ == self.rules@.map_values(|rule: AppWorkspaceRule| title_pattern(rule))
    }

    pub fn new(rules: Vec<AppWorkspaceRule>) -> (r: Self)
        ensures
            r@ == rules@,
    {
        let regex_cache = rebuild_app_rule_regex_cache(&rules);
        AppRuleSet { rules, regex_cache }
    }

    /// The rule that is applied to a window.
    pub fn find_matching_app_rule(
        &self,
        app_bundle_id: Option<&str>,
        app_name: Option<&str>,
        window_title: Option<&str>,
        ax_role: Option<&str>,
        ax_subrole: Option<&str>,
    ) -> (r: Option<&AppWorkspaceRule>)
        ensures
            match r {
                Some(rule) => rule_for(
                    self@,
                    window_traits(app_bundle_id, app_name, window_title, ax_role, ax_subrole),
                ) == Some(*rule),
                None => rule_for(
                    self@,
                    window_traits(app_bundle_id, app_name, window_title, ax_role, ax_subrole),
                ) is None,
            },
    {
        let ghost t = window_traits(app_bundle_id, app_name, window_title, ax_role, ax_subrole);
        proof {
            use_type_invariant(self);
        }
        let mut met: Vec<bool> = Vec::new();
        for i in 0..self.rules.len()
            invariant
                t == window_traits(app_bundle_id, app_name, window_title, ax_role, ax_subrole),
                self.regex_cache@ == self.rules@.map_values(
                    |rule: AppWorkspaceRule| title_pattern(rule),
                ),
                met@ =~= met_by(self.rules@, t).take(i as int),
        {
            met.push(
                meets_rule(
                    &self.rules[i],
                    &self.regex_cache[i],
                    app_bundle_id,
                    app_name,
                    window_title,
                    ax_role,
                    ax_subrole,
                ),
            );
        }
        assert(met@ =~= met_by(self.rules@, t));
        match select_rule(&self.rules, &met) {
            Some(i) => {
                proof {
                    let chosen = choose|k: int| #[trigger] applies(self@, met_by(self@, t), k);
                    lemma_one_rule_applies(self@, met@, i as int, chosen);
                }
                Some(&self.rules[i])
            },
            None => None,
        }
    }
}

} // verus!
