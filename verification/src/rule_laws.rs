//! What makes a window meet an app rule, and what makes a rule apply.
use crate::config::{AppWorkspaceRule, WorkspaceSelector};
use crate::rules::WindowTraits;
use vstd::prelude::*;

verus! {

/// A condition that is given and not empty.
pub open spec fn is_given(condition: Option<String>) -> bool {
    condition matches Some(text) && text@.len() > 0
}

/// The number of conditions that a rule gives.
pub open spec fn conditions_given(rule: AppWorkspaceRule) -> int {
    (if is_given(rule.app_id) {
        1int
    } else {
        0int
    }) + (if is_given(rule.app_name) {
        1int
    } else {
        0int
    }) + (if is_given(rule.title_regex) {
        1int
    } else {
        0int
    }) + (if is_given(rule.title_substring) {
        1int
    } else {
        0int
    }) + (if is_given(rule.ax_role) {
        1int
    } else {
        0int
    }) + (if is_given(rule.ax_subrole) {
        1int
    } else {
        0int
    })
}

/// A rule is as specific as it gives conditions.
pub proof fn law_specificity_is_the_number_of_conditions(rule: AppWorkspaceRule)
    ensures
        crate::rules::specificity(rule) == conditions_given(rule),
{
}

/// Each of the six conditions makes a rule more specific by one, if it is not
/// empty; where a rule sends windows makes no difference.
pub proof fn law_each_condition_counts(
    rule: AppWorkspaceRule,
    text: String,
    empty: String,
    workspace: Option<WorkspaceSelector>,
    floating: bool,
    manage: bool,
)
    requires
        text@.len() > 0,
        empty@.len() == 0,
    ensures
        crate::rules::specificity(AppWorkspaceRule { app_id: Some(text), ..rule })
            == crate::rules::specificity(AppWorkspaceRule { app_id: None, ..rule }) + 1,
        crate::rules::specificity(AppWorkspaceRule { app_name: Some(text), ..rule })
            == crate::rules::specificity(AppWorkspaceRule { app_name: None, ..rule }) + 1,
        crate::rules::specificity(AppWorkspaceRule { title_regex: Some(text), ..rule })
            == crate::rules::specificity(AppWorkspaceRule { title_regex: None, ..rule }) + 1,
        crate::rules::specificity(AppWorkspaceRule { title_substring: Some(text), ..rule })
            == crate::rules::specificity(AppWorkspaceRule { title_substring: None, ..rule }) + 1,
        crate::rules::specificity(AppWorkspaceRule { ax_role: Some(text), ..rule })
            == crate::rules::specificity(AppWorkspaceRule { ax_role: None, ..rule }) + 1,
        crate::rules::specificity(AppWorkspaceRule { ax_subrole: Some(text), ..rule })
            == crate::rules::specificity(AppWorkspaceRule { ax_subrole: None, ..rule }) + 1,
        crate::rules::specificity(AppWorkspaceRule { app_id: Some(empty), ..rule })
            == crate::rules::specificity(AppWorkspaceRule { app_id: None, ..rule }),
        crate::rules::specificity(AppWorkspaceRule { app_name: Some(empty), ..rule })
            == crate::rules::specificity(AppWorkspaceRule { app_name: None, ..rule }),
        crate::rules::specificity(AppWorkspaceRule { workspace, floating, manage, ..rule })
            == crate::rules::specificity(rule),
{
}

/// `a` applies to a window that meets it and `b`, where there are no other
/// rules, in whichever order the two stand.
pub open spec fn beats(a: AppWorkspaceRule, b: AppWorkspaceRule, t: WindowTraits) -> bool {
    crate::rules::rule_met(a, t) && crate::rules::rule_met(b, t) ==> crate::rules::rule_for(
        seq![a, b],
        t,
    ) == Some(a) && crate::rules::rule_for(seq![b, a], t) == Some(a)
}

/// Of two rules that a window meets the one with more conditions applies,
/// whatever their order; of two with as many the earlier one does.
pub proof fn law_rule_with_more_conditions_applies(
    a: AppWorkspaceRule,
    b: AppWorkspaceRule,
    t: WindowTraits,
)
    ensures
        conditions_given(a) > conditions_given(b) ==> beats(a, b, t),
        conditions_given(a) == conditions_given(b) && crate::rules::rule_met(a, t)
            && crate::rules::rule_met(b, t) ==> crate::rules::rule_for(seq![a, b], t) == Some(a),
{
    if crate::rules::rule_met(a, t) && crate::rules::rule_met(b, t) {
        lemma_two(a, b, t);
        lemma_two(b, a, t);
    }
}

proof fn lemma_two(a: AppWorkspaceRule, b: AppWorkspaceRule, t: WindowTraits)
    requires
        crate::rules::rule_met(a, t),
        crate::rules::rule_met(b, t),
    ensures
        crate::rules::rule_for(seq![a, b], t) == Some(
            if conditions_given(b) > conditions_given(a) {
                b
            } else {
                a
            },
        ),
{
    let rules = seq![a, b];
    let met = crate::rules::met_by(rules, t);
    assert(met[0] && met[1]);
    crate::rules::lemma_some_rule_applies(rules, met, 0);
    let i = choose|i: int| #[trigger] crate::rules::applies(rules, met, i);
    lemma_two_met(rules, met, i);
}

#[verifier::spinoff_prover]
proof fn lemma_two_met(rules: Seq<AppWorkspaceRule>, met: Seq<bool>, i: int)
    requires
        rules.len() == 2,
        met[0] && met[1],
        crate::rules::applies(rules, met, i),
    ensures
        i == if conditions_given(rules[1]) > conditions_given(rules[0]) {
            1int
        } else {
            0int
        },
{
    assert(crate::rules::in_question(rules, met, i));
    assert(i == 0 || i == 1);
    law_specificity_is_the_number_of_conditions(rules[0]);
    law_specificity_is_the_number_of_conditions(rules[1]);
    // Either the two are rivals or neither has one: both are in question.
    assert forall|k: int| #[trigger] crate::rules::leads(rules, met, k) implies crate::rules::app_of(
        rules[0],
    ) == crate::rules::app_of(rules[1]) by {
        assert(crate::rules::has_rival(rules, met, k));
        let j = choose|j: int|
            0 <= j < rules.len() && j != k && #[trigger] met[j] && crate::rules::app_of(rules[j])
                == crate::rules::app_of(rules[k]);
        assert(k == 0 && j == 1 || k == 1 && j == 0);
    }
    assert(crate::rules::in_question(rules, met, 0)) by {
        assert forall|k: int| #[trigger] crate::rules::leads(rules, met, k) implies crate::rules::app_of(
            rules[0],
        ) == crate::rules::app_of(rules[k]) by {
            assert(k == 0 || k == 1);
        }
    }
    assert(crate::rules::in_question(rules, met, 1)) by {
        assert forall|k: int| #[trigger] crate::rules::leads(rules, met, k) implies crate::rules::app_of(
            rules[1],
        ) == crate::rules::app_of(rules[k]) by {
            assert(k == 0 || k == 1);
        }
    }
    assert(crate::rules::preferred(rules, i, 0));
    assert(crate::rules::preferred(rules, i, 1));
}

/// Of two rules that differ in one condition, which the first gives and the
/// second does not, the first applies to a window that meets both, whatever
/// their order. It is so for each of the six conditions.
pub proof fn law_one_condition_more_decides(rule: AppWorkspaceRule, text: String, t: WindowTraits)
    requires
        text@.len() > 0,
    ensures
        beats(
            AppWorkspaceRule { app_id: Some(text), ..rule },
            AppWorkspaceRule { app_id: None, ..rule },
            t,
        ),
        beats(
            AppWorkspaceRule { app_name: Some(text), ..rule },
            AppWorkspaceRule { app_name: None, ..rule },
            t,
        ),
        beats(
            AppWorkspaceRule { title_regex: Some(text), ..rule },
            AppWorkspaceRule { title_regex: None, ..rule },
            t,
        ),
        beats(
            AppWorkspaceRule { title_substring: Some(text), ..rule },
            AppWorkspaceRule { title_substring: None, ..rule },
            t,
        ),
        beats(
            AppWorkspaceRule { ax_role: Some(text), ..rule },
            AppWorkspaceRule { ax_role: None, ..rule },
            t,
        ),
        beats(
            AppWorkspaceRule { ax_subrole: Some(text), ..rule },
            AppWorkspaceRule { ax_subrole: None, ..rule },
            t,
        ),
{
    law_rule_with_more_conditions_applies(
        AppWorkspaceRule { app_id: Some(text), ..rule },
        AppWorkspaceRule { app_id: None, ..rule },
        t,
    );
    law_rule_with_more_conditions_applies(
        AppWorkspaceRule { app_name: Some(text), ..rule },
        AppWorkspaceRule { app_name: None, ..rule },
        t,
    );
    law_rule_with_more_conditions_applies(
        AppWorkspaceRule { title_regex: Some(text), ..rule },
        AppWorkspaceRule { title_regex: None, ..rule },
        t,
    );
    law_rule_with_more_conditions_applies(
        AppWorkspaceRule { title_substring: Some(text), ..rule },
        AppWorkspaceRule { title_substring: None, ..rule },
        t,
    );
    law_rule_with_more_conditions_applies(
        AppWorkspaceRule { ax_role: Some(text), ..rule },
        AppWorkspaceRule { ax_role: None, ..rule },
        t,
    );
    law_rule_with_more_conditions_applies(
        AppWorkspaceRule { ax_subrole: Some(text), ..rule },
        AppWorkspaceRule { ax_subrole: None, ..rule },
        t,
    );
}

/// Two rules name the same app, which is not empty.
pub open spec fn name_one_app(a: AppWorkspaceRule, b: AppWorkspaceRule) -> bool {
    a.app_id matches Some(x) && b.app_id matches Some(y) && x@ == y@ && x@.len() > 0
}

/// A window meets rule `i`, and another one that names the same app.
pub open spec fn is_doubled(rules: Seq<AppWorkspaceRule>, t: WindowTraits, i: int) -> bool {
    &&& 0 <= i < rules.len()
    &&& crate::rules::rule_met(rules[i], t)
    &&& exists|j: int|
        0 <= j < rules.len() && j != i && crate::rules::rule_met(#[trigger] rules[j], t)
            && name_one_app(rules[i], rules[j])
}

/// Rule `i` has more conditions than rule `j`, or as many and is no later.
pub open spec fn goes_before(rules: Seq<AppWorkspaceRule>, i: int, j: int) -> bool {
    conditions_given(rules[i]) > conditions_given(rules[j]) || (conditions_given(rules[i])
        == conditions_given(rules[j]) && i <= j)
}

/// The rule that applies to a window is one that it meets. Where the window meets
/// several rules that name one app, the earliest of these decides on the app, and
/// the rule that applies goes before all that name it and are met; otherwise it
/// goes before all that are met.
pub proof fn law_which_rule_applies(
    rules: Seq<AppWorkspaceRule>,
    t: WindowTraits,
    first: int,
)
    ensures
        match crate::rules::rule_for(rules, t) {
            None => forall|j: int|
                0 <= j < rules.len() ==> !crate::rules::rule_met(#[trigger] rules[j], t),
            Some(rule) => exists|i: int|
                0 <= i < rules.len() && #[trigger] rules[i] == rule && crate::rules::rule_met(
                    rule,
                    t,
                ) && ((is_doubled(rules, t, first) && forall|k: int|
                    0 <= k < first ==> !#[trigger] is_doubled(rules, t, k)) ==> (name_one_app(
                    rule,
                    rules[first],
                ) && forall|j: int|
                    0 <= j < rules.len() && crate::rules::rule_met(#[trigger] rules[j], t)
                        && name_one_app(rules[j], rules[first]) ==> goes_before(rules, i, j))) && ((
                forall|k: int| !#[trigger] is_doubled(rules, t, k)) ==> forall|j: int|
                    0 <= j < rules.len() && crate::rules::rule_met(#[trigger] rules[j], t)
                        ==> goes_before(rules, i, j)),
        },
{
    let met = crate::rules::met_by(rules, t);
    crate::laws::law_rule_applies_if_any_is_met(rules, t);
    if let Some(rule) = crate::rules::rule_for(rules, t) {
        let i = choose|i: int| #[trigger] crate::rules::applies(rules, met, i);
        assert(rules[i] == rule);
        assert(crate::rules::in_question(rules, met, i));
        assert forall|k: int| 0 <= k < rules.len() implies (crate::rules::has_rival(rules, met, k)
            == #[trigger] is_doubled(rules, t, k)) by {
            lemma_doubled(rules, t, k);
        }
        if is_doubled(rules, t, first) && forall|k: int|
            0 <= k < first ==> !#[trigger] is_doubled(rules, t, k) {
            assert forall|k: int| 0 <= k < first implies !#[trigger] crate::rules::has_rival(
                rules,
                met,
                k,
            ) by {
                assert(!is_doubled(rules, t, k));
            }
            assert(crate::rules::leads(rules, met, first));
            assert forall|k: int| #[trigger] crate::rules::leads(rules, met, k) implies k == first by {
                assert(is_doubled(rules, t, k));
            }
            assert(crate::rules::app_of(rules[i]) == crate::rules::app_of(rules[first]));
            assert forall|j: int|
                0 <= j < rules.len() && crate::rules::rule_met(#[trigger] rules[j], t)
                    && name_one_app(rules[j], rules[first]) implies goes_before(rules, i, j) by {
                assert(met[j]);
                assert(crate::rules::in_question(rules, met, j));
                assert(crate::rules::preferred(rules, i, j));
            }
        }
        if forall|k: int| !#[trigger] is_doubled(rules, t, k) {
            assert forall|j: int|
                0 <= j < rules.len() && crate::rules::rule_met(
                    #[trigger] rules[j],
                    t,
                ) implies goes_before(rules, i, j) by {
                assert(met[j]);
                assert forall|k: int| !#[trigger] crate::rules::leads(rules, met, k) by {
                    if crate::rules::leads(rules, met, k) {
                        assert(is_doubled(rules, t, k));
                    }
                }
                assert(crate::rules::in_question(rules, met, j));
                assert(crate::rules::preferred(rules, i, j));
            }
        }
    }
}

proof fn lemma_doubled(rules: Seq<AppWorkspaceRule>, t: WindowTraits, k: int)
    requires
        0 <= k < rules.len(),
    ensures
        crate::rules::has_rival(rules, crate::rules::met_by(rules, t), k) == is_doubled(
            rules,
            t,
            k,
        ),
{
    let met = crate::rules::met_by(rules, t);
    if is_doubled(rules, t, k) {
        let j = choose|j: int|
            0 <= j < rules.len() && j != k && crate::rules::rule_met(#[trigger] rules[j], t)
                && name_one_app(rules[k], rules[j]);
        assert(met[j]);
    }
    if crate::rules::has_rival(rules, met, k) {
        let j = choose|j: int|
            0 <= j < rules.len() && j != k && #[trigger] met[j] && crate::rules::app_of(rules[j])
                == crate::rules::app_of(rules[k]);
        assert(crate::rules::rule_met(rules[j], t));
    }
}

/// The text is there and is the wanted one.
pub open spec fn is_text(value: Option<&str>, wanted: Seq<char>) -> bool {
    value matches Some(text) && text@ == wanted
}

/// A window meets a rule exactly if it meets each condition that the rule sets.
/// The bundle identifier may differ in the case of ASCII letters; one of the app
/// names is part of the other, in lower case; the title pattern is valid and is
/// found in the title; the title text is part of the title, in lower case; role
/// and subrole are the same. Of these conditions the last four are never met if
/// they are empty, and none is met by a window that lacks what it looks at.
pub proof fn law_window_meets_rule_by_its_conditions(
    rule: AppWorkspaceRule,
    app_bundle_id: Option<&str>,
    app_name: Option<&str>,
    window_title: Option<&str>,
    ax_role: Option<&str>,
    ax_subrole: Option<&str>,
)
    ensures
        crate::rules::rule_met(
            rule,
            crate::rules::window_traits(
                app_bundle_id,
                app_name,
                window_title,
                ax_role,
                ax_subrole,
            ),
        ) <==> {
            &&& rule.app_id matches Some(id) ==> (app_bundle_id matches Some(bundle) && id@.len()
                == bundle@.len() && forall|i: int|
                0 <= i < id@.len() ==> crate::text_laws::small(#[trigger] id@[i])
                    == crate::text_laws::small(bundle@[i]))
            &&& rule.app_name matches Some(wanted) ==> (app_name matches Some(name) && (
            crate::text_laws::has_part(
                crate::text::lowercase(name@),
                crate::text::lowercase(wanted@),
            ) || crate::text_laws::has_part(
                crate::text::lowercase(wanted@),
                crate::text::lowercase(name@),
            )))
            &&& rule.title_regex matches Some(pattern) ==> (pattern@.len() > 0 && match (
                window_title,
                crate::rules::compiled(pattern@),
            ) {
                (Some(title), Some(re)) => crate::rules::found_in(re, title@),
                _ => false,
            })
            &&& rule.title_substring matches Some(part) ==> (part@.len() > 0 && match window_title {
                Some(title) => crate::text_laws::has_part(
                    crate::text::lowercase(title@),
                    crate::text::lowercase(part@),
                ),
                None => false,
            })
            &&& rule.ax_role matches Some(role) ==> (role@.len() > 0 && is_text(ax_role, role@))
            &&& rule.ax_subrole matches Some(subrole) ==> (subrole@.len() > 0 && is_text(
                ax_subrole,
                subrole@,
            ))
        },
{
    if let (Some(id), Some(bundle)) = (rule.app_id, app_bundle_id) {
        crate::text_laws::law_ascii_case_is_ignored(id@, bundle@);
    }
    if let (Some(wanted), Some(name)) = (rule.app_name, app_name) {
        let (a, b) = (crate::text::lowercase(name@), crate::text::lowercase(wanted@));
        crate::text_laws::law_contained_text_is_a_part(a, b);
        crate::text_laws::law_contained_text_is_a_part(b, a);
    }
    if let (Some(part), Some(title)) = (rule.title_substring, window_title) {
        crate::text_laws::law_contained_text_is_a_part(
            crate::text::lowercase(title@),
            crate::text::lowercase(part@),
        );
    }
}

} // verus!
