//! Window rules: what the configuration asks of the windows of certain applications.

use crate::config::groups;
use crate::config::groups::{group_fields, Groups};
use crate::config::monitors;
use crate::config::monitors::normalize_non_empty_field;
use crate::config::scalars;
use crate::config::scalars::{parse_optional_bool_flexible_in_map, parse_optional_u32_in_map};
use crate::config::values;
use crate::config::values::{bad_value_error, Pairs, Values};
use crate::errors;
use crate::errors::{CompositorError, Failure};
use crate::numbers;
use crate::numbers::{read_usize, write_decimal};
use crate::text;
use crate::text::{contains, eq_ignore_case, to_lowercase};
use vstd::prelude::*;

verus! {

/// What is asked of a window that matches.
#[derive(Clone, Debug)]
pub struct WindowRule {
    pub class: Option<String>,
    pub app_id: Option<String>,
    pub title: Option<String>,
    pub workspace: Option<usize>,
    pub floating: Option<bool>,
    pub fullscreen: Option<bool>,
    pub focus: Option<bool>,
    pub width: Option<u32>,
    pub height: Option<u32>,
}

/// A `WindowRule` as plain values.
pub struct Rule {
    pub class: Option<Seq<char>>,
    pub app_id: Option<Seq<char>>,
    pub title: Option<Seq<char>>,
    pub workspace: Option<usize>,
    pub floating: Option<bool>,
    pub fullscreen: Option<bool>,
    pub focus: Option<bool>,
    pub width: Option<u32>,
    pub height: Option<u32>,
}

impl View for WindowRule {
    type V = Rule;

    open spec fn view(&self) -> Rule {
        Rule {
            class: text::text_view(self.class),
            app_id: text::text_view(self.app_id),
            title: text::text_view(self.title),
            workspace: self.workspace,
            floating: self.floating,
            fullscreen: self.fullscreen,
            focus: self.focus,
            width: self.width,
            height: self.height,
        }
    }
}

impl Default for WindowRule {
    /// The rule that every window matches and that asks nothing.
    fn default() -> (rule: WindowRule)
        ensures
            rule@ == (Rule {
                class: None,
                app_id: None,
                title: None,
                workspace: None,
                floating: None,
                fullscreen: None,
                focus: None,
                width: None,
                height: None,
            }),
    {
        WindowRule {
            class: None,
            app_id: None,
            title: None,
            workspace: None,
            floating: None,
            fullscreen: None,
            focus: None,
            width: None,
            height: None,
        }
    }
}

/// A list of rules as plain values.
pub open spec fn rules_view(rules: Seq<WindowRule>) -> Seq<Rule> {
    Seq::new(rules.len(), |i: int| rules[i]@)
}

/// Whether `actual` is there and is `expected`, whatever the case of ASCII letters.
pub open spec fn is_exactly(actual: Option<Seq<char>>, expected: Seq<char>) -> bool {
    actual matches Some(value) && text::same_ignoring_case(value, expected)
}

/// Whether `actual` is there and holds `expected`, whatever the case of ASCII letters.
pub open spec fn has_inside(actual: Option<Seq<char>>, expected: Seq<char>) -> bool {
    actual matches Some(value) && text::holds(text::lowercase(value), text::lowercase(expected))
}

/// Whether `actual` is there and is `expected`, whatever the case of ASCII letters.
pub fn matches_ci_exact(actual: Option<&str>, expected: &str) -> (result: bool)
    ensures
        result == is_exactly(text::slice_view(actual), expected@),
{
    match actual {
        Some(value) => eq_ignore_case(value, expected),
        None => false,
    }
}

/// Whether `actual` is there and holds `expected`, whatever the case of ASCII letters.
pub fn matches_ci_contains(actual: Option<&str>, expected: &str) -> (result: bool)
    ensures
        result == has_inside(text::slice_view(actual), expected@),
{
    match actual {
        Some(value) => contains(to_lowercase(value).as_str(), to_lowercase(expected).as_str()),
        None => false,
    }
}

/// Whether a rule speaks of the windows with this application id and title: both its class and
/// its application id are compared to the former, and its title is looked for in the latter.
pub open spec fn applies(rule: Rule, app_id: Option<Seq<char>>, title: Option<Seq<char>>) -> bool {
    &&& rule.class matches Some(expected) ==> is_exactly(app_id, expected)
    &&& rule.app_id matches Some(expected) ==> is_exactly(app_id, expected)
    &&& rule.title matches Some(expected) ==> has_inside(title, expected)
}

impl WindowRule {
    /// Whether this rule speaks of the windows with this application id and title.
    pub fn matches(&self, app_id: Option<&str>, title: Option<&str>) -> (result: bool)
        ensures
            result == applies(self@, text::slice_view(app_id), text::slice_view(title)),
    {
        if let Some(expected) = &self.class {
            if !matches_ci_exact(app_id, expected.as_str()) {
                return false;
            }
        }
        if let Some(expected) = &self.app_id {
            if !matches_ci_exact(app_id, expected.as_str()) {
                return false;
            }
        }
        if let Some(expected) = &self.title {
            if !matches_ci_contains(title, expected.as_str()) {
                return false;
            }
        }
        true
    }
}

/// The case of ASCII letters in an application id or a title never decides whether a rule applies.
pub proof fn applies_whatever_the_case(
    rule: Rule,
    app_id: Option<Seq<char>>,
    title: Option<Seq<char>>,
    other_app_id: Option<Seq<char>>,
    other_title: Option<Seq<char>>,
)
    requires
        app_id is Some == other_app_id is Some,
        app_id is Some ==> text::same_ignoring_case(app_id->Some_0, other_app_id->Some_0),
        title is Some == other_title is Some,
        title is Some ==> text::same_ignoring_case(title->Some_0, other_title->Some_0),
    ensures
        applies(rule, app_id, title) == applies(rule, other_app_id, other_title),
{
}

/// The key by which an error names a field of a rule.
pub open spec fn rule_key(index: int, field: Seq<char>) -> Seq<char> {
    "window_rule."@ + numbers::decimal(index as nat) + "."@ + field
}

fn write_rule_key(index: usize, field: &str) -> (key: String)
    ensures
        key@ == rule_key(index as int, field@),
{
    let mut key = "window_rule.".to_owned();
    key.append(write_decimal(index as u64).as_str());
    key.append(".");
    key.append(field);
    key
}

/// The workspace, counted from zero, that a rule numbers from one to ten.
pub open spec fn rule_workspace(fields: Pairs, index: int) -> Result<Option<usize>, Failure> {
    match monitors::nonblank_field(fields, "workspace"@) {
        None => Ok(None),
        Some(raw) => match numbers::integer(raw, 0, usize::MAX as int) {
            Err(error) => Err(
                values::bad_value(rule_key(index, "workspace"@), raw, error.text()),
            ),
            Ok(number) => if 1 <= number <= 10 {
                Ok(Some((number - 1) as usize))
            } else {
                Err(values::bad_value(rule_key(index, "workspace"@), raw, "expected 1..10"@))
            },
        },
    }
}

/// The workspace, counted from zero, that a rule numbers from one to ten.
pub fn parse_window_rule_workspace(fields: &Values, index: usize) -> (result: Result<
    Option<usize>,
    CompositorError,
>)
    ensures
        errors::outcome(result) == rule_workspace(fields@, index as int),
{
    match normalize_non_empty_field(fields, "workspace") {
        None => Ok(None),
        Some(raw) => {
            let key = write_rule_key(index, "workspace");
            match read_usize(raw.as_str()) {
                Err(error) => Err(bad_value_error(key.as_str(), raw.as_str(), error.reason())),
                Ok(number) => if 1 <= number && number <= 10 {
                    Ok(Some(number - 1))
                } else {
                    Err(bad_value_error(key.as_str(), raw.as_str(), "expected 1..10"))
                },
            }
        },
    }
}

/// What the fields under one index ask.
pub open spec fn rule_value(index: int, fields: Pairs) -> Result<Rule, Failure> {
    match rule_workspace(fields, index) {
        Err(failure) => Err(failure),
        Ok(workspace) => match scalars::optional_bool(
            fields,
            "floating"@,
            rule_key(index, "floating"@),
        ) {
            Err(failure) => Err(failure),
            Ok(floating) => match scalars::optional_bool(
                fields,
                "fullscreen"@,
                rule_key(index, "fullscreen"@),
            ) {
                Err(failure) => Err(failure),
                Ok(fullscreen) => match scalars::optional_bool(
                    fields,
                    "focus"@,
                    rule_key(index, "focus"@),
                ) {
                    Err(failure) => Err(failure),
                    Ok(focus) => match scalars::optional_u32(
                        fields,
                        "width"@,
                        rule_key(index, "width"@),
                    ) {
                        Err(failure) => Err(failure),
                        Ok(width) => match scalars::optional_u32(
                            fields,
                            "height"@,
                            rule_key(index, "height"@),
                        ) {
                            Err(failure) => Err(failure),
                            Ok(height) => Ok(
                                Rule {
                                    class: monitors::nonblank_field(fields, "class"@),
                                    app_id: match monitors::nonblank_field(fields, "app_id"@) {
                                        Some(found) => Some(found),
                                        None => monitors::nonblank_field(fields, "appid"@),
                                    },
                                    title: monitors::nonblank_field(fields, "title"@),
                                    workspace,
                                    floating,
                                    fullscreen,
                                    focus,
                                    width,
                                    height,
                                },
                            ),
                        },
                    },
                },
            },
        },
    }
}

/// A rule, or a failure, as plain values.
pub open spec fn rule_outcome(result: Result<WindowRule, CompositorError>) -> Result<
    Rule,
    Failure,
> {
    match result {
        Ok(rule) => Ok(rule@),
        Err(error) => Err(error@),
    }
}

fn read_rule_bool(fields: &Values, index: usize, field: &str) -> (result: Result<
    Option<bool>,
    CompositorError,
>)
    ensures
        errors::outcome(result) == scalars::optional_bool(
            fields@,
            field@,
            rule_key(index as int, field@),
        ),
{
    let key = write_rule_key(index, field);
    parse_optional_bool_flexible_in_map(fields, field, key.as_str())
}

fn read_rule_u32(fields: &Values, index: usize, field: &str) -> (result: Result<
    Option<u32>,
    CompositorError,
>)
    ensures
        errors::outcome(result) == scalars::optional_u32(
            fields@,
            field@,
            rule_key(index as int, field@),
        ),
{
    let key = write_rule_key(index, field);
    parse_optional_u32_in_map(fields, field, key.as_str())
}

/// What the fields under one index ask.
pub fn parse_window_rule(index: usize, fields: &Values) -> (result: Result<
    WindowRule,
    CompositorError,
>)
    ensures
        rule_outcome(result) == rule_value(index as int, fields@),
{
    let class = normalize_non_empty_field(fields, "class");
    let app_id = match normalize_non_empty_field(fields, "app_id") {
        Some(found) => Some(found),
        None => normalize_non_empty_field(fields, "appid"),
    };
    let title = normalize_non_empty_field(fields, "title");
    let workspace = match parse_window_rule_workspace(fields, index) {
        Ok(found) => found,
        Err(error) => return Err(error),
    };
    let floating = match read_rule_bool(fields, index, "floating") {
        Ok(found) => found,
        Err(error) => return Err(error),
    };
    let fullscreen = match read_rule_bool(fields, index, "fullscreen") {
        Ok(found) => found,
        Err(error) => return Err(error),
    };
    let focus = match read_rule_bool(fields, index, "focus") {
        Ok(found) => found,
        Err(error) => return Err(error),
    };
    let width = match read_rule_u32(fields, index, "width") {
        Ok(found) => found,
        Err(error) => return Err(error),
    };
    let height = match read_rule_u32(fields, index, "height") {
        Ok(found) => found,
        Err(error) => return Err(error),
    };
    Ok(
        WindowRule {
            class,
            app_id,
            title,
            workspace,
            floating,
            fullscreen,
            focus,
            width,
            height,
        },
    )
}

/// The rules of numbered tables, in order; the first failure counts.
pub open spec fn group_rules(tables: Groups) -> Result<Seq<Rule>, Failure>
    decreases tables.len(),
{
    if tables.len() == 0 {
        Ok(seq![])
    } else {
        match group_rules(tables.drop_last()) {
            Err(failure) => Err(failure),
            Ok(rules) => match rule_value(tables.last().0, tables.last().1) {
                Err(failure) => Err(failure),
                Ok(rule) => Ok(rules.push(rule)),
            },
        }
    }
}

/// The rules of the keys `window_rule.<index>.<field>`, by index.
pub open spec fn rule_values(pairs: Pairs) -> Result<Seq<Rule>, Failure> {
    match groups::grouped(
        pairs,
        "window_rule."@,
        "window rule"@,
        "window_rule.<index>.<field>"@,
    ) {
        Err(failure) => Err(failure),
        Ok(tables) => group_rules(tables),
    }
}

proof fn group_rules_keeps_failure(tables: Groups, at: int)
    requires
        0 <= at <= tables.len(),
        group_rules(tables.take(at)) is Err,
    ensures
        group_rules(tables) == group_rules(tables.take(at)),
    decreases tables.len() - at,
{
    if at < tables.len() {
        assert(tables.take(at + 1).drop_last() =~= tables.take(at));
        group_rules_keeps_failure(tables, at + 1);
    } else {
        assert(tables.take(at) =~= tables);
    }
}

/// A list of rules, or a failure, as plain values.
pub open spec fn rules_outcome(result: Result<Vec<WindowRule>, CompositorError>) -> Result<
    Seq<Rule>,
    Failure,
> {
    match result {
        Ok(rules) => Ok(rules_view(rules@)),
        Err(error) => Err(error@),
    }
}

/// The rules of the keys `window_rule.<index>.<field>`, by index.
pub fn parse_window_rules(values: &Values) -> (result: Result<Vec<WindowRule>, CompositorError>)
    ensures
        rules_outcome(result) == rule_values(values@),
{
    let tables = match group_fields(
        values,
        "window_rule.",
        "window rule",
        "window_rule.<index>.<field>",
    ) {
        Ok(tables) => tables,
        Err(error) => return Err(error),
    };
    let ghost all = groups::groups_view(tables@);
    let mut rules: Vec<WindowRule> = Vec::new();
    let mut at: usize = 0;
    assert(all.take(0) =~= seq![]);
    assert(rules_view(rules@) =~= seq![]);
    while at < tables.len()
        invariant
            at <= tables.len(),
            all == groups::groups_view(tables@),
            rule_values(values@) == group_rules(all),
            group_rules(all.take(at as int)) == Ok::<Seq<Rule>, Failure>(rules_view(rules@)),
        decreases tables.len() - at,
    {
        proof {
            let next = all.take(at + 1);
            assert(next.drop_last() =~= all.take(at as int));
            assert(next.last() == all[at as int]);
        }
        match parse_window_rule(tables[at].index, &tables[at].fields) {
            Err(error) => {
                proof {
                    group_rules_keeps_failure(all, at + 1);
                }
                return Err(error);
            },
            Ok(rule) => {
                let ghost before = rules_view(rules@);
                rules.push(rule);
                assert(rules_view(rules@) =~= before.push(rule@));
            },
        }
        at = at + 1;
    }
    assert(all.take(all.len() as int) =~= all);
    Ok(rules)
}

/// A rule that was accepted names one of the ten workspaces, or none.
pub proof fn accepted_rule_workspace_exists(index: int, fields: Pairs)
    ensures
        rule_value(index, fields) matches Ok(rule) ==> (rule.workspace matches Some(workspace)
            ==> workspace < 10),
{
}

/// Whatever a rule asks for by a name has to be there: without a name to compare it does not apply,
/// and a rule that asks for less applies wherever one that asks for more does. One that asks for no
/// name applies to every window; one that asks for an application id, to the windows with that id; one
/// that asks for a title, to the windows whose title holds it.
pub proof fn rule_needs_its_names(rule: Rule, app_id: Option<Seq<char>>, title: Option<Seq<char>>)
    ensures
        applies(rule, app_id, title) && (rule.class is Some || rule.app_id is Some) ==> app_id
            is Some,
        applies(rule, app_id, title) && rule.title is Some ==> title is Some,
        applies(rule, app_id, title) ==> applies(Rule { class: None, ..rule }, app_id, title)
            && applies(Rule { app_id: None, ..rule }, app_id, title) && applies(
            Rule { title: None, ..rule },
            app_id,
            title,
        ),
        applies(Rule { class: None, ..rule }, app_id, title) && applies(
            Rule { app_id: None, title: None, ..rule },
            app_id,
            title,
        ) ==> applies(rule, app_id, title),
        rule.class is None && rule.app_id is None && rule.title is None ==> applies(
            rule,
            app_id,
            title,
        ),
        app_id is Some && rule.app_id == app_id && rule.class is None && rule.title is None
            ==> applies(rule, app_id, title),
        app_id is Some && rule.class == app_id && rule.app_id is None && rule.title is None
            ==> applies(rule, app_id, title),
        app_id is Some && rule.app_id is Some && rule.app_id.unwrap().len()
            != app_id.unwrap().len() ==> !applies(rule, app_id, title),
        app_id is Some && rule.class is Some && rule.class.unwrap().len() != app_id.unwrap().len()
            ==> !applies(rule, app_id, title),
        title is Some && rule.title is Some && rule.title.unwrap().len() > title.unwrap().len()
            ==> !applies(rule, app_id, title),
{
    if let Some(found) = app_id {
        assert(text::lowercase(found).len() == found.len());
        if let Some(asked) = rule.app_id {
            assert(text::lowercase(asked).len() == asked.len());
        }
        if let Some(asked) = rule.class {
            assert(text::lowercase(asked).len() == asked.len());
        }
    }
    if let Some(found) = title {
        if let Some(asked) = rule.title {
            assert(text::lowercase(found).len() == found.len());
            assert(text::lowercase(asked).len() == asked.len());
        }
    }
}

/// A rule that asks for a title alone applies to a window whose title holds that text.
pub proof fn title_may_stand_inside(
    rule: Rule,
    app_id: Option<Seq<char>>,
    before: Seq<char>,
    asked: Seq<char>,
    after: Seq<char>,
)
    requires
        rule.class is None,
        rule.app_id is None,
        rule.title == Some(asked),
    ensures
        applies(rule, app_id, Some(before + asked + after)),
{
    let whole = text::lowercase(before + asked + after);
    let part = text::lowercase(asked);
    let at = before.len() as int;
    assert(whole.subrange(at, at + part.len()) =~= part);
    assert(text::holds(whole, part));
}

} // verus!
