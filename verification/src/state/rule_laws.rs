//! Laws of window rules: what the last rule that speaks of a window says is what becomes of it.

use crate::config::window_rules;
use crate::config::window_rules::Rule;
use crate::geometry::Size;
use crate::state::keeping;
use crate::state::lists;
use crate::state::lists::SurfaceId;
use crate::state::raven::{State, WORKSPACE_COUNT};
use crate::state::rules;
use crate::state::rules::{Naming, NewWindowRuleDecision};
use crate::state::workspace_laws;
use vstd::prelude::*;

verus! {

/// Whether a rule speaks of a window with these names.
pub open spec fn speaks_of(rule: Rule, naming: Naming) -> bool {
    window_rules::applies(rule, naming.app_id, naming.title)
}

/// Whether the rules give a window a width and a height that a window can have.
pub open spec fn gives_size(decision: NewWindowRuleDecision) -> bool {
    &&& decision.width is Some
    &&& decision.height is Some
    &&& 1 <= decision.width.unwrap() <= i32::MAX
    &&& 1 <= decision.height.unwrap() <= i32::MAX
}

/// Of the rules that speak of a window, the last one that says something on a matter decides it; what
/// later rules leave open stays as it is.
pub proof fn last_rule_decides(rules: Seq<Rule>, naming: Naming, current: usize, at: int)
    requires
        0 <= at < rules.len(),
        speaks_of(rules[at], naming),
    ensures
        ({
            let decision = rules::decision_by(rules, naming, current);
            let rule = rules[at];
            &&& rule.workspace is Some && (forall|i: int|
                at < i < rules.len() && speaks_of(#[trigger] rules[i], naming)
                    ==> rules[i].workspace is None) ==> rule.workspace == Some(
                decision.workspace_index,
            )
            &&& rule.floating is Some && (forall|i: int|
                at < i < rules.len() && speaks_of(#[trigger] rules[i], naming)
                    ==> rules[i].floating is None) ==> rule.floating == Some(decision.floating)
            &&& rule.fullscreen is Some && (forall|i: int|
                at < i < rules.len() && speaks_of(#[trigger] rules[i], naming)
                    ==> rules[i].fullscreen is None) ==> rule.fullscreen == Some(
                decision.fullscreen,
            )
            &&& rule.focus is Some && (forall|i: int|
                at < i < rules.len() && speaks_of(#[trigger] rules[i], naming)
                    ==> rules[i].focus is None) ==> rule.focus == Some(decision.focus)
            &&& rule.width is Some && (forall|i: int|
                at < i < rules.len() && speaks_of(#[trigger] rules[i], naming)
                    ==> rules[i].width is None) ==> rule.width == decision.width
            &&& rule.height is Some && (forall|i: int|
                at < i < rules.len() && speaks_of(#[trigger] rules[i], naming)
                    ==> rules[i].height is None) ==> rule.height == decision.height
        }),
    decreases rules.len(),
{
    let last = rules.len() - 1;
    if at < last {
        let rest = rules.drop_last();
        assert(rest[at] == rules[at]);
        last_rule_decides(rest, naming, current, at);
        assert(rules[last] == rules.last());
        assert forall|i: int| at < i < rest.len() implies rest[i] == rules[i] by {}
    }
}

/// What no rule that speaks of a window decides is as for any new window: it comes to the current
/// workspace, tiled, not fullscreen, with the focus and without a size of its own.
pub proof fn unruled_is_plain(rules: Seq<Rule>, naming: Naming, current: usize)
    ensures
        ({
            let decision = rules::decision_by(rules, naming, current);
            &&& (forall|i: int|
                0 <= i < rules.len() && speaks_of(#[trigger] rules[i], naming)
                    ==> rules[i].workspace is None) ==> decision.workspace_index == current
            &&& (forall|i: int|
                0 <= i < rules.len() && speaks_of(#[trigger] rules[i], naming)
                    ==> rules[i].floating is None) ==> !decision.floating
            &&& (forall|i: int|
                0 <= i < rules.len() && speaks_of(#[trigger] rules[i], naming)
                    ==> rules[i].fullscreen is None) ==> !decision.fullscreen
            &&& (forall|i: int|
                0 <= i < rules.len() && speaks_of(#[trigger] rules[i], naming)
                    ==> rules[i].focus is None) ==> decision.focus
            &&& (forall|i: int|
                0 <= i < rules.len() && speaks_of(#[trigger] rules[i], naming)
                    ==> rules[i].width is None) ==> decision.width is None
            &&& (forall|i: int|
                0 <= i < rules.len() && speaks_of(#[trigger] rules[i], naming)
                    ==> rules[i].height is None) ==> decision.height is None
        }),
    decreases rules.len(),
{
    if rules.len() > 0 {
        let rest = rules.drop_last();
        unruled_is_plain(rest, naming, current);
        assert(rules[rules.len() - 1] == rules.last());
        assert forall|i: int| 0 <= i < rest.len() implies rest[i] == rules[i] by {}
    }
}

/// Where the rules give a window a width and a height, it is asked for exactly that width and that
/// height; where they give it only one of them, or none, it is not asked for a size. Nothing else
/// changes.
pub proof fn ruled_size_is_asked(state: State, window: SurfaceId, decision: NewWindowRuleDecision)
    ensures
        ({
            let after = state.rule_sized(window, decision);
            &&& gives_size(decision) ==> after.toplevel(window).pending.size is Some
                && after.toplevel(window).pending.size.unwrap().w == decision.width.unwrap()
                && after.toplevel(window).pending.size.unwrap().h == decision.height.unwrap()
            &&& decision.width is None || decision.height is None ==> after == state
            &&& after.toplevel(window).pending.fullscreen == state.toplevel(
                window,
            ).pending.fullscreen
            &&& after.elements == state.elements
            &&& forall|other: SurfaceId|
                other != window ==> #[trigger] after.toplevel(other) == state.toplevel(other)
        }),
{
}

/// The first configure of a window: it is on the workspace that the rules say, it floats where they
/// say so and it does not have the screen for itself, and its client is told the width and the height
/// that they give it, unless the window is to be tiled on the current workspace.
pub proof fn first_configure_follows_rules(state: State, window: SurfaceId, naming: Naming)
    requires
        state.orderly(),
        state.has_window(window),
    ensures
        ({
            let decision = state.decision(naming);
            let after = state.first_configured(window, naming);
            &&& decision.workspace_index < WORKSPACE_COUNT ==> after.workspace_of(window) == Some(
                decision.workspace_index,
            )
            &&& after.toplevel(window).configured
            &&& after.configures.last().surface == window
            &&& after.configures.last().state == after.toplevel(window).pending
            &&& !state.exclusive(window) && rules::floating_ruled(
                state.settings.window_rules,
                naming,
            ) ==> after.floats(window) == decision.floating
            &&& state.exclusive(window) ==> !after.floats(window)
            &&& (after.floats(window) || decision.workspace_index != state.current
                || decision.fullscreen || state.exclusive(window)) && gives_size(decision)
                ==> after.configures.last().state.size == Some(
                Size { w: decision.width.unwrap() as i32, h: decision.height.unwrap() as i32 },
            )
        }),
{
    reveal(State::first_configured);
    let decision = state.decision(naming);
    workspace_laws::moving_stays_orderly(state, window, decision.workspace_index as int);
    let moved = state.moved_to_workspace(window, decision.workspace_index as int).0;
    let floating = state.settled_floating(window, naming);
    lists::without_leaves(moved.floating, window);
    let set = moved.with_floating(window, floating);
    assert(set.floats(window) == floating) by {
        if floating && !moved.floating.contains(window) {
            assert(set.floating[set.floating.len() - 1] == window);
        }
    }
    let asked = set.decorated(
        window,
        moved.settings.general.no_csd && !floating && !state.exclusive(window),
    );
    ruled_size_is_asked(asked, window, decision);
    let sized = asked.rule_sized(window, decision);
    assert(sized.current == state.current);
    keeping::window_has_workspace(state, window);
}

} // verus!
