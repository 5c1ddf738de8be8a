//! Window rules at work: what becomes of a new window.

use crate::config::window_rules;
use crate::config::window_rules::{Rule, WindowRule};
use crate::geometry::Size;
use crate::state::lists::SurfaceId;
use crate::state::raven::{Raven, State};
use crate::state::toplevel::{DecorationMode, ToplevelState};
use crate::text;
use crate::text::{same_text, trim};
use vstd::prelude::*;

verus! {

broadcast use vstd::std_specs::hash::group_hash_axioms;

/// What a window calls itself.
#[derive(Debug)]
pub struct Metadata {
    pub app_id: Option<String>,
    pub title: Option<String>,
}

/// `Metadata` as plain values.
pub struct Naming {
    pub app_id: Option<Seq<char>>,
    pub title: Option<Seq<char>>,
}

impl View for Metadata {
    type V = Naming;

    open spec fn view(&self) -> Naming {
        Naming { app_id: text::text_view(self.app_id), title: text::text_view(self.title) }
    }
}

/// A name without the white space round it, where something is left.
pub open spec fn proper_name(raw: Option<Seq<char>>) -> Option<Seq<char>> {
    match raw {
        Some(name) => if text::trimmed(name).len() == 0 {
            None
        } else {
            Some(text::trimmed(name))
        },
        None => None,
    }
}

fn tidy_name(raw: Option<&str>) -> (name: Option<String>)
    ensures
        text::text_view(name) == proper_name(text::slice_view(raw)),
{
    match raw {
        Some(raw) => {
            let name = trim(raw);
            if text::is_blank(raw) {
                None
            } else {
                Some(name)
            }
        },
        None => None,
    }
}

/// What a window calls itself: the names that its client set, without the white space round them.
pub fn surface_app_id_and_title(app_id: Option<&str>, title: Option<&str>) -> (metadata: Metadata)
    ensures
        metadata@ == (Naming {
            app_id: proper_name(text::slice_view(app_id)),
            title: proper_name(text::slice_view(title)),
        }),
{
    Metadata { app_id: tidy_name(app_id), title: tidy_name(title) }
}

fn name_text(name: &Option<String>) -> (text: Option<&str>)
    ensures
        text::slice_view(text) == text::text_view(*name),
{
    match name {
        Some(name) => Some(name.as_str()),
        None => None,
    }
}

/// What becomes of a new window.
#[derive(Clone, Copy, Debug, PartialEq, Eq, Structural)]
pub struct NewWindowRuleDecision {
    pub workspace_index: usize,
    pub floating: bool,
    pub fullscreen: bool,
    pub focus: bool,
    pub width: Option<u32>,
    pub height: Option<u32>,
}

/// What becomes of a new window that no rule speaks of.
pub open spec fn undecided(current: usize) -> NewWindowRuleDecision {
    NewWindowRuleDecision {
        workspace_index: current,
        floating: false,
        fullscreen: false,
        focus: true,
        width: None,
        height: None,
    }
}

/// `decision` with what a rule asks.
pub open spec fn decided(rule: Rule, decision: NewWindowRuleDecision) -> NewWindowRuleDecision {
    NewWindowRuleDecision {
        workspace_index: match rule.workspace {
            Some(index) => index,
            None => decision.workspace_index,
        },
        floating: match rule.floating {
            Some(floating) => floating,
            None => decision.floating,
        },
        fullscreen: match rule.fullscreen {
            Some(fullscreen) => fullscreen,
            None => decision.fullscreen,
        },
        focus: match rule.focus {
            Some(focus) => focus,
            None => decision.focus,
        },
        width: match rule.width {
            Some(width) => Some(width),
            None => decision.width,
        },
        height: match rule.height {
            Some(height) => Some(height),
            None => decision.height,
        },
    }
}

/// What becomes of a new window by these rules; of two that ask the same thing the later wins.
pub open spec fn decision_by(rules: Seq<Rule>, naming: Naming, current: usize) -> NewWindowRuleDecision
    decreases rules.len(),
{
    if rules.len() == 0 {
        undecided(current)
    } else {
        let before = decision_by(rules.drop_last(), naming, current);
        if window_rules::applies(rules.last(), naming.app_id, naming.title) {
            decided(rules.last(), before)
        } else {
            before
        }
    }
}

/// Whether a rule that speaks of the window says whether it floats.
pub open spec fn floating_ruled(rules: Seq<Rule>, naming: Naming) -> bool {
    exists|i: int|
        0 <= i < rules.len() && (#[trigger] rules[i]).floating is Some && window_rules::applies(
            rules[i],
            naming.app_id,
            naming.title,
        )
}

/// Whether a rule asks for a name that the window does not have yet.
pub open spec fn naming_gap(rules: Seq<Rule>, naming: Naming) -> bool {
    exists|i: int|
        0 <= i < rules.len() && (((#[trigger] rules[i]).class is Some || rules[i].app_id is Some)
            && naming.app_id is None || rules[i].title is Some && naming.title is None)
}

/// The last rule that speaks of the window and says whether it floats, says it.
pub proof fn later_rule_wins(rules: Seq<Rule>, naming: Naming, current: usize, at: int)
    requires
        0 <= at < rules.len(),
        window_rules::applies(rules[at], naming.app_id, naming.title),
        rules[at].floating is Some,
        forall|i: int|
            at < i < rules.len() && window_rules::applies(
                #[trigger] rules[i],
                naming.app_id,
                naming.title,
            ) ==> rules[i].floating is None,
    ensures
        Some(decision_by(rules, naming, current).floating) == rules[at].floating,
        floating_ruled(rules, naming),
    decreases rules.len(),
{
    if at < rules.len() - 1 {
        let rest = rules.drop_last();
        assert(rest[at] == rules[at]);
        assert forall|i: int|
            at < i < rest.len() && window_rules::applies(
                #[trigger] rest[i],
                naming.app_id,
                naming.title,
            ) implies rest[i].floating is None by {
            assert(rest[i] == rules[i]);
        }
        later_rule_wins(rest, naming, current, at);
        assert(rules[rules.len() - 1] == rules.last());
    }
}

/// Takes what a rule asks into a decision.
pub fn apply_window_rule_to_decision(rule: &WindowRule, decision: &mut NewWindowRuleDecision)
    ensures
        *final(decision) == decided(rule@, *old(decision)),
{
    if let Some(workspace_index) = rule.workspace {
        decision.workspace_index = workspace_index;
    }
    if let Some(floating) = rule.floating {
        decision.floating = floating;
    }
    if let Some(fullscreen) = rule.fullscreen {
        decision.fullscreen = fullscreen;
    }
    if let Some(focus) = rule.focus {
        decision.focus = focus;
    }
    if let Some(width) = rule.width {
        decision.width = Some(width);
    }
    if let Some(height) = rule.height {
        decision.height = Some(height);
    }
}

/// A length that a rule asks for, within what a window can have.
pub open spec fn ruled_length(length: u32) -> i32 {
    if length < 1 {
        1
    } else if length > i32::MAX {
        i32::MAX
    } else {
        length as i32
    }
}

fn clamp_length(length: u32) -> (clamped: i32)
    ensures
        clamped == ruled_length(length),
{
    if length < 1 {
        1
    } else if length > 2147483647 {
        2147483647
    } else {
        length as i32
    }
}

impl State {
    /// Who draws decorations.
    pub open spec fn decoration(self) -> DecorationMode {
        if self.settings.general.no_csd {
            DecorationMode::ServerSide
        } else {
            DecorationMode::ClientSide
        }
    }

    /// Whether a window floats of itself, and why.
    pub open spec fn auto_floating(self, window: SurfaceId) -> (bool, Seq<char>) {
        let toplevel = self.toplevel(window);
        if self.exclusive(window) {
            (false, "exclusive-state"@)
        } else if toplevel.parent is Some {
            (true, "parent"@)
        } else if toplevel.min_size.h > 0 && toplevel.min_size.h == toplevel.max_size.h {
            (true, "fixed-height"@)
        } else {
            (false, "none"@)
        }
    }

    /// Whether a window is to float: as the rules say where they do, else of itself.
    pub open spec fn effective_floating(
        self,
        window: SurfaceId,
        naming: Naming,
        configured: bool,
    ) -> bool {
        if floating_ruled(self.settings.window_rules, naming) {
            configured
        } else {
            self.auto_floating(window).0
        }
    }

    /// What becomes of a new window.
    pub open spec fn decision(self, naming: Naming) -> NewWindowRuleDecision {
        decision_by(self.settings.window_rules, naming, self.current)
    }

    /// Whether a new window is to float; one that has the screen for itself does not.
    pub open spec fn settled_floating(self, window: SurfaceId, naming: Naming) -> bool {
        !self.exclusive(window) && self.effective_floating(
            window,
            naming,
            self.decision(naming).floating,
        )
    }

    /// The state with a window asked for the size that the rules give it.
    pub open spec fn rule_sized(self, window: SurfaceId, decision: NewWindowRuleDecision) -> State {
        match (decision.width, decision.height) {
            (Some(width), Some(height)) => self.with_pending(
                window,
                ToplevelState {
                    size: Some(Size { w: ruled_length(width), h: ruled_length(height) }),
                    ..self.toplevel(window).pending
                },
            ),
            _ => self,
        }
    }

    /// The state with a window asked for its decorations and edges.
    pub open spec fn decorated(self, window: SurfaceId, tiled: bool) -> State {
        self.with_pending(
            window,
            ToplevelState {
                decoration_mode: Some(self.decoration()),
                ..self.toplevel(window).pending.tiled(tiled)
            },
        )
    }

    /// The size that a new window counts as told where its configure asks for none.
    pub open spec fn new_fallback(self, window: SurfaceId) -> Size {
        match self.assigned_rect(window) {
            Some(rect) => rect.size,
            None => self.initial_rect(window).size,
        }
    }

    /// The state with a new window asked for the place that the next layout will give it.
    pub open spec fn slot_asked(self, window: SurfaceId) -> State {
        match self.coming_slot(window) {
            Some((rect, bounds)) => self.with_pending(
                window,
                ToplevelState {
                    size: Some(rect.size),
                    bounds: Some(bounds),
                    ..self.toplevel(window).pending
                },
            ),
            None => self,
        }
    }

    /// The state after the first configure of a window.
    #[verifier::opaque]
    pub open spec fn first_configured(self, window: SurfaceId, naming: Naming) -> State {
        if !self.has_window(window) {
            self
        } else {
            let decision = self.decision(naming);
            let exclusive = self.exclusive(window);
            let floating = self.settled_floating(window, naming);
            let moved = self.moved_to_workspace(window, decision.workspace_index as int).0;
            let asked = moved.with_floating(window, floating).decorated(
                window,
                moved.settings.general.no_csd && !floating && !exclusive,
            ).rule_sized(window, decision);
            let placed = if decision.workspace_index == asked.current && !floating
                && !decision.fullscreen && !exclusive {
                asked.slot_asked(window)
            } else {
                asked
            };
            placed.with_size_synced(window, Some(placed.new_fallback(window))).configured(window)
        }
    }

    /// Whether a window's fixed size is asked of it when the rules are looked at again.
    pub open spec fn hints_count(self, window: SurfaceId, naming: Naming) -> bool {
        let decision = self.decision(naming);
        !floating_ruled(self.settings.window_rules, naming) && self.auto_floating(window).0
            && decision.width is None && decision.height is None && !self.exclusive(window)
    }

    /// The state with a window asked for what the rules say, now that it is known.
    pub open spec fn rules_asked(self, window: SurfaceId, naming: Naming) -> State {
        let decision = self.decision(naming);
        let exclusive = self.exclusive(window);
        let floating = self.settled_floating(window, naming);
        let moved = self.moved_to_workspace(window, decision.workspace_index as int).0;
        let decorated = moved.decorated(
            window,
            moved.settings.general.no_csd && !floating && !exclusive,
        );
        let hinted = if self.hints_count(window, naming) {
            decorated.with_pending(
                window,
                ToplevelState {
                    size: decorated.toplevel(window).fixed_size(),
                    ..decorated.toplevel(window).pending
                },
            )
        } else {
            decorated
        };
        let sized = hinted.rule_sized(window, decision);
        if sized.toplevel(window).configured {
            sized.with_size_synced(window, Some(sized.new_fallback(window))).configured_if_changed(
                window,
            )
        } else {
            sized
        }
    }

    /// The state with a tiled window told the place that the next layout will give it.
    pub open spec fn slot_told(self, window: SurfaceId) -> State {
        match self.coming_slot(window) {
            Some((rect, bounds)) => self.asked(
                window,
                ToplevelState {
                    size: Some(rect.size),
                    bounds: Some(bounds),
                    ..self.toplevel(window).pending
                },
                Some(rect.size),
            ),
            None => self,
        }
    }

    /// Whether the rules are to be looked at once more: a name is missing, or the window floats by
    /// its fixed height and has no real size yet.
    pub open spec fn stays_unsettled(self, window: SurfaceId, naming: Naming, after: State) -> bool {
        let size = after.toplevel(window).geometry;
        naming_gap(self.settings.window_rules, naming) || (!self.exclusive(window)
            && !floating_ruled(self.settings.window_rules, naming) && self.settled_floating(
            window,
            naming,
        ) && self.auto_floating(window).1 == "fixed-height"@ && !(size.w > 1 && size.h > 1))
    }

    /// The state with a window placed as the rules say.
    pub open spec fn rules_placed(self, window: SurfaceId, naming: Naming) -> State {
        let decision = self.decision(naming);
        let floating = self.settled_floating(window, naming);
        let before = self.rules_asked(window, naming);
        let asked = before.with_floating(window, floating);
        let told = if asked.workspace_holds(asked.current as int, window) && !floating
            && !decision.fullscreen && !self.exclusive(window) {
            asked.slot_told(window)
        } else {
            asked
        };
        if floating && told.on_screen(window) {
            let shown = told.mapped_to(
                window,
                told.initial_rect(window),
                !before.floats(window),
            );
            State { recenter: shown.recenter.insert(window), ..shown }
        } else {
            told
        }
    }

    /// The state after the rules are looked at again for a window that waits for that.
    #[verifier::opaque]
    pub open spec fn rules_rechecked(self, window: SurfaceId, naming: Naming) -> State {
        if !self.recheck.contains(window) {
            self
        } else if !self.has_window(window) {
            State { recheck: self.recheck.remove(window), ..self }
        } else if !self.toplevel(window).has_buffer || !self.toplevel(window).has_buffer_size {
            self
        } else {
            let decision = self.decision(naming);
            let placed = self.rules_placed(window, naming);
            let full = if decision.fullscreen {
                placed.enter_requested(window, None)
            } else {
                placed
            };
            let laid_out = full.laid_out().0;
            let focused = if decision.focus && decision.workspace_index == laid_out.current {
                laid_out.focus_set(Some(window))
            } else {
                laid_out
            };
            if self.stays_unsettled(window, naming, focused) {
                focused
            } else {
                State { recheck: focused.recheck.remove(window), ..focused }
            }
        }
    }

    /// The state after a window that waited for its first configure has it, unless it is gone or on
    /// the screen by then.
    pub open spec fn idle_configured(self, surface: SurfaceId, naming: Naming) -> State {
        let woken = State { configure_idle: self.configure_idle.remove(surface), ..self };
        if self.toplevel(surface).live && self.initial_configure.contains(surface)
            && self.unmapped_marks.contains(surface) {
            let sent = woken.first_configured(surface, naming);
            State { initial_configure: sent.initial_configure.remove(surface), ..sent }
        } else {
            woken
        }
    }

    /// The state after a floating window that waits for its size is centred.
    pub open spec fn recentered(self, surface: SurfaceId) -> State {
        let size = self.toplevel(surface).geometry;
        let settled = State { recenter: self.recenter.remove(surface), ..self };
        if !self.recenter.contains(surface) {
            self
        } else if !self.has_window(surface) || !self.floats(surface) || !self.on_screen(surface) {
            settled
        } else if size.w <= 1 || size.h <= 1 {
            self
        } else {
            let shown = self.mapped_at(surface, self.initial_rect(surface).loc, false);
            State { recenter: shown.recenter.remove(surface), ..shown }
        }
    }
}

impl Raven {
    /// Who draws decorations.
    pub fn preferred_decoration_mode(&self) -> (mode: DecorationMode)
        ensures
            mode == self@.decoration(),
    {
        if self.config.no_csd {
            DecorationMode::ServerSide
        } else {
            DecorationMode::ClientSide
        }
    }

    /// What becomes of a new window.
    pub fn resolve_window_rules_for_surface(&self, metadata: &Metadata) -> (decision:
        NewWindowRuleDecision)
        ensures
            decision == self@.decision(metadata@),
    {
        let mut decision = NewWindowRuleDecision {
            workspace_index: self.current_workspace,
            floating: false,
            fullscreen: false,
            focus: true,
            width: None,
            height: None,
        };
        let ghost rules = self@.settings.window_rules;
        let mut index: usize = 0;
        assert(rules.take(0) =~= seq![]);
        while index < self.config.window_rules.len()
            invariant
                index <= self.config.window_rules.len(),
                rules == self@.settings.window_rules,
                decision == decision_by(rules.take(index as int), metadata@, self@.current),
            decreases self.config.window_rules.len() - index,
        {
            assert(rules.take(index + 1).drop_last() =~= rules.take(index as int));
            let rule = &self.config.window_rules[index];
            assert(rules.take(index + 1).last() == rule@);
            if rule.matches(name_text(&metadata.app_id), name_text(&metadata.title)) {
                apply_window_rule_to_decision(rule, &mut decision);
            }
            index = index + 1;
        }
        assert(rules.take(rules.len() as int) =~= rules);
        decision
    }

    /// Whether a rule that speaks of the window says whether it floats.
    pub fn has_matching_explicit_floating_rule(&self, metadata: &Metadata) -> (result: bool)
        ensures
            result == floating_ruled(self@.settings.window_rules, metadata@),
    {
        let ghost rules = self@.settings.window_rules;
        let mut index: usize = 0;
        while index < self.config.window_rules.len()
            invariant
                index <= self.config.window_rules.len(),
                rules == self@.settings.window_rules,
                forall|i: int|
                    0 <= i < index ==> !((#[trigger] rules[i]).floating is Some
                        && window_rules::applies(rules[i], metadata@.app_id, metadata@.title)),
            decreases self.config.window_rules.len() - index,
        {
            let rule = &self.config.window_rules[index];
            assert(rules[index as int] == rule@);
            if rule.floating.is_some() && rule.matches(
                name_text(&metadata.app_id),
                name_text(&metadata.title),
            ) {
                return true;
            }
            index = index + 1;
        }
        false
    }

    /// Whether a rule asks for a name that the window does not have yet.
    pub fn has_window_rule_metadata_gap(&self, metadata: &Metadata) -> (result: bool)
        ensures
            result == naming_gap(self@.settings.window_rules, metadata@),
    {
        let ghost rules = self@.settings.window_rules;
        let mut index: usize = 0;
        while index < self.config.window_rules.len()
            invariant
                index <= self.config.window_rules.len(),
                rules == self@.settings.window_rules,
                forall|i: int|
                    0 <= i < index ==> !(((#[trigger] rules[i]).class is Some || rules[i].app_id
                        is Some) && metadata@.app_id is None || rules[i].title is Some
                        && metadata@.title is None),
            decreases self.config.window_rules.len() - index,
        {
            let rule = &self.config.window_rules[index];
            assert(rules[index as int] == rule@);
            if ((rule.class.is_some() || rule.app_id.is_some()) && metadata.app_id.is_none()) || (
            rule.title.is_some() && metadata.title.is_none()) {
                return true;
            }
            index = index + 1;
        }
        false
    }

    /// Whether the rules are to be looked at again once more is known of the window.
    pub fn should_defer_window_rules_for_surface(&self, metadata: &Metadata) -> (result: bool)
        ensures
            result == (naming_gap(self@.settings.window_rules, metadata@) || !floating_ruled(
                self@.settings.window_rules,
                metadata@,
            )),
    {
        self.has_window_rule_metadata_gap(metadata) || !self.has_matching_explicit_floating_rule(
            metadata,
        )
    }

    /// Asks for the rules to be looked at again, where there is a reason.
    pub fn queue_window_rule_recheck_for_surface(&mut self, surface: SurfaceId, metadata: &Metadata)
        ensures
            final(self)@ == (if naming_gap(old(self)@.settings.window_rules, metadata@)
                || !floating_ruled(old(self)@.settings.window_rules, metadata@) {
                State { recheck: old(self)@.recheck.insert(surface), ..old(self)@ }
            } else {
                old(self)@
            }),
    {
        if self.should_defer_window_rules_for_surface(metadata) {
            self.pending_window_rule_recheck_ids.insert(surface);
        }
    }

    /// Whether a window floats of itself, and why.
    pub fn compute_auto_floating_for_surface(&self, window: SurfaceId) -> (result: (
        bool,
        &'static str,
    ))
        ensures
            (result.0, result.1@) == self@.auto_floating(window),
    {
        let toplevel = self.toplevel(window);
        if self.window_has_exclusive_layout_state(window) {
            return (false, "exclusive-state");
        }
        if toplevel.parent.is_some() {
            return (true, "parent");
        }
        if toplevel.min_size.h > 0 && toplevel.min_size.h == toplevel.max_size.h {
            return (true, "fixed-height");
        }
        (false, "none")
    }

    /// Whether a window is to float, whether the rules say so, whether it floats of itself, and why.
    pub fn resolve_effective_floating_for_surface(
        &self,
        window: SurfaceId,
        metadata: &Metadata,
        configured_floating: bool,
    ) -> (result: (bool, bool, bool, &'static str))
        ensures
            result.0 == self@.effective_floating(window, metadata@, configured_floating),
            result.1 == floating_ruled(self@.settings.window_rules, metadata@),
            (result.2, result.3@) == self@.auto_floating(window),
    {
        let explicit = self.has_matching_explicit_floating_rule(metadata);
        let (auto_floating, reason) = self.compute_auto_floating_for_surface(window);
        let floating = if explicit {
            configured_floating
        } else {
            auto_floating
        };
        (floating, explicit, auto_floating, reason)
    }

    /// Asks a window for the size that the rules give it.
    pub fn apply_window_rule_size_to_window(
        &mut self,
        window: SurfaceId,
        decision: &NewWindowRuleDecision,
    )
        ensures
            final(self)@ == old(self)@.rule_sized(window, *decision),
    {
        if let Some(width) = decision.width {
            if let Some(height) = decision.height {
                let pending = self.toplevel(window).pending;
                let size = Size { w: clamp_length(width), h: clamp_length(height) };
                self.set_pending_state(window, ToplevelState { size: Some(size), ..pending });
            }
        }
    }

    fn decorate(&mut self, window: SurfaceId, tiled: bool)
        ensures
            final(self)@ == old(self)@.decorated(window, tiled),
    {
        let mode = self.preferred_decoration_mode();
        let pending = self.toplevel(window).pending.set_tiled_state(tiled);
        self.set_pending_state(
            window,
            ToplevelState { decoration_mode: Some(mode), ..pending },
        );
    }

    fn fallback_for_new(&self, window: SurfaceId) -> (size: Size)
        requires
            self@.sound(),
        ensures
            size == self@.new_fallback(window),
    {
        match self.assigned_rect_for_window(window) {
            Some(rect) => rect.size,
            None => self.initial_map_rect_for_window(window).size,
        }
    }

    fn settle_floating(&self, window: SurfaceId, metadata: &Metadata) -> (floating: bool)
        ensures
            floating == self@.settled_floating(window, metadata@),
    {
        let decision = self.resolve_window_rules_for_surface(metadata);
        let (effective, _, _, _) = self.resolve_effective_floating_for_surface(
            window,
            metadata,
            decision.floating,
        );
        !self.window_has_exclusive_layout_state(window) && effective
    }

    /// Sends the first configure of a window.
    pub fn send_initial_configure_for_surface(&mut self, surface: SurfaceId, metadata: &Metadata)
        requires
            old(self)@.sound(),
        ensures
            final(self)@ == old(self)@.first_configured(surface, metadata@),
            final(self)@.sound(),
    {
        proof {
            reveal(State::first_configured);
        }
        if self.window_for_surface(surface).is_none() {
            return;
        }
        let decision = self.resolve_window_rules_for_surface(metadata);
        let exclusive = self.window_has_exclusive_layout_state(surface);
        let floating = self.settle_floating(surface, metadata);
        let _ = self.move_window_to_workspace_internal(surface, decision.workspace_index);
        self.set_window_floating(surface, floating);
        let no_csd = self.config.no_csd;
        self.decorate(surface, no_csd && !floating && !exclusive);
        self.apply_window_rule_size_to_window(surface, &decision);
        if decision.workspace_index == self.current_workspace && !floating && !decision.fullscreen
            && !exclusive {
            if let Some((rect, bounds)) = self.pre_layout_tiled_slot_for_window(surface) {
                let pending = self.toplevel(surface).pending;
                self.set_pending_state(
                    surface,
                    ToplevelState { size: Some(rect.size), bounds: Some(bounds), ..pending },
                );
            }
        }
        let fallback = self.fallback_for_new(surface);
        let _ = self.sync_reported_size_from_pending_state(surface, Some(fallback));
        self.send_configure(surface);
    }

    fn ask_by_rules(&mut self, surface: SurfaceId, metadata: &Metadata)
        requires
            old(self)@.sound(),
        ensures
            final(self)@ == old(self)@.rules_asked(surface, metadata@),
            final(self)@.sound(),
    {
        let decision = self.resolve_window_rules_for_surface(metadata);
        let exclusive = self.window_has_exclusive_layout_state(surface);
        let floating = self.settle_floating(surface, metadata);
        let explicit = self.has_matching_explicit_floating_rule(metadata);
        let (auto_floating, _) = self.compute_auto_floating_for_surface(surface);
        let hints_count = !explicit && auto_floating && decision.width.is_none()
            && decision.height.is_none() && !exclusive;
        assert(hints_count == self@.hints_count(surface, metadata@));
        let _ = self.move_window_to_workspace_internal(surface, decision.workspace_index);
        let no_csd = self.config.no_csd;
        self.decorate(surface, no_csd && !floating && !exclusive);
        if hints_count {
            let toplevel = self.toplevel(surface);
            let size = toplevel.fixed_hint_size();
            self.set_pending_state(surface, ToplevelState { size, ..toplevel.pending });
        }
        self.apply_window_rule_size_to_window(surface, &decision);
        if self.toplevel(surface).configured {
            let fallback = self.fallback_for_new(surface);
            let _ = self.sync_reported_size_from_pending_state(surface, Some(fallback));
            let _ = self.send_pending_configure(surface);
        }
    }

    fn place_by_rules(&mut self, surface: SurfaceId, metadata: &Metadata)
        requires
            old(self)@.sound(),
        ensures
            final(self)@ == old(self)@.rules_placed(surface, metadata@),
            final(self)@.sound(),
    {
        let decision = self.resolve_window_rules_for_surface(metadata);
        let exclusive = self.window_has_exclusive_layout_state(surface);
        let floating = self.settle_floating(surface, metadata);
        self.ask_by_rules(surface, metadata);
        let was_floating = self.is_window_floating(surface);
        self.set_window_floating(surface, floating);
        if self.workspace_contains_window(self.current_workspace, surface) && !floating
            && !decision.fullscreen && !exclusive {
            if let Some((rect, bounds)) = self.pre_layout_tiled_slot_for_window(surface) {
                let pending = self.toplevel(surface).pending;
                let _ = self.ask(
                    surface,
                    ToplevelState { size: Some(rect.size), bounds: Some(bounds), ..pending },
                    Some(rect.size),
                );
            }
        }
        if floating && self.is_window_mapped(surface) {
            let rect = self.initial_map_rect_for_window(surface);
            self.map_window_to_rect(surface, rect, !was_floating);
            self.queue_floating_recenter_for_surface(surface);
        }
    }

    /// Looks at the rules again for a window that waits for that.
    pub fn maybe_apply_deferred_window_rules(&mut self, surface: SurfaceId, metadata: &Metadata)
        requires
            old(self)@.sound(),
        ensures
            final(self)@ == old(self)@.rules_rechecked(surface, metadata@),
            final(self)@.sound(),
    {
        proof {
            reveal(State::rules_rechecked);
        }
        if !self.pending_window_rule_recheck_ids.contains(&surface) {
            return;
        }
        if self.window_for_surface(surface).is_none() {
            self.clear_window_rule_recheck_for_surface(surface);
            return;
        }
        let toplevel = self.toplevel(surface);
        if !toplevel.has_buffer || !toplevel.has_buffer_size {
            return;
        }
        let decision = self.resolve_window_rules_for_surface(metadata);
        let exclusive = self.window_has_exclusive_layout_state(surface);
        let floating = self.settle_floating(surface, metadata);
        let gap = self.has_window_rule_metadata_gap(metadata);
        let explicit = self.has_matching_explicit_floating_rule(metadata);
        let (_, reason) = self.compute_auto_floating_for_surface(surface);
        self.place_by_rules(surface, metadata);
        if decision.fullscreen {
            let _ = self.request_fullscreen_enter_on_output(surface, None);
        }
        let _ = self.apply_layout();
        if decision.focus && decision.workspace_index == self.current_workspace {
            self.set_keyboard_focus(Some(surface));
        }
        let size = self.toplevel(surface).geometry;
        let has_real_size = size.w > 1 && size.h > 1;
        let keep = gap || (!exclusive && !explicit && floating && same_text(
            reason,
            "fixed-height",
        ) && !has_real_size);
        assert(keep == old(self)@.stays_unsettled(surface, metadata@, self@));
        if !keep {
            self.clear_window_rule_recheck_for_surface(surface);
        }
    }

    /// Sends the first configure of a window that has been waiting for it, when there is nothing
    /// else to do.
    pub fn run_initial_configure_idle(&mut self, surface: SurfaceId, metadata: &Metadata)
        requires
            old(self)@.sound(),
        ensures
            final(self)@ == old(self)@.idle_configured(surface, metadata@),
            final(self)@.sound(),
    {
        self.pending_initial_configure_idle_ids.remove(&surface);
        if !self.window_has_live_client(surface) {
            return;
        }
        if !self.pending_initial_configure_ids.contains(&surface) {
            return;
        }
        if !self.is_surface_unmapped_toplevel(surface) {
            return;
        }
        self.send_initial_configure_for_surface(surface, metadata);
        self.clear_initial_configure_for_surface(surface);
    }

    /// Centres a floating window that waits for its size.
    pub fn maybe_recenter_floating_window_after_commit(&mut self, surface: SurfaceId)
        requires
            old(self)@.sound(),
        ensures
            final(self)@ == old(self)@.recentered(surface),
            final(self)@.sound(),
    {
        if !self.pending_floating_recenter_ids.contains(&surface) {
            return;
        }
        if self.window_for_surface(surface).is_none() || !self.is_window_floating(surface)
            || !self.is_window_mapped(surface) {
            self.clear_floating_recenter_for_surface(surface);
            return;
        }
        let size = self.toplevel(surface).geometry;
        if size.w <= 1 || size.h <= 1 {
            return;
        }
        let loc = self.initial_map_location_for_window(surface);
        self.map_window_to_location(surface, loc, false);
        self.clear_floating_recenter_for_surface(surface);
    }
}

} // verus!
