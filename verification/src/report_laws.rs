//! Laws of what a running compositor is asked and answers: a command goes by its name, and a report
//! says of every window what holds of it.

use crate::ipc;
use crate::ipc::{Facts, Question};
use crate::numbers;
use crate::state::lists::SurfaceId;
use crate::state::raven::State;
use crate::text;
use vstd::prelude::*;

verus! {

/// Whether a text is nothing but white space.
pub open spec fn is_space(text: Seq<char>) -> bool {
    forall|i: int| 0 <= i < text.len() ==> text::white_space(#[trigger] text[i])
}

proof fn start_is_trimmed(before: Seq<char>, rest: Seq<char>)
    requires
        is_space(before),
        rest.len() > 0,
        !text::white_space(rest[0]),
    ensures
        text::trimmed_start(before + rest) == rest,
    decreases before.len(),
{
    let all = before + rest;
    if before.len() > 0 {
        assert(text::white_space(before[0]));
        assert(all[0] == before[0]);
        assert(all.skip(1) =~= before.skip(1) + rest);
        assert forall|i: int| 0 <= i < before.skip(1).len() implies text::white_space(
            #[trigger] before.skip(1)[i],
        ) by {
            assert(before.skip(1)[i] == before[i + 1]);
        }
        start_is_trimmed(before.skip(1), rest);
    } else {
        assert(all =~= rest);
    }
}

proof fn end_is_trimmed(rest: Seq<char>, after: Seq<char>)
    requires
        is_space(after),
        rest.len() > 0,
        !text::white_space(rest.last()),
    ensures
        text::trimmed_end(rest + after) == rest,
    decreases after.len(),
{
    let all = rest + after;
    if after.len() > 0 {
        assert(text::white_space(after[after.len() - 1]));
        assert(all.last() == after.last());
        assert(all.drop_last() =~= rest + after.drop_last());
        assert forall|i: int| 0 <= i < after.drop_last().len() implies text::white_space(
            #[trigger] after.drop_last()[i],
        ) by {
            assert(after.drop_last()[i] == after[i]);
        }
        end_is_trimmed(rest, after.drop_last());
    } else {
        assert(all =~= rest);
    }
}

proof fn padding_is_trimmed(before: Seq<char>, word: Seq<char>, after: Seq<char>)
    requires
        is_space(before),
        is_space(after),
        word.len() > 0,
        !text::white_space(word[0]),
        !text::white_space(word.last()),
    ensures
        text::trimmed(before + word + after) == word,
{
    let rest = word + after;
    assert(before + word + after =~= before + rest);
    assert(rest[0] == word[0]);
    start_is_trimmed(before, rest);
    end_is_trimmed(word, after);
}

/// A command with any white space round it is the one that it names; any other word is refused as it
/// is written.
pub proof fn command_goes_by_its_name(before: Seq<char>, word: Seq<char>, after: Seq<char>)
    requires
        is_space(before),
        is_space(after),
        word.len() > 0,
        !text::white_space(word[0]),
        !text::white_space(word.last()),
    ensures
        ({
            let question = ipc::question_of(before + word + after);
            &&& word == "clients"@ ==> question is Clients
            &&& word == "monitors"@ ==> question is Monitors
            &&& word == "reload"@ ==> question is Reload
            &&& word != "clients"@ && word != "monitors"@ && word != "reload"@ ==> question
                == Question::Unsupported(word)
        }),
{
    padding_is_trimmed(before, word, after);
    reveal_strlit("clients");
    reveal_strlit("monitors");
    reveal_strlit("reload");
    assert("clients"@.len() == 7 && "monitors"@.len() == 8 && "reload"@.len() == 6);
}

proof fn last_is_held(before: Seq<char>, part: Seq<char>)
    ensures
        text::holds(before + part, part),
{
    let all = before + part;
    let at = before.len() as int;
    assert(all.subrange(at, at + part.len()) =~= part);
}

proof fn lines_are_held(
    start: Seq<char>,
    class: Seq<char>,
    title: Seq<char>,
    workspace: Seq<char>,
    mapped: Seq<char>,
    floating: Seq<char>,
    fullscreen: Seq<char>,
    focused: Seq<char>,
    end: Seq<char>,
)
    ensures
        ({
            let all = start + class + title + workspace + mapped + floating + fullscreen + focused + end;
            &&& text::holds(all, class)
            &&& text::holds(all, title)
            &&& text::holds(all, workspace)
            &&& text::holds(all, mapped)
            &&& text::holds(all, floating)
            &&& text::holds(all, fullscreen)
            &&& text::holds(all, focused)
        }),
{
    let upto_class = start + class;
    last_is_held(start, class);
    let upto_title = upto_class + title;
    last_is_held(upto_class, title);
    text::longer_holds(upto_class, title, class);
    let upto_workspace = upto_title + workspace;
    last_is_held(upto_title, workspace);
    text::longer_holds(upto_title, workspace, class);
    text::longer_holds(upto_title, workspace, title);
    let upto_mapped = upto_workspace + mapped;
    last_is_held(upto_workspace, mapped);
    text::longer_holds(upto_workspace, mapped, class);
    text::longer_holds(upto_workspace, mapped, title);
    text::longer_holds(upto_workspace, mapped, workspace);
    let upto_floating = upto_mapped + floating;
    last_is_held(upto_mapped, floating);
    text::longer_holds(upto_mapped, floating, class);
    text::longer_holds(upto_mapped, floating, title);
    text::longer_holds(upto_mapped, floating, workspace);
    text::longer_holds(upto_mapped, floating, mapped);
    let upto_fullscreen = upto_floating + fullscreen;
    last_is_held(upto_floating, fullscreen);
    text::longer_holds(upto_floating, fullscreen, class);
    text::longer_holds(upto_floating, fullscreen, title);
    text::longer_holds(upto_floating, fullscreen, workspace);
    text::longer_holds(upto_floating, fullscreen, mapped);
    text::longer_holds(upto_floating, fullscreen, floating);
    let upto_focused = upto_fullscreen + focused;
    last_is_held(upto_fullscreen, focused);
    text::longer_holds(upto_fullscreen, focused, class);
    text::longer_holds(upto_fullscreen, focused, title);
    text::longer_holds(upto_fullscreen, focused, workspace);
    text::longer_holds(upto_fullscreen, focused, mapped);
    text::longer_holds(upto_fullscreen, focused, floating);
    text::longer_holds(upto_fullscreen, focused, fullscreen);
    text::longer_holds(upto_focused, end, class);
    text::longer_holds(upto_focused, end, title);
    text::longer_holds(upto_focused, end, workspace);
    text::longer_holds(upto_focused, end, mapped);
    text::longer_holds(upto_focused, end, floating);
    text::longer_holds(upto_focused, end, fullscreen);
    text::longer_holds(upto_focused, end, focused);
}

/// What a report says of a window: its names, the number of its workspace from one on, whether it is on
/// the screen, whether it floats, and whether it has the keyboard.
pub proof fn report_says_what_holds(
    state: State,
    number: nat,
    window: SurfaceId,
    facts: Facts,
    index: usize,
)
    ensures
        ({
            let entry = state.client_entry(number, window, facts);
            &&& facts.app_id is Some ==> text::holds(
                entry,
                "  "@ + "class"@ + ": "@ + facts.app_id.unwrap() + "\n"@,
            )
            &&& facts.title is Some ==> text::holds(
                entry,
                "  "@ + "title"@ + ": "@ + facts.title.unwrap() + "\n"@,
            )
            &&& state.workspace_of(window) == Some(index) ==> text::holds(
                entry,
                "  "@ + "workspace"@ + ": "@ + numbers::decimal((index + 1) as nat) + "\n"@,
            )
            &&& state.on_screen(window) ==> text::holds(
                entry,
                "  "@ + "mapped"@ + ": "@ + "true"@ + "\n"@,
            )
            &&& !state.on_screen(window) ==> text::holds(
                entry,
                "  "@ + "mapped"@ + ": "@ + "false"@ + "\n"@,
            )
            &&& state.floats(window) ==> text::holds(
                entry,
                "  "@ + "floating"@ + ": "@ + "true"@ + "\n"@,
            )
            &&& !state.floats(window) ==> text::holds(
                entry,
                "  "@ + "floating"@ + ": "@ + "false"@ + "\n"@,
            )
            &&& state.owns_workspace(window) ==> text::holds(
                entry,
                "  "@ + "fullscreen"@ + ": "@ + "true"@ + "\n"@,
            )
            &&& !state.owns_workspace(window) ==> text::holds(
                entry,
                "  "@ + "fullscreen"@ + ": "@ + "false"@ + "\n"@,
            )
            &&& state.keyboard_focus == Some(window) ==> text::holds(
                entry,
                "  "@ + "focused"@ + ": "@ + "true"@ + "\n"@,
            )
            &&& state.keyboard_focus != Some(window) ==> text::holds(
                entry,
                "  "@ + "focused"@ + ": "@ + "false"@ + "\n"@,
            )
        }),
{
    reveal(State::client_entry);
    let start = "Client "@ + numbers::decimal(number) + ":\n"@ + ipc::report_line(
        "surface"@,
        facts.surface,
    );
    let class = ipc::report_line("class"@, ipc::or_text(facts.app_id, "<unknown>"@));
    let title = ipc::report_line("title"@, ipc::or_text(facts.title, "<untitled>"@));
    let workspace = ipc::report_line(
        "workspace"@,
        numbers::decimal(state.workspace_number(window)),
    );
    let mapped = ipc::report_line("mapped"@, ipc::truth(state.on_screen(window)));
    let floating = ipc::report_line("floating"@, ipc::truth(state.floats(window)));
    let fullscreen = ipc::report_line("fullscreen"@, ipc::truth(state.owns_workspace(window)));
    let focused = ipc::report_line("focused"@, ipc::truth(state.keyboard_focus == Some(window)));
    let end = "\n"@;
    let entry = state.client_entry(number, window, facts);
    assert(entry == start + class + title + workspace + mapped + floating + fullscreen + focused
        + end);
    lines_are_held(
        start,
        class,
        title,
        workspace,
        mapped,
        floating,
        fullscreen,
        focused,
        end,
    );
}

} // verus!
