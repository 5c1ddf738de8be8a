//! What does not matter in a combo: the order of its segments, a modifier said twice, and the case
//! of its letters.

use crate::config::keybinds;
use crate::config::keybinds::{KeybindModifiers, MainKey};
use crate::errors::Failure;
use crate::text;
use vstd::prelude::*;

verus! {

/// The modifiers and the key that the segments of a combo have named so far, or nothing where they
/// name no combo.
pub type Named = Option<(KeybindModifiers, Option<Seq<char>>)>;

/// What is named once one more segment is read.
pub open spec fn named_with(named: Named, segment: Seq<char>, main_key: MainKey) -> Named {
    match named {
        None => None,
        Some(found) => {
            let part = text::trimmed(segment);
            let word = text::lowercase(part);
            if part.len() == 0 {
                None
            } else if word == "shift"@ {
                Some((KeybindModifiers { shift: true, ..found.0 }, found.1))
            } else if keybinds::names_ctrl(word) {
                Some((KeybindModifiers { ctrl: true, ..found.0 }, found.1))
            } else if keybinds::names_alt(word) {
                Some((KeybindModifiers { alt: true, ..found.0 }, found.1))
            } else if keybinds::names_super(word) {
                Some((KeybindModifiers { logo: true, ..found.0 }, found.1))
            } else if word == "main"@ {
                Some((found.0.with_main(main_key), found.1))
            } else if found.1 is Some {
                None
            } else {
                Some((found.0, Some(keybinds::key_token(part))))
            }
        },
    }
}

/// What the segments of a combo name.
pub open spec fn named(parts: Seq<Seq<char>>, main_key: MainKey) -> Named {
    parts.fold_left(
        Some((keybinds::no_modifiers(), None)),
        |so_far: Named, segment: Seq<char>| named_with(so_far, segment, main_key),
    )
}

/// Whether a segment names a modifier.
pub open spec fn names_modifier(segment: Seq<char>) -> bool {
    let word = text::lowercase(text::trimmed(segment));
    ||| word == "shift"@
    ||| keybinds::names_ctrl(word)
    ||| keybinds::names_alt(word)
    ||| keybinds::names_super(word)
    ||| word == "main"@
}

/// Whether two combos are both refused, or name the same modifiers and the same key.
pub open spec fn same_combo(
    left: Result<(KeybindModifiers, Seq<char>), Failure>,
    right: Result<(KeybindModifiers, Seq<char>), Failure>,
) -> bool {
    &&& left is Ok == right is Ok
    &&& left is Ok ==> left->Ok_0 == right->Ok_0
}

proof fn named_is_found(parts: Seq<Seq<char>>, combo: Seq<char>, main_key: MainKey)
    ensures
        named(parts, main_key) == (match keybinds::combo_parts(parts, combo, main_key) {
            Ok(found) => Some(found),
            Err(failure) => None,
        }),
    decreases parts.len(),
{
    if parts.len() > 0 {
        named_is_found(parts.drop_last(), combo, main_key);
    }
}

proof fn naming_commutes(named: Named, first: Seq<char>, second: Seq<char>, main_key: MainKey)
    ensures
        named_with(named_with(named, first, main_key), second, main_key) == named_with(
            named_with(named, second, main_key),
            first,
            main_key,
        ),
{
}

proof fn order_is_free(left: Seq<Seq<char>>, right: Seq<Seq<char>>, main_key: MainKey)
    requires
        left.to_multiset() == right.to_multiset(),
    ensures
        named(left, main_key) == named(right, main_key),
{
    let step = |so_far: Named, segment: Seq<char>| named_with(so_far, segment, main_key);
    assert(vstd::seq_lib::commutative_foldl(step)) by {
        assert forall|first: Seq<char>, second: Seq<char>, so_far: Named| #[trigger]
            step(step(so_far, first), second) == step(step(so_far, second), first) by {
            naming_commutes(so_far, first, second, main_key);
        }
    }
    vstd::seq_lib::lemma_fold_left_permutation(
        left,
        right,
        step,
        Some((keybinds::no_modifiers(), None)),
    );
}

proof fn naming_again(parts: Seq<Seq<char>>, at: int, main_key: MainKey, again: Seq<char>)
    requires
        0 <= at < parts.len(),
        names_modifier(again),
        text::lowercase(text::trimmed(parts[at])) == text::lowercase(text::trimmed(again)),
    ensures
        named_with(named(parts, main_key), again, main_key) == named(parts, main_key),
    decreases parts.len(),
{
    modifier_is_written(again);
    modifier_is_written(parts[at]);
    let rest = named(parts.drop_last(), main_key);
    if at < parts.len() - 1 {
        naming_again(parts.drop_last(), at, main_key, again);
        naming_commutes(rest, again, parts.last(), main_key);
    }
}

proof fn modifier_is_written(segment: Seq<char>)
    requires
        names_modifier(segment),
    ensures
        text::trimmed(segment).len() > 0,
{
    reveal_strlit("shift");
    reveal_strlit("ctrl");
    reveal_strlit("control");
    reveal_strlit("alt");
    reveal_strlit("mod1");
    reveal_strlit("super");
    reveal_strlit("logo");
    reveal_strlit("win");
    reveal_strlit("windows");
    reveal_strlit("mod4");
    reveal_strlit("main");
    assert(text::lowercase(text::trimmed(segment)).len() == text::trimmed(segment).len());
}

/// The order of the segments of a combo does not matter: two combos with the same segments name the
/// same modifiers and the same key, or are both refused.
pub proof fn combo_order_is_free(left: Seq<char>, right: Seq<char>, main_key: MainKey)
    requires
        text::segments(left, '+').to_multiset() == text::segments(right, '+').to_multiset(),
    ensures
        same_combo(
            keybinds::combo_value(left, main_key),
            keybinds::combo_value(right, main_key),
        ),
{
    named_is_found(text::segments(left, '+'), left, main_key);
    named_is_found(text::segments(right, '+'), right, main_key);
    order_is_free(text::segments(left, '+'), text::segments(right, '+'), main_key);
}

/// Saying a modifier of a combo again, anywhere in it, changes nothing.
pub proof fn combo_repetition_is_free(
    once: Seq<char>,
    twice: Seq<char>,
    again: Seq<char>,
    at: int,
    place: int,
    main_key: MainKey,
)
    requires
        0 <= at < text::segments(once, '+').len(),
        names_modifier(again),
        text::same_ignoring_case(
            text::trimmed(text::segments(once, '+')[at]),
            text::trimmed(again),
        ),
        0 <= place <= text::segments(once, '+').len(),
        text::segments(twice, '+') == text::segments(once, '+').insert(place, again),
    ensures
        same_combo(
            keybinds::combo_value(once, main_key),
            keybinds::combo_value(twice, main_key),
        ),
{
    let parts = text::segments(once, '+');
    named_is_found(parts, once, main_key);
    named_is_found(text::segments(twice, '+'), twice, main_key);
    naming_again(parts, at, main_key, again);
    vstd::seq_lib::to_multiset_insert(parts, place, again);
    vstd::seq_lib::to_multiset_build(parts, again);
    order_is_free(parts.insert(place, again), parts.push(again), main_key);
    assert(parts.push(again).drop_last() =~= parts);
}

proof fn cases_agree(left: char, right: char)
    requires
        text::lowered(left) == text::lowered(right),
    ensures
        text::raised(left) == text::raised(right),
        text::white_space(left) == text::white_space(right),
        left == '+' <==> right == '+',
{
}

proof fn letters_agree(left: Seq<char>, right: Seq<char>)
    requires
        text::same_ignoring_case(left, right),
    ensures
        left.len() == right.len(),
        forall|i: int|
            0 <= i < left.len() ==> #[trigger] text::lowered(left[i]) == text::lowered(right[i]),
{
    assert(text::lowercase(left).len() == left.len());
    assert(text::lowercase(right).len() == right.len());
    assert forall|i: int| 0 <= i < left.len() implies #[trigger] text::lowered(left[i])
        == text::lowered(right[i]) by {
        assert(text::lowercase(left)[i] == text::lowered(left[i]));
        assert(text::lowercase(right)[i] == text::lowered(right[i]));
    }
}

proof fn alike_by_letters(left: Seq<char>, right: Seq<char>)
    requires
        left.len() == right.len(),
        forall|i: int|
            0 <= i < left.len() ==> #[trigger] text::lowered(left[i]) == text::lowered(right[i]),
    ensures
        text::same_ignoring_case(left, right),
        text::uppercase(left) == text::uppercase(right),
{
    assert(text::lowercase(left) =~= text::lowercase(right)) by {
        assert forall|i: int| 0 <= i < left.len() implies text::lowercase(left)[i]
            == text::lowercase(right)[i] by {
            assert(text::lowered(left[i]) == text::lowered(right[i]));
        }
    }
    assert(text::uppercase(left) =~= text::uppercase(right)) by {
        assert forall|i: int| 0 <= i < left.len() implies text::uppercase(left)[i]
            == text::uppercase(right)[i] by {
            assert(text::lowered(left[i]) == text::lowered(right[i]));
            cases_agree(left[i], right[i]);
        }
    }
}

proof fn parts_agree(left: Seq<char>, right: Seq<char>, from: int, to: int)
    requires
        text::same_ignoring_case(left, right),
        0 <= from <= to <= left.len(),
    ensures
        text::same_ignoring_case(left.subrange(from, to), right.subrange(from, to)),
{
    letters_agree(left, right);
    let (one, other) = (left.subrange(from, to), right.subrange(from, to));
    assert forall|i: int| 0 <= i < one.len() implies #[trigger] text::lowered(one[i])
        == text::lowered(other[i]) by {
        assert(text::lowered(left[from + i]) == text::lowered(right[from + i]));
    }
    alike_by_letters(one, other);
}

proof fn start_trims_alike(left: Seq<char>, right: Seq<char>)
    requires
        text::same_ignoring_case(left, right),
    ensures
        text::same_ignoring_case(text::trimmed_start(left), text::trimmed_start(right)),
    decreases left.len(),
{
    letters_agree(left, right);
    if left.len() > 0 {
        assert(text::lowered(left[0]) == text::lowered(right[0]));
        cases_agree(left[0], right[0]);
        if text::white_space(left[0]) {
            parts_agree(left, right, 1, left.len() as int);
            assert(left.skip(1) =~= left.subrange(1, left.len() as int));
            assert(right.skip(1) =~= right.subrange(1, left.len() as int));
            start_trims_alike(left.skip(1), right.skip(1));
        }
    }
}

proof fn end_trims_alike(left: Seq<char>, right: Seq<char>)
    requires
        text::same_ignoring_case(left, right),
    ensures
        text::same_ignoring_case(text::trimmed_end(left), text::trimmed_end(right)),
    decreases left.len(),
{
    letters_agree(left, right);
    if left.len() > 0 {
        assert(text::lowered(left[left.len() - 1]) == text::lowered(right[left.len() - 1]));
        cases_agree(left.last(), right.last());
        if text::white_space(left.last()) {
            parts_agree(left, right, 0, left.len() - 1);
            assert(left.drop_last() =~= left.subrange(0, left.len() - 1));
            assert(right.drop_last() =~= right.subrange(0, left.len() - 1));
            end_trims_alike(left.drop_last(), right.drop_last());
        }
    }
}

proof fn segments_agree(left: Seq<char>, right: Seq<char>)
    requires
        text::same_ignoring_case(left, right),
    ensures
        text::segments(left, '+').len() == text::segments(right, '+').len(),
        forall|i: int|
            0 <= i < text::segments(left, '+').len() ==> #[trigger] text::same_ignoring_case(
                text::segments(left, '+')[i],
                text::segments(right, '+')[i],
            ),
    decreases left.len(),
{
    letters_agree(left, right);
    text::first_mark_place(left, '+');
    let place = text::first_mark(left, '+') as int;
    assert forall|i: int| 0 <= i < place implies right[i] != '+' by {
        assert(text::lowered(left[i]) == text::lowered(right[i]));
        cases_agree(left[i], right[i]);
    }
    if place < left.len() {
        assert(text::lowered(left[place]) == text::lowered(right[place]));
        cases_agree(left[place], right[place]);
    }
    text::first_mark_is_first(right, '+', place);
    if place < left.len() {
        let end = left.len() as int;
        parts_agree(left, right, 0, place);
        assert(left.take(place) =~= left.subrange(0, place));
        assert(right.take(place) =~= right.subrange(0, place));
        parts_agree(left, right, place + 1, end);
        assert(left.skip(place + 1) =~= left.subrange(place + 1, end));
        assert(right.skip(place + 1) =~= right.subrange(place + 1, end));
        segments_agree(left.skip(place + 1), right.skip(place + 1));
        let later = text::segments(left.skip(place + 1), '+');
        let other = text::segments(right.skip(place + 1), '+');
        assert forall|i: int|
            0 <= i < text::segments(left, '+').len() implies #[trigger] text::same_ignoring_case(
            text::segments(left, '+')[i],
            text::segments(right, '+')[i],
        ) by {
            if i > 0 {
                assert(text::same_ignoring_case(later[i - 1], other[i - 1]));
            }
        }
    }
}

proof fn named_alike(left: Seq<Seq<char>>, right: Seq<Seq<char>>, main_key: MainKey)
    requires
        left.len() == right.len(),
        forall|i: int|
            0 <= i < left.len() ==> #[trigger] text::same_ignoring_case(left[i], right[i]),
    ensures
        named(left, main_key) == named(right, main_key),
    decreases left.len(),
{
    if left.len() > 0 {
        let (one, other) = (left.drop_last(), right.drop_last());
        assert forall|i: int| 0 <= i < one.len() implies #[trigger] text::same_ignoring_case(
            one[i],
            other[i],
        ) by {
            assert(text::same_ignoring_case(left[i], right[i]));
        }
        named_alike(one, other, main_key);
        assert(text::same_ignoring_case(left[left.len() - 1], right[left.len() - 1]));
        start_trims_alike(left.last(), right.last());
        end_trims_alike(text::trimmed_start(left.last()), text::trimmed_start(right.last()));
        letters_agree(text::trimmed(left.last()), text::trimmed(right.last()));
        alike_by_letters(text::trimmed(left.last()), text::trimmed(right.last()));
    }
}

/// The case of the ASCII letters of a combo does not matter.
pub proof fn combo_case_is_free(left: Seq<char>, right: Seq<char>, main_key: MainKey)
    requires
        text::same_ignoring_case(left, right),
    ensures
        same_combo(
            keybinds::combo_value(left, main_key),
            keybinds::combo_value(right, main_key),
        ),
{
    segments_agree(left, right);
    named_is_found(text::segments(left, '+'), left, main_key);
    named_is_found(text::segments(right, '+'), right, main_key);
    named_alike(text::segments(left, '+'), text::segments(right, '+'), main_key);
}

} // verus!
