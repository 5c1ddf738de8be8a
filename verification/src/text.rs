//! Text primitives: trimming, splitting, ASCII case, and decimal numbers.

use vstd::prelude::*;

verus! {

broadcast use vstd::string::group_string_axioms;

/// `String::push` of std: the character is appended to the text.
pub assume_specification[ std::string::String::push ](s: &mut std::string::String, ch: char)
    ensures
        final(s)@ == old(s)@.push(ch),
;

/// The characters of `text`, in order.
pub fn chars_of(text: &str) -> (chars: Vec<char>)
    ensures
        chars@ == text@,
{
    let mut chars: Vec<char> = Vec::new();
    for ch in it: text.chars()
        invariant
            it.seq() == text@,
            chars@ == text@.take(it.index() as int),
    {
        chars.push(ch);
        assert(chars@ =~= text@.take(it.index() + 1));
    }
    assert(chars@ =~= text@);
    chars
}

/// The text made of `chars[from..to]`.
pub fn text_from(chars: &Vec<char>, from: usize, to: usize) -> (text: String)
    requires
        from <= to <= chars.len(),
    ensures
        text@ == chars@.subrange(from as int, to as int),
{
    let mut text = String::new();
    let mut index: usize = from;
    while index < to
        invariant
            from <= index <= to <= chars.len(),
            text@ == chars@.subrange(from as int, index as int),
        decreases to - index,
    {
        text.push(chars[index]);
        index = index + 1;
        assert(text@ =~= chars@.subrange(from as int, index as int));
    }
    text
}

/// Whether two texts hold the same characters.
pub fn same_text(left: &str, right: &str) -> (same: bool)
    ensures
        same == (left@ == right@),
{
    left.to_owned() == right.to_owned()
}

/// The Unicode `White_Space` property.
pub open spec fn white_space(ch: char) -> bool {
    let code = ch as u32;
    ||| 0x9 <= code <= 0xd
    ||| code == 0x20
    ||| code == 0x85
    ||| code == 0xa0
    ||| code == 0x1680
    ||| 0x2000 <= code <= 0x200a
    ||| code == 0x2028
    ||| code == 0x2029
    ||| code == 0x202f
    ||| code == 0x205f
    ||| code == 0x3000
}

/// Whether `ch` has the Unicode `White_Space` property.
pub fn is_white_space(ch: char) -> (white: bool)
    ensures
        white == white_space(ch),
{
    let code: u32 = ch as u32;
    (0x9 <= code && code <= 0xd) || code == 0x20 || code == 0x85 || code == 0xa0 || code == 0x1680
        || (0x2000 <= code && code <= 0x200a) || code == 0x2028 || code == 0x2029 || code == 0x202f
        || code == 0x205f || code == 0x3000
}

/// `text` without its leading white space.
pub open spec fn trimmed_start(text: Seq<char>) -> Seq<char>
    decreases text.len(),
{
    if text.len() > 0 && white_space(text[0]) {
        trimmed_start(text.skip(1))
    } else {
        text
    }
}

/// `text` without its trailing white space.
pub open spec fn trimmed_end(text: Seq<char>) -> Seq<char>
    decreases text.len(),
{
    if text.len() > 0 && white_space(text.last()) {
        trimmed_end(text.drop_last())
    } else {
        text
    }
}

/// `text` without leading and trailing white space.
pub open spec fn trimmed(text: Seq<char>) -> Seq<char> {
    trimmed_end(trimmed_start(text))
}

/// Whether `text` holds nothing but white space.
pub open spec fn blank(text: Seq<char>) -> bool {
    trimmed(text).len() == 0
}

/// `text` without leading and trailing white space.
pub fn trim(text: &str) -> (inner: String)
    ensures
        inner@ == trimmed(text@),
{
    let chars = chars_of(text);
    let mut from: usize = 0;
    assert(text@.skip(0) =~= text@);
    while from < chars.len() && is_white_space(chars[from])
        invariant
            from <= chars.len(),
            chars@ == text@,
            trimmed_start(text@.skip(from as int)) == trimmed_start(text@),
        decreases chars.len() - from,
    {
        assert(text@.skip(from as int).skip(1) =~= text@.skip(from + 1));
        from = from + 1;
    }
    let ghost rest = text@.skip(from as int);
    assert(trimmed_start(text@) == rest);
    let mut to: usize = chars.len();
    assert(rest.take(rest.len() as int) =~= rest);
    while from < to && is_white_space(chars[to - 1])
        invariant
            from <= to <= chars.len(),
            chars@ == text@,
            rest == text@.skip(from as int),
            trimmed_end(rest.take(to - from)) == trimmed_end(rest),
        decreases to - from,
    {
        assert(rest.take(to - from).drop_last() =~= rest.take(to - from - 1));
        assert(rest.take(to - from).last() == chars@[to - 1]);
        to = to - 1;
    }
    proof {
        assert(rest.take(to - from) =~= chars@.subrange(from as int, to as int));
        if from < to {
            assert(rest.take(to - from).last() == chars@[to - 1]);
        }
    }
    text_from(&chars, from, to)
}

/// Trimmed text that is not empty begins with something else than white space.
pub proof fn trimmed_begins_dark(text: Seq<char>)
    requires
        trimmed(text).len() > 0,
    ensures
        !white_space(trimmed(text)[0]),
{
    trimmed_start_begins_dark(text);
    trimmed_end_is_prefix(trimmed_start(text));
}

proof fn trimmed_start_begins_dark(text: Seq<char>)
    ensures
        trimmed_start(text).len() > 0 ==> !white_space(trimmed_start(text)[0]),
    decreases text.len(),
{
    if text.len() > 0 && white_space(text[0]) {
        trimmed_start_begins_dark(text.skip(1));
    }
}

proof fn trimmed_end_is_prefix(text: Seq<char>)
    ensures
        trimmed_end(text).len() <= text.len(),
        trimmed_end(text) == text.take(trimmed_end(text).len() as int),
    decreases text.len(),
{
    if text.len() > 0 && white_space(text.last()) {
        trimmed_end_is_prefix(text.drop_last());
        assert(text.drop_last().take(trimmed_end(text).len() as int) =~= text.take(
            trimmed_end(text).len() as int,
        ));
    } else {
        assert(text.take(text.len() as int) =~= text);
    }
}

/// Trimming a second time changes nothing.
pub proof fn trimmed_twice(text: Seq<char>)
    ensures
        trimmed(trimmed(text)) == trimmed(text),
{
    let once = trimmed(text);
    if once.len() > 0 {
        trimmed_begins_dark(text);
    }
    trimmed_end_twice(trimmed_start(text));
}

proof fn trimmed_end_twice(text: Seq<char>)
    ensures
        trimmed_end(trimmed_end(text)) == trimmed_end(text),
    decreases text.len(),
{
    if text.len() > 0 && white_space(text.last()) {
        trimmed_end_twice(text.drop_last());
    }
}

/// Whether `text` holds nothing but white space.
pub fn is_blank(text: &str) -> (result: bool)
    ensures
        result == blank(text@),
{
    trim(text).as_str().is_empty()
}

pub open spec fn ascii_upper(ch: char) -> bool {
    'A' <= ch <= 'Z'
}

pub open spec fn ascii_lower(ch: char) -> bool {
    'a' <= ch <= 'z'
}

pub open spec fn ascii_letter(ch: char) -> bool {
    ascii_upper(ch) || ascii_lower(ch)
}

pub open spec fn ascii_digit(ch: char) -> bool {
    '0' <= ch <= '9'
}

/// `ch` with an ASCII capital letter made small.
pub open spec fn lowered(ch: char) -> char {
    if ascii_upper(ch) {
        ((ch as u32) + 32) as char
    } else {
        ch
    }
}

/// `ch` with a small ASCII letter made capital.
pub open spec fn raised(ch: char) -> char {
    if ascii_lower(ch) {
        ((ch as u32) - 32) as char
    } else {
        ch
    }
}

/// `text` with its ASCII capital letters made small.
pub open spec fn lowercase(text: Seq<char>) -> Seq<char> {
    text.map_values(|ch: char| lowered(ch))
}

/// `text` with its small ASCII letters made capital.
pub open spec fn uppercase(text: Seq<char>) -> Seq<char> {
    text.map_values(|ch: char| raised(ch))
}

/// Whether two texts differ at most in the case of ASCII letters.
pub open spec fn same_ignoring_case(left: Seq<char>, right: Seq<char>) -> bool {
    lowercase(left) == lowercase(right)
}

pub fn is_ascii_letter(ch: char) -> (letter: bool)
    ensures
        letter == ascii_letter(ch),
{
    ('A' <= ch && ch <= 'Z') || ('a' <= ch && ch <= 'z')
}

pub fn is_ascii_digit(ch: char) -> (digit: bool)
    ensures
        digit == ascii_digit(ch),
{
    '0' <= ch && ch <= '9'
}

/// `ch` with an ASCII capital letter made small.
pub fn lower_char(ch: char) -> (small: char)
    ensures
        small == lowered(ch),
{
    if 'A' <= ch && ch <= 'Z' {
        let code: u8 = ch as u8;
        (code + 32) as char
    } else {
        ch
    }
}

/// `ch` with a small ASCII letter made capital.
pub fn upper_char(ch: char) -> (capital: char)
    ensures
        capital == raised(ch),
{
    if 'a' <= ch && ch <= 'z' {
        let code: u8 = ch as u8;
        (code - 32) as char
    } else {
        ch
    }
}

/// `text` with its ASCII capital letters made small.
pub fn to_lowercase(text: &str) -> (small: String)
    ensures
        small@ == lowercase(text@),
{
    let chars = chars_of(text);
    let mut small = String::new();
    let mut index: usize = 0;
    while index < chars.len()
        invariant
            index <= chars.len(),
            chars@ == text@,
            small@ == lowercase(text@.take(index as int)),
        decreases chars.len() - index,
    {
        small.push(lower_char(chars[index]));
        index = index + 1;
        assert(small@ =~= lowercase(text@.take(index as int)));
    }
    assert(text@.take(text@.len() as int) =~= text@);
    small
}

/// `text` with its small ASCII letters made capital.
pub fn to_uppercase(text: &str) -> (capital: String)
    ensures
        capital@ == uppercase(text@),
{
    let chars = chars_of(text);
    let mut capital = String::new();
    let mut index: usize = 0;
    while index < chars.len()
        invariant
            index <= chars.len(),
            chars@ == text@,
            capital@ == uppercase(text@.take(index as int)),
        decreases chars.len() - index,
    {
        capital.push(upper_char(chars[index]));
        index = index + 1;
        assert(capital@ =~= uppercase(text@.take(index as int)));
    }
    assert(text@.take(text@.len() as int) =~= text@);
    capital
}

/// Whether two texts differ at most in the case of ASCII letters.
pub fn eq_ignore_case(left: &str, right: &str) -> (same: bool)
    ensures
        same == same_ignoring_case(left@, right@),
{
    same_text(to_lowercase(left).as_str(), to_lowercase(right).as_str())
}

/// Where `mark` first stands in `text`, or the length of `text`.
pub open spec fn first_mark(text: Seq<char>, mark: char) -> nat
    decreases text.len(),
{
    if text.len() == 0 || text[0] == mark {
        0
    } else {
        1 + first_mark(text.skip(1), mark)
    }
}

/// `first_mark` is the one place that has `mark` (or the end) and no `mark` before it.
pub proof fn first_mark_is_first(text: Seq<char>, mark: char, place: int)
    requires
        0 <= place <= text.len(),
        forall|i: int| 0 <= i < place ==> text[i] != mark,
        place == text.len() || text[place] == mark,
    ensures
        first_mark(text, mark) == place,
    decreases text.len(),
{
    if place > 0 {
        assert forall|i: int| 0 <= i < place - 1 implies text.skip(1)[i] != mark by {
            assert(text.skip(1)[i] == text[i + 1]);
        }
        first_mark_is_first(text.skip(1), mark, place - 1);
    }
}

/// `first_mark` lies within the text, with no `mark` before it.
pub proof fn first_mark_place(text: Seq<char>, mark: char)
    ensures
        0 <= first_mark(text, mark) <= text.len(),
        forall|i: int| 0 <= i < first_mark(text, mark) ==> text[i] != mark,
        first_mark(text, mark) == text.len() || text[first_mark(text, mark) as int] == mark,
    decreases text.len(),
{
    if text.len() > 0 && text[0] != mark {
        let rest = text.skip(1);
        first_mark_place(rest, mark);
        assert forall|i: int| 0 <= i < first_mark(text, mark) implies text[i] != mark by {
            if i > 0 {
                assert(rest[i - 1] == text[i]);
            }
        }
    }
}

/// Where `mark` first stands in `chars` at or after `from`, or the number of characters.
fn find_mark(chars: &Vec<char>, from: usize, mark: char) -> (place: usize)
    requires
        from <= chars.len(),
    ensures
        from <= place <= chars.len(),
        place == from + first_mark(chars@.skip(from as int), mark),
{
    let mut place: usize = from;
    while place < chars.len() && chars[place] != mark
        invariant
            from <= place <= chars.len(),
            forall|i: int| from <= i < place ==> chars[i] != mark,
        decreases chars.len() - place,
    {
        place = place + 1;
    }
    proof {
        let rest = chars@.skip(from as int);
        assert forall|i: int| 0 <= i < place - from implies rest[i] != mark by {
            assert(rest[i] == chars[from + i]);
        }
        first_mark_is_first(rest, mark, place - from);
    }
    place
}

/// The texts before and after the first `mark`.
pub open spec fn split_at_mark(text: Seq<char>, mark: char) -> Option<(Seq<char>, Seq<char>)> {
    let place = first_mark(text, mark) as int;
    if place < text.len() {
        Some((text.take(place), text.skip(place + 1)))
    } else {
        None
    }
}

/// The two sides of a split, as texts.
pub open spec fn split_view(split: Option<(String, String)>) -> Option<(Seq<char>, Seq<char>)> {
    match split {
        Some(sides) => Some((sides.0@, sides.1@)),
        None => None,
    }
}

/// The texts before and after the first `mark`.
pub fn split_once(text: &str, mark: char) -> (split: Option<(String, String)>)
    ensures
        split_view(split) == split_at_mark(text@, mark),
{
    let chars = chars_of(text);
    let place: usize = find_mark(&chars, 0, mark);
    assert(text@.skip(0) =~= text@);
    if place < chars.len() {
        let before = text_from(&chars, 0, place);
        let after = text_from(&chars, place + 1, chars.len());
        assert(before@ =~= text@.take(place as int));
        assert(after@ =~= text@.skip(place + 1));
        Some((before, after))
    } else {
        None
    }
}

/// The texts of a list of strings.
pub open spec fn texts(list: Seq<String>) -> Seq<Seq<char>> {
    Seq::new(list.len(), |i: int| list[i]@)
}

/// The segments of `text` between the marks: one more than there are marks.
pub open spec fn segments(text: Seq<char>, mark: char) -> Seq<Seq<char>>
    decreases text.len(),
{
    let place = first_mark(text, mark) as int;
    if place < text.len() {
        seq![text.take(place)] + segments(text.skip(place + 1), mark)
    } else {
        seq![text]
    }
}

/// The segments of `text` between the marks: one more than there are marks.
pub fn split(text: &str, mark: char) -> (parts: Vec<String>)
    ensures
        texts(parts@) == segments(text@, mark),
{
    let chars = chars_of(text);
    let mut parts: Vec<String> = Vec::new();
    let mut from: usize = 0;
    let mut place: usize = find_mark(&chars, from, mark);
    assert(text@.skip(0) =~= text@);
    assert(texts(parts@) + segments(text@, mark) =~= segments(text@, mark));
    while place < chars.len()
        invariant
            from <= place <= chars.len(),
            chars@ == text@,
            place == from + first_mark(text@.skip(from as int), mark),
            texts(parts@) + segments(text@.skip(from as int), mark) == segments(text@, mark),
        decreases chars.len() - from,
    {
        let part = text_from(&chars, from, place);
        let ghost before = texts(parts@);
        let ghost rest = text@.skip(from as int);
        parts.push(part);
        proof {
            assert(texts(parts@) =~= before.push(part@));
            assert(part@ =~= rest.take(place - from));
            assert(rest.skip(place - from + 1) =~= text@.skip(place + 1));
            first_mark_place(rest, mark);
            assert(texts(parts@) + segments(text@.skip(place + 1), mark) =~= before + segments(rest, mark));
        }
        from = place + 1;
        place = find_mark(&chars, from, mark);
    }
    let part = text_from(&chars, from, chars.len());
    let ghost before = texts(parts@);
    proof {
        first_mark_place(text@.skip(from as int), mark);
        assert(part@ =~= text@.skip(from as int));
    }
    parts.push(part);
    assert(texts(parts@) =~= before + seq![part@]);
    parts
}

/// Where white space first stands in `text`, or the length of `text`.
pub open spec fn first_space(text: Seq<char>) -> nat
    decreases text.len(),
{
    if text.len() == 0 || white_space(text[0]) {
        0
    } else {
        1 + first_space(text.skip(1))
    }
}

/// The longest runs of `text` without white space, in order.
pub open spec fn words(text: Seq<char>) -> Seq<Seq<char>>
    decreases text.len(),
{
    let place = first_space(text) as int;
    if text.len() == 0 {
        seq![]
    } else if white_space(text[0]) {
        words(text.skip(1))
    } else if place < text.len() {
        seq![text.take(place)] + words(text.skip(place + 1))
    } else {
        seq![text]
    }
}

/// `first_space` is the one place that has white space (or the end) and none before it.
pub proof fn first_space_is_first(text: Seq<char>, place: int)
    requires
        0 <= place <= text.len(),
        forall|i: int| 0 <= i < place ==> !white_space(text[i]),
        place == text.len() || white_space(text[place]),
    ensures
        first_space(text) == place,
    decreases text.len(),
{
    if place > 0 {
        assert forall|i: int| 0 <= i < place - 1 implies !white_space(text.skip(1)[i]) by {
            assert(text.skip(1)[i] == text[i + 1]);
        }
        first_space_is_first(text.skip(1), place - 1);
    }
}

/// `first_space` lies within the text, with no white space before it.
pub proof fn first_space_place(text: Seq<char>)
    ensures
        0 <= first_space(text) <= text.len(),
        forall|i: int| 0 <= i < first_space(text) ==> !white_space(text[i]),
        first_space(text) == text.len() || white_space(text[first_space(text) as int]),
    decreases text.len(),
{
    if text.len() > 0 && !white_space(text[0]) {
        let rest = text.skip(1);
        first_space_place(rest);
        assert forall|i: int| 0 <= i < first_space(text) implies !white_space(text[i]) by {
            if i > 0 {
                assert(rest[i - 1] == text[i]);
            }
        }
    }
}

/// The words of two texts of which the second begins with white space are those of both.
pub proof fn words_of_both(first: Seq<char>, second: Seq<char>)
    requires
        second.len() > 0,
        white_space(second[0]),
    ensures
        words(first + second) == words(first) + words(second),
    decreases first.len(),
{
    let both = first + second;
    if first.len() == 0 {
        assert(both =~= second);
        assert(words(first) + words(second) =~= words(second));
    } else if white_space(first[0]) {
        assert(both.skip(1) =~= first.skip(1) + second);
        words_of_both(first.skip(1), second);
    } else {
        let place = first_space(first) as int;
        first_space_place(first);
        assert forall|i: int| 0 <= i < place implies !white_space(both[i]) by {
            assert(both[i] == first[i]);
        }
        assert(white_space(both[place])) by {
            if place < first.len() {
                assert(both[place] == first[place]);
            } else {
                assert(both[place] == second[0]);
            }
        }
        first_space_is_first(both, place);
        assert(both.take(place) =~= first.take(place));
        if place < first.len() {
            assert(both.skip(place + 1) =~= first.skip(place + 1) + second);
            words_of_both(first.skip(place + 1), second);
        } else {
            assert(both.skip(place + 1) =~= second.skip(1));
            assert(first.take(place) =~= first);
        }
        assert(words(both) =~= words(first) + words(second));
    }
}

/// Text that neither begins nor ends with white space is trimmed.
pub proof fn dark_ends_are_trimmed(text: Seq<char>)
    requires
        text.len() > 0,
        !white_space(text[0]),
        !white_space(text.last()),
    ensures
        trimmed(text) == text,
{
}

/// What stands in a text stands in a longer one, too.
pub proof fn longer_holds(text: Seq<char>, more: Seq<char>, part: Seq<char>)
    ensures
        holds(text, part) ==> holds(text + more, part),
        holds(more, part) ==> holds(text + more, part),
{
    let both = text + more;
    if holds(text, part) {
        let at = choose|at: int|
            0 <= at && at + part.len() <= text.len() && #[trigger] text.subrange(
                at,
                at + part.len(),
            ) == part;
        assert(both.subrange(at, at + part.len()) =~= text.subrange(at, at + part.len()));
    }
    if holds(more, part) {
        let at = choose|at: int|
            0 <= at && at + part.len() <= more.len() && #[trigger] more.subrange(
                at,
                at + part.len(),
            ) == part;
        let later = text.len() + at;
        assert(both.subrange(later, later + part.len()) =~= more.subrange(at, at + part.len()));
    }
}

/// The longest runs of `text` without white space, in order.
pub fn split_whitespace(text: &str) -> (parts: Vec<String>)
    ensures
        texts(parts@) == words(text@),
{
    let chars = chars_of(text);
    let mut parts: Vec<String> = Vec::new();
    let mut from: usize = 0;
    assert(text@.skip(0) =~= text@);
    assert(texts(parts@) + words(text@) =~= words(text@));
    while from < chars.len()
        invariant
            from <= chars.len(),
            chars@ == text@,
            texts(parts@) + words(text@.skip(from as int)) == words(text@),
        decreases chars.len() - from,
    {
        let ghost rest = text@.skip(from as int);
        if is_white_space(chars[from]) {
            assert(rest.skip(1) =~= text@.skip(from + 1));
            from = from + 1;
        } else {
            let mut to: usize = from + 1;
            while to < chars.len() && !is_white_space(chars[to])
                invariant
                    from < to <= chars.len(),
                    forall|i: int| from <= i < to ==> !white_space(chars[i]),
                decreases chars.len() - to,
            {
                to = to + 1;
            }
            let part = text_from(&chars, from, to);
            let ghost before = texts(parts@);
            parts.push(part);
            proof {
                assert forall|i: int| 0 <= i < to - from implies !white_space(rest[i]) by {
                    assert(rest[i] == chars[from + i]);
                }
                first_space_is_first(rest, to - from);
                assert(texts(parts@) =~= before.push(part@));
                assert(part@ =~= rest.take(to - from));
                if to < chars.len() {
                    assert(rest.skip(to - from + 1) =~= text@.skip(to + 1));
                    assert(text@.skip(to as int).skip(1) =~= text@.skip(to + 1));
                    assert(text@.skip(to as int)[0] == chars[to as int]);
                }
                assert(texts(parts@) + words(text@.skip(to as int)) =~= before + words(rest));
            }
            from = to;
        }
    }
    assert(text@.skip(from as int) =~= seq![]);
    assert(texts(parts@) =~= texts(parts@) + words(text@.skip(from as int)));
    parts
}

/// The texts of `parts`, one after the other, with `gap` between each two.
pub open spec fn joined(parts: Seq<Seq<char>>, gap: Seq<char>) -> Seq<char>
    decreases parts.len(),
{
    if parts.len() == 0 {
        seq![]
    } else if parts.len() == 1 {
        parts[0]
    } else {
        joined(parts.drop_last(), gap) + gap + parts.last()
    }
}

/// The texts `parts[from..]`, one after the other, with `gap` between each two.
pub fn join(parts: &Vec<String>, from: usize, gap: &str) -> (text: String)
    requires
        from <= parts.len(),
    ensures
        text@ == joined(texts(parts@).skip(from as int), gap@),
{
    let mut text = String::new();
    let mut index: usize = from;
    let ghost all = texts(parts@).skip(from as int);
    while index < parts.len()
        invariant
            from <= index <= parts.len(),
            all == texts(parts@).skip(from as int),
            text@ == joined(all.take(index - from), gap@),
        decreases parts.len() - index,
    {
        let ghost done = all.take(index - from);
        let ghost next = all.take(index - from + 1);
        assert(next.drop_last() =~= done);
        assert(next.last() == parts[index as int]@);
        if index > from {
            text.append(gap);
        }
        text.append(parts[index].as_str());
        assert(text@ =~= joined(next, gap@));
        index = index + 1;
    }
    assert(all.take(all.len() as int) =~= all);
    text
}

/// Whether `text` begins with `prefix`.
pub open spec fn begins_with(text: Seq<char>, prefix: Seq<char>) -> bool {
    prefix.len() <= text.len() && text.take(prefix.len() as int) == prefix
}

/// Whether `text` ends with `suffix`.
pub open spec fn ends_in(text: Seq<char>, suffix: Seq<char>) -> bool {
    suffix.len() <= text.len() && text.skip(text.len() - suffix.len()) == suffix
}

/// Whether `part` stands somewhere in `text`.
pub open spec fn holds(text: Seq<char>, part: Seq<char>) -> bool {
    exists|at: int|
        0 <= at && at + part.len() <= text.len() && #[trigger] text.subrange(at, at + part.len())
            == part
}

/// Whether `part` stands in `chars` at `at`.
fn stands_at(chars: &Vec<char>, at: usize, part: &Vec<char>) -> (result: bool)
    requires
        at + part.len() <= chars.len(),
    ensures
        result == (chars@.subrange(at as int, at + part.len()) == part@),
{
    let mut index: usize = 0;
    while index < part.len()
        invariant
            index <= part.len(),
            at + part.len() <= chars.len(),
            forall|i: int| 0 <= i < index ==> chars[at + i] == part[i],
        decreases part.len() - index,
    {
        if chars[at + index] != part[index] {
            assert(chars@.subrange(at as int, at + part.len())[index as int] != part[index as int]);
            return false;
        }
        index = index + 1;
    }
    assert(chars@.subrange(at as int, at + part.len()) =~= part@);
    true
}

/// Whether `text` begins with `prefix`.
pub fn starts_with(text: &str, prefix: &str) -> (result: bool)
    ensures
        result == begins_with(text@, prefix@),
{
    let chars = chars_of(text);
    let part = chars_of(prefix);
    if part.len() > chars.len() {
        return false;
    }
    assert(chars@.subrange(0, part.len() as int) =~= text@.take(prefix@.len() as int));
    stands_at(&chars, 0, &part)
}

/// Whether `text` ends with `suffix`.
pub fn ends_with(text: &str, suffix: &str) -> (result: bool)
    ensures
        result == ends_in(text@, suffix@),
{
    let chars = chars_of(text);
    let part = chars_of(suffix);
    if part.len() > chars.len() {
        return false;
    }
    let at: usize = chars.len() - part.len();
    assert(chars@.subrange(at as int, at + part.len()) =~= text@.skip(
        text@.len() - suffix@.len(),
    ));
    stands_at(&chars, at, &part)
}

/// What follows `prefix` in `text`, where `text` begins with it.
pub open spec fn without_prefix(text: Seq<char>, prefix: Seq<char>) -> Option<Seq<char>> {
    if begins_with(text, prefix) {
        Some(text.skip(prefix.len() as int))
    } else {
        None
    }
}

/// The text of an optional string.
pub open spec fn text_view(text: Option<String>) -> Option<Seq<char>> {
    match text {
        Some(inner) => Some(inner@),
        None => None,
    }
}

/// The text of an optional string slice.
pub open spec fn slice_view(text: Option<&str>) -> Option<Seq<char>> {
    match text {
        Some(inner) => Some(inner@),
        None => None,
    }
}

/// What follows `prefix` in `text`, where `text` begins with it.
pub fn strip_prefix(text: &str, prefix: &str) -> (rest: Option<String>)
    ensures
        text_view(rest) == without_prefix(text@, prefix@),
{
    if starts_with(text, prefix) {
        let chars = chars_of(text);
        let skipped: usize = chars_of(prefix).len();
        let rest = text_from(&chars, skipped, chars.len());
        assert(rest@ =~= text@.skip(prefix@.len() as int));
        Some(rest)
    } else {
        None
    }
}

/// Whether `part` stands somewhere in `text`.
pub fn contains(text: &str, part: &str) -> (result: bool)
    ensures
        result == holds(text@, part@),
{
    let chars = chars_of(text);
    let wanted = chars_of(part);
    if wanted.len() > chars.len() {
        return false;
    }
    let last: usize = chars.len() - wanted.len();
    let mut at: usize = 0;
    while at <= last
        invariant
            at <= last + 1,
            last == chars.len() - wanted.len(),
            wanted.len() <= chars.len(),
            chars@ == text@,
            wanted@ == part@,
            forall|i: int| 0 <= i < at ==> #[trigger] text@.subrange(i, i + part@.len()) != part@,
        decreases last + 1 - at,
    {
        if stands_at(&chars, at, &wanted) {
            return true;
        }
        if at == last {
            return false;
        }
        at = at + 1;
    }
    false
}

/// What a text is split into makes up the text again, with the mark between, and the mark is not in the
/// first part; a text is split where it holds the mark at all.
pub proof fn split_makes_up_the_text(text: Seq<char>, mark: char)
    ensures
        split_at_mark(text, mark) is Some <==> text.contains(mark),
        split_at_mark(text, mark) matches Some(sides) ==> sides.0 + seq![mark] + sides.1 == text
            && !sides.0.contains(mark),
{
    first_mark_place(text, mark);
    let place = first_mark(text, mark) as int;
    if place < text.len() {
        assert(text.take(place) + seq![mark] + text.skip(place + 1) =~= text);
        assert(text[place] == mark);
    }
}

} // verus!
