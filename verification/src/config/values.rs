//! The `key=value` pairs that the configuration script prints.

use crate::errors;
use crate::errors::{CompositorError, Failure};
use crate::numbers;
use crate::numbers::read_usize;
use crate::text;
use crate::text::{same_text, split, split_once, strip_prefix, trim};
use vstd::prelude::*;

verus! {

/// Keys and their values, as text.
pub type Pairs = Seq<(Seq<char>, Seq<char>)>;

/// A key and its value.
#[derive(Debug)]
pub struct Entry {
    pub key: String,
    pub value: String,
}

/// Keys and their values, in the order in which the keys first came. No key occurs twice.
#[derive(Debug)]
pub struct Values {
    pub entries: Vec<Entry>,
}

/// The value that `key` has in `pairs`.
pub open spec fn lookup(pairs: Pairs, key: Seq<char>) -> Option<Seq<char>>
    decreases pairs.len(),
{
    if pairs.len() == 0 {
        None
    } else if pairs[0].0 == key {
        Some(pairs[0].1)
    } else {
        lookup(pairs.skip(1), key)
    }
}

/// Whether `key` has a value in `pairs`.
pub open spec fn has_key(pairs: Pairs, key: Seq<char>) -> bool {
    lookup(pairs, key) is Some
}

/// `pairs` after `key` got `value`: in its old place, or at the end where the key is new.
pub open spec fn inserted(pairs: Pairs, key: Seq<char>, value: Seq<char>) -> Pairs
    decreases pairs.len(),
{
    if pairs.len() == 0 {
        seq![(key, value)]
    } else if pairs[0].0 == key {
        seq![(key, value)] + pairs.skip(1)
    } else {
        seq![pairs[0]] + inserted(pairs.skip(1), key, value)
    }
}

/// Whether no key occurs twice.
pub open spec fn distinct_keys(pairs: Pairs) -> bool {
    forall|i: int, j: int| 0 <= i < j < pairs.len() ==> pairs[i].0 != pairs[j].0
}

/// The place of `key` in `pairs`, or their number.
proof fn lookup_at(pairs: Pairs, key: Seq<char>, place: int)
    requires
        0 <= place <= pairs.len(),
        forall|i: int| 0 <= i < place ==> pairs[i].0 != key,
        place == pairs.len() || pairs[place].0 == key,
    ensures
        lookup(pairs, key) == (if place < pairs.len() {
            Some(pairs[place].1)
        } else {
            None
        }),
        forall|value: Seq<char>| #[trigger] inserted(pairs, key, value) == (if place < pairs.len() {
            pairs.update(place, (key, value))
        } else {
            pairs.push((key, value))
        }),
    decreases place,
{
    if place > 0 {
        let rest = pairs.skip(1);
        assert forall|i: int| 0 <= i < place - 1 implies rest[i].0 != key by {
            assert(rest[i] == pairs[i + 1]);
        }
        lookup_at(rest, key, place - 1);
        assert forall|value: Seq<char>| #[trigger] inserted(pairs, key, value) == (if place
            < pairs.len() {
            pairs.update(place, (key, value))
        } else {
            pairs.push((key, value))
        }) by {
            assert(inserted(rest, key, value) == (if place - 1 < rest.len() {
                rest.update(place - 1, (key, value))
            } else {
                rest.push((key, value))
            }));
            if place < pairs.len() {
                assert(seq![pairs[0]] + rest.update(place - 1, (key, value)) =~= pairs.update(
                    place,
                    (key, value),
                ));
            } else {
                assert(seq![pairs[0]] + rest.push((key, value)) =~= pairs.push((key, value)));
            }
        }
    } else {
        assert forall|value: Seq<char>| #[trigger] inserted(pairs, key, value) == (if place
            < pairs.len() {
            pairs.update(place, (key, value))
        } else {
            pairs.push((key, value))
        }) by {
            if pairs.len() > 0 {
                assert(seq![(key, value)] + pairs.skip(1) =~= pairs.update(0, (key, value)));
            } else {
                assert(seq![(key, value)] =~= pairs.push((key, value)));
            }
        }
    }
}

/// The first place of `key` in `pairs`, or their number.
spec fn key_place(pairs: Pairs, key: Seq<char>) -> int
    decreases pairs.len(),
{
    if pairs.len() == 0 || pairs[0].0 == key {
        0
    } else {
        1 + key_place(pairs.skip(1), key)
    }
}

proof fn key_place_is_first(pairs: Pairs, key: Seq<char>)
    ensures
        0 <= key_place(pairs, key) <= pairs.len(),
        forall|i: int| 0 <= i < key_place(pairs, key) ==> pairs[i].0 != key,
        key_place(pairs, key) == pairs.len() || pairs[key_place(pairs, key)].0 == key,
    decreases pairs.len(),
{
    if pairs.len() > 0 && pairs[0].0 != key {
        let rest = pairs.skip(1);
        key_place_is_first(rest, key);
        assert forall|i: int| 0 <= i < key_place(pairs, key) implies pairs[i].0 != key by {
            if i > 0 {
                assert(rest[i - 1] == pairs[i]);
            }
        }
    }
}

/// Reading a key gives what was last written to it, and writing one key leaves the others alone.
pub proof fn lookup_after_insert(pairs: Pairs, key: Seq<char>, value: Seq<char>, other: Seq<char>)
    ensures
        lookup(inserted(pairs, key, value), other) == (if other == key {
            Some(value)
        } else {
            lookup(pairs, other)
        }),
    decreases pairs.len(),
{
    let after = inserted(pairs, key, value);
    if pairs.len() == 0 {
        reveal_with_fuel(lookup, 2);
    } else if pairs[0].0 == key {
        assert(after.skip(1) =~= pairs.skip(1));
    } else {
        lookup_after_insert(pairs.skip(1), key, value, other);
        assert(after.skip(1) =~= inserted(pairs.skip(1), key, value));
    }
}

/// Writing a key leaves every key in one place only.
pub proof fn insert_keeps_keys_distinct(pairs: Pairs, key: Seq<char>, value: Seq<char>)
    requires
        distinct_keys(pairs),
    ensures
        distinct_keys(inserted(pairs, key, value)),
{
    key_place_is_first(pairs, key);
    lookup_at(pairs, key, key_place(pairs, key));
    let _ = inserted(pairs, key, value);
}

/// The failure of a value that cannot be read.
pub open spec fn bad_value(key: Seq<char>, raw: Seq<char>, reason: Seq<char>) -> Failure {
    Failure::Backend("invalid value for "@ + key + ": "@ + raw + " ("@ + reason + ")"@)
}

/// The error of a value that cannot be read.
pub fn bad_value_error(key: &str, raw: &str, reason: &str) -> (error: CompositorError)
    ensures
        error@ == bad_value(key@, raw@, reason@),
{
    let mut message = "invalid value for ".to_owned();
    message.append(key);
    message.append(": ");
    message.append(raw);
    message.append(" (");
    message.append(reason);
    message.append(")");
    CompositorError::Backend(message)
}

impl View for Values {
    type V = Pairs;

    open spec fn view(&self) -> Pairs {
        Seq::new(self.entries@.len(), |i: int| (self.entries@[i].key@, self.entries@[i].value@))
    }
}

impl Values {
    /// No keys at all.
    pub fn new() -> (values: Values)
        ensures
            values@ == Seq::<(Seq<char>, Seq<char>)>::empty(),
    {
        let values = Values { entries: Vec::new() };
        assert(values@ =~= Seq::<(Seq<char>, Seq<char>)>::empty());
        values
    }

    /// Where `key` stands, or the number of keys.
    fn place(&self, key: &str) -> (place: usize)
        ensures
            place <= self.entries.len(),
            forall|i: int| 0 <= i < place ==> self@[i].0 != key@,
            place == self.entries.len() || self@[place as int].0 == key@,
    {
        let mut place: usize = 0;
        while place < self.entries.len() && !same_text(self.entries[place].key.as_str(), key)
            invariant
                place <= self.entries.len(),
                forall|i: int| 0 <= i < place ==> self@[i].0 != key@,
            decreases self.entries.len() - place,
        {
            place = place + 1;
        }
        place
    }

    /// The value of `key`.
    pub fn get(&self, key: &str) -> (value: Option<&String>)
        ensures
            lookup(self@, key@) == (match value {
                Some(found) => Some(found@),
                None => None,
            }),
    {
        let place: usize = self.place(key);
        proof {
            lookup_at(self@, key@, place as int);
        }
        if place < self.entries.len() {
            Some(&self.entries[place].value)
        } else {
            None
        }
    }

    /// Whether `key` has a value.
    pub fn contains_key(&self, key: &str) -> (found: bool)
        ensures
            found == has_key(self@, key@),
    {
        self.get(key).is_some()
    }

    /// Gives `key` this value.
    pub fn insert(&mut self, key: String, value: String)
        ensures
            final(self)@ == inserted(old(self)@, key@, value@),
    {
        let place: usize = self.place(key.as_str());
        let ghost before = self@;
        proof {
            lookup_at(before, key@, place as int);
            let _ = inserted(before, key@, value@);
        }
        if place < self.entries.len() {
            self.entries.set(place, Entry { key, value });
            assert(self@ =~= before.update(place as int, (key@, value@)));
        } else {
            self.entries.push(Entry { key, value });
            assert(self@ =~= before.push((key@, value@)));
        }
    }
}

/// A failure, or pairs.
pub open spec fn values_outcome(result: Result<Values, CompositorError>) -> Result<Pairs, Failure> {
    match result {
        Ok(values) => Ok(values@),
        Err(error) => Err(error@),
    }
}

/// The pairs on `lines`. White space around a line does not count, nor do blank lines; a later
/// value of a key takes the place of an earlier one.
pub open spec fn line_pairs(lines: Seq<Seq<char>>) -> Result<Pairs, Failure>
    decreases lines.len(),
{
    if lines.len() == 0 {
        Ok(seq![])
    } else {
        match line_pairs(lines.drop_last()) {
            Err(failure) => Err(failure),
            Ok(pairs) => {
                let line = text::trimmed(lines.last());
                if line.len() == 0 {
                    Ok(pairs)
                } else {
                    match text::split_at_mark(line, '=') {
                        None => errors::refused("invalid lua output line: "@ + line),
                        Some(sides) => Ok(inserted(pairs, sides.0, sides.1)),
                    }
                }
            },
        }
    }
}

/// The pairs that the configuration script printed.
pub open spec fn stdout_pairs(stdout: Seq<char>) -> Result<Pairs, Failure> {
    line_pairs(text::segments(stdout, '\n'))
}

proof fn line_pairs_keeps_failure(lines: Seq<Seq<char>>, at: int)
    requires
        0 <= at <= lines.len(),
        line_pairs(lines.take(at)) is Err,
    ensures
        line_pairs(lines) == line_pairs(lines.take(at)),
    decreases lines.len() - at,
{
    if at < lines.len() {
        assert(lines.take(at + 1).drop_last() =~= lines.take(at));
        line_pairs_keeps_failure(lines, at + 1);
    } else {
        assert(lines.take(at) =~= lines);
    }
}

/// No key occurs twice in what the configuration script printed.
pub proof fn stdout_keys_are_distinct(lines: Seq<Seq<char>>)
    ensures
        line_pairs(lines) matches Ok(pairs) ==> distinct_keys(pairs),
    decreases lines.len(),
{
    if lines.len() > 0 {
        stdout_keys_are_distinct(lines.drop_last());
        if line_pairs(lines.drop_last()) is Ok {
            let pairs = line_pairs(lines.drop_last())->Ok_0;
            let line = text::trimmed(lines.last());
            match text::split_at_mark(line, '=') {
                Some(sides) => insert_keeps_keys_distinct(pairs, sides.0, sides.1),
                None => {},
            }
        }
    }
}

/// The pairs that the configuration script printed.
pub fn parse_key_value_stdout(stdout: &str) -> (result: Result<Values, CompositorError>)
    ensures
        values_outcome(result) == stdout_pairs(stdout@),
{
    let lines = split(stdout, '\n');
    let ghost all = text::texts(lines@);
    let mut values = Values::new();
    let mut index: usize = 0;
    assert(all.take(0) =~= seq![]);
    while index < lines.len()
        invariant
            index <= lines.len(),
            all == text::texts(lines@),
            all == text::segments(stdout@, '\n'),
            line_pairs(all.take(index as int)) == Ok::<Pairs, Failure>(values@),
        decreases lines.len() - index,
    {
        let line = trim(lines[index].as_str());
        let ghost next = all.take(index + 1);
        assert(next.drop_last() =~= all.take(index as int));
        assert(next.last() == lines[index as int]@);
        if !line.as_str().is_empty() {
            match split_once(line.as_str(), '=') {
                None => {
                    let mut message = "invalid lua output line: ".to_owned();
                    message.append(line.as_str());
                    proof {
                        line_pairs_keeps_failure(all, index + 1);
                    }
                    return Err(CompositorError::Backend(message));
                },
                Some((key, value)) => {
                    values.insert(key, value);
                },
            }
        }
        index = index + 1;
    }
    assert(all.take(all.len() as int) =~= all);
    Ok(values)
}

/// An index and the value that stands under it.
pub type Indexed = Seq<(int, Seq<char>)>;

/// How many of `items` come before a new item with this index: all up to the last whose index is
/// not greater.
pub open spec fn rank(items: Indexed, index: int) -> int
    decreases items.len(),
{
    if items.len() == 0 {
        0
    } else if items.last().0 <= index {
        items.len() as int
    } else {
        rank(items.drop_last(), index)
    }
}

/// The values of the keys that begin with `prefix`, with the index that follows it, by index;
/// equal indices stay in the order of their keys.
pub open spec fn indexed(pairs: Pairs, prefix: Seq<char>) -> Result<Indexed, Failure>
    decreases pairs.len(),
{
    if pairs.len() == 0 {
        Ok(seq![])
    } else {
        match indexed(pairs.drop_last(), prefix) {
            Err(failure) => Err(failure),
            Ok(items) => match text::without_prefix(pairs.last().0, prefix) {
                None => Ok(items),
                Some(raw) => match numbers::integer(raw, 0, usize::MAX as int) {
                    Err(error) => errors::refused(
                        "invalid indexed key `"@ + pairs.last().0 + "`: index is not a number ("@
                            + error.text() + ")"@,
                    ),
                    Ok(index) => Ok(items.insert(rank(items, index), (index, pairs.last().1))),
                },
            },
        }
    }
}

/// The values alone.
pub open spec fn indexed_values(items: Result<Indexed, Failure>) -> Result<Seq<Seq<char>>, Failure> {
    match items {
        Ok(list) => Ok(Seq::new(list.len(), |i: int| list[i].1)),
        Err(failure) => Err(failure),
    }
}

/// Whether the indices never fall.
pub open spec fn by_index(items: Indexed) -> bool {
    forall|i: int, j: int| 0 <= i <= j < items.len() ==> items[i].0 <= items[j].0
}

proof fn rank_place(items: Indexed, index: int)
    requires
        by_index(items),
    ensures
        0 <= rank(items, index) <= items.len(),
        forall|i: int| 0 <= i < rank(items, index) ==> items[i].0 <= index,
        forall|i: int| rank(items, index) <= i < items.len() ==> items[i].0 > index,
    decreases items.len(),
{
    if items.len() > 0 {
        assert(items.last() == items[items.len() - 1]);
        if items.last().0 > index {
            let rest = items.drop_last();
            assert forall|i: int, j: int| 0 <= i <= j < rest.len() implies rest[i].0 <= rest[j].0 by {
                assert(rest[i] == items[i] && rest[j] == items[j]);
            }
            rank_place(rest, index);
            assert forall|i: int| 0 <= i < rank(items, index) implies items[i].0 <= index by {
                assert(rest[i] == items[i]);
            }
            assert forall|i: int| rank(items, index) <= i < items.len() implies items[i].0
                > index by {
                if i < rest.len() {
                    assert(rest[i] == items[i]);
                }
            }
        }
    }
}

/// Indexed values come in the order of their indices.
pub proof fn indexed_in_order(pairs: Pairs, prefix: Seq<char>)
    ensures
        indexed(pairs, prefix) matches Ok(items) ==> by_index(items),
    decreases pairs.len(),
{
    if pairs.len() > 0 {
        indexed_in_order(pairs.drop_last(), prefix);
        if indexed(pairs.drop_last(), prefix) is Ok {
            let items = indexed(pairs.drop_last(), prefix)->Ok_0;
            match text::without_prefix(pairs.last().0, prefix) {
                Some(raw) => match numbers::integer(raw, 0, usize::MAX as int) {
                    Ok(index) => rank_place(items, index),
                    Err(_) => {},
                },
                None => {},
            }
        }
    }
}

proof fn indexed_keeps_failure(pairs: Pairs, prefix: Seq<char>, at: int)
    requires
        0 <= at <= pairs.len(),
        indexed(pairs.take(at), prefix) is Err,
    ensures
        indexed(pairs, prefix) == indexed(pairs.take(at), prefix),
    decreases pairs.len() - at,
{
    if at < pairs.len() {
        assert(pairs.take(at + 1).drop_last() =~= pairs.take(at));
        indexed_keeps_failure(pairs, prefix, at + 1);
    } else {
        assert(pairs.take(at) =~= pairs);
    }
}

/// A list of indexed strings as text.
spec fn indexed_view(items: Seq<(usize, String)>) -> Indexed {
    Seq::new(items.len(), |i: int| (items[i].0 as int, items[i].1@))
}

/// How many of `items` come before a new item with this index.
fn find_rank(items: &Vec<(usize, String)>, index: usize) -> (place: usize)
    ensures
        place <= items.len(),
        place == rank(indexed_view(items@), index as int),
{
    let mut place: usize = items.len();
    let ghost all = indexed_view(items@);
    assert(all.take(all.len() as int) =~= all);
    while place > 0 && items[place - 1].0 > index
        invariant
            place <= items.len(),
            all == indexed_view(items@),
            rank(all.take(place as int), index as int) == rank(all, index as int),
        decreases place,
    {
        assert(all.take(place as int).drop_last() =~= all.take(place - 1));
        place = place - 1;
    }
    if place > 0 {
        assert(all.take(place as int).last() == all[place - 1]);
    }
    place
}

/// A list of strings, or a failure, as text.
pub open spec fn list_outcome(result: Result<Vec<String>, CompositorError>) -> Result<
    Seq<Seq<char>>,
    Failure,
> {
    match result {
        Ok(list) => Ok(text::texts(list@)),
        Err(error) => Err(error@),
    }
}

/// The values of the keys `<prefix><index>`, by index.
pub fn collect_indexed_values(values: &Values, prefix: &str) -> (result: Result<
    Vec<String>,
    CompositorError,
>)
    ensures
        list_outcome(result) == indexed_values(indexed(values@, prefix@)),
{
    let ghost pairs = values@;
    let mut items: Vec<(usize, String)> = Vec::new();
    let mut at: usize = 0;
    assert(pairs.take(0) =~= seq![]);
    assert(indexed_view(items@) =~= seq![]);
    while at < values.entries.len()
        invariant
            at <= values.entries.len(),
            pairs == values@,
            indexed(pairs.take(at as int), prefix@) == Ok::<Indexed, Failure>(
                indexed_view(items@),
            ),
        decreases values.entries.len() - at,
    {
        let entry = &values.entries[at];
        let ghost next = pairs.take(at + 1);
        proof {
            assert(next.drop_last() =~= pairs.take(at as int));
            assert(next.last() == (entry.key@, entry.value@));
        }
        match strip_prefix(entry.key.as_str(), prefix) {
            None => {},
            Some(raw) => match read_usize(raw.as_str()) {
                Err(error) => {
                    let mut message = "invalid indexed key `".to_owned();
                    message.append(entry.key.as_str());
                    message.append("`: index is not a number (");
                    message.append(error.reason());
                    message.append(")");
                    proof {
                        indexed_keeps_failure(pairs, prefix@, at + 1);
                    }
                    return Err(CompositorError::Backend(message));
                },
                Ok(index) => {
                    let place: usize = find_rank(&items, index);
                    let ghost before = indexed_view(items@);
                    items.insert(place, (index, entry.value.clone()));
                    assert(indexed_view(items@) =~= before.insert(
                        place as int,
                        (index as int, entry.value@),
                    ));
                },
            },
        }
        at = at + 1;
    }
    assert(pairs.take(pairs.len() as int) =~= pairs);
    let mut list: Vec<String> = Vec::new();
    let mut index: usize = 0;
    while index < items.len()
        invariant
            index <= items.len(),
            list.len() == index,
            forall|i: int| 0 <= i < index ==> list[i]@ == items[i].1@,
        decreases items.len() - index,
    {
        list.push(items[index].1.clone());
        index = index + 1;
    }
    assert(text::texts(list@) =~= Seq::new(items@.len(), |i: int| indexed_view(items@)[i].1));
    Ok(list)
}

/// A line that the configuration script prints gives its key the value after the first equals sign, and
/// leaves every other key alone.
pub proof fn printed_value_is_read(
    lines: Seq<Seq<char>>,
    key: Seq<char>,
    value: Seq<char>,
    other: Seq<char>,
)
    requires
        line_pairs(lines) is Ok,
        !key.contains('='),
        text::trimmed(key + seq!['='] + value) == key + seq!['='] + value,
        other != key,
    ensures
        ({
            let after = line_pairs(lines.push(key + seq!['='] + value));
            &&& after is Ok
            &&& lookup(after->Ok_0, key) == Some(value)
            &&& lookup(after->Ok_0, other) == lookup(line_pairs(lines)->Ok_0, other)
        }),
{
    let line = key + seq!['='] + value;
    let more = lines.push(line);
    assert(more.drop_last() =~= lines);
    assert forall|i: int| 0 <= i < key.len() implies line[i] != '=' by {
        assert(line[i] == key[i]);
        assert(key.contains(key[i]));
    }
    assert(line[key.len() as int] == '=');
    text::first_mark_is_first(line, '=', key.len() as int);
    assert(line.take(key.len() as int) =~= key);
    assert(line.skip((key.len() + 1) as int) =~= value);
    let pairs = line_pairs(lines)->Ok_0;
    lookup_after_insert(pairs, key, value, key);
    lookup_after_insert(pairs, key, value, other);
}

} // verus!
