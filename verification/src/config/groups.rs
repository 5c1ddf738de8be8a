//! Numbered tables: keys of the form `<prefix><index>.<field>`, gathered by index.

use crate::config::values;
use crate::config::values::{Pairs, Values};
use crate::errors::{CompositorError, Failure};
use crate::numbers;
use crate::numbers::read_usize;
use crate::text;
use crate::text::{split_once, strip_prefix, trim};
use vstd::prelude::*;

verus! {

/// The fields that stand under each index, by index.
pub type Groups = Seq<(int, Pairs)>;

/// The fields that stand under one index.
#[derive(Debug)]
pub struct Group {
    pub index: usize,
    pub fields: Values,
}

/// A list of groups as text.
pub open spec fn groups_view(groups: Seq<Group>) -> Groups {
    Seq::new(groups.len(), |i: int| (groups[i].index as int, groups[i].fields@))
}

/// `groups` after `field` got `value` under `index`.
pub open spec fn with_field(groups: Groups, index: int, field: Seq<char>, value: Seq<char>) -> Groups
    decreases groups.len(),
{
    if groups.len() == 0 || groups.last().0 < index {
        groups.push((index, values::inserted(seq![], field, value)))
    } else if groups.last().0 == index {
        groups.drop_last().push((index, values::inserted(groups.last().1, field, value)))
    } else {
        with_field(groups.drop_last(), index, field, value).push(groups.last())
    }
}

/// The failure of a key that does not have the form of a numbered table.
pub open spec fn bad_key(noun: Seq<char>, key: Seq<char>, reason: Seq<char>) -> Failure {
    Failure::Backend("invalid "@ + noun + " key `"@ + key + "`: "@ + reason)
}

fn bad_key_error(noun: &str, key: &str, reason: &str) -> (error: CompositorError)
    ensures
        error@ == bad_key(noun@, key@, reason@),
{
    let mut message = "invalid ".to_owned();
    message.append(noun);
    message.append(" key `");
    message.append(key);
    message.append("`: ");
    message.append(reason);
    CompositorError::Backend(message)
}

/// The index and the field that `rest`, the part of `key` after its prefix, names.
pub open spec fn field_of(rest: Seq<char>, key: Seq<char>, noun: Seq<char>, form: Seq<char>) -> Result<
    (int, Seq<char>),
    Failure,
> {
    match text::split_at_mark(rest, '.') {
        None => Err(bad_key(noun, key, "expected format "@ + form)),
        Some(sides) => if text::blank(sides.1) {
            Err(bad_key(noun, key, "missing field"@))
        } else {
            match numbers::integer(sides.0, 0, usize::MAX as int) {
                Err(error) => Err(
                    bad_key(noun, key, "index is not a number ("@ + error.text() + ")"@),
                ),
                Ok(index) => Ok((index, text::trimmed(sides.1))),
            }
        },
    }
}

/// The fields of the keys that begin with `prefix`, by index.
pub open spec fn grouped(
    pairs: Pairs,
    prefix: Seq<char>,
    noun: Seq<char>,
    form: Seq<char>,
) -> Result<Groups, Failure>
    decreases pairs.len(),
{
    if pairs.len() == 0 {
        Ok(seq![])
    } else {
        match grouped(pairs.drop_last(), prefix, noun, form) {
            Err(failure) => Err(failure),
            Ok(groups) => match text::without_prefix(pairs.last().0, prefix) {
                None => Ok(groups),
                Some(rest) => match field_of(rest, pairs.last().0, noun, form) {
                    Err(failure) => Err(failure),
                    Ok(named) => Ok(with_field(groups, named.0, named.1, pairs.last().1)),
                },
            },
        }
    }
}

/// Whether the indices rise, so that each stands once.
pub open spec fn rising(groups: Groups) -> bool {
    forall|i: int, j: int| 0 <= i < j < groups.len() ==> groups[i].0 < groups[j].0
}

proof fn with_field_rises(groups: Groups, index: int, field: Seq<char>, value: Seq<char>)
    requires
        rising(groups),
    ensures
        rising(with_field(groups, index, field, value)),
        forall|i: int|
            0 <= i < with_field(groups, index, field, value).len() ==> {
                let here = #[trigger] with_field(groups, index, field, value)[i].0;
                here == index || here <= groups.last().0 && groups.len() > 0
            },
    decreases groups.len(),
{
    if groups.len() == 0 || groups.last().0 < index {
    } else if groups.last().0 == index {
    } else {
        let rest = groups.drop_last();
        assert forall|i: int, j: int| 0 <= i < j < rest.len() implies rest[i].0 < rest[j].0 by {
            assert(rest[i] == groups[i] && rest[j] == groups[j]);
        }
        with_field_rises(rest, index, field, value);
        let inner = with_field(rest, index, field, value);
        assert forall|i: int| 0 <= i < inner.len() implies #[trigger] inner[i].0
            < groups.last().0 by {
            if rest.len() > 0 {
                assert(rest.last() == groups[groups.len() - 2]);
            }
        }
    }
}

/// Numbered tables come in the order of their indices, each index once.
pub proof fn groups_in_order(pairs: Pairs, prefix: Seq<char>, noun: Seq<char>, form: Seq<char>)
    ensures
        grouped(pairs, prefix, noun, form) matches Ok(groups) ==> rising(groups),
    decreases pairs.len(),
{
    if pairs.len() > 0 {
        groups_in_order(pairs.drop_last(), prefix, noun, form);
        if grouped(pairs.drop_last(), prefix, noun, form) is Ok {
            let groups = grouped(pairs.drop_last(), prefix, noun, form)->Ok_0;
            match text::without_prefix(pairs.last().0, prefix) {
                Some(rest) => match field_of(rest, pairs.last().0, noun, form) {
                    Ok(named) => with_field_rises(groups, named.0, named.1, pairs.last().1),
                    Err(_) => {},
                },
                None => {},
            }
        }
    }
}

proof fn grouped_keeps_failure(
    pairs: Pairs,
    prefix: Seq<char>,
    noun: Seq<char>,
    form: Seq<char>,
    at: int,
)
    requires
        0 <= at <= pairs.len(),
        grouped(pairs.take(at), prefix, noun, form) is Err,
    ensures
        grouped(pairs, prefix, noun, form) == grouped(pairs.take(at), prefix, noun, form),
    decreases pairs.len() - at,
{
    if at < pairs.len() {
        assert(pairs.take(at + 1).drop_last() =~= pairs.take(at));
        grouped_keeps_failure(pairs, prefix, noun, form, at + 1);
    } else {
        assert(pairs.take(at) =~= pairs);
    }
}

/// The groups up to the one before `place` do not matter to a field under a smaller index.
proof fn with_field_at(groups: Groups, place: int, index: int, field: Seq<char>, value: Seq<char>)
    requires
        0 <= place <= groups.len(),
        forall|i: int| place <= i < groups.len() ==> groups[i].0 > index,
        place == 0 || groups[place - 1].0 <= index,
    ensures
        with_field(groups, index, field, value) == (if place > 0 && groups[place - 1].0 == index {
            groups.update(
                place - 1,
                (index, values::inserted(groups[place - 1].1, field, value)),
            )
        } else {
            groups.insert(place, (index, values::inserted(seq![], field, value)))
        }),
    decreases groups.len(),
{
    if groups.len() == 0 || groups.last().0 < index {
        assert(place == groups.len());
        assert(groups.insert(place, (index, values::inserted(seq![], field, value)))
            =~= groups.push((index, values::inserted(seq![], field, value))));
    } else if groups.last().0 == index {
        assert(place == groups.len());
        assert(groups.drop_last().push((index, values::inserted(groups.last().1, field, value)))
            =~= groups.update(
            place - 1,
            (index, values::inserted(groups[place - 1].1, field, value)),
        ));
    } else {
        let rest = groups.drop_last();
        with_field_at(rest, place, index, field, value);
        if place > 0 && groups[place - 1].0 == index {
            assert(rest.update(
                place - 1,
                (index, values::inserted(groups[place - 1].1, field, value)),
            ).push(groups.last()) =~= groups.update(
                place - 1,
                (index, values::inserted(groups[place - 1].1, field, value)),
            ));
        } else {
            assert(rest.insert(place, (index, values::inserted(seq![], field, value))).push(
                groups.last(),
            ) =~= groups.insert(place, (index, values::inserted(seq![], field, value))));
        }
    }
}

/// Gives `field` this value under `index`.
fn add_field(groups: &mut Vec<Group>, index: usize, field: String, value: String)
    ensures
        groups_view(final(groups)@) == with_field(
            groups_view(old(groups)@),
            index as int,
            field@,
            value@,
        ),
{
    let ghost before = groups_view(groups@);
    let mut place: usize = groups.len();
    while place > 0 && groups[place - 1].index > index
        invariant
            place <= groups.len(),
            before == groups_view(groups@),
            forall|i: int| place <= i < groups.len() ==> before[i].0 > index,
        decreases place,
    {
        place = place - 1;
    }
    proof {
        with_field_at(before, place as int, index as int, field@, value@);
    }
    if place > 0 && groups[place - 1].index == index {
        let mut group = groups.remove(place - 1);
        group.fields.insert(field, value);
        groups.insert(place - 1, group);
        assert(groups_view(groups@) =~= before.update(
            place - 1,
            (index as int, values::inserted(before[place - 1].1, field@, value@)),
        ));
    } else {
        let mut fields = Values::new();
        fields.insert(field, value);
        groups.insert(place, Group { index, fields });
        assert(groups_view(groups@) =~= before.insert(
            place as int,
            (index as int, values::inserted(seq![], field@, value@)),
        ));
    }
}

/// A list of groups, or a failure, as text.
pub open spec fn groups_outcome(result: Result<Vec<Group>, CompositorError>) -> Result<
    Groups,
    Failure,
> {
    match result {
        Ok(groups) => Ok(groups_view(groups@)),
        Err(error) => Err(error@),
    }
}

/// The fields of the keys that begin with `prefix`, by index. `noun` and `form` say in an error
/// what such a key is and what it looks like.
pub fn group_fields(values: &Values, prefix: &str, noun: &str, form: &str) -> (result: Result<
    Vec<Group>,
    CompositorError,
>)
    ensures
        groups_outcome(result) == grouped(values@, prefix@, noun@, form@),
{
    let ghost pairs = values@;
    let mut groups: Vec<Group> = Vec::new();
    let mut at: usize = 0;
    assert(pairs.take(0) =~= seq![]);
    assert(groups_view(groups@) =~= seq![]);
    while at < values.entries.len()
        invariant
            at <= values.entries.len(),
            pairs == values@,
            grouped(pairs.take(at as int), prefix@, noun@, form@) == Ok::<Groups, Failure>(
                groups_view(groups@),
            ),
        decreases values.entries.len() - at,
    {
        let entry = &values.entries[at];
        let ghost next = pairs.take(at + 1);
        proof {
            assert(next.drop_last() =~= pairs.take(at as int));
            assert(next.last() == (entry.key@, entry.value@));
        }
        let key = entry.key.as_str();
        if let Some(rest) = strip_prefix(key, prefix) {
            match split_once(rest.as_str(), '.') {
                None => {
                    let mut reason = "expected format ".to_owned();
                    reason.append(form);
                    proof {
                        grouped_keeps_failure(pairs, prefix@, noun@, form@, at + 1);
                    }
                    return Err(bad_key_error(noun, key, reason.as_str()));
                },
                Some((raw_index, raw_field)) => {
                    let field = trim(raw_field.as_str());
                    if field.as_str().is_empty() {
                        proof {
                            grouped_keeps_failure(pairs, prefix@, noun@, form@, at + 1);
                        }
                        return Err(bad_key_error(noun, key, "missing field"));
                    }
                    match read_usize(raw_index.as_str()) {
                        Err(error) => {
                            let mut reason = "index is not a number (".to_owned();
                            reason.append(error.reason());
                            reason.append(")");
                            proof {
                                grouped_keeps_failure(pairs, prefix@, noun@, form@, at + 1);
                            }
                            return Err(bad_key_error(noun, key, reason.as_str()));
                        },
                        Ok(index) => {
                            add_field(&mut groups, index, field, entry.value.clone());
                        },
                    }
                },
            }
        }
        at = at + 1;
    }
    assert(pairs.take(pairs.len() as int) =~= pairs);
    Ok(groups)
}

} // verus!
