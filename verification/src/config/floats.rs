//! What reading a text as a floating point number gives. The library holds no such numbers: it
//! keeps their text, and is told of each what the checks on it need.

use crate::config::values;
use crate::config::values::{Pairs, Values};
use crate::text;
use crate::text::{same_text, split_once, trim};
use vstd::prelude::*;

verus! {

/// On which side of zero a number lies.
#[derive(Clone, Copy, Debug, PartialEq, Eq, Structural)]
pub enum Sign {
    Negative,
    Zero,
    Positive,
}

/// A text read as a number of double precision.
#[derive(Clone, Debug)]
pub enum DoubleReading {
    /// No number; the reason in words.
    Invalid(String),
    /// Infinite, or not a number.
    NotFinite,
    /// A number, and its value where that is an integer of this range.
    Finite(Sign, Option<i64>),
}

/// A text read as a number of single precision.
#[derive(Clone, Debug)]
pub enum SingleReading {
    /// No number; the reason in words.
    Invalid(String),
    /// A number: whether it lies between 0.1 and 0.9, and whether below zero.
    Value(bool, bool),
}

/// A `DoubleReading` as plain values.
pub enum Double {
    Invalid(Seq<char>),
    NotFinite,
    Finite(Sign, Option<i64>),
}

/// A `SingleReading` as plain values.
pub enum Single {
    Invalid(Seq<char>),
    Value(bool, bool),
}

impl View for DoubleReading {
    type V = Double;

    open spec fn view(&self) -> Double {
        match self {
            DoubleReading::Invalid(reason) => Double::Invalid(reason@),
            DoubleReading::NotFinite => Double::NotFinite,
            DoubleReading::Finite(sign, whole) => Double::Finite(*sign, *whole),
        }
    }
}

impl View for SingleReading {
    type V = Single;

    open spec fn view(&self) -> Single {
        match self {
            SingleReading::Invalid(reason) => Single::Invalid(reason@),
            SingleReading::Value(inside, negative) => Single::Value(*inside, *negative),
        }
    }
}

/// A text with its two readings.
#[derive(Debug)]
pub struct Reading {
    pub text: String,
    pub double: DoubleReading,
    pub single: SingleReading,
}

/// The readings of the texts that a configuration may hold numbers in.
#[derive(Debug)]
pub struct Readings {
    pub list: Vec<Reading>,
}

impl View for Readings {
    type V = Seq<(Seq<char>, Double, Single)>;

    open spec fn view(&self) -> Seq<(Seq<char>, Double, Single)> {
        Seq::new(
            self.list@.len(),
            |i: int| (self.list@[i].text@, self.list@[i].double@, self.list@[i].single@),
        )
    }
}

/// The double precision reading of `raw`; a text without a reading is no number.
pub open spec fn double_of(readings: Seq<(Seq<char>, Double, Single)>, raw: Seq<char>) -> Double
    decreases readings.len(),
{
    if readings.len() == 0 {
        Double::Invalid(seq![])
    } else if readings[0].0 == raw {
        readings[0].1
    } else {
        double_of(readings.skip(1), raw)
    }
}

/// The single precision reading of `raw`; a text without a reading is no number.
pub open spec fn single_of(readings: Seq<(Seq<char>, Double, Single)>, raw: Seq<char>) -> Single
    decreases readings.len(),
{
    if readings.len() == 0 {
        Single::Invalid(seq![])
    } else if readings[0].0 == raw {
        readings[0].2
    } else {
        single_of(readings.skip(1), raw)
    }
}

proof fn reading_at(readings: Seq<(Seq<char>, Double, Single)>, raw: Seq<char>, place: int)
    requires
        0 <= place <= readings.len(),
        forall|i: int| 0 <= i < place ==> readings[i].0 != raw,
        place == readings.len() || readings[place].0 == raw,
    ensures
        double_of(readings, raw) == (if place < readings.len() {
            readings[place].1
        } else {
            Double::Invalid(seq![])
        }),
        single_of(readings, raw) == (if place < readings.len() {
            readings[place].2
        } else {
            Single::Invalid(seq![])
        }),
    decreases place,
{
    if place > 0 {
        let rest = readings.skip(1);
        assert forall|i: int| 0 <= i < place - 1 implies rest[i].0 != raw by {
            assert(rest[i] == readings[i + 1]);
        }
        reading_at(rest, raw, place - 1);
    }
}

impl Readings {
    fn place(&self, raw: &str) -> (place: usize)
        ensures
            place <= self.list.len(),
            forall|i: int| 0 <= i < place ==> self@[i].0 != raw@,
            place == self.list.len() || self@[place as int].0 == raw@,
    {
        let mut place: usize = 0;
        while place < self.list.len() && !same_text(self.list[place].text.as_str(), raw)
            invariant
                place <= self.list.len(),
                forall|i: int| 0 <= i < place ==> self@[i].0 != raw@,
            decreases self.list.len() - place,
        {
            place = place + 1;
        }
        place
    }

    /// The double precision reading of `raw`; a text without a reading is no number.
    pub fn double(&self, raw: &str) -> (reading: DoubleReading)
        ensures
            reading@ == double_of(self@, raw@),
    {
        let place: usize = self.place(raw);
        proof {
            reading_at(self@, raw@, place as int);
        }
        if place < self.list.len() {
            match &self.list[place].double {
                DoubleReading::Invalid(reason) => DoubleReading::Invalid(reason.clone()),
                DoubleReading::NotFinite => DoubleReading::NotFinite,
                DoubleReading::Finite(sign, whole) => DoubleReading::Finite(*sign, *whole),
            }
        } else {
            DoubleReading::Invalid(String::new())
        }
    }

    /// The single precision reading of `raw`; a text without a reading is no number.
    pub fn single(&self, raw: &str) -> (reading: SingleReading)
        ensures
            reading@ == single_of(self@, raw@),
    {
        let place: usize = self.place(raw);
        proof {
            reading_at(self@, raw@, place as int);
        }
        if place < self.list.len() {
            match &self.list[place].single {
                SingleReading::Invalid(reason) => SingleReading::Invalid(reason.clone()),
                SingleReading::Value(inside, negative) => SingleReading::Value(*inside, *negative),
            }
        } else {
            SingleReading::Invalid(String::new())
        }
    }
}

/// The texts before and after the `x` of a size.
pub open spec fn size_split(size: Seq<char>) -> Option<(Seq<char>, Seq<char>)> {
    match text::split_at_mark(size, 'x') {
        Some(sides) => Some(sides),
        None => text::split_at_mark(size, 'X'),
    }
}

/// The texts before and after the `x` of a size.
pub fn split_size(size: &str) -> (split: Option<(String, String)>)
    ensures
        text::split_view(split) == size_split(size@),
{
    match split_once(size, 'x') {
        Some(sides) => Some(sides),
        None => split_once(size, 'X'),
    }
}

/// The size of a mode text and, where it has one, its refresh rate, without the white space
/// around them.
pub open spec fn mode_split(mode: Seq<char>) -> (Seq<char>, Option<Seq<char>>) {
    let inner = text::trimmed(mode);
    match text::split_at_mark(inner, '@') {
        Some(sides) => (text::trimmed(sides.0), Some(text::trimmed(sides.1))),
        None => (inner, None),
    }
}

/// The size of a mode text and, where it has one, its refresh rate.
pub fn split_mode(mode: &str) -> (split: (String, Option<String>))
    ensures
        (split.0@, text::text_view(split.1)) == mode_split(mode@),
{
    let inner = trim(mode);
    match split_once(inner.as_str(), '@') {
        Some((size, refresh)) => (trim(size.as_str()), Some(trim(refresh.as_str()))),
        None => (inner, None),
    }
}

/// The texts of one value that a number may stand in: the value itself and the parts of a mode.
pub open spec fn value_texts(value: Seq<char>) -> Seq<Seq<char>> {
    let mode = mode_split(value);
    let refresh = match mode.1 {
        Some(rate) => seq![rate],
        None => seq![],
    };
    let size = match size_split(mode.0) {
        Some(sides) => seq![text::trimmed(sides.0), text::trimmed(sides.1)],
        None => seq![],
    };
    seq![value] + refresh + size
}

/// The texts of `pairs` that a number may stand in.
pub open spec fn pair_texts(pairs: Pairs) -> Seq<Seq<char>>
    decreases pairs.len(),
{
    if pairs.len() == 0 {
        seq![]
    } else {
        pair_texts(pairs.drop_last()) + value_texts(pairs.last().1)
    }
}

/// The texts of `values` that a number may stand in: those whose readings the checks on the
/// configuration look up.
pub fn number_texts(values: &Values) -> (list: Vec<String>)
    ensures
        text::texts(list@) == pair_texts(values@),
{
    let ghost pairs = values@;
    let mut list: Vec<String> = Vec::new();
    let mut at: usize = 0;
    assert(pairs.take(0) =~= seq![]);
    assert(text::texts(list@) =~= seq![]);
    while at < values.entries.len()
        invariant
            at <= values.entries.len(),
            pairs == values@,
            text::texts(list@) == pair_texts(pairs.take(at as int)),
        decreases values.entries.len() - at,
    {
        let value = &values.entries[at].value;
        let ghost before = text::texts(list@);
        let mode = split_mode(value.as_str());
        list.push(value.clone());
        assert(text::texts(list@) =~= before + seq![value@]);
        let ghost refresh = match text::text_view(mode.1) {
            Some(rate) => seq![rate],
            None => seq![],
        };
        if let Some(rate) = mode.1 {
            list.push(rate);
        }
        assert(text::texts(list@) =~= before + (seq![value@] + refresh));
        let ghost middle = text::texts(list@);
        let size = split_size(mode.0.as_str());
        let ghost parts = match text::split_view(size) {
            Some(sides) => seq![text::trimmed(sides.0), text::trimmed(sides.1)],
            None => seq![],
        };
        if let Some((width, height)) = size {
            list.push(trim(width.as_str()));
            list.push(trim(height.as_str()));
        }
        assert(text::texts(list@) =~= middle + parts);
        proof {
            let next = pairs.take(at + 1);
            assert(next.drop_last() =~= pairs.take(at as int));
            assert(next.last().1 == value@);
            assert(before + value_texts(value@) =~= middle + parts);
        }
        at = at + 1;
    }
    assert(pairs.take(pairs.len() as int) =~= pairs);
    list
}

/// Every value of the configuration, and every part of a value that is a mode, is among the texts
/// to be read.
pub proof fn number_texts_cover_values(pairs: Pairs, at: int)
    requires
        0 <= at < pairs.len(),
    ensures
        forall|i: int|
            0 <= i < value_texts(pairs[at].1).len() ==> pair_texts(pairs).contains(
                #[trigger] value_texts(pairs[at].1)[i],
            ),
    decreases pairs.len(),
{
    let before = pair_texts(pairs.drop_last());
    let own = value_texts(pairs.last().1);
    if at == pairs.len() - 1 {
        assert forall|i: int| 0 <= i < own.len() implies pair_texts(pairs).contains(
            #[trigger] own[i],
        ) by {
            assert(pair_texts(pairs)[before.len() + i] == own[i]);
        }
    } else {
        number_texts_cover_values(pairs.drop_last(), at);
        let inner = value_texts(pairs[at].1);
        assert(pairs.drop_last()[at] == pairs[at]);
        assert forall|i: int| 0 <= i < inner.len() implies pair_texts(pairs).contains(
            #[trigger] inner[i],
        ) by {
            assert(before.contains(value_texts(pairs.drop_last()[at].1)[i]));
            let place = choose|k: int| 0 <= k < before.len() && before[k] == inner[i];
            assert(pair_texts(pairs)[place] == inner[i]);
        }
    }
}

} // verus!
