//! Command lines.

use crate::text;
use vstd::prelude::*;

verus! {

/// A program and its arguments.
#[derive(Debug)]
pub struct CommandLine {
    pub program: String,
    pub args: Vec<String>,
}

/// A `CommandLine` as plain text.
pub struct Line {
    pub program: Seq<char>,
    pub args: Seq<Seq<char>>,
}

impl View for CommandLine {
    type V = Line;

    open spec fn view(&self) -> Line {
        Line { program: self.program@, args: text::texts(self.args@) }
    }
}

/// Command lines as plain text.
pub open spec fn lines(commands: Seq<CommandLine>) -> Seq<Line> {
    Seq::new(commands.len(), |i: int| commands[i]@)
}

/// Adds a text to a list.
pub fn push_text(list: &mut Vec<String>, value: &str)
    ensures
        text::texts(final(list)@) == text::texts(old(list)@).push(value@),
{
    let ghost before = text::texts(list@);
    list.push(value.to_owned());
    assert(text::texts(list@) =~= before.push(value@));
}

/// Adds a variable with its value to a list, as `name=value`.
pub fn push_assignment(list: &mut Vec<String>, name: &str, value: &str)
    ensures
        text::texts(final(list)@) == text::texts(old(list)@).push(name@ + "="@ + value@),
{
    let mut assignment = name.to_owned();
    assignment.append("=");
    assignment.append(value);
    push_text(list, assignment.as_str());
}

/// An empty list of texts.
pub fn no_texts() -> (list: Vec<String>)
    ensures
        text::texts(list@) == Seq::<Seq<char>>::empty(),
{
    let list: Vec<String> = Vec::new();
    assert(text::texts(list@) =~= Seq::<Seq<char>>::empty());
    list
}

/// Adds the texts of one list to another.
pub fn extend_texts(list: &mut Vec<String>, more: &Vec<String>)
    ensures
        text::texts(final(list)@) == text::texts(old(list)@) + text::texts(more@),
{
    let ghost before = text::texts(list@);
    let mut index: usize = 0;
    assert(text::texts(more@).take(0) =~= Seq::<Seq<char>>::empty());
    assert(before + Seq::<Seq<char>>::empty() =~= before);
    while index < more.len()
        invariant
            index <= more.len(),
            text::texts(list@) == before + text::texts(more@).take(index as int),
        decreases more.len() - index,
    {
        let ghost taken = text::texts(more@).take(index as int);
        push_text(list, more[index].as_str());
        assert(text::texts(more@).take(index + 1) =~= taken.push(more[index as int]@));
        assert(before + taken.push(more[index as int]@) =~= (before + taken).push(
            more[index as int]@,
        ));
        index = index + 1;
    }
    assert(text::texts(more@).take(more@.len() as int) =~= text::texts(more@));
}

/// Adds a command line to a list.
pub fn push_line(list: &mut Vec<CommandLine>, program: &str, args: Vec<String>)
    ensures
        lines(final(list)@) == lines(old(list)@).push(
            (Line { program: program@, args: text::texts(args@) }),
        ),
{
    let ghost before = lines(list@);
    list.push(CommandLine { program: program.to_owned(), args });
    assert(lines(list@) =~= before.push(
        Line { program: program@, args: text::texts(args@) },
    ));
}

} // verus!
