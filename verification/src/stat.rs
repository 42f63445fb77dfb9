//! The stat record of a process: one line of fields separated by single
//! spaces. The second field is the name of the process in parentheses, and
//! the name may itself hold spaces and parentheses.

use crate::text::{
    after_last, field, last_at, lemma_last_at_is, lemma_split_head, lemma_split_whole, lines,
    piece, slice, split, split_lines, to_chars, to_text, views,
};
use vstd::prelude::*;

verus! {

/// The field of a stat line that names the controlling terminal: the field
/// with index 6, counted from zero, where the parenthesised name counts as
/// the one field with index 1.
///
/// The name ends at the last closing parenthesis of the line, so the
/// terminal is the fifth piece after it. A line without any closing
/// parenthesis has no parenthesised name, and its fields are its pieces.
/// A line with too few fields has the empty terminal.
pub open spec fn terminal_field(line: Seq<char>) -> Seq<char> {
    let close = last_at(line, ')');
    if close < 0 {
        piece(line, ' ', 6)
    } else {
        piece(line.skip(close + 1), ' ', 5)
    }
}

/// The controlling terminal that a stat record declares: the terminal
/// field of its first line, or the empty text when the record is empty.
pub open spec fn controlling_tty(stat: Seq<char>) -> Seq<char> {
    let ls = lines(stat);
    if ls.len() == 0 {
        Seq::empty()
    } else {
        terminal_field(ls.first())
    }
}

/// Reads the controlling terminal of a process from the text of its stat
/// record.
pub fn get_tty(stat: &str) -> (tty: String)
    ensures
        tty@ == controlling_tty(stat@),
{
    let chars = to_chars(stat);
    let ls = split_lines(&chars);
    if ls.len() == 0 {
        return String::new();
    }
    let line = &ls[0];
    assert(views(ls@).first() == line@);
    let after = after_last(line, ')');
    let part = if after == 0 {
        field(line, ' ', 6)
    } else {
        let rest = slice(line, after, line.len());
        assert(rest@ =~= line@.skip(after as int));
        field(&rest, ' ', 5)
    };
    to_text(&part)
}

/// The name of a process does not move its terminal: whatever stands
/// before the last closing parenthesis of a stat line, spaces and other
/// parentheses included, the terminal is the fifth piece of what follows
/// that parenthesis.
pub proof fn lemma_terminal_follows_name(before: Seq<char>, after: Seq<char>)
    requires
        !after.contains(')'),
    ensures
        terminal_field(before + seq![')'] + after) == piece(after, ' ', 5),
{
    let line = before + seq![')'] + after;
    let close = before.len() as int;
    assert forall|j: int| close < j < line.len() implies line[j] != ')' by {
        assert(line[j] == after[j - close - 1]);
        assert(after.contains(after[j - close - 1]));
    }
    lemma_last_at_is(line, ')', close);
    assert(line.skip(close + 1) =~= after);
}

/// A single space.
pub open spec fn space() -> Seq<char> {
    seq![' ']
}

/// The terminal of a well-formed stat line is the terminal, whatever the
/// name of the process: where the last closing parenthesis of a line is
/// followed by the state, the parent, the group, the session and the
/// terminal, each after a single space and none of them holding a space,
/// the terminal field is that terminal. What stands before that
/// parenthesis does not matter, and neither do the fields after the
/// terminal.
pub proof fn lemma_terminal_of_stat_line(
    before: Seq<char>,
    state: Seq<char>,
    parent: Seq<char>,
    group: Seq<char>,
    session: Seq<char>,
    tty: Seq<char>,
    rest: Seq<char>,
)
    requires
        !state.contains(' '),
        !parent.contains(' '),
        !group.contains(' '),
        !session.contains(' '),
        !tty.contains(' '),
        rest.len() == 0 || rest[0] == ' ',
        !(space() + state + space() + parent + space() + group + space() + session + space() + tty
            + rest).contains(')'),
    ensures
        terminal_field(
            before + seq![')'] + (space() + state + space() + parent + space() + group + space()
                + session + space() + tty + rest),
        ) == tty,
{
    let after = space() + state + space() + parent + space() + group + space() + session + space()
        + tty + rest;
    let none = Seq::<char>::empty();
    let t5 = tty + rest;
    let t4 = session + space() + t5;
    let t3 = group + space() + t4;
    let t2 = parent + space() + t3;
    let t1 = state + space() + t2;
    lemma_terminal_follows_name(before, after);
    assert(after =~= none + space() + t1);
    assert(!none.contains(' '));
    lemma_split_head(none, t1, ' ');
    lemma_split_head(state, t2, ' ');
    lemma_split_head(parent, t3, ' ');
    lemma_split_head(group, t4, ' ');
    lemma_split_head(session, t5, ' ');
    if rest.len() == 0 {
        assert(t5 =~= tty);
        lemma_split_whole(tty, ' ');
    } else {
        assert(t5 =~= tty + space() + rest.skip(1));
        lemma_split_head(tty, rest.skip(1), ' ');
    }
    assert(split(after, ' ')[5] == tty);
}

} // verus!
