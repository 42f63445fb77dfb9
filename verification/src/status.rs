//! The status record of a process: lines of the form `Label:<tab>value`,
//! among them the owner of the process and its name.

use crate::error::PsError;
use crate::text::{
    field, first_word, has_prefix, lemma_first_word, lines, piece, split_lines, to_chars, to_text,
    views, word,
};
use vstd::prelude::*;

verus! {

/// The label of the line that names the owner of a process.
pub open spec fn owner_label() -> Seq<char> {
    "Uid:"@
}

/// The label of the line that names a process.
pub open spec fn name_label() -> Seq<char> {
    "Name:"@
}

/// The owner that an owner line declares: the first token after the label,
/// that is the first run of characters there that holds no space and no
/// tab. The line may name more identifiers after it; they are not read.
/// Empty when nothing but spaces and tabs follows the label.
pub open spec fn owner_value(line: Seq<char>) -> Seq<char> {
    first_word(line.skip(owner_label().len() as int))
}

/// The name that a name line declares: what stands after its first tab,
/// up to the next tab or the end of the line. Spaces are part of the
/// name. A line without a tab declares the empty name.
pub open spec fn name_value(line: Seq<char>) -> Seq<char> {
    piece(line, '\t', 1)
}

/// The last of the lines `ls` that begins with `label`, if any does.
pub open spec fn last_line(ls: Seq<Seq<char>>, label: Seq<char>) -> Option<Seq<char>>
    decreases ls.len(),
{
    if ls.len() == 0 {
        None
    } else if label.is_prefix_of(ls.last()) {
        Some(ls.last())
    } else {
        last_line(ls.drop_last(), label)
    }
}

/// The first of the lines `ls` that begins with `label`, if any does.
pub open spec fn first_line(ls: Seq<Seq<char>>, label: Seq<char>) -> Option<Seq<char>>
    decreases ls.len(),
{
    if ls.len() == 0 {
        None
    } else if label.is_prefix_of(ls.first()) {
        Some(ls.first())
    } else {
        first_line(ls.drop_first(), label)
    }
}

/// The owner that the lines `ls` declare: that of their last owner line,
/// empty when they have none.
pub open spec fn owner_in(ls: Seq<Seq<char>>) -> Seq<char> {
    match last_line(ls, owner_label()) {
        Some(line) => owner_value(line),
        None => Seq::empty(),
    }
}

/// The name that the lines `ls` declare: that of their last name line,
/// empty when they have none.
pub open spec fn name_in(ls: Seq<Seq<char>>) -> Seq<char> {
    match last_line(ls, name_label()) {
        Some(line) => name_value(line),
        None => Seq::empty(),
    }
}

/// The owner that a status record declares for its process: the first of
/// the identifiers on its owner line. Empty when the record has no such
/// line or the line has no identifier.
pub open spec fn status_owner(status: Seq<char>) -> Seq<char> {
    owner_in(lines(status))
}

/// The name that a status record declares for its process; empty when the
/// record has no name line.
pub open spec fn status_name(status: Seq<char>) -> Seq<char> {
    name_in(lines(status))
}

/// The identity of the caller, from the caller's own status record: the
/// owner that its first owner line declares. There is none when the
/// record has no owner line, or when that line names no identifier.
pub open spec fn caller_identity(status: Seq<char>) -> Option<Seq<char>> {
    match first_line(lines(status), owner_label()) {
        Some(line) => if owner_value(line).len() > 0 {
            Some(owner_value(line))
        } else {
            None
        },
        None => None,
    }
}

/// An owner line declares its first identifier, however the identifiers
/// are set apart: where the label is followed by spaces and tabs, then by
/// an identifier without either, and then by nothing or by a space or a
/// tab and anything else, the owner is that identifier.
pub proof fn lemma_owner_is_first_identifier(gap: Seq<char>, uid: Seq<char>, rest: Seq<char>)
    requires
        forall|j: int| 0 <= j < gap.len() ==> gap[j] == ' ' || gap[j] == '\t',
        uid.len() > 0,
        forall|j: int| 0 <= j < uid.len() ==> uid[j] != ' ' && uid[j] != '\t',
        rest.len() == 0 || rest[0] == ' ' || rest[0] == '\t',
    ensures
        owner_value(owner_label() + gap + uid + rest) == uid,
{
    let line = owner_label() + gap + uid + rest;
    assert(line.skip(owner_label().len() as int) =~= gap + uid + rest);
    lemma_first_word(gap, uid, rest);
}

/// Reads the owner and the name of a process from the text of its status
/// record, in this order. A label that the record lacks gives the empty
/// string.
pub fn get_proc_status(status: &str) -> (found: (String, String))
    ensures
        found.0@ == status_owner(status@),
        found.1@ == status_name(status@),
{
    let chars = to_chars(status);
    let ls = split_lines(&chars);
    let uid_label = to_chars("Uid:");
    let cmd_label = to_chars("Name:");
    let mut uid: Vec<char> = Vec::new();
    let mut cmd: Vec<char> = Vec::new();
    let mut i: usize = 0;
    while i < ls.len()
        invariant
            i <= ls.len(),
            uid_label@ == owner_label(),
            cmd_label@ == name_label(),
            uid@ == owner_in(views(ls@).take(i as int)),
            cmd@ == name_in(views(ls@).take(i as int)),
        decreases ls.len() - i,
    {
        let line = &ls[i];
        if has_prefix(line, &uid_label) {
            uid = word(line, uid_label.len());
        }
        if has_prefix(line, &cmd_label) {
            cmd = field(line, '\t', 1);
        }
        i += 1;
        proof {
            let seen = views(ls@).take(i as int);
            assert(seen.last() == line@);
            assert(seen.drop_last() =~= views(ls@).take(i - 1));
        }
    }
    assert(views(ls@).take(ls.len() as int) =~= views(ls@));
    (to_text(&uid), to_text(&cmd))
}

/// Resolves the identity of the caller from the text of the caller's own
/// status record. Without an identity no listing can be filtered, so its
/// absence is an error.
pub fn self_identity(status: &str) -> (r: Result<String, PsError>)
    ensures
        match caller_identity(status@) {
            Some(uid) => r is Ok && r->Ok_0@ == uid,
            None => r == Err::<String, PsError>(PsError::NoOwnerIdentity),
        },
{
    let chars = to_chars(status);
    let ls = split_lines(&chars);
    let uid_label = to_chars("Uid:");
    let mut i: usize = 0;
    assert(views(ls@).skip(0) =~= views(ls@));
    while i < ls.len()
        invariant
            i <= ls.len(),
            uid_label@ == owner_label(),
            views(ls@) == lines(status@),
            first_line(lines(status@), owner_label()) == first_line(
                views(ls@).skip(i as int),
                owner_label(),
            ),
        decreases ls.len() - i,
    {
        let line = &ls[i];
        let ghost rest = views(ls@).skip(i as int);
        assert(rest.first() == line@);
        assert(rest.drop_first() =~= views(ls@).skip(i + 1));
        if has_prefix(line, &uid_label) {
            let uid = word(line, uid_label.len());
            if uid.len() == 0 {
                return Err(PsError::NoOwnerIdentity);
            }
            return Ok(to_text(&uid));
        }
        i += 1;
    }
    Err(PsError::NoOwnerIdentity)
}

} // verus!
