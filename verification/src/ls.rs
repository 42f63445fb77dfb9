//! The directory listing: what is listed, and which entries are hidden.

use crate::text::{has_prefix, text_views, to_chars};
use vstd::prelude::*;
use vstd::string::StringExecFns;

verus! {

/// The prefix that marks a hidden entry.
pub open spec fn dot() -> Seq<char> {
    "."@
}

/// Whether an entry named `name` is listed: every entry when hidden ones
/// are asked for, else those whose name does not begin with a dot.
pub open spec fn shown(hidden: bool, name: Seq<char>) -> bool {
    hidden || !dot().is_prefix_of(name)
}

/// What is listed when the caller names `file`: that path, or the current
/// directory when none is named.
pub open spec fn target_of(file: Option<String>) -> Seq<char> {
    match file {
        Some(path) => path@,
        None => dot(),
    }
}

/// The lines of a listing of the target `target`. For a directory with
/// the entries `names` they are the names that are shown, in their order;
/// for anything else the one line is the target itself.
pub open spec fn ls_lines(hidden: bool, target: Seq<char>, names: Option<Seq<Seq<char>>>) -> Seq<
    Seq<char>,
> {
    match names {
        Some(names) => names.filter(|name: Seq<char>| shown(hidden, name)),
        None => seq![target],
    }
}

/// The path to list.
pub fn ls_target(file: &Option<String>) -> (target: &str)
    ensures
        target@ == target_of(*file),
{
    match file {
        Some(path) => path.as_str(),
        None => ".",
    }
}

/// Whether an entry named `name` is listed.
pub fn is_shown(hidden: bool, name: &str) -> (b: bool)
    ensures
        b == shown(hidden, name@),
{
    hidden || !has_prefix(&to_chars(name), &to_chars("."))
}

/// The lines that list `file`. `names` holds the names of its entries if
/// it is a directory, and nothing if it is not.
pub fn ls(hidden: bool, file: &Option<String>, names: &Option<Vec<String>>) -> (out: Vec<String>)
    ensures
        text_views(out@) == ls_lines(
            hidden,
            target_of(*file),
            match *names {
                Some(names) => Some(text_views(names@)),
                None => None,
            },
        ),
{
    let mut out: Vec<String> = Vec::new();
    match names {
        None => {
            out.push(String::from_str(ls_target(file)));
            assert(text_views(out@) =~= seq![target_of(*file)]);
        },
        Some(names) => {
            proof {
                reveal(Seq::filter);
            }
            let ghost all = text_views(names@);
            let ghost pred = |name: Seq<char>| shown(hidden, name);
            for i in 0..names.len()
                invariant
                    all == text_views(names@),
                    pred == (|name: Seq<char>| shown(hidden, name)),
                    text_views(out@) == all.take(i as int).filter(pred),
            {
                let ghost before = text_views(out@);
                proof {
                    assert(all.take(i + 1) =~= all.take(i as int).push(names@[i as int]@));
                    all.take(i as int).lemma_filter_push(names@[i as int]@, pred);
                }
                if is_shown(hidden, names[i].as_str()) {
                    out.push(names[i].clone());
                    assert(text_views(out@) =~= before.push(names@[i as int]@));
                }
            }
            assert(all.take(names.len() as int) =~= all);
        },
    }
    out
}

} // verus!
