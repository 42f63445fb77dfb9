//! Recognising process entries by name, with a compiled regular expression.

use crate::error::PsError;
use regex::Regex;
use vstd::prelude::*;

verus! {

/// `regex::Regex`, a compiled regular expression. Nothing inside it is
/// visible here.
#[verifier::external_type_specification]
#[verifier::external_body]
pub struct ExRegex(regex::Regex);

/// `regex::Error`, the reason why an expression did not compile. Nothing
/// inside it is visible here.
#[verifier::external_type_specification]
#[verifier::external_body]
pub struct ExRegexError(regex::Error);

/// Whether `Regex::new` accepts the pattern text `pattern`, that is
/// whether it returns an expression for it and not an error.
pub uninterp spec fn compiles(pattern: Seq<char>) -> bool;

/// Whether the compiled expression `re` finds a match in `text`: what
/// `Regex::is_match` returns for the two.
pub uninterp spec fn accepts(re: Regex, text: Seq<char>) -> bool;

/// Whether `c` is one of the ten ASCII decimal digits.
pub open spec fn is_digit(c: char) -> bool {
    '0' <= c <= '9'
}

/// Whether `name` is the name of a process entry: one or more decimal
/// digits and nothing else.
pub open spec fn is_pid_name(name: Seq<char>) -> bool {
    name.len() > 0 && forall|i: int| 0 <= i < name.len() ==> is_digit(#[trigger] name[i])
}

/// The pattern text for process entry names.
pub open spec fn pid_pattern() -> Seq<char> {
    "^[0-9]+$"@
}

/// `Regex::new`, which compiles `pattern` with every option of the crate
/// at its default. It returns an expression exactly for the patterns that
/// the crate accepts.
///
/// Of the one pattern `^[0-9]+$` this says what the expression matches.
/// In the syntax of the crate `[0-9]` is any ASCII digit and `+` asks for
/// one or more; `^` and `$` are the two ends of the text searched, since
/// multi-line mode is off by default. So the expression finds a match in
/// a text exactly when the text is one or more ASCII digits and nothing
/// else. Of other patterns nothing is said.
#[verifier::external_body]
fn compile(pattern: &str) -> (r: Result<Regex, regex::Error>)
    ensures
        r is Ok <==> compiles(pattern@),
        r matches Ok(re) ==> (pattern@ == pid_pattern() ==> forall|text: Seq<char>|
            #[trigger] accepts(re, text) == is_pid_name(text)),
{
    Regex::new(pattern)
}

/// `Regex::is_match`: whether `re` finds a match anywhere in `text`.
#[verifier::external_body]
fn is_match(re: &Regex, text: &str) -> (b: bool)
    ensures
        b == accepts(*re, text@),
{
    re.is_match(text)
}

/// A compiled recogniser of process entry names. Its expression is
/// private and `new` makes the only values, so every value recognises the
/// same names.
pub struct PidMatcher {
    re: Regex,
}

impl PidMatcher {
    #[verifier::type_invariant]
    spec fn recognises_pid_names(self) -> bool {
        forall|text: Seq<char>| #[trigger] accepts(self.re, text) == is_pid_name(text)
    }

    /// Compiles the recogniser. It fails exactly when the pattern for
    /// process entry names is rejected.
    pub fn new() -> (r: Result<PidMatcher, PsError>)
        ensures
            r is Ok <==> compiles(pid_pattern()),
            r matches Err(e) ==> e == PsError::PatternRejected,
    {
        match compile("^[0-9]+$") {
            Ok(re) => Ok(PidMatcher { re }),
            Err(_) => Err(PsError::PatternRejected),
        }
    }

    /// Whether `name` names a process entry.
    pub fn is_pid(&self, name: &str) -> (b: bool)
        ensures
            b == is_pid_name(name@),
    {
        proof {
            use_type_invariant(self);
        }
        is_match(&self.re, name)
    }
}

} // verus!
