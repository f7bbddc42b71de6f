//! Compiled match expressions.
use vstd::prelude::*;
use vstd::string::*;

verus! {

#[verifier::external_type_specification]
#[verifier::external_body]
pub struct ExRegex(regex::Regex);

/// Whether the regex crate accepts `pattern`.
pub uninterp spec fn regex_compiles(pattern: Seq<char>) -> bool;

/// Whether the expression `pattern` matches somewhere in `text`.
pub uninterp spec fn regex_is_match(pattern: Seq<char>, text: Seq<char>) -> bool;

/// Relies on regex::Regex::new: it succeeds exactly on the expressions the
/// crate accepts, which depends on the expression alone.
#[verifier::external_body]
fn compile(source: &str) -> (r: Option<regex::Regex>)
    ensures
        r is Some == regex_compiles(source@),
{
    regex::Regex::new(source).ok()
}

/// A match expression together with the text it was compiled from.
pub struct Pattern {
    source: String,
    compiled: regex::Regex,
}

/// Relies on regex::Regex::is_match: whether the expression matches somewhere
/// in the text, which depends on the expression and the text alone.
#[verifier::external_body]
fn compiled_matches(p: &Pattern, text: &str) -> (r: bool)
    ensures
        r == regex_is_match(p.source@, text@),
{
    p.compiled.is_match(text)
}

impl Pattern {
    pub closed spec fn source(&self) -> Seq<char> {
        self.source@
    }

    /// Compiles `source`; `None` when it is not a valid expression.
    pub fn new(source: &str) -> (r: Option<Pattern>)
        ensures
            r is Some == regex_compiles(source@),
            r matches Some(p) ==> p.source() == source@,
    {
        match compile(source) {
            Some(compiled) => Some(Pattern { source: String::from_str(source), compiled }),
            None => None,
        }
    }

    pub fn is_match(&self, text: &str) -> (r: bool)
        ensures
            r == regex_is_match(self.source(), text@),
    {
        compiled_matches(self, text)
    }
}

} // verus!
