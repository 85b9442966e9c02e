//! The test that a query puts to the subject of a mail.

use crate::error::SearchError;
use crate::text::{contains, has_substring};
use vstd::prelude::*;

verus! {

/// The regex crate compiles `pattern` as a regular expression.
pub uninterp spec fn regex_compiles(pattern: Seq<char>) -> bool;

/// The regular expression `pattern`, compiled by the regex crate, finds a
/// match somewhere in `text`.
pub uninterp spec fn regex_finds(pattern: Seq<char>, text: Seq<char>) -> bool;

/// `regex::Regex::new`, asked only whether it succeeds. Claimed: that is a
/// function of the pattern.
#[verifier::external_body]
fn regex_is_valid(pattern: &str) -> (ok: bool)
    ensures
        ok == regex_compiles(pattern@),
{
    regex::Regex::new(pattern).is_ok()
}

/// `regex::Regex::is_match`, on the expression that `regex::Regex::new` makes
/// of `pattern`. Claimed: the answer is a function of the pattern and the
/// text. The pattern compiles, so nothing here panics.
#[verifier::external_body]
fn regex_is_match(pattern: &str, text: &str) -> (found: bool)
    requires
        regex_compiles(pattern@),
    ensures
        found == regex_finds(pattern@, text@),
{
    regex::Regex::new(pattern).unwrap().is_match(text)
}

/// The subject `subject` passes the test of `pattern`: read as a regular
/// expression, `pattern` matches somewhere in it; read as a literal, it
/// stands somewhere in it.
pub open spec fn subject_passes(pattern: Seq<char>, regex: bool, subject: Seq<char>) -> bool {
    if regex {
        regex_finds(pattern, subject)
    } else {
        has_substring(subject, pattern)
    }
}

/// A test on subjects: a literal that the subject must contain, or a regular
/// expression that must match somewhere in it.
#[derive(Debug)]
pub struct SubjectMatcher {
    pattern: String,
    regex: bool,
}

impl Clone for SubjectMatcher {
    fn clone(&self) -> (m: SubjectMatcher)
        ensures
            m == *self,
    {
        proof {
            use_type_invariant(self);
        }
        SubjectMatcher { pattern: self.pattern.clone(), regex: self.regex }
    }
}

impl SubjectMatcher {
    #[verifier::type_invariant]
    spec fn well_formed(self) -> bool {
        self.regex ==> regex_compiles(self.pattern@)
    }

    /// The literal, or the source of the regular expression.
    pub closed spec fn pattern_text(self) -> Seq<char> {
        self.pattern@
    }

    /// The pattern is a regular expression, not a literal.
    pub closed spec fn is_regex(self) -> bool {
        self.regex
    }

    /// The matcher lets `subject` pass.
    pub open spec fn accepts(self, subject: Seq<char>) -> bool {
        subject_passes(self.pattern_text(), self.is_regex(), subject)
    }

    /// The matcher for subjects that contain `pattern`, case and all.
    pub fn literal(pattern: &str) -> (m: SubjectMatcher)
        ensures
            !m.is_regex(),
            m.pattern_text() == pattern@,
    {
        SubjectMatcher { pattern: pattern.to_owned(), regex: false }
    }

    /// The matcher for subjects in which the regular expression `pattern`
    /// matches somewhere. Fails where `pattern` does not compile.
    pub fn pattern(pattern: &str) -> (r: Result<SubjectMatcher, SearchError>)
        ensures
            r is Ok <==> regex_compiles(pattern@),
            r matches Ok(m) ==> m.is_regex() && m.pattern_text() == pattern@,
            r matches Err(e) ==> e == SearchError::InvalidPattern,
    {
        if regex_is_valid(pattern) {
            Ok(SubjectMatcher { pattern: pattern.to_owned(), regex: true })
        } else {
            Err(SearchError::InvalidPattern)
        }
    }

    /// The matcher for `pattern`, read as a regular expression where `regex`
    /// is set and as a literal where it is not.
    pub fn new(pattern: &str, regex: bool) -> (r: Result<SubjectMatcher, SearchError>)
        ensures
            r is Ok <==> (regex ==> regex_compiles(pattern@)),
            r matches Ok(m) ==> m.is_regex() == regex && m.pattern_text() == pattern@,
            r matches Err(e) ==> e == SearchError::InvalidPattern,
    {
        if regex {
            SubjectMatcher::pattern(pattern)
        } else {
            Ok(SubjectMatcher::literal(pattern))
        }
    }

    /// Tests `subject`.
    pub fn matches(&self, subject: &str) -> (pass: bool)
        ensures
            pass == self.accepts(subject@),
    {
        proof {
            use_type_invariant(self);
        }
        if self.regex {
            regex_is_match(self.pattern.as_str(), subject)
        } else {
            contains(subject, self.pattern.as_str())
        }
    }
}

} // verus!
