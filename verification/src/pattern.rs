//! Compiled text patterns.  The library leans on the `regex` crate for
//! matching; what a pattern matches is named by uninterpreted spec functions,
//! and everything downstream of a match is verified against those names.

use vstd::prelude::*;

use crate::error::Error;

verus! {

#[verifier::external_type_specification]
#[verifier::external_body]
pub struct ExRegex(regex::Regex);

/// Whether the pattern text is a valid expression, that is, whether
/// compiling it succeeds.  A function of the pattern text alone.
pub uninterp spec fn pattern_compiles(pattern: Seq<char>) -> bool;

/// The capture the library reads from the *last* match of `pattern` in
/// `text`: the text of capture group 1 when the pattern has one that
/// participates in that match, else the whole match; `None` when the pattern
/// does not match.  A function of the pattern and the text alone.
pub uninterp spec fn last_capture(pattern: Seq<char>, text: Seq<char>) -> Option<Seq<char>>;

/// The whole text of the *first* match of `pattern` in `text`; `None` when
/// the pattern does not match.  A function of the pattern and the text alone.
pub uninterp spec fn first_match(pattern: Seq<char>, text: Seq<char>) -> Option<Seq<char>>;

/// A compiled pattern together with its source text.
#[derive(Debug)]
pub struct NamePattern {
    re: regex::Regex,
    pattern: String,
}

impl NamePattern {
    /// The pattern text this value was compiled from.
    pub closed spec fn source(&self) -> Seq<char> {
        self.pattern@
    }

    /// Compiles a pattern.
    ///
    /// Relies on `regex::Regex::new`: it returns `Ok` exactly when the
    /// pattern is a valid expression.  The compiled value keeps the source
    /// text beside it.
    #[verifier::external_body]
    pub fn compile(pattern: &str) -> (r: Result<NamePattern, Error>)
        ensures
            r matches Ok(p) ==> pattern_compiles(pattern@) && p.source() == pattern@,
            r matches Err(e) ==> !pattern_compiles(pattern@) && e matches Error::Regex(_),
    {
        match regex::Regex::new(pattern) {
            Ok(re) => Ok(NamePattern { re, pattern: pattern.to_string() }),
            Err(e) => Err(Error::Regex(e.to_string())),
        }
    }

    /// Makes an identical copy of the compiled pattern.
    ///
    /// Relies on `regex::Regex::clone`, which clones the same compiled
    /// expression.
    #[verifier::external_body]
    pub fn duplicate(&self) -> (r: NamePattern)
        ensures
            r.source() == self.source(),
    {
        NamePattern { re: self.re.clone(), pattern: self.pattern.clone() }
    }

    /// The capture of the last match of this pattern in `text`.
    ///
    /// Relies on `regex::Regex::captures_iter` (successive non-overlapping
    /// matches, in order), `regex::Captures::get` (group 1 when it
    /// participates, group 0 being the whole match) and
    /// `regex::Match::as_str` (the matched substring).
    #[verifier::external_body]
    pub fn last_capture_in(&self, text: &str) -> (r: Option<String>)
        ensures
            match r {
                Some(s) => last_capture(self.source(), text@) == Some(s@),
                None => last_capture(self.source(), text@) is None,
            },
    {
        let caps = self.re.captures_iter(text).last()?;
        let m = match caps.get(1) {
            Some(m) => m,
            None => caps.get(0)?,
        };
        Some(m.as_str().to_string())
    }

    /// The whole text of the first match of this pattern in `text`.
    ///
    /// Relies on `regex::Regex::captures` (the first match, or `None`),
    /// `regex::Captures::get` (group 0 being the whole match) and
    /// `regex::Match::as_str` (the matched substring).
    #[verifier::external_body]
    pub fn first_match_in(&self, text: &str) -> (r: Option<String>)
        ensures
            match r {
                Some(s) => first_match(self.source(), text@) == Some(s@),
                None => first_match(self.source(), text@) is None,
            },
    {
        let caps = self.re.captures(text)?;
        let m = caps.get(0)?;
        Some(m.as_str().to_string())
    }

    /// Whether this pattern matches anywhere in `text`.
    pub fn matches(&self, text: &str) -> (r: bool)
        ensures
            r == (first_match(self.source(), text@) is Some),
    {
        self.first_match_in(text).is_some()
    }
}

/// The text of the default numeric pattern: one or more digits optionally
/// followed by a decimal fraction.
pub open spec fn default_number_pattern_text() -> Seq<char> {
    "\\d+\\.?\\d*"@
}

/// The text of the default name-grouping pattern: `digits-digits` with an
/// optional decimal fraction, as in `01-23` or `01-23.5`.
pub open spec fn default_grouping_pattern_text() -> Seq<char> {
    "\\d+-\\d+(\\.\\d+)?"@
}

/// The compiled default numeric pattern.
///
/// Relies on `regex::Regex::new`: the fixed text `\d+\.?\d*` is a valid
/// expression, so compiling it succeeds.
#[verifier::external_body]
pub fn default_number_pattern() -> (r: NamePattern)
    ensures
        r.source() == default_number_pattern_text(),
{
    let pattern = "\\d+\\.?\\d*";
    let re = regex::Regex::new(pattern).unwrap();
    NamePattern { re, pattern: pattern.to_string() }
}

/// The compiled default name-grouping pattern.
///
/// Relies on `regex::Regex::new`: the fixed text `\d+-\d+(\.\d+)?` is a
/// valid expression, so compiling it succeeds.
#[verifier::external_body]
pub fn default_grouping_pattern() -> (r: NamePattern)
    ensures
        r.source() == default_grouping_pattern_text(),
{
    let pattern = "\\d+-\\d+(\\.\\d+)?";
    let re = regex::Regex::new(pattern).unwrap();
    NamePattern { re, pattern: pattern.to_string() }
}

} // verus!
