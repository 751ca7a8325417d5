//! Path matchers: a literal path or a compiled regular expression.
use vstd::prelude::*;

verus! {

#[verifier::external_type_specification]
#[verifier::external_body]
pub struct ExRegex(regex::Regex);

#[verifier::external_type_specification]
#[verifier::external_body]
pub struct ExRegexError(regex::Error);

/// The regex crate's clone of a compiled regex: the same automaton.
pub assume_specification[ <regex::Regex as Clone>::clone ](r: &regex::Regex) -> regex::Regex;

/// Whether `regex::Regex::new` accepts this pattern text (syntax and the
/// default size limit); a function of the text alone.
pub uninterp spec fn pattern_compiles(pattern: Seq<char>) -> bool;

/// Whether the regex compiled from `pattern` matches somewhere in `text`.
pub uninterp spec fn pattern_matches(pattern: Seq<char>, text: Seq<char>) -> bool;

/// For each non-overlapping match of the regex compiled from `pattern` in
/// `text`, left to right, the text of the capture group called `name`
/// (`None` where that group did not take part in the match).
pub uninterp spec fn named_captures(pattern: Seq<char>, text: Seq<char>, name: Seq<char>) -> Seq<
    Option<Seq<char>>,
>;

/// Relies on `regex::Regex::new`: it fails exactly on the patterns that it
/// cannot compile.
#[verifier::external_body]
fn compile(source: &str) -> (r: Result<regex::Regex, regex::Error>)
    ensures
        r is Ok <==> pattern_compiles(source@),
{
    regex::Regex::new(source)
}

/// A regular expression together with the text it was compiled from.
/// The compiled form is only ever built from `source`, so the two agree.
pub struct Pattern {
    source: String,
    compiled: regex::Regex,
}

/// A pattern that `regex` refused to compile.
#[derive(Debug, PartialEq, Eq, Structural)]
pub enum PatternError {
    Invalid,
}

impl View for Pattern {
    type V = Seq<char>;

    closed spec fn view(&self) -> Seq<char> {
        self.source@
    }
}

/// Relies on `regex::Regex::is_match`: true iff the regex matches anywhere
/// in the haystack (not anchored).
#[verifier::external_body]
fn regex_is_match(p: &Pattern, text: &str) -> (r: bool)
    ensures
        r == pattern_matches(p@, text@),
{
    p.compiled.is_match(text)
}

/// Relies on `regex::Regex::captures_iter` and `regex::Captures::name`:
/// one entry per non-overlapping match, holding the named group's text.
/// The iterator yields at least one match iff `is_match` holds.
#[verifier::external_body]
fn regex_named_captures(p: &Pattern, text: &str, name: &str) -> (r: Vec<Option<String>>)
    ensures
        r@.len() == named_captures(p@, text@, name@).len(),
        forall|i: int|
            0 <= i < r@.len() ==> opt_view(#[trigger] r@[i]) == named_captures(p@, text@, name@)[i],
        r@.len() > 0 <==> pattern_matches(p@, text@),
{
    p.compiled.captures_iter(text).map(|c| c.name(name).map(|m| m.as_str().to_string())).collect()
}

/// The character sequence held by an optional string.
pub open spec fn opt_view(o: Option<String>) -> Option<Seq<char>> {
    match o {
        Some(s) => Some(s@),
        None => None,
    }
}

impl Pattern {
    /// Compiles `source`; fails exactly when the regex crate refuses it.
    pub fn new(source: &str) -> (r: Result<Pattern, PatternError>)
        ensures
            r is Ok <==> pattern_compiles(source@),
            r is Ok ==> r->Ok_0@ == source@,
            r is Err ==> r->Err_0 == PatternError::Invalid,
    {
        match compile(source) {
            Ok(compiled) => Ok(Pattern { source: String::from_str(source), compiled }),
            Err(_) => Err(PatternError::Invalid),
        }
    }

    /// The text the pattern was compiled from.
    pub fn source(&self) -> (r: &str)
        ensures
            r@ == self@,
    {
        self.source.as_str()
    }

    /// Whether the pattern matches somewhere in `text`.
    pub fn is_match(&self, text: &str) -> (r: bool)
        ensures
            r == pattern_matches(self@, text@),
    {
        regex_is_match(self, text)
    }

    /// The named group's text in each match of the pattern in `text`.
    pub fn named_captures(&self, text: &str, name: &str) -> (r: Vec<Option<String>>)
        ensures
            r@.len() == named_captures(self@, text@, name@).len(),
            forall|i: int|
                0 <= i < r@.len() ==> opt_view(#[trigger] r@[i]) == named_captures(
                    self@,
                    text@,
                    name@,
                )[i],
            r@.len() > 0 <==> pattern_matches(self@, text@),
    {
        regex_named_captures(self, text, name)
    }
}

impl Clone for Pattern {
    fn clone(&self) -> (r: Pattern)
        ensures
            r@ == self@,
    {
        Pattern { source: self.source.clone(), compiled: self.compiled.clone() }
    }
}

/// What a route matches on: an exact path, or a pattern found anywhere in
/// the path.
pub enum Path {
    Str(String),
    Rex(Pattern),
}

/// Whether matcher `p` accepts the request path `path`.
pub open spec fn accepts(p: Path, path: Seq<char>) -> bool {
    match p {
        Path::Str(s) => s@ == path,
        Path::Rex(re) => pattern_matches(re@, path),
    }
}

/// Two matchers that accept the same paths and expose the same captures.
pub open spec fn same_matcher(a: Path, b: Path) -> bool {
    match (a, b) {
        (Path::Str(x), Path::Str(y)) => x@ == y@,
        (Path::Rex(x), Path::Rex(y)) => x@ == y@,
        _ => false,
    }
}

impl Path {
    /// Whether this matcher accepts `path`: byte equality for a literal,
    /// an unanchored search for a pattern.
    pub fn accepts(&self, path: &String) -> (r: bool)
        ensures
            r == accepts(*self, path@),
    {
        match self {
            Path::Str(s) => s.eq(path),
            Path::Rex(re) => re.is_match(path.as_str()),
        }
    }
}

impl Clone for Path {
    fn clone(&self) -> (r: Path)
        ensures
            same_matcher(r, *self),
    {
        match self {
            Path::Str(s) => Path::Str(s.clone()),
            Path::Rex(re) => Path::Rex(re.clone()),
        }
    }
}

} // verus!
