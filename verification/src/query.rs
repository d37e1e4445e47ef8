use vstd::prelude::*;

use regex::{Regex, RegexBuilder};

use crate::text::{decimal, push_decimal, push_str, str_eq, string_from, utf8_len};

verus! {

/// The longest filter or find query accepted, in bytes.
pub const MAX_REGEX_BYTES: usize = 4096;
/// The compiled size a filter regex may reach.
pub const REGEX_COMPILED_LIMIT: usize = 1048576;
/// The compiled size a find pattern may reach.
pub const FIND_COMPILED_LIMIT: usize = 524288;
/// The compiled size that `regex` allows a pattern by default.
pub const DEFAULT_COMPILED_LIMIT: usize = 10485760;
/// The lazy DFA cache that `regex` gives a pattern by default.
pub const DEFAULT_DFA_LIMIT: usize = 2097152;

#[verifier::external_type_specification]
#[verifier::external_body]
pub struct ExRegex(Regex);

/// The characters that have a meaning in a regular expression.
pub open spec fn is_regex_meta(c: char) -> bool {
    c == '\\' || c == '.' || c == '+' || c == '*' || c == '?' || c == '(' || c == ')' || c == '|'
        || c == '[' || c == ']' || c == '{' || c == '}' || c == '^' || c == '$' || c == '#' || c
        == '&' || c == '-' || c == '~'
}

/// The pattern that `regex::escape` makes of `text`: every meta character gets
/// a backslash before it, every other character is copied. It matches `text`
/// literally.
pub open spec fn escaped_pattern(text: Seq<char>) -> Seq<char>
    decreases text.len(),
{
    if text.len() == 0 {
        Seq::empty()
    } else {
        let c = text.last();
        escaped_pattern(text.drop_last()) + if is_regex_meta(c) {
            seq!['\\', c]
        } else {
            seq![c]
        }
    }
}

/// Why a case-insensitive regex cannot be built from `pattern` with the given
/// compiled-size and DFA cache limits (the error's message), or `None` when it
/// can.
pub uninterp spec fn regex_build_error(pattern: Seq<char>, size_limit: usize, dfa_limit: usize) -> Option<Seq<char>>;

/// The byte ranges of the successive non-overlapping matches that a
/// case-insensitive regex built from `pattern` finds in `text`.
pub uninterp spec fn regex_matches(pattern: Seq<char>, text: Seq<char>) -> Seq<(usize, usize)>;

/// Byte ranges in order, as `find_iter` gives matches: each starts no later
/// than it ends, and ends no later than the next one starts.
pub open spec fn successive(s: Seq<(usize, usize)>) -> bool {
    forall|i: int|
        0 <= i < s.len() ==> (#[trigger] s[i]).0 <= s[i].1 && (i + 1 < s.len() ==> s[i].1
            <= s[i + 1].0)
}

/// `regex::escape`: `text` with a backslash before each regex meta character
/// (`escaped_pattern`).
#[verifier::external_body]
pub(crate) fn regex_escape(text: &str) -> (r: String)
    ensures
        r@ == escaped_pattern(text@),
{
    regex::escape(text)
}

/// `RegexBuilder::new(pattern)` with `case_insensitive(true)`, `size_limit` and
/// `dfa_size_limit`, then `build`; a failure comes back as the error's message.
#[verifier::external_body]
fn build_case_insensitive(pattern: &str, size_limit: usize, dfa_limit: usize) -> (r: Result<
    Regex,
    String,
>)
    ensures
        match r {
            Ok(_) => regex_build_error(pattern@, size_limit, dfa_limit) is None,
            Err(e) => regex_build_error(pattern@, size_limit, dfa_limit) == Some(e@),
        },
{
    match RegexBuilder::new(pattern).case_insensitive(true).size_limit(size_limit).dfa_size_limit(
        dfa_limit,
    ).build() {
        Ok(regex) => Ok(regex),
        Err(error) => Err(error.to_string()),
    }
}

/// A case-insensitive regex together with the pattern it was built from.
pub struct CompiledQuery {
    regex: Regex,
    pattern: String,
}

impl CompiledQuery {
    /// The pattern the regex was built from.
    pub closed spec fn pattern(&self) -> Seq<char> {
        self.pattern@
    }

    /// Builds `pattern` case-insensitively within the given limits.
    pub fn build(pattern: &str, size_limit: usize, dfa_limit: usize) -> (r: Result<
        CompiledQuery,
        String,
    >)
        ensures
            match r {
                Ok(q) => regex_build_error(pattern@, size_limit, dfa_limit) is None && q.pattern()
                    == pattern@,
                Err(e) => regex_build_error(pattern@, size_limit, dfa_limit) == Some(e@),
            },
    {
        match build_case_insensitive(pattern, size_limit, dfa_limit) {
            Ok(regex) => Ok(CompiledQuery { regex, pattern: string_from(pattern) }),
            Err(e) => Err(e),
        }
    }

    /// A filter: `query` as a case-insensitive regular expression, within
    /// `REGEX_COMPILED_LIMIT`.
    pub fn filter(query: &str) -> (r: Result<CompiledQuery, String>)
        ensures
            match r {
                Ok(q) => regex_build_error(query@, REGEX_COMPILED_LIMIT, REGEX_COMPILED_LIMIT)
                    is None && q.pattern() == query@,
                Err(e) => regex_build_error(query@, REGEX_COMPILED_LIMIT, REGEX_COMPILED_LIMIT)
                    == Some(e@),
            },
    {
        Self::build(query, REGEX_COMPILED_LIMIT, REGEX_COMPILED_LIMIT)
    }

    /// A find query: `query` matched literally and case-insensitively, within
    /// `FIND_COMPILED_LIMIT`.
    pub fn find(query: &str) -> (r: Result<CompiledQuery, String>)
        ensures
            ({
                let p = escaped_pattern(query@);
                match r {
                    Ok(q) => regex_build_error(p, FIND_COMPILED_LIMIT, FIND_COMPILED_LIMIT) is None
                        && q.pattern() == p,
                    Err(e) => regex_build_error(p, FIND_COMPILED_LIMIT, FIND_COMPILED_LIMIT) == Some(
                        e@,
                    ),
                }
            }),
    {
        let pattern = regex_escape(query);
        Self::build(pattern.as_str(), FIND_COMPILED_LIMIT, FIND_COMPILED_LIMIT)
    }

    /// The pattern the regex was built from.
    pub fn source(&self) -> (r: &str)
        ensures
            r@ == self.pattern(),
    {
        self.pattern.as_str()
    }

    /// `Regex::is_match`: whether the regex matches anywhere in `text`, that is
    /// whether `find_iter` finds at least one match.
    #[verifier::external_body]
    fn regex_is_match(&self, text: &str) -> (r: bool)
        ensures
            r == (regex_matches(self.pattern(), text@).len() > 0),
    {
        self.regex.is_match(text)
    }

    /// `Regex::find_iter`: the byte ranges of the successive, non-overlapping
    /// matches in `text`, in order: a match's start is never past its end, and
    /// each match ends no later than the next one starts.
    #[verifier::external_body]
    fn regex_find_iter(&self, text: &str) -> (r: Vec<(usize, usize)>)
        ensures
            r@ == regex_matches(self.pattern(), text@),
            successive(r@),
    {
        self.regex.find_iter(text).map(|found| (found.start(), found.end())).collect()
    }

    /// Whether the query matches anywhere in `text`.
    pub fn is_match(&self, text: &str) -> (r: bool)
        ensures
            r == (regex_matches(self.pattern(), text@).len() > 0),
    {
        self.regex_is_match(text)
    }

    /// The byte ranges of the query's successive matches in `text`.
    pub fn match_spans(&self, text: &str) -> (r: Vec<(usize, usize)>)
        ensures
            r@ == regex_matches(self.pattern(), text@),
            successive(r@),
    {
        self.regex_find_iter(text)
    }
}

/// The pattern of an optional query.
pub open spec fn pattern_of(q: Option<&CompiledQuery>) -> Option<Seq<char>> {
    match q {
        Some(q) => Some(q.pattern()),
        None => None,
    }
}

/// Whether a record is visible under the filter (`filter_valid` and, if there
/// is a filter pattern, a match), and whether a visible record is a find match.
pub open spec fn record_place(
    filter_valid: bool,
    filter: Option<Seq<char>>,
    find: Option<Seq<char>>,
    line: Seq<char>,
) -> (bool, bool) {
    let visible = filter_valid && match filter {
        Some(p) => regex_matches(p, line).len() > 0,
        None => true,
    };
    let found = visible && match find {
        Some(p) => regex_matches(p, line).len() > 0,
        None => false,
    };
    (visible, found)
}

/// What applying a query to the session store calls for.
#[derive(Debug, PartialEq, Eq)]
pub enum QueryPlan {
    /// The query is already in force.
    Unchanged,
    /// The query is refused as too long; the message says so.
    TooLong(String),
    /// An empty query: no filtering or finding.
    Clear,
    /// Build the query's pattern and rebuild the indexes.
    Compile,
}

pub open spec fn too_long_message(what: Seq<char>) -> Seq<char> {
    what + " exceeds "@ + decimal(MAX_REGEX_BYTES as nat) + " bytes"@
}

fn too_long(what: &str) -> (r: String)
    ensures
        r@ == too_long_message(what@),
{
    let mut out = string_from(what);
    push_str(&mut out, " exceeds ");
    push_decimal(&mut out, MAX_REGEX_BYTES as u64);
    push_str(&mut out, " bytes");
    out
}

/// What applying the filter `query` calls for, given the filter in force
/// (`current`, `None` when there is none) and whether it is valid.
pub fn plan_filter(query: &str, current: Option<&str>, valid: bool) -> (r: QueryPlan)
    ensures
        ({
            let unchanged = valid && match current {
                Some(source) => source@ == query@,
                None => query@.len() == 0,
            };
            let bytes = utf8_len(query@);
            if unchanged {
                r == QueryPlan::Unchanged
            } else if bytes > MAX_REGEX_BYTES {
                r matches QueryPlan::TooLong(m) && m@ == too_long_message("Regular expression"@)
            } else if query@.len() == 0 {
                r == QueryPlan::Clear
            } else {
                r == QueryPlan::Compile
            }
        }),
{
    proof {
        crate::text::lemma_encode_len(query@);
    }
    let unchanged = valid && match current {
        Some(source) => str_eq(source, query),
        None => query.is_empty(),
    };
    if unchanged {
        QueryPlan::Unchanged
    } else if query.as_bytes().len() > MAX_REGEX_BYTES {
        QueryPlan::TooLong(too_long("Regular expression"))
    } else if query.is_empty() {
        QueryPlan::Clear
    } else {
        QueryPlan::Compile
    }
}

/// What applying the find `query` calls for, given the find query in force.
pub fn plan_find(query: &str, current: &str) -> (r: QueryPlan)
    ensures
        if current@ == query@ {
            r == QueryPlan::Unchanged
        } else if utf8_len(query@) > MAX_REGEX_BYTES {
            r matches QueryPlan::TooLong(m) && m@ == too_long_message("Find query"@)
        } else if query@.len() == 0 {
            r == QueryPlan::Clear
        } else {
            r == QueryPlan::Compile
        },
{
    proof {
        crate::text::lemma_encode_len(query@);
    }
    if str_eq(current, query) {
        QueryPlan::Unchanged
    } else if query.as_bytes().len() > MAX_REGEX_BYTES {
        QueryPlan::TooLong(too_long("Find query"))
    } else if query.is_empty() {
        QueryPlan::Clear
    } else {
        QueryPlan::Compile
    }
}

/// Where a record goes when the indexes are built: it is visible when the
/// filter is valid and (if there is one) matches; a visible record is a find
/// match when a find pattern matches it.
pub fn classify_record(filter_valid: bool, filter_match: Option<bool>, find_match: Option<bool>) -> (r:
    (bool, bool))
    ensures
        r.0 == (filter_valid && match filter_match {
            Some(m) => m,
            None => true,
        }),
        r.1 == (r.0 && find_match == Some(true)),
{
    let visible = filter_valid && match filter_match {
        Some(m) => m,
        None => true,
    };
    let found = visible && match find_match {
        Some(m) => m,
        None => false,
    };
    (visible, found)
}

/// Where `line` goes when the indexes are built (`record_place`).
pub fn place_record(
    filter_valid: bool,
    filter: Option<&CompiledQuery>,
    find: Option<&CompiledQuery>,
    line: &str,
) -> (r: (bool, bool))
    ensures
        r == record_place(filter_valid, pattern_of(filter), pattern_of(find), line@),
{
    let filter_match = match filter {
        Some(q) => Some(q.is_match(line)),
        None => None,
    };
    let find_match = match find {
        Some(q) => Some(q.is_match(line)),
        None => None,
    };
    classify_record(filter_valid, filter_match, find_match)
}

} // verus!
