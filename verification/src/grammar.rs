//! The marker grammar: the four line patterns that delimit a conflict and
//! its blocks, matched by the `regex` crate.

use regex::Regex;
use vstd::prelude::*;

verus! {

/// `regex::Regex`, a compiled pattern. Nothing inside it is visible here.
#[verifier::external_type_specification]
#[verifier::external_body]
pub struct ExRegex(regex::Regex);

/// `regex::Error`, the reason a pattern did not compile. Nothing inside it
/// is visible here.
#[verifier::external_type_specification]
#[verifier::external_body]
pub struct ExRegexError(regex::Error);

/// What `regex::Regex::new` makes of the pattern text `pattern`: the regex
/// it builds, or nothing where the pattern does not compile.
pub uninterp spec fn compiled_regex(pattern: Seq<char>) -> Option<Regex>;

/// Whether `regex::Regex::is_match` finds a match of `re` anywhere in
/// `haystack`.
pub uninterp spec fn regex_is_match(re: Regex, haystack: Seq<char>) -> bool;

/// `regex::Regex::new`: compiles a pattern with the default options. Not
/// proved here: whether a pattern compiles, and the regex it then gives,
/// depend on the pattern's text alone.
pub assume_specification[ Regex::new ](re: &str) -> (compiled: Result<Regex, regex::Error>)
    ensures
        compiled matches Ok(r) ==> compiled_regex(re@) == Some(r),
        compiled is Err ==> compiled_regex(re@) is None,
;

/// `regex::Regex::is_match`: searches the haystack from its start. Not
/// proved here: the answer depends on the regex and the haystack's text
/// alone.
pub assume_specification[ Regex::is_match ](re: &Regex, haystack: &str) -> (found: bool)
    ensures
        found == regex_is_match(*re, haystack@),
;

/// The pattern text `pattern` compiles.
pub open spec fn regex_compiles(pattern: Seq<char>) -> bool {
    compiled_regex(pattern) is Some
}

/// Opens a conflict: `<<<<<<< Conflict N of M`.
pub const CONFLICT_START_PATTERN: &'static str = "^<<<<<<< Conflict \\d+ of \\d+$";

/// Closes a conflict: `>>>>>>> Conflict N of M ends`.
pub const CONFLICT_END_PATTERN: &'static str = "^>>>>>>> Conflict \\d+ of \\d+ ends$";

/// Heads a block given as a diff: `%%%%%%% Changes from base to side #N`,
/// where `base to ` may be missing and `base` may carry a number.
pub const CHANGE_HEADER_PATTERN: &'static str =
    "^%%%%%%% Changes from (base(?: #\\d+)? to )?side #\\d+$";

/// Heads a block given in full: `+++++++ Contents of side #N`.
pub const CONTENTS_HEADER_PATTERN: &'static str = "^\\+{7} Contents of side #\\d+$";

/// The pattern `pattern` compiles and matches the text `line` somewhere.
pub open spec fn pattern_matches(pattern: Seq<char>, line: Seq<char>) -> bool {
    compiled_regex(pattern) matches Some(re) && regex_is_match(re, line)
}

/// The text `line` opens a conflict.
pub open spec fn conflict_start_line(line: Seq<char>) -> bool {
    pattern_matches(CONFLICT_START_PATTERN@, line)
}

/// The text `line` closes a conflict.
pub open spec fn conflict_end_line(line: Seq<char>) -> bool {
    pattern_matches(CONFLICT_END_PATTERN@, line)
}

/// The text `line` heads a block given as a diff.
pub open spec fn change_header_line(line: Seq<char>) -> bool {
    pattern_matches(CHANGE_HEADER_PATTERN@, line)
}

/// The text `line` heads a block given in full.
pub open spec fn contents_header_line(line: Seq<char>) -> bool {
    pattern_matches(CONTENTS_HEADER_PATTERN@, line)
}

/// Which of the four patterns a line matches.
#[derive(Debug, Clone, Copy, PartialEq, Eq, Structural)]
pub struct LineMarks {
    pub conflict_start: bool,
    pub conflict_end: bool,
    pub change_header: bool,
    pub contents_header: bool,
}

impl LineMarks {
    /// The line heads a block.
    pub open spec fn block_header(self) -> bool {
        self.change_header || self.contents_header
    }

    /// The line ends the block before it: it heads the next block or closes
    /// the conflict.
    pub open spec fn known_pattern(self) -> bool {
        self.change_header || self.contents_header || self.conflict_end
    }

    /// Whether the line ends the block before it.
    pub fn is_known_pattern(&self) -> (known: bool)
        ensures
            known == self.known_pattern(),
    {
        self.change_header || self.contents_header || self.conflict_end
    }
}

/// The marks of the text `line` under the four patterns.
pub open spec fn marks_of(line: Seq<char>) -> LineMarks {
    LineMarks {
        conflict_start: conflict_start_line(line),
        conflict_end: conflict_end_line(line),
        change_header: change_header_line(line),
        contents_header: contents_header_line(line),
    }
}

/// The text `line` ends a block: it matches one of the two header patterns
/// or closes a conflict.
pub open spec fn known_pattern_line(line: Seq<char>) -> bool {
    change_header_line(line) || contents_header_line(line) || conflict_end_line(line)
}

/// Which pattern of the grammar did not compile.
#[derive(Debug, Clone, Copy, PartialEq, Eq, Structural)]
pub enum GrammarError {
    ConflictStart,
    ConflictEnd,
    ChangeHeader,
    ContentsHeader,
}

/// The four patterns, compiled once and used for every line.
pub struct MarkerGrammar {
    conflict_start: Regex,
    conflict_end: Regex,
    change_header: Regex,
    contents_header: Regex,
}

impl MarkerGrammar {
    /// Each regex is the one its pattern compiles to.
    #[verifier::type_invariant]
    pub closed spec fn inv(&self) -> bool {
        &&& compiled_regex(CONFLICT_START_PATTERN@) == Some(self.conflict_start)
        &&& compiled_regex(CONFLICT_END_PATTERN@) == Some(self.conflict_end)
        &&& compiled_regex(CHANGE_HEADER_PATTERN@) == Some(self.change_header)
        &&& compiled_regex(CONTENTS_HEADER_PATTERN@) == Some(self.contents_header)
    }

    /// Puts four compilation results together: the grammar where all four
    /// patterns compiled, else the first pattern that did not.
    pub fn from_compiled(
        conflict_start: Result<Regex, regex::Error>,
        conflict_end: Result<Regex, regex::Error>,
        change_header: Result<Regex, regex::Error>,
        contents_header: Result<Regex, regex::Error>,
    ) -> (grammar: Result<MarkerGrammar, GrammarError>)
        requires
            conflict_start matches Ok(r) ==> compiled_regex(CONFLICT_START_PATTERN@) == Some(r),
            conflict_end matches Ok(r) ==> compiled_regex(CONFLICT_END_PATTERN@) == Some(r),
            change_header matches Ok(r) ==> compiled_regex(CHANGE_HEADER_PATTERN@) == Some(r),
            contents_header matches Ok(r) ==> compiled_regex(CONTENTS_HEADER_PATTERN@) == Some(r),
        ensures
            grammar matches Ok(g) ==> g.inv(),
            grammar is Ok <==> conflict_start is Ok && conflict_end is Ok && change_header is Ok
                && contents_header is Ok,
            grammar matches Err(e) ==> e == if conflict_start is Err {
                GrammarError::ConflictStart
            } else if conflict_end is Err {
                GrammarError::ConflictEnd
            } else if change_header is Err {
                GrammarError::ChangeHeader
            } else {
                GrammarError::ContentsHeader
            },
    {
        match conflict_start {
            Err(_) => Err(GrammarError::ConflictStart),
            Ok(conflict_start) => match conflict_end {
                Err(_) => Err(GrammarError::ConflictEnd),
                Ok(conflict_end) => match change_header {
                    Err(_) => Err(GrammarError::ChangeHeader),
                    Ok(change_header) => match contents_header {
                        Err(_) => Err(GrammarError::ContentsHeader),
                        Ok(contents_header) => Ok(
                            MarkerGrammar {
                                conflict_start,
                                conflict_end,
                                change_header,
                                contents_header,
                            },
                        ),
                    },
                },
            },
        }
    }

    /// Compiles the four patterns: the grammar where all four compile, else
    /// the first, in the order start, end, change header, contents header,
    /// that does not.
    pub fn new() -> (grammar: Result<MarkerGrammar, GrammarError>)
        ensures
            grammar matches Ok(g) ==> g.inv(),
            grammar is Ok <==> regex_compiles(CONFLICT_START_PATTERN@) && regex_compiles(
                CONFLICT_END_PATTERN@,
            ) && regex_compiles(CHANGE_HEADER_PATTERN@) && regex_compiles(
                CONTENTS_HEADER_PATTERN@,
            ),
            grammar matches Err(e) ==> e == if !regex_compiles(CONFLICT_START_PATTERN@) {
                GrammarError::ConflictStart
            } else if !regex_compiles(CONFLICT_END_PATTERN@) {
                GrammarError::ConflictEnd
            } else if !regex_compiles(CHANGE_HEADER_PATTERN@) {
                GrammarError::ChangeHeader
            } else {
                GrammarError::ContentsHeader
            },
    {
        MarkerGrammar::from_compiled(
            Regex::new(CONFLICT_START_PATTERN),
            Regex::new(CONFLICT_END_PATTERN),
            Regex::new(CHANGE_HEADER_PATTERN),
            Regex::new(CONTENTS_HEADER_PATTERN),
        )
    }

    /// Whether `line` opens a conflict.
    pub fn is_conflict_start(&self, line: &str) -> (found: bool)
        ensures
            found == conflict_start_line(line@),
    {
        proof {
            use_type_invariant(self);
        }
        self.conflict_start.is_match(line)
    }

    /// Whether `line` closes a conflict.
    pub fn is_conflict_end(&self, line: &str) -> (found: bool)
        ensures
            found == conflict_end_line(line@),
    {
        proof {
            use_type_invariant(self);
        }
        self.conflict_end.is_match(line)
    }

    /// Whether `line` heads a block given as a diff.
    pub fn is_change_header(&self, line: &str) -> (found: bool)
        ensures
            found == change_header_line(line@),
    {
        proof {
            use_type_invariant(self);
        }
        self.change_header.is_match(line)
    }

    /// Whether `line` heads a block given in full.
    pub fn is_contents_header(&self, line: &str) -> (found: bool)
        ensures
            found == contents_header_line(line@),
    {
        proof {
            use_type_invariant(self);
        }
        self.contents_header.is_match(line)
    }

    /// Matches `line` against each of the four patterns.
    pub fn classify(&self, line: &str) -> (marks: LineMarks)
        ensures
            marks == marks_of(line@),
    {
        LineMarks {
            conflict_start: self.is_conflict_start(line),
            conflict_end: self.is_conflict_end(line),
            change_header: self.is_change_header(line),
            contents_header: self.is_contents_header(line),
        }
    }
}

} // verus!
