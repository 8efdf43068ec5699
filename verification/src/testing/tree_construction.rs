//! Recorded tree construction cases: a text, the document that a parser is
//! expected to build from it, written out line by line, and the errors that
//! it is expected to report.

pub mod parser;

use crate::html5::Document;
use crate::text::{number, parse_number};
use crate::types::Error;
use vstd::prelude::*;

verus! {

/// A place in a text.
#[derive(Debug, PartialEq)]
pub struct Position {
    pub line: usize,
    pub col: usize,
}

/// An error that a case expects, with as much of its place as the case
/// records.
#[derive(Debug, PartialEq)]
pub enum ParseError {
    Message(String),
    Line { line: usize, message: String },
    Location { pos: Position, message: String },
    Span { start: Position, end: Position, message: String },
}

/// What a `ParseError` says.
pub enum ParseErrorView {
    Message(Seq<char>),
    Line { line: usize, message: Seq<char> },
    Location { pos: Position, message: Seq<char> },
    Span { start: Position, end: Position, message: Seq<char> },
}

impl View for ParseError {
    type V = ParseErrorView;

    open spec fn view(&self) -> ParseErrorView {
        match *self {
            ParseError::Message(message) => ParseErrorView::Message(message@),
            ParseError::Line { line, message } => ParseErrorView::Line { line, message: message@ },
            ParseError::Location { pos, message } => ParseErrorView::Location {
                pos,
                message: message@,
            },
            ParseError::Span { start, end, message } => ParseErrorView::Span {
                start,
                end,
                message: message@,
            },
        }
    }
}

/// An error of the form `(1,2): message`, with a colon for the comma or after
/// the bracket, and blanks before the bracket or the column, as one may like.
pub const IN_BRACKETS: &'static str = r"^*?\s*\((\d+)(?:,|:)\s*(\d+)\):? (.+)$";

/// An error of the form `Line 1 Col 2 message`, with a colon after either
/// word as one may like.
pub const IN_WORDS: &'static str = r"^Line:? (\d+) Col:? (\d+) (.+)$";

/// An error of the form `1:2: message`.
pub const WITH_COLONS: &'static str = r"^(\d+):(\d+): (.+)$";

/// An error of the form `1: message`.
pub const LINE_ONLY: &'static str = r"^(\d+): (.+)$";

/// What a regular expression finds in a text: for the first match of the
/// pattern, the part of the text that the whole pattern matched and then the
/// part that each group of the pattern matched, in the order of the groups,
/// with nothing for a group that took no part in the match. Nothing at all
/// where the pattern does not match the text, or is no pattern.
pub uninterp spec fn regex_groups(pattern: Seq<char>, text: Seq<char>) -> Option<
    Seq<Option<Seq<char>>>,
>;

/// The texts of a list of optional strings.
pub open spec fn parts_view(parts: Seq<Option<String>>) -> Seq<Option<Seq<char>>> {
    parts.map_values(|part: Option<String>| crate::html5::tokenizer::text_view(part))
}

/// The texts of an optional list of optional strings.
pub open spec fn groups_view(groups: Option<Vec<Option<String>>>) -> Option<
    Seq<Option<Seq<char>>>,
> {
    match groups {
        Some(groups) => Some(parts_view(groups@)),
        None => None,
    }
}

/// Compiles the pattern with `Regex::new` of the crate `regex` and searches
/// the text with `Regex::captures`. What comes back depends on the pattern
/// and the text alone.
#[verifier::external_body]
fn groups(pattern: &str, text: &str) -> (found: Option<Vec<Option<String>>>)
    ensures
        groups_view(found) == regex_groups(pattern@, text@),
{
    match regex::Regex::new(pattern) {
        Ok(re) => match re.captures(text) {
            Some(found) => Some(
                found.iter().map(|group| group.map(|part| part.as_str().to_owned())).collect(),
            ),
            None => None,
        },
        Err(_) => None,
    }
}

/// The number that an optional text spells.
pub open spec fn number_in(part: Option<Seq<char>>) -> Option<usize> {
    match part {
        Some(text) => number(text),
        None => None,
    }
}

/// The error with a line and a column that a match with three groups spells:
/// line, column, message. Nothing where the match has not three groups, or a
/// group took no part, or the first two are not numbers that a `usize` can
/// hold.
pub open spec fn located(groups: Seq<Option<Seq<char>>>) -> Option<ParseErrorView> {
    if groups.len() == 4 {
        match (number_in(groups[1]), number_in(groups[2]), groups[3]) {
            (Some(line), Some(col), Some(message)) => Some(
                ParseErrorView::Location { pos: Position { line, col }, message },
            ),
            _ => None,
        }
    } else {
        None
    }
}

/// The error with a line that a match with two groups spells: line, message.
pub open spec fn on_line(groups: Seq<Option<Seq<char>>>) -> Option<ParseErrorView> {
    if groups.len() == 3 {
        match (number_in(groups[1]), groups[2]) {
            (Some(line), Some(message)) => Some(ParseErrorView::Line { line, message }),
            _ => None,
        }
    } else {
        None
    }
}

/// The error that a line of a case spells, given what each of the four forms
/// found in it: the first form that matched decides, and a line of no form
/// is a message.
pub open spec fn spelled(
    text: Seq<char>,
    in_brackets: Option<Seq<Option<Seq<char>>>>,
    in_words: Option<Seq<Option<Seq<char>>>>,
    with_colons: Option<Seq<Option<Seq<char>>>>,
    line_only: Option<Seq<Option<Seq<char>>>>,
) -> Option<ParseErrorView> {
    match in_brackets {
        Some(groups) => located(groups),
        None => match in_words {
            Some(groups) => located(groups),
            None => match with_colons {
                Some(groups) => located(groups),
                None => match line_only {
                    Some(groups) => on_line(groups),
                    None => Some(ParseErrorView::Message(text)),
                },
            },
        },
    }
}

/// The error that a line of a case spells.
pub open spec fn spelled_by(text: Seq<char>) -> Option<ParseErrorView> {
    spelled(
        text,
        regex_groups(IN_BRACKETS@, text),
        regex_groups(IN_WORDS@, text),
        regex_groups(WITH_COLONS@, text),
        regex_groups(LINE_ONLY@, text),
    )
}

/// What `from_str` and the functions under it return for what a line spells.
pub open spec fn read_as(r: Result<ParseError, Error>, spelled: Option<ParseErrorView>) -> bool {
    match spelled {
        Some(error) => r matches Ok(e) && e@ == error,
        None => r matches Err(Error::TreeConstruction(_)),
    }
}

impl ParseError {
    /// The number that an optional string spells.
    fn number_in(part: &Option<String>) -> (r: Option<usize>)
        ensures
            r == number_in(crate::html5::tokenizer::text_view(*part)),
    {
        match part {
            Some(text) => parse_number(text.as_str()),
            None => None,
        }
    }

    /// The error with a line and a column that the groups of a match spell.
    pub fn located(groups: &Vec<Option<String>>) -> (r: Result<ParseError, Error>)
        ensures
            read_as(r, located(parts_view(groups@))),
    {
        if groups.len() == 4 {
            match (Self::number_in(&groups[1]), Self::number_in(&groups[2]), &groups[3]) {
                (Some(line), Some(col), Some(message)) => {
                    return Ok(
                        ParseError::Location {
                            pos: Position { line, col },
                            message: message.clone(),
                        },
                    );
                },
                _ => {},
            }
        }
        Err(Error::TreeConstruction("a place that is no number".to_owned()))
    }

    /// The error with a line that the groups of a match spell.
    pub fn on_line(groups: &Vec<Option<String>>) -> (r: Result<ParseError, Error>)
        ensures
            read_as(r, on_line(parts_view(groups@))),
    {
        if groups.len() == 3 {
            match (Self::number_in(&groups[1]), &groups[2]) {
                (Some(line), Some(message)) => {
                    return Ok(ParseError::Line { line, message: message.clone() });
                },
                _ => {},
            }
        }
        Err(Error::TreeConstruction("a line that is no number".to_owned()))
    }

    /// Reads one line of the errors of a case. A line with a place that no
    /// `usize` can hold is refused.
    pub fn from_str(s: &str) -> (r: Result<ParseError, Error>)
        ensures
            read_as(r, spelled_by(s@)),
    {
        match groups(IN_BRACKETS, s) {
            Some(found) => {
                return Self::located(&found);
            },
            None => {},
        }
        match groups(IN_WORDS, s) {
            Some(found) => {
                return Self::located(&found);
            },
            None => {},
        }
        match groups(WITH_COLONS, s) {
            Some(found) => {
                return Self::located(&found);
            },
            None => {},
        }
        match groups(LINE_ONLY, s) {
            Some(found) => {
                return Self::on_line(&found);
            },
            None => {},
        }
        Ok(ParseError::Message(s.to_owned()))
    }
}

/// Whether a case is meant for a parser with scripting on, off, or for both.
#[derive(Clone, Copy, Debug, PartialEq, Eq, Structural)]
pub enum ScriptMode {
    ScriptOn,
    ScriptOff,
    Both,
}

/// A document that can write itself out in the form in which the cases
/// record the expected documents.
pub trait TestSerialization {
    fn serialize(&mut self) -> String;
}

/// One recorded case.
#[derive(Debug)]
pub struct Test {
    pub data: String,
    pub errors: Vec<ParseError>,
    pub new_errors: Vec<ParseError>,
    pub document_fragment: Option<String>,
    pub script_mode: ScriptMode,
    pub document: String,
}

/// The document that a parser built for a case, with the case.
pub struct TreeConstructionResult<'i, T> {
    pub dom: T,
    pub test: &'i Test,
}

impl<'i, S: TestSerialization> TreeConstructionResult<'i, S> {
    /// What `serialize` returns for the document, which it may change on the
    /// way, and the document that the case expects.
    pub fn run(&mut self) -> (r: (String, String))
        ensures
            r.1@ == old(self).test.document@,
            final(self).test == old(self).test,
            exists|dom: &mut S| #[trigger]
                call_ensures(S::serialize, (dom,), r.0) && mut_ref_current(dom) == old(self).dom
                    && mut_ref_future(dom) == final(self).dom,
    {
        let actual = self.dom.serialize();
        let ghost witness = choose|dom: &mut S| #[trigger]
            call_ensures(S::serialize, (dom,), actual) && mut_ref_current(dom) == old(self).dom
                && mut_ref_future(dom) == self.dom;
        let expected = self.test.document.clone();
        let r = (actual, expected);
        assert(call_ensures(S::serialize, (witness,), r.0));
        r
    }
}

impl<'i, T> TreeConstructionResult<'i, T> {
    /// The document that the case expects.
    pub fn expected(&self) -> (document: &str)
        ensures
            document@ == self.test.document@,
    {
        self.test.document.as_str()
    }
}

impl<'i, S: TestSerialization> TreeConstructionResult<'i, S> {
    /// What `serialize` returns for the document, which it may change on the way.
    pub fn actual(&mut self) -> (document: String)
        ensures
            final(self).test == old(self).test,
            exists|dom: &mut S| #[trigger]
                call_ensures(S::serialize, (dom,), document) && mut_ref_current(dom) == old(
                    self,
                ).dom && mut_ref_future(dom) == final(self).dom,
    {
        self.dom.serialize()
    }
}

impl Test {
    /// `given` is what the parser `T` may give for the text of this case:
    /// what `parse_fragment` may return for the text, the script mode and the
    /// element that the case names, or, where the case names none, what
    /// `parse_document` may return for the text and the script mode.
    pub open spec fn parsed<'i, T: Document<'i, T>>(
        &'i self,
        scripting_enabled: bool,
        given: Result<T, Error>,
    ) -> bool {
        match self.document_fragment {
            Some(context) => exists|data: &'i str, element: &'i str|
                data@ == self.data@ && element@ == context@ && #[trigger] call_ensures(
                    T::parse_fragment,
                    (data, scripting_enabled, element),
                    given,
                ),
            None => exists|data: &'i str|
                data@ == self.data@ && #[trigger] call_ensures(
                    T::parse_document,
                    (data, scripting_enabled),
                    given,
                ),
        }
    }

    /// How many times the case is to be run: once with scripting on or off,
    /// or once each way.
    pub open spec fn runs(self) -> nat {
        if self.script_mode == ScriptMode::Both {
            2
        } else {
            1
        }
    }

    /// `r` is what one run of the parser `T` over this case gives: the
    /// document that the parser may give, with the case, or the failure that
    /// it may give.
    pub open spec fn ran<'i, T: Document<'i, T>>(
        &'i self,
        scripting_enabled: bool,
        r: Result<TreeConstructionResult<'i, T>, Error>,
    ) -> bool {
        match r {
            Ok(result) => result.test == self && self.parsed::<T>(
                scripting_enabled,
                Ok(result.dom),
            ),
            Err(e) => self.parsed::<T>(scripting_enabled, Err(e)),
        }
    }

    /// Runs the parser over the case in each script mode that the case is
    /// meant for, scripting on first. The first failure of the parser is
    /// handed on.
    pub fn results<'i, T: Document<'i, T>>(&'i self) -> (r: Result<
        Vec<TreeConstructionResult<'i, T>>,
        Error,
    >)
        ensures
            r matches Ok(results) ==> results@.len() == self.runs() && forall|i: int|
                0 <= i < results@.len() ==> (#[trigger] results@[i]).test == self,
            self.script_mode == ScriptMode::ScriptOn ==> match r {
                Ok(results) => self.ran::<T>(true, Ok(results@[0])),
                Err(e) => self.ran::<T>(true, Err(e)),
            },
            self.script_mode == ScriptMode::ScriptOff ==> match r {
                Ok(results) => self.ran::<T>(false, Ok(results@[0])),
                Err(e) => self.ran::<T>(false, Err(e)),
            },
            self.script_mode == ScriptMode::Both ==> match r {
                Ok(results) => self.ran::<T>(true, Ok(results@[0])) && self.ran::<T>(
                    false,
                    Ok(results@[1]),
                ),
                Err(e) => self.ran::<T>(true, Err(e)) || (self.ran::<T>(false, Err(e))
                    && exists|on: TreeConstructionResult<'i, T>| #[trigger]
                    self.ran::<T>(true, Ok(on))),
            },
    {
        let mut results: Vec<TreeConstructionResult<'i, T>> = Vec::new();
        match self.script_mode {
            ScriptMode::ScriptOn => {
                match self.parse::<T>(true) {
                    Ok(on) => {
                        results.push(on);
                    },
                    Err(e) => {
                        return Err(e);
                    },
                }
            },
            ScriptMode::ScriptOff => {
                match self.parse::<T>(false) {
                    Ok(off) => {
                        results.push(off);
                    },
                    Err(e) => {
                        return Err(e);
                    },
                }
            },
            ScriptMode::Both => {
                match self.parse::<T>(true) {
                    Ok(on) => {
                        assert(self.ran::<T>(true, Ok(on)));
                        results.push(on);
                    },
                    Err(e) => {
                        return Err(e);
                    },
                }
                match self.parse::<T>(false) {
                    Ok(off) => {
                        results.push(off);
                    },
                    Err(e) => {
                        assert(self.ran::<T>(true, Ok(results@[0])));
                        return Err(e);
                    },
                }
            },
        }
        Ok(results)
    }

    /// What the parser gave for this case, with the case: the document, or the
    /// failure of the parser.
    pub fn with_document<'i, T>(&'i self, parsed: Result<T, Error>) -> (r: Result<
        TreeConstructionResult<'i, T>,
        Error,
    >)
        ensures
            match parsed {
                Ok(dom) => r matches Ok(result) && result.dom == dom && result.test == self,
                Err(e) => r matches Err(f) && f == e,
            },
    {
        match parsed {
            Ok(dom) => Ok(TreeConstructionResult { dom, test: self }),
            Err(e) => Err(e),
        }
    }

    /// Runs the parser over the text of the case: as a fragment inside the
    /// element that the case names, or as a whole document where it names
    /// none. A failure of the parser is handed on.
    pub fn parse<'i, T: Document<'i, T>>(&'i self, scripting_enabled: bool) -> (r: Result<
        TreeConstructionResult<'i, T>,
        Error,
    >)
        ensures
            self.ran::<T>(scripting_enabled, r),
    {
        let parsed = match &self.document_fragment {
            Some(context) => T::parse_fragment(
                self.data.as_str(),
                scripting_enabled,
                context.as_str(),
            ),
            None => T::parse_document(self.data.as_str(), scripting_enabled),
        };
        self.with_document(parsed)
    }
}

/// The cases of a file, with the place where the file was found.
pub struct Tests {
    pub path: String,
    pub tests: Vec<Test>,
}

impl Tests {
    /// The cases, in the order of the file.
    pub fn iter(&self) -> (tests: &Vec<Test>)
        ensures
            tests == &self.tests,
    {
        &self.tests
    }
}

} // verus!
