//! Reading a file of tree construction cases. A file holds cases one after
//! the other; a case is made of sections, each a line that starts with `#`
//! and names the section, followed by the lines of its text; a case starts
//! with the section `#data`.

use super::{spelled_by, ParseError, ParseErrorView, ScriptMode, Test, Tests};
use crate::text::{
    chars_of, join, joined, string_of, strings_view, text_eq, trim_line_feeds,
    without_final_line_feeds,
};
use crate::types::{has_name, value_of, AttributeMap, Error};
use vstd::prelude::*;
use vstd::string::StringExecFns;

verus! {

/// How many characters stand before the first line feed of the text: all of
/// them where it holds none.
pub open spec fn first_line_feed(s: Seq<char>) -> int
    decreases s.len(),
{
    if s.len() == 0 || s[0] == '\n' {
        0
    } else {
        1 + first_line_feed(s.drop_first())
    }
}

/// The line without the carriage return at its end, if it has one.
pub open spec fn without_carriage_return(line: Seq<char>) -> Seq<char> {
    if line.len() > 0 && line.last() == '\r' {
        line.drop_last()
    } else {
        line
    }
}

/// The lines of a text. A line ends with a line feed, or with a carriage
/// return and a line feed, which are no part of it; the last line may do
/// without.
pub open spec fn lines(s: Seq<char>) -> Seq<Seq<char>>
    decreases s.len(),
{
    if s.len() == 0 {
        Seq::empty()
    } else {
        let i = first_line_feed(s);
        if 0 <= i < s.len() {
            seq![without_carriage_return(s.take(i))] + lines(s.skip(i + 1))
        } else {
            seq![s]
        }
    }
}

/// Where the first `n` characters hold no line feed and a line feed or the
/// end follows, `n` characters stand before the first line feed.
proof fn lemma_first_line_feed(s: Seq<char>, n: int)
    requires
        0 <= n <= s.len(),
        forall|k: int| 0 <= k < n ==> s[k] != '\n',
        n == s.len() || s[n] == '\n',
    ensures
        first_line_feed(s) == n,
    decreases n,
{
    if n > 0 {
        let t = s.drop_first();
        assert forall|k: int| 0 <= k < n - 1 implies t[k] != '\n' by {
            assert(t[k] == s[k + 1]);
        }
        lemma_first_line_feed(t, n - 1);
    }
}

/// Splits a text into its lines.
pub fn split_lines(s: &str) -> (out: Vec<String>)
    ensures
        strings_view(out@) == lines(s@),
{
    let chars = chars_of(s);
    let mut out: Vec<String> = Vec::new();
    let mut start: usize = 0;
    assert(chars@.skip(0) =~= chars@);
    assert(strings_view(out@) =~= Seq::<Seq<char>>::empty());
    assert(Seq::<Seq<char>>::empty() + lines(chars@) =~= lines(chars@));
    while start < chars.len()
        invariant
            start <= chars.len(),
            lines(chars@) == strings_view(out@) + lines(chars@.skip(start as int)),
        decreases chars.len() - start,
    {
        let ghost rest = chars@.skip(start as int);
        let ghost done = strings_view(out@);
        let mut end: usize = start;
        while end < chars.len() && chars[end] != '\n'
            invariant
                start <= end <= chars.len(),
                forall|k: int| start <= k < end ==> chars@[k] != '\n',
            decreases chars.len() - end,
        {
            end += 1;
        }
        proof {
            assert forall|k: int| 0 <= k < end - start implies rest[k] != '\n' by {
                assert(rest[k] == chars@[k + start]);
            }
            lemma_first_line_feed(rest, end - start);
        }
        let mut line: Vec<char> = Vec::new();
        let mut i: usize = start;
        while i < end
            invariant
                start <= i <= end <= chars.len(),
                line@ == chars@.subrange(start as int, i as int),
            decreases end - i,
        {
            line.push(chars[i]);
            assert(line@ =~= chars@.subrange(start as int, i + 1));
            i += 1;
        }
        let ghost n = end - start;
        assert(line@ =~= rest.take(n));
        if end < chars.len() {
            if line.len() > 0 && line[line.len() - 1] == '\r' {
                line.pop();
            }
            assert(line@ =~= without_carriage_return(rest.take(n)));
            out.push(string_of(&line));
            start = end + 1;
            proof {
                assert(rest.skip(n + 1) =~= chars@.skip(start as int));
                assert(strings_view(out@) =~= done.push(without_carriage_return(rest.take(n))));
                assert(done + lines(rest) =~= strings_view(out@) + lines(
                    chars@.skip(start as int),
                ));
            }
        } else {
            out.push(string_of(&line));
            start = end;
            proof {
                assert(rest.take(n) =~= rest);
                assert(chars@.skip(start as int) =~= Seq::<char>::empty());
                assert(strings_view(out@) =~= done.push(rest));
                assert(done + lines(rest) =~= strings_view(out@) + lines(
                    chars@.skip(start as int),
                ));
            }
        }
    }
    assert(lines(chars@.skip(start as int)) =~= Seq::<Seq<char>>::empty());
    assert(strings_view(out@) + Seq::<Seq<char>>::empty() =~= strings_view(out@));
    out
}

/// The sections of a case: names with their texts.
pub type Sections = Seq<(Seq<char>, Seq<char>)>;

/// The sections of each case of a list.
pub open spec fn cases_view(cases: Seq<AttributeMap>) -> Seq<Sections> {
    cases.map_values(|m: AttributeMap| m@)
}

/// What has been read of a file: the cases that are complete, the sections
/// of the case that is being read, the name of the section that is being
/// read and the text gathered since, and whether a case named a section
/// twice.
pub struct Scan {
    pub cases: Seq<Sections>,
    pub case: Sections,
    pub key: Option<Seq<char>>,
    pub text: Seq<char>,
    pub repeated: bool,
}

impl Scan {
    pub open spec fn start() -> Scan {
        Scan {
            cases: Seq::empty(),
            case: Seq::empty(),
            key: None,
            text: Seq::empty(),
            repeated: false,
        }
    }

    /// The section that is being read joins its case, with the text
    /// gathered. Text that no section has claimed stays for the next one.
    pub open spec fn close_section(self) -> Scan {
        match self.key {
            None => self,
            Some(key) => if has_name(self.case, key) {
                Scan { key: None, text: Seq::empty(), repeated: true, ..self }
            } else {
                Scan {
                    case: self.case.push((key, self.text)),
                    key: None,
                    text: Seq::empty(),
                    ..self
                }
            },
        }
    }

    /// The case that is being read joins the cases, if it has a section.
    pub open spec fn close_case(self) -> Scan {
        if self.case.len() > 0 {
            Scan { cases: self.cases.push(self.case), case: Seq::empty(), ..self }
        } else {
            self
        }
    }

    /// One more line: a line that starts with `#` closes the section before
    /// it and names the next, and `#data` closes the case before it; any
    /// other line joins the text, with a line feed.
    pub open spec fn line(self, line: Seq<char>) -> Scan {
        if line.len() > 0 && line[0] == '#' {
            let closed = self.close_section();
            let ready = if line == "#data"@ {
                closed.close_case()
            } else {
                closed
            };
            Scan { key: Some(line.skip(1)), ..ready }
        } else {
            Scan { text: self.text + line + seq!['\n'], ..self }
        }
    }

    /// The lines, one after the other.
    pub open spec fn lines(self, lines: Seq<Seq<char>>) -> Scan
        decreases lines.len(),
    {
        if lines.len() == 0 {
            self
        } else {
            self.lines(lines.drop_last()).line(lines.last())
        }
    }

    /// The end of the file closes the section and the case.
    pub open spec fn end(self) -> Scan {
        self.close_section().close_case()
    }
}

/// The cases that a list of lines holds: nothing where a case names a
/// section twice.
pub open spec fn cases_in(lines: Seq<Seq<char>>) -> Option<Seq<Sections>> {
    let scan = Scan::start().lines(lines).end();
    if scan.repeated {
        None
    } else {
        Some(scan.cases)
    }
}

/// The reader of a file of cases, line by line.
struct Reader {
    cases: Vec<AttributeMap>,
    case: AttributeMap,
    key: Option<String>,
    text: String,
    repeated: bool,
}

impl View for Reader {
    type V = Scan;

    closed spec fn view(&self) -> Scan {
        Scan {
            cases: cases_view(self.cases@),
            case: self.case@,
            key: crate::html5::tokenizer::text_view(self.key),
            text: self.text@,
            repeated: self.repeated,
        }
    }
}

impl Reader {
    fn new() -> (r: Reader)
        ensures
            r@ == Scan::start(),
    {
        let r = Reader {
            cases: Vec::new(),
            case: AttributeMap::new(),
            key: None,
            text: String::new(),
            repeated: false,
        };
        assert(cases_view(r.cases@) =~= Seq::<Sections>::empty());
        r
    }

    fn close_section(&mut self)
        ensures
            final(self)@ == old(self)@.close_section(),
    {
        let key = self.key.take();
        match key {
            None => {},
            Some(key) => {
                let mut text = String::new();
                std::mem::swap(&mut self.text, &mut text);
                let added = self.case.insert(key, text);
                if !added {
                    self.repeated = true;
                }
            },
        }
    }

    fn close_case(&mut self)
        ensures
            final(self)@ == old(self)@.close_case(),
    {
        if self.case.len() > 0 {
            let mut case = AttributeMap::new();
            std::mem::swap(&mut self.case, &mut case);
            self.cases.push(case);
            assert(cases_view(self.cases@) =~= old(self)@.close_case().cases);
        }
    }

    fn line(&mut self, line: &str)
        ensures
            final(self)@ == old(self)@.line(line@),
    {
        let chars = chars_of(line);
        if chars.len() > 0 && chars[0] == '#' {
            self.close_section();
            if text_eq(line, "#data") {
                self.close_case();
            }
            let mut rest: Vec<char> = Vec::new();
            let mut i: usize = 1;
            while i < chars.len()
                invariant
                    1 <= i <= chars.len(),
                    rest@ == chars@.subrange(1, i as int),
                decreases chars.len() - i,
            {
                rest.push(chars[i]);
                assert(rest@ =~= chars@.subrange(1, i + 1));
                i += 1;
            }
            assert(rest@ =~= line@.skip(1));
            self.key = Some(string_of(&rest));
        } else {
            self.text.append(line);
            self.text.push('\n');
            assert(self.text@ =~= old(self).text@ + line@ + seq!['\n']);
        }
    }
}

/// Gathers the cases that a list of lines holds, each as its sections. A
/// case that names a section twice is refused.
pub fn parse_sections(lines: &Vec<String>) -> (r: Result<Vec<AttributeMap>, Error>)
    ensures
        match cases_in(strings_view(lines@)) {
            Some(cases) => r matches Ok(found) && cases_view(found@) == cases,
            None => r matches Err(Error::TreeConstruction(_)),
        },
{
    let mut reader = Reader::new();
    let ghost all = strings_view(lines@);
    let mut i: usize = 0;
    while i < lines.len()
        invariant
            i <= lines.len(),
            all == strings_view(lines@),
            reader@ == Scan::start().lines(all.take(i as int)),
        decreases lines.len() - i,
    {
        proof {
            assert(all.take(i + 1).drop_last() =~= all.take(i as int));
            assert(all.take(i + 1).last() == lines@[i as int]@);
        }
        reader.line(lines[i].as_str());
        i += 1;
    }
    assert(all.take(i as int) =~= all);
    reader.close_section();
    reader.close_case();
    if reader.repeated {
        Err(Error::TreeConstruction("a section named twice".to_owned()))
    } else {
        Ok(reader.cases)
    }
}

/// Reads the cases of a file, each as its sections.
pub fn parse_tests(s: &str) -> (r: Result<Vec<AttributeMap>, Error>)
    ensures
        match cases_in(lines(s@)) {
            Some(cases) => r matches Ok(found) && cases_view(found@) == cases,
            None => r matches Err(Error::TreeConstruction(_)),
        },
{
    let rows = split_lines(s);
    parse_sections(&rows)
}

/// The errors of a list, in order.
pub open spec fn parse_errors_view(errors: Seq<ParseError>) -> Seq<ParseErrorView> {
    errors.map_values(|e: ParseError| e@)
}

/// The errors that the lines spell: nothing where one of them spells none.
pub open spec fn all_spelled(lines: Seq<Seq<char>>) -> Option<Seq<ParseErrorView>>
    decreases lines.len(),
{
    if lines.len() == 0 {
        Some(Seq::empty())
    } else {
        match (all_spelled(lines.drop_last()), spelled_by(lines.last())) {
            (Some(errors), Some(error)) => Some(errors.push(error)),
            _ => None,
        }
    }
}

/// Where a line spells no error, the lines up to any later line spell none.
proof fn lemma_all_spelled_fails(lines: Seq<Seq<char>>, k: int)
    requires
        0 <= k <= lines.len(),
        all_spelled(lines.take(k)) is None,
    ensures
        all_spelled(lines) is None,
    decreases lines.len() - k,
{
    if k < lines.len() {
        assert(lines.take(k + 1).drop_last() =~= lines.take(k));
        lemma_all_spelled_fails(lines, k + 1);
    } else {
        assert(lines.take(k) =~= lines);
    }
}

/// Reads the errors of a case, one to a line.
pub fn parse_errors(s: &str) -> (r: Result<Vec<ParseError>, Error>)
    ensures
        match all_spelled(lines(s@)) {
            Some(errors) => r matches Ok(found) && parse_errors_view(found@) == errors,
            None => r matches Err(Error::TreeConstruction(_)),
        },
{
    let rows = split_lines(s);
    let ghost all = strings_view(rows@);
    let mut errors: Vec<ParseError> = Vec::new();
    let mut i: usize = 0;
    assert(parse_errors_view(errors@) =~= Seq::<ParseErrorView>::empty());
    while i < rows.len()
        invariant
            i <= rows.len(),
            all == strings_view(rows@),
            all == lines(s@),
            all_spelled(all.take(i as int)) == Some(parse_errors_view(errors@)),
        decreases rows.len() - i,
    {
        proof {
            assert(all.take(i + 1).drop_last() =~= all.take(i as int));
            assert(all.take(i + 1).last() == rows@[i as int]@);
        }
        let ghost before = parse_errors_view(errors@);
        match ParseError::from_str(rows[i].as_str()) {
            Ok(error) => {
                errors.push(error);
                assert(parse_errors_view(errors@) =~= before.push(error@));
            },
            Err(_) => {
                proof {
                    assert(spelled_by(rows@[i as int]@) is None);
                    assert(all_spelled(all.take(i + 1)) is None);
                    lemma_all_spelled_fails(all, i + 1);
                }
                return Err(Error::TreeConstruction("an error that cannot be read".to_owned()));
            },
        }
        i += 1;
    }
    assert(all.take(i as int) =~= all);
    Ok(errors)
}

/// What a `Test` says.
pub struct TestView {
    pub data: Seq<char>,
    pub errors: Seq<ParseErrorView>,
    pub new_errors: Seq<ParseErrorView>,
    pub document_fragment: Option<Seq<char>>,
    pub script_mode: ScriptMode,
    pub document: Seq<char>,
}

impl View for Test {
    type V = TestView;

    open spec fn view(&self) -> TestView {
        TestView {
            data: self.data@,
            errors: parse_errors_view(self.errors@),
            new_errors: parse_errors_view(self.new_errors@),
            document_fragment: crate::html5::tokenizer::text_view(self.document_fragment),
            script_mode: self.script_mode,
            document: self.document@,
        }
    }
}

/// The errors that an optional section spells: none where the section is
/// missing.
pub open spec fn errors_in(section: Option<Seq<char>>) -> Option<Seq<ParseErrorView>> {
    match section {
        Some(text) => all_spelled(lines(text)),
        None => Some(Seq::empty()),
    }
}

/// The script mode that the sections ask for.
pub open spec fn script_mode_of(sections: Sections) -> ScriptMode {
    if has_name(sections, "script-on"@) {
        ScriptMode::ScriptOn
    } else if has_name(sections, "script-off"@) {
        ScriptMode::ScriptOff
    } else {
        ScriptMode::Both
    }
}

/// The text without its final line feeds, if there is a text.
pub open spec fn trimmed(section: Option<Seq<char>>) -> Option<Seq<char>> {
    match section {
        Some(text) => Some(without_final_line_feeds(text)),
        None => None,
    }
}

/// The case that the sections make: nothing where `data` or `document` is
/// missing, or where an error cannot be read.
pub open spec fn made(sections: Sections) -> Option<TestView> {
    match (
        value_of(sections, "data"@),
        value_of(sections, "document"@),
        errors_in(value_of(sections, "errors"@)),
        errors_in(value_of(sections, "new-errors"@)),
    ) {
        (Some(data), Some(document), Some(errors), Some(new_errors)) => Some(
            TestView {
                data: joined(lines(data), "\n"@),
                errors,
                new_errors,
                document_fragment: trimmed(value_of(sections, "document-fragment"@)),
                script_mode: script_mode_of(sections),
                document: without_final_line_feeds(document),
            },
        ),
        _ => None,
    }
}

/// Reads the errors of an optional section.
fn section_errors(section: Option<&String>) -> (r: Result<Vec<ParseError>, Error>)
    ensures
        match errors_in(
            match section {
                Some(text) => Some(text@),
                None => None,
            },
        ) {
            Some(errors) => r matches Ok(found) && parse_errors_view(found@) == errors,
            None => r matches Err(Error::TreeConstruction(_)),
        },
{
    match section {
        Some(text) => parse_errors(text.as_str()),
        None => {
            let none: Vec<ParseError> = Vec::new();
            assert(parse_errors_view(none@) =~= Seq::<ParseErrorView>::empty());
            Ok(none)
        },
    }
}

/// Makes a case of its sections.
pub fn make_test(test: &AttributeMap) -> (r: Result<Test, Error>)
    ensures
        match made(test@) {
            Some(case) => r matches Ok(found) && found@ == case,
            None => r matches Err(Error::TreeConstruction(_)),
        },
{
    let data = match test.get(&"data".to_owned()) {
        Some(data) => join(&split_lines(data.as_str()), "\n"),
        None => {
            return Err(Error::TreeConstruction("a case without data".to_owned()));
        },
    };
    let document = match test.get(&"document".to_owned()) {
        Some(document) => trim_line_feeds(document.as_str()),
        None => {
            return Err(Error::TreeConstruction("a case without a document".to_owned()));
        },
    };
    let errors = match section_errors(test.get(&"errors".to_owned())) {
        Ok(errors) => errors,
        Err(e) => {
            return Err(e);
        },
    };
    let new_errors = match section_errors(test.get(&"new-errors".to_owned())) {
        Ok(errors) => errors,
        Err(e) => {
            return Err(e);
        },
    };
    let script_mode = if test.contains_key(&"script-on".to_owned()) {
        ScriptMode::ScriptOn
    } else if test.contains_key(&"script-off".to_owned()) {
        ScriptMode::ScriptOff
    } else {
        ScriptMode::Both
    };
    let document_fragment = match test.get(&"document-fragment".to_owned()) {
        Some(fragment) => Some(trim_line_feeds(fragment.as_str())),
        None => None,
    };
    Ok(Test { data, errors, new_errors, script_mode, document_fragment, document })
}

/// The cases of a list, in order.
pub open spec fn tests_view(tests: Seq<Test>) -> Seq<TestView> {
    tests.map_values(|t: Test| t@)
}

/// The cases that the lists of sections make: nothing where one of them
/// makes none.
pub open spec fn all_made(cases: Seq<Sections>) -> Option<Seq<TestView>>
    decreases cases.len(),
{
    if cases.len() == 0 {
        Some(Seq::empty())
    } else {
        match (all_made(cases.drop_last()), made(cases.last())) {
            (Some(tests), Some(test)) => Some(tests.push(test)),
            _ => None,
        }
    }
}

/// Where some lists of sections make no cases, no longer list of them does.
proof fn lemma_all_made_fails(cases: Seq<Sections>, k: int)
    requires
        0 <= k <= cases.len(),
        all_made(cases.take(k)) is None,
    ensures
        all_made(cases) is None,
    decreases cases.len() - k,
{
    if k < cases.len() {
        assert(cases.take(k + 1).drop_last() =~= cases.take(k));
        lemma_all_made_fails(cases, k + 1);
    } else {
        assert(cases.take(k) =~= cases);
    }
}

/// The cases that a text holds.
pub open spec fn tests_in(text: Seq<char>) -> Option<Seq<TestView>> {
    match cases_in(lines(text)) {
        Some(cases) => all_made(cases),
        None => None,
    }
}

/// Reads the cases of a file from its text. `path` is where the file was
/// found.
pub fn fixture_from_text(path: &str, text: &str) -> (r: Result<Tests, Error>)
    ensures
        match tests_in(text@) {
            Some(tests) => r matches Ok(found) && found.path@ == path@ && tests_view(found.tests@)
                == tests,
            None => r matches Err(Error::TreeConstruction(_)),
        },
{
    let cases = match parse_tests(text) {
        Ok(cases) => cases,
        Err(e) => {
            return Err(e);
        },
    };
    let ghost all = cases_view(cases@);
    let mut tests: Vec<Test> = Vec::new();
    let mut i: usize = 0;
    assert(tests_view(tests@) =~= Seq::<TestView>::empty());
    while i < cases.len()
        invariant
            i <= cases.len(),
            all == cases_view(cases@),
            tests_in(text@) == all_made(all),
            all_made(all.take(i as int)) == Some(tests_view(tests@)),
        decreases cases.len() - i,
    {
        proof {
            assert(all.take(i + 1).drop_last() =~= all.take(i as int));
            assert(all.take(i + 1).last() == cases@[i as int]@);
        }
        let ghost before = tests_view(tests@);
        match make_test(&cases[i]) {
            Ok(test) => {
                tests.push(test);
                assert(tests_view(tests@) =~= before.push(test@));
            },
            Err(e) => {
                proof {
                    assert(all_made(all.take(i + 1)) is None);
                    lemma_all_made_fails(all, i + 1);
                }
                return Err(e);
            },
        }
        i += 1;
    }
    assert(all.take(i as int) =~= all);
    Ok(Tests { path: path.to_owned(), tests })
}

} // verus!
