//! Recorded tokenizer cases: a text, the states to start in, and the tokens
//! and errors that are expected of it.

use crate::html5::tokenizer::{
    results_view, text_view, DriverView, ResultView, StartTag, State, Token, TokenError,
    TokenResult, TokenView, Tokenizer,
};
use crate::text::text_eq;
use crate::types::{same_attributes, with_attribute, AttributeMap, Error};
use vstd::prelude::*;

verus! {

/// What the tokenizer gave for one case.
pub struct TestResult {
    pub output: Vec<TokenResult>,
}

/// One recorded case.
#[derive(Debug)]
pub struct JsonTest {
    pub description: String,
    pub errors: Vec<TokenError>,
    pub initial_states: Vec<State>,
    pub input: String,
    pub last_start_tag: Option<String>,
    pub output: Vec<Token>,
    pub double_escaped: Option<bool>,
}

/// The tokens of a list, in order.
pub open spec fn tokens_view(tokens: Seq<Token>) -> Seq<TokenView> {
    tokens.map_values(|t: Token| t@)
}

/// The two tokens are the same, a start tag's attributes taken as names with
/// values, in whatever order.
pub open spec fn same_token(a: TokenView, b: TokenView) -> bool {
    match (a, b) {
        (TokenView::StartTag(x), TokenView::StartTag(y)) => x.name == y.name && x.self_closing
            == y.self_closing && same_attributes(x.attributes, y.attributes),
        (TokenView::StartTag(_), _) => false,
        (_, TokenView::StartTag(_)) => false,
        _ => a == b,
    }
}

/// Each result that holds a token holds the expected token of its place.
/// Results without a place among the expected tokens, and expected tokens
/// without a result, are passed over.
pub open spec fn agrees(expected: Seq<TokenView>, actual: Seq<ResultView>) -> bool {
    forall|i: int|
        0 <= i < expected.len() && i < actual.len() ==> match #[trigger] actual[i] {
            ResultView::Emitted { token, .. } => same_token(expected[i], token),
            ResultView::Errors(_) => true,
        }
}

/// Whether two optional texts are the same.
fn same_text(a: &Option<String>, b: &Option<String>) -> (r: bool)
    ensures
        r == (text_view(*a) == text_view(*b)),
{
    match (a, b) {
        (Some(x), Some(y)) => *x == *y,
        (None, None) => true,
        _ => false,
    }
}

/// Whether two tokens are the same, a start tag's attributes taken as names
/// with values.
pub fn tokens_match(a: &Token, b: &Token) -> (r: bool)
    ensures
        r == same_token(a@, b@),
{
    match (a, b) {
        (Token::Character(x), Token::Character(y)) => *x == *y,
        (Token::Comment(x), Token::Comment(y)) => *x == *y,
        (Token::EndTag(x), Token::EndTag(y)) => *x == *y,
        (Token::Eof, Token::Eof) => true,
        (
            Token::Doctype { name, public_id, system_id, correctness },
            Token::Doctype {
                name: other_name,
                public_id: other_public_id,
                system_id: other_system_id,
                correctness: other_correctness,
            },
        ) => same_text(name, other_name) && same_text(public_id, other_public_id) && same_text(
            system_id,
            other_system_id,
        ) && *correctness == *other_correctness,
        (Token::StartTag(x), Token::StartTag(y)) => x.name == y.name && x.self_closing
            == y.self_closing && x.attributes.same_as(&y.attributes),
        _ => false,
    }
}

impl JsonTest {
    /// The states to start in: those that the case names, or `Data` where it
    /// names none.
    pub open spec fn states(self) -> Seq<State> {
        if self.initial_states@.len() == 0 {
            seq![State::Data]
        } else {
            self.initial_states@
        }
    }

    /// The results that the tokenizer gives for this case from `state`.
    pub open spec fn results_from(self, state: State) -> Seq<ResultView> {
        DriverView::start(self.input@, state, text_view(self.last_start_tag)).results()
    }

    /// The case holds from every state that it is to be started in.
    pub open spec fn holds(self) -> bool {
        forall|i: int|
            0 <= i < self.states().len() ==> agrees(
                tokens_view(self.output@),
                #[trigger] self.results_from(self.states()[i]),
            )
    }

    /// Runs the tokenizer over the input of the case, from `initial_state`, to
    /// its end.
    pub fn pump_tokenizer(&self, initial_state: State) -> (r: Result<TestResult, Error>)
        ensures
            r matches Ok(t) && results_view(t.output@) == self.results_from(initial_state),
    {
        let last_start_tag = match &self.last_start_tag {
            Some(name) => Some(StartTag::from(name)),
            None => None,
        };
        let tokenizer = Tokenizer::from_str(self.input.as_str(), initial_state, last_start_tag);
        let output = tokenizer.iter().collect();
        Ok(TestResult { output })
    }

    /// Whether the tokenizer gives the expected tokens from every state that
    /// the case is to be started in.
    pub fn assert_valid(&self) -> (valid: bool)
        ensures
            valid == self.holds(),
    {
        let states = self.initial_states();
        let mut s: usize = 0;
        while s < states.len()
            invariant
                s <= states.len(),
                states@ == self.states(),
                forall|i: int|
                    0 <= i < s ==> agrees(
                        tokens_view(self.output@),
                        #[trigger] self.results_from(self.states()[i]),
                    ),
            decreases states.len() - s,
        {
            let output = match self.pump_tokenizer(states[s]) {
                Ok(result) => result.output,
                Err(_) => {
                    return false;
                },
            };
            let ghost actual = self.results_from(states[s as int]);
            let ghost expected = tokens_view(self.output@);
            let mut i: usize = 0;
            while i < self.output.len() && i < output.len()
                invariant
                    i <= self.output.len(),
                    i <= output.len(),
                    actual == results_view(output@),
                    expected == tokens_view(self.output@),
                    0 <= s < self.states().len(),
                    actual == self.results_from(self.states()[s as int]),
                    forall|k: int|
                        0 <= k < i ==> match #[trigger] actual[k] {
                            ResultView::Emitted { token, .. } => same_token(expected[k], token),
                            ResultView::Errors(_) => true,
                        },
                decreases self.output.len() - i,
            {
                let same = match &output[i] {
                    TokenResult::Emitted { token, .. } => tokens_match(&self.output[i], token),
                    TokenResult::Errors(_) => true,
                };
                if !same {
                    assert(!agrees(expected, actual)) by {
                        let k = i as int;
                        assert(actual[k] == output@[k]@);
                    }
                    assert(!self.holds());
                    return false;
                }
                i += 1;
            }
            s += 1;
        }
        true
    }

    /// The states to start in: those that the case names, or `Data` where it
    /// names none.
    pub fn initial_states(&self) -> (states: Vec<State>)
        ensures
            states@ == self.states(),
    {
        let mut states: Vec<State> = Vec::new();
        if self.initial_states.len() == 0 {
            states.push(State::Data);
            assert(states@ =~= seq![State::Data]);
            return states;
        }
        let mut i: usize = 0;
        while i < self.initial_states.len()
            invariant
                i <= self.initial_states.len(),
                states@ == self.initial_states@.take(i as int),
            decreases self.initial_states.len() - i,
        {
            states.push(self.initial_states[i]);
            assert(states@ =~= self.initial_states@.take(i + 1));
            i += 1;
        }
        assert(self.initial_states@.take(i as int) =~= self.initial_states@);
        states
    }
}

/// The cases of a file of cases that may break the rules of XML.
#[derive(Debug)]
pub struct XmlValidationFixtures {
    pub tests: Vec<JsonTest>,
}

/// The cases of a file.
#[derive(Debug)]
pub struct JsonFixtures {
    pub tests: Vec<JsonTest>,
}

/// A file of cases, of one of the two kinds.
#[derive(Debug)]
pub enum FixtureFile {
    JsonFixtures(JsonFixtures),
    XmlFixtures(XmlValidationFixtures),
}

/// A file of cases with the place where it was found.
pub struct Tests {
    pub path: String,
    pub fixtures: FixtureFile,
}

/// The state that a file of cases means by a name.
pub open spec fn state_named(name: Seq<char>) -> Option<State> {
    if name == "CDATA section state"@ {
        Some(State::CDATASection)
    } else if name == "Data state"@ {
        Some(State::Data)
    } else if name == "PLAINTEXT state"@ {
        Some(State::PLAINTEXT)
    } else if name == "RAWTEXT state"@ {
        Some(State::RAWTEXT)
    } else if name == "RCDATA state"@ {
        Some(State::RCDATA)
    } else if name == "Script data state"@ {
        Some(State::ScriptData)
    } else {
        None
    }
}

/// The state that a file of cases means by a name: one of the six states
/// that a case can start in.
pub fn initial_state_named(name: &str) -> (state: Option<State>)
    ensures
        state == state_named(name@),
{
    if text_eq(name, "CDATA section state") {
        Some(State::CDATASection)
    } else if text_eq(name, "Data state") {
        Some(State::Data)
    } else if text_eq(name, "PLAINTEXT state") {
        Some(State::PLAINTEXT)
    } else if text_eq(name, "RAWTEXT state") {
        Some(State::RAWTEXT)
    } else if text_eq(name, "RCDATA state") {
        Some(State::RCDATA)
    } else if text_eq(name, "Script data state") {
        Some(State::ScriptData)
    } else {
        None
    }
}

/// A value of a member of a recorded object.
#[derive(Debug)]
pub enum Scalar {
    Null,
    Text(String),
    Other,
}

/// A member of a recorded object.
#[derive(Debug)]
pub struct Member {
    pub name: String,
    pub value: Scalar,
}

/// One value of the list that records a token.
#[derive(Debug)]
pub enum Field {
    Null,
    Flag(bool),
    Text(String),
    Object(Vec<Member>),
    Other,
}

/// What a `Scalar` says.
pub enum ScalarView {
    Null,
    Text(Seq<char>),
    Other,
}

impl View for Scalar {
    type V = ScalarView;

    open spec fn view(&self) -> ScalarView {
        match *self {
            Scalar::Null => ScalarView::Null,
            Scalar::Text(text) => ScalarView::Text(text@),
            Scalar::Other => ScalarView::Other,
        }
    }
}

impl View for Member {
    type V = (Seq<char>, ScalarView);

    open spec fn view(&self) -> (Seq<char>, ScalarView) {
        (self.name@, self.value@)
    }
}

/// The members of a list, in order.
pub open spec fn members_view(members: Seq<Member>) -> Seq<(Seq<char>, ScalarView)> {
    members.map_values(|m: Member| m@)
}

/// What a `Field` says.
pub enum FieldView {
    Null,
    Flag(bool),
    Text(Seq<char>),
    Object(Seq<(Seq<char>, ScalarView)>),
    Other,
}

impl View for Field {
    type V = FieldView;

    open spec fn view(&self) -> FieldView {
        match *self {
            Field::Null => FieldView::Null,
            Field::Flag(flag) => FieldView::Flag(flag),
            Field::Text(text) => FieldView::Text(text@),
            Field::Object(members) => FieldView::Object(members_view(members@)),
            Field::Other => FieldView::Other,
        }
    }
}

/// The fields of a list, in order.
pub open spec fn fields_view(fields: Seq<Field>) -> Seq<FieldView> {
    fields.map_values(|f: Field| f@)
}

/// The text of a field that is a text.
pub open spec fn as_text(field: FieldView) -> Option<Seq<char>> {
    match field {
        FieldView::Text(text) => Some(text),
        _ => None,
    }
}

/// The flag of a field, false where the field is no flag.
pub open spec fn as_flag(field: FieldView) -> bool {
    match field {
        FieldView::Flag(flag) => flag,
        _ => false,
    }
}

/// The attributes that the members of an object record: each member with a
/// text, in order, the first of a name; nothing where a member is neither a
/// text nor null.
pub open spec fn recorded_attributes(members: Seq<(Seq<char>, ScalarView)>) -> Option<
    Seq<(Seq<char>, Seq<char>)>,
>
    decreases members.len(),
{
    if members.len() == 0 {
        Some(Seq::empty())
    } else {
        match recorded_attributes(members.drop_last()) {
            Some(before) => match members.last().1 {
                ScalarView::Null => Some(before),
                ScalarView::Text(value) => Some(with_attribute(before, members.last().0, value)),
                ScalarView::Other => None,
            },
            None => None,
        }
    }
}

/// The attributes that a field records: nothing where it is no object.
pub open spec fn as_attributes(field: FieldView) -> Option<Seq<(Seq<char>, Seq<char>)>> {
    match field {
        FieldView::Object(members) => recorded_attributes(members),
        _ => None,
    }
}

/// The start tag that a name and an object record, self-closing or not.
pub open spec fn recorded_start_tag(
    name: FieldView,
    attributes: FieldView,
    self_closing: bool,
) -> Option<TokenView> {
    match (as_text(name), as_attributes(attributes)) {
        (Some(name), Some(attributes)) => Some(
            TokenView::StartTag(
                crate::html5::tokenizer::StartTagView { name, attributes, self_closing },
            ),
        ),
        _ => None,
    }
}

/// The token that a list of fields records: the first field names the kind,
/// and the kind and the length of the list decide what the others mean. A
/// start tag has a name and attributes, and may have a flag that says that it
/// closes itself.
/// Nothing where the list records no token.
pub open spec fn recorded_token(fields: Seq<FieldView>) -> Option<TokenView> {
    if fields.len() == 0 {
        None
    } else {
        match as_text(fields[0]) {
            None => None,
            Some(kind) => if fields.len() == 2 {
                match as_text(fields[1]) {
                    None => None,
                    Some(text) => if kind == "Character"@ {
                        Some(TokenView::Character(text))
                    } else if kind == "Comment"@ {
                        Some(TokenView::Comment(text))
                    } else if kind == "EndTag"@ {
                        Some(TokenView::EndTag(text))
                    } else {
                        None
                    },
                }
            } else if fields.len() == 3 {
                if kind == "StartTag"@ {
                    recorded_start_tag(fields[1], fields[2], false)
                } else {
                    None
                }
            } else if fields.len() == 4 {
                if kind == "StartTag"@ {
                    recorded_start_tag(fields[1], fields[2], as_flag(fields[3]))
                } else {
                    None
                }
            } else if fields.len() == 5 {
                if kind == "DOCTYPE"@ {
                    Some(
                        TokenView::Doctype {
                            name: as_text(fields[1]),
                            public_id: as_text(fields[2]),
                            system_id: as_text(fields[3]),
                            correctness: as_flag(fields[4]),
                        },
                    )
                } else {
                    None
                }
            } else {
                None
            },
        }
    }
}

/// The text of a field that is a text.
fn field_text(field: &Field) -> (r: Option<String>)
    ensures
        text_view(r) == as_text(field@),
{
    match field {
        Field::Text(text) => Some(text.clone()),
        _ => None,
    }
}

/// The attributes that a field records.
fn field_attributes(field: &Field) -> (r: Option<AttributeMap>)
    ensures
        match as_attributes(field@) {
            Some(attributes) => r matches Some(found) && found@ == attributes,
            None => r is None,
        },
{
    let members = match field {
        Field::Object(members) => members,
        _ => {
            return None;
        },
    };
    let ghost all = members_view(members@);
    let mut attributes = AttributeMap::new();
    let mut i: usize = 0;
    while i < members.len()
        invariant
            i <= members.len(),
            all == members_view(members@),
            as_attributes(field@) == recorded_attributes(all),
            recorded_attributes(all.take(i as int)) == Some(attributes@),
        decreases members.len() - i,
    {
        proof {
            assert(all.take(i + 1).drop_last() =~= all.take(i as int));
            assert(all.take(i + 1).last() == members@[i as int]@);
        }
        match &members[i].value {
            Scalar::Null => {},
            Scalar::Text(value) => {
                attributes.insert(members[i].name.clone(), value.clone());
            },
            Scalar::Other => {
                proof {
                    assert(all.take(i + 1).last().1 is Other);
                    assert(recorded_attributes(all.take(i + 1)) is None);
                    lemma_recorded_attributes_fail(all, i + 1);
                }
                return None;
            },
        }
        i += 1;
    }
    assert(all.take(i as int) =~= all);
    Some(attributes)
}

/// Where some members record no attributes, no longer list of them does.
proof fn lemma_recorded_attributes_fail(members: Seq<(Seq<char>, ScalarView)>, k: int)
    requires
        0 <= k <= members.len(),
        recorded_attributes(members.take(k)) is None,
    ensures
        recorded_attributes(members) is None,
    decreases members.len() - k,
{
    if k < members.len() {
        assert(members.take(k + 1).drop_last() =~= members.take(k));
        lemma_recorded_attributes_fail(members, k + 1);
    } else {
        assert(members.take(k) =~= members);
    }
}

/// Reads the token that a list of fields records. A list that records none
/// is refused.
pub fn token_from_fields(fields: &Vec<Field>) -> (r: Result<Token, Error>)
    ensures
        match recorded_token(fields_view(fields@)) {
            Some(token) => r matches Ok(found) && found@ == token,
            None => r matches Err(Error::Json(_)),
        },
{
    if fields.len() == 0 {
        return Err(Error::Json("a token without a kind".to_owned()));
    }
    let kind = match field_text(&fields[0]) {
        Some(kind) => kind,
        None => {
            return Err(Error::Json("a kind that is no text".to_owned()));
        },
    };
    if fields.len() == 2 {
        let text = match field_text(&fields[1]) {
            Some(text) => text,
            None => {
                return Err(Error::Json("a token whose text is no text".to_owned()));
            },
        };
        if text_eq(kind.as_str(), "Character") {
            Ok(Token::Character(text))
        } else if text_eq(kind.as_str(), "Comment") {
            Ok(Token::Comment(text))
        } else if text_eq(kind.as_str(), "EndTag") {
            Ok(Token::EndTag(text))
        } else {
            Err(Error::Json("expected Character, Comment or EndTag".to_owned()))
        }
    } else if fields.len() == 3 || fields.len() == 4 {
        if !text_eq(kind.as_str(), "StartTag") {
            return Err(Error::Json("expected StartTag".to_owned()));
        }
        let self_closing = if fields.len() == 4 {
            match &fields[3] {
                Field::Flag(flag) => *flag,
                _ => false,
            }
        } else {
            false
        };
        match (field_text(&fields[1]), field_attributes(&fields[2])) {
            (Some(name), Some(attributes)) => Ok(
                Token::StartTag(StartTag { name, attributes, self_closing }),
            ),
            _ => Err(Error::Json("a start tag that cannot be read".to_owned())),
        }
    } else if fields.len() == 5 {
        if !text_eq(kind.as_str(), "DOCTYPE") {
            return Err(Error::Json("expected DOCTYPE".to_owned()));
        }
        let correctness = match &fields[4] {
            Field::Flag(flag) => *flag,
            _ => false,
        };
        Ok(
            Token::Doctype {
                name: field_text(&fields[1]),
                public_id: field_text(&fields[2]),
                system_id: field_text(&fields[3]),
                correctness,
            },
        )
    } else {
        Err(Error::Json("expected a list of 2, 3, 4 or 5 values".to_owned()))
    }
}

} // verus!
