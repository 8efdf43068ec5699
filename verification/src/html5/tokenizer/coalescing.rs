//! Text is coalesced: of the results that are handed out, no two in a row
//! are character tokens.

use super::builder::BuilderView;
use super::state::{no_char, State};
use super::{room, DriverView, NextChar, ResultView, TokenView};
use vstd::prelude::*;

verus! {

/// The result is a character token.
pub open spec fn is_text(r: ResultView) -> bool {
    r matches ResultView::Emitted { token: TokenView::Character(_), .. }
}

/// No two results in a row are character tokens.
pub open spec fn no_adjacent_text(rs: Seq<ResultView>) -> bool {
    forall|i: int| 0 <= i && i + 1 < rs.len() ==> !(is_text(#[trigger] rs[i]) && is_text(rs[i + 1]))
}

/// The first result is a character token.
pub open spec fn starts_with_text(rs: Seq<ResultView>) -> bool {
    rs.len() > 0 && is_text(rs[0])
}

impl BuilderView {
    /// The results in the order in which they would be handed out: the queue,
    /// then the pending token.
    pub open spec fn timeline(self) -> Seq<ResultView> {
        match self.token {
            Some(token) => self.results.push(ResultView::Emitted { token, errors: self.errors }),
            None => self.results,
        }
    }

    /// The pending token is a character token.
    pub open spec fn text_pending(self) -> bool {
        self.token matches Some(TokenView::Character(_))
    }

    /// Every queued result holds a token.
    pub open spec fn only_tokens(self) -> bool {
        forall|i: int|
            0 <= i < self.results.len() ==> (#[trigger] self.results[i]) is Emitted
    }

    /// No two results in a row of the timeline are character tokens, and
    /// every queued result holds a token.
    #[verifier::opaque]
    pub open spec fn neat(self) -> bool {
        &&& no_adjacent_text(self.timeline())
        &&& self.only_tokens()
    }

    /// The queue does not end in a character token while nothing is pending:
    /// text that comes next has a token to join or a token of another kind
    /// before it.
    #[verifier::opaque]
    pub open spec fn sealed(self) -> bool {
        self.token is None ==> !(self.results.len() > 0 && is_text(self.results.last()))
    }

    /// The timeline starts with a character token.
    #[verifier::opaque]
    pub open spec fn head_text(self) -> bool {
        starts_with_text(self.timeline())
    }
}

/// Text that reaches pending text joins it: the pending token then holds the
/// text that it held, followed by the new text, and nothing else changes.
pub proof fn lemma_text_joins(b: BuilderView, held: Seq<char>, s: Seq<char>, c: char)
    requires
        b.token == Some(TokenView::Character(held)),
    ensures
        b.push_str(s) == (BuilderView { token: Some(TokenView::Character(held + s)), ..b }),
        b.push_char(c) == (BuilderView { token: Some(TokenView::Character(held.push(c))), ..b }),
{
    assert(held + seq![c] =~= held.push(c));
}

impl State {
    /// The states in which a tag or a doctype is being assembled.
    pub open spec fn in_markup(self) -> bool {
        self == State::TagName || self == State::BeforeAttributeName || self
            == State::AttributeName || self == State::AfterAttributeName || self
            == State::BeforeAttributeValue || self == State::AttributeValueDoubleQuoted || self
            == State::AttributeValueSingleQuoted || self == State::AttributeValueUnquoted || self
            == State::AfterAttributeValueQuoted || self == State::SelfClosingStartTag || self
            == State::DOCTYPEName || self == State::AfterDOCTYPEName
    }

    /// The states that the end of the input leads to. From them, the end of
    /// the input brings no text.
    pub open spec fn at_rest(self) -> bool {
        self == State::Eof || self == State::Data || self == State::ScriptData || self
            == State::DOCTYPE || self == State::BeforeDOCTYPEName || self.unsupported()
    }
}

proof fn lemma_neat_append(b: BuilderView, c: BuilderView, r: ResultView)
    requires
        b.neat(),
        c.timeline().len() == b.timeline().len() + 1,
        forall|i: int| 0 <= i < b.timeline().len() ==> is_text(c.timeline()[i]) == is_text(
            b.timeline()[i],
        ),
        c.timeline().last() == r,
        !(is_text(r) && b.timeline().len() > 0 && is_text(b.timeline().last())),
        c.results.len() <= b.results.len() + 1,
        forall|i: int| 0 <= i < c.results.len() ==> (#[trigger] c.results[i]) is Emitted,
    ensures
        c.neat(),
{
    reveal(BuilderView::neat);
    let s = b.timeline();
    let t = c.timeline();
    assert forall|i: int| 0 <= i && i + 1 < t.len() implies !(is_text(#[trigger] t[i]) && is_text(
        t[i + 1],
    )) by {
        if i + 1 < s.len() {
            assert(!(is_text(s[i]) && is_text(s[i + 1])));
        }
    }
}

proof fn lemma_neat_same(b: BuilderView, c: BuilderView)
    requires
        b.neat(),
        c.timeline().len() == b.timeline().len(),
        forall|i: int| 0 <= i < b.timeline().len() ==> is_text(c.timeline()[i]) == is_text(
            b.timeline()[i],
        ),
        forall|i: int| 0 <= i < c.results.len() ==> (#[trigger] c.results[i]) is Emitted,
    ensures
        c.neat(),
        c.head_text() == b.head_text(),
{
    reveal(BuilderView::neat);
    reveal(BuilderView::head_text);
    let s = b.timeline();
    let t = c.timeline();
    assert forall|i: int| 0 <= i && i + 1 < t.len() implies !(is_text(#[trigger] t[i]) && is_text(
        t[i + 1],
    )) by {
        assert(!(is_text(s[i]) && is_text(s[i + 1])));
    }
}

proof fn lemma_neat_shorter(b: BuilderView, c: BuilderView)
    requires
        b.neat(),
        c.timeline().len() <= b.timeline().len(),
        forall|i: int| 0 <= i < c.timeline().len() ==> is_text(c.timeline()[i]) == is_text(
            b.timeline()[i],
        ),
        forall|i: int| 0 <= i < c.results.len() ==> (#[trigger] c.results[i]) is Emitted,
    ensures
        c.neat(),
{
    reveal(BuilderView::neat);
    let s = b.timeline();
    let t = c.timeline();
    assert forall|i: int| 0 <= i && i + 1 < t.len() implies !(is_text(#[trigger] t[i]) && is_text(
        t[i + 1],
    )) by {
        assert(!(is_text(s[i]) && is_text(s[i + 1])));
    }
}

/// Finishing the pending token keeps the timeline; it seals the queue unless
/// the token was text.
pub broadcast proof fn lemma_neat_push_result(b: BuilderView)
    requires
        b.neat(),
    ensures
        #![trigger b.push_result().neat()]
        #![trigger b.push_result().sealed()]
        #![trigger b.push_result().head_text()]
        b.push_result().neat(),
        b.push_result().head_text() == b.head_text(),
        b.sealed() && !b.text_pending() ==> b.push_result().sealed(),
        b.finalize_attribute().neat(),
        b.finalize_attribute().head_text() == b.head_text(),
        b.sealed() ==> b.finalize_attribute().sealed(),
{
    reveal(BuilderView::neat);
    reveal(BuilderView::sealed);
    let f = b.finalize_attribute();
    assert(f.results == b.results);
    lemma_neat_same(b, f);
    let g = if b.attribute_name.len() != 0 || b.attribute_value.len() != 0 {
        f
    } else {
        b
    };
    lemma_neat_same(g, b.push_result());
}

pub broadcast proof fn lemma_neat_finalize(b: BuilderView)
    requires
        b.neat(),
    ensures
        #![trigger b.finalize_attribute().neat()]
        #![trigger b.finalize_attribute().sealed()]
        #![trigger b.finalize_attribute().head_text()]
        b.finalize_attribute().neat(),
        b.finalize_attribute().head_text() == b.head_text(),
        b.sealed() ==> b.finalize_attribute().sealed(),
{
    lemma_neat_push_result(b);
}

pub broadcast proof fn lemma_neat_emit(b: BuilderView)
    requires
        b.neat(),
    ensures
        #![trigger b.emit_token().neat()]
        #![trigger b.emit_token().sealed()]
        #![trigger b.emit_token().head_text()]
        #![trigger b.flush().neat()]
        #![trigger b.flush().sealed()]
        #![trigger b.flush().head_text()]
        b.emit_token().neat(),
        b.emit_token().head_text() == b.head_text(),
        b.sealed() && !b.text_pending() ==> b.emit_token().sealed(),
        b.flush().neat(),
        b.flush().head_text() == b.head_text(),
        b.sealed() && !b.text_pending() ==> b.flush().sealed(),
{
    reveal(BuilderView::neat);
    reveal(BuilderView::sealed);
    lemma_neat_push_result(b);
    lemma_neat_same(b.push_result(), b.emit_token());
    lemma_neat_same(b.push_result(), b.flush());

}

/// A new token joins the timeline; text needs a sealed queue.
pub broadcast proof fn lemma_neat_push_token(b: BuilderView, token: TokenView)
    requires
        b.neat(),
        token is Character ==> b.sealed(),
    ensures
        #![trigger b.push_token(token).neat()]
        #![trigger b.push_token(token).sealed()]
        #![trigger b.push_token(token).head_text()]
        b.push_token(token).neat(),
        b.push_token(token).sealed(),
        b.push_token(token).head_text() ==> b.head_text() || (b.timeline().len() == 0
            && token is Character),
{
    reveal(BuilderView::neat);
    reveal(BuilderView::sealed);
    reveal(BuilderView::head_text);
    let c = b.push_token(token);
    if b.text_pending() && token is Character {
        lemma_neat_same(b, c);
    } else {
        lemma_neat_push_result(b);
        let p = b.push_result();
        assert(p.timeline().len() == b.timeline().len());
        lemma_neat_append(p, c, c.timeline().last());
    }
}

pub broadcast proof fn lemma_neat_push_text(b: BuilderView, s: Seq<char>)
    requires
        b.neat(),
        b.sealed(),
    ensures
        #![trigger b.push_str(s).neat()]
        #![trigger b.push_str(s).sealed()]
        b.push_str(s).neat(),
        b.push_str(s).sealed(),
{
    lemma_neat_push_token(b, TokenView::Character(s));
}

pub broadcast proof fn lemma_neat_push_char(b: BuilderView, c: char)
    requires
        b.neat(),
        b.sealed(),
    ensures
        #![trigger b.push_char(c).neat()]
        #![trigger b.push_char(c).sealed()]
        b.push_char(c).neat(),
        b.push_char(c).sealed(),
{
    lemma_neat_push_token(b, TokenView::Character(seq![c]));
}

/// Going back to the newest queued result shortens the timeline and leaves
/// the queue sealed.
pub broadcast proof fn lemma_neat_rewind(b: BuilderView)
    requires
        b.neat(),
    ensures
        #![trigger b.discard_and_rewind().neat()]
        #![trigger b.discard_and_rewind().sealed()]
        b.discard_and_rewind().neat(),
        b.discard_and_rewind().sealed(),
{
    reveal(BuilderView::neat);
    reveal(BuilderView::sealed);
    let c = b.discard_and_rewind();
    if b.results.len() > 0 {
        assert(b.results.last() is Emitted);
        assert(c.timeline().len() == b.results.len());
    }
    lemma_neat_shorter(b, c);
}

pub broadcast proof fn lemma_neat_as_text(b: BuilderView)
    requires
        b.neat(),
    ensures
        #![trigger b.end_tag_as_text().neat()]
        #![trigger b.end_tag_as_text().sealed()]
        b.end_tag_as_text().neat(),
        b.end_tag_as_text().sealed(),
{
    lemma_neat_rewind(b);
    let r = b.discard_and_rewind();
    lemma_neat_push_text(r, "</"@);
    lemma_neat_push_text(r.push_str("</"@), b.buf);
}

/// Changes that leave the kinds of the queued and pending tokens alone.
pub broadcast proof fn lemma_neat_edits(b: BuilderView)
    requires
        b.neat(),
    ensures
        #![trigger b.reconsume_char().neat()]
        #![trigger b.reconsume_char().sealed()]
        #![trigger b.incorrect_doctype().neat()]
        #![trigger b.incorrect_doctype().sealed()]
        #![trigger b.self_closing().neat()]
        #![trigger b.self_closing().sealed()]
        #![trigger b.clear_buf().neat()]
        #![trigger b.clear_buf().sealed()]
        b.reconsume_char().neat(),
        b.incorrect_doctype().neat(),
        b.self_closing().neat(),
        b.clear_buf().neat(),
        b.sealed() ==> b.reconsume_char().sealed() && b.incorrect_doctype().sealed()
            && b.self_closing().sealed() && b.clear_buf().sealed(),
{
    reveal(BuilderView::neat);
    reveal(BuilderView::sealed);
    lemma_neat_same(b, b.reconsume_char());
    lemma_neat_same(b, b.incorrect_doctype());
    lemma_neat_same(b, b.self_closing());
    lemma_neat_same(b, b.clear_buf());

}

pub broadcast proof fn lemma_neat_chars(b: BuilderView, c: char)
    requires
        b.neat(),
    ensures
        #![trigger b.name_char(c).neat()]
        #![trigger b.name_char(c).sealed()]
        #![trigger b.add_to_attribute_name(c).neat()]
        #![trigger b.add_to_attribute_name(c).sealed()]
        #![trigger b.add_to_attribute_value(c).neat()]
        #![trigger b.add_to_attribute_value(c).sealed()]
        b.name_char(c).neat(),
        b.add_to_attribute_name(c).neat(),
        b.add_to_attribute_value(c).neat(),
        b.sealed() ==> b.name_char(c).sealed() && b.add_to_attribute_name(c).sealed()
            && b.add_to_attribute_value(c).sealed(),
{
    reveal(BuilderView::neat);
    reveal(BuilderView::sealed);
    lemma_neat_same(b, b.name_char(c));
    lemma_neat_same(b, b.add_to_attribute_name(c));
    lemma_neat_same(b, b.add_to_attribute_value(c));

}

pub broadcast proof fn lemma_neat_error(b: BuilderView, code: Seq<char>)
    requires
        b.neat(),
    ensures
        #![trigger b.add_error(code).neat()]
        #![trigger b.add_error(code).sealed()]
        b.add_error(code).neat(),
        b.sealed() ==> b.add_error(code).sealed(),
{
    reveal(BuilderView::neat);
    reveal(BuilderView::sealed);
    lemma_neat_same(b, b.add_error(code));

}

pub broadcast proof fn lemma_neat_signal(b: BuilderView, c: NextChar)
    requires
        b.neat(),
    ensures
        #![trigger b.push_buf(c).neat()]
        #![trigger b.push_buf(c).sealed()]
        #![trigger b.push_buf(c).head_text()]
        #![trigger b.next_char(c).neat()]
        #![trigger b.next_char(c).sealed()]
        #![trigger b.next_char(c).head_text()]
        b.push_buf(c).neat(),
        b.next_char(c).neat(),
        b.push_buf(c).head_text() == b.head_text(),
        b.next_char(c).head_text() == b.head_text(),
        b.sealed() ==> b.push_buf(c).sealed() && b.next_char(c).sealed(),
{
    reveal(BuilderView::neat);
    reveal(BuilderView::sealed);
    lemma_neat_same(b, b.push_buf(c));
    lemma_neat_same(b, b.next_char(c));

}

pub broadcast group group_neat {
    lemma_neat_push_result,
    lemma_neat_finalize,
    lemma_neat_emit,
    lemma_neat_push_token,
    lemma_neat_push_text,
    lemma_neat_push_char,
    lemma_neat_rewind,
    lemma_neat_as_text,
    lemma_neat_edits,
    lemma_neat_chars,
    lemma_neat_error,
    lemma_neat_signal,
}

/// A transition from a neat, sealed accumulator gives one again. While a tag
/// or a doctype is assembled no text is pending; a transition that emits
/// leaves nothing pending and does not ask for its character again; and the
/// end of the input leads to a state at rest, at once or after it has been
/// fed again.
pub proof fn lemma_transition_neat(s: State, c: NextChar, b: BuilderView)
    requires
        b.neat(),
        b.sealed(),
        s.in_markup() ==> !b.text_pending(),
        s.covers(c, b),
        !b.emit_token,
    ensures
        s.transition(c, b).1.neat(),
        s.transition(c, b).1.sealed(),
        s.transition(c, b).0.in_markup() ==> !s.transition(c, b).1.text_pending(),
        s.transition(c, b).1.emit_token ==> s.transition(c, b).1.token is None && s.transition(
            c,
            b,
        ).1.reconsume_char == b.reconsume_char,
        no_char(c) ==> s.transition(c, b).0.at_rest() || (s.transition(c, b).1.reconsume_char && (
        s.transition(c, b).0 == State::Data || s.transition(c, b).0 == State::ScriptData
            || s.transition(c, b).0 == State::BeforeAttributeName)),
{
    broadcast use group_neat;

    let b1 = b.push_buf(c);
    assert(b1.neat() && b1.sealed());
    match s {
        State::AfterAttributeName
        | State::AfterAttributeValueQuoted
        | State::AttributeName
        | State::AttributeValueDoubleQuoted
        | State::AttributeValueSingleQuoted
        | State::AttributeValueUnquoted
        | State::BeforeAttributeName
        | State::BeforeAttributeValue => {
            let r = s.attribute_step(c, b1);
            assert(b1.finalize_attribute().neat() && b1.finalize_attribute().sealed());
            assert(r.1.neat() && r.1.sealed());
        },
        State::MarkupDeclarationOpen
        | State::DOCTYPE
        | State::BeforeDOCTYPEName
        | State::DOCTYPEName
        | State::AfterDOCTYPEName => {
            let r = s.doctype_step(c, b1);
            assert(r.1.neat() && r.1.sealed());
        },
        State::TagOpen | State::EndTagOpen | State::TagName | State::SelfClosingStartTag => {
            let r = s.tag_step(c, b1);
            assert(r.1.neat() && r.1.sealed());
        },
        State::Eof => {},
        _ => {
            let r = s.text_step(c, b1);
            assert(b1.end_tag_as_text().neat() && b1.end_tag_as_text().sealed());
            assert(r.1.neat() && r.1.sealed());
        },
    }
}

/// From a state at rest, the end of the input leads to a state at rest and
/// brings no text to the head of the timeline.
pub proof fn lemma_transition_at_rest(s: State, c: NextChar, b: BuilderView)
    requires
        b.neat(),
        s.at_rest(),
        no_char(c),
        s.covers(c, b),
        !b.emit_token,
    ensures
        s.transition(c, b).1.neat(),
        s.transition(c, b).0.at_rest(),
        s.transition(c, b).1.head_text() ==> b.head_text(),
        s.transition(c, b).1.emit_token ==> s.transition(c, b).1.token is None,
        s.transition(c, b).1.reconsume_char == b.reconsume_char,
{
    broadcast use group_neat;

    let b1 = b.push_buf(c);
    assert(b1.neat());
    assert(b1.head_text() == b.head_text());
    let t = b1.push_token(TokenView::Eof);
    assert(t.neat());
    assert(t.head_text() ==> b1.head_text());
    assert(t.emit_token().neat());
    assert(t.emit_token().head_text() == t.head_text());
}

impl DriverView {
    /// Nothing that is still to come can bring text: the sequence has been
    /// cut short, or the input is used up and the state is at rest.
    pub open spec fn quiet(self) -> bool {
        self.halted || (self.input.len() == 0 && self.state.at_rest())
    }

    /// What holds of a driver between two signals, where `after_text` says
    /// that the result handed out last was a character token.
    pub open spec fn coherent(self, after_text: bool) -> bool {
        if self.halted {
            &&& no_adjacent_text(self.builder.results)
            &&& self.builder.token is None
            &&& after_text ==> !starts_with_text(self.builder.results)
        } else {
            &&& self.builder.neat()
            &&& self.builder.sealed() || self.quiet()
            &&& self.state.in_markup() ==> !self.builder.text_pending()
            &&& !self.builder.emit_token
            &&& !self.builder.reconsume_char
            &&& after_text ==> self.quiet() && !self.builder.head_text()
        }
    }

    /// What holds of a driver between two pulls.
    pub open spec fn settled(self, after_text: bool) -> bool {
        if self.halted {
            self.coherent(after_text)
        } else {
            &&& self.builder.neat()
            &&& self.builder.token is None
            &&& self.builder.sealed() || self.quiet()
            &&& !self.builder.emit_token
            &&& !self.builder.reconsume_char
            &&& after_text ==> !self.builder.head_text()
            &&& after_text && self.builder.results.len() == 0 ==> self.quiet()
        }
    }
}

/// Forgetting the request to feed a character again changes nothing else.
proof fn lemma_neat_served(b: BuilderView)
    requires
        b.neat(),
    ensures
        (BuilderView { reconsume_char: false, ..b }).neat(),
        (BuilderView { reconsume_char: false, ..b }).sealed() == b.sealed(),
        (BuilderView { reconsume_char: false, ..b }).head_text() == b.head_text(),
{
    reveal(BuilderView::neat);
    reveal(BuilderView::sealed);
    reveal(BuilderView::head_text);
    lemma_neat_same(b, BuilderView { reconsume_char: false, ..b });
}

proof fn lemma_halt_coherent(d: DriverView, code: Seq<char>, after_text: bool)
    requires
        d.builder.neat(),
        after_text ==> !d.builder.head_text(),
    ensures
        d.halt(code).coherent(after_text),
        d.halt(code).builder.results.len() > 0,
{
    reveal(BuilderView::neat);
    reveal(BuilderView::head_text);
    let h = d.halt(code).builder.results;
    let t = d.builder.timeline();
    assert forall|i: int| 0 <= i && i + 1 < h.len() implies !(is_text(#[trigger] h[i]) && is_text(
        h[i + 1],
    )) by {
        if i + 1 < d.builder.results.len() {
            assert(h[i] == t[i] && h[i + 1] == t[i + 1]);
        }
    }
    if d.builder.results.len() > 0 {
        assert(h[0] == t[0]);
    }
}

/// One signal keeps the driver coherent. A step that makes a result ready
/// leaves nothing pending, and the end of the input leaves the state at rest.
pub proof fn lemma_step_coherent(d: DriverView, after_text: bool)
    requires
        d.coherent(after_text),
        !d.halted,
    ensures
        d.advance().feed(d.signal()).0.coherent(after_text),
        d.advance().feed(d.signal()).1 ==> d.advance().feed(d.signal()).0.builder.token is None,
        d.signal() == NextChar::Eof ==> d.advance().feed(d.signal()).0.quiet(),
        d.advance().feed(d.signal()).0.halted ==> d.advance().feed(d.signal()).1 && d.advance().feed(
            d.signal(),
        ).0.builder.results.len() > 0,
{
    broadcast use group_neat;

    let c = d.signal();
    let a = d.advance();
    let b = d.builder;
    if !room(b, c) {
        lemma_halt_coherent(a, "position-overflow"@, after_text);
    } else {
        let b1 = b.next_char(c);
        assert(b1.neat());
        assert(b1.head_text() == b.head_text());
        if !a.state.covers(c, b1) {
            lemma_halt_coherent(
                DriverView { builder: b1, ..a },
                "unimplemented-transition"@,
                after_text,
            );
        } else if d.input.len() == 0 && d.state.at_rest() {
            lemma_transition_at_rest(a.state, c, b1);
            let (s1, b2) = a.state.transition(c, b1);
            assert(b2.flush().neat());
            assert(b2.flush().head_text() == b2.head_text());
            lemma_neat_served(b2);
        } else {
            assert(b.sealed());
            assert(b1.sealed());
            lemma_transition_neat(a.state, c, b1);
            let (s1, b2) = a.state.transition(c, b1);
            if !b2.reconsume_char {
                assert(b2.flush().neat());
                assert(b2.emit_token ==> b2.flush().sealed());
                lemma_neat_served(b2);
            } else if !s1.covers(c, b2) {
                lemma_halt_coherent(
                    DriverView { state: s1, builder: b2, ..a },
                    "unimplemented-transition"@,
                    after_text,
                );
            } else {
                lemma_transition_neat(s1, c, b2);
                let (s2, b3) = s1.transition(c, b2);
                assert(b3.flush().neat());
                assert(b3.emit_token ==> b3.flush().sealed());
                lemma_neat_served(b3);
            }
        }
    }
}

/// A coherent driver with nothing pending is settled.
proof fn lemma_coherent_settled(d: DriverView, after_text: bool)
    requires
        d.coherent(after_text),
        d.builder.token is None,
    ensures
        d.settled(after_text),
{
}

/// A last flush at the end of the input settles a coherent, quiet driver.
proof fn lemma_finish_settled(d: DriverView, after_text: bool)
    requires
        d.coherent(after_text),
        d.quiet(),
    ensures
        (DriverView { builder: d.builder.flush(), ..d }).settled(after_text) || d.halted,
{
    broadcast use group_neat;

    if !d.halted {
        assert(d.builder.flush().neat());
        assert(d.builder.flush().head_text() == d.builder.head_text());
    }
}

/// Taking the oldest result from a settled driver leaves it settled, with
/// `after_text` telling of that result; and after text no text is taken.
pub proof fn lemma_pop_settled(m: DriverView, after_text: bool)
    requires
        m.settled(after_text),
    ensures
        m.pop().1 matches Some(x) ==> m.pop().0.settled(is_text(x)) && !(after_text && is_text(x)),
        m.pop().1 is None ==> m.pop().0 == m,
{
    reveal(BuilderView::neat);
    reveal(BuilderView::sealed);
    reveal(BuilderView::head_text);
    let rs = m.builder.results;
    if rs.len() > 0 {
        let n = m.pop().0;
        let ns = n.builder.results;
        assert(ns =~= rs.drop_first());
        assert(m.builder.timeline() == rs);
        assert(n.builder.timeline() == ns);
        assert forall|i: int| 0 <= i && i + 1 < ns.len() implies !(is_text(#[trigger] ns[i])
            && is_text(ns[i + 1])) by {
            assert(ns[i] == rs[i + 1] && ns[i + 1] == rs[i + 2]);
            assert(!(is_text(rs[i + 1]) && is_text(rs[i + 2])));
        }
        if ns.len() > 0 {
            assert(ns[0] == rs[1]);
            assert(!(is_text(rs[0]) && is_text(rs[1])));
            assert(ns.last() == rs.last());
        }
        assert forall|i: int| 0 <= i < ns.len() && !m.halted implies (#[trigger] ns[i]) is Emitted by {
            assert(ns[i] == rs[i + 1]);
        }
    }
}

/// A run from a coherent driver hands out a result as a settled driver would.
pub proof fn lemma_run_settled(d: DriverView, after_text: bool)
    requires
        d.coherent(after_text),
        !d.halted,
    ensures
        d.run().1 matches Some(x) ==> d.run().0.settled(is_text(x)) && !(after_text && is_text(x)),
        d.run().1 is None ==> d.run().0.settled(after_text),
    decreases d.input.len(),
{
    lemma_step_coherent(d, after_text);
    let c = d.signal();
    let (fed, ready) = d.advance().feed(c);
    if ready && fed.builder.results.len() > 0 {
        lemma_coherent_settled(fed, after_text);
        lemma_pop_settled(fed, after_text);
    } else if c == NextChar::Eof {
        lemma_finish_settled(fed, after_text);
        lemma_pop_settled(DriverView { builder: fed.builder.flush(), ..fed }, after_text);
    } else {
        lemma_run_settled(fed, after_text);
    }
}

/// A pull leaves a settled driver settled, and after text it hands out no
/// text.
pub proof fn lemma_pull_settled(d: DriverView, after_text: bool)
    requires
        d.settled(after_text),
    ensures
        d.pull().1 matches Some(x) ==> d.pull().0.settled(is_text(x)) && !(after_text && is_text(x)),
{
    if d.builder.results.len() > 0 {
        lemma_pop_settled(d, after_text);
    } else if !d.halted {
        assert(d.builder.sealed()) by {
            reveal(BuilderView::sealed);
        }
        lemma_run_settled(d, after_text);
    }
}

/// From a settled driver on, no two results in a row are character tokens,
/// and after text the first result is none.
pub proof fn lemma_results_coalesced(d: DriverView, after_text: bool)
    requires
        d.settled(after_text),
    ensures
        no_adjacent_text(d.results()),
        after_text ==> !starts_with_text(d.results()),
    decreases d.input.len(), d.rank(), d.backlog(),
{
    let (next, r) = d.pull();
    match r {
        Some(x) => {
            super::progress::lemma_pull_progress(d);
            lemma_pull_settled(d, after_text);
            lemma_results_coalesced(next, is_text(x));
            let rest = next.results();
            let all = d.results();
            assert(all == seq![x] + rest);
            assert forall|i: int| 0 <= i && i + 1 < all.len() implies !(is_text(#[trigger] all[i])
                && is_text(all[i + 1])) by {
                if i > 0 {
                    assert(all[i] == rest[i - 1] && all[i + 1] == rest[i]);
                    assert(!(is_text(rest[i - 1]) && is_text(rest[i])));
                } else {
                    assert(all[1] == rest[0]);
                }
            }
        },
        None => {},
    }
}

/// Of the results for a text, whatever the state and the last start tag it
/// starts with, no two in a row are character tokens: text that is not parted
/// by another token comes out as one token.
pub proof fn lemma_text_is_coalesced(
    input: Seq<char>,
    state: State,
    last_start_tag: Option<Seq<char>>,
)
    ensures
        no_adjacent_text(DriverView::start(input, state, last_start_tag).results()),
{
    let d = DriverView::start(input, state, last_start_tag);
    assert(d.settled(false)) by {
        reveal(BuilderView::neat);
        reveal(BuilderView::sealed);
    }
    lemma_results_coalesced(d, false);
}

} // verus!
