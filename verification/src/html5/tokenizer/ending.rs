//! The sequence ends once: from any state but the end state, the results for
//! a text end with the end token or with errors alone, and neither comes
//! before the last result.

use super::builder::BuilderView;
use super::state::{no_char, State};
use super::{room, DriverView, NextChar, ResultView, TokenView};
use vstd::prelude::*;

verus! {

/// The result is the end token.
pub open spec fn is_eof(r: ResultView) -> bool {
    r matches ResultView::Emitted { token: TokenView::Eof, .. }
}

/// The result ends a sequence: it is the end token, or errors alone.
pub open spec fn is_end(r: ResultView) -> bool {
    r is Errors || is_eof(r)
}

/// No result of the list ends a sequence.
pub open spec fn no_end(rs: Seq<ResultView>) -> bool {
    forall|i: int| 0 <= i < rs.len() ==> !is_end(#[trigger] rs[i])
}

/// The last result ends the sequence, and no result before it does.
pub open spec fn ends_once(rs: Seq<ResultView>) -> bool {
    rs.len() > 0 && is_end(rs.last()) && no_end(rs.drop_last())
}

impl BuilderView {
    /// Nothing queued or pending ends a sequence.
    #[verifier::opaque]
    pub open spec fn unended(self) -> bool {
        no_end(self.timeline())
    }

    /// The end token is the last of what is queued or pending, and nothing
    /// before it ends a sequence.
    #[verifier::opaque]
    pub open spec fn ended(self) -> bool {
        self.timeline().len() > 0 && is_eof(self.timeline().last()) && no_end(
            self.timeline().drop_last(),
        )
    }
}

/// Two accumulators whose timelines are as long and, place by place, of the
/// same kind, are ended or unended alike.
proof fn lemma_ends_same(b: BuilderView, c: BuilderView)
    requires
        c.timeline().len() == b.timeline().len(),
        forall|i: int|
            0 <= i < b.timeline().len() ==> is_end(c.timeline()[i]) == is_end(b.timeline()[i])
                && is_eof(c.timeline()[i]) == is_eof(b.timeline()[i]),
    ensures
        b.unended() ==> c.unended(),
        b.ended() ==> c.ended(),
{
    reveal(BuilderView::unended);
    reveal(BuilderView::ended);
    let s = b.timeline();
    let t = c.timeline();
    if b.unended() {
        assert forall|i: int| 0 <= i < t.len() implies !is_end(#[trigger] t[i]) by {
            assert(!is_end(s[i]));
        }
    }
    if b.ended() {
        assert forall|i: int| 0 <= i < t.drop_last().len() implies !is_end(
            #[trigger] t.drop_last()[i],
        ) by {
            assert(!is_end(s.drop_last()[i]));
            assert(t.drop_last()[i] == t[i] && s.drop_last()[i] == s[i]);
        }
    }
}

/// A timeline that is cut short stays unended.
proof fn lemma_ends_shorter(b: BuilderView, c: BuilderView)
    requires
        b.unended(),
        c.timeline().len() <= b.timeline().len(),
        forall|i: int| 0 <= i < c.timeline().len() ==> is_end(c.timeline()[i]) == is_end(
            b.timeline()[i],
        ),
    ensures
        c.unended(),
{
    reveal(BuilderView::unended);
    let s = b.timeline();
    let t = c.timeline();
    assert forall|i: int| 0 <= i < t.len() implies !is_end(#[trigger] t[i]) by {
        assert(!is_end(s[i]));
    }
}

/// One more result at the end of an unended timeline: the end token ends it,
/// a token of another kind leaves it unended.
proof fn lemma_ends_append(b: BuilderView, c: BuilderView)
    requires
        b.unended(),
        c.timeline().len() == b.timeline().len() + 1,
        forall|i: int| 0 <= i < b.timeline().len() ==> is_end(c.timeline()[i]) == is_end(
            b.timeline()[i],
        ),
        c.timeline().last() is Emitted,
    ensures
        is_eof(c.timeline().last()) ==> c.ended(),
        !is_eof(c.timeline().last()) ==> c.unended(),
{
    reveal(BuilderView::unended);
    reveal(BuilderView::ended);
    let s = b.timeline();
    let t = c.timeline();
    assert forall|i: int| 0 <= i < t.len() - 1 implies !is_end(#[trigger] t[i]) by {
        assert(!is_end(s[i]));
    }
    assert forall|i: int| 0 <= i < t.drop_last().len() implies !is_end(
        #[trigger] t.drop_last()[i],
    ) by {
        assert(t.drop_last()[i] == t[i]);
    }
}

pub broadcast proof fn lemma_ends_push_result(b: BuilderView)
    ensures
        #![trigger b.push_result().unended()]
        #![trigger b.push_result().ended()]
        #![trigger b.finalize_attribute().unended()]
        #![trigger b.finalize_attribute().ended()]
        #![trigger b.emit_token().unended()]
        #![trigger b.emit_token().ended()]
        #![trigger b.flush().unended()]
        #![trigger b.flush().ended()]
        b.unended() ==> b.push_result().unended() && b.finalize_attribute().unended()
            && b.emit_token().unended() && b.flush().unended(),
        b.ended() ==> b.push_result().ended() && b.finalize_attribute().ended()
            && b.emit_token().ended() && b.flush().ended(),
{
    let f = b.finalize_attribute();
    lemma_ends_same(b, f);
    let g = if b.attribute_name.len() != 0 || b.attribute_value.len() != 0 {
        f
    } else {
        b
    };
    lemma_ends_same(g, b.push_result());
    lemma_ends_same(b.push_result(), b.emit_token());
    lemma_ends_same(b.push_result(), b.flush());
}

pub broadcast proof fn lemma_ends_push_token(b: BuilderView, token: TokenView)
    requires
        b.unended(),
    ensures
        #![trigger b.push_token(token).unended()]
        #![trigger b.push_token(token).ended()]
        token is Eof ==> b.push_token(token).ended(),
        !(token is Eof) ==> b.push_token(token).unended(),
{
    let c = b.push_token(token);
    if b.token matches Some(TokenView::Character(_)) && token is Character {
        lemma_ends_same(b, c);
    } else {
        lemma_ends_push_result(b);
        let p = b.push_result();
        assert(p.timeline().len() == b.timeline().len());
        lemma_ends_append(p, c);
    }
}

pub broadcast proof fn lemma_ends_push_text(b: BuilderView, s: Seq<char>)
    requires
        b.unended(),
    ensures
        #[trigger] b.push_str(s).unended(),
{
    lemma_ends_push_token(b, TokenView::Character(s));
}

pub broadcast proof fn lemma_ends_push_char(b: BuilderView, c: char)
    requires
        b.unended(),
    ensures
        #[trigger] b.push_char(c).unended(),
{
    lemma_ends_push_token(b, TokenView::Character(seq![c]));
}

pub broadcast proof fn lemma_ends_rewind(b: BuilderView)
    requires
        b.unended(),
    ensures
        #![trigger b.discard_and_rewind().unended()]
        #![trigger b.end_tag_as_text().unended()]
        b.discard_and_rewind().unended(),
        b.end_tag_as_text().unended(),
{
    let c = b.discard_and_rewind();
    assert(c.timeline().len() <= b.timeline().len() && forall|i: int|
        0 <= i < c.timeline().len() ==> is_end(c.timeline()[i]) == is_end(b.timeline()[i])) by {
        reveal(BuilderView::unended);
        if b.results.len() > 0 {
            assert(!is_end(b.timeline()[b.results.len() - 1]));
            assert(b.results.last() is Emitted);
        }
    }
    lemma_ends_shorter(b, c);
    lemma_ends_push_text(c, "</"@);
    lemma_ends_push_text(c.push_str("</"@), b.buf);
}

/// Changes that leave the kinds of the queued and pending tokens alone.
pub broadcast proof fn lemma_ends_edits(b: BuilderView)
    ensures
        #![trigger b.reconsume_char().unended()]
        #![trigger b.reconsume_char().ended()]
        #![trigger b.incorrect_doctype().unended()]
        #![trigger b.self_closing().unended()]
        #![trigger b.clear_buf().unended()]
        b.unended() ==> b.reconsume_char().unended() && b.incorrect_doctype().unended()
            && b.self_closing().unended() && b.clear_buf().unended(),
        b.ended() ==> b.reconsume_char().ended(),
{
    lemma_ends_same(b, b.reconsume_char());
    lemma_ends_same(b, b.incorrect_doctype());
    lemma_ends_same(b, b.self_closing());
    lemma_ends_same(b, b.clear_buf());
}

pub broadcast proof fn lemma_ends_chars(b: BuilderView, c: char)
    requires
        b.unended(),
    ensures
        #![trigger b.name_char(c).unended()]
        #![trigger b.add_to_attribute_name(c).unended()]
        #![trigger b.add_to_attribute_value(c).unended()]
        b.name_char(c).unended(),
        b.add_to_attribute_name(c).unended(),
        b.add_to_attribute_value(c).unended(),
{
    lemma_ends_same(b, b.name_char(c));
    lemma_ends_same(b, b.add_to_attribute_name(c));
    lemma_ends_same(b, b.add_to_attribute_value(c));
}

pub broadcast proof fn lemma_ends_error(b: BuilderView, code: Seq<char>)
    ensures
        #![trigger b.add_error(code).unended()]
        #![trigger b.add_error(code).ended()]
        b.unended() ==> b.add_error(code).unended(),
        b.ended() ==> b.add_error(code).ended(),
{
    lemma_ends_same(b, b.add_error(code));
}

pub broadcast proof fn lemma_ends_signal(b: BuilderView, c: NextChar)
    ensures
        #![trigger b.push_buf(c).unended()]
        #![trigger b.push_buf(c).ended()]
        #![trigger b.next_char(c).unended()]
        #![trigger b.next_char(c).ended()]
        b.unended() ==> b.push_buf(c).unended() && b.next_char(c).unended(),
        b.ended() ==> b.push_buf(c).ended() && b.next_char(c).ended(),
{
    lemma_ends_same(b, b.push_buf(c));
    lemma_ends_same(b, b.next_char(c));
}

pub broadcast group group_ends {
    lemma_ends_push_result,
    lemma_ends_push_token,
    lemma_ends_push_text,
    lemma_ends_push_char,
    lemma_ends_rewind,
    lemma_ends_edits,
    lemma_ends_chars,
    lemma_ends_error,
    lemma_ends_signal,
}

/// A transition from a state that is not the end state: only the end of the
/// input leads to the end state, and it does so with the end token; any other
/// transition leaves the timeline unended. The end of the input leads to the
/// end state at once, or it is fed again to a state from which it does, or to
/// the bogus comment state.
pub proof fn lemma_transition_ends(s: State, c: NextChar, b: BuilderView)
    requires
        b.unended(),
        s != State::Eof,
        s.covers(c, b),
    ensures
        s.transition(c, b).0 == State::Eof ==> s.transition(c, b).1.ended() && no_char(c)
            && s.transition(c, b).1.reconsume_char == b.reconsume_char,
        s.transition(c, b).0 != State::Eof ==> s.transition(c, b).1.unended(),
        no_char(c) ==> s.transition(c, b).0 == State::Eof || (s.transition(c, b).1.reconsume_char
            && (s.transition(c, b).0 == State::Data || s.transition(c, b).0 == State::ScriptData
            || s.transition(c, b).0 == State::BogusComment)),
{
    broadcast use group_ends;

    let b1 = b.push_buf(c);
    assert(b1.unended());
    match s {
        State::AfterAttributeName
        | State::AfterAttributeValueQuoted
        | State::AttributeName
        | State::AttributeValueDoubleQuoted
        | State::AttributeValueSingleQuoted
        | State::AttributeValueUnquoted
        | State::BeforeAttributeName
        | State::BeforeAttributeValue => {
            assert(b1.finalize_attribute().unended());
            assert(s.attribute_step(c, b1).1.unended());
        },
        State::MarkupDeclarationOpen
        | State::DOCTYPE
        | State::BeforeDOCTYPEName
        | State::DOCTYPEName
        | State::AfterDOCTYPEName => {
            assert(b1.incorrectly_opened().unended());
            assert(b1.eof_in_doctype().unended());
            assert(s.doctype_step(c, b1).1.unended());
        },
        State::TagOpen | State::EndTagOpen | State::TagName | State::SelfClosingStartTag => {
            assert(b1.less_than_sign_as_text().unended());
            assert(s.tag_step(c, b1).1.unended());
        },
        State::Eof => {},
        _ => {
            assert(b1.end_tag_as_text().unended());
            let r = s.text_step(c, b1);
            assert(r.0 != State::Eof ==> r.1.unended());
            assert(r.0 == State::Eof ==> r.1.ended());
        },
    }
}

impl DriverView {
    /// What holds of a driver between two signals: once the sequence has been
    /// cut short, the queue ends with the errors that cut it; in the end
    /// state the end token is the last, if it has not been handed out yet;
    /// and in any other state nothing queued or pending ends the sequence.
    pub open spec fn on_course(self) -> bool {
        if self.halted {
            self.builder.token is None && (self.builder.results.len() == 0 || ends_once(
                self.builder.results,
            ))
        } else if self.state == State::Eof {
            self.builder.ended() || self.builder.timeline().len() == 0
        } else {
            self.builder.unended()
        }
    }

    /// What ends the sequence has been handed out.
    pub open spec fn done(self) -> bool {
        (self.halted || self.state == State::Eof) && self.builder.timeline().len() == 0
    }
}

proof fn lemma_halt_on_course(d: DriverView, code: Seq<char>)
    requires
        d.builder.unended(),
    ensures
        d.halt(code).on_course(),
        d.halt(code).builder.results.len() > 0,
{
    reveal(BuilderView::unended);
    let h = d.halt(code).builder.results;
    let t = d.builder.timeline();
    assert forall|i: int| 0 <= i < h.drop_last().len() implies !is_end(
        #[trigger] h.drop_last()[i],
    ) by {
        assert(h.drop_last()[i] == h[i]);
        assert(is_end(h[i]) == is_end(t[i]));
    }
}

/// One signal keeps the driver on course. Only the end of the input leads to
/// the end state, and it leads there unless the sequence is cut short.
pub proof fn lemma_feed_on_course(d: DriverView, c: NextChar)
    requires
        d.on_course(),
        !d.halted,
        d.state != State::Eof,
    ensures
        d.feed(c).0.on_course(),
        d.feed(c).0.halted ==> d.feed(c).1 && d.feed(c).0.builder.results.len() > 0,
        !d.feed(c).0.halted && d.feed(c).0.state == State::Eof ==> no_char(c) && d.feed(
            c,
        ).0.builder.ended(),
        no_char(c) ==> d.feed(c).0.halted || d.feed(c).0.state == State::Eof,
        d.feed(c).0.input == d.input,
{
    broadcast use group_ends;

    let b = d.builder;
    if !room(b, c) {
        lemma_halt_on_course(d, "position-overflow"@);
    } else {
        let b1 = b.next_char(c);
        assert(b1.unended());
        if !d.state.covers(c, b1) {
            lemma_halt_on_course(DriverView { builder: b1, ..d }, "unimplemented-transition"@);
        } else {
            lemma_transition_ends(d.state, c, b1);
            let (s1, b2) = d.state.transition(c, b1);
            if !b2.reconsume_char {
                lemma_ends_same(b2, BuilderView { reconsume_char: false, ..b2 });
                assert(b2.ended() ==> b2.flush().ended());
                assert(b2.unended() ==> b2.flush().unended());
            } else if !s1.covers(c, b2) {
                lemma_halt_on_course(
                    DriverView { state: s1, builder: b2, ..d },
                    "unimplemented-transition"@,
                );
            } else {
                lemma_transition_ends(s1, c, b2);
                let (s2, b3) = s1.transition(c, b2);
                lemma_ends_same(b3, BuilderView { reconsume_char: false, ..b3 });
                assert(b3.ended() ==> b3.flush().ended());
                assert(b3.unended() ==> b3.flush().unended());
            }
        }
    }
}

/// Taking the oldest result from a driver on course leaves it on course, and
/// the result ends the sequence just when nothing is left after it.
pub proof fn lemma_pop_on_course(m: DriverView)
    requires
        m.on_course(),
        m.builder.results.len() > 0,
    ensures
        m.pop().0.on_course(),
        m.pop().1 matches Some(x) && (is_end(x) <==> m.pop().0.done()),
{
    reveal(BuilderView::unended);
    reveal(BuilderView::ended);
    let rs = m.builder.results;
    let n = m.pop().0;
    let ns = n.builder.results;
    let t = m.builder.timeline();
    let u = n.builder.timeline();
    assert(ns =~= rs.drop_first());
    assert(u =~= t.drop_first());
    assert(rs[0] == t[0]);
    assert forall|i: int| 0 <= i < u.len() implies u[i] == t[i + 1] by {}
    if m.halted {
        assert(t == rs);
        if ns.len() > 0 {
            assert(ns.last() == rs.last());
            assert forall|i: int| 0 <= i < ns.drop_last().len() implies !is_end(
                #[trigger] ns.drop_last()[i],
            ) by {
                assert(ns.drop_last()[i] == rs.drop_last()[i + 1]);
            }
            assert(rs[0] == rs.drop_last()[0]);
        }
    } else if m.state == State::Eof {
        if u.len() > 0 {
            assert(u.last() == t.last());
            assert forall|i: int| 0 <= i < u.drop_last().len() implies !is_end(
                #[trigger] u.drop_last()[i],
            ) by {
                assert(u.drop_last()[i] == t.drop_last()[i + 1]);
            }
            assert(t[0] == t.drop_last()[0]);
        }
    } else {
        assert forall|i: int| 0 <= i < u.len() implies !is_end(#[trigger] u[i]) by {
            assert(!is_end(t[i + 1]));
        }
        assert(!is_end(t[0]));
    }
}

/// A last flush in the end state, with the end token still to come, hands
/// out a result.
proof fn lemma_finish_on_course(m: DriverView)
    requires
        !m.halted,
        m.state == State::Eof,
        m.builder.ended(),
    ensures
        m.finish().0.on_course(),
        m.finish().1 matches Some(x) && (is_end(x) <==> m.finish().0.done()),
{
    lemma_ends_push_result(m.builder);
    let f = DriverView { builder: m.builder.flush(), ..m };
    assert(f.builder.results.len() > 0) by {
        reveal(BuilderView::ended);
    }
    lemma_pop_on_course(f);
}

/// A run from a driver on course, in a state that is not the end state,
/// hands out a result; the result ends the sequence just when nothing is left
/// after it.
pub proof fn lemma_run_on_course(d: DriverView)
    requires
        d.on_course(),
        !d.halted,
        d.state != State::Eof,
    ensures
        d.run().0.on_course(),
        d.run().1 matches Some(x) && (is_end(x) <==> d.run().0.done()),
    decreases d.input.len(),
{
    let c = d.signal();
    let a = d.advance();
    lemma_feed_on_course(a, c);
    let (fed, ready) = a.feed(c);
    if ready && fed.builder.results.len() > 0 {
        lemma_pop_on_course(fed);
    } else if c == NextChar::Eof {
        lemma_finish_on_course(fed);
    } else {
        lemma_run_on_course(fed);
    }
}

/// A pull from a driver on course hands out a result unless what ends the
/// sequence has been handed out; the result ends the sequence just when
/// nothing is left after it.
pub proof fn lemma_pull_on_course(d: DriverView)
    requires
        d.on_course(),
    ensures
        d.done() ==> d.pull().1 is None,
        !d.done() ==> d.pull().0.on_course() && (d.pull().1 matches Some(x) && (is_end(x)
            <==> d.pull().0.done())),
{
    if d.builder.results.len() > 0 {
        lemma_pop_on_course(d);
    } else if d.halted {
    } else if d.state == State::Eof {
        if d.builder.timeline().len() > 0 {
            lemma_finish_on_course(d);
        }
    } else {
        lemma_run_on_course(d);
    }
}

/// From a driver on course, the results that are left end once, unless what
/// ends the sequence has been handed out: then none is left.
pub proof fn lemma_results_end(d: DriverView)
    requires
        d.on_course(),
    ensures
        d.done() ==> d.results().len() == 0,
        !d.done() ==> ends_once(d.results()),
    decreases d.input.len(), d.rank(), d.backlog(),
{
    lemma_pull_on_course(d);
    let (next, r) = d.pull();
    match r {
        Some(x) => {
            super::progress::lemma_pull_progress(d);
            lemma_results_end(next);
            let rest = next.results();
            let all = d.results();
            assert(all == seq![x] + rest);
            if next.done() {
                assert(all =~= seq![x]);
                assert(all.drop_last() =~= Seq::<ResultView>::empty());
            } else {
                assert(all.last() == rest.last());
                assert forall|i: int| 0 <= i < all.drop_last().len() implies !is_end(
                    #[trigger] all.drop_last()[i],
                ) by {
                    if i > 0 {
                        assert(all.drop_last()[i] == rest.drop_last()[i - 1]);
                    }
                }
            }
        },
        None => {},
    }
}

/// The results for a text end once: the last result is the end token or
/// errors alone, and neither comes before it. This holds from any state but
/// the end state; from the end state no result comes at all.
pub proof fn lemma_sequence_ends_once(
    input: Seq<char>,
    state: State,
    last_start_tag: Option<Seq<char>>,
)
    ensures
        state != State::Eof ==> ends_once(
            DriverView::start(input, state, last_start_tag).results(),
        ),
        state == State::Eof ==> DriverView::start(input, state, last_start_tag).results().len()
            == 0,
{
    let d = DriverView::start(input, state, last_start_tag);
    assert(d.on_course()) by {
        reveal(BuilderView::unended);
    }
    lemma_results_end(d);
}

} // verus!
