//! The character source: it takes the input as UTF-8 bytes, decodes them a
//! window at a time and hands out one character per call.

use super::NextChar;
use crate::text::chars_of;
use vstd::prelude::*;
use vstd::slice::{slice_subrange, slice_to_vec};
use vstd::utf8::{
    decode_utf8, decode_utf8_split, encode_utf8_decode_utf8, encode_utf8_valid_utf8,
    is_char_boundary, is_char_boundary_iff_not_is_continuation_byte,
    is_char_boundary_start_end_of_seq, length_of_first_scalar, pop_first_scalar, valid_utf8,
    valid_utf8_split,
};

verus! {

/// The most bytes that one window holds.
pub const BUFSIZE: usize = 2048;

/// Decodes one window with `Encoding::decode_without_bom_handling_and_without_replacement`
/// of `encoding_rs`, called on `UTF_8`. For that encoding the call gives back
/// the text whose bytes are the input when the input is well-formed UTF-8,
/// and nothing when it is not.
#[verifier::external_body]
fn decode_window(bytes: &[u8]) -> (r: Option<String>)
    ensures
        r is Some <==> valid_utf8(bytes@),
        r matches Some(text) ==> text@ == decode_utf8(bytes@),
{
    match encoding_rs::UTF_8.decode_without_bom_handling_and_without_replacement(bytes) {
        Some(text) => Some(text.into_owned()),
        None => None,
    }
}

/// The first character of well-formed UTF-8 ends on a character boundary, at
/// most four bytes in.
proof fn lemma_first_boundary(bytes: Seq<u8>)
    requires
        valid_utf8(bytes),
        bytes.len() > 0,
    ensures
        1 <= length_of_first_scalar(bytes) <= 4,
        length_of_first_scalar(bytes) <= bytes.len(),
        is_char_boundary(bytes, length_of_first_scalar(bytes)),
        decode_utf8(bytes).len() > 0,
{
    reveal_with_fuel(valid_utf8, 2);
    reveal_with_fuel(is_char_boundary, 2);
    reveal_with_fuel(decode_utf8, 2);
    assert(valid_utf8(pop_first_scalar(bytes)));
}

/// Well-formed UTF-8 encodes no more characters than it has bytes.
proof fn lemma_decoded_len(bytes: Seq<u8>)
    requires
        valid_utf8(bytes),
    ensures
        decode_utf8(bytes).len() <= bytes.len(),
    decreases bytes.len(),
{
    if bytes.len() > 0 {
        lemma_first_boundary(bytes);
        reveal_with_fuel(valid_utf8, 2);
        reveal_with_fuel(decode_utf8, 2);
        lemma_decoded_len(pop_first_scalar(bytes));
    }
}

/// The character source: the input as UTF-8 bytes, of which one window at a
/// time is decoded.
pub struct CharSource {
    /// The input.
    raw: Vec<u8>,
    /// How many bytes of the input have been decoded.
    pos: usize,
    /// The decoded window.
    text: Vec<char>,
    /// How many characters of the window have been handed out.
    index: usize,
}

impl CharSource {
    #[verifier::type_invariant]
    closed spec fn well_formed(self) -> bool {
        &&& self.pos <= self.raw@.len()
        &&& self.index <= self.text@.len()
        &&& self.text@.len() <= BUFSIZE
        &&& valid_utf8(self.raw@.subrange(self.pos as int, self.raw@.len() as int))
    }

    /// The characters that the source has yet to hand out.
    pub closed spec fn remaining(self) -> Seq<char> {
        self.text@.subrange(self.index as int, self.text@.len() as int) + decode_utf8(
            self.raw@.subrange(self.pos as int, self.raw@.len() as int),
        )
    }

    /// How many characters are decoded and wait to be handed out.
    pub closed spec fn buffered(self) -> nat {
        (self.text@.len() - self.index) as nat
    }

    /// A source over the characters of `input`. Nothing is decoded yet.
    pub fn new(input: &str) -> (source: CharSource)
        ensures
            source.remaining() == input@,
            source.buffered() == 0,
    {
        let raw = input.as_bytes_vec();
        proof {
            encode_utf8_valid_utf8(input@);
            encode_utf8_decode_utf8(input@);
            assert(raw@.subrange(0, raw@.len() as int) =~= raw@);
        }
        let source = CharSource { raw, pos: 0, text: Vec::new(), index: 0 };
        assert(source.remaining() =~= input@);
        source
    }

    /// A source over the characters that the bytes encode in UTF-8; none
    /// where the bytes are not well-formed UTF-8.
    pub fn from_bytes(bytes: &[u8]) -> (r: Option<CharSource>)
        ensures
            r is Some <==> valid_utf8(bytes@),
            r matches Some(source) ==> source.remaining() == decode_utf8(bytes@)
                && source.buffered() == 0,
    {
        if decode_window(bytes).is_none() {
            return None;
        }
        let raw = slice_to_vec(bytes);
        assert(raw@.subrange(0, raw@.len() as int) =~= raw@);
        let source = CharSource { raw, pos: 0, text: Vec::new(), index: 0 };
        assert(source.remaining() =~= decode_utf8(bytes@));
        Some(source)
    }

    /// Decodes the next window: at most `BUFSIZE` bytes, ending where a
    /// character ends.
    fn refill(&mut self)
        requires
            old(self).index == old(self).text@.len(),
            old(self).pos < old(self).raw@.len(),
        ensures
            final(self).remaining() == old(self).remaining(),
            final(self).index == 0,
            0 < final(self).text@.len() <= BUFSIZE,
    {
        proof {
            use_type_invariant(&*self);
        }
        let len = self.raw.len();
        let pos = self.pos;
        let ghost suffix = self.raw@.subrange(pos as int, len as int);
        proof {
            lemma_first_boundary(suffix);
        }
        let mut end: usize = if len - pos > BUFSIZE {
            pos + BUFSIZE
        } else {
            len
        };
        while end < len && 0x80 <= self.raw[end] && self.raw[end] <= 0xbf
            invariant
                len == self.raw@.len(),
                pos < len,
                suffix == self.raw@.subrange(pos as int, len as int),
                valid_utf8(suffix),
                is_char_boundary(suffix, length_of_first_scalar(suffix)),
                pos + length_of_first_scalar(suffix) <= end <= len,
                end <= pos + BUFSIZE,
                1 <= length_of_first_scalar(suffix),
            decreases end,
        {
            proof {
                is_char_boundary_iff_not_is_continuation_byte(suffix, end - pos);
            }
            end -= 1;
        }
        let ghost k = end - pos;
        proof {
            if end == len {
                is_char_boundary_start_end_of_seq(suffix);
            } else {
                is_char_boundary_iff_not_is_continuation_byte(suffix, k);
            }
            valid_utf8_split(suffix, k);
            decode_utf8_split(suffix, k);
            assert(suffix.subrange(0, k) =~= self.raw@.subrange(pos as int, end as int));
            assert(suffix.subrange(k, suffix.len() as int) =~= self.raw@.subrange(
                end as int,
                len as int,
            ));
            lemma_first_boundary(suffix.subrange(0, k));
            lemma_decoded_len(suffix.subrange(0, k));
        }
        let window = slice_subrange(self.raw.as_slice(), pos, end);
        let decoded = decode_window(window).unwrap();
        let text = chars_of(decoded.as_str());
        self.index = 0;
        self.text = text;
        self.pos = end;
        assert(self.remaining() =~= old(self).remaining());
    }

    /// Hands out the next character, or says that the input has ended. A
    /// source holds all of its input, so it never stalls.
    ///
    /// The next window of the input, of at most `BUFSIZE` bytes, is decoded
    /// only when every decoded character has been handed out.
    pub fn next(&mut self) -> (c: NextChar)
        ensures
            final(self).buffered() < BUFSIZE,
            old(self).buffered() > 0 ==> final(self).buffered() == old(self).buffered() - 1,
            match c {
                NextChar::Ch(ch) => old(self).remaining().len() > 0 && ch == old(
                    self,
                ).remaining()[0] && final(self).remaining() == old(self).remaining().drop_first(),
                NextChar::Eof => old(self).remaining().len() == 0 && final(self).remaining()
                    == old(self).remaining(),
                NextChar::Stop => false,
            },
    {
        proof {
            use_type_invariant(&*self);
        }
        if self.index >= self.text.len() {
            if self.pos >= self.raw.len() {
                return NextChar::Eof;
            }
            self.refill();
        }
        proof {
            use_type_invariant(&*self);
        }
        let ghost before = self.remaining();
        let ch = self.text[self.index];
        self.index += 1;
        assert(self.remaining() =~= before.drop_first());
        NextChar::Ch(ch)
    }
}

} // verus!
