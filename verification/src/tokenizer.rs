//! The HTML tokenizer: a cursor over the bytes of a text that hands out one
//! token per call and only ever moves forward.

use crate::boundary::{
    lemma_boundary_after_ascii, lemma_boundary_at_ascii, substr, text_between,
};
use crate::token::{token_text_len, token_view, Token, TokenView};
use memchr::memchr;
use vstd::prelude::*;
use vstd::slice::slice_subrange;
use vstd::string::StringSliceAdditionalSpecFns;
use vstd::utf8::{
    encode_utf8_valid_utf8, is_char_boundary, is_char_boundary_start_end_of_seq, valid_utf8,
};

verus! {

/// `memchr::memchr`: the index of the first byte of `haystack` that equals
/// `needle`, or `None` when no byte does.
pub assume_specification[ memchr::memchr ](needle: u8, haystack: &[u8]) -> (found: Option<usize>)
    ensures
        match found {
            Some(i) => i < haystack@.len() && haystack@[i as int] == needle && forall|j: int|
                0 <= j < i ==> haystack@[j] != needle,
            None => forall|j: int| 0 <= j < haystack@.len() ==> haystack@[j] != needle,
        },
;

pub const SPACE: u8 = 32;

pub const TAB: u8 = 9;

pub const LINE_FEED: u8 = 10;

pub const CARRIAGE_RETURN: u8 = 13;

pub const LESS_THAN: u8 = 60;

pub const GREATER_THAN: u8 = 62;

pub const SLASH: u8 = 47;

pub const BANG: u8 = 33;

pub const EQUALS: u8 = 61;

pub const DOUBLE_QUOTE: u8 = 34;

pub const SINGLE_QUOTE: u8 = 39;

pub const DASH: u8 = 45;

pub const LEFT_BRACKET: u8 = 91;

pub const RIGHT_BRACKET: u8 = 93;

/// A space, a tab, a line feed or a carriage return.
pub open spec fn is_space_byte(c: u8) -> bool {
    c == SPACE || c == TAB || c == LINE_FEED || c == CARRIAGE_RETURN
}

/// The sets of bytes at which a scan stops.
#[derive(Debug, Clone, Copy)]
pub enum ByteClass {
    /// Everything but the four whitespace bytes.
    NotSpace,
    /// What ends a tag's name: `>`, `/` or whitespace.
    TagNameEnd,
    /// What ends an attribute's name: `=`, `>` or whitespace.
    AttributeNameEnd,
    /// What ends an attribute value without quotes: `>` or whitespace.
    ValueEnd,
    /// The one byte given.
    Exactly(u8),
}

/// Whether the byte `c` is in `class`.
pub open spec fn in_class(class: ByteClass, c: u8) -> bool {
    match class {
        ByteClass::NotSpace => !is_space_byte(c),
        ByteClass::TagNameEnd => c == GREATER_THAN || c == SLASH || is_space_byte(c),
        ByteClass::AttributeNameEnd => c == EQUALS || c == GREATER_THAN || is_space_byte(c),
        ByteClass::ValueEnd => c == GREATER_THAN || is_space_byte(c),
        ByteClass::Exactly(x) => c == x,
    }
}

/// The first position at or after `pos` whose byte is in `class`, or the length
/// of `b` when there is none.
pub open spec fn first_in_class(b: Seq<u8>, pos: int, class: ByteClass) -> int
    decreases b.len() - pos,
{
    if !(0 <= pos < b.len()) {
        b.len() as int
    } else if in_class(class, b[pos]) {
        pos
    } else {
        first_in_class(b, pos + 1, class)
    }
}

/// The first position at or after `pos` at which `d` stands in `b`, or the
/// length of `b` when it stands nowhere.
pub open spec fn first_match(b: Seq<u8>, pos: int, d: Seq<u8>) -> int
    decreases b.len() - pos,
{
    if !(0 <= pos < b.len()) {
        b.len() as int
    } else if pos + d.len() <= b.len() && b.subrange(pos, pos + d.len()) == d {
        pos
    } else {
        first_match(b, pos + 1, d)
    }
}

/// The position after a delimiter of `n` bytes found at `found`; the length of
/// `b` when `found` is the length of `b`, that is when nothing was found.
pub open spec fn past(b: Seq<u8>, found: int, n: int) -> int {
    if found < b.len() {
        found + n
    } else {
        b.len() as int
    }
}

/// The first byte in a class lies inside the input, is in the class, and no
/// byte before it is.
pub proof fn lemma_first_in_class(b: Seq<u8>, pos: int, class: ByteClass)
    requires
        0 <= pos <= b.len(),
    ensures
        pos <= first_in_class(b, pos, class) <= b.len(),
        first_in_class(b, pos, class) < b.len() ==> in_class(
            class,
            b[first_in_class(b, pos, class)],
        ),
        forall|j: int| pos <= j < first_in_class(b, pos, class) ==> !in_class(class, #[trigger] b[j]),
    decreases b.len() - pos,
{
    if pos < b.len() && !in_class(class, b[pos]) {
        lemma_first_in_class(b, pos + 1, class);
    }
}

/// A position before which no byte from `pos` on is in `class`, and which holds
/// one or is the end, is the first in `class`.
pub proof fn lemma_first_in_class_is(b: Seq<u8>, pos: int, class: ByteClass, at: int)
    requires
        0 <= pos <= at <= b.len(),
        forall|j: int| pos <= j < at ==> !in_class(class, #[trigger] b[j]),
        at < b.len() ==> in_class(class, b[at]),
    ensures
        first_in_class(b, pos, class) == at,
    decreases at - pos,
{
    if pos < at {
        lemma_first_in_class_is(b, pos + 1, class, at);
    }
}

/// The first match lies inside the input, and the delimiter stands there.
pub proof fn lemma_first_match(b: Seq<u8>, pos: int, d: Seq<u8>)
    requires
        0 <= pos <= b.len(),
    ensures
        pos <= first_match(b, pos, d) <= b.len(),
        first_match(b, pos, d) < b.len() ==> first_match(b, pos, d) + d.len() <= b.len()
            && b.subrange(first_match(b, pos, d), first_match(b, pos, d) + d.len()) == d,
    decreases b.len() - pos,
{
    if pos < b.len() && !(pos + d.len() <= b.len() && b.subrange(pos, pos + d.len()) == d) {
        lemma_first_match(b, pos + 1, d);
    }
}

/// For a delimiter of one byte, the first match is the first occurrence of that
/// byte.
pub proof fn lemma_first_match_single(b: Seq<u8>, pos: int, d: Seq<u8>)
    requires
        0 <= pos <= b.len(),
        d.len() == 1,
    ensures
        first_match(b, pos, d) == first_in_class(b, pos, ByteClass::Exactly(d[0])),
    decreases b.len() - pos,
{
    if pos < b.len() {
        if b[pos] == d[0] {
            assert(b.subrange(pos, pos + 1) =~= d);
        } else {
            assert(b.subrange(pos, pos + 1)[0] == b[pos]);
            lemma_first_match_single(b, pos + 1, d);
        }
    }
}

/// What one call of the tokenizer yields: the token, if there is one, and the
/// cursor and tag state it leaves behind.
pub struct Scan {
    pub token: Option<TokenView>,
    pub pos: int,
    pub in_tag: bool,
}

/// Where the attribute that starts at `pos` ends: after its name, or after the
/// value that follows its `=`, quoted or not. An open quote that is never closed
/// takes the rest of the input.
pub open spec fn attribute_end(b: Seq<u8>, pos: int) -> int {
    let name_end = first_in_class(b, pos, ByteClass::AttributeNameEnd);
    if name_end < b.len() && b[name_end] == EQUALS {
        let value = first_in_class(b, name_end + 1, ByteClass::NotSpace);
        if value < b.len() && (b[value] == DOUBLE_QUOTE || b[value] == SINGLE_QUOTE) {
            past(b, first_in_class(b, value + 1, ByteClass::Exactly(b[value])), 1)
        } else {
            first_in_class(b, value, ByteClass::ValueEnd)
        }
    } else {
        name_end
    }
}

/// `word` stands in `b` at `at`.
pub open spec fn marker_at(b: Seq<u8>, at: int, word: Seq<u8>) -> bool {
    0 <= at && at + word.len() <= b.len() && b.subrange(at, at + word.len()) == word
}

/// The bytes `--`, which open a comment after `<!`.
pub open spec fn comment_open() -> Seq<u8> {
    seq![DASH, DASH]
}

/// The bytes `DOCTYPE`.
pub open spec fn doctype_open() -> Seq<u8> {
    seq![68u8, 79u8, 67u8, 84u8, 89u8, 80u8, 69u8]
}

/// The bytes `[CDATA[`.
pub open spec fn cdata_open() -> Seq<u8> {
    seq![LEFT_BRACKET, 67u8, 68u8, 65u8, 84u8, 65u8, LEFT_BRACKET]
}

/// The bytes `-->`, which close a comment.
pub open spec fn comment_close() -> Seq<u8> {
    seq![DASH, DASH, GREATER_THAN]
}

/// The bytes `]]>`, which close a CDATA section.
pub open spec fn cdata_close() -> Seq<u8> {
    seq![RIGHT_BRACKET, RIGHT_BRACKET, GREATER_THAN]
}

/// `word` stands in `b` at `q`, with more input after it.
pub open spec fn opens_with(b: Seq<u8>, q: int, word: Seq<u8>) -> bool {
    q + word.len() < b.len() && marker_at(b, q, word)
}

/// The token that starts with `<!`, where `q` is the position after these two:
/// a comment after `--`, a document type after `DOCTYPE`, a CDATA section after
/// `[CDATA[`, and a declaration that reaches to the next `>` otherwise. A
/// comment or a CDATA section that is never closed takes the rest of the input.
pub open spec fn special_tag(b: Seq<u8>, q: int) -> Scan {
    if opens_with(b, q, comment_open()) {
        let close = first_match(b, q + 2, comment_close());
        Scan {
            token: Some(TokenView::Comment(text_between(b, q + 2, close))),
            pos: past(b, close, 3),
            in_tag: false,
        }
    } else if opens_with(b, q, doctype_open()) {
        let end = past(b, first_in_class(b, q, ByteClass::Exactly(GREATER_THAN)), 1);
        Scan {
            token: Some(TokenView::Doctype(text_between(b, q - 2, end))),
            pos: end,
            in_tag: false,
        }
    } else if opens_with(b, q, cdata_open()) {
        let close = first_match(b, q + 7, cdata_close());
        Scan {
            token: Some(TokenView::Cdata(text_between(b, q + 7, close))),
            pos: past(b, close, 3),
            in_tag: false,
        }
    } else {
        let end = past(b, first_in_class(b, q, ByteClass::Exactly(GREATER_THAN)), 1);
        Scan {
            token: Some(TokenView::Declaration(text_between(b, q - 2, end))),
            pos: end,
            in_tag: false,
        }
    }
}

/// The token that starts with `</`, where `p` is the position after these two.
pub open spec fn close_tag(b: Seq<u8>, p: int) -> Scan {
    let end = first_in_class(b, p, ByteClass::Exactly(GREATER_THAN));
    Scan {
        token: Some(TokenView::TagClose(text_between(b, p, end))),
        pos: past(b, end, 1),
        in_tag: false,
    }
}

/// The start of an opening tag whose name begins at `p`.
pub open spec fn open_tag(b: Seq<u8>, p: int) -> Scan {
    let end = first_in_class(b, p, ByteClass::TagNameEnd);
    Scan { token: Some(TokenView::TagOpenStart(text_between(b, p, end))), pos: end, in_tag: true }
}

/// The token that starts with `<`, where `p` is the position after it. A `<`
/// that ends the input yields nothing.
pub open spec fn tag(b: Seq<u8>, p: int) -> Scan {
    if p >= b.len() {
        Scan { token: None, pos: p, in_tag: false }
    } else if b[p] == BANG {
        special_tag(b, p + 1)
    } else if b[p] == SLASH {
        close_tag(b, p + 1)
    } else {
        open_tag(b, p)
    }
}

/// What the tokenizer yields from the position `pos`, inside an opening tag or
/// not. Whitespace before the token is skipped. Inside an opening tag the token
/// is the tag's end or one attribute; outside, a tag or a run of text up to the
/// next `<`. At the end of the input there is no token.
pub open spec fn next_token_at(b: Seq<u8>, pos: int, in_tag: bool) -> Scan {
    let start = first_in_class(b, pos, ByteClass::NotSpace);
    if start >= b.len() {
        Scan { token: None, pos: start, in_tag }
    } else if in_tag && b[start] == GREATER_THAN {
        Scan { token: Some(TokenView::TagOpenEnd), pos: start + 1, in_tag: false }
    } else if in_tag && start + 1 < b.len() && b[start] == SLASH && b[start + 1] == GREATER_THAN {
        Scan { token: Some(TokenView::TagSelfClose), pos: start + 2, in_tag: false }
    } else if in_tag {
        let end = attribute_end(b, start);
        Scan { token: Some(TokenView::Attribute(text_between(b, start, end))), pos: end, in_tag }
    } else if b[start] == LESS_THAN {
        tag(b, start + 1)
    } else {
        let end = first_in_class(b, start, ByteClass::Exactly(LESS_THAN));
        Scan { token: Some(TokenView::TextNode(text_between(b, start, end))), pos: end, in_tag }
    }
}

/// The tokenizer never moves back and never leaves the input, and every token
/// takes at least one byte.
pub proof fn lemma_next_token_advances(b: Seq<u8>, pos: int, in_tag: bool)
    requires
        0 <= pos <= b.len(),
    ensures
        pos <= next_token_at(b, pos, in_tag).pos <= b.len(),
        next_token_at(b, pos, in_tag).token is Some ==> pos < next_token_at(b, pos, in_tag).pos,
        next_token_at(b, pos, in_tag).token is None ==> next_token_at(b, pos, in_tag).pos
            == b.len(),
{
    let start = first_in_class(b, pos, ByteClass::NotSpace);
    lemma_first_in_class(b, pos, ByteClass::NotSpace);
    if start < b.len() {
        if in_tag {
            lemma_attribute_end(b, start);
        } else if b[start] == LESS_THAN {
            let p = start + 1;
            if p < b.len() {
                let q = p + 1;
                lemma_first_in_class(b, p, ByteClass::TagNameEnd);
                lemma_first_in_class(b, q, ByteClass::Exactly(GREATER_THAN));
                if q + 2 <= b.len() {
                    lemma_first_match(b, q + 2, comment_close());
                }
                if q + 7 <= b.len() {
                    lemma_first_match(b, q + 7, cdata_close());
                }
            }
        } else {
            lemma_first_in_class(b, start, ByteClass::Exactly(LESS_THAN));
        }
    }
}

/// An attribute takes at least one byte, unless it starts at a `>` or at
/// whitespace, and ends inside the input.
pub proof fn lemma_attribute_end(b: Seq<u8>, start: int)
    requires
        0 <= start < b.len(),
    ensures
        start <= attribute_end(b, start) <= b.len(),
        !is_space_byte(b[start]) && b[start] != GREATER_THAN ==> start < attribute_end(b, start),
{
    let name_end = first_in_class(b, start, ByteClass::AttributeNameEnd);
    lemma_first_in_class(b, start, ByteClass::AttributeNameEnd);
    if name_end < b.len() && b[name_end] == EQUALS {
        let value = first_in_class(b, name_end + 1, ByteClass::NotSpace);
        lemma_first_in_class(b, name_end + 1, ByteClass::NotSpace);
        lemma_first_in_class(b, value, ByteClass::ValueEnd);
        if value < b.len() {
            lemma_first_in_class(b, value + 1, ByteClass::Exactly(b[value]));
        }
    }
}

/// A cursor over an HTML text that cuts it into tokens.
#[derive(Debug)]
pub struct Tokenizer<'a> {
    input: &'a str,
    position: usize,
    end: usize,
    bytes: &'a [u8],
    in_tag: bool,
}

impl<'a> Tokenizer<'a> {
    /// The bytes of the text being cut.
    pub closed spec fn source(&self) -> Seq<u8> {
        self.bytes@
    }

    /// The position of the next byte to read.
    pub closed spec fn cursor(&self) -> int {
        self.position as int
    }

    /// Whether the cursor stands inside an opening tag.
    pub closed spec fn inside_tag(&self) -> bool {
        self.in_tag
    }

    /// The cursor stands inside the text, where a character starts.
    pub closed spec fn wf(&self) -> bool {
        &&& self.bytes@ == self.input.spec_bytes()
        &&& self.end == self.bytes@.len()
        &&& self.position <= self.end
        &&& is_char_boundary(self.bytes@, self.position as int)
    }

    /// `self` reads the same text as `before`, in the same tag state, with its
    /// cursor at `to`.
    spec fn moved(&self, before: &Self, to: int) -> bool {
        &&& self.wf()
        &&& self.input == before.input
        &&& self.bytes == before.bytes
        &&& self.end == before.end
        &&& self.in_tag == before.in_tag
        &&& self.position == to
    }

    /// The bytes of a well-formed tokenizer are valid UTF-8.
    proof fn lemma_valid(&self)
        requires
            self.wf(),
        ensures
            valid_utf8(self.bytes@),
    {
        encode_utf8_valid_utf8(self.input@);
    }

    /// The position `at` is one where a character starts when it is the end of
    /// the text, holds an ASCII byte, or follows one.
    proof fn lemma_boundary(&self, at: int)
        requires
            self.wf(),
            0 <= at <= self.bytes@.len(),
            at == self.bytes@.len() || self.bytes@[at] < 0x80 || (at > 0 && self.bytes@[at - 1]
                < 0x80),
        ensures
            is_char_boundary(self.bytes@, at),
    {
        self.lemma_valid();
        if at == self.bytes@.len() {
            is_char_boundary_start_end_of_seq(self.bytes@);
        } else if self.bytes@[at] < 0x80 {
            lemma_boundary_at_ascii(self.bytes@, at);
        } else {
            lemma_boundary_after_ascii(self.bytes@, at - 1);
        }
    }

    /// A tokenizer at the start of `input`.
    pub fn new(input: &'a str) -> (tokenizer: Self)
        ensures
            tokenizer.wf(),
            tokenizer.source() == input.spec_bytes(),
            tokenizer.cursor() == 0,
            !tokenizer.inside_tag(),
    {
        let bytes = input.as_bytes();
        proof {
            encode_utf8_valid_utf8(input@);
            is_char_boundary_start_end_of_seq(bytes@);
        }
        Self { input, position: 0, end: bytes.len(), bytes, in_tag: false }
    }

    /// The text between two positions at which characters start.
    fn slice(&self, from: usize, to: usize) -> (part: &'a str)
        requires
            self.wf(),
            from <= to <= self.end,
            is_char_boundary(self.bytes@, from as int),
            is_char_boundary(self.bytes@, to as int),
        ensures
            part@ == text_between(self.bytes@, from as int, to as int),
            part@.len() <= to - from,
    {
        substr(self.input, from, to)
    }

    /// Moves past the whitespace at the cursor.
    fn skip_whitespace(&mut self)
        requires
            old(self).wf(),
        ensures
            final(self).moved(
                old(self),
                first_in_class(old(self).bytes@, old(self).position as int, ByteClass::NotSpace),
            ),
    {
        let start = self.position;
        let mut pos = start;
        while pos < self.end && (self.bytes[pos] == SPACE || self.bytes[pos] == TAB
            || self.bytes[pos] == LINE_FEED || self.bytes[pos] == CARRIAGE_RETURN)
            invariant
                self.end == self.bytes@.len(),
                start <= pos <= self.end,
                first_in_class(self.bytes@, start as int, ByteClass::NotSpace) == first_in_class(
                    self.bytes@,
                    pos as int,
                    ByteClass::NotSpace,
                ),
            decreases self.end - pos,
        {
            pos += 1;
        }
        proof {
            lemma_first_in_class(self.bytes@, start as int, ByteClass::NotSpace);
            if pos > start {
                assert(!in_class(ByteClass::NotSpace, self.bytes@[pos - 1]));
                self.lemma_boundary(pos as int);
            }
        }
        self.position = pos;
    }

    /// Whether `word` stands in the text at `at`.
    fn matches_at(&self, at: usize, word: &[u8]) -> (found: bool)
        requires
            self.wf(),
            at <= self.end,
        ensures
            found == marker_at(self.bytes@, at as int, word@),
    {
        let n = word.len();
        if n > self.end - at {
            return false;
        }
        let mut i: usize = 0;
        while i < n
            invariant
                i <= n,
                n == word@.len(),
                at + n <= self.end,
                self.end == self.bytes@.len(),
                forall|k: int| 0 <= k < i ==> self.bytes@[at + k] == word@[k],
            decreases n - i,
        {
            if self.bytes[at + i] != word[i] {
                assert(self.bytes@.subrange(at as int, at + n)[i as int] != word@[i as int]);
                return false;
            }
            i += 1;
        }
        assert(self.bytes@.subrange(at as int, at + n) =~= word@);
        true
    }

    /// Takes the text up to the next `delimiter` and moves past the delimiter.
    /// Without one, takes the rest of the text.
    fn consume_until_bytes(&mut self, delimiter: &[u8]) -> (taken: &'a str)
        requires
            old(self).wf(),
            delimiter@.len() > 0,
            forall|k: int| 0 <= k < delimiter@.len() ==> #[trigger] delimiter@[k] < 0x80,
        ensures
            final(self).moved(
                old(self),
                past(
                    old(self).bytes@,
                    first_match(old(self).bytes@, old(self).position as int, delimiter@),
                    delimiter@.len() as int,
                ),
            ),
            taken@.len() <= final(self).position - old(self).position,
            taken@ == text_between(
                old(self).bytes@,
                old(self).position as int,
                first_match(old(self).bytes@, old(self).position as int, delimiter@),
            ),
    {
        let start = self.position;
        let delimiter_len = delimiter.len();
        let ghost b = self.bytes@;
        proof {
            lemma_first_match(b, start as int, delimiter@);
        }
        if delimiter_len == 1 {
            proof {
                lemma_first_match_single(b, start as int, delimiter@);
            }
            let rest = slice_subrange(self.bytes, self.position, self.end);
            if let Some(pos) = memchr(delimiter[0], rest) {
                proof {
                    assert forall|j: int| start <= j < start + pos implies !in_class(
                        ByteClass::Exactly(delimiter@[0]),
                        #[trigger] b[j],
                    ) by {
                        assert(rest@[j - start] == b[j]);
                    }
                    assert(rest@[pos as int] == b[start + pos]);
                    lemma_first_in_class_is(
                        b,
                        start as int,
                        ByteClass::Exactly(delimiter@[0]),
                        start + pos,
                    );
                    self.lemma_boundary(start + pos);
                    self.lemma_boundary(start + pos + 1);
                }
                self.position += pos + 1;
                return self.slice(start, self.position - 1);
            } else {
                proof {
                    assert forall|j: int| start <= j < b.len() implies !in_class(
                        ByteClass::Exactly(delimiter@[0]),
                        #[trigger] b[j],
                    ) by {
                        assert(rest@[j - start] == b[j]);
                    }
                    lemma_first_in_class_is(
                        b,
                        start as int,
                        ByteClass::Exactly(delimiter@[0]),
                        b.len() as int,
                    );
                    self.lemma_boundary(b.len() as int);
                }
                self.position = self.end;
                return self.slice(start, self.end);
            }
        }
        let mut pos = start;
        while pos < self.end
            invariant
                self.wf(),
                *self == *old(self),
                start <= pos <= self.end,
                start == self.position,
                b == self.bytes@,
                delimiter_len == delimiter@.len(),
                delimiter_len > 0,
                forall|k: int| 0 <= k < delimiter@.len() ==> #[trigger] delimiter@[k] < 0x80,
                first_match(b, start as int, delimiter@) == first_match(b, pos as int, delimiter@),
            decreases self.end - pos,
        {
            if self.matches_at(pos, delimiter) {
                proof {
                    assert(first_match(b, pos as int, delimiter@) == pos);
                    assert(b.subrange(pos as int, pos + delimiter_len)[0] == b[pos as int]);
                    assert(b.subrange(pos as int, pos + delimiter_len)[delimiter_len - 1] == b[pos
                        + delimiter_len - 1]);
                    self.lemma_boundary(pos as int);
                    self.lemma_boundary(pos + delimiter_len);
                }
                let result = self.slice(start, pos);
                self.position = pos + delimiter_len;
                return result;
            }
            pos += 1;
        }
        proof {
            self.lemma_boundary(b.len() as int);
        }
        self.position = self.end;
        self.slice(start, self.end)
    }

    /// `self` reads the same text as `before` and stands where `scan` says.
    spec fn stepped(&self, before: &Self, scan: Scan) -> bool {
        &&& self.wf()
        &&& self.input == before.input
        &&& self.bytes == before.bytes
        &&& self.end == before.end
        &&& self.in_tag == scan.in_tag
        &&& self.position == scan.pos
    }

    /// Moves the cursor to the first byte in `class` at or after it, or to the
    /// end, and returns where it stood.
    fn advance_to(&mut self, class: ByteClass) -> (start: usize)
        requires
            old(self).wf(),
            forall|c: u8| in_class(class, c) ==> c < 0x80,
        ensures
            start == old(self).position,
            start <= final(self).position,
            final(self).moved(
                old(self),
                first_in_class(old(self).bytes@, old(self).position as int, class),
            ),
    {
        let start = self.position;
        let mut pos = start;
        while pos < self.end && !byte_in_class(class, self.bytes[pos])
            invariant
                self.end == self.bytes@.len(),
                start <= pos <= self.end,
                first_in_class(self.bytes@, start as int, class) == first_in_class(
                    self.bytes@,
                    pos as int,
                    class,
                ),
            decreases self.end - pos,
        {
            pos += 1;
        }
        proof {
            self.lemma_boundary(pos as int);
        }
        self.position = pos;
        start
    }

    /// Takes a tag's name: the text up to the next `>`, `/` or whitespace.
    fn consume_tag_name(&mut self) -> (name: &'a str)
        requires
            old(self).wf(),
        ensures
            final(self).moved(
                old(self),
                first_in_class(old(self).bytes@, old(self).position as int, ByteClass::TagNameEnd),
            ),
            name@.len() <= final(self).position - old(self).position,
            name@ == text_between(
                old(self).bytes@,
                old(self).position as int,
                first_in_class(old(self).bytes@, old(self).position as int, ByteClass::TagNameEnd),
            ),
    {
        let start = self.advance_to(ByteClass::TagNameEnd);
        self.slice(start, self.position)
    }

    /// Takes the text up to the next `byte`, which stays unread. Without one,
    /// takes the rest of the text.
    fn consume_until_byte(&mut self, byte: u8) -> (taken: &'a str)
        requires
            old(self).wf(),
            byte < 0x80,
        ensures
            final(self).moved(
                old(self),
                first_in_class(
                    old(self).bytes@,
                    old(self).position as int,
                    ByteClass::Exactly(byte),
                ),
            ),
            taken@.len() <= final(self).position - old(self).position,
            taken@ == text_between(
                old(self).bytes@,
                old(self).position as int,
                first_in_class(
                    old(self).bytes@,
                    old(self).position as int,
                    ByteClass::Exactly(byte),
                ),
            ),
    {
        let start = self.position;
        let ghost b = self.bytes@;
        let rest = slice_subrange(self.bytes, self.position, self.end);
        if let Some(pos) = memchr(byte, rest) {
            proof {
                assert forall|j: int| start <= j < start + pos implies !in_class(
                    ByteClass::Exactly(byte),
                    #[trigger] b[j],
                ) by {
                    assert(rest@[j - start] == b[j]);
                }
                assert(rest@[pos as int] == b[start + pos]);
                lemma_first_in_class_is(b, start as int, ByteClass::Exactly(byte), start + pos);
                self.lemma_boundary(start + pos);
            }
            self.position += pos;
        } else {
            proof {
                assert forall|j: int| start <= j < b.len() implies !in_class(
                    ByteClass::Exactly(byte),
                    #[trigger] b[j],
                ) by {
                    assert(rest@[j - start] == b[j]);
                }
                lemma_first_in_class_is(b, start as int, ByteClass::Exactly(byte), b.len() as int);
                self.lemma_boundary(b.len() as int);
            }
            self.position = self.end;
        }
        self.slice(start, self.position)
    }

    /// Moves past an attribute's name, and past the `=` after it if there is
    /// one; tells whether there was.
    fn consume_attribute_name(&mut self) -> (has_equals: bool)
        requires
            old(self).wf(),
        ensures
            ({
                let b = old(self).bytes@;
                let end = first_in_class(b, old(self).position as int, ByteClass::AttributeNameEnd);
                &&& has_equals == (end < b.len() && b[end] == EQUALS)
                &&& final(self).moved(
                    old(self),
                    if has_equals {
                        end + 1
                    } else {
                        end
                    },
                )
            }),
    {
        self.advance_to(ByteClass::AttributeNameEnd);
        if self.position < self.end && self.bytes[self.position] == EQUALS {
            proof {
                self.lemma_boundary(self.position + 1);
            }
            self.position += 1;
            true
        } else {
            false
        }
    }

    /// Moves past a quoted value, from its opening quote to after its closing
    /// one, or to the end of the text.
    fn consume_quoted_value(&mut self, quote_char: u8)
        requires
            old(self).wf(),
            old(self).position < old(self).end,
            old(self).bytes@[old(self).position as int] == quote_char,
            quote_char < 0x80,
        ensures
            final(self).moved(
                old(self),
                past(
                    old(self).bytes@,
                    first_in_class(
                        old(self).bytes@,
                        old(self).position + 1,
                        ByteClass::Exactly(quote_char),
                    ),
                    1,
                ),
            ),
    {
        proof {
            self.lemma_boundary(self.position + 1);
        }
        self.position += 1;
        self.advance_to(ByteClass::Exactly(quote_char));
        if self.position < self.end {
            proof {
                lemma_first_in_class(
                    self.bytes@,
                    old(self).position + 1,
                    ByteClass::Exactly(quote_char),
                );
                self.lemma_boundary(self.position + 1);
            }
            self.position += 1;
        }
    }

    /// Moves past a value without quotes: up to the next `>` or whitespace.
    fn consume_unquoted_value(&mut self)
        requires
            old(self).wf(),
        ensures
            final(self).moved(
                old(self),
                first_in_class(old(self).bytes@, old(self).position as int, ByteClass::ValueEnd),
            ),
    {
        self.advance_to(ByteClass::ValueEnd);
    }

    /// Takes one attribute, after the whitespace before it. There is none at the
    /// end of the text and before a `>`.
    fn consume_attribute(&mut self) -> (attribute: Option<&'a str>)
        requires
            old(self).wf(),
        ensures
            ({
                let b = old(self).bytes@;
                let start = first_in_class(b, old(self).position as int, ByteClass::NotSpace);
                if start < b.len() && b[start] != GREATER_THAN {
                    &&& attribute matches Some(text)
                    &&& text@.len() <= final(self).position - old(self).position
                    &&& text@ == text_between(b, start, attribute_end(b, start))
                    &&& final(self).moved(old(self), attribute_end(b, start))
                } else {
                    &&& attribute is None
                    &&& final(self).moved(old(self), start)
                }
            }),
    {
        self.skip_whitespace();
        if self.position >= self.end || self.bytes[self.position] == GREATER_THAN {
            return None;
        }
        let start = self.position;
        let ghost b = self.bytes@;
        proof {
            lemma_first_in_class(b, old(self).position as int, ByteClass::NotSpace);
            lemma_first_in_class(b, start as int, ByteClass::AttributeNameEnd);
        }
        let has_equals = self.consume_attribute_name();
        if has_equals {
            let ghost after_name = self.position as int;
            self.skip_whitespace();
            let ghost value = self.position as int;
            proof {
                lemma_first_in_class(b, after_name, ByteClass::NotSpace);
                lemma_first_in_class(b, value, ByteClass::ValueEnd);
                if value < b.len() {
                    lemma_first_in_class(b, value + 1, ByteClass::Exactly(b[value]));
                }
            }
            if self.position < self.end && (self.bytes[self.position] == DOUBLE_QUOTE
                || self.bytes[self.position] == SINGLE_QUOTE) {
                let quote_char = self.bytes[self.position];
                self.consume_quoted_value(quote_char);
            } else {
                self.consume_unquoted_value();
            }
        }
        if self.position > start {
            Some(self.slice(start, self.position))
        } else {
            None
        }
    }

    /// The next token, or `None` when no token is left. The cursor only moves
    /// forward: every token takes at least one byte, and after `None` the cursor
    /// stands at the end of the text.
    pub fn next_token(&mut self) -> (token: Option<Token<'a>>)
        requires
            old(self).wf(),
        ensures
            final(self).wf(),
            final(self).source() == old(self).source(),
            old(self).cursor() <= final(self).cursor() <= final(self).source().len(),
            token is Some ==> old(self).cursor() < final(self).cursor(),
            token is None ==> final(self).cursor() == final(self).source().len(),
            ({
                let scan = next_token_at(
                    old(self).source(),
                    old(self).cursor(),
                    old(self).inside_tag(),
                );
                &&& token_text_len(token) <= final(self).cursor() - old(self).cursor()
                &&& token_view(token) == scan.token
                &&& final(self).cursor() == scan.pos
                &&& final(self).inside_tag() == scan.in_tag
            }),
    {
        proof {
            lemma_next_token_advances(self.bytes@, self.position as int, self.in_tag);
        }
        self.skip_whitespace();
        if self.position >= self.end {
            return None;
        }
        let ghost b = self.bytes@;
        let ghost start = self.position as int;
        proof {
            lemma_first_in_class(b, old(self).position as int, ByteClass::NotSpace);
            lemma_first_in_class_is(b, start, ByteClass::NotSpace, start);
        }
        if self.in_tag {
            if self.position < self.end && self.bytes[self.position] == GREATER_THAN {
                proof {
                    self.lemma_boundary(self.position + 1);
                }
                self.position += 1;
                self.in_tag = false;
                return Some(Token::TagOpenEnd);
            }
            if self.end - self.position > 1 && self.bytes[self.position] == SLASH
                && self.bytes[self.position + 1] == GREATER_THAN {
                proof {
                    self.lemma_boundary(self.position + 2);
                }
                self.position += 2;
                self.in_tag = false;
                return Some(Token::TagSelfClose);
            }
            if let Some(attr) = self.consume_attribute() {
                return Some(Token::Attribute(attr));
            }
            // Without an attribute to take, what follows is read as text. The
            // bytes seen above rule this out: one that is neither whitespace nor
            // `>` always starts an attribute.
            self.in_tag = false;
        }
        if self.bytes[self.position] == LESS_THAN {
            self.parse_tag()
        } else {
            self.parse_text_node()
        }
    }

    /// Reads the token that starts with the `<` at the cursor.
    fn parse_tag(&mut self) -> (token: Option<Token<'a>>)
        requires
            old(self).wf(),
            old(self).position < old(self).end,
            old(self).bytes@[old(self).position as int] == LESS_THAN,
            !old(self).in_tag,
        ensures
            final(self).stepped(old(self), tag(old(self).bytes@, old(self).position + 1)),
            token_text_len(token) <= final(self).position - old(self).position,
            token_view(token) == tag(old(self).bytes@, old(self).position + 1).token,
    {
        proof {
            self.lemma_boundary(self.position + 1);
        }
        self.position += 1;
        if self.position >= self.end {
            return None;
        }
        if self.bytes[self.position] == BANG {
            self.parse_special_tag()
        } else if self.bytes[self.position] == SLASH {
            self.parse_close_tag()
        } else {
            self.parse_open_tag()
        }
    }

    /// Moves past a `>` if the cursor stands at one.
    fn skip_closing_bracket(&mut self)
        requires
            old(self).wf(),
        ensures
            final(self).moved(
                old(self),
                if old(self).position < old(self).end && old(self).bytes@[old(
                    self,
                ).position as int] == GREATER_THAN {
                    old(self).position + 1
                } else {
                    old(self).position as int
                },
            ),
    {
        if self.position < self.end && self.bytes[self.position] == GREATER_THAN {
            proof {
                self.lemma_boundary(self.position + 1);
            }
            self.position += 1;
        }
    }

    /// Reads the token that starts with `<!`; the cursor stands at the `!`.
    fn parse_special_tag(&mut self) -> (token: Option<Token<'a>>)
        requires
            old(self).wf(),
            0 < old(self).position < old(self).end,
            old(self).bytes@[old(self).position as int] == BANG,
            old(self).bytes@[old(self).position - 1] == LESS_THAN,
            !old(self).in_tag,
        ensures
            final(self).stepped(old(self), special_tag(old(self).bytes@, old(self).position + 1)),
            token_text_len(token) <= final(self).position - old(self).position + 1,
            token_view(token) == special_tag(old(self).bytes@, old(self).position + 1).token,
    {
        let ghost b = self.bytes@;
        proof {
            self.lemma_boundary(self.position + 1);
            self.lemma_boundary(self.position - 1);
        }
        self.position += 1;
        let ghost q = self.position as int;
        let dashes: [u8; 2] = [DASH, DASH];
        let doctype: [u8; 7] = [68, 79, 67, 84, 89, 80, 69];
        let cdata: [u8; 7] = [LEFT_BRACKET, 67, 68, 65, 84, 65, LEFT_BRACKET];
        assert(dashes@ =~= comment_open());
        assert(doctype@ =~= doctype_open());
        assert(cdata@ =~= cdata_open());
        if self.end - self.position > 2 && self.matches_at(self.position, dashes.as_slice()) {
            proof {
                assert(b.subrange(q, q + 2)[1] == b[q + 1]);
                self.lemma_boundary(q + 2);
            }
            self.position += 2;
            let close: [u8; 3] = [DASH, DASH, GREATER_THAN];
            assert(close@ =~= comment_close());
            let content = self.consume_until_bytes(close.as_slice());
            Some(Token::Comment(content))
        } else if self.end - self.position > 7 && self.matches_at(
            self.position,
            doctype.as_slice(),
        ) {
            let start = self.position - 2;
            let _content = self.consume_until_byte(GREATER_THAN);
            proof {
                lemma_first_in_class(b, q, ByteClass::Exactly(GREATER_THAN));
            }
            self.skip_closing_bracket();
            Some(Token::Doctype(self.slice(start, self.position)))
        } else if self.end - self.position > 7 && self.matches_at(self.position, cdata.as_slice()) {
            proof {
                assert(b.subrange(q, q + 7)[6] == b[q + 6]);
                self.lemma_boundary(q + 7);
            }
            self.position += 7;
            let close: [u8; 3] = [RIGHT_BRACKET, RIGHT_BRACKET, GREATER_THAN];
            assert(close@ =~= cdata_close());
            let content = self.consume_until_bytes(close.as_slice());
            Some(Token::Cdata(content))
        } else {
            let start = self.position - 2;
            let _content = self.consume_until_byte(GREATER_THAN);
            proof {
                lemma_first_in_class(b, q, ByteClass::Exactly(GREATER_THAN));
            }
            self.skip_closing_bracket();
            Some(Token::Declaration(self.slice(start, self.position)))
        }
    }

    /// Reads a closing tag; the cursor stands at the `/` after its `<`.
    fn parse_close_tag(&mut self) -> (token: Option<Token<'a>>)
        requires
            old(self).wf(),
            old(self).position < old(self).end,
            old(self).bytes@[old(self).position as int] == SLASH,
            !old(self).in_tag,
        ensures
            final(self).stepped(old(self), close_tag(old(self).bytes@, old(self).position + 1)),
            token_text_len(token) <= final(self).position - old(self).position,
            token_view(token) == close_tag(old(self).bytes@, old(self).position + 1).token,
    {
        proof {
            self.lemma_boundary(self.position + 1);
            lemma_first_in_class(
                self.bytes@,
                self.position + 1,
                ByteClass::Exactly(GREATER_THAN),
            );
        }
        self.position += 1;
        let tag_name = self.consume_until_byte(GREATER_THAN);
        self.skip_closing_bracket();
        Some(Token::TagClose(tag_name))
    }

    /// Reads the start of an opening tag; the cursor stands at its name.
    fn parse_open_tag(&mut self) -> (token: Option<Token<'a>>)
        requires
            old(self).wf(),
        ensures
            final(self).stepped(old(self), open_tag(old(self).bytes@, old(self).position as int)),
            token_text_len(token) <= final(self).position - old(self).position,
            token_view(token) == open_tag(old(self).bytes@, old(self).position as int).token,
    {
        let tag_name = self.consume_tag_name();
        self.in_tag = true;
        Some(Token::TagOpenStart(tag_name))
    }

    /// Reads a run of text up to the next `<`.
    fn parse_text_node(&mut self) -> (token: Option<Token<'a>>)
        requires
            old(self).wf(),
            old(self).position < old(self).end,
            old(self).bytes@[old(self).position as int] != LESS_THAN,
        ensures
            final(self).moved(
                old(self),
                first_in_class(
                    old(self).bytes@,
                    old(self).position as int,
                    ByteClass::Exactly(LESS_THAN),
                ),
            ),
            token_text_len(token) <= final(self).position - old(self).position,
            token_view(token) == Some(
                TokenView::TextNode(
                    text_between(
                        old(self).bytes@,
                        old(self).position as int,
                        first_in_class(
                            old(self).bytes@,
                            old(self).position as int,
                            ByteClass::Exactly(LESS_THAN),
                        ),
                    ),
                ),
            ),
    {
        let start = self.position;
        proof {
            lemma_first_in_class(self.bytes@, start as int, ByteClass::Exactly(LESS_THAN));
        }
        let text = self.consume_until_byte(LESS_THAN);
        if self.position > start {
            Some(Token::TextNode(text))
        } else {
            None
        }
    }
}

/// Whether `c` is in `class`.
fn byte_in_class(class: ByteClass, c: u8) -> (b: bool)
    ensures
        b == in_class(class, c),
{
    let space = c == SPACE || c == TAB || c == LINE_FEED || c == CARRIAGE_RETURN;
    match class {
        ByteClass::NotSpace => !space,
        ByteClass::TagNameEnd => c == GREATER_THAN || c == SLASH || space,
        ByteClass::AttributeNameEnd => c == EQUALS || c == GREATER_THAN || space,
        ByteClass::ValueEnd => c == GREATER_THAN || space,
        ByteClass::Exactly(x) => c == x,
    }
}

} // verus!
