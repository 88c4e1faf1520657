//! CSS minification: one pass over the characters, with the last character
//! written as the only lookback.

use crate::text::{
    block_comment_end, char_at, chars_to_string, copy_quoted, is_whitespace_char,
    lemma_block_comment_end_bounds, lemma_quoted_end_bounds, lemma_skip_whitespace_bounds,
    lemma_trim_is_clean, lemma_trim_len, pop_last, quoted_end, skip_block_comment,
    skip_whitespace, skip_whitespace_chars, starts_clean, str_to_chars, trim_start,
};
use vstd::prelude::*;

verus! {

/// No space is needed after one of these.
pub open spec fn css_no_space_after(c: char) -> bool {
    c == '{' || c == '}' || c == ':' || c == ';' || c == ',' || c == '>' || c == '+' || c == '~'
        || c == '(' || c == '['
}

/// No space is needed before one of these.
pub open spec fn css_no_space_before(c: char) -> bool {
    c == '{' || c == '}' || c == ':' || c == ';' || c == ',' || c == ')' || c == ']'
}

/// Whether a run of whitespace between `last` and `next` has to leave a space.
pub open spec fn css_space_needed(last: char, next: Option<char>) -> bool {
    !css_no_space_after(last) && !(next is Some && css_no_space_before(next->0))
}

/// The characters before which a pending space is taken back.
pub open spec fn css_tight_before(c: char) -> bool {
    c == ':' || c == ',' || c == '{' || c == '>' || c == '+' || c == '~'
}

/// The minifier between two steps: the next position to read, what has been
/// written, and the last character written or seen.
pub struct CssState {
    pub pos: int,
    pub out: Seq<char>,
    pub last: char,
}

/// A string literal that opens at `st.pos` is copied whole.
pub open spec fn css_after_string(s: Seq<char>, st: CssState) -> CssState {
    let quote = s[st.pos];
    let end = quoted_end(s, st.pos + 1, quote);
    CssState { pos: end, out: st.out.push(quote) + s.subrange(st.pos + 1, end), last: quote }
}

/// A `/` at `st.pos` opens a comment, which is dropped, or stands for itself.
pub open spec fn css_after_slash(s: Seq<char>, st: CssState) -> CssState {
    if char_at(s, st.pos + 1) == Some('*') {
        CssState { pos: block_comment_end(s, st.pos + 2, ' '), out: st.out, last: st.last }
    } else {
        CssState { pos: st.pos + 1, out: st.out.push('/'), last: '/' }
    }
}

/// A run of whitespace that starts at `st.pos` leaves one space or none.
pub open spec fn css_after_whitespace(s: Seq<char>, st: CssState) -> CssState {
    let end = skip_whitespace(s, st.pos + 1);
    let out = if css_space_needed(st.last, char_at(s, end)) && st.last != ' ' {
        st.out.push(' ')
    } else {
        st.out
    };
    CssState { pos: end, out, last: if out.len() > 0 { out.last() } else { st.last } }
}

/// A `;` at `st.pos` is written unless the block closes right after it.
pub open spec fn css_after_semicolon(s: Seq<char>, st: CssState) -> CssState {
    if char_at(s, skip_whitespace(s, st.pos + 1)) == Some('}') {
        CssState { pos: st.pos + 1, out: st.out, last: ';' }
    } else {
        let kept = if st.last == ' ' { pop_last(st.out) } else { st.out };
        CssState { pos: st.pos + 1, out: kept.push(';'), last: ';' }
    }
}

/// A `}` at `st.pos` takes back a space or semicolon written just before it.
pub open spec fn css_after_close_brace(st: CssState) -> CssState {
    let kept = if (st.last == ' ' || st.last == ';') && st.out.len() > 0 && (st.out.last() == ' '
        || st.out.last() == ';') {
        st.out.drop_last()
    } else {
        st.out
    };
    CssState { pos: st.pos + 1, out: kept.push('}'), last: '}' }
}

/// One step of the minifier: what reading the character at `st.pos` leads to.
pub open spec fn css_step(s: Seq<char>, st: CssState) -> CssState {
    let ch = s[st.pos];
    if ch == '"' || ch == '\'' {
        css_after_string(s, st)
    } else if ch == '/' {
        css_after_slash(s, st)
    } else if is_whitespace_char(ch) {
        css_after_whitespace(s, st)
    } else if css_tight_before(ch) {
        let kept = if st.last == ' ' { pop_last(st.out) } else { st.out };
        CssState { pos: st.pos + 1, out: kept.push(ch), last: ch }
    } else if ch == ';' {
        css_after_semicolon(s, st)
    } else if ch == '}' {
        css_after_close_brace(st)
    } else {
        CssState { pos: st.pos + 1, out: st.out.push(ch), last: ch }
    }
}

/// Every step moves on and stays inside the input.
pub proof fn lemma_css_step_advances(s: Seq<char>, st: CssState)
    requires
        0 <= st.pos < s.len(),
    ensures
        st.pos < css_step(s, st).pos <= s.len(),
{
    lemma_quoted_end_bounds(s, st.pos + 1, s[st.pos]);
    if st.pos + 2 <= s.len() {
        lemma_block_comment_end_bounds(s, st.pos + 2, ' ');
    }
    lemma_skip_whitespace_bounds(s, st.pos + 1);
}

/// The state in which the minifier stops when it starts from `st`.
pub open spec fn css_run(s: Seq<char>, st: CssState) -> CssState
    decreases s.len() - st.pos,
    when 0 <= st.pos
    via css_run_decreases
{
    if st.pos >= s.len() {
        st
    } else {
        css_run(s, css_step(s, st))
    }
}

#[via_fn]
proof fn css_run_decreases(s: Seq<char>, st: CssState) {
    if st.pos < s.len() {
        lemma_css_step_advances(s, st);
    }
}

/// The minified form of the style sheet `s`.
pub open spec fn css_minified(s: Seq<char>) -> Seq<char> {
    let end = css_run(s, CssState { pos: 0, out: Seq::empty(), last: '\0' });
    trim_start(if end.last == ' ' { pop_last(end.out) } else { end.out })
}

/// Copies a string literal to `result`. `pos` is the position after its opening
/// `quote`; the result is the position after the literal.
fn handle_css_string_literal(
    result: &mut Vec<char>,
    input: &Vec<char>,
    pos: usize,
    quote: char,
) -> (next: usize)
    requires
        pos <= input.len(),
    ensures
        next == quoted_end(input@, pos as int, quote),
        pos <= next <= input.len(),
        final(result)@ == old(result)@.push(quote) + input@.subrange(pos as int, next as int),
{
    result.push(quote);
    copy_quoted(result, input, pos, quote)
}

/// Skips a comment if one opens here. `pos` is the position after a `/`; the
/// result is where to read on, and differs from `pos` exactly when there was a
/// comment.
fn handle_css_comment(input: &Vec<char>, pos: usize) -> (next: usize)
    requires
        pos <= input.len(),
    ensures
        char_at(input@, pos as int) == Some('*') ==> next == block_comment_end(
            input@,
            pos + 1,
            ' ',
        ) && next > pos,
        char_at(input@, pos as int) != Some('*') ==> next == pos,
        next <= input.len(),
{
    if pos < input.len() && input[pos] == '*' {
        skip_block_comment(input, pos + 1)
    } else {
        pos
    }
}

/// Whether a run of whitespace between `last_ch` and `next_char` has to leave
/// a space.
fn should_add_css_space(last_ch: char, next_char: Option<char>) -> (needed: bool)
    ensures
        needed == css_space_needed(last_ch, next_char),
{
    if last_ch == '{' || last_ch == '}' || last_ch == ':' || last_ch == ';' || last_ch == ','
        || last_ch == '>' || last_ch == '+' || last_ch == '~' || last_ch == '(' || last_ch == '[' {
        return false;
    }
    if let Some(next) = next_char {
        if next == '{' || next == '}' || next == ':' || next == ';' || next == ',' || next == ')'
            || next == ']' {
            return false;
        }
    }
    true
}

/// Skips a run of whitespace and writes the one space it leaves, if any. `pos`
/// is the position after the first whitespace character.
fn handle_css_whitespace(
    result: &mut Vec<char>,
    input: &Vec<char>,
    pos: usize,
    last_ch: char,
) -> (next: usize)
    requires
        pos <= input.len(),
    ensures
        next == skip_whitespace(input@, pos as int),
        pos <= next <= input.len(),
        final(result)@ == if css_space_needed(last_ch, char_at(input@, next as int)) && last_ch
            != ' ' {
            old(result)@.push(' ')
        } else {
            old(result)@
        },
{
    let next = skip_whitespace_chars(input, pos);
    let peek = if next < input.len() { Some(input[next]) } else { None };
    if should_add_css_space(last_ch, peek) && last_ch != ' ' {
        result.push(' ');
    }
    next
}

/// Minifies a style sheet given as characters.
pub fn minify_css_chars(input: &Vec<char>) -> (result: Vec<char>)
    ensures
        result@ == css_minified(input@),
{
    let mut result: Vec<char> = Vec::new();
    let mut pos: usize = 0;
    let mut last_ch: char = '\0';
    let ghost start = CssState { pos: 0, out: Seq::empty(), last: '\0' };
    while pos < input.len()
        invariant
            pos <= input.len(),
            css_run(input@, start) == css_run(
                input@,
                CssState { pos: pos as int, out: result@, last: last_ch },
            ),
        decreases input.len() - pos,
    {
        let ghost before = CssState { pos: pos as int, out: result@, last: last_ch };
        proof {
            lemma_css_step_advances(input@, before);
        }
        let ch = input[pos];
        pos += 1;
        if ch == '"' || ch == '\'' {
            pos = handle_css_string_literal(&mut result, input, pos, ch);
            last_ch = ch;
        } else if ch == '/' {
            let next = handle_css_comment(input, pos);
            if next == pos {
                result.push(ch);
                last_ch = ch;
            }
            pos = next;
        } else if ch.is_whitespace() {
            pos = handle_css_whitespace(&mut result, input, pos, last_ch);
            if result.len() > 0 {
                last_ch = result[result.len() - 1];
            }
        } else if ch == ':' || ch == ',' || ch == '{' || ch == '>' || ch == '+' || ch == '~' {
            if last_ch == ' ' {
                result.pop();
            }
            result.push(ch);
            last_ch = ch;
        } else if ch == ';' {
            let ahead = skip_whitespace_chars(input, pos);
            if ahead < input.len() && input[ahead] == '}' {
                last_ch = ';';
            } else {
                if last_ch == ' ' {
                    result.pop();
                }
                result.push(ch);
                last_ch = ch;
            }
        } else if ch == '}' {
            if last_ch == ' ' || last_ch == ';' {
                if result.len() > 0 {
                    let last = result[result.len() - 1];
                    if last == ' ' || last == ';' {
                        result.pop();
                    }
                }
            }
            result.push(ch);
            last_ch = ch;
        } else {
            result.push(ch);
            last_ch = ch;
        }
        assert(CssState { pos: pos as int, out: result@, last: last_ch } == css_step(
            input@,
            before,
        ));
    }
    if last_ch == ' ' {
        result.pop();
    }
    let leading = skip_whitespace_chars(&result, 0);
    let mut trimmed: Vec<char> = Vec::new();
    crate::text::append_range(&mut trimmed, &result, leading, result.len());
    assert(trimmed@ == result@.skip(leading as int));
    trimmed
}

/// Minifies a style sheet: comments go, whitespace shrinks to the single spaces
/// that keep two words apart, and a block's last semicolon is dropped. String
/// literals are kept as they are.
pub fn minify_css(css: &str) -> (result: String)
    ensures
        result@ == css_minified(css@),
        result@.len() <= css@.len(),
        starts_clean(result@),
{
    proof {
        lemma_css_never_lengthens(css@);
        let end = css_run(css@, CssState { pos: 0, out: Seq::empty(), last: '\0' });
        lemma_trim_is_clean(if end.last == ' ' { pop_last(end.out) } else { end.out });
    }
    let input = str_to_chars(css);
    let output = minify_css_chars(&input);
    chars_to_string(&output)
}

/// A step writes no more characters than it reads.
pub proof fn lemma_css_step_len(s: Seq<char>, st: CssState)
    requires
        0 <= st.pos < s.len(),
        st.out.len() <= st.pos,
    ensures
        css_step(s, st).out.len() <= css_step(s, st).pos,
{
    lemma_css_step_advances(s, st);
    lemma_quoted_end_bounds(s, st.pos + 1, s[st.pos]);
    lemma_skip_whitespace_bounds(s, st.pos + 1);
}

/// From a state that has written no more than it has read, the minifier stops
/// with no more written than the input holds.
pub proof fn lemma_css_run_len(s: Seq<char>, st: CssState)
    requires
        0 <= st.pos <= s.len(),
        st.out.len() <= st.pos,
    ensures
        css_run(s, st).out.len() <= s.len(),
    decreases s.len() - st.pos,
{
    if st.pos < s.len() {
        lemma_css_step_advances(s, st);
        lemma_css_step_len(s, st);
        lemma_css_run_len(s, css_step(s, st));
    }
}

/// Minifying a style sheet never lengthens it.
pub proof fn lemma_css_never_lengthens(s: Seq<char>)
    ensures
        css_minified(s).len() <= s.len(),
{
    let end = css_run(s, CssState { pos: 0, out: Seq::empty(), last: '\0' });
    lemma_css_run_len(s, CssState { pos: 0, out: Seq::empty(), last: '\0' });
    lemma_trim_len(if end.last == ' ' { pop_last(end.out) } else { end.out });
}

} // verus!
