//! JavaScript minification: one pass over the characters. Whether a `/` opens a
//! regular expression or divides is decided from what has been written so far.

use crate::text::{
    append_range, block_comment_end, char_at, chars_to_string, copy_quoted, ends_clean,
    is_alphanumeric_char, is_whitespace_char, lemma_block_comment_end_bounds,
    lemma_quoted_end_bounds, lemma_skip_whitespace_bounds, lemma_trim_is_clean, lemma_trim_len,
    quoted_end, skip_block_comment, skip_whitespace, skip_whitespace_chars, starts_clean,
    str_to_chars, trim, trim_chars, trim_end, trimmed_end,
};
use vstd::prelude::*;

verus! {

/// A character that can stand in an identifier or a number.
pub open spec fn js_word_char(c: char) -> bool {
    is_alphanumeric_char(c) || c == '_' || c == '$'
}

/// A character after which an operand counts as finished.
pub open spec fn js_operand_end(c: char) -> bool {
    is_alphanumeric_char(c) || c == ')' || c == ']' || c == '_' || c == '$'
}

/// A character after which only an operand can follow.
pub open spec fn js_opens_operand(c: char) -> bool {
    c == '(' || c == '[' || c == '{' || c == ',' || c == ';' || c == ':' || c == '=' || c == '!'
        || c == '&' || c == '|' || c == '?' || c == '~'
}

/// An operator character that may be unary or binary.
pub open spec fn js_ambiguous_operator(c: char) -> bool {
    c == '+' || c == '-' || c == '*' || c == '%' || c == '<' || c == '>'
}

/// The two characters form one of the doubled operators.
pub open spec fn js_double_operator(a: char, b: char) -> bool {
    (a == '+' && b == '+') || (a == '-' && b == '-') || (a == '*' && b == '*') || (a == '=' && b
        == '=') || (a == '!' && b == '=') || (a == '<' && b == '=') || (a == '>' && b == '=') || (a
        == '<' && b == '<') || (a == '>' && b == '>') || (a == '&' && b == '&') || (a == '|' && b
        == '|') || (a == '?' && b == '?')
}

/// `t` ends with a character after which only an operand can follow.
pub open spec fn regex_after_single_char_operator(t: Seq<char>) -> bool {
    t.len() > 0 && js_opens_operand(t.last())
}

/// `t` ends with a doubled operator.
pub open spec fn regex_after_double_operator(t: Seq<char>) -> bool {
    t.len() >= 2 && js_double_operator(t[t.len() - 2], t[t.len() - 1])
}

/// What an ambiguous operator at the end of `t` says: `Some(false)` when it
/// follows a finished operand and so is binary, `Some(true)` when it is unary,
/// `None` when `t` does not end with one.
pub open spec fn regex_after_ambiguous_operator(t: Seq<char>) -> Option<bool> {
    if t.len() > 0 && js_ambiguous_operator(t.last()) {
        Some(!(t.len() >= 2 && js_operand_end(t[t.len() - 2])))
    } else {
        None
    }
}

/// `t` ends with `kw`.
pub open spec fn ends_with(t: Seq<char>, kw: Seq<char>) -> bool {
    t.len() >= kw.len() && t.skip(t.len() - kw.len()) == kw
}

/// `t` ends with the word `kw`, which is not the tail of a longer word.
pub open spec fn ends_with_keyword(t: Seq<char>, kw: Seq<char>) -> bool {
    ends_with(t, kw) && (t.len() == kw.len() || !js_word_char(t[t.len() - kw.len() - 1]))
}

/// `t` ends with a keyword after which an expression starts.
pub open spec fn regex_after_keyword(t: Seq<char>) -> bool {
    ends_with_keyword(t, "return"@) || ends_with_keyword(t, "throw"@) || ends_with_keyword(
        t,
        "new"@,
    ) || ends_with_keyword(t, "typeof"@) || ends_with_keyword(t, "void"@) || ends_with_keyword(
        t,
        "delete"@,
    ) || ends_with_keyword(t, "in"@) || ends_with_keyword(t, "of"@) || ends_with_keyword(
        t,
        "instanceof"@,
    ) || ends_with_keyword(t, "yield"@) || ends_with_keyword(t, "await"@) || ends_with_keyword(
        t,
        "case"@,
    )
}

/// `t` ends with a finished operand.
pub open spec fn division_context(t: Seq<char>) -> bool {
    t.len() > 0 && js_operand_end(t.last())
}

/// Whether a `/` that follows the output `out` opens a regular expression. The
/// rules apply in this order to `out` without its trailing whitespace; when none
/// applies, the `/` divides.
pub open spec fn regex_context(out: Seq<char>) -> bool {
    let t = trim_end(out);
    if t.len() == 0 {
        true
    } else if regex_after_single_char_operator(t) {
        true
    } else if regex_after_double_operator(t) {
        true
    } else if regex_after_ambiguous_operator(t) is Some {
        regex_after_ambiguous_operator(t)->0
    } else if regex_after_keyword(t) {
        true
    } else if division_context(t) {
        false
    } else {
        false
    }
}

/// Where a line comment ends: after the next line feed at or after `pos`, or at
/// the end of `s`.
pub open spec fn line_comment_end(s: Seq<char>, pos: int) -> int
    decreases s.len() - pos,
{
    if !(0 <= pos < s.len()) {
        s.len() as int
    } else if s[pos] == '\n' {
        pos + 1
    } else {
        line_comment_end(s, pos + 1)
    }
}

/// Where a template literal ends. `pos` is a position inside it, `depth` the
/// number of `${` still open there; the result is the position after the
/// backtick that closes the literal outside any `${ }`, or the length of `s`.
pub open spec fn template_end(s: Seq<char>, pos: int, depth: nat) -> int
    decreases s.len() - pos,
{
    if !(0 <= pos < s.len()) {
        s.len() as int
    } else if s[pos] == '`' && depth == 0 {
        pos + 1
    } else if s[pos] == '\\' {
        if pos + 1 < s.len() {
            template_end(s, pos + 2, depth)
        } else {
            s.len() as int
        }
    } else if s[pos] == '$' {
        if pos + 1 < s.len() && s[pos + 1] == '{' {
            template_end(s, pos + 2, depth + 1)
        } else {
            template_end(s, pos + 1, depth)
        }
    } else if s[pos] == '}' && depth > 0 {
        template_end(s, pos + 1, (depth - 1) as nat)
    } else {
        template_end(s, pos + 1, depth)
    }
}

/// A flag letter of a regular expression.
pub open spec fn regex_flag(c: char) -> bool {
    c == 'g' || c == 'i' || c == 'm' || c == 's' || c == 'u' || c == 'y'
}

/// The first position at or after `pos` that holds no flag letter.
pub open spec fn regex_flags_end(s: Seq<char>, pos: int) -> int
    decreases s.len() - pos,
{
    if 0 <= pos < s.len() && regex_flag(s[pos]) {
        regex_flags_end(s, pos + 1)
    } else {
        pos
    }
}

/// Where a regular expression literal ends. `pos` is a position inside it and
/// `in_class` tells whether a `[` is open there; the result is the position
/// after the closing `/` and its flags, after a line break that cuts the literal
/// short, or the length of `s`.
pub open spec fn regex_end(s: Seq<char>, pos: int, in_class: bool) -> int
    decreases s.len() - pos,
{
    if !(0 <= pos < s.len()) {
        s.len() as int
    } else if s[pos] == '/' && !in_class {
        regex_flags_end(s, pos + 1)
    } else if s[pos] == '\\' {
        if pos + 1 < s.len() {
            regex_end(s, pos + 2, in_class)
        } else {
            s.len() as int
        }
    } else if s[pos] == '[' {
        regex_end(s, pos + 1, true)
    } else if s[pos] == ']' {
        regex_end(s, pos + 1, false)
    } else if s[pos] == '\n' || s[pos] == '\r' {
        pos + 1
    } else {
        regex_end(s, pos + 1, in_class)
    }
}

/// A line comment ends inside the text.
pub proof fn lemma_line_comment_end_bounds(s: Seq<char>, pos: int)
    requires
        0 <= pos <= s.len(),
    ensures
        pos <= line_comment_end(s, pos) <= s.len(),
    decreases s.len() - pos,
{
    if pos < s.len() && s[pos] != '\n' {
        lemma_line_comment_end_bounds(s, pos + 1);
    }
}

/// A template literal ends inside the text.
pub proof fn lemma_template_end_bounds(s: Seq<char>, pos: int, depth: nat)
    requires
        0 <= pos <= s.len(),
    ensures
        pos <= template_end(s, pos, depth) <= s.len(),
    decreases s.len() - pos,
{
    if pos < s.len() {
        if s[pos] == '`' && depth == 0 {
        } else if s[pos] == '\\' {
            if pos + 1 < s.len() {
                lemma_template_end_bounds(s, pos + 2, depth);
            }
        } else if s[pos] == '$' {
            if pos + 1 < s.len() && s[pos + 1] == '{' {
                lemma_template_end_bounds(s, pos + 2, depth + 1);
            } else {
                lemma_template_end_bounds(s, pos + 1, depth);
            }
        } else if s[pos] == '}' && depth > 0 {
            lemma_template_end_bounds(s, pos + 1, (depth - 1) as nat);
        } else {
            lemma_template_end_bounds(s, pos + 1, depth);
        }
    }
}

/// The flags of a regular expression end inside the text.
pub proof fn lemma_regex_flags_end_bounds(s: Seq<char>, pos: int)
    requires
        0 <= pos <= s.len(),
    ensures
        pos <= regex_flags_end(s, pos) <= s.len(),
    decreases s.len() - pos,
{
    if pos < s.len() && regex_flag(s[pos]) {
        lemma_regex_flags_end_bounds(s, pos + 1);
    }
}

/// A regular expression literal ends inside the text.
pub proof fn lemma_regex_end_bounds(s: Seq<char>, pos: int, in_class: bool)
    requires
        0 <= pos <= s.len(),
    ensures
        pos <= regex_end(s, pos, in_class) <= s.len(),
    decreases s.len() - pos,
{
    if pos < s.len() {
        if s[pos] == '/' && !in_class {
            lemma_regex_flags_end_bounds(s, pos + 1);
        } else if s[pos] == '\\' {
            if pos + 1 < s.len() {
                lemma_regex_end_bounds(s, pos + 2, in_class);
            }
        } else if s[pos] == '[' {
            lemma_regex_end_bounds(s, pos + 1, true);
        } else if s[pos] == ']' {
            lemma_regex_end_bounds(s, pos + 1, false);
        } else if s[pos] == '\n' || s[pos] == '\r' {
        } else {
            lemma_regex_end_bounds(s, pos + 1, in_class);
        }
    }
}

/// The minifier between two steps: the next position to read and what has been
/// written.
pub struct JsState {
    pub pos: int,
    pub out: Seq<char>,
}

/// A `/` at `st.pos` opens a comment, which is dropped, or a regular expression,
/// which is copied whole, or divides.
pub open spec fn js_after_slash(s: Seq<char>, st: JsState) -> JsState {
    let p = st.pos + 1;
    if char_at(s, p) == Some('/') {
        JsState { pos: line_comment_end(s, p + 1), out: st.out }
    } else if char_at(s, p) == Some('*') {
        JsState { pos: block_comment_end(s, p + 1, ' '), out: st.out }
    } else if regex_context(st.out) {
        let end = regex_end(s, p, false);
        JsState { pos: end, out: st.out.push('/') + s.subrange(p, end) }
    } else {
        JsState { pos: p, out: st.out.push('/') }
    }
}

/// A run of whitespace that starts at `st.pos` leaves one space where it keeps
/// two words apart, and nothing elsewhere.
pub open spec fn js_after_whitespace(s: Seq<char>, st: JsState) -> JsState {
    let end = skip_whitespace(s, st.pos + 1);
    let keep = st.out.len() > 0 && st.out.last() != ' ' && end < s.len() && js_word_char(
        st.out.last(),
    ) && js_word_char(s[end]);
    JsState { pos: end, out: if keep { st.out.push(' ') } else { st.out } }
}

/// One step of the minifier: what reading the character at `st.pos` leads to.
pub open spec fn js_step(s: Seq<char>, st: JsState) -> JsState {
    let ch = s[st.pos];
    let p = st.pos + 1;
    if ch == '"' || ch == '\'' {
        let end = quoted_end(s, p, ch);
        JsState { pos: end, out: st.out.push(ch) + s.subrange(p, end) }
    } else if ch == '`' {
        let end = template_end(s, p, 0);
        JsState { pos: end, out: st.out.push(ch) + s.subrange(p, end) }
    } else if ch == '/' {
        js_after_slash(s, st)
    } else if is_whitespace_char(ch) {
        js_after_whitespace(s, st)
    } else {
        JsState { pos: p, out: st.out.push(ch) }
    }
}

/// Every step moves on and stays inside the input.
pub proof fn lemma_js_step_advances(s: Seq<char>, st: JsState)
    requires
        0 <= st.pos < s.len(),
    ensures
        st.pos < js_step(s, st).pos <= s.len(),
{
    let p = st.pos + 1;
    lemma_quoted_end_bounds(s, p, s[st.pos]);
    lemma_template_end_bounds(s, p, 0);
    lemma_regex_end_bounds(s, p, false);
    lemma_skip_whitespace_bounds(s, p);
    if p + 1 <= s.len() {
        lemma_line_comment_end_bounds(s, p + 1);
        lemma_block_comment_end_bounds(s, p + 1, ' ');
    }
}

/// The state in which the minifier stops when it starts from `st`.
pub open spec fn js_run(s: Seq<char>, st: JsState) -> JsState
    decreases s.len() - st.pos,
    when 0 <= st.pos
    via js_run_decreases
{
    if st.pos >= s.len() {
        st
    } else {
        js_run(s, js_step(s, st))
    }
}

#[via_fn]
proof fn js_run_decreases(s: Seq<char>, st: JsState) {
    if st.pos < s.len() {
        lemma_js_step_advances(s, st);
    }
}

/// The minified form of the script `s`.
pub open spec fn js_minified(s: Seq<char>) -> Seq<char> {
    trim(js_run(s, JsState { pos: 0, out: Seq::empty() }).out)
}

/// Whether `c` can stand in an identifier or a number.
fn is_word_char(c: char) -> (b: bool)
    ensures
        b == js_word_char(c),
{
    c.is_alphanumeric() || c == '_' || c == '$'
}

/// Whether an operand counts as finished after `c`.
fn is_operand_end(c: char) -> (b: bool)
    ensures
        b == js_operand_end(c),
{
    c.is_alphanumeric() || c == ')' || c == ']' || c == '_' || c == '$'
}

/// Copies a string literal to `result`. `pos` is the position after its opening
/// `quote`; the result is the position after the literal.
fn handle_js_string_literal(
    result: &mut Vec<char>,
    input: &Vec<char>,
    pos: usize,
    quote: char,
) -> (next: usize)
    requires
        pos <= input.len(),
    ensures
        next == quoted_end(input@, pos as int, quote),
        pos <= next <= input.len(),
        final(result)@ == old(result)@.push(quote) + input@.subrange(pos as int, next as int),
{
    result.push(quote);
    copy_quoted(result, input, pos, quote)
}

/// Copies a template literal to `result`. `pos` is the position after its
/// opening backtick; the result is the position after the literal.
fn handle_js_template_literal(result: &mut Vec<char>, input: &Vec<char>, pos: usize) -> (next:
    usize)
    requires
        pos <= input.len(),
    ensures
        next == template_end(input@, pos as int, 0),
        pos <= next <= input.len(),
        final(result)@ == old(result)@.push('`') + input@.subrange(pos as int, next as int),
{
    result.push('`');
    let mut i: usize = pos;
    let mut depth: usize = 0;
    while i < input.len()
        invariant_except_break
            template_end(input@, pos as int, 0) == template_end(input@, i as int, depth as nat),
        invariant
            pos <= i <= input.len(),
            depth <= i - pos,
        ensures
            i == template_end(input@, pos as int, 0),
        decreases input.len() - i,
    {
        let ch = input[i];
        i += 1;
        if ch == '`' && depth == 0 {
            break;
        } else if ch == '\\' {
            if i < input.len() {
                i += 1;
            }
        } else if ch == '$' {
            if i < input.len() && input[i] == '{' {
                i += 1;
                depth += 1;
            }
        } else if ch == '}' && depth > 0 {
            depth -= 1;
        }
    }
    proof {
        lemma_template_end_bounds(input@, pos as int, 0);
    }
    append_range(result, input, pos, i);
    i
}

/// Copies a regular expression literal to `result`. `pos` is the position after
/// its opening `/`; the result is the position after the literal and its flags.
fn handle_js_regex(result: &mut Vec<char>, input: &Vec<char>, pos: usize) -> (next: usize)
    requires
        pos <= input.len(),
    ensures
        next == regex_end(input@, pos as int, false),
        pos <= next <= input.len(),
        final(result)@ == old(result)@.push('/') + input@.subrange(pos as int, next as int),
{
    result.push('/');
    let mut i: usize = pos;
    let mut in_char_class = false;
    while i < input.len()
        invariant_except_break
            regex_end(input@, pos as int, false) == regex_end(input@, i as int, in_char_class),
        invariant
            pos <= i <= input.len(),
        ensures
            i == regex_end(input@, pos as int, false),
        decreases input.len() - i,
    {
        let ch = input[i];
        i += 1;
        if ch == '/' && !in_char_class {
            while i < input.len() && (input[i] == 'g' || input[i] == 'i' || input[i] == 'm'
                || input[i] == 's' || input[i] == 'u' || input[i] == 'y')
                invariant
                    pos < i <= input.len(),
                    regex_end(input@, pos as int, false) == regex_flags_end(input@, i as int),
                decreases input.len() - i,
            {
                i += 1;
            }
            break;
        } else if ch == '\\' {
            if i < input.len() {
                i += 1;
            }
        } else if ch == '[' {
            in_char_class = true;
        } else if ch == ']' {
            in_char_class = false;
        } else if ch == '\n' || ch == '\r' {
            break;
        }
    }
    append_range(result, input, pos, i);
    i
}

/// Skips a comment if one opens here. `pos` is the position after a `/`; the
/// result is where to read on, and differs from `pos` exactly when there was a
/// comment.
fn handle_js_comment(input: &Vec<char>, pos: usize) -> (next: usize)
    requires
        pos <= input.len(),
    ensures
        char_at(input@, pos as int) == Some('/') ==> next == line_comment_end(input@, pos + 1)
            && next > pos,
        char_at(input@, pos as int) == Some('*') ==> next == block_comment_end(
            input@,
            pos + 1,
            ' ',
        ) && next > pos,
        char_at(input@, pos as int) != Some('/') && char_at(input@, pos as int) != Some('*')
            ==> next == pos,
        next <= input.len(),
{
    if pos < input.len() && input[pos] == '/' {
        let mut i: usize = pos + 1;
        while i < input.len()
            invariant_except_break
                line_comment_end(input@, pos + 1) == line_comment_end(input@, i as int),
            invariant
                pos < i <= input.len(),
            ensures
                i == line_comment_end(input@, pos + 1),
            decreases input.len() - i,
        {
            let c = input[i];
            i += 1;
            if c == '\n' {
                break;
            }
        }
        i
    } else if pos < input.len() && input[pos] == '*' {
        skip_block_comment(input, pos + 1)
    } else {
        pos
    }
}

/// Whether `out[..len]` ends with a character after which only an operand can
/// follow.
fn is_regex_after_single_char_operator(out: &Vec<char>, len: usize) -> (b: bool)
    requires
        len <= out.len(),
    ensures
        b == regex_after_single_char_operator(out@.take(len as int)),
{
    if len > 0 {
        let c = out[len - 1];
        c == '(' || c == '[' || c == '{' || c == ',' || c == ';' || c == ':' || c == '=' || c
            == '!' || c == '&' || c == '|' || c == '?' || c == '~'
    } else {
        false
    }
}

/// Whether `out[..len]` ends with a doubled operator.
fn is_regex_after_double_operator(out: &Vec<char>, len: usize) -> (b: bool)
    requires
        len <= out.len(),
    ensures
        b == regex_after_double_operator(out@.take(len as int)),
{
    if len >= 2 {
        let a = out[len - 2];
        let b = out[len - 1];
        (a == '+' && b == '+') || (a == '-' && b == '-') || (a == '*' && b == '*') || (a == '='
            && b == '=') || (a == '!' && b == '=') || (a == '<' && b == '=') || (a == '>' && b
            == '=') || (a == '<' && b == '<') || (a == '>' && b == '>') || (a == '&' && b == '&')
            || (a == '|' && b == '|') || (a == '?' && b == '?')
    } else {
        false
    }
}

/// What an ambiguous operator at the end of `out[..len]` says, if there is one.
fn is_regex_after_ambiguous_operator(out: &Vec<char>, len: usize) -> (r: Option<bool>)
    requires
        len <= out.len(),
    ensures
        r == regex_after_ambiguous_operator(out@.take(len as int)),
{
    if len > 0 {
        let last = out[len - 1];
        if last == '+' || last == '-' || last == '*' || last == '%' || last == '<' || last == '>' {
            if len >= 2 {
                if is_operand_end(out[len - 2]) {
                    return Some(false);
                }
            }
            return Some(true);
        }
    }
    None
}

/// Whether `out[..len]` ends with the word `keyword`, which is not the tail of a
/// longer word.
fn ends_with_word(out: &Vec<char>, len: usize, keyword: &str) -> (b: bool)
    requires
        len <= out.len(),
    ensures
        b == ends_with_keyword(out@.take(len as int), keyword@),
{
    let word = str_to_chars(keyword);
    let ghost t = out@.take(len as int);
    if word.len() > len {
        return false;
    }
    let start = len - word.len();
    let mut i: usize = 0;
    while i < word.len()
        invariant
            i <= word.len() <= len <= out.len(),
            start == len - word.len(),
            t == out@.take(len as int),
            word@ == keyword@,
            forall|k: int| 0 <= k < i ==> t.skip(start as int)[k] == word@[k],
        decreases word.len() - i,
    {
        if out[start + i] != word[i] {
            assert(t.skip(start as int)[i as int] == out@[start + i]);
            assert(keyword@[i as int] == word@[i as int]);
            assert(t.skip(t.len() - keyword@.len()) != keyword@);
            return false;
        }
        i += 1;
    }
    assert(t.skip(start as int) =~= word@);
    if start == 0 {
        return true;
    }
    !is_word_char(out[start - 1])
}

/// Whether `out[..len]` ends with a keyword after which an expression starts.
fn is_regex_after_keyword(out: &Vec<char>, len: usize) -> (b: bool)
    requires
        len <= out.len(),
    ensures
        b == regex_after_keyword(out@.take(len as int)),
{
    ends_with_word(out, len, "return") || ends_with_word(out, len, "throw") || ends_with_word(
        out,
        len,
        "new",
    ) || ends_with_word(out, len, "typeof") || ends_with_word(out, len, "void") || ends_with_word(
        out,
        len,
        "delete",
    ) || ends_with_word(out, len, "in") || ends_with_word(out, len, "of") || ends_with_word(
        out,
        len,
        "instanceof",
    ) || ends_with_word(out, len, "yield") || ends_with_word(out, len, "await") || ends_with_word(
        out,
        len,
        "case",
    )
}

/// Whether `out[..len]` ends with a finished operand.
fn is_division_context(out: &Vec<char>, len: usize) -> (b: bool)
    requires
        len <= out.len(),
    ensures
        b == division_context(out@.take(len as int)),
{
    if len > 0 {
        is_operand_end(out[len - 1])
    } else {
        false
    }
}

/// Whether a `/` that follows `result` opens a regular expression.
fn is_regex_context(result: &Vec<char>) -> (b: bool)
    ensures
        b == regex_context(result@),
{
    let len = trimmed_end(result, result.len());
    assert(result@.take(result.len() as int) == result@);
    if len == 0 {
        return true;
    }
    if is_regex_after_single_char_operator(result, len) {
        return true;
    }
    if is_regex_after_double_operator(result, len) {
        return true;
    }
    if let Some(is_regex) = is_regex_after_ambiguous_operator(result, len) {
        return is_regex;
    }
    if is_regex_after_keyword(result, len) {
        return true;
    }
    if is_division_context(result, len) {
        return false;
    }
    false
}

/// Skips a run of whitespace and writes the one space it leaves, if any. `pos`
/// is the position after the first whitespace character.
fn handle_js_whitespace(result: &mut Vec<char>, input: &Vec<char>, pos: usize) -> (next: usize)
    requires
        pos <= input.len(),
    ensures
        next == skip_whitespace(input@, pos as int),
        pos <= next <= input.len(),
        final(result)@ == js_after_whitespace(
            input@,
            JsState { pos: pos - 1, out: old(result)@ },
        ).out,
{
    let next = skip_whitespace_chars(input, pos);
    if result.len() > 0 && result[result.len() - 1] != ' ' {
        if next < input.len() {
            let last_ch = result[result.len() - 1];
            if is_word_char(last_ch) && is_word_char(input[next]) {
                result.push(' ');
            }
        }
    }
    next
}

/// Minifies a script given as characters.
pub fn minify_javascript_chars(input: &Vec<char>) -> (result: Vec<char>)
    ensures
        result@ == js_minified(input@),
{
    let mut result: Vec<char> = Vec::new();
    let mut pos: usize = 0;
    let ghost start = JsState { pos: 0, out: Seq::empty() };
    while pos < input.len()
        invariant
            pos <= input.len(),
            js_run(input@, start) == js_run(input@, JsState { pos: pos as int, out: result@ }),
        decreases input.len() - pos,
    {
        let ghost before = JsState { pos: pos as int, out: result@ };
        proof {
            lemma_js_step_advances(input@, before);
        }
        let ch = input[pos];
        pos += 1;
        if ch == '"' || ch == '\'' {
            pos = handle_js_string_literal(&mut result, input, pos, ch);
        } else if ch == '`' {
            pos = handle_js_template_literal(&mut result, input, pos);
        } else if ch == '/' {
            let next = handle_js_comment(input, pos);
            if next == pos {
                if is_regex_context(&result) {
                    pos = handle_js_regex(&mut result, input, pos);
                } else {
                    result.push(ch);
                }
            } else {
                pos = next;
            }
        } else if ch.is_whitespace() {
            pos = handle_js_whitespace(&mut result, input, pos);
        } else {
            result.push(ch);
        }
        assert(JsState { pos: pos as int, out: result@ } == js_step(input@, before));
    }
    trim_chars(&result)
}

/// Minifies a script: comments go, and whitespace goes except for the single
/// spaces that keep two words apart. String, template and regular expression
/// literals are kept as they are.
pub fn minify_javascript(js: &str) -> (result: String)
    ensures
        result@ == js_minified(js@),
        result@.len() <= js@.len(),
        starts_clean(result@) && ends_clean(result@),
{
    proof {
        lemma_js_never_lengthens(js@);
        lemma_trim_is_clean(js_run(js@, JsState { pos: 0, out: Seq::empty() }).out);
    }
    let input = str_to_chars(js);
    let output = minify_javascript_chars(&input);
    chars_to_string(&output)
}

/// A step writes no more characters than it reads.
pub proof fn lemma_js_step_len(s: Seq<char>, st: JsState)
    requires
        0 <= st.pos < s.len(),
        st.out.len() <= st.pos,
    ensures
        js_step(s, st).out.len() <= js_step(s, st).pos,
{
    let p = st.pos + 1;
    lemma_js_step_advances(s, st);
    lemma_quoted_end_bounds(s, p, s[st.pos]);
    lemma_template_end_bounds(s, p, 0);
    lemma_regex_end_bounds(s, p, false);
    lemma_skip_whitespace_bounds(s, p);
}

/// From a state that has written no more than it has read, the minifier stops
/// with no more written than the input holds.
pub proof fn lemma_js_run_len(s: Seq<char>, st: JsState)
    requires
        0 <= st.pos <= s.len(),
        st.out.len() <= st.pos,
    ensures
        js_run(s, st).out.len() <= s.len(),
    decreases s.len() - st.pos,
{
    if st.pos < s.len() {
        lemma_js_step_advances(s, st);
        lemma_js_step_len(s, st);
        lemma_js_run_len(s, js_step(s, st));
    }
}

/// Minifying a script never lengthens it.
pub proof fn lemma_js_never_lengthens(s: Seq<char>)
    ensures
        js_minified(s).len() <= s.len(),
{
    lemma_js_run_len(s, JsState { pos: 0, out: Seq::empty() });
    lemma_trim_len(js_run(s, JsState { pos: 0, out: Seq::empty() }).out);
}

} // verus!
