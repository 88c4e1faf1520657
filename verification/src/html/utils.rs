//! The rules for attributes and for whitespace in text, and the last pass over
//! the spacing of the output.

use crate::config::MinifierOptions;
use crate::constants::{
    boolean_attribute, chars_need_no_quotes, default_value, empty_removable, has_default_value,
    is_boolean_attribute, is_empty_removable, lemma_space_needs_quotes, quotes_removable,
    str_equal,
};
use crate::minifiers::css::{css_minified, lemma_css_never_lengthens, minify_css_chars};
use crate::text::{
    char_at, chars_to_string, copy_range, ends_clean, is_whitespace_char,
    lemma_skip_whitespace_bounds, lemma_trim_is_clean, lemma_trim_len, lowercase_of, push_chars, skip_whitespace, skip_whitespace_chars,
    starts_clean, str_to_chars, trim, trim_chars, unicode_lowercase,
};
use std::borrow::Cow;
use vstd::prelude::*;
use vstd::string::{StrSliceExecFns, StringExecFns};

verus! {

/// What the first `n` characters of `s` come to when every run of whitespace is
/// written as one space: a whitespace character becomes a space unless the
/// character before it is whitespace too, and the others are copied.
pub open spec fn collapsed_prefix(s: Seq<char>, n: int) -> Seq<char>
    decreases n,
{
    if n <= 0 {
        Seq::empty()
    } else if !is_whitespace_char(s[n - 1]) {
        collapsed_prefix(s, n - 1).push(s[n - 1])
    } else if n >= 2 && is_whitespace_char(s[n - 2]) {
        collapsed_prefix(s, n - 1)
    } else {
        collapsed_prefix(s, n - 1).push(' ')
    }
}

/// `s` with every run of whitespace written as one space.
pub open spec fn collapsed(s: Seq<char>) -> Seq<char> {
    collapsed_prefix(s, s.len() as int)
}

/// What the first `n` characters of a class list come to: a whitespace
/// character becomes a space if the character before it is not whitespace, and
/// is dropped otherwise, so that no whitespace leads.
pub open spec fn class_normalized_prefix(s: Seq<char>, n: int) -> Seq<char>
    decreases n,
{
    if n <= 0 {
        Seq::empty()
    } else if !is_whitespace_char(s[n - 1]) {
        class_normalized_prefix(s, n - 1).push(s[n - 1])
    } else if n >= 2 && !is_whitespace_char(s[n - 2]) {
        class_normalized_prefix(s, n - 1).push(' ')
    } else {
        class_normalized_prefix(s, n - 1)
    }
}

/// A class list with single spaces between its names and none before them.
pub open spec fn class_normalized(s: Seq<char>) -> Seq<char> {
    class_normalized_prefix(s, s.len() as int)
}

/// `s` without the run of `c` at its end.
pub open spec fn strip_trailing(s: Seq<char>, c: char) -> Seq<char>
    decreases s.len(),
{
    if s.len() > 0 && s.last() == c {
        strip_trailing(s.drop_last(), c)
    } else {
        s
    }
}

/// The value of a `style` attribute, minified, without semicolons at its end.
pub open spec fn style_value(value: Seq<char>) -> Seq<char> {
    strip_trailing(css_minified(value), ';')
}

/// Two spaces stand side by side in `s`.
pub open spec fn has_double_space(s: Seq<char>) -> bool {
    exists|i: int| 0 <= i && i + 1 < s.len() && s[i] == ' ' && #[trigger] s[i + 1] == ' '
}

/// The value of the attribute `key` as it is written out: minified for `style`,
/// normalized for a `class` with doubled spaces, unchanged otherwise.
pub open spec fn attribute_value(key: Seq<char>, value: Seq<char>) -> Seq<char> {
    if key == "style"@ {
        style_value(value)
    } else if key == "class"@ && has_double_space(value) {
        class_normalized(value)
    } else {
        value
    }
}

/// `raw` without the pair of equal quotes round it, if there is one.
pub open spec fn unquoted(raw: Seq<char>) -> Seq<char> {
    if raw.len() >= 2 && ((raw[0] == '"' && raw.last() == '"') || (raw[0] == '\'' && raw.last()
        == '\'')) {
        raw.subrange(1, raw.len() - 1)
    } else {
        raw
    }
}

/// Attributes beyond the listed ones that mean nothing when empty.
pub open spec fn also_empty_removable(key: Seq<char>) -> bool {
    key == "type"@ || key == "value"@ || key == "alt"@ || key == "title"@
}

/// An attribute that can go: it is not boolean, and it is empty where that
/// means nothing or restates the default of its element.
pub open spec fn skippable_attribute(key: Seq<char>, value: Seq<char>, tag: Seq<char>) -> bool {
    !boolean_attribute(key) && ((value.len() == 0 && (empty_removable(key) || also_empty_removable(
        key,
    ))) || default_value(tag, key, value))
}

/// The value of the attribute `key` with the quotes it needs: none where the
/// options allow it and the value can do without, double quotes otherwise.
pub open spec fn written_value(key: Seq<char>, value: Seq<char>, options: MinifierOptions) -> Seq<
    char,
> {
    let v = attribute_value(key, value);
    if options.remove_attribute_quotes && quotes_removable(v) {
        v
    } else {
        seq!['"'] + v + seq!['"']
    }
}

/// The first position at or after `pos` that holds `c`, or the length of `s`.
pub open spec fn first_index_of(s: Seq<char>, pos: int, c: char) -> int
    decreases s.len() - pos,
{
    if !(0 <= pos < s.len()) {
        s.len() as int
    } else if s[pos] == c {
        pos
    } else {
        first_index_of(s, pos + 1, c)
    }
}

/// The first occurrence of a character lies inside the text.
pub proof fn lemma_first_index_of(s: Seq<char>, pos: int, c: char)
    requires
        0 <= pos <= s.len(),
    ensures
        pos <= first_index_of(s, pos, c) <= s.len(),
    decreases s.len() - pos,
{
    if pos < s.len() && s[pos] != c {
        lemma_first_index_of(s, pos + 1, c);
    }
}

/// What an attribute with a value is written as. `key` is its name in lowercase
/// and `value` its value without quotes. The rules apply in this order: a
/// boolean attribute is written as its bare name; an empty value that means
/// nothing is dropped with its attribute; so is a value that restates the
/// default; every other attribute is written with its value.
pub open spec fn valued_attribute_output(
    key: Seq<char>,
    value: Seq<char>,
    tag: Seq<char>,
    options: MinifierOptions,
) -> Seq<char> {
    if options.collapse_boolean_attributes && boolean_attribute(key) {
        seq![' '] + key
    } else if options.remove_empty_attributes && value.len() == 0 && (empty_removable(key)
        || also_empty_removable(key)) {
        Seq::empty()
    } else if options.remove_default_attributes && default_value(tag, key, value) {
        Seq::empty()
    } else {
        seq![' '] + key + seq!['='] + written_value(key, value, options)
    }
}

/// What an attribute without a value is written as: its name, unless an empty
/// attribute of that name means nothing and such attributes are dropped.
pub open spec fn bare_attribute_output(key: Seq<char>, options: MinifierOptions) -> Seq<char> {
    if options.remove_empty_attributes && empty_removable(key) {
        Seq::empty()
    } else {
        seq![' '] + key
    }
}

/// What the attribute `attr` of the element `tag` is written as. The attribute
/// is split at its first `=`; name and value are trimmed and the name is put in
/// lowercase.
pub open spec fn attribute_output(attr: Seq<char>, tag: Seq<char>, options: MinifierOptions) -> Seq<
    char,
> {
    let clean = trim(attr);
    let eq = first_index_of(clean, 0, '=');
    if clean.len() == 0 {
        Seq::empty()
    } else if eq < clean.len() {
        valued_attribute_output(
            lowercase_of(trim(clean.take(eq))),
            unquoted(trim(clean.skip(eq + 1))),
            tag,
            options,
        )
    } else {
        bare_attribute_output(lowercase_of(clean), options)
    }
}

/// Appends `content` with every run of whitespace written as one space.
pub fn append_collapsed_whitespace(result: &mut String, content: &str)
    ensures
        final(result)@ == old(result)@ + collapsed(content@),
{
    let input = str_to_chars(content);
    let mut prev_was_space = false;
    let mut i: usize = 0;
    while i < input.len()
        invariant
            i <= input.len(),
            input@ == content@,
            prev_was_space == (i > 0 && is_whitespace_char(input@[i - 1])),
            result@ == old(result)@ + collapsed_prefix(input@, i as int),
        decreases input.len() - i,
    {
        let ch = input[i];
        let ghost before = collapsed_prefix(input@, i as int);
        if ch.is_whitespace() {
            if !prev_was_space {
                result.push(' ');
                prev_was_space = true;
                assert(result@ =~= old(result)@ + before.push(' '));
            }
        } else {
            result.push(ch);
            prev_was_space = false;
            assert(result@ =~= old(result)@ + before.push(ch));
        }
        i += 1;
    }
}

/// `v[..len]` without the run of `c` at its end, as a length.
fn stripped_len(v: &Vec<char>, c: char) -> (len: usize)
    ensures
        len <= v.len(),
        v@.take(len as int) == strip_trailing(v@, c),
{
    let mut n: usize = v.len();
    assert(v@.take(n as int) == v@);
    while n > 0 && v[n - 1] == c
        invariant
            n <= v.len(),
            strip_trailing(v@, c) == strip_trailing(v@.take(n as int), c),
        decreases n,
    {
        assert(v@.take(n as int).drop_last() == v@.take(n - 1));
        n -= 1;
    }
    n
}

/// The value of a `style` attribute, minified as a style sheet, without the
/// semicolons at its end.
pub fn process_style_attribute(value: &str) -> (result: String)
    ensures
        result@ == style_value(value@),
{
    let input = str_to_chars(value);
    let minified = minify_css_chars(&input);
    let len = stripped_len(&minified, ';');
    let kept = copy_range(&minified, 0, len);
    chars_to_string(&kept)
}

/// The value of a `class` attribute with single spaces between its names and
/// none before them.
pub fn process_class_attribute(value: &str) -> (result: String)
    ensures
        result@ == class_normalized(value@),
{
    let input = str_to_chars(value);
    let mut class_result = String::new();
    let mut prev_space = false;
    let mut i: usize = 0;
    while i < input.len()
        invariant
            i <= input.len(),
            input@ == value@,
            class_result@ == class_normalized_prefix(input@, i as int),
            (prev_space || class_result@.len() == 0) == (i == 0 || is_whitespace_char(
                input@[i - 1],
            )),
        decreases input.len() - i,
    {
        let ch = input[i];
        if ch.is_whitespace() {
            if !prev_space && !class_result.as_str().is_empty() {
                class_result.push(' ');
                prev_space = true;
            }
        } else {
            class_result.push(ch);
            prev_space = false;
        }
        i += 1;
    }
    class_result
}

/// Whether two spaces stand side by side in `v`.
fn contains_double_space(v: &Vec<char>) -> (b: bool)
    ensures
        b == has_double_space(v@),
{
    let mut i: usize = 1;
    while i < v.len()
        invariant
            1 <= i,
            forall|k: int| 0 <= k && k + 1 < i && k + 1 < v.len() ==> !(v@[k] == ' ' && #[trigger] v@[k
                + 1] == ' '),
        decreases v.len() - i,
    {
        if v[i - 1] == ' ' && v[i] == ' ' {
            assert(v@[i - 1] == ' ' && v@[(i - 1) + 1] == ' ');
            return true;
        }
        i += 1;
    }
    false
}

/// The value of the attribute `key` as it is written out. Only a value that
/// changes is copied.
pub fn process_attribute_value_cow<'a>(key: &str, value: &'a str) -> (result: Cow<'a, str>)
    ensures
        result@ == attribute_value(key@, value@),
{
    if str_equal(key, "style") {
        Cow::Owned(process_style_attribute(value))
    } else if str_equal(key, "class") {
        let v = str_to_chars(value);
        if contains_double_space(&v) {
            Cow::Owned(process_class_attribute(value))
        } else {
            Cow::Borrowed(value)
        }
    } else {
        Cow::Borrowed(value)
    }
}

/// `raw_value` without the pair of equal quotes round it, if there is one.
pub fn extract_attribute_value(raw_value: &str) -> (value: &str)
    ensures
        value@ == unquoted(raw_value@),
{
    let len = raw_value.unicode_len();
    if len >= 2 {
        let first = raw_value.get_char(0);
        let last = raw_value.get_char(len - 1);
        if (first == '"' && last == '"') || (first == '\'' && last == '\'') {
            return raw_value.substring_char(1, len - 1);
        }
    }
    raw_value
}

/// Whether an attribute can go: it is not boolean, and it is empty where that
/// means nothing or restates the default of its element.
pub fn should_skip_attribute(key: &str, value: &str, current_tag: &str) -> (skip: bool)
    ensures
        skip == skippable_attribute(key@, value@, current_tag@),
{
    if is_boolean_attribute(key) {
        return false;
    }
    if value.is_empty() {
        if is_empty_removable(key) || is_also_empty_removable(key) {
            return true;
        }
    }
    has_default_value(current_tag, key, value)
}

/// Whether `key` is one of the further attributes that mean nothing when empty.
fn is_also_empty_removable(key: &str) -> (b: bool)
    ensures
        b == also_empty_removable(key@),
{
    str_equal(key, "type") || str_equal(key, "value") || str_equal(key, "alt") || str_equal(
        key,
        "title",
    )
}

/// Appends the value of the attribute `key`, in double quotes unless the
/// options allow to leave them out and the value can do without.
pub fn append_attribute_value(
    result: &mut String,
    key: &str,
    value: &str,
    options: &MinifierOptions,
)
    ensures
        final(result)@ == old(result)@ + written_value(key@, value@, *options),
{
    let processed_value = process_attribute_value_cow(key, value);
    let processed = match &processed_value {
        Cow::Borrowed(borrowed) => str_to_chars(borrowed),
        Cow::Owned(owned) => str_to_chars(owned.as_str()),
    };
    if options.remove_attribute_quotes && chars_need_no_quotes(&processed) {
        push_chars(result, &processed);
    } else {
        result.push('"');
        push_chars(result, &processed);
        result.push('"');
        assert(result@ =~= old(result)@ + (seq!['"'] + processed@ + seq!['"']));
    }
}

/// The first position of `c` in `v`, or the length of `v`.
fn find_char(v: &Vec<char>, c: char) -> (at: usize)
    ensures
        at == first_index_of(v@, 0, c),
        at <= v.len(),
{
    let mut i: usize = 0;
    while i < v.len() && v[i] != c
        invariant
            i <= v.len(),
            first_index_of(v@, 0, c) == first_index_of(v@, i as int, c),
        decreases v.len() - i,
    {
        i += 1;
    }
    i
}

/// What an attribute is written as, given its name in lowercase and its value
/// without quotes; `None` stands for an attribute without a value.
pub open spec fn named_attribute_output(
    key: Seq<char>,
    value: Option<Seq<char>>,
    tag: Seq<char>,
    options: MinifierOptions,
) -> Seq<char> {
    match value {
        Some(v) => valued_attribute_output(key, v, tag, options),
        None => bare_attribute_output(key, options),
    }
}

/// The value of an attribute as a character sequence, where it has one.
pub open spec fn value_view(value: Option<&str>) -> Option<Seq<char>> {
    match value {
        Some(v) => Some(v@),
        None => None,
    }
}

/// Appends what an attribute of the element `current_tag` is written as under
/// `options`, given its name in lowercase and its value without quotes, or
/// `None` where it has no value. For an attribute that goes, nothing is
/// appended.
pub fn append_attribute(
    result: &mut String,
    key: &str,
    value: Option<&str>,
    current_tag: &str,
    options: &MinifierOptions,
)
    ensures
        final(result)@ == old(result)@ + named_attribute_output(
            key@,
            value_view(value),
            current_tag@,
            *options,
        ),
{
    match value {
        Some(value) => {
            if options.collapse_boolean_attributes && is_boolean_attribute(key) {
                result.push(' ');
                result.append(key);
                assert(result@ =~= old(result)@ + (seq![' '] + key@));
                return ;
            }
            if options.remove_empty_attributes && value.is_empty() && (is_empty_removable(key)
                || is_also_empty_removable(key)) {
                assert(result@ =~= old(result)@ + Seq::<char>::empty());
                return ;
            }
            if options.remove_default_attributes && has_default_value(current_tag, key, value) {
                assert(result@ =~= old(result)@ + Seq::<char>::empty());
                return ;
            }
            result.push(' ');
            result.append(key);
            result.push('=');
            append_attribute_value(result, key, value, options);
            assert(result@ =~= old(result)@ + (seq![' '] + key@ + seq!['='] + written_value(
                key@,
                value@,
                *options,
            )));
        },
        None => {
            if !(options.remove_empty_attributes && is_empty_removable(key)) {
                result.push(' ');
                result.append(key);
                assert(result@ =~= old(result)@ + (seq![' '] + key@));
            } else {
                assert(result@ =~= old(result)@ + Seq::<char>::empty());
            }
        },
    }
}

/// Appends what the attribute `attr` of the element `current_tag` is written as
/// under `options`; for an attribute that goes, nothing. The attribute is split
/// at its first `=`, name and value are trimmed, the name is put in lowercase
/// and the value loses its quotes.
pub fn process_attribute(
    result: &mut String,
    attr: &str,
    current_tag: &str,
    options: &MinifierOptions,
)
    ensures
        final(result)@ == old(result)@ + attribute_output(attr@, current_tag@, *options),
        final(result)@.len() <= old(result)@.len() + 3 * attr@.len() + 3,
{
    let raw = str_to_chars(attr);
    let clean_attr = trim_chars(&raw);
    proof {
        lemma_trim_len(attr@);
    }
    if clean_attr.len() == 0 {
        assert(result@ =~= old(result)@ + Seq::<char>::empty());
        return ;
    }
    let eq = find_char(&clean_attr, '=');
    if eq < clean_attr.len() {
        let key_part = copy_range(&clean_attr, 0, eq);
        let key_text = chars_to_string(&trim_chars(&key_part));
        let key = unicode_lowercase(key_text.as_str());
        let value_part = copy_range(&clean_attr, eq + 1, clean_attr.len());
        let raw_value = chars_to_string(&trim_chars(&value_part));
        let value = extract_attribute_value(raw_value.as_str());
        assert(key@ == lowercase_of(trim(clean_attr@.take(eq as int))));
        assert(value@ == unquoted(trim(clean_attr@.skip(eq + 1))));
        proof {
            lemma_trim_len(clean_attr@.take(eq as int));
            lemma_trim_len(clean_attr@.skip(eq + 1));
            lemma_named_attribute_output_len(key@, Some(value@), current_tag@, *options);
        }
        append_attribute(result, key.as_str(), Some(value), current_tag, options);
    } else {
        let clean_text = chars_to_string(&clean_attr);
        let key = unicode_lowercase(clean_text.as_str());
        proof {
            lemma_named_attribute_output_len(key@, None, current_tag@, *options);
        }
        append_attribute(result, key.as_str(), None, current_tag, options);
    }
}

/// The first position at or after `pos` that holds no space, or the length of
/// `s`.
pub open spec fn skip_spaces(s: Seq<char>, pos: int) -> int
    decreases s.len() - pos,
{
    if 0 <= pos < s.len() && s[pos] == ' ' {
        skip_spaces(s, pos + 1)
    } else {
        pos
    }
}

/// Skipping spaces stays inside the text.
pub proof fn lemma_skip_spaces(s: Seq<char>, pos: int)
    requires
        0 <= pos <= s.len(),
    ensures
        pos <= skip_spaces(s, pos) <= s.len(),
    decreases s.len() - pos,
{
    if pos < s.len() && s[pos] == ' ' {
        lemma_skip_spaces(s, pos + 1);
    }
}

/// The spacing pass between two steps: the next position to read and what has
/// been written.
pub struct SpacingState {
    pub pos: int,
    pub out: Seq<char>,
}

/// After a `>` the whitespace that follows it goes.
pub open spec fn after_closing_angle_bracket(s: Seq<char>, st: SpacingState) -> SpacingState {
    SpacingState { pos: skip_whitespace(s, st.pos + 1), out: st.out.push('>') }
}

/// A whitespace character right before a `<` goes. Any other starts a run that
/// is written as one space, unless a space was written just before.
pub open spec fn after_whitespace(s: Seq<char>, st: SpacingState) -> SpacingState {
    if char_at(s, st.pos + 1) == Some('<') {
        SpacingState { pos: st.pos + 1, out: st.out }
    } else {
        SpacingState {
            pos: skip_whitespace(s, st.pos + 1),
            out: if st.out.len() > 0 && st.out.last() == ' ' {
                st.out
            } else {
                st.out.push(' ')
            },
        }
    }
}

/// An `=` takes back the spaces written before it, and the spaces after it go.
pub open spec fn after_equals_sign(s: Seq<char>, st: SpacingState) -> SpacingState {
    SpacingState { pos: skip_spaces(s, st.pos + 1), out: strip_trailing(st.out, ' ').push('=') }
}

/// One step of the spacing pass: what reading the character at `st.pos` leads
/// to.
pub open spec fn spacing_step(s: Seq<char>, st: SpacingState) -> SpacingState {
    let ch = s[st.pos];
    if ch == '>' {
        after_closing_angle_bracket(s, st)
    } else if is_whitespace_char(ch) {
        after_whitespace(s, st)
    } else if ch == '=' {
        after_equals_sign(s, st)
    } else {
        SpacingState { pos: st.pos + 1, out: st.out.push(ch) }
    }
}

/// Every step moves on and stays inside the input.
pub proof fn lemma_spacing_step_advances(s: Seq<char>, st: SpacingState)
    requires
        0 <= st.pos < s.len(),
    ensures
        st.pos < spacing_step(s, st).pos <= s.len(),
{
    lemma_skip_whitespace_bounds(s, st.pos + 1);
    lemma_skip_spaces(s, st.pos + 1);
}

/// The state in which the spacing pass stops when it starts from `st`.
pub open spec fn spacing_run(s: Seq<char>, st: SpacingState) -> SpacingState
    decreases s.len() - st.pos,
    when 0 <= st.pos
    via spacing_run_decreases
{
    if st.pos >= s.len() {
        st
    } else {
        spacing_run(s, spacing_step(s, st))
    }
}

#[via_fn]
proof fn spacing_run_decreases(s: Seq<char>, st: SpacingState) {
    if st.pos < s.len() {
        lemma_spacing_step_advances(s, st);
    }
}

/// `s` after the spacing pass: no whitespace after `>`, before `<` or round
/// `=`, single spaces elsewhere, and none at either end.
pub open spec fn spacing_cleaned(s: Seq<char>) -> Seq<char> {
    trim(spacing_run(s, SpacingState { pos: 0, out: Seq::empty() }).out)
}

/// Moves `pos` past the whitespace that starts there.
fn skip_following_whitespace(input: &Vec<char>, pos: usize) -> (next: usize)
    requires
        pos <= input.len(),
    ensures
        next == skip_whitespace(input@, pos as int),
        pos <= next <= input.len(),
{
    skip_whitespace_chars(input, pos)
}

/// Writes a `>` and skips the whitespace after it. `pos` is the position after
/// the `>`.
fn handle_closing_angle_bracket(cleaned: &mut Vec<char>, input: &Vec<char>, pos: usize) -> (next:
    usize)
    requires
        pos <= input.len(),
    ensures
        next == skip_whitespace(input@, pos as int),
        pos <= next <= input.len(),
        final(cleaned)@ == old(cleaned)@.push('>'),
{
    cleaned.push('>');
    skip_following_whitespace(input, pos)
}

/// Handles a whitespace character. `pos` is the position after it.
fn handle_whitespace_in_cleanup(cleaned: &mut Vec<char>, input: &Vec<char>, pos: usize) -> (next:
    usize)
    requires
        0 < pos <= input.len(),
    ensures
        after_whitespace(input@, (SpacingState { pos: pos - 1, out: old(cleaned)@ })).pos == next,
        final(cleaned)@ == after_whitespace(
            input@,
            (SpacingState { pos: pos - 1, out: old(cleaned)@ }),
        ).out,
        pos <= next <= input.len(),
{
    if pos < input.len() && input[pos] == '<' {
        return pos;
    }
    if !(cleaned.len() > 0 && cleaned[cleaned.len() - 1] == ' ') {
        cleaned.push(' ');
    }
    skip_following_whitespace(input, pos)
}

/// Takes back the spaces before an `=`, writes it and skips the spaces after
/// it. `pos` is the position after the `=`.
fn handle_equals_sign(cleaned: &mut Vec<char>, input: &Vec<char>, pos: usize) -> (next: usize)
    requires
        pos <= input.len(),
    ensures
        next == skip_spaces(input@, pos as int),
        pos <= next <= input.len(),
        final(cleaned)@ == strip_trailing(old(cleaned)@, ' ').push('='),
{
    while cleaned.len() > 0 && cleaned[cleaned.len() - 1] == ' '
        invariant
            strip_trailing(old(cleaned)@, ' ') == strip_trailing(cleaned@, ' '),
        decreases cleaned.len(),
    {
        cleaned.pop();
    }
    cleaned.push('=');
    let mut next: usize = pos;
    while next < input.len() && input[next] == ' '
        invariant
            pos <= next <= input.len(),
            skip_spaces(input@, pos as int) == skip_spaces(input@, next as int),
        decreases input.len() - next,
    {
        next += 1;
    }
    next
}

/// The last pass over the output: drops the whitespace after `>`, before `<`
/// and round `=`, writes every other run of whitespace as one space, and trims
/// both ends.
pub fn cleanup_html_spacing(html: &str) -> (result: String)
    ensures
        result@ == spacing_cleaned(html@),
        result@.len() <= html@.len(),
        starts_clean(result@) && ends_clean(result@),
{
    proof {
        lemma_spacing_never_lengthens(html@);
        lemma_trim_is_clean(spacing_run(html@, SpacingState { pos: 0, out: Seq::empty() }).out);
    }
    let input = str_to_chars(html);
    let mut cleaned: Vec<char> = Vec::new();
    let mut pos: usize = 0;
    let ghost start = SpacingState { pos: 0, out: Seq::empty() };
    while pos < input.len()
        invariant
            pos <= input.len(),
            spacing_run(input@, start) == spacing_run(
                input@,
                SpacingState { pos: pos as int, out: cleaned@ },
            ),
        decreases input.len() - pos,
    {
        let ghost before = SpacingState { pos: pos as int, out: cleaned@ };
        proof {
            lemma_spacing_step_advances(input@, before);
        }
        let ch = input[pos];
        pos += 1;
        if ch == '>' {
            pos = handle_closing_angle_bracket(&mut cleaned, &input, pos);
        } else if ch.is_whitespace() {
            pos = handle_whitespace_in_cleanup(&mut cleaned, &input, pos);
        } else if ch == '=' {
            pos = handle_equals_sign(&mut cleaned, &input, pos);
        } else {
            cleaned.push(ch);
        }
        assert(SpacingState { pos: pos as int, out: cleaned@ } == spacing_step(input@, before));
    }
    let trimmed = trim_chars(&cleaned);
    chars_to_string(&trimmed)
}

/// With both removals on, an attribute that can go is not written.
pub proof fn lemma_skippable_attribute_goes(
    key: Seq<char>,
    value: Seq<char>,
    tag: Seq<char>,
    options: MinifierOptions,
)
    requires
        options.remove_empty_attributes,
        options.remove_default_attributes,
        skippable_attribute(key, value, tag),
    ensures
        valued_attribute_output(key, value, tag, options) == Seq::<char>::empty(),
{
}

/// With boolean collapsing on, a boolean attribute is written as its bare name,
/// whatever value it was given.
pub proof fn lemma_boolean_attribute_collapses(
    key: Seq<char>,
    value: Seq<char>,
    tag: Seq<char>,
    options: MinifierOptions,
)
    requires
        options.collapse_boolean_attributes,
        boolean_attribute(key),
    ensures
        valued_attribute_output(key, value, tag, options) == seq![' '] + key,
{
}

/// With the removal of defaults on, an attribute that restates the default of
/// its element is not written, unless it is a boolean attribute that is
/// collapsed to its name.
pub proof fn lemma_default_attribute_goes(
    key: Seq<char>,
    value: Seq<char>,
    tag: Seq<char>,
    options: MinifierOptions,
)
    requires
        options.remove_default_attributes,
        default_value(tag, key, value),
        !(options.collapse_boolean_attributes && boolean_attribute(key)),
    ensures
        valued_attribute_output(key, value, tag, options) == Seq::<char>::empty(),
{
}

/// A value that is written with a space in it is written in double quotes,
/// whatever the options.
pub proof fn lemma_value_with_space_is_quoted(
    key: Seq<char>,
    value: Seq<char>,
    options: MinifierOptions,
)
    requires
        attribute_value(key, value).contains(' '),
    ensures
        written_value(key, value, options) == seq!['"'] + attribute_value(key, value) + seq!['"'],
{
    lemma_space_needs_quotes(attribute_value(key, value));
}

/// With the removal of quotes on, a value that is written with nothing but
/// characters that need no quotes is written without them.
pub proof fn lemma_safe_value_is_unquoted(
    key: Seq<char>,
    value: Seq<char>,
    options: MinifierOptions,
)
    requires
        options.remove_attribute_quotes,
        quotes_removable(attribute_value(key, value)),
    ensures
        written_value(key, value, options) == attribute_value(key, value),
{
}

/// Collapsing whitespace never lengthens a text.
pub proof fn lemma_collapsed_len(s: Seq<char>, n: int)
    requires
        0 <= n <= s.len(),
    ensures
        collapsed_prefix(s, n).len() <= n,
        class_normalized_prefix(s, n).len() <= n,
    decreases n,
{
    if n > 0 {
        lemma_collapsed_len(s, n - 1);
    }
}

/// Cutting off a run at the end never lengthens a text.
pub proof fn lemma_strip_trailing_len(s: Seq<char>, c: char)
    ensures
        strip_trailing(s, c).len() <= s.len(),
    decreases s.len(),
{
    if s.len() > 0 && s.last() == c {
        lemma_strip_trailing_len(s.drop_last(), c);
    }
}

/// An attribute value is written with no more characters than it has, and two
/// more where it is quoted.
pub proof fn lemma_written_value_len(key: Seq<char>, value: Seq<char>, options: MinifierOptions)
    ensures
        attribute_value(key, value).len() <= value.len(),
        written_value(key, value, options).len() <= value.len() + 2,
{
    lemma_css_never_lengthens(value);
    lemma_strip_trailing_len(css_minified(value), ';');
    lemma_collapsed_len(value, value.len() as int);
}

/// An attribute is written with no more characters than its name and its value
/// have, and four more: a space, an `=` and two quotes. Without a value it is
/// written with no more than its name has, and one more.
pub proof fn lemma_named_attribute_output_len(
    key: Seq<char>,
    value: Option<Seq<char>>,
    tag: Seq<char>,
    options: MinifierOptions,
)
    ensures
        named_attribute_output(key, value, tag, options).len() <= key.len() + match value {
            Some(v) => v.len() + 4,
            None => 1,
        },
{
    if value is Some {
        lemma_written_value_len(key, value->0, options);
    }
}

/// A step of the spacing pass writes no more characters than it reads.
pub proof fn lemma_spacing_step_len(s: Seq<char>, st: SpacingState)
    requires
        0 <= st.pos < s.len(),
        st.out.len() <= st.pos,
    ensures
        spacing_step(s, st).out.len() <= spacing_step(s, st).pos,
{
    lemma_spacing_step_advances(s, st);
    lemma_skip_whitespace_bounds(s, st.pos + 1);
    lemma_skip_spaces(s, st.pos + 1);
    lemma_strip_trailing_len(st.out, ' ');
}

/// From a state that has written no more than it has read, the spacing pass
/// stops with no more written than the input holds.
pub proof fn lemma_spacing_run_len(s: Seq<char>, st: SpacingState)
    requires
        0 <= st.pos <= s.len(),
        st.out.len() <= st.pos,
    ensures
        spacing_run(s, st).out.len() <= s.len(),
    decreases s.len() - st.pos,
{
    if st.pos < s.len() {
        lemma_spacing_step_advances(s, st);
        lemma_spacing_step_len(s, st);
        lemma_spacing_run_len(s, spacing_step(s, st));
    }
}

/// The spacing pass never lengthens a text.
pub proof fn lemma_spacing_never_lengthens(s: Seq<char>)
    ensures
        spacing_cleaned(s).len() <= s.len(),
{
    lemma_spacing_run_len(s, SpacingState { pos: 0, out: Seq::empty() });
    lemma_trim_len(spacing_run(s, SpacingState { pos: 0, out: Seq::empty() }).out);
}

} // verus!
