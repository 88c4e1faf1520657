//! Text as sequences of characters: conversions, character classes and trimming.
//!
//! Every minifier in this crate reads its input as a `Vec<char>` and a position
//! in it, and writes a `Vec<char>`. The functions here move between that form and
//! `&str` / `String`, and state what whitespace means.

use vstd::prelude::*;

verus! {

/// Whether `c`, a character beyond ASCII, has the Unicode `White_Space`
/// property, as `char::is_whitespace` reports it.
pub uninterp spec fn white_space_beyond_ascii(c: char) -> bool;

/// Whether `c`, a character beyond ASCII, is alphabetic or numeric in Unicode's
/// terms, as `char::is_alphanumeric` reports it.
pub uninterp spec fn alphanumeric_beyond_ascii(c: char) -> bool;

/// The Unicode lowercase form of a text that holds a character beyond ASCII, as
/// `str::to_lowercase` produces it.
pub uninterp spec fn lowercase_beyond_ascii(s: Seq<char>) -> Seq<char>;

/// Whether `c` is whitespace: in ASCII the space and the characters from tab
/// to carriage return, beyond ASCII what Unicode says.
pub open spec fn is_whitespace_char(c: char) -> bool {
    if c <= '\u{7f}' {
        c == ' ' || ('\u{9}' <= c && c <= '\u{d}')
    } else {
        white_space_beyond_ascii(c)
    }
}

/// Whether `c` is a letter or a digit: in ASCII `0` to `9`, `A` to `Z` and `a`
/// to `z`, beyond ASCII what Unicode says.
pub open spec fn is_alphanumeric_char(c: char) -> bool {
    if c <= '\u{7f}' {
        ('0' <= c && c <= '9') || ('A' <= c && c <= 'Z') || ('a' <= c && c <= 'z')
    } else {
        alphanumeric_beyond_ascii(c)
    }
}

/// Every character of `s` is an ASCII character.
pub open spec fn all_ascii(s: Seq<char>) -> bool {
    forall|i: int| 0 <= i < s.len() ==> #[trigger] s[i] <= '\u{7f}'
}

/// The lowercase form of an ASCII capital letter; any other character itself.
pub open spec fn ascii_lower(c: char) -> char {
    if 'A' <= c && c <= 'Z' {
        ((c as u8) + 32) as char
    } else {
        c
    }
}

/// `s` with its ASCII capital letters in lowercase.
pub open spec fn ascii_lowercase(s: Seq<char>) -> Seq<char> {
    Seq::new(s.len(), |i: int| ascii_lower(s[i]))
}

/// The lowercase form of a text: for an ASCII text its capital letters in
/// lowercase, for any other what Unicode says.
pub open spec fn lowercase_of(s: Seq<char>) -> Seq<char> {
    if all_ascii(s) {
        ascii_lowercase(s)
    } else {
        lowercase_beyond_ascii(s)
    }
}

/// `char::is_whitespace`. std's source decides ASCII characters by a match on
/// the space and the range from U+0009 to U+000D, and all others by the
/// `White_Space` table; the answer depends on the character alone.
pub assume_specification[ char::is_whitespace ](c: char) -> (b: bool)
    ensures
        c <= '\u{7f}' ==> b == (c == ' ' || ('\u{9}' <= c && c <= '\u{d}')),
        c > '\u{7f}' ==> b == white_space_beyond_ascii(c),
;

/// `char::is_alphanumeric`. std's source decides ASCII characters by the three
/// ranges of digits and letters, and all others by the `Alphabetic` and
/// numeric tables; the answer depends on the character alone.
pub assume_specification[ char::is_alphanumeric ](c: char) -> (b: bool)
    ensures
        c <= '\u{7f}' ==> b == (('0' <= c && c <= '9') || ('A' <= c && c <= 'Z') || ('a' <= c && c
            <= 'z')),
        c > '\u{7f}' ==> b == alphanumeric_beyond_ascii(c),
;

/// `String::push`: appends one character at the end and changes nothing else.
pub assume_specification[ String::push ](s: &mut String, c: char)
    ensures
        final(s)@ == old(s)@.push(c),
;

/// `str::to_lowercase`. std's source turns the ASCII capital letters of an
/// ASCII text into lowercase and leaves its other characters alone; for any
/// text it writes one to three characters for each character read, and the
/// result depends on the text alone.
#[verifier::external_body]
pub(crate) fn unicode_lowercase(s: &str) -> (r: String)
    ensures
        all_ascii(s@) ==> r@ == ascii_lowercase(s@),
        !all_ascii(s@) ==> r@ == lowercase_beyond_ascii(s@),
        r@.len() <= 3 * s@.len(),
{
    s.to_lowercase()
}

/// Collects the characters of `s`, in order.
pub fn str_to_chars(s: &str) -> (v: Vec<char>)
    ensures
        v@ == s@,
{
    let mut v: Vec<char> = Vec::new();
    for c in it: s.chars()
        invariant
            v@ == it.seq().take(it.index()),
    {
        v.push(c);
    }
    assert(v@ == s@);
    v
}

/// Builds the string whose characters are those of `v`, in order.
pub fn chars_to_string(v: &Vec<char>) -> (s: String)
    ensures
        s@ == v@,
{
    let mut s = String::new();
    let mut i: usize = 0;
    while i < v.len()
        invariant
            i <= v.len(),
            s@ == v@.take(i as int),
        decreases v.len() - i,
    {
        s.push(v[i]);
        i += 1;
        assert(v@.take(i as int) == v@.take(i - 1).push(v@[i - 1]));
    }
    assert(v@.take(v.len() as int) == v@);
    s
}

/// The character at `pos`, where there is one.
pub open spec fn char_at(s: Seq<char>, pos: int) -> Option<char> {
    if 0 <= pos < s.len() {
        Some(s[pos])
    } else {
        None
    }
}

/// `s` without its last character; the empty sequence stays empty.
pub open spec fn pop_last(s: Seq<char>) -> Seq<char> {
    if s.len() > 0 {
        s.drop_last()
    } else {
        s
    }
}

/// The first position at or after `pos` that holds no whitespace character, or
/// the length of `s` when only whitespace follows.
pub open spec fn skip_whitespace(s: Seq<char>, pos: int) -> int
    decreases s.len() - pos,
{
    if 0 <= pos < s.len() && is_whitespace_char(s[pos]) {
        skip_whitespace(s, pos + 1)
    } else {
        pos
    }
}

/// The length that is left of `s` when its trailing whitespace is cut off.
pub open spec fn trimmed_end_len(s: Seq<char>) -> int
    decreases s.len(),
{
    if s.len() > 0 && is_whitespace_char(s.last()) {
        trimmed_end_len(s.drop_last())
    } else {
        s.len() as int
    }
}

/// Where a quoted literal ends. `pos` is the position after the opening quote;
/// the result is the position after the closing `quote`, or the length of `s`
/// when the literal is not closed. A backslash takes the character after it
/// along, whatever that is.
pub open spec fn quoted_end(s: Seq<char>, pos: int, quote: char) -> int
    decreases s.len() - pos,
{
    if !(0 <= pos < s.len()) {
        s.len() as int
    } else if s[pos] == quote {
        pos + 1
    } else if s[pos] == '\\' {
        if pos + 1 < s.len() {
            quoted_end(s, pos + 2, quote)
        } else {
            s.len() as int
        }
    } else {
        quoted_end(s, pos + 1, quote)
    }
}

/// Where a block comment ends. `pos` is a position inside the comment and `prev`
/// the character before it (a space at the comment's start); the result is the
/// position after the closing `*/`, or the length of `s` when the comment is not
/// closed.
pub open spec fn block_comment_end(s: Seq<char>, pos: int, prev: char) -> int
    decreases s.len() - pos,
{
    if !(0 <= pos < s.len()) {
        s.len() as int
    } else if prev == '*' && s[pos] == '/' {
        pos + 1
    } else {
        block_comment_end(s, pos + 1, s[pos])
    }
}

/// A quoted literal ends inside the text, after at least one character if there
/// is one.
pub proof fn lemma_quoted_end_bounds(s: Seq<char>, pos: int, quote: char)
    requires
        0 <= pos <= s.len(),
    ensures
        pos <= quoted_end(s, pos, quote) <= s.len(),
        pos < s.len() ==> pos < quoted_end(s, pos, quote),
    decreases s.len() - pos,
{
    if pos < s.len() && s[pos] != quote {
        if s[pos] == '\\' {
            if pos + 1 < s.len() {
                lemma_quoted_end_bounds(s, pos + 2, quote);
            }
        } else {
            lemma_quoted_end_bounds(s, pos + 1, quote);
        }
    }
}

/// A block comment ends inside the text, after at least one character if there
/// is one.
pub proof fn lemma_block_comment_end_bounds(s: Seq<char>, pos: int, prev: char)
    requires
        0 <= pos <= s.len(),
    ensures
        pos <= block_comment_end(s, pos, prev) <= s.len(),
        pos < s.len() ==> pos < block_comment_end(s, pos, prev),
    decreases s.len() - pos,
{
    if pos < s.len() && !(prev == '*' && s[pos] == '/') {
        lemma_block_comment_end_bounds(s, pos + 1, s[pos]);
    }
}

/// `s` without its leading whitespace.
pub open spec fn trim_start(s: Seq<char>) -> Seq<char> {
    s.skip(skip_whitespace(s, 0))
}

/// `s` without its trailing whitespace.
pub open spec fn trim_end(s: Seq<char>) -> Seq<char> {
    s.take(trimmed_end_len(s))
}

/// `s` without its leading and trailing whitespace.
pub open spec fn trim(s: Seq<char>) -> Seq<char> {
    trim_end(trim_start(s))
}

/// Skipping whitespace stays inside the text, passes only whitespace and stops
/// before a character that is none.
pub proof fn lemma_skip_whitespace_bounds(s: Seq<char>, pos: int)
    requires
        0 <= pos <= s.len(),
    ensures
        pos <= skip_whitespace(s, pos) <= s.len(),
        forall|k: int| pos <= k < skip_whitespace(s, pos) ==> is_whitespace_char(#[trigger] s[k]),
        skip_whitespace(s, pos) < s.len() ==> !is_whitespace_char(s[skip_whitespace(s, pos)]),
    decreases s.len() - pos,
{
    if pos < s.len() && is_whitespace_char(s[pos]) {
        lemma_skip_whitespace_bounds(s, pos + 1);
    }
}

/// What is cut off at the end is whitespace, and what is left ends with a
/// character that is none.
pub proof fn lemma_trimmed_end_len_bounds(s: Seq<char>)
    ensures
        0 <= trimmed_end_len(s) <= s.len(),
        forall|k: int| trimmed_end_len(s) <= k < s.len() ==> is_whitespace_char(#[trigger] s[k]),
        trimmed_end_len(s) > 0 ==> !is_whitespace_char(s[trimmed_end_len(s) - 1]),
    decreases s.len(),
{
    if s.len() > 0 && is_whitespace_char(s.last()) {
        let t = s.drop_last();
        lemma_trimmed_end_len_bounds(t);
        assert forall|k: int| trimmed_end_len(s) <= k < s.len() implies is_whitespace_char(
            #[trigger] s[k],
        ) by {
            if k < t.len() {
                assert(s[k] == t[k]);
            }
        }
        if trimmed_end_len(s) > 0 {
            assert(s[trimmed_end_len(s) - 1] == t[trimmed_end_len(t) - 1]);
        }
    }
}

/// Moves `pos` past the whitespace that starts there.
pub(crate) fn skip_whitespace_chars(input: &Vec<char>, pos: usize) -> (next: usize)
    requires
        pos <= input.len(),
    ensures
        next == skip_whitespace(input@, pos as int),
        pos <= next <= input.len(),
{
    let mut i: usize = pos;
    while i < input.len() && input[i].is_whitespace()
        invariant
            pos <= i <= input.len(),
            skip_whitespace(input@, pos as int) == skip_whitespace(input@, i as int),
        decreases input.len() - i,
    {
        i += 1;
    }
    i
}

/// The length of `input[..end]` once its trailing whitespace is cut off.
pub(crate) fn trimmed_end(input: &Vec<char>, end: usize) -> (len: usize)
    requires
        end <= input.len(),
    ensures
        len == trimmed_end_len(input@.take(end as int)),
        len <= end,
{
    let mut n: usize = end;
    while n > 0 && input[n - 1].is_whitespace()
        invariant
            n <= end <= input.len(),
            trimmed_end_len(input@.take(end as int)) == trimmed_end_len(input@.take(n as int)),
        decreases n,
    {
        assert(input@.take(n as int).drop_last() == input@.take(n - 1));
        n -= 1;
    }
    n
}

/// Copies `input[from..to]` into a vector of its own.
pub(crate) fn copy_range(input: &Vec<char>, from: usize, to: usize) -> (v: Vec<char>)
    requires
        from <= to <= input.len(),
    ensures
        v@ == input@.subrange(from as int, to as int),
{
    let mut v: Vec<char> = Vec::new();
    let mut i: usize = from;
    while i < to
        invariant
            from <= i <= to <= input.len(),
            v@ == input@.subrange(from as int, i as int),
        decreases to - i,
    {
        v.push(input[i]);
        i += 1;
        assert(input@.subrange(from as int, i as int) == input@.subrange(from as int, i - 1).push(
            input@[i - 1],
        ));
    }
    v
}

/// Appends `input[from..to]` to `result`.
pub(crate) fn append_range(result: &mut Vec<char>, input: &Vec<char>, from: usize, to: usize)
    requires
        from <= to <= input.len(),
    ensures
        final(result)@ == old(result)@ + input@.subrange(from as int, to as int),
{
    let mut i: usize = from;
    while i < to
        invariant
            from <= i <= to <= input.len(),
            result@ == old(result)@ + input@.subrange(from as int, i as int),
        decreases to - i,
    {
        result.push(input[i]);
        i += 1;
        assert(input@.subrange(from as int, i as int) == input@.subrange(from as int, i - 1).push(
            input@[i - 1],
        ));
    }
}

/// `input` without its leading and trailing whitespace.
pub fn trim_chars(input: &Vec<char>) -> (v: Vec<char>)
    ensures
        v@ == trim(input@),
{
    let start = skip_whitespace_chars(input, 0);
    let rest = copy_range(input, start, input.len());
    assert(rest@ == trim_start(input@));
    let len = trimmed_end(&rest, rest.len());
    assert(rest@.take(rest.len() as int) == rest@);
    copy_range(&rest, 0, len)
}


/// Skips the rest of a block comment, from a position inside it.
pub(crate) fn skip_block_comment(input: &Vec<char>, pos: usize) -> (next: usize)
    requires
        pos <= input.len(),
    ensures
        next == block_comment_end(input@, pos as int, ' '),
        pos <= next <= input.len(),
{
    let mut i: usize = pos;
    let mut prev: char = ' ';
    while i < input.len()
        invariant
            pos <= i <= input.len(),
            block_comment_end(input@, pos as int, ' ') == block_comment_end(input@, i as int, prev),
        decreases input.len() - i,
    {
        let c = input[i];
        i += 1;
        if prev == '*' && c == '/' {
            return i;
        }
        prev = c;
    }
    i
}

/// Copies the rest of a quoted literal to `result`, from the position after its
/// opening quote up to and including the closing one.
pub(crate) fn copy_quoted(result: &mut Vec<char>, input: &Vec<char>, pos: usize, quote: char) -> (next:
    usize)
    requires
        pos <= input.len(),
    ensures
        next == quoted_end(input@, pos as int, quote),
        pos <= next <= input.len(),
        final(result)@ == old(result)@ + input@.subrange(pos as int, next as int),
{
    let mut i: usize = pos;
    while i < input.len()
        invariant
            pos <= i <= input.len(),
            quoted_end(input@, pos as int, quote) == quoted_end(input@, i as int, quote),
            result@ == old(result)@ + input@.subrange(pos as int, i as int),
        decreases input.len() - i,
    {
        let c = input[i];
        result.push(c);
        i += 1;
        assert(input@.subrange(pos as int, i as int) == input@.subrange(pos as int, i - 1).push(c));
        if c == quote {
            return i;
        }
        if c == '\\' {
            if i < input.len() {
                let escaped = input[i];
                result.push(escaped);
                i += 1;
                assert(input@.subrange(pos as int, i as int) == input@.subrange(
                    pos as int,
                    i - 1,
                ).push(escaped));
            }
        }
    }
    i
}

/// The lowercase form of an ASCII capital letter; any other character itself.
pub fn to_ascii_lower(c: char) -> (lower: char)
    ensures
        lower == ascii_lower(c),
{
    if 'A' <= c && c <= 'Z' {
        ((c as u8) + 32) as char
    } else {
        c
    }
}

/// The characters of `s` with the ASCII capital letters in lowercase.
pub fn ascii_lowercase_chars(s: &str) -> (v: Vec<char>)
    ensures
        v@ == ascii_lowercase(s@),
{
    let mut v: Vec<char> = Vec::new();
    for c in it: s.chars()
        invariant
            it.seq() == s@,
            v@ == ascii_lowercase(s@.take(it.index())),
    {
        v.push(to_ascii_lower(c));
        assert(v@ =~= ascii_lowercase(s@.take(it.index() + 1)));
    }
    assert(s@.take(s@.len() as int) == s@);
    v
}

/// Appends the characters `v` to `result`.
pub fn push_chars(result: &mut String, v: &Vec<char>)
    ensures
        final(result)@ == old(result)@ + v@,
{
    let mut i: usize = 0;
    while i < v.len()
        invariant
            i <= v.len(),
            result@ == old(result)@ + v@.take(i as int),
        decreases v.len() - i,
    {
        result.push(v[i]);
        i += 1;
        assert(v@.take(i as int) == v@.take(i - 1).push(v@[i - 1]));
    }
    assert(v@.take(v.len() as int) == v@);
}

/// Trimming never lengthens a text.
pub proof fn lemma_trim_len(s: Seq<char>)
    ensures
        trim_start(s).len() <= s.len(),
        trim_end(s).len() <= s.len(),
        trim(s).len() <= s.len(),
{
    lemma_skip_whitespace_bounds(s, 0);
    lemma_trimmed_end_len_bounds(s);
    lemma_trimmed_end_len_bounds(trim_start(s));
}

/// No whitespace stands at the start of `s`.
pub open spec fn starts_clean(s: Seq<char>) -> bool {
    s.len() == 0 || !is_whitespace_char(s[0])
}

/// No whitespace stands at the end of `s`.
pub open spec fn ends_clean(s: Seq<char>) -> bool {
    s.len() == 0 || !is_whitespace_char(s.last())
}

/// What trimming leaves has no whitespace at the end that was trimmed.
pub proof fn lemma_trim_is_clean(s: Seq<char>)
    ensures
        starts_clean(trim_start(s)),
        ends_clean(trim_end(s)),
        starts_clean(trim(s)),
        ends_clean(trim(s)),
{
    lemma_skip_whitespace_bounds(s, 0);
    lemma_trimmed_end_len_bounds(s);
    let t = trim_start(s);
    lemma_trimmed_end_len_bounds(t);
    if trim(s).len() > 0 {
        assert(trim(s)[0] == t[0]);
    }
}

} // verus!
