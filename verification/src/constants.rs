//! Names of HTML elements and attributes that the minifier treats specially.

use crate::text::str_to_chars;
use vstd::prelude::*;

verus! {

/// Elements that have no content and no closing tag.
pub open spec fn singleton_element(tag: Seq<char>) -> bool {
    tag == "area"@ || tag == "base"@ || tag == "br"@ || tag == "col"@ || tag == "embed"@ || tag
        == "hr"@ || tag == "img"@ || tag == "input"@ || tag == "link"@ || tag == "meta"@ || tag
        == "param"@ || tag == "source"@ || tag == "track"@ || tag == "wbr"@
}

/// Elements whose closing tag may be left out.
pub open spec fn close_optional(tag: Seq<char>) -> bool {
    tag == "p"@ || tag == "dt"@ || tag == "dd"@ || tag == "li"@ || tag == "option"@ || tag
        == "thead"@ || tag == "th"@ || tag == "tbody"@ || tag == "tr"@ || tag == "td"@ || tag
        == "tfoot"@ || tag == "colgroup"@
}

/// Attributes whose presence alone is their value.
pub open spec fn boolean_attribute(attr: Seq<char>) -> bool {
    attr == "allowfullscreen"@ || attr == "async"@ || attr == "autofocus"@ || attr == "autoplay"@
        || attr == "checked"@ || attr == "controls"@ || attr == "default"@ || attr == "defer"@
        || attr == "disabled"@ || attr == "formnovalidate"@ || attr == "hidden"@ || attr
        == "inert"@ || attr == "ismap"@ || attr == "itemscope"@ || attr == "loop"@ || attr
        == "multiple"@ || attr == "muted"@ || attr == "nomodule"@ || attr == "novalidate"@ || attr
        == "open"@ || attr == "playsinline"@ || attr == "readonly"@ || attr == "required"@ || attr
        == "reversed"@ || attr == "selected"@ || attr == "typemustmatch"@
}

/// Attributes that mean nothing when their value is empty.
pub open spec fn empty_removable(attr: Seq<char>) -> bool {
    attr == "id"@ || attr == "class"@ || attr == "style"@ || attr == "title"@ || attr == "action"@
        || attr == "lang"@ || attr == "dir"@ || attr == "onfocus"@ || attr == "onblur"@ || attr
        == "onchange"@ || attr == "onclick"@ || attr == "ondblclick"@ || attr == "onmousedown"@
        || attr == "onmouseup"@ || attr == "onmouseover"@ || attr == "onmousemove"@ || attr
        == "onmouseout"@ || attr == "onkeypress"@ || attr == "onkeydown"@ || attr == "onkeyup"@
        || attr == "target"@
}

/// The attribute `attr` of the element `tag` has `value` by default.
pub open spec fn default_value(tag: Seq<char>, attr: Seq<char>, value: Seq<char>) -> bool {
    (tag == "script"@ && attr == "type"@ && value == "text/javascript"@) || (tag == "style"@
        && attr == "type"@ && value == "text/css"@) || (tag == "style"@ && attr == "media"@
        && value == "all"@) || (tag == "form"@ && attr == "method"@ && value == "get"@) || (tag
        == "form"@ && attr == "autocomplete"@ && value == "on"@) || (tag == "form"@ && attr
        == "enctype"@ && value == "application/x-www-form-urlencoded"@) || (tag == "input"@
        && attr == "type"@ && value == "text"@) || (tag == "button"@ && attr == "type"@ && value
        == "submit"@)
}

/// A character that may stand in an attribute value without quotes: an ASCII
/// letter or digit, or one of `- _ . : / # @ % ! * ~`.
pub open spec fn unquoted_char(c: char) -> bool {
    ('0' <= c && c <= '9') || ('A' <= c && c <= 'Z') || ('a' <= c && c <= 'z') || c == '-' || c
        == '_' || c == '.' || c == ':' || c == '/' || c == '#' || c == '@' || c == '%' || c == '!'
        || c == '*' || c == '~'
}

/// The value can be written without quotes: it is not empty and holds nothing
/// but characters that need none.
pub open spec fn quotes_removable(value: Seq<char>) -> bool {
    value.len() > 0 && forall|i: int| 0 <= i < value.len() ==> unquoted_char(#[trigger] value[i])
}

/// Whether the characters of `v` are those of `s`.
pub fn chars_equal_str(v: &Vec<char>, s: &str) -> (b: bool)
    ensures
        b == (v@ == s@),
{
    let mut i: usize = 0;
    for c in it: s.chars()
        invariant
            i == it.index(),
            it.seq() == s@,
            i <= v.len(),
            v@.take(i as int) == s@.take(i as int),
    {
        if i >= v.len() || v[i] != c {
            assert(v@ != s@) by {
                if i < v.len() {
                    assert(s@[i as int] == c);
                }
            }
            return false;
        }
        i += 1;
        assert(v@.take(i as int) == v@.take(i - 1).push(v@[i - 1]));
        assert(s@.take(i as int) == s@.take(i - 1).push(s@[i - 1]));
    }
    assert(s@.take(s@.len() as int) == s@);
    if i == v.len() {
        assert(v@.take(v.len() as int) == v@);
        true
    } else {
        false
    }
}

/// Whether `a` and `b` hold the same characters.
pub fn str_equal(a: &str, b: &str) -> (same: bool)
    ensures
        same == (a@ == b@),
{
    let v = str_to_chars(a);
    chars_equal_str(&v, b)
}

/// Whether `tag` names an element that has no content and no closing tag.
pub fn is_singleton_element(tag: &str) -> (b: bool)
    ensures
        b == singleton_element(tag@),
{
    let t = str_to_chars(tag);
    chars_equal_str(&t, "area") || chars_equal_str(&t, "base") || chars_equal_str(&t, "br")
        || chars_equal_str(&t, "col") || chars_equal_str(&t, "embed") || chars_equal_str(&t, "hr")
        || chars_equal_str(&t, "img") || chars_equal_str(&t, "input") || chars_equal_str(
        &t,
        "link",
    ) || chars_equal_str(&t, "meta") || chars_equal_str(&t, "param") || chars_equal_str(
        &t,
        "source",
    ) || chars_equal_str(&t, "track") || chars_equal_str(&t, "wbr")
}

/// Whether `tag` names an element whose closing tag may be left out.
pub fn is_close_optional(tag: &str) -> (b: bool)
    ensures
        b == close_optional(tag@),
{
    let t = str_to_chars(tag);
    chars_equal_str(&t, "p") || chars_equal_str(&t, "dt") || chars_equal_str(&t, "dd")
        || chars_equal_str(&t, "li") || chars_equal_str(&t, "option") || chars_equal_str(
        &t,
        "thead",
    ) || chars_equal_str(&t, "th") || chars_equal_str(&t, "tbody") || chars_equal_str(&t, "tr")
        || chars_equal_str(&t, "td") || chars_equal_str(&t, "tfoot") || chars_equal_str(
        &t,
        "colgroup",
    )
}

/// Whether `attr` names an attribute whose presence alone is its value.
pub fn is_boolean_attribute(attr: &str) -> (b: bool)
    ensures
        b == boolean_attribute(attr@),
{
    let t = str_to_chars(attr);
    chars_equal_str(&t, "allowfullscreen") || chars_equal_str(&t, "async") || chars_equal_str(
        &t,
        "autofocus",
    ) || chars_equal_str(&t, "autoplay") || chars_equal_str(&t, "checked") || chars_equal_str(
        &t,
        "controls",
    ) || chars_equal_str(&t, "default") || chars_equal_str(&t, "defer") || chars_equal_str(
        &t,
        "disabled",
    ) || chars_equal_str(&t, "formnovalidate") || chars_equal_str(&t, "hidden")
        || chars_equal_str(&t, "inert") || chars_equal_str(&t, "ismap") || chars_equal_str(
        &t,
        "itemscope",
    ) || chars_equal_str(&t, "loop") || chars_equal_str(&t, "multiple") || chars_equal_str(
        &t,
        "muted",
    ) || chars_equal_str(&t, "nomodule") || chars_equal_str(&t, "novalidate") || chars_equal_str(
        &t,
        "open",
    ) || chars_equal_str(&t, "playsinline") || chars_equal_str(&t, "readonly")
        || chars_equal_str(&t, "required") || chars_equal_str(&t, "reversed") || chars_equal_str(
        &t,
        "selected",
    ) || chars_equal_str(&t, "typemustmatch")
}

/// Whether `attr` names an attribute that means nothing when its value is
/// empty.
pub fn is_empty_removable(attr: &str) -> (b: bool)
    ensures
        b == empty_removable(attr@),
{
    let t = str_to_chars(attr);
    chars_equal_str(&t, "id") || chars_equal_str(&t, "class") || chars_equal_str(&t, "style")
        || chars_equal_str(&t, "title") || chars_equal_str(&t, "action") || chars_equal_str(
        &t,
        "lang",
    ) || chars_equal_str(&t, "dir") || chars_equal_str(&t, "onfocus") || chars_equal_str(
        &t,
        "onblur",
    ) || chars_equal_str(&t, "onchange") || chars_equal_str(&t, "onclick") || chars_equal_str(
        &t,
        "ondblclick",
    ) || chars_equal_str(&t, "onmousedown") || chars_equal_str(&t, "onmouseup")
        || chars_equal_str(&t, "onmouseover") || chars_equal_str(&t, "onmousemove")
        || chars_equal_str(&t, "onmouseout") || chars_equal_str(&t, "onkeypress")
        || chars_equal_str(&t, "onkeydown") || chars_equal_str(&t, "onkeyup") || chars_equal_str(
        &t,
        "target",
    )
}

/// Whether the attribute `attr` of the element `tag` has `value` by default.
pub fn has_default_value(tag: &str, attr: &str, value: &str) -> (b: bool)
    ensures
        b == default_value(tag@, attr@, value@),
{
    let t = str_to_chars(tag);
    let a = str_to_chars(attr);
    let v = str_to_chars(value);
    (chars_equal_str(&t, "script") && chars_equal_str(&a, "type") && chars_equal_str(
        &v,
        "text/javascript",
    )) || (chars_equal_str(&t, "style") && chars_equal_str(&a, "type") && chars_equal_str(
        &v,
        "text/css",
    )) || (chars_equal_str(&t, "style") && chars_equal_str(&a, "media") && chars_equal_str(
        &v,
        "all",
    )) || (chars_equal_str(&t, "form") && chars_equal_str(&a, "method") && chars_equal_str(
        &v,
        "get",
    )) || (chars_equal_str(&t, "form") && chars_equal_str(&a, "autocomplete") && chars_equal_str(
        &v,
        "on",
    )) || (chars_equal_str(&t, "form") && chars_equal_str(&a, "enctype") && chars_equal_str(
        &v,
        "application/x-www-form-urlencoded",
    )) || (chars_equal_str(&t, "input") && chars_equal_str(&a, "type") && chars_equal_str(
        &v,
        "text",
    )) || (chars_equal_str(&t, "button") && chars_equal_str(&a, "type") && chars_equal_str(
        &v,
        "submit",
    ))
}

/// Whether `c` may stand in an attribute value without quotes.
pub fn is_unquoted_char(c: char) -> (b: bool)
    ensures
        b == unquoted_char(c),
{
    ('0' <= c && c <= '9') || ('A' <= c && c <= 'Z') || ('a' <= c && c <= 'z') || c == '-' || c
        == '_' || c == '.' || c == ':' || c == '/' || c == '#' || c == '@' || c == '%' || c == '!'
        || c == '*' || c == '~'
}

/// Whether the characters `value` can be written without quotes.
pub fn chars_need_no_quotes(value: &Vec<char>) -> (b: bool)
    ensures
        b == quotes_removable(value@),
{
    if value.len() == 0 {
        return false;
    }
    let mut i: usize = 0;
    while i < value.len()
        invariant
            i <= value.len(),
            forall|k: int| 0 <= k < i ==> unquoted_char(#[trigger] value@[k]),
        decreases value.len() - i,
    {
        if !is_unquoted_char(value[i]) {
            return false;
        }
        i += 1;
    }
    true
}

/// Whether `value` can be written without quotes.
pub fn should_remove_quotes(value: &str) -> (b: bool)
    ensures
        b == quotes_removable(value@),
{
    let v = str_to_chars(value);
    chars_need_no_quotes(&v)
}

/// A value that holds a space keeps its quotes.
pub proof fn lemma_space_needs_quotes(value: Seq<char>)
    requires
        value.contains(' '),
    ensures
        !quotes_removable(value),
{
    let i = choose|i: int| 0 <= i < value.len() && value[i] == ' ';
    assert(!unquoted_char(value[i]));
}

/// A value made of ASCII letters, digits and dashes, and not empty, needs no
/// quotes.
pub proof fn lemma_simple_value_needs_no_quotes(value: Seq<char>)
    requires
        value.len() > 0,
        forall|i: int|
            0 <= i < value.len() ==> {
                let c = #[trigger] value[i];
                ('0' <= c && c <= '9') || ('A' <= c && c <= 'Z') || ('a' <= c && c <= 'z') || c
                    == '-'
            },
    ensures
        quotes_removable(value),
{
}

/// No element without content has an optional closing tag.
pub proof fn lemma_void_elements_close_explicitly(tag: Seq<char>)
    requires
        singleton_element(tag),
    ensures
        !close_optional(tag),
{
    reveal_strlit("area");
    reveal_strlit("base");
    reveal_strlit("br");
    reveal_strlit("col");
    reveal_strlit("embed");
    reveal_strlit("hr");
    reveal_strlit("img");
    reveal_strlit("input");
    reveal_strlit("link");
    reveal_strlit("meta");
    reveal_strlit("param");
    reveal_strlit("source");
    reveal_strlit("track");
    reveal_strlit("wbr");
    reveal_strlit("p");
    reveal_strlit("dt");
    reveal_strlit("dd");
    reveal_strlit("li");
    reveal_strlit("option");
    reveal_strlit("thead");
    reveal_strlit("th");
    reveal_strlit("tbody");
    reveal_strlit("tr");
    reveal_strlit("td");
    reveal_strlit("tfoot");
    reveal_strlit("colgroup");
    assert("area"@.len() == 4);
    assert("base"@.len() == 4);
    assert("br"@.len() == 2);
    assert("col"@.len() == 3);
    assert("embed"@.len() == 5);
    assert("hr"@.len() == 2);
    assert("img"@.len() == 3);
    assert("input"@.len() == 5);
    assert("link"@.len() == 4);
    assert("meta"@.len() == 4);
    assert("param"@.len() == 5);
    assert("source"@.len() == 6);
    assert("track"@.len() == 5);
    assert("wbr"@.len() == 3);
    assert("p"@.len() == 1);
    assert("dt"@.len() == 2);
    assert("dd"@.len() == 2);
    assert("li"@.len() == 2);
    assert("option"@.len() == 6);
    assert("thead"@.len() == 5);
    assert("th"@.len() == 2);
    assert("tbody"@.len() == 5);
    assert("tr"@.len() == 2);
    assert("td"@.len() == 2);
    assert("tfoot"@.len() == 5);
    assert("colgroup"@.len() == 8);
    assert("br"@[0] == 'b' && "br"@[1] == 'r');
    assert("hr"@[0] == 'h' && "hr"@[1] == 'r');
    assert("dt"@[0] == 'd' && "dt"@[1] == 't');
    assert("dd"@[0] == 'd' && "dd"@[1] == 'd');
    assert("li"@[0] == 'l' && "li"@[1] == 'i');
    assert("th"@[0] == 't' && "th"@[1] == 'h');
    assert("tr"@[0] == 't' && "tr"@[1] == 'r');
    assert("td"@[0] == 't' && "td"@[1] == 'd');
    assert("embed"@[0] == 'e' && "embed"@[1] == 'm');
    assert("input"@[0] == 'i' && "input"@[1] == 'n');
    assert("param"@[0] == 'p' && "param"@[1] == 'a');
    assert("track"@[0] == 't' && "track"@[1] == 'r');
    assert("thead"@[0] == 't' && "thead"@[1] == 'h');
    assert("tbody"@[0] == 't' && "tbody"@[1] == 'b');
    assert("tfoot"@[0] == 't' && "tfoot"@[1] == 'f');
    assert("source"@[0] == 's' && "source"@[1] == 'o');
    assert("option"@[0] == 'o' && "option"@[1] == 'p');
}

} // verus!
