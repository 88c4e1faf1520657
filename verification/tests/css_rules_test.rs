use html_minifier::minifiers::css::minify_css_chars;
use html_minifier::minify_css;

#[test]
fn test_css_of_nothing() {
    assert_eq!(minify_css(""), "");
    assert_eq!(minify_css("  \n "), "");
}

#[test]
fn test_css_string_literal_is_kept() {
    assert_eq!(minify_css("a { content: \"x  y\"; }"), "a{content:\"x  y\"}");
    assert_eq!(minify_css("a{content:'a\\'  b'}"), "a{content:'a\\'  b'}");
}

#[test]
fn test_css_unterminated_string_takes_the_rest() {
    assert_eq!(minify_css("a{b:\"c  d }"), "a{b:\"c  d }");
}

#[test]
fn test_css_unterminated_comment_takes_the_rest() {
    assert_eq!(minify_css("a /* b { c }"), "a");
}

#[test]
fn test_css_slash_stands_for_itself() {
    assert_eq!(minify_css("a{b:url(c/d)}"), "a{b:url(c/d)}");
    assert_eq!(minify_css("a // b"), "a // b");
}

#[test]
fn test_css_space_between_words_stays_single() {
    assert_eq!(minify_css("a{margin: 0   auto}"), "a{margin:0 auto}");
    assert_eq!(minify_css("ul   li"), "ul li");
}

#[test]
fn test_css_combinators_lose_their_spaces() {
    assert_eq!(minify_css("a > b + c ~ d , e"), "a>b+c~d,e");
}

#[test]
fn test_css_brackets() {
    assert_eq!(minify_css("a[ b ] ( c )"), "a[b] (c)");
}

#[test]
fn test_css_semicolon_before_brace_goes() {
    assert_eq!(minify_css("a{b:c;}"), "a{b:c}");
    assert_eq!(minify_css("a{b:c; \n }d{e:f;g:h}"), "a{b:c}d{e:f;g:h}");
    assert_eq!(minify_css("a;b"), "a;b");
}

#[test]
fn test_css_leading_whitespace_goes() {
    assert_eq!(minify_css("  a"), "a");
    assert_eq!(minify_css(" /* c */ a "), "a");
}

#[test]
fn test_css_unicode_whitespace_counts() {
    assert_eq!(minify_css("a\u{a0}\u{2003}b"), "a b");
}

#[test]
fn test_css_never_lengthens() {
    for css in ["a { b : c ; }", "a\"b", "/* x", " a  b ", "}{;:", "a/b", "\"\\"] {
        assert!(minify_css(css).chars().count() <= css.chars().count());
    }
}

#[test]
fn test_css_on_characters() {
    let input: Vec<char> = "a { b : c }".chars().collect();
    let output: String = minify_css_chars(&input).into_iter().collect();
    assert_eq!(output, "a{b:c}");
}
