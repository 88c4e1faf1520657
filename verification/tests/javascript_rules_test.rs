use html_minifier::minify_javascript;

#[test]
fn test_js_of_nothing() {
    assert_eq!(minify_javascript(""), "");
    assert_eq!(minify_javascript(" \n\t "), "");
}

#[test]
fn test_js_words_keep_one_space() {
    assert_eq!(minify_javascript("var   x"), "var x");
    assert_eq!(minify_javascript("return\n\n  a_b"), "return a_b");
    assert_eq!(minify_javascript("$a  $b"), "$a $b");
}

#[test]
fn test_js_other_whitespace_goes() {
    assert_eq!(minify_javascript("a + b"), "a+b");
    assert_eq!(minify_javascript("f ( x ) ;"), "f(x);");
}

#[test]
fn test_js_unicode_letters_are_word_characters() {
    assert_eq!(minify_javascript("\u{e9}  \u{e8}"), "\u{e9} \u{e8}");
}

#[test]
fn test_js_line_comment_at_the_end() {
    assert_eq!(minify_javascript("a // b"), "a");
    assert_eq!(minify_javascript("a; // b\nc"), "a;c");
    assert_eq!(minify_javascript("a //b\n c"), "a c");
}

#[test]
fn test_js_unterminated_block_comment() {
    assert_eq!(minify_javascript("a /* b"), "a");
    assert_eq!(minify_javascript("a /*/ b */ c"), "a c");
}

#[test]
fn test_js_unterminated_string() {
    assert_eq!(minify_javascript("x = 'a  b"), "x='a  b");
}

#[test]
fn test_js_escapes_in_strings() {
    assert_eq!(minify_javascript("x = \"a\\\"  b\" ;"), "x=\"a\\\"  b\";");
}

#[test]
fn test_js_template_literal_with_nested_backtick() {
    assert_eq!(minify_javascript("x = `a ${ f(`b  c`) }  d` ;"), "x=`a ${ f(`b  c`) }  d`;");
    assert_eq!(minify_javascript("`a  b"), "`a  b");
}

#[test]
fn test_js_regex_with_character_class() {
    assert_eq!(minify_javascript("x = /[/ ]+/gi ;"), "x=/[/ ]+/gi;");
    assert_eq!(minify_javascript("x = /a\\/ b/ ;"), "x=/a\\/ b/;");
}

#[test]
fn test_js_regex_at_start_of_program() {
    assert_eq!(minify_javascript("/a  b/.test(x)"), "/a  b/.test(x)");
}

#[test]
fn test_js_regex_cut_by_line_break() {
    assert_eq!(minify_javascript("x = /a\nb  c"), "x=/a\nb c");
}

#[test]
fn test_js_regex_after_keyword() {
    assert_eq!(minify_javascript("typeof /a  b/"), "typeof/a  b/");
    assert_eq!(minify_javascript("x ; case /a  b/ :"), "x;case/a  b/:");
}

#[test]
fn test_js_keyword_inside_identifier_divides() {
    assert_eq!(minify_javascript("myreturn /x/ 2"), "myreturn/x/2");
    assert_eq!(minify_javascript("win /x/ 2"), "win/x/2");
}

#[test]
fn test_js_division_after_operand() {
    assert_eq!(minify_javascript("4 / 2 / 1"), "4/2/1");
    assert_eq!(minify_javascript("a[0] / b"), "a[0]/b");
}

#[test]
fn test_js_ambiguous_operator() {
    // binary minus after an operand: the slash divides
    assert_eq!(minify_javascript("a - /b  c/ 1"), "a-/b c/1");
    // unary minus: the slash opens a regular expression
    assert_eq!(minify_javascript("( - /b  c/ )"), "(-/b  c/)");
}

#[test]
fn test_js_doubled_operator() {
    assert_eq!(minify_javascript("a ++ /b  c/"), "a++/b  c/");
    assert_eq!(minify_javascript("a << /b  c/"), "a<</b  c/");
}

#[test]
fn test_js_never_lengthens() {
    for js in ["a  b", "x = /a/g", "`${", "'\\", "a /", "// x", "/* x", "a\n\nb"] {
        assert!(minify_javascript(js).chars().count() <= js.chars().count());
    }
}
