use html_minifier::token::Token;
use html_minifier::tokenizer::Tokenizer;

fn tokens(input: &str) -> Vec<Token<'_>> {
    let mut tokenizer = Tokenizer::new(input);
    let mut all = Vec::new();
    while let Some(token) = tokenizer.next_token() {
        all.push(token);
    }
    all
}

#[test]
fn test_tokens_of_an_element() {
    assert_eq!(
        tokens("<div class=\"a\">Hi</div>"),
        vec![
            Token::TagOpenStart("div"),
            Token::Attribute("class=\"a\""),
            Token::TagOpenEnd,
            Token::TextNode("Hi"),
            Token::TagClose("div"),
        ]
    );
}

#[test]
fn test_tokens_of_empty_and_blank_input() {
    assert_eq!(tokens(""), vec![]);
    assert_eq!(tokens(" \t\r\n "), vec![]);
}

#[test]
fn test_tokens_self_closing_tag() {
    assert_eq!(tokens("<br/>"), vec![Token::TagOpenStart("br"), Token::TagSelfClose]);
    assert_eq!(
        tokens("<img src=a />"),
        vec![Token::TagOpenStart("img"), Token::Attribute("src=a"), Token::TagSelfClose]
    );
}

#[test]
fn test_tokens_comment() {
    assert_eq!(tokens("<!-- x -->a"), vec![Token::Comment(" x "), Token::TextNode("a")]);
}

#[test]
fn test_tokens_unterminated_comment_takes_the_rest() {
    assert_eq!(tokens("<!-- x <p>"), vec![Token::Comment(" x <p>")]);
}

#[test]
fn test_tokens_comment_needs_content_after_dashes() {
    // `<!--` at the very end is not a comment opener: it is taken as a
    // declaration.
    assert_eq!(tokens("<!--"), vec![Token::Declaration("<!--")]);
}

#[test]
fn test_tokens_doctype() {
    assert_eq!(
        tokens("<!DOCTYPE html><p>"),
        vec![Token::Doctype("<!DOCTYPE html>"), Token::TagOpenStart("p"), Token::TagOpenEnd]
    );
}

#[test]
fn test_tokens_lowercase_doctype_is_a_declaration() {
    assert_eq!(tokens("<!doctype html>"), vec![Token::Declaration("<!doctype html>")]);
}

#[test]
fn test_tokens_cdata() {
    assert_eq!(tokens("<![CDATA[a < b]]>c"), vec![Token::Cdata("a < b"), Token::TextNode("c")]);
    assert_eq!(tokens("<![CDATA[a"), vec![Token::Cdata("a")]);
}

#[test]
fn test_tokens_declaration() {
    assert_eq!(
        tokens("<!ELEMENT x>y"),
        vec![Token::Declaration("<!ELEMENT x>"), Token::TextNode("y")]
    );
    assert_eq!(tokens("<!ELEMENT x"), vec![Token::Declaration("<!ELEMENT x")]);
    assert_eq!(tokens("<!>"), vec![Token::Declaration("<!>")]);
    assert_eq!(tokens("<![if !IE]>"), vec![Token::Declaration("<![if !IE]>")]);
    assert_eq!(tokens("<!-"), vec![Token::Declaration("<!-")]);
}

#[test]
fn test_tokens_trailing_angle_bracket_is_dropped() {
    assert_eq!(tokens("a<"), vec![Token::TextNode("a")]);
}

#[test]
fn test_tokens_close_tag_without_end() {
    assert_eq!(tokens("</p"), vec![Token::TagClose("p")]);
    assert_eq!(tokens("</p >x"), vec![Token::TagClose("p "), Token::TextNode("x")]);
}

#[test]
fn test_tokens_quoted_value_may_hold_angle_bracket() {
    assert_eq!(
        tokens("<a title=\"x>y\" id='z w'>"),
        vec![
            Token::TagOpenStart("a"),
            Token::Attribute("title=\"x>y\""),
            Token::Attribute("id='z w'"),
            Token::TagOpenEnd,
        ]
    );
}

#[test]
fn test_tokens_unclosed_quote_takes_the_rest() {
    assert_eq!(
        tokens("<a title=\"x> y"),
        vec![Token::TagOpenStart("a"), Token::Attribute("title=\"x> y")]
    );
}

#[test]
fn test_tokens_spaces_round_equals() {
    assert_eq!(
        tokens("<a b = c>"),
        vec![
            Token::TagOpenStart("a"),
            Token::Attribute("b"),
            Token::Attribute("= c"),
            Token::TagOpenEnd,
        ]
    );
    assert_eq!(
        tokens("<a b= c>"),
        vec![Token::TagOpenStart("a"), Token::Attribute("b= c"), Token::TagOpenEnd]
    );
}

#[test]
fn test_tokens_slash_inside_tag_is_an_attribute() {
    assert_eq!(
        tokens("<a / b>"),
        vec![
            Token::TagOpenStart("a"),
            Token::Attribute("/"),
            Token::Attribute("b"),
            Token::TagOpenEnd,
        ]
    );
}

#[test]
fn test_tokens_unfinished_open_tag() {
    assert_eq!(tokens("<div"), vec![Token::TagOpenStart("div")]);
    assert_eq!(tokens("<>"), vec![Token::TagOpenStart(""), Token::TagOpenEnd]);
}

#[test]
fn test_tokens_text_outside_ascii() {
    assert_eq!(
        tokens("<p>h\u{e9}llo \u{4e16}\u{754c}</p>"),
        vec![
            Token::TagOpenStart("p"),
            Token::TagOpenEnd,
            Token::TextNode("h\u{e9}llo \u{4e16}\u{754c}"),
            Token::TagClose("p"),
        ]
    );
    assert_eq!(
        tokens("<\u{e9} \u{e8}=\u{ea}>"),
        vec![
            Token::TagOpenStart("\u{e9}"),
            Token::Attribute("\u{e8}=\u{ea}"),
            Token::TagOpenEnd,
        ]
    );
}

#[test]
fn test_tokens_whitespace_before_text_is_skipped() {
    assert_eq!(tokens("  a b  <i>"), vec![
        Token::TextNode("a b  "),
        Token::TagOpenStart("i"),
        Token::TagOpenEnd,
    ]);
}

#[test]
fn test_tokens_path_is_one_name() {
    assert_eq!(
        tokens("<path></path>"),
        vec![Token::TagOpenStart("path"), Token::TagOpenEnd, Token::TagClose("path")]
    );
}
