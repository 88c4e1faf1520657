use html_minifier::constants::{
    has_default_value, is_close_optional, is_empty_removable, should_remove_quotes,
};
use html_minifier::html::context::MinifierContext;
use html_minifier::html::processor::handle_token;
use html_minifier::html::utils::{
    append_attribute_value, append_collapsed_whitespace, cleanup_html_spacing,
    extract_attribute_value, process_attribute, process_attribute_value_cow,
    process_class_attribute, process_style_attribute, should_skip_attribute,
};
use html_minifier::token::Token;
use html_minifier::{MinifierError, MinifierOptions};
use std::borrow::Cow;

#[test]
fn test_options_presets() {
    let all = MinifierOptions::new();
    assert!(all.remove_comments && all.collapse_whitespace && all.remove_optional_tags);
    assert!(all.remove_attribute_quotes && all.collapse_boolean_attributes);
    assert!(all.remove_default_attributes && all.remove_empty_attributes);
    assert!(all.minify_js && all.minify_css && !all.preserve_conditional_comments);
    let same = MinifierOptions::default();
    assert_eq!(format!("{:?}", all), format!("{:?}", same));

    let safe = MinifierOptions::conservative();
    assert!(safe.remove_comments && safe.collapse_whitespace && !safe.remove_optional_tags);
    assert!(!safe.remove_attribute_quotes && safe.collapse_boolean_attributes);
    assert!(!safe.remove_default_attributes && !safe.remove_empty_attributes);
    assert!(safe.minify_js && safe.minify_css && safe.preserve_conditional_comments);
}

#[test]
fn test_options_round_trip() {
    let safe = MinifierOptions::conservative();
    let plain = html_minifier::config::CMinifierOptions::from(safe);
    assert!(!plain.remove_optional_tags && plain.preserve_conditional_comments);
    let back = MinifierOptions::from(plain);
    assert_eq!(format!("{:?}", back), format!("{:?}", safe));
}

#[test]
fn test_error_codes() {
    assert_eq!(MinifierError::Success.code(), 0);
    assert_eq!(MinifierError::NullPointer.code(), 1);
    assert_eq!(MinifierError::InvalidUtf8.code(), 2);
    assert_eq!(MinifierError::InternalError.code(), 3);
    assert_ne!(MinifierError::Success, MinifierError::InternalError);
}

#[test]
fn test_name_sets() {
    assert!(is_close_optional("p"));
    assert!(is_close_optional("colgroup"));
    assert!(!is_close_optional("path"));
    assert!(!is_close_optional("P"));
    assert!(!is_close_optional(""));
    assert!(is_empty_removable("id"));
    assert!(is_empty_removable("target"));
    assert!(!is_empty_removable("href"));
}

#[test]
fn test_default_values() {
    assert!(has_default_value("script", "type", "text/javascript"));
    assert!(has_default_value("style", "type", "text/css"));
    assert!(has_default_value("style", "media", "all"));
    assert!(has_default_value("form", "method", "get"));
    assert!(has_default_value("form", "autocomplete", "on"));
    assert!(has_default_value("form", "enctype", "application/x-www-form-urlencoded"));
    assert!(has_default_value("input", "type", "text"));
    assert!(has_default_value("button", "type", "submit"));
    assert!(!has_default_value("input", "type", "submit"));
    assert!(!has_default_value("script", "type", "module"));
    assert!(!has_default_value("div", "type", "text"));
}

#[test]
fn test_quotes_needed_outside_ascii() {
    assert!(should_remove_quotes("a-b_c.d:e/f#g@h%i!j*k~0"));
    assert!(!should_remove_quotes("caf\u{e9}"));
    assert!(!should_remove_quotes("a\"b"));
    assert!(!should_remove_quotes("a+b"));
}

#[test]
fn test_append_collapsed_whitespace() {
    let mut out = String::from("x");
    append_collapsed_whitespace(&mut out, " a \n\t b\u{a0}");
    assert_eq!(out, "x a b ");
    append_collapsed_whitespace(&mut out, "");
    assert_eq!(out, "x a b ");
    let mut controls = String::new();
    append_collapsed_whitespace(&mut controls, "a\u{b}\u{c}b\u{8}c\u{e}d\u{2003}e\u{200b}f");
    assert_eq!(controls, "a b\u{8}c\u{e}d e\u{200b}f");
}

#[test]
fn test_style_attribute_loses_all_final_semicolons() {
    assert_eq!(process_style_attribute("a:b;;"), "a:b");
    assert_eq!(process_style_attribute(""), "");
}

#[test]
fn test_class_attribute_without_names() {
    assert_eq!(process_class_attribute("   "), "");
    assert_eq!(process_class_attribute("a"), "a");
    assert_eq!(process_class_attribute("a\tb"), "a b");
}

#[test]
fn test_process_attribute_value_cow() {
    assert_eq!(process_attribute_value_cow("style", "color: red;"), "color:red");
    assert_eq!(process_attribute_value_cow("class", " a   b"), "a b");
    assert!(matches!(process_attribute_value_cow("class", " a b"), Cow::Borrowed(" a b")));
    assert!(matches!(process_attribute_value_cow("id", "x  y"), Cow::Borrowed("x  y")));
    assert!(matches!(process_attribute_value_cow("style", "a:b"), Cow::Owned(_)));
}

#[test]
fn test_extract_attribute_value() {
    assert_eq!(extract_attribute_value("\"a\""), "a");
    assert_eq!(extract_attribute_value("'a b'"), "a b");
    assert_eq!(extract_attribute_value("\"\""), "");
    assert_eq!(extract_attribute_value("\"a'"), "\"a'");
    assert_eq!(extract_attribute_value("\""), "\"");
    assert_eq!(extract_attribute_value(""), "");
    assert_eq!(extract_attribute_value("a"), "a");
    assert_eq!(extract_attribute_value("\"\u{e9}\""), "\u{e9}");
}

#[test]
fn test_should_skip_attribute() {
    assert!(should_skip_attribute("type", "text/javascript", "script"));
    assert!(should_skip_attribute("id", "", "div"));
    assert!(should_skip_attribute("alt", "", "img"));
    assert!(should_skip_attribute("value", "", "input"));
    assert!(!should_skip_attribute("checked", "", "input"));
    assert!(!should_skip_attribute("href", "", "a"));
    assert!(!should_skip_attribute("id", "x", "div"));
}

#[test]
fn test_append_attribute_value() {
    let all = MinifierOptions::new();
    let safe = MinifierOptions::conservative();
    let mut out = String::new();
    append_attribute_value(&mut out, "rel", "simple-value", &all);
    assert_eq!(out, "simple-value");
    append_attribute_value(&mut out, "title", "with space", &all);
    assert_eq!(out, "simple-value\"with space\"");
    append_attribute_value(&mut out, "rel", "simple-value", &safe);
    assert_eq!(out, "simple-value\"with space\"\"simple-value\"");
    let mut empty = String::new();
    append_attribute_value(&mut empty, "href", "", &all);
    assert_eq!(empty, "\"\"");
}

#[test]
fn test_process_attribute() {
    let all = MinifierOptions::new();
    let mut out = String::from("<input");
    process_attribute(&mut out, "checked=\"checked\"", "input", &all);
    assert_eq!(out, "<input checked");
    process_attribute(&mut out, "  CLASS = \"a\"  ", "input", &all);
    assert_eq!(out, "<input checked class=a");
    process_attribute(&mut out, "   ", "input", &all);
    process_attribute(&mut out, "type=text", "input", &all);
    process_attribute(&mut out, "id=''", "input", &all);
    assert_eq!(out, "<input checked class=a");
    process_attribute(&mut out, "data-x=a=b", "input", &all);
    assert_eq!(out, "<input checked class=a data-x=\"a=b\"");
    process_attribute(&mut out, "\u{c0}B", "input", &all);
    assert_eq!(out, "<input checked class=a data-x=\"a=b\" \u{e0}b");
}

#[test]
fn test_cleanup_html_spacing() {
    assert_eq!(cleanup_html_spacing("<a> b </a>"), "<a>b</a>");
    assert_eq!(cleanup_html_spacing("a  =  b"), "a=b");
    assert_eq!(cleanup_html_spacing("a \n b"), "a b");
    assert_eq!(cleanup_html_spacing("  a  "), "a");
    assert_eq!(cleanup_html_spacing("a  <b>"), "a <b>");
    assert_eq!(cleanup_html_spacing("a\t=\tb"), "a= b");
    assert_eq!(cleanup_html_spacing(""), "");
}

#[test]
fn test_context_follows_tags() {
    let mut context = MinifierContext::new(MinifierOptions::new());
    assert!(!context.in_pre_tag && !context.in_script_tag && !context.in_style_tag);
    assert_eq!(context.current_tag, "");
    context.update_for_open_tag("TextArea");
    assert!(context.in_pre_tag && !context.in_script_tag && !context.in_style_tag);
    assert_eq!(context.current_tag, "textarea");
    context.update_for_close_tag("div");
    assert!(context.in_pre_tag);
    context.update_for_close_tag("CODE");
    assert!(!context.in_pre_tag);
    assert_eq!(context.current_tag, "textarea");
    context.update_for_open_tag("script");
    assert!(context.in_script_tag && !context.in_pre_tag);
    context.update_for_close_tag("script");
    assert!(!context.in_script_tag);
    context.update_for_open_tag("STYLE");
    assert!(context.in_style_tag);
    context.update_for_open_tag("b");
    assert!(!context.in_style_tag);
}

#[test]
fn test_handle_token() {
    let mut context = MinifierContext::new(MinifierOptions::new());
    let mut out = String::new();
    handle_token(&mut out, Token::TagOpenStart("PRE"), &mut context);
    handle_token(&mut out, Token::TagOpenEnd, &mut context);
    handle_token(&mut out, Token::TextNode(" a  b "), &mut context);
    handle_token(&mut out, Token::TagClose("PRE"), &mut context);
    handle_token(&mut out, Token::TextNode(" a  b "), &mut context);
    handle_token(&mut out, Token::Comment(" c "), &mut context);
    handle_token(&mut out, Token::Declaration("<!E>"), &mut context);
    handle_token(&mut out, Token::Cdata(" d "), &mut context);
    handle_token(&mut out, Token::Doctype("<!DOCTYPE X>"), &mut context);
    handle_token(&mut out, Token::TagOpenStart("br"), &mut context);
    handle_token(&mut out, Token::Attribute("ID=a"), &mut context);
    handle_token(&mut out, Token::TagSelfClose, &mut context);
    handle_token(&mut out, Token::TagClose("li"), &mut context);
    assert_eq!(out, "<pre> a  b </pre> a b <![CDATA[ d ]]><!doctype x><br id=a>");

    let mut keeping = MinifierOptions::new();
    keeping.remove_comments = false;
    let mut context = MinifierContext::new(keeping);
    let mut out = String::new();
    handle_token(&mut out, Token::Comment(" c "), &mut context);
    handle_token(&mut out, Token::Declaration("<!ELEMENT br EMPTY>"), &mut context);
    assert_eq!(out, "<!-- c --><!ELEMENT br EMPTY>");
}
