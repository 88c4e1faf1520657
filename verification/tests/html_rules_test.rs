use html_minifier::html::context::MinifierContext;
use html_minifier::html::processor::handle_text_node;
use html_minifier::{minify_html_tokens, minify_html_with_options, MinifierOptions};

#[test]
fn test_html_conservative_keeps_tags_and_quotes() {
    let options = MinifierOptions::conservative();
    assert_eq!(
        minify_html_with_options("<p class=\"a\">  x  </p>", &options),
        "<p class=\"a\">x</p>"
    );
    assert_eq!(
        minify_html_with_options("<script type=\"text/javascript\">a</script>", &options),
        "<script type=\"text/javascript\">a</script>"
    );
}

#[test]
fn test_html_conditional_comment_kept_on_request() {
    let options = MinifierOptions::conservative();
    assert_eq!(
        minify_html_with_options("<!--[if IE]>x<![endif]--><!-- y --><p>a</p>", &options),
        "<!--[if IE]>x<![endif]--><p>a</p>"
    );
    assert_eq!(minify_html_tokens("<!--[if IE]>x<![endif]--><p>a"), "<p>a");
}

#[test]
fn test_html_comments_kept_when_not_removed() {
    let mut options = MinifierOptions::new();
    options.remove_comments = false;
    assert_eq!(minify_html_with_options("<!-- y --><i>a</i>", &options), "<!-- y --><i>a</i>");
    assert_eq!(minify_html_with_options("<!-- y", &options), "<!-- y-->");
}

#[test]
fn test_html_declaration_passes_through() {
    let mut options = MinifierOptions::new();
    options.remove_comments = false;
    assert_eq!(
        minify_html_with_options("<!ELEMENT br EMPTY>", &options),
        "<!ELEMENT br EMPTY>"
    );
    assert_eq!(minify_html_with_options("<!X>", &options), "<!X>");
    assert_eq!(minify_html_with_options("<!X", &options), "<!X");
    assert_eq!(
        minify_html_with_options("<p>a</p><!ATTLIST x><!-- c --><p>b", &options),
        "<p>a<!ATTLIST x><!-- c --><p>b"
    );
    let mut plain = options;
    plain.collapse_whitespace = false;
    assert_eq!(minify_html_with_options("<!A  b = c>", &plain), "<!A  b = c>");
}

#[test]
fn test_html_declaration_goes_with_the_comments() {
    assert_eq!(minify_html_tokens("<!ELEMENT br EMPTY><p>a"), "<p>a");
    let conservative = MinifierOptions::conservative();
    assert_eq!(minify_html_with_options("<!ELEMENT br EMPTY><p>a</p>", &conservative), "<p>a</p>");
    assert_eq!(minify_html_with_options("<![if !IE]><p>a</p>", &conservative), "<p>a</p>");
}

#[test]
fn test_html_cdata_is_kept() {
    assert_eq!(minify_html_tokens("<![CDATA[a<b]]>"), "<![CDATA[a<b]]>");
    assert_eq!(minify_html_tokens("<![CDATA[a"), "<![CDATA[a]]>");
}

#[test]
fn test_html_void_element_gets_no_closing_tag() {
    assert_eq!(minify_html_tokens("<br/>"), "<br>");
    assert_eq!(minify_html_tokens("<img src=a.png />"), "<img src=a.png>");
    assert_eq!(minify_html_tokens("<input>"), "<input>");
    assert_eq!(minify_html_tokens("<BR/>"), "<br>");
}

#[test]
fn test_html_other_element_keeps_self_closing_form() {
    assert_eq!(minify_html_tokens("<circle r=1 />"), "<circle r=1/>");
}

#[test]
fn test_html_closing_tags() {
    assert_eq!(minify_html_tokens("<div><span>a</span></div>"), "<div><span>a</span></div>");
    assert_eq!(minify_html_tokens("<td>a</TD><tr></tr>"), "<td>a<tr>");
    let mut options = MinifierOptions::new();
    options.remove_optional_tags = false;
    assert_eq!(minify_html_with_options("<p>a</P>", &options), "<p>a</p>");
}

#[test]
fn test_html_names_are_lowercased() {
    assert_eq!(minify_html_tokens("<DIV ID=\"a\">x</DIV>"), "<div id=a>x</div>");
    assert_eq!(minify_html_tokens("<a HREF=\"\u{c9}\">x</a>"), "<a href=\"\u{c9}\">x</a>");
    assert_eq!(minify_html_tokens("<a \u{c9}=1>x</a>"), "<a \u{e9}=1>x</a>");
}

#[test]
fn test_html_doctype_is_lowercased() {
    assert_eq!(minify_html_tokens("<!DOCTYPE HTML PUBLIC \"X\">"), "<!doctype html public \"x\">");
    assert_eq!(minify_html_tokens("<!DOCTYPE \u{c9}>"), "<!doctype \u{e9}>");
}

#[test]
fn test_html_style_is_minified() {
    assert_eq!(
        minify_html_tokens("<style> a { color : red ; } </style>"),
        "<style>a{color:red}</style>"
    );
    let mut options = MinifierOptions::new();
    options.minify_css = false;
    assert_eq!(
        minify_html_with_options("<style>a {  b: c }</style>", &options),
        "<style>a { b: c }</style>"
    );
}

#[test]
fn test_html_script_is_minified() {
    assert_eq!(
        minify_html_tokens("<script> var  a = 1 ; // x\n</script>"),
        "<script>var a=1;</script>"
    );
}

#[test]
fn test_html_raw_text_elements() {
    assert_eq!(minify_html_tokens("<code>a\n  b</code>"), "<code>a b</code>");
    let mut options = MinifierOptions::new();
    options.collapse_whitespace = false;
    assert_eq!(minify_html_with_options("<pre>a\n  b </pre>", &options), "<pre>a\n  b </pre>");
    assert_eq!(minify_html_with_options("<p>a\n  b </p>", &options), "<p>a\n  b ");
}

#[test]
fn test_html_whitespace_collapses() {
    assert_eq!(minify_html_tokens("<b>a \n\t b</b>  c"), "<b>a b</b>c");
    assert_eq!(minify_html_tokens("a\u{a0}\u{a0}b"), "a b");
}

#[test]
fn test_html_boolean_attributes() {
    assert_eq!(minify_html_tokens("<input DISABLED=\"\" checked>"), "<input disabled checked>");
    let mut options = MinifierOptions::new();
    options.collapse_boolean_attributes = false;
    assert_eq!(
        minify_html_with_options("<input checked=\"checked\">", &options),
        "<input checked=checked>"
    );
}

#[test]
fn test_html_default_attributes() {
    assert_eq!(minify_html_tokens("<form method=\"get\" action=\"/x\">"), "<form action=/x>");
    assert_eq!(minify_html_tokens("<form method=\"post\">"), "<form method=post>");
    assert_eq!(minify_html_tokens("<input type=text>"), "<input>");
    assert_eq!(minify_html_tokens("<button type=\"submit\">a</button>"), "<button>a</button>");
    assert_eq!(minify_html_tokens("<style media=all type=\"text/css\">a{}</style>"), "<style>a{}</style>");
}

#[test]
fn test_html_empty_attributes() {
    assert_eq!(minify_html_tokens("<div id=\"\" class=''>x</div>"), "<div>x</div>");
    assert_eq!(minify_html_tokens("<img alt=\"\">"), "<img>");
    assert_eq!(minify_html_tokens("<div id>x</div>"), "<div>x</div>");
    assert_eq!(minify_html_tokens("<img alt>"), "<img alt>");
    assert_eq!(minify_html_tokens("<a href=\"\">x</a>"), "<a href=\"\">x</a>");
}

#[test]
fn test_html_empty_and_default_removal_are_separate() {
    let mut empties = MinifierOptions::new();
    empties.remove_default_attributes = false;
    assert_eq!(minify_html_with_options("<img alt=\"\">", &empties), "<img>");
    assert_eq!(minify_html_with_options("<input type=text>", &empties), "<input type=text>");
    let mut defaults = MinifierOptions::new();
    defaults.remove_empty_attributes = false;
    assert_eq!(minify_html_with_options("<div id=\"\">x</div>", &defaults), "<div id=\"\">x</div>");
    assert_eq!(minify_html_with_options("<input type=text>", &defaults), "<input>");
}

#[test]
fn test_html_attribute_quotes() {
    assert_eq!(
        minify_html_tokens("<a title=\"with space\" rel=\"simple-value\">x</a>"),
        "<a title=\"with space\" rel=simple-value>x</a>"
    );
    assert_eq!(minify_html_tokens("<a href='a?b=c'>x</a>"), "<a href=\"a?b=c\">x</a>");
    let mut options = MinifierOptions::new();
    options.remove_attribute_quotes = false;
    assert_eq!(minify_html_with_options("<a rel=simple-value>x</a>", &options), "<a rel=\"simple-value\">x</a>");
}

#[test]
fn test_html_style_and_class_attributes() {
    assert_eq!(
        minify_html_tokens("<p style=\"color: red; margin: 0;\" class=\"a   b\">x"),
        "<p style=\"color:red;margin:0\" class=\"a b\">x"
    );
}

#[test]
fn test_html_malformed_input_degrades() {
    assert_eq!(minify_html_tokens("<div"), "<div");
    assert_eq!(minify_html_tokens("a<"), "a");
    assert_eq!(minify_html_tokens("</p"), "");
    assert_eq!(minify_html_tokens("</div"), "</div>");
    assert_eq!(minify_html_tokens("<a title=\"x"), "<a title=\"\"x\"");
    assert_eq!(minify_html_tokens("<>"), "<>");
}

#[test]
fn test_html_second_pass_changes_nothing() {
    for html in [
        "<div>  <p>  Hello World  </p>  </div>",
        "<ul><li>Item 1</li><li>Item 2</li></ul>",
        "<input type=\"checkbox\" checked=\"checked\">",
        "<p>Text</p><path></path>",
        "<html><body>Test</body></html>",
        "<style> a { b : c ; } </style><script> var  x = 1 ; </script>",
        "<a title=\"with space\" rel=\"simple-value\">x</a>",
    ] {
        let once = minify_html_tokens(html);
        let twice = minify_html_tokens(&once);
        assert_eq!(once, twice);
    }
}

#[test]
fn test_html_raw_text_is_written_as_it_is() {
    for name in ["pre", "CODE", "textarea"] {
        for options in [MinifierOptions::new(), MinifierOptions::conservative()] {
            let mut context = MinifierContext::new(options);
            context.update_for_open_tag(name);
            let mut out = String::from("x");
            handle_text_node(&mut out, "  a \n\t b  ", &context);
            assert_eq!(out, "x  a \n\t b  ");
        }
    }
    let mut context = MinifierContext::new(MinifierOptions::new());
    context.update_for_open_tag("p");
    let mut out = String::new();
    handle_text_node(&mut out, "  a \n\t b  ", &context);
    assert_eq!(out, " a b ");
}

#[test]
fn test_html_second_pass_drops_a_lowercased_doctype() {
    let once = minify_html_tokens("<!DOCTYPE html><p>a");
    assert_eq!(once, "<!doctype html><p>a");
    assert_eq!(minify_html_tokens(&once), "<p>a");
}

#[test]
fn test_html_output_length_is_bounded() {
    for html in [
        "",
        "<![CDATA[",
        "<![CDATA[x",
        "<!-- x",
        "</p",
        "<a/b=",
        "<a b=>",
        "<!DOCTYPE \u{130}>",
        "<a \u{130}\u{130}=\u{130}>",
        "<!ELEMENT br EMPTY>",
        "<div>  <p>  Hello World  </p>  </div>",
    ] {
        for options in [MinifierOptions::new(), MinifierOptions::conservative()] {
            let out = minify_html_with_options(html, &options);
            assert!(out.chars().count() <= 15 * html.len());
            assert!(out.len() <= 60 * html.len());
        }
    }
}
