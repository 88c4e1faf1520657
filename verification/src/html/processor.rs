//! The HTML minification driver: it takes the tokens one by one, keeps the
//! context up to date and writes what each token comes to.

use crate::boundary::lemma_encoding_len;
use crate::config::{default_options, MinifierOptions};
use crate::constants::{close_optional, is_close_optional, is_singleton_element, singleton_element};
use crate::html::context::{
    context_after_close, context_after_open, initial_context, raw_text_element, ContextView,
    MinifierContext,
};
use crate::html::utils::{
    append_collapsed_whitespace, attribute_output, cleanup_html_spacing, collapsed,
    lemma_collapsed_len, lemma_spacing_never_lengthens,
    process_attribute, spacing_cleaned,
};
use crate::minifiers::css::{css_minified, lemma_css_never_lengthens, minify_css};
use crate::minifiers::javascript::{js_minified, lemma_js_never_lengthens, minify_javascript};
use crate::text::{
    ascii_lowercase, ascii_lowercase_chars, chars_to_string, ends_clean, lowercase_of,
    starts_clean, str_to_chars, unicode_lowercase,
};
use crate::token::{Token, TokenView};
use crate::tokenizer::{lemma_next_token_advances, next_token_at, Tokenizer};
use vstd::prelude::*;
use vstd::string::{StringExecFns, StringSliceAdditionalSpecFns};
use vstd::utf8::encode_utf8;

verus! {

/// `s` starts with `prefix`.
pub open spec fn starts_with(s: Seq<char>, prefix: Seq<char>) -> bool {
    s.len() >= prefix.len() && s.take(prefix.len() as int) == prefix
}

/// A comment that some browsers read as a condition.
pub open spec fn conditional_comment(comment: Seq<char>) -> bool {
    starts_with(comment, "[if "@) || starts_with(comment, "[endif"@)
}

/// What a run of text is written as. Inside `style` and `script` the text is
/// minified as a style sheet or a script where the options say so; inside a
/// raw-text element, or when whitespace is not collapsed, it is kept as it is;
/// elsewhere every run of whitespace becomes one space.
pub open spec fn text_output(content: Seq<char>, ctx: ContextView) -> Seq<char> {
    if ctx.in_style_tag && ctx.options.minify_css {
        css_minified(content)
    } else if ctx.in_script_tag && ctx.options.minify_js {
        js_minified(content)
    } else if ctx.in_pre_tag || !ctx.options.collapse_whitespace {
        content
    } else {
        collapsed(content)
    }
}

/// Whether a comment, or a declaration handled like one, is written out:
/// always when comments are kept, and when its text marks it as a conditional
/// comment and those are kept.
pub open spec fn comment_kept(comment: Seq<char>, options: MinifierOptions) -> bool {
    (options.preserve_conditional_comments && conditional_comment(comment))
        || !options.remove_comments
}

/// Whether a closing tag is written out: always, unless optional closing tags
/// are dropped and the element, named in lowercase, has one.
pub open spec fn closing_tag_kept(name: Seq<char>, options: MinifierOptions) -> bool {
    !options.remove_optional_tags || !close_optional(name)
}

/// What `token` is written as in the context `ctx`.
pub open spec fn token_output(token: TokenView, ctx: ContextView) -> Seq<char> {
    match token {
        TokenView::Doctype(content) => lowercase_of(content),
        TokenView::Comment(comment) => if comment_kept(comment, ctx.options) {
            "<!--"@ + comment + "-->"@
        } else {
            Seq::empty()
        },
        TokenView::Declaration(text) => if comment_kept(text, ctx.options) {
            text
        } else {
            Seq::empty()
        },
        TokenView::Cdata(content) => "<![CDATA["@ + content + "]]>"@,
        TokenView::TagOpenStart(name) => seq!['<'] + ascii_lowercase(name),
        TokenView::Attribute(attr) => attribute_output(attr, ctx.current_tag, ctx.options),
        TokenView::TagOpenEnd => seq!['>'],
        TokenView::TagSelfClose => if singleton_element(ctx.current_tag) {
            seq!['>']
        } else {
            "/>"@
        },
        TokenView::TagClose(name) => if closing_tag_kept(ascii_lowercase(name), ctx.options) {
            "</"@ + ascii_lowercase(name) + seq!['>']
        } else {
            Seq::empty()
        },
        TokenView::TextNode(content) => text_output(content, ctx),
    }
}

/// The context in which the token after `token` is read.
pub open spec fn context_after(token: TokenView, ctx: ContextView) -> ContextView {
    match token {
        TokenView::TagOpenStart(name) => context_after_open(ctx, name),
        TokenView::TagClose(name) => context_after_close(ctx, name),
        _ => ctx,
    }
}

/// What the driver has written when the tokenizer is done, if it stands at
/// `pos` in the bytes `b`, in the context `ctx`, and has written `out` so far.
pub open spec fn tokens_output(
    b: Seq<u8>,
    pos: int,
    in_tag: bool,
    ctx: ContextView,
    out: Seq<char>,
) -> Seq<char>
    decreases b.len() - pos,
    when 0 <= pos <= b.len()
    via tokens_output_decreases
{
    let scan = next_token_at(b, pos, in_tag);
    match scan.token {
        Some(token) => tokens_output(
            b,
            scan.pos,
            scan.in_tag,
            context_after(token, ctx),
            out + token_output(token, ctx),
        ),
        None => out,
    }
}

#[via_fn]
proof fn tokens_output_decreases(
    b: Seq<u8>,
    pos: int,
    in_tag: bool,
    ctx: ContextView,
    out: Seq<char>,
) {
    lemma_next_token_advances(b, pos, in_tag);
}

/// The minified form of the HTML text `html` under `options`: what the tokens
/// of the text come to, one after the other, and then, when whitespace is
/// collapsed, cleaned by the spacing pass.
pub open spec fn html_minified(html: Seq<char>, options: MinifierOptions) -> Seq<char> {
    let written = tokens_output(
        encode_utf8(html),
        0,
        false,
        initial_context(options),
        Seq::empty(),
    );
    if options.collapse_whitespace {
        spacing_cleaned(written)
    } else {
        written
    }
}

/// Writes what a run of text comes to in `context`. Inside `pre`, `code` or
/// `textarea`, with neither `style` nor `script` open, the text is written as
/// it is, whatever the options.
pub fn handle_text_node(result: &mut String, content: &str, context: &MinifierContext)
    ensures
        final(result)@ == old(result)@ + text_output(content@, context@),
        context.in_pre_tag && !context.in_style_tag && !context.in_script_tag ==> final(result)@
            == old(result)@ + content@,
{
    if context.in_style_tag && context.options.minify_css {
        let minified_css = minify_css(content);
        result.append(minified_css.as_str());
    } else if context.in_script_tag && context.options.minify_js {
        let minified_js = minify_javascript(content);
        result.append(minified_js.as_str());
    } else if context.in_pre_tag || !context.options.collapse_whitespace {
        result.append(content);
    } else {
        append_collapsed_whitespace(result, content);
    }
}

/// Whether `s` starts with the characters of `prefix`.
fn str_starts_with(s: &Vec<char>, prefix: &str) -> (b: bool)
    ensures
        b == starts_with(s@, prefix@),
{
    let p = str_to_chars(prefix);
    if p.len() > s.len() {
        return false;
    }
    let mut i: usize = 0;
    while i < p.len()
        invariant
            i <= p.len() <= s.len(),
            p@ == prefix@,
            forall|k: int| 0 <= k < i ==> s@[k] == p@[k],
        decreases p.len() - i,
    {
        if s[i] != p[i] {
            assert(s@.take(p.len() as int)[i as int] != p@[i as int]);
            return false;
        }
        i += 1;
    }
    assert(s@.take(p.len() as int) =~= p@);
    true
}

/// Whether `comment` is one that some browsers read as a condition.
fn is_conditional_comment(comment: &str) -> (b: bool)
    ensures
        b == conditional_comment(comment@),
{
    let c = str_to_chars(comment);
    str_starts_with(&c, "[if ") || str_starts_with(&c, "[endif")
}

/// Writes what `token` comes to at the end of `result`, and brings `context` up
/// to date.
pub fn handle_token(result: &mut String, token: Token, context: &mut MinifierContext)
    ensures
        final(result)@ == old(result)@ + token_output(token@, old(context)@),
        final(context)@ == context_after(token@, old(context)@),
        final(result)@.len() <= old(result)@.len() + 3 * token@.text_len() + 12,
{
    proof {
        if !(token@ is Doctype) && !(token@ is Attribute) {
            lemma_token_output_len(token@, context@);
        }
    }
    match token {
        Token::Doctype(content) => {
            let lowered = unicode_lowercase(content);
            result.append(lowered.as_str());
        },
        Token::Comment(comment_text) => {
            if context.options.preserve_conditional_comments && is_conditional_comment(
                comment_text,
            ) {
                result.append("<!--");
                result.append(comment_text);
                result.append("-->");
            } else if !context.options.remove_comments {
                result.append("<!--");
                result.append(comment_text);
                result.append("-->");
            } else {
                assert(result@ =~= old(result)@ + Seq::<char>::empty());
            }
        },
        Token::Declaration(text) => {
            if context.options.preserve_conditional_comments && is_conditional_comment(text) {
                result.append(text);
            } else if !context.options.remove_comments {
                result.append(text);
            } else {
                assert(result@ =~= old(result)@ + Seq::<char>::empty());
            }
        },
        Token::Cdata(content) => {
            result.append("<![CDATA[");
            result.append(content);
            result.append("]]>");
            assert(result@ =~= old(result)@ + ("<![CDATA["@ + content@ + "]]>"@));
        },
        Token::TagOpenStart(tag_name) => {
            context.update_for_open_tag(tag_name);
            result.push('<');
            result.append(context.current_tag.as_str());
            assert(result@ =~= old(result)@ + (seq!['<'] + ascii_lowercase(tag_name@)));
        },
        Token::Attribute(attr) => {
            process_attribute(result, attr, context.current_tag.as_str(), &context.options);
        },
        Token::TagOpenEnd => {
            result.push('>');
            assert(result@ =~= old(result)@ + seq!['>']);
        },
        Token::TagSelfClose => {
            if is_singleton_element(context.current_tag.as_str()) {
                result.push('>');
                assert(result@ =~= old(result)@ + seq!['>']);
            } else {
                result.append("/>");
            }
        },
        Token::TagClose(tag_name) => {
            let tag_lower = chars_to_string(&ascii_lowercase_chars(tag_name));
            if !context.options.remove_optional_tags || !is_close_optional(tag_lower.as_str()) {
                result.append("</");
                result.append(tag_lower.as_str());
                result.push('>');
                assert(result@ =~= old(result)@ + ("</"@ + tag_lower@ + seq!['>']));
            } else {
                assert(result@ =~= old(result)@ + Seq::<char>::empty());
            }
            context.update_for_close_tag(tag_name);
        },
        Token::TextNode(content) => {
            handle_text_node(result, content, context);
        },
    }
}

/// Minifies an HTML text with every reduction on.
pub fn minify_html_tokens(html: &str) -> (result: String)
    ensures
        result@ == html_minified(html@, default_options()),
        result@.len() <= 15 * html.spec_bytes().len(),
        encode_utf8(result@).len() <= 60 * html.spec_bytes().len(),
        starts_clean(result@) && ends_clean(result@),
{
    minify_html_with_options(html, &MinifierOptions::default())
}

/// Minifies an HTML text under `options`. The result never grows without bound:
/// it has at most fifteen characters, and so at most sixty bytes, for each byte
/// of `html`. With whitespace collapsed it has no whitespace at either end.
pub fn minify_html_with_options(html: &str, options: &MinifierOptions) -> (result: String)
    ensures
        result@ == html_minified(html@, *options),
        result@.len() <= 15 * html.spec_bytes().len(),
        encode_utf8(result@).len() <= 60 * html.spec_bytes().len(),
        options.collapse_whitespace ==> starts_clean(result@) && ends_clean(result@),
{
    let mut result = String::new();
    let mut tokenizer = Tokenizer::new(html);
    let mut context = MinifierContext::new(*options);
    let ghost b = html.spec_bytes();
    loop
        invariant
            tokenizer.wf(),
            tokenizer.source() == b,
            0 <= tokenizer.cursor() <= b.len(),
            tokens_output(b, 0, false, initial_context(*options), Seq::empty()) == tokens_output(
                b,
                tokenizer.cursor(),
                tokenizer.inside_tag(),
                context@,
                result@,
            ),
            result@.len() <= 15 * tokenizer.cursor(),
        ensures
            result@ == tokens_output(b, 0, false, initial_context(*options), Seq::empty()),
            result@.len() <= 15 * b.len(),
        decreases b.len() - tokenizer.cursor(),
    {
        proof {
            lemma_next_token_advances(b, tokenizer.cursor(), tokenizer.inside_tag());
        }
        match tokenizer.next_token() {
            Some(token) => {
                handle_token(&mut result, token, &mut context);
            },
            None => {
                break ;
            },
        }
    }
    let cleaned = if options.collapse_whitespace {
        proof {
            lemma_spacing_never_lengthens(result@);
        }
        cleanup_html_spacing(result.as_str())
    } else {
        result
    };
    proof {
        lemma_encoding_len(cleaned@);
    }
    cleaned
}

/// A `<!...>` construct that is no comment, document type or CDATA section is
/// written exactly as it stands in the input when comments are kept, and is not
/// written when they are dropped, unless its text marks it as a conditional
/// comment and those are kept.
pub proof fn lemma_declaration_passes_through(text: Seq<char>, ctx: ContextView)
    ensures
        !ctx.options.remove_comments ==> token_output(TokenView::Declaration(text), ctx) == text,
        ctx.options.remove_comments && !(ctx.options.preserve_conditional_comments
            && conditional_comment(text)) ==> token_output(TokenView::Declaration(text), ctx)
            == Seq::<char>::empty(),
{
}

/// An element without content gets no closing tag: where the current element
/// is one, the end of its opening tag is written as a bare `>`, in either form.
pub proof fn lemma_void_element_gets_no_closing_tag(ctx: ContextView)
    requires
        singleton_element(ctx.current_tag),
    ensures
        token_output(TokenView::TagSelfClose, ctx) == seq!['>'],
        token_output(TokenView::TagOpenEnd, ctx) == seq!['>'],
{
}

/// A closing tag is written, with the element's name in lowercase, unless
/// optional closing tags are dropped and the element has one; then nothing is
/// written.
pub proof fn lemma_closing_tag_kept_unless_optional(name: Seq<char>, ctx: ContextView)
    ensures
        token_output(TokenView::TagClose(name), ctx) == if ctx.options.remove_optional_tags
            && close_optional(ascii_lowercase(name)) {
            Seq::<char>::empty()
        } else {
            "</"@ + ascii_lowercase(name) + seq!['>']
        },
{
}

/// Inside `pre`, `code` or `textarea`, with neither `style` nor `script` open,
/// text is written as it is, whitespace included, whatever the options.
pub proof fn lemma_raw_text_is_verbatim(content: Seq<char>, ctx: ContextView)
    requires
        ctx.in_pre_tag,
        !ctx.in_style_tag,
        !ctx.in_script_tag,
    ensures
        text_output(content, ctx) == content,
        token_output(TokenView::TextNode(content), ctx) == content,
{
}

/// Text right after the opening tag of `pre`, `code` or `textarea` is written as
/// it is, whitespace included, whatever the options.
pub proof fn lemma_raw_text_is_kept(name: Seq<char>, content: Seq<char>, ctx: ContextView)
    requires
        raw_text_element(ascii_lowercase(name)),
    ensures
        text_output(content, context_after_open(ctx, name)) == content,
{
    reveal_strlit("pre");
    reveal_strlit("code");
    reveal_strlit("textarea");
    reveal_strlit("script");
    reveal_strlit("style");
    assert("pre"@.len() == 3 && "code"@.len() == 4 && "textarea"@.len() == 8);
    assert("script"@.len() == 6 && "style"@.len() == 5);
}

/// A token other than a document type or an attribute is written with no more
/// characters than its text has, and at most twelve more: the nine of
/// `<![CDATA[` and the three of `]]>`.
pub proof fn lemma_token_output_len(token: TokenView, ctx: ContextView)
    requires
        !(token is Doctype),
        !(token is Attribute),
    ensures
        token_output(token, ctx).len() <= token.text_len() + 12,
{
    reveal_strlit("<!--");
    reveal_strlit("-->");
    reveal_strlit("<![CDATA[");
    reveal_strlit("]]>");
    reveal_strlit("/>");
    reveal_strlit("</");
    match token {
        TokenView::TextNode(content) => {
            lemma_css_never_lengthens(content);
            lemma_js_never_lengthens(content);
            lemma_collapsed_len(content, content.len() as int);
        },
        _ => {},
    }
}

} // verus!
