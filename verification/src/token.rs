//! The lexical units of an HTML text.

use vstd::prelude::*;

verus! {

/// One lexical unit of an HTML text. Each text it carries is a part of the
/// input, borrowed from it.
#[derive(Debug, Clone, Copy, PartialEq)]
pub enum Token<'a> {
    /// Text between tags.
    TextNode(&'a str),
    /// The start of an opening tag, with the element's name.
    TagOpenStart(&'a str),
    /// An attribute inside an opening tag, as written.
    Attribute(&'a str),
    /// The `>` that ends an opening tag.
    TagOpenEnd,
    /// The `/>` that ends an opening tag.
    TagSelfClose,
    /// A closing tag, with what stands between `</` and `>`.
    TagClose(&'a str),
    /// A comment, with what stands between `<!--` and `-->`.
    Comment(&'a str),
    /// Another `<!...>` construct, from `<` to `>`. It is handled like a
    /// comment, and written as it stands when it is kept.
    Declaration(&'a str),
    /// A document type declaration, from `<` to `>`.
    Doctype(&'a str),
    /// The content of a CDATA section.
    Cdata(&'a str),
}

/// A token with the texts it carries as character sequences.
pub enum TokenView {
    TextNode(Seq<char>),
    TagOpenStart(Seq<char>),
    Attribute(Seq<char>),
    TagOpenEnd,
    TagSelfClose,
    TagClose(Seq<char>),
    Comment(Seq<char>),
    Declaration(Seq<char>),
    Doctype(Seq<char>),
    Cdata(Seq<char>),
}

impl<'a> View for Token<'a> {
    type V = TokenView;

    open spec fn view(&self) -> TokenView {
        match *self {
            Token::TextNode(s) => TokenView::TextNode(s@),
            Token::TagOpenStart(s) => TokenView::TagOpenStart(s@),
            Token::Attribute(s) => TokenView::Attribute(s@),
            Token::TagOpenEnd => TokenView::TagOpenEnd,
            Token::TagSelfClose => TokenView::TagSelfClose,
            Token::TagClose(s) => TokenView::TagClose(s@),
            Token::Comment(s) => TokenView::Comment(s@),
            Token::Declaration(s) => TokenView::Declaration(s@),
            Token::Doctype(s) => TokenView::Doctype(s@),
            Token::Cdata(s) => TokenView::Cdata(s@),
        }
    }
}

impl TokenView {
    /// The number of characters of the text that the token carries.
    pub open spec fn text_len(self) -> nat {
        match self {
            TokenView::TextNode(s) => s.len(),
            TokenView::TagOpenStart(s) => s.len(),
            TokenView::Attribute(s) => s.len(),
            TokenView::TagOpenEnd => 0,
            TokenView::TagSelfClose => 0,
            TokenView::TagClose(s) => s.len(),
            TokenView::Comment(s) => s.len(),
            TokenView::Declaration(s) => s.len(),
            TokenView::Doctype(s) => s.len(),
            TokenView::Cdata(s) => s.len(),
        }
    }
}

/// The number of characters of the text that a token carries; none where the
/// token is missing.
pub open spec fn token_text_len(token: Option<Token>) -> nat {
    match token {
        Some(t) => t@.text_len(),
        None => 0,
    }
}

/// The view of a token that may be missing.
pub open spec fn token_view(token: Option<Token>) -> Option<TokenView> {
    match token {
        Some(t) => Some(t@),
        None => None,
    }
}

} // verus!
