//! What the HTML minifier remembers between tokens.

use crate::config::MinifierOptions;
use crate::constants::chars_equal_str;
use crate::text::{ascii_lowercase, ascii_lowercase_chars, chars_to_string};
use vstd::prelude::*;

verus! {

/// The element the minifier is in, and what that means for text.
pub struct MinifierContext {
    /// Inside `pre`, `code` or `textarea`, where text stays as it is.
    pub in_pre_tag: bool,
    /// Inside `script`.
    pub in_script_tag: bool,
    /// Inside `style`.
    pub in_style_tag: bool,
    /// The name of the element opened last, in lowercase.
    pub current_tag: String,
    /// The options of this run.
    pub options: MinifierOptions,
}

/// A context with the element's name as a character sequence.
pub struct ContextView {
    pub in_pre_tag: bool,
    pub in_script_tag: bool,
    pub in_style_tag: bool,
    pub current_tag: Seq<char>,
    pub options: MinifierOptions,
}

impl View for MinifierContext {
    type V = ContextView;

    open spec fn view(&self) -> ContextView {
        ContextView {
            in_pre_tag: self.in_pre_tag,
            in_script_tag: self.in_script_tag,
            in_style_tag: self.in_style_tag,
            current_tag: self.current_tag@,
            options: self.options,
        }
    }
}

/// An element whose text is kept as written.
pub open spec fn raw_text_element(name: Seq<char>) -> bool {
    name == "pre"@ || name == "code"@ || name == "textarea"@
}

/// The context before the first token.
pub open spec fn initial_context(options: MinifierOptions) -> ContextView {
    ContextView {
        in_pre_tag: false,
        in_script_tag: false,
        in_style_tag: false,
        current_tag: Seq::empty(),
        options,
    }
}

/// The context after the opening tag of `tag_name`: the element is the current
/// one, and the three flags say what it is.
pub open spec fn context_after_open(ctx: ContextView, tag_name: Seq<char>) -> ContextView {
    let name = ascii_lowercase(tag_name);
    ContextView {
        in_pre_tag: raw_text_element(name),
        in_script_tag: name == "script"@,
        in_style_tag: name == "style"@,
        current_tag: name,
        options: ctx.options,
    }
}

/// The context after the closing tag of `tag_name`: a flag falls when the
/// element closed is one that raises it, and nothing else changes.
pub open spec fn context_after_close(ctx: ContextView, tag_name: Seq<char>) -> ContextView {
    let name = ascii_lowercase(tag_name);
    ContextView {
        in_pre_tag: ctx.in_pre_tag && !raw_text_element(name),
        in_script_tag: ctx.in_script_tag && name != "script"@,
        in_style_tag: ctx.in_style_tag && name != "style"@,
        current_tag: ctx.current_tag,
        options: ctx.options,
    }
}

/// Whether `name` is an element whose text is kept as written.
fn is_raw_text_element(name: &Vec<char>) -> (b: bool)
    ensures
        b == raw_text_element(name@),
{
    chars_equal_str(name, "pre") || chars_equal_str(name, "code") || chars_equal_str(
        name,
        "textarea",
    )
}

impl MinifierContext {
    /// The context before the first token.
    pub fn new(options: MinifierOptions) -> (context: Self)
        ensures
            context@ == initial_context(options),
    {
        Self {
            in_pre_tag: false,
            in_script_tag: false,
            in_style_tag: false,
            current_tag: String::new(),
            options,
        }
    }

    /// Takes note of the opening tag of `tag_name`.
    pub fn update_for_open_tag(&mut self, tag_name: &str)
        ensures
            final(self)@ == context_after_open(old(self)@, tag_name@),
    {
        let name = ascii_lowercase_chars(tag_name);
        self.current_tag = chars_to_string(&name);
        self.in_pre_tag = is_raw_text_element(&name);
        self.in_script_tag = chars_equal_str(&name, "script");
        self.in_style_tag = chars_equal_str(&name, "style");
    }

    /// Takes note of the closing tag of `tag_name`.
    pub fn update_for_close_tag(&mut self, tag_name: &str)
        ensures
            final(self)@ == context_after_close(old(self)@, tag_name@),
    {
        let tag_lower = ascii_lowercase_chars(tag_name);
        let closes_raw_text = is_raw_text_element(&tag_lower);
        let closes_script = chars_equal_str(&tag_lower, "script");
        let closes_style = chars_equal_str(&tag_lower, "style");
        if closes_raw_text {
            self.in_pre_tag = false;
        }
        if closes_script {
            self.in_script_tag = false;
        }
        if closes_style {
            self.in_style_tag = false;
        }
    }
}

} // verus!
