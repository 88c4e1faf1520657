//! The options of HTML minification.

use vstd::prelude::*;
use vstd::std_specs::convert::FromSpecImpl;

verus! {

/// Which reductions the HTML minifier makes.
#[derive(Debug, Clone, Copy)]
pub struct MinifierOptions {
    /// Drop comments.
    pub remove_comments: bool,
    /// Shrink runs of whitespace in text.
    pub collapse_whitespace: bool,
    /// Drop closing tags that HTML lets an author leave out, such as `</p>`.
    pub remove_optional_tags: bool,
    /// Drop the quotes round attribute values that need none.
    pub remove_attribute_quotes: bool,
    /// Write a boolean attribute as its bare name.
    pub collapse_boolean_attributes: bool,
    /// Drop attributes that only restate a default.
    pub remove_default_attributes: bool,
    /// Drop attributes with an empty value where that changes nothing.
    pub remove_empty_attributes: bool,
    /// Minify the content of `script` elements.
    pub minify_js: bool,
    /// Minify the content of `style` elements.
    pub minify_css: bool,
    /// Keep conditional comments even where comments are dropped.
    pub preserve_conditional_comments: bool,
}

/// The options with every reduction on; conditional comments are not kept.
pub open spec fn default_options() -> MinifierOptions {
    MinifierOptions {
        remove_comments: true,
        collapse_whitespace: true,
        remove_optional_tags: true,
        remove_attribute_quotes: true,
        collapse_boolean_attributes: true,
        remove_default_attributes: true,
        remove_empty_attributes: true,
        minify_js: true,
        minify_css: true,
        preserve_conditional_comments: false,
    }
}

/// The cautious options: tags, quotes and attributes stay as written, and
/// conditional comments are kept.
pub open spec fn conservative_options() -> MinifierOptions {
    MinifierOptions {
        remove_comments: true,
        collapse_whitespace: true,
        remove_optional_tags: false,
        remove_attribute_quotes: false,
        collapse_boolean_attributes: true,
        remove_default_attributes: false,
        remove_empty_attributes: false,
        minify_js: true,
        minify_css: true,
        preserve_conditional_comments: true,
    }
}

impl Default for MinifierOptions {
    fn default() -> (options: Self)
        ensures
            options == default_options(),
    {
        Self {
            remove_comments: true,
            collapse_whitespace: true,
            remove_optional_tags: true,
            remove_attribute_quotes: true,
            collapse_boolean_attributes: true,
            remove_default_attributes: true,
            remove_empty_attributes: true,
            minify_js: true,
            minify_css: true,
            preserve_conditional_comments: false,
        }
    }
}

impl MinifierOptions {
    /// The options with every reduction on.
    pub fn new() -> (options: Self)
        ensures
            options == default_options(),
    {
        Self::default()
    }

    /// The cautious options.
    pub fn conservative() -> (options: Self)
        ensures
            options == conservative_options(),
    {
        Self {
            remove_comments: true,
            collapse_whitespace: true,
            remove_optional_tags: false,
            remove_attribute_quotes: false,
            collapse_boolean_attributes: true,
            remove_default_attributes: false,
            remove_empty_attributes: false,
            minify_js: true,
            minify_css: true,
            preserve_conditional_comments: true,
        }
    }
}

/// The options in the field order in which callers from other languages hand
/// them over.
#[derive(Debug, Clone, Copy)]
pub struct CMinifierOptions {
    pub remove_comments: bool,
    pub collapse_whitespace: bool,
    pub remove_optional_tags: bool,
    pub remove_attribute_quotes: bool,
    pub collapse_boolean_attributes: bool,
    pub remove_default_attributes: bool,
    pub remove_empty_attributes: bool,
    pub minify_js: bool,
    pub minify_css: bool,
    pub preserve_conditional_comments: bool,
}

impl From<CMinifierOptions> for MinifierOptions {
    fn from(c_opts: CMinifierOptions) -> (options: Self) {
        MinifierOptions {
            remove_comments: c_opts.remove_comments,
            collapse_whitespace: c_opts.collapse_whitespace,
            remove_optional_tags: c_opts.remove_optional_tags,
            remove_attribute_quotes: c_opts.remove_attribute_quotes,
            collapse_boolean_attributes: c_opts.collapse_boolean_attributes,
            remove_default_attributes: c_opts.remove_default_attributes,
            remove_empty_attributes: c_opts.remove_empty_attributes,
            minify_js: c_opts.minify_js,
            minify_css: c_opts.minify_css,
            preserve_conditional_comments: c_opts.preserve_conditional_comments,
        }
    }
}

impl FromSpecImpl<CMinifierOptions> for MinifierOptions {
    open spec fn obeys_from_spec() -> bool {
        true
    }

    open spec fn from_spec(c_opts: CMinifierOptions) -> Self {
        MinifierOptions {
            remove_comments: c_opts.remove_comments,
            collapse_whitespace: c_opts.collapse_whitespace,
            remove_optional_tags: c_opts.remove_optional_tags,
            remove_attribute_quotes: c_opts.remove_attribute_quotes,
            collapse_boolean_attributes: c_opts.collapse_boolean_attributes,
            remove_default_attributes: c_opts.remove_default_attributes,
            remove_empty_attributes: c_opts.remove_empty_attributes,
            minify_js: c_opts.minify_js,
            minify_css: c_opts.minify_css,
            preserve_conditional_comments: c_opts.preserve_conditional_comments,
        }
    }
}

impl From<MinifierOptions> for CMinifierOptions {
    fn from(opts: MinifierOptions) -> (options: Self) {
        CMinifierOptions {
            remove_comments: opts.remove_comments,
            collapse_whitespace: opts.collapse_whitespace,
            remove_optional_tags: opts.remove_optional_tags,
            remove_attribute_quotes: opts.remove_attribute_quotes,
            collapse_boolean_attributes: opts.collapse_boolean_attributes,
            remove_default_attributes: opts.remove_default_attributes,
            remove_empty_attributes: opts.remove_empty_attributes,
            minify_js: opts.minify_js,
            minify_css: opts.minify_css,
            preserve_conditional_comments: opts.preserve_conditional_comments,
        }
    }
}

impl FromSpecImpl<MinifierOptions> for CMinifierOptions {
    open spec fn obeys_from_spec() -> bool {
        true
    }

    open spec fn from_spec(opts: MinifierOptions) -> Self {
        CMinifierOptions {
            remove_comments: opts.remove_comments,
            collapse_whitespace: opts.collapse_whitespace,
            remove_optional_tags: opts.remove_optional_tags,
            remove_attribute_quotes: opts.remove_attribute_quotes,
            collapse_boolean_attributes: opts.collapse_boolean_attributes,
            remove_default_attributes: opts.remove_default_attributes,
            remove_empty_attributes: opts.remove_empty_attributes,
            minify_js: opts.minify_js,
            minify_css: opts.minify_css,
            preserve_conditional_comments: opts.preserve_conditional_comments,
        }
    }
}

/// How a call made from another language ended.
#[derive(Debug, Clone, Copy, PartialEq, Eq, Structural)]
pub enum MinifierError {
    /// The call ended well.
    Success,
    /// The text handed over was a null pointer.
    NullPointer,
    /// The text handed over was not UTF-8.
    InvalidUtf8,
    /// The result could not be handed back.
    InternalError,
}

impl MinifierError {
    /// The number under which callers from other languages know this outcome.
    pub fn code(&self) -> (code: u32)
        ensures
            code == match *self {
                MinifierError::Success => 0u32,
                MinifierError::NullPointer => 1u32,
                MinifierError::InvalidUtf8 => 2u32,
                MinifierError::InternalError => 3u32,
            },
    {
        match self {
            MinifierError::Success => 0,
            MinifierError::NullPointer => 1,
            MinifierError::InvalidUtf8 => 2,
            MinifierError::InternalError => 3,
        }
    }
}

} // verus!
