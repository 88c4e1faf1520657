//! Lexical minification of HTML with embedded CSS and JavaScript.

pub mod boundary;
pub mod config;
pub mod constants;
pub mod html;
pub mod minifiers;
pub mod text;
pub mod token;
pub mod tokenizer;

pub use config::{MinifierError, MinifierOptions};
pub use html::{minify_html_tokens, minify_html_with_options};
pub use minifiers::{minify_css, minify_javascript};
