//! HTML minification: the driver, its context and the attribute rules.

pub mod context;
pub mod processor;
pub mod utils;

pub use processor::{minify_html_tokens, minify_html_with_options};
