//! Minifiers for the languages embedded in HTML.

pub mod css;
pub mod javascript;

pub use css::minify_css;
pub use javascript::minify_javascript;
