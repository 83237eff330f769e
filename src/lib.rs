//! Line-by-line syntax highlighting for a text editor, driven by a
//! tree-sitter highlight event stream.
//!
//! The heart of the library is [`resolve`]: it turns the nested scope events
//! of one line into a flat, ordered list of styled byte ranges. The
//! [`Highlighter`] runs the parser on a line and hands its events to that
//! resolver; [`TSSettings`] holds the shared, immutable parser configuration;
//! [`style`] sorts the standard scope ids into display classes.

pub mod highlighter;
pub mod resolve;
pub mod style;

pub use highlighter::{Highlighter, TSSettings};
pub use resolve::{ScopeEvent, StyledSpan, resolve_events, resolve_parse};
pub use style::{ScopeStyle, style_of};
