//! Parsing and resolution of EditorConfig-format documents.
//!
//! A document is parsed once into an ordered list of sections, each a glob
//! pattern (matched through the `globset` crate) together with a set of
//! tri-state formatting properties.  Resolution folds every section whose
//! pattern matches a queried path, in file order, into one effective
//! property set.

pub mod config;
pub mod decode;
pub mod globpat;
pub mod laws;
pub mod parse;
pub mod props;
pub mod resolve;
pub mod text;

pub use config::{EditorConfig, EditorConfigSection};
pub use props::{
    Charset, EditorConfigProperties, EditorConfigProperty, EndOfLine, IndentStyle, MaxLineLength,
};
