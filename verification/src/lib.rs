//! Codec between note metadata, structured file names and front matter.

pub mod clock;
pub mod collation;
pub mod config;
pub mod content;
pub mod filename;
pub mod format;
pub mod frontmatter;
pub mod frontmatter_parse;
pub mod metadata;
pub mod parse;
pub mod parsers;
pub mod resolve;
pub mod round_trip;
pub mod sanitise;
pub mod text;
pub mod word;
