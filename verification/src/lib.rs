//! Command-line request layer for a find-style tool over an S3-like object
//! store: parsers for storage paths, compact size and time expressions and
//! `key:value` tags, adapters that compile glob and regex patterns, and the
//! request aggregate handed to a matching engine.

mod error;
mod options;
mod path;
mod pattern;
mod scan;
mod size;
mod tag;
mod time;

pub use error::FindError;
pub use options::Cmd;
pub use options::FindOpt;
pub use path::S3path;
pub use pattern::InameGlob;
pub use pattern::NameGlob;
pub use pattern::parse_name_glob;
pub use pattern::parse_regex;
pub use size::FindSize;
pub use tag::FindTag;
pub use time::FindTime;
