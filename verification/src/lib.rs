//! Validation of configuration profiles against a declarative schema, and
//! projection of a validated profile into build flags.

pub mod assoc;
pub mod config;
pub mod document;
pub mod fields;
pub mod flags;
pub mod load;
pub mod messages;
pub mod ordered;
pub mod profile;
pub mod replicate;
pub mod report;
pub mod schema;
pub mod sections;
pub mod text;
pub mod value;
