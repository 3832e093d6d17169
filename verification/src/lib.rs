//! Rewrites a git commit message by appending `Co-authored-by` trailer lines.
//!
//! The pipeline extracts a group of short author codes from the message with a
//! configured regular expression, splits the group on a configured separator,
//! resolves each short code against the team roster, and appends one trailer
//! line per resolved member other than the committer.

pub mod builder;
pub mod config;
pub mod errors;
pub mod extractor;
pub mod pipeline;
pub mod resolver;
pub mod splitter;

pub use builder::build_msg;
pub use extractor::match_regex;
pub use pipeline::build_commit_msg;
pub use pipeline::check_and_build_commit_msg;
pub use resolver::shorts_to_members;
pub use splitter::extract_shorts;
