//! Validation and decomposition of merge-request titles of the form
//! `<kind> (<issue id>): <title>`: a change kind (`fix`, `feat` or `feature`,
//! in any ASCII case), a parenthesised issue identifier, and free ASCII text
//! after a colon.

pub mod grammar;
pub mod laws;
pub mod parser;
pub mod release;
pub mod report;
pub mod text;

pub use grammar::{ErrorKind, Kind};
pub use parser::{MergeRequest, ParseError, parse_jira_id, parse_kind, parse_merge_request, parse_title};
