//! Tag-parsing core of a template-to-AST compiler front end.
//!
//! Given a cursor into a source buffer positioned at `<`, this library
//! decides whether the upcoming construct is a comment, a closing tag, an
//! ordinary element or component tag, or one of a small set of
//! framework-reserved meta tags, and mutates a tree of open elements
//! accordingly while enforcing document-level placement invariants. Some
//! malformed inputs abort the parse; others are recorded and parsing
//! continues.
//!
//! - [`grammar`]: the tag-name grammar and character classes.
//! - [`markers`]: the four reserved component markers and their
//!   boundary-character matching.
//! - [`node`]: the node model, a flat arena addressed by index.
//! - [`meta`]: the per-parse registry of meta tags already seen.
//! - [`diag`]: positioned diagnostics, fatal and recoverable.
//! - [`parser`]: the parser state and its primitive cursor operations.
//! - [`tag`]: one full recognize-and-mutate step per `<`-prefixed construct.
//! - [`document`]: a minimal driver that parses a whole document.

pub mod diag;
pub mod document;
pub mod grammar;
pub mod markers;
pub mod meta;
pub mod node;
pub mod parser;
pub mod tag;
