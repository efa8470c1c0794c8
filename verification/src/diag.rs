//! Diagnostics: positioned errors, split into fatal kinds that abort the
//! parse and recoverable kinds that are recorded while parsing continues.

use vstd::prelude::*;

verus! {

/// The kinds of error this core can raise.
#[derive(Clone, Copy, Debug, PartialEq, Eq, Structural)]
pub enum ErrorCode {
    /// No valid name token where one is mandatory (fatal).
    InvalidTagName,
    /// `<!--` without a matching `-->` before the end of input (fatal).
    UnclosedComment,
    /// A closing tag with no corresponding open ancestor (fatal).
    UnmatchedClosingTag,
    /// A singleton meta tag seen a second time (recoverable).
    DuplicateElement,
    /// A `svelte:window`/`svelte:body` element with children (recoverable).
    InvalidElementContent,
    /// A meta element nested below the document root (recoverable).
    InvalidElementPlacement,
}

/// A positioned error. The offset indexes the source character sequence.
#[derive(Clone, Copy, Debug, PartialEq, Eq, Structural)]
pub struct Diagnostic {
    /// What went wrong.
    pub code: ErrorCode,
    /// Where it went wrong, as an offset into the source.
    pub offset: usize,
}

/// Whether a diagnostic of this kind aborts the parse.
pub open spec fn spec_is_fatal(code: ErrorCode) -> bool {
    code is InvalidTagName || code is UnclosedComment || code is UnmatchedClosingTag
}

impl ErrorCode {
    /// Fatal kinds unwind the whole parse; recoverable kinds are recorded and
    /// parsing continues.
    pub fn is_fatal(&self) -> (r: bool)
        ensures
            r == spec_is_fatal(*self),
    {
        match self {
            ErrorCode::InvalidTagName => true,
            ErrorCode::UnclosedComment => true,
            ErrorCode::UnmatchedClosingTag => true,
            ErrorCode::DuplicateElement => false,
            ErrorCode::InvalidElementContent => false,
            ErrorCode::InvalidElementPlacement => false,
        }
    }
}

/// The message text reported for each error kind.
pub open spec fn spec_message(code: ErrorCode) -> Seq<char> {
    match code {
        ErrorCode::InvalidTagName => "expected a valid tag name"@,
        ErrorCode::UnclosedComment => "comment was left open, expected -->"@,
        ErrorCode::UnmatchedClosingTag => "closing tag without matching open element"@,
        ErrorCode::DuplicateElement => "a component can only have one meta tag of each kind"@,
        ErrorCode::InvalidElementContent => "meta element cannot have children"@,
        ErrorCode::InvalidElementPlacement => "meta element must be at the top level of the component"@,
    }
}

impl Diagnostic {
    /// Build a diagnostic from its kind and position.
    pub fn new(code: ErrorCode, offset: usize) -> (r: Diagnostic)
        ensures
            r == (Diagnostic { code, offset }),
    {
        Diagnostic { code, offset }
    }

    /// The human-readable message for this diagnostic's kind.
    pub fn message(&self) -> (r: String)
        ensures
            r@ == spec_message(self.code),
    {
        let text: &str = match self.code {
            ErrorCode::InvalidTagName => "expected a valid tag name",
            ErrorCode::UnclosedComment => "comment was left open, expected -->",
            ErrorCode::UnmatchedClosingTag => "closing tag without matching open element",
            ErrorCode::DuplicateElement => "a component can only have one meta tag of each kind",
            ErrorCode::InvalidElementContent => "meta element cannot have children",
            ErrorCode::InvalidElementPlacement => "meta element must be at the top level of the component",
        };
        text.to_owned()
    }
}

} // verus!
