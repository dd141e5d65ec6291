//! The refusals of the two parsers. Every refusal is final: nothing is
//! emitted for a configuration or a declaration that was refused.

use vstd::prelude::*;
use vstd::string::*;

verus! {

/// Why a configuration or a declaration was refused.
#[derive(Clone, Copy, PartialEq, Eq, Structural, Debug)]
pub enum ErrorKind {
    /// The configuration has something else where a key should stand.
    ExpectedKey,
    /// A key is not followed by `=` or `:`.
    ExpectedAssignment,
    /// An assignment is not followed by an identifier or a literal.
    ExpectedValue,
    /// A value is not followed by `,`.
    ExpectedDelimiter,
    /// The configuration ends after a key, an assignment sign or a comma.
    IncompleteArguments,
    /// The key is none of the known attributes.
    UnknownAttribute,
    /// `bits` is not one of 8, 16, 32, 64, 128.
    InvalidBits,
    /// `empty` is not a legal name.
    InvalidEmptyName,
    /// `disable_empty_generation` is not one of `true`, `yes`, `false`, `no`.
    InvalidDisableEmptyGeneration,
    /// The declaration starts with something that is neither `pub` nor `enum`.
    ExpectedEnumOrVisibility,
    /// `pub` is followed by a group that is not in parentheses.
    ExpectedVisibilityGroup,
    /// The keyword `enum` is missing.
    ExpectedEnum,
    /// `enum` is not followed by an identifier.
    ExpectedEnumName,
    /// The name of the type is not followed by a group in braces.
    ExpectedOpenBrace,
    /// Something follows the body of the declaration.
    UnexpectedToken,
    /// The declaration ends before its body, or inside a flag.
    IncompleteDeclaration,
    /// Something else stands where a flag's name should.
    ExpectedFlagName,
    /// A flag's name has the fingerprint of an earlier flag's name.
    DuplicateName,
    /// A flag's name is not followed by `=`.
    ExpectedEqual,
    /// `=` is not followed by a literal.
    ExpectedLiteral,
    /// The literal is not an unsigned integer of at most 128 bits.
    InvalidInteger,
    /// The value does not fit the configured width.
    ValueTooLarge,
    /// An earlier flag has the same value.
    DuplicateValue,
    /// A flag has value zero although the empty case is disabled.
    EmptyCaseDisabled,
    /// A flag has value zero although the configuration names the empty case.
    EmptyCaseConflict,
    /// A flag is not followed by `,`.
    ExpectedSeparator,
}

// What each kind of refusal says.
pub const EXPECTED_KEY: &'static str =
    "expecting a key, but got";

pub const EXPECTED_ASSIGNMENT: &'static str =
    "expecting an assignment (`=` or `:`), but got";

pub const EXPECTED_VALUE: &'static str =
    "expecting a value, but got";

pub const EXPECTED_DELIMITER: &'static str =
    "expecting a delimiter (`,`), but got";

pub const INCOMPLETE_ARGUMENTS: &'static str =
    "the attributes end after a key, an assignment or a comma";

pub const UNKNOWN_ATTRIBUTE: &'static str =
    "unknown attribute; the attributes are `bits`, `empty`, `disable_empty_generation` and `debug`, but got";

pub const INVALID_BITS: &'static str =
    "the value of `bits` can be 8, 16, 32, 64 or 128, but got";

pub const INVALID_EMPTY_NAME: &'static str =
    "the name of the empty case must be made of letters, digits and underscores and must not start with a digit, but got";

pub const INVALID_DISABLE_EMPTY_GENERATION: &'static str =
    "the value of `disable_empty_generation` can be `true`, `yes`, `false` or `no`, but got";

pub const EXPECTED_ENUM_OR_VISIBILITY: &'static str =
    "expecting `enum` or `pub`, but got";

pub const EXPECTED_VISIBILITY_GROUP: &'static str =
    "expecting a visibility scope in parentheses, such as `(crate)`, but got";

pub const EXPECTED_ENUM: &'static str =
    "expecting the keyword `enum`, but got";

pub const EXPECTED_ENUM_NAME: &'static str =
    "expecting the name of the enum, but got";

pub const EXPECTED_OPEN_BRACE: &'static str =
    "expecting `{` after the name of the enum, but got";

pub const UNEXPECTED_TOKEN: &'static str =
    "expecting nothing after the body of the enum, but got";

pub const INCOMPLETE_DECLARATION: &'static str =
    "the declaration ends before its body is complete";

pub const EXPECTED_FLAG_NAME: &'static str =
    "expecting the name of a flag, but got";

pub const DUPLICATE_NAME: &'static str =
    "a flag is declared twice (the case of letters is not told apart)";

pub const EXPECTED_EQUAL: &'static str =
    "expecting `=` after the name of a flag, but got";

pub const EXPECTED_LITERAL: &'static str =
    "expecting the value of a flag, but got";

pub const INVALID_INTEGER: &'static str =
    "expecting an unsigned integer of at most 128 bits, but got";

pub const VALUE_TOO_LARGE: &'static str =
    "the value does not fit the bits of the storage type";

pub const DUPLICATE_VALUE: &'static str =
    "two flags have the same value";

pub const EMPTY_CASE_DISABLED: &'static str =
    "the empty case is disabled, so no flag can have the value 0";

pub const EMPTY_CASE_CONFLICT: &'static str =
    "the attributes already name the empty case, so no flag can have the value 0";

pub const EXPECTED_SEPARATOR: &'static str =
    "expecting `,` after the value of a flag, but got";

impl ErrorKind {
    /// What went wrong, in words.
    pub open spec fn description(self) -> Seq<char> {
        match self {
            ErrorKind::ExpectedKey => EXPECTED_KEY@,
            ErrorKind::ExpectedAssignment => EXPECTED_ASSIGNMENT@,
            ErrorKind::ExpectedValue => EXPECTED_VALUE@,
            ErrorKind::ExpectedDelimiter => EXPECTED_DELIMITER@,
            ErrorKind::IncompleteArguments => INCOMPLETE_ARGUMENTS@,
            ErrorKind::UnknownAttribute => UNKNOWN_ATTRIBUTE@,
            ErrorKind::InvalidBits => INVALID_BITS@,
            ErrorKind::InvalidEmptyName => INVALID_EMPTY_NAME@,
            ErrorKind::InvalidDisableEmptyGeneration => INVALID_DISABLE_EMPTY_GENERATION@,
            ErrorKind::ExpectedEnumOrVisibility => EXPECTED_ENUM_OR_VISIBILITY@,
            ErrorKind::ExpectedVisibilityGroup => EXPECTED_VISIBILITY_GROUP@,
            ErrorKind::ExpectedEnum => EXPECTED_ENUM@,
            ErrorKind::ExpectedEnumName => EXPECTED_ENUM_NAME@,
            ErrorKind::ExpectedOpenBrace => EXPECTED_OPEN_BRACE@,
            ErrorKind::UnexpectedToken => UNEXPECTED_TOKEN@,
            ErrorKind::IncompleteDeclaration => INCOMPLETE_DECLARATION@,
            ErrorKind::ExpectedFlagName => EXPECTED_FLAG_NAME@,
            ErrorKind::DuplicateName => DUPLICATE_NAME@,
            ErrorKind::ExpectedEqual => EXPECTED_EQUAL@,
            ErrorKind::ExpectedLiteral => EXPECTED_LITERAL@,
            ErrorKind::InvalidInteger => INVALID_INTEGER@,
            ErrorKind::ValueTooLarge => VALUE_TOO_LARGE@,
            ErrorKind::DuplicateValue => DUPLICATE_VALUE@,
            ErrorKind::EmptyCaseDisabled => EMPTY_CASE_DISABLED@,
            ErrorKind::EmptyCaseConflict => EMPTY_CASE_CONFLICT@,
            ErrorKind::ExpectedSeparator => EXPECTED_SEPARATOR@,
        }
    }

    /// What went wrong, in words.
    pub fn describe(&self) -> (text: &'static str)
        ensures
            text@ == self.description(),
    {
        match self {
            ErrorKind::ExpectedKey => EXPECTED_KEY,
            ErrorKind::ExpectedAssignment => EXPECTED_ASSIGNMENT,
            ErrorKind::ExpectedValue => EXPECTED_VALUE,
            ErrorKind::ExpectedDelimiter => EXPECTED_DELIMITER,
            ErrorKind::IncompleteArguments => INCOMPLETE_ARGUMENTS,
            ErrorKind::UnknownAttribute => UNKNOWN_ATTRIBUTE,
            ErrorKind::InvalidBits => INVALID_BITS,
            ErrorKind::InvalidEmptyName => INVALID_EMPTY_NAME,
            ErrorKind::InvalidDisableEmptyGeneration => INVALID_DISABLE_EMPTY_GENERATION,
            ErrorKind::ExpectedEnumOrVisibility => EXPECTED_ENUM_OR_VISIBILITY,
            ErrorKind::ExpectedVisibilityGroup => EXPECTED_VISIBILITY_GROUP,
            ErrorKind::ExpectedEnum => EXPECTED_ENUM,
            ErrorKind::ExpectedEnumName => EXPECTED_ENUM_NAME,
            ErrorKind::ExpectedOpenBrace => EXPECTED_OPEN_BRACE,
            ErrorKind::UnexpectedToken => UNEXPECTED_TOKEN,
            ErrorKind::IncompleteDeclaration => INCOMPLETE_DECLARATION,
            ErrorKind::ExpectedFlagName => EXPECTED_FLAG_NAME,
            ErrorKind::DuplicateName => DUPLICATE_NAME,
            ErrorKind::ExpectedEqual => EXPECTED_EQUAL,
            ErrorKind::ExpectedLiteral => EXPECTED_LITERAL,
            ErrorKind::InvalidInteger => INVALID_INTEGER,
            ErrorKind::ValueTooLarge => VALUE_TOO_LARGE,
            ErrorKind::DuplicateValue => DUPLICATE_VALUE,
            ErrorKind::EmptyCaseDisabled => EMPTY_CASE_DISABLED,
            ErrorKind::EmptyCaseConflict => EMPTY_CASE_CONFLICT,
            ErrorKind::ExpectedSeparator => EXPECTED_SEPARATOR,
        }
    }
}

/// The message of a refusal: what went wrong, then the offending text and
/// the entry in conflict with it, each where there is one.
pub open spec fn message_text(error: ErrorView) -> Seq<char> {
    let found = if error.found.len() > 0 {
        ": `"@ + error.found + "`"@
    } else {
        Seq::empty()
    };
    let other = if error.other.len() > 0 {
        ", in conflict with `"@ + error.other + "`"@
    } else {
        Seq::empty()
    };
    error.kind.description() + found + other
}

/// A refusal: its kind, the text of the offending token, flag or value, and,
/// for a conflict, the name of the earlier entry.
#[derive(Debug)]
pub struct Error {
    pub kind: ErrorKind,
    pub found: String,
    pub other: String,
}

/// The mathematical content of an [`Error`].
pub struct ErrorView {
    pub kind: ErrorKind,
    pub found: Seq<char>,
    pub other: Seq<char>,
}

impl View for Error {
    type V = ErrorView;

    open spec fn view(&self) -> ErrorView {
        ErrorView { kind: self.kind, found: self.found@, other: self.other@ }
    }
}

/// The refusal of `found` for the reason `kind`.
pub open spec fn refusal(kind: ErrorKind, found: Seq<char>) -> ErrorView {
    ErrorView { kind, found, other: Seq::empty() }
}

/// The refusal of `found` because it conflicts with `other`.
pub open spec fn conflict(kind: ErrorKind, found: Seq<char>, other: Seq<char>) -> ErrorView {
    ErrorView { kind, found, other }
}

impl Error {
    /// The refusal of `found` for the reason `kind`.
    pub fn new(kind: ErrorKind, found: String) -> (error: Error)
        ensures
            error@ == refusal(kind, found@),
    {
        Error { kind, found, other: String::new() }
    }

    /// The refusal of `found` because it conflicts with `other`.
    pub fn conflict(kind: ErrorKind, found: String, other: String) -> (error: Error)
        ensures
            error@ == conflict(kind, found@, other@),
    {
        Error { kind, found, other }
    }

    /// The message to show for the refusal.
    pub fn message(&self) -> (text: String)
        ensures
            text@ == message_text(self@),
    {
        let mut text = String::from_str(self.kind.describe());
        if !self.found.as_str().is_empty() {
            text.append(": `");
            text.append(self.found.as_str());
            text.append("`");
        }
        if !self.other.as_str().is_empty() {
            text.append(", in conflict with `");
            text.append(self.other.as_str());
            text.append("`");
        }
        proof {
            assert(text@ =~= message_text(self@));
        }
        text
    }
}

} // verus!
