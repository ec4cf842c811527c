//! Parse errors and their messages.

use vstd::prelude::*;
use crate::chars::push_char;

verus! {

/// Where in the input a parse error was found.
#[derive(Copy, Clone, Debug, PartialEq, Eq, Structural, Hash)]
pub enum Position {
    Major,
    Minor,
    Patch,
    Pre,
    Build,
}

/// What went wrong while parsing.
#[derive(Copy, Clone, Debug, PartialEq, Eq, Structural, Hash)]
pub enum ErrorKind {
    Empty,
    UnexpectedEnd(Position),
    LeadingZero(Position),
    Overflow(Position),
    EmptySegment(Position),
    IllegalCharacter(Position),
    WildcardNotTheOnlyComparator(char),
    UnexpectedAfterWildcard,
    ExcessiveComparators,
    UnexpectedChar(Position, char),
    UnexpectedCharAfter(Position, char),
    ExpectedCommaFound(Position, char),
}

/// Error returned when parsing a version, requirement, comparator or
/// identifier fails.
#[derive(Clone, Debug)]
pub struct Error {
    kind: ErrorKind,
}

/// The text that std's `Debug` formatting gives for a character: the
/// character in single quotes, with escapes.
pub uninterp spec fn char_debug_text(c: char) -> Seq<char>;

/// Formats `c` with std's `Debug` for `char` (`format!("{:?}", c)`).
/// The contract claims only that the result is a function of `c`.
#[verifier::external_body]
fn char_debug(c: char) -> (r: String)
    ensures
        r@ == char_debug_text(c),
{
    format!("{:?}", c)
}

/// How an error message names a position.
pub open spec fn position_text(p: Position) -> Seq<char> {
    match p {
        Position::Major => "major version number"@,
        Position::Minor => "minor version number"@,
        Position::Patch => "patch version number"@,
        Position::Pre => "pre-release identifier"@,
        Position::Build => "build metadata"@,
    }
}

/// How an error message quotes an offending character: `'\0'` for the NUL
/// character, otherwise the character's `Debug` text.
pub open spec fn quoted_char_text(c: char) -> Seq<char> {
    if c == '\0' {
        seq!['\'', '\\', '0', '\'']
    } else {
        char_debug_text(c)
    }
}

/// The message of an error of the given kind.
pub open spec fn error_text(kind: ErrorKind) -> Seq<char> {
    match kind {
        ErrorKind::Empty => "empty string, expected a semver version"@,
        ErrorKind::UnexpectedEnd(p) => "unexpected end of input while parsing "@ + position_text(p),
        ErrorKind::LeadingZero(p) => "invalid leading zero in "@ + position_text(p),
        ErrorKind::Overflow(p) => "value of "@ + position_text(p) + " exceeds u64::MAX"@,
        ErrorKind::EmptySegment(p) => "empty identifier segment in "@ + position_text(p),
        ErrorKind::IllegalCharacter(p) => "unexpected character in "@ + position_text(p),
        ErrorKind::WildcardNotTheOnlyComparator(ch) => "wildcard req ("@ + seq![ch]
            + ") must be the only comparator in the version req"@,
        ErrorKind::UnexpectedAfterWildcard => "unexpected character after wildcard in version req"@,
        ErrorKind::ExcessiveComparators => "excessive number of version comparators"@,
        ErrorKind::UnexpectedChar(p, ch) => "unexpected character "@ + quoted_char_text(ch)
            + " while parsing "@ + position_text(p),
        ErrorKind::UnexpectedCharAfter(p, ch) => "unexpected character "@ + quoted_char_text(ch)
            + " after "@ + position_text(p),
        ErrorKind::ExpectedCommaFound(p, ch) => "expected comma after "@ + position_text(p)
            + ", found "@ + quoted_char_text(ch),
    }
}

fn push_position(s: &mut String, p: Position)
    ensures
        final(s)@ == old(s)@ + position_text(p),
{
    match p {
        Position::Major => s.append("major version number"),
        Position::Minor => s.append("minor version number"),
        Position::Patch => s.append("patch version number"),
        Position::Pre => s.append("pre-release identifier"),
        Position::Build => s.append("build metadata"),
    }
}

fn push_quoted_char(s: &mut String, c: char)
    ensures
        final(s)@ == old(s)@ + quoted_char_text(c),
{
    if c == '\0' {
        push_char(s, '\'');
        push_char(s, '\\');
        push_char(s, '0');
        push_char(s, '\'');
        assert(final(s)@ =~= old(s)@ + quoted_char_text(c));
    } else {
        let q = char_debug(c);
        s.append(q.as_str());
    }
}

impl Error {
    /// The kind of this error.
    pub closed spec fn kind_of(&self) -> ErrorKind {
        self.kind
    }

    pub fn new(kind: ErrorKind) -> (e: Error)
        ensures
            e.kind_of() == kind,
    {
        Error { kind }
    }

    pub fn kind(&self) -> (k: ErrorKind)
        ensures
            k == self.kind_of(),
    {
        self.kind
    }

    /// The error message.
    pub fn to_string(&self) -> (r: String)
        ensures
            r@ == error_text(self.kind_of()),
    {
        let mut s = String::new();
        match self.kind {
            ErrorKind::Empty => s.append("empty string, expected a semver version"),
            ErrorKind::UnexpectedEnd(p) => {
                s.append("unexpected end of input while parsing ");
                push_position(&mut s, p);
            },
            ErrorKind::LeadingZero(p) => {
                s.append("invalid leading zero in ");
                push_position(&mut s, p);
            },
            ErrorKind::Overflow(p) => {
                s.append("value of ");
                push_position(&mut s, p);
                s.append(" exceeds u64::MAX");
            },
            ErrorKind::EmptySegment(p) => {
                s.append("empty identifier segment in ");
                push_position(&mut s, p);
            },
            ErrorKind::IllegalCharacter(p) => {
                s.append("unexpected character in ");
                push_position(&mut s, p);
            },
            ErrorKind::WildcardNotTheOnlyComparator(ch) => {
                s.append("wildcard req (");
                push_char(&mut s, ch);
                s.append(") must be the only comparator in the version req");
            },
            ErrorKind::UnexpectedAfterWildcard => {
                s.append("unexpected character after wildcard in version req");
            },
            ErrorKind::ExcessiveComparators => {
                s.append("excessive number of version comparators");
            },
            ErrorKind::UnexpectedChar(p, ch) => {
                s.append("unexpected character ");
                push_quoted_char(&mut s, ch);
                s.append(" while parsing ");
                push_position(&mut s, p);
            },
            ErrorKind::UnexpectedCharAfter(p, ch) => {
                s.append("unexpected character ");
                push_quoted_char(&mut s, ch);
                s.append(" after ");
                push_position(&mut s, p);
            },
            ErrorKind::ExpectedCommaFound(p, ch) => {
                s.append("expected comma after ");
                push_position(&mut s, p);
                s.append(", found ");
                push_quoted_char(&mut s, ch);
            },
        }
        proof {
            assert(s@ =~= error_text(self.kind_of()));
        }
        s
    }
}

} // verus!
