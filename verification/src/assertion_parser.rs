//! Parsers for the text of annotation files: a type, a formula, a pre- or
//! postcondition, and a whole file.
//!
//! The grammar, from the loosest binding to the tightest:
//!
//! ```text
//! file        := preds [pre] post
//! preds       := "let" "preds" "=" "[|" [symbol (";" symbol)*] "|]"
//! pre         := "let" "pre" arg* "=" formula
//! post        := "let" "post" arg* "=" formula
//! arg         := "(" name ":" type ")"
//! type        := "int" | "bool" | name
//! formula     := conjunction ("||" conjunction)*
//! conjunction := unary ("&&" unary)*
//! unary       := "!" unary | atom
//! atom        := "true" | symbol name* | name compare name
//!              | "implies" "(" formula ")" "(" formula ")"
//!              | "iff" "(" formula ")" "(" formula ")"
//!              | "(" formula ")"
//! compare     := "=" | "!=" | "<=" | ">=" | "<" | ">"
//! symbol      := "len" | "mem" | "hd" | "ord" | "left" | "right"
//!              | "sorted" | "once" | "para" | "ance" | "root"
//! ```
//!
//! `&&` and `||` associate to the left and make a conjunction or disjunction
//! of two members each time. A word starts with a letter or an underscore and
//! goes on with letters, digits, underscores, apostrophes and dots. The
//! words `let`, `preds`, `pre`, `post`, `int`, `bool`, `true`, `implies` and
//! `iff` and the predicate symbols are reserved; every other word is a
//! name. In a predicate list a symbol may stand
//! between double quotes. White space separates tokens and means nothing
//! else; a comment, from `(*` to the `*)` that closes it, counts as white
//! space, and comments nest.

use crate::grammar;
use crate::grammar::{assertion_at, complete, file_at, reads, spec_at, type_at};
use crate::ipc_assertion::{
    Assertion, AssertionFile, AssertionFileView, AssertionType, AssertionTypeView, AssertionView,
    Spec, SpecKind, SpecView,
};
use crate::lexer::{lex, offsets_of, scan, token_views, unread_at, Scanned, TokenView};
use vstd::prelude::*;

verus! {

/// Why a text could not be parsed, and where.
#[derive(PartialEq, Eq, Debug, Clone, Copy)]
pub enum ParseError {
    /// No token starts at this offset, counted in characters from the start
    /// of the text: a comment or a quoted text opens there and is never
    /// closed, or the character there begins no token.
    Lexical { offset: usize },
    /// The token with this index, counted from zero over the tokens of the
    /// text, cannot stand where it is; it starts at this offset, counted in
    /// characters from the start of the text. Where the text ends too early
    /// the index is the number of its tokens and the offset the number of
    /// its characters.
    Syntax { index: usize, offset: usize },
}

/// The error for a text of `len` characters of which `left` had not been
/// read where no token started.
pub open spec fn lexical_error(len: nat, left: nat) -> ParseError {
    ParseError::Lexical { offset: (len - left) as usize }
}

/// The offset at which the token with the given index starts in `input`,
/// or the length of `input` for an index behind its tokens.
pub open spec fn token_offset(input: Seq<char>, index: int) -> int {
    if 0 <= index < unread_at(input).len() {
        input.len() - unread_at(input)[index]
    } else {
        input.len() as int
    }
}

/// What was parsed, or the error for an `input` of so many `tokens`, of
/// which `left` had not been read at the token that could not be accepted.
pub open spec fn checked<T>(input: Seq<char>, tokens: Seq<TokenView>, parsed: Result<T, nat>) -> Result<
    T,
    ParseError,
> {
    match parsed {
        Ok(value) => Ok(value),
        Err(left) => Err(
            ParseError::Syntax {
                index: (tokens.len() - left) as usize,
                offset: token_offset(input, tokens.len() - left) as usize,
            },
        ),
    }
}

/// The type that `input` spells: its one token names the type.
pub open spec fn parsed_type(input: Seq<char>) -> Result<AssertionTypeView, ParseError> {
    match lex(input) {
        Err(left) => Err(lexical_error(input.len(), left)),
        Ok(tokens) => checked(input, tokens, complete(grammar::parse_type(tokens))),
    }
}

/// The formula that `input` spells.
pub open spec fn parsed_assertion(input: Seq<char>) -> Result<AssertionView, ParseError> {
    match lex(input) {
        Err(left) => Err(lexical_error(input.len(), left)),
        Ok(tokens) => checked(input, tokens, complete(grammar::parse_assertion(tokens))),
    }
}

/// The specification of the given kind that `input` spells.
pub open spec fn parsed_spec(kind: SpecKind, input: Seq<char>) -> Result<SpecView, ParseError> {
    match lex(input) {
        Err(left) => Err(lexical_error(input.len(), left)),
        Ok(tokens) => checked(input, tokens, complete(grammar::parse_spec(kind, tokens))),
    }
}

/// The annotation file that `input` spells.
pub open spec fn parsed_file(input: Seq<char>) -> Result<AssertionFileView, ParseError> {
    match lex(input) {
        Err(left) => Err(lexical_error(input.len(), left)),
        Ok(tokens) => checked(input, tokens, complete(grammar::parse_file(tokens))),
    }
}

/// Whether `outcome` is `expected`: the same error, or a value with the
/// expected mathematical value.
pub open spec fn agrees<T: View>(
    outcome: Result<T, ParseError>,
    expected: Result<T::V, ParseError>,
) -> bool {
    match outcome {
        Ok(value) => expected == Ok::<T::V, ParseError>(value@),
        Err(error) => expected == Err::<T::V, ParseError>(error),
    }
}

fn syntax_error(scanned: &Scanned, at: usize, Ghost(input): Ghost<Seq<char>>) -> (error: ParseError)
    requires
        scanned.is_scan_of(input),
        at <= scanned.tokens.len(),
    ensures
        error == (ParseError::Syntax { index: at, offset: token_offset(input, at as int) as usize }),
{
    let ghost unread = unread_at(input);
    assert(scanned.offsets@.map_values(|offset: usize| offset as int).len() == unread.len());
    if at < scanned.offsets.len() {
        assert(scanned.offsets@.map_values(|offset: usize| offset as int)[at as int]
            == offsets_of(input.len(), unread)[at as int]);
        ParseError::Syntax { index: at, offset: scanned.offsets[at] }
    } else {
        ParseError::Syntax { index: at, offset: scanned.length }
    }
}

fn finish<T: View>(
    scanned: &Scanned,
    outcome: Result<(T, usize), usize>,
    Ghost(input): Ghost<Seq<char>>,
    Ghost(expected): Ghost<Result<(T::V, Seq<TokenView>), nat>>,
) -> (checked_outcome: Result<T, ParseError>)
    requires
        scanned.is_scan_of(input),
        reads(scanned.tokens@, 0, outcome, expected),
    ensures
        agrees(checked_outcome, checked(input, token_views(scanned.tokens@), complete(expected))),
{
    match outcome {
        Err(at) => Err(syntax_error(scanned, at, Ghost(input))),
        Ok((value, next)) => {
            if next == scanned.tokens.len() {
                Ok(value)
            } else {
                Err(syntax_error(scanned, next, Ghost(input)))
            }
        },
    }
}

/// Parses a type: `int`, `bool`, or the name of a generic type.
pub fn parse_type(input: &str) -> (outcome: Result<AssertionType, ParseError>)
    ensures
        agrees(outcome, parsed_type(input@)),
{
    match scan(input) {
        Err(offset) => Err(ParseError::Lexical { offset }),
        Ok(scanned) => {
            let ghost ts = token_views(scanned.tokens@);
            assert(ts.skip(0) =~= ts);
            let outcome = type_at(&scanned.tokens, 0);
            finish(&scanned, outcome, Ghost(input@), Ghost(grammar::parse_type(ts)))
        },
    }
}

/// Parses a formula.
pub fn parse_assertion(input: &str) -> (outcome: Result<Assertion, ParseError>)
    ensures
        agrees(outcome, parsed_assertion(input@)),
{
    match scan(input) {
        Err(offset) => Err(ParseError::Lexical { offset }),
        Ok(scanned) => {
            let ghost ts = token_views(scanned.tokens@);
            assert(ts.skip(0) =~= ts);
            let outcome = assertion_at(&scanned.tokens, 0);
            finish(&scanned, outcome, Ghost(input@), Ghost(grammar::parse_assertion(ts)))
        },
    }
}

/// Parses a precondition: `let pre`, typed arguments, `=`, and a formula.
pub fn parse_pre_spec(input: &str) -> (outcome: Result<Spec, ParseError>)
    ensures
        agrees(outcome, parsed_spec(SpecKind::Pre, input@)),
{
    match scan(input) {
        Err(offset) => Err(ParseError::Lexical { offset }),
        Ok(scanned) => {
            let ghost ts = token_views(scanned.tokens@);
            assert(ts.skip(0) =~= ts);
            let outcome = spec_at(SpecKind::Pre, &scanned.tokens, 0);
            finish(
                &scanned,
                outcome,
                Ghost(input@),
                Ghost(grammar::parse_spec(SpecKind::Pre, ts)),
            )
        },
    }
}

/// Parses a postcondition: `let post`, typed arguments, `=`, and a formula.
pub fn parse_post_spec(input: &str) -> (outcome: Result<Spec, ParseError>)
    ensures
        agrees(outcome, parsed_spec(SpecKind::Post, input@)),
{
    match scan(input) {
        Err(offset) => Err(ParseError::Lexical { offset }),
        Ok(scanned) => {
            let ghost ts = token_views(scanned.tokens@);
            assert(ts.skip(0) =~= ts);
            let outcome = spec_at(SpecKind::Post, &scanned.tokens, 0);
            finish(
                &scanned,
                outcome,
                Ghost(input@),
                Ghost(grammar::parse_spec(SpecKind::Post, ts)),
            )
        },
    }
}

/// Parses an annotation file: the predicate declaration, a precondition if
/// the file holds one, and the postcondition.
pub fn parse_assertion_file(input: &str) -> (outcome: Result<AssertionFile, ParseError>)
    ensures
        agrees(outcome, parsed_file(input@)),
{
    match scan(input) {
        Err(offset) => Err(ParseError::Lexical { offset }),
        Ok(scanned) => {
            let ghost ts = token_views(scanned.tokens@);
            assert(ts.skip(0) =~= ts);
            let outcome = file_at(&scanned.tokens, 0);
            finish(&scanned, outcome, Ghost(input@), Ghost(grammar::parse_file(ts)))
        },
    }
}

} // verus!
