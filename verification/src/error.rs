//! Diagnostics: the closed error taxonomy of the run, with the exact
//! reproducible report text `"<message> (<line>, <column>)"`.

use vstd::prelude::*;

use crate::position::Position;
use crate::text::{push_decimal, push_str_chars, spec_decimal, string_from_chars};

verus! {

/// A structured, positioned diagnostic, distinct from a fatal halt.
#[derive(Debug)]
pub enum InterpreterError {
    UnknownToken { position: Position, token: String },
    SyntaxError { position: Position, message: String },
    UnterminatedString { position: Position },
    ParseError { position: Position, message: String },
    EOFError { position: Position, message: String },
    UnmatchedDelimiter { position: Position, delimiter: String },
    UnknownOperator { position: Position, operator: String },
    Other(String),
}

/// The mathematical value of an `InterpreterError`: the same variants over
/// character sequences.
pub enum ErrorV {
    UnknownToken { position: Position, token: Seq<char> },
    SyntaxError { position: Position, message: Seq<char> },
    UnterminatedString { position: Position },
    ParseError { position: Position, message: Seq<char> },
    EOFError { position: Position, message: Seq<char> },
    UnmatchedDelimiter { position: Position, delimiter: Seq<char> },
    UnknownOperator { position: Position, operator: Seq<char> },
    Other(Seq<char>),
}

impl View for InterpreterError {
    type V = ErrorV;

    open spec fn view(&self) -> ErrorV {
        match self {
            InterpreterError::UnknownToken { position, token } => ErrorV::UnknownToken {
                position: *position,
                token: token@,
            },
            InterpreterError::SyntaxError { position, message } => ErrorV::SyntaxError {
                position: *position,
                message: message@,
            },
            InterpreterError::UnterminatedString { position } => ErrorV::UnterminatedString {
                position: *position,
            },
            InterpreterError::ParseError { position, message } => ErrorV::ParseError {
                position: *position,
                message: message@,
            },
            InterpreterError::EOFError { position, message } => ErrorV::EOFError {
                position: *position,
                message: message@,
            },
            InterpreterError::UnmatchedDelimiter { position, delimiter } => (
            ErrorV::UnmatchedDelimiter { position: *position, delimiter: delimiter@ }),
            InterpreterError::UnknownOperator { position, operator } => ErrorV::UnknownOperator {
                position: *position,
                operator: operator@,
            },
            InterpreterError::Other(message) => ErrorV::Other(message@),
        }
    }
}

impl Clone for InterpreterError {
    fn clone(&self) -> (r: InterpreterError)
        ensures
            r@ == self@,
    {
        match self {
            InterpreterError::UnknownToken { position, token } => InterpreterError::UnknownToken {
                position: *position,
                token: token.clone(),
            },
            InterpreterError::SyntaxError { position, message } => InterpreterError::SyntaxError {
                position: *position,
                message: message.clone(),
            },
            InterpreterError::UnterminatedString { position } => (
            InterpreterError::UnterminatedString { position: *position }),
            InterpreterError::ParseError { position, message } => InterpreterError::ParseError {
                position: *position,
                message: message.clone(),
            },
            InterpreterError::EOFError { position, message } => InterpreterError::EOFError {
                position: *position,
                message: message.clone(),
            },
            InterpreterError::UnmatchedDelimiter { position, delimiter } => (
            InterpreterError::UnmatchedDelimiter {
                position: *position,
                delimiter: delimiter.clone(),
            }),
            InterpreterError::UnknownOperator { position, operator } => (
            InterpreterError::UnknownOperator { position: *position, operator: operator.clone() }),
            InterpreterError::Other(message) => InterpreterError::Other(message.clone()),
        }
    }
}

/// The kind of a diagnostic, without its payload.
#[derive(Debug, Clone, Copy, PartialEq, Eq, Structural)]
pub enum InterpreterErrorDiscriminants {
    UnknownToken,
    SyntaxError,
    UnterminatedString,
    ParseError,
    EOFError,
    UnmatchedDelimiter,
    UnknownOperator,
    Other,
}

pub open spec fn spec_error_id(e: ErrorV) -> InterpreterErrorDiscriminants {
    match e {
        ErrorV::UnknownToken { .. } => InterpreterErrorDiscriminants::UnknownToken,
        ErrorV::SyntaxError { .. } => InterpreterErrorDiscriminants::SyntaxError,
        ErrorV::UnterminatedString { .. } => InterpreterErrorDiscriminants::UnterminatedString,
        ErrorV::ParseError { .. } => InterpreterErrorDiscriminants::ParseError,
        ErrorV::EOFError { .. } => InterpreterErrorDiscriminants::EOFError,
        ErrorV::UnmatchedDelimiter { .. } => InterpreterErrorDiscriminants::UnmatchedDelimiter,
        ErrorV::UnknownOperator { .. } => InterpreterErrorDiscriminants::UnknownOperator,
        ErrorV::Other(_) => InterpreterErrorDiscriminants::Other,
    }
}

/// The positioned suffix of a report: `" (<line>, <column>)"`.
pub open spec fn spec_position_suffix(p: Position) -> Seq<char> {
    " ("@ + spec_decimal(p.line as nat) + ", "@ + spec_decimal(p.column as nat) + ")"@
}

/// The report text of a diagnostic, exactly as the run presents it.
pub open spec fn spec_report(e: ErrorV) -> Seq<char> {
    match e {
        ErrorV::UnknownToken { position, token } => "Unknown token `"@ + token + "`"@
            + spec_position_suffix(position),
        ErrorV::SyntaxError { position, message } => message + spec_position_suffix(position),
        ErrorV::UnterminatedString { position } => "Unterminated string"@ + spec_position_suffix(
            position,
        ),
        ErrorV::ParseError { position, message } => message + spec_position_suffix(position),
        ErrorV::EOFError { position, message } => message + spec_position_suffix(position),
        ErrorV::UnmatchedDelimiter { position, delimiter } => "Unmatched `"@ + delimiter + "`"@
            + spec_position_suffix(position),
        ErrorV::UnknownOperator { position, operator } => "Unknown operator `"@ + operator + "`"@
            + spec_position_suffix(position),
        ErrorV::Other(message) => message,
    }
}

fn push_position_suffix(out: &mut Vec<char>, p: Position)
    ensures
        final(out)@ == old(out)@ + spec_position_suffix(p),
{
    push_str_chars(out, " (");
    push_decimal(out, p.line as u64);
    push_str_chars(out, ", ");
    push_decimal(out, p.column as u64);
    push_str_chars(out, ")");
    proof {
        assert(out@ =~= old(out)@ + spec_position_suffix(p));
    }
}

impl InterpreterError {
    /// The kind of this diagnostic.
    pub fn id(&self) -> (r: InterpreterErrorDiscriminants)
        ensures
            r == spec_error_id(self@),
    {
        match self {
            InterpreterError::UnknownToken { .. } => InterpreterErrorDiscriminants::UnknownToken,
            InterpreterError::SyntaxError { .. } => InterpreterErrorDiscriminants::SyntaxError,
            InterpreterError::UnterminatedString { .. } => (
            InterpreterErrorDiscriminants::UnterminatedString),
            InterpreterError::ParseError { .. } => InterpreterErrorDiscriminants::ParseError,
            InterpreterError::EOFError { .. } => InterpreterErrorDiscriminants::EOFError,
            InterpreterError::UnmatchedDelimiter { .. } => (
            InterpreterErrorDiscriminants::UnmatchedDelimiter),
            InterpreterError::UnknownOperator { .. } => (
            InterpreterErrorDiscriminants::UnknownOperator),
            InterpreterError::Other(_) => InterpreterErrorDiscriminants::Other,
        }
    }

    /// The report text of this diagnostic: `"<message> (<line>, <column>)"`
    /// for positioned errors.
    pub fn report_string(&self) -> (r: String)
        ensures
            r@ == spec_report(self@),
    {
        let mut out: Vec<char> = Vec::new();
        match self {
            InterpreterError::UnknownToken { position, token } => {
                push_str_chars(&mut out, "Unknown token `");
                push_str_chars(&mut out, token.as_str());
                push_str_chars(&mut out, "`");
                push_position_suffix(&mut out, *position);
            },
            InterpreterError::SyntaxError { position, message } => {
                push_str_chars(&mut out, message.as_str());
                push_position_suffix(&mut out, *position);
            },
            InterpreterError::UnterminatedString { position } => {
                push_str_chars(&mut out, "Unterminated string");
                push_position_suffix(&mut out, *position);
            },
            InterpreterError::ParseError { position, message } => {
                push_str_chars(&mut out, message.as_str());
                push_position_suffix(&mut out, *position);
            },
            InterpreterError::EOFError { position, message } => {
                push_str_chars(&mut out, message.as_str());
                push_position_suffix(&mut out, *position);
            },
            InterpreterError::UnmatchedDelimiter { position, delimiter } => {
                push_str_chars(&mut out, "Unmatched `");
                push_str_chars(&mut out, delimiter.as_str());
                push_str_chars(&mut out, "`");
                push_position_suffix(&mut out, *position);
            },
            InterpreterError::UnknownOperator { position, operator } => {
                push_str_chars(&mut out, "Unknown operator `");
                push_str_chars(&mut out, operator.as_str());
                push_str_chars(&mut out, "`");
                push_position_suffix(&mut out, *position);
            },
            InterpreterError::Other(message) => {
                push_str_chars(&mut out, message.as_str());
            },
        }
        proof {
            assert(out@ =~= spec_report(self@));
        }
        string_from_chars(&out)
    }
}

/// The view of a sequence of diagnostics.
pub open spec fn spec_errors_view(s: Seq<InterpreterError>) -> Seq<ErrorV> {
    s.map_values(|e: InterpreterError| e@)
}

/// A run-level failure: the accumulated diagnostics of lexing and parsing,
/// or an evaluation failure.
#[derive(Debug)]
pub enum KonError {
    InterpreterErrors(Vec<InterpreterError>),
    Evaluation(String),
    Other(String),
}

pub enum KonErrorV {
    InterpreterErrors(Seq<ErrorV>),
    Evaluation(Seq<char>),
    Other(Seq<char>),
}

impl View for KonError {
    type V = KonErrorV;

    open spec fn view(&self) -> KonErrorV {
        match self {
            KonError::InterpreterErrors(errors) => KonErrorV::InterpreterErrors(
                spec_errors_view(errors@),
            ),
            KonError::Evaluation(message) => KonErrorV::Evaluation(message@),
            KonError::Other(message) => KonErrorV::Other(message@),
        }
    }
}

/// The aggregate summary text: `"interpreter caught <N> error(s)"`.
pub open spec fn spec_kon_report(e: KonErrorV) -> Seq<char> {
    match e {
        KonErrorV::InterpreterErrors(errors) => "interpreter caught "@ + spec_decimal(errors.len())
            + " error(s)"@,
        KonErrorV::Evaluation(message) => "failed to evaluate expression: `"@ + message + "`"@,
        KonErrorV::Other(message) => message,
    }
}

impl KonError {
    /// The report text of this failure.
    pub fn report_string(&self) -> (r: String)
        ensures
            r@ == spec_kon_report(self@),
    {
        let mut out: Vec<char> = Vec::new();
        match self {
            KonError::InterpreterErrors(errors) => {
                push_str_chars(&mut out, "interpreter caught ");
                push_decimal(&mut out, errors.len() as u64);
                push_str_chars(&mut out, " error(s)");
            },
            KonError::Evaluation(message) => {
                push_str_chars(&mut out, "failed to evaluate expression: `");
                push_str_chars(&mut out, message.as_str());
                push_str_chars(&mut out, "`");
            },
            KonError::Other(message) => {
                push_str_chars(&mut out, message.as_str());
            },
        }
        proof {
            assert(out@ =~= spec_kon_report(self@));
        }
        string_from_chars(&out)
    }
}

} // verus!
