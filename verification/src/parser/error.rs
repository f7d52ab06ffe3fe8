//! The parser's error type. Each variant renders to a fixed message shape,
//! so callers and tests can rely on the exact wording.

use vstd::prelude::*;
use vstd::string::*;
use crate::error::location_str;
use crate::lexer::{Span, SpanModel};

verus! {

/// A failure of one grammar rule. The parser catches each of these at the
/// document or process boundary, records it, and resynchronizes; they never
/// abort a parse.
#[derive(Debug, PartialEq, Eq)]
pub enum ParserError {
    UnexpectedToken { found: String, expected: String, span: Span },
    UnclosedBlock { start_span: Span, current_span: Span },
    InvalidAttributeValue { value: String, span: Span },
    DuplicateId { id: String, span: Span, first_span: Span },
    UndefinedReference { reference: String, span: Span },
    InvalidFlow { message: String, span: Span },
    UnexpectedEof { expected: String, span: Span },
}

/// The span a parser error points at.
pub open spec fn parser_error_span(e: &ParserError) -> SpanModel {
    match e {
        ParserError::UnexpectedToken { span, .. } => span@,
        ParserError::UnclosedBlock { current_span, .. } => current_span@,
        ParserError::InvalidAttributeValue { span, .. } => span@,
        ParserError::DuplicateId { span, .. } => span@,
        ParserError::UndefinedReference { span, .. } => span@,
        ParserError::InvalidFlow { span, .. } => span@,
        ParserError::UnexpectedEof { span, .. } => span@,
    }
}

/// The message a parser error renders to.
pub open spec fn parser_error_message(e: &ParserError) -> Seq<char> {
    match e {
        ParserError::UnexpectedToken { found, expected, span } =>
            "Unexpected token '"@ + found@ + "' at "@ + location_str(span@)
                + ", expected "@ + expected@,
        ParserError::UnclosedBlock { start_span, .. } =>
            "Missing closing brace for block starting at "@ + location_str(start_span@),
        ParserError::InvalidAttributeValue { value, span } =>
            "Invalid attribute value '"@ + value@ + "' at "@ + location_str(span@),
        ParserError::DuplicateId { id, span, first_span } =>
            "Duplicate element ID '"@ + id@ + "' at "@ + location_str(span@)
                + ", first defined at "@ + location_str(first_span@),
        ParserError::UndefinedReference { reference, span } =>
            "Undefined reference '"@ + reference@ + "' at "@ + location_str(span@),
        ParserError::InvalidFlow { message, span } =>
            "Invalid flow: "@ + message@ + " at "@ + location_str(span@),
        ParserError::UnexpectedEof { expected, .. } =>
            "Unexpected end of input, expected "@ + expected@,
    }
}

impl ParserError {
    /// The span this error points at.
    pub fn span(&self) -> (r: &Span)
        ensures
            r@ == parser_error_span(self),
    {
        match self {
            ParserError::UnclosedBlock { current_span, .. } => current_span,
            ParserError::InvalidAttributeValue { span, .. } => span,
            ParserError::UnexpectedToken { span, .. } => span,
            ParserError::DuplicateId { span, .. } => span,
            ParserError::UndefinedReference { span, .. } => span,
            ParserError::InvalidFlow { span, .. } => span,
            ParserError::UnexpectedEof { span, .. } => span,
        }
    }

    /// Renders this error as one message line.
    pub fn message(&self) -> (r: String)
        ensures
            r@ == parser_error_message(self),
    {
        match self {
            ParserError::UnexpectedToken { found, expected, span } => {
                let mut r = "Unexpected token '".to_owned();
                r.append(found.as_str());
                r.append("' at ");
                r.append(span.location_string().as_str());
                r.append(", expected ");
                r.append(expected.as_str());
                r
            }
            ParserError::UnclosedBlock { start_span, .. } => {
                let mut r = "Missing closing brace for block starting at ".to_owned();
                r.append(start_span.location_string().as_str());
                r
            }
            ParserError::InvalidAttributeValue { value, span } => {
                let mut r = "Invalid attribute value '".to_owned();
                r.append(value.as_str());
                r.append("' at ");
                r.append(span.location_string().as_str());
                r
            }
            ParserError::DuplicateId { id, span, first_span } => {
                let mut r = "Duplicate element ID '".to_owned();
                r.append(id.as_str());
                r.append("' at ");
                r.append(span.location_string().as_str());
                r.append(", first defined at ");
                r.append(first_span.location_string().as_str());
                r
            }
            ParserError::UndefinedReference { reference, span } => {
                let mut r = "Undefined reference '".to_owned();
                r.append(reference.as_str());
                r.append("' at ");
                r.append(span.location_string().as_str());
                r
            }
            ParserError::InvalidFlow { message, span } => {
                let mut r = "Invalid flow: ".to_owned();
                r.append(message.as_str());
                r.append(" at ");
                r.append(span.location_string().as_str());
                r
            }
            ParserError::UnexpectedEof { expected, .. } => {
                let mut r = "Unexpected end of input, expected ".to_owned();
                r.append(expected.as_str());
                r
            }
        }
    }
}

} // verus!
