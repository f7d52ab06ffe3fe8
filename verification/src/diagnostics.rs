//! Diagnostics: the outward-facing error records with spans, severities and
//! suggestion lists, plus the suggestion engine and the pre-parse context
//! checker that produce them.

pub mod context_validator;
pub mod suggestions;

use vstd::prelude::*;
use vstd::string::*;
use crate::lexer::{Span, SpanModel};
use crate::parser::ast::{AstDocument, ErrorSeverity, ParseError, ProcessElement};

verus! {

/// How bad a diagnostic is.
#[derive(Debug, Clone, Copy, PartialEq, Eq, Structural)]
pub enum Severity {
    Error,
    Warning,
    Info,
    Hint,
}

/// A user-facing diagnostic: what went wrong, where, and which corrections
/// look plausible.
#[derive(Debug, PartialEq, Eq)]
pub enum DiagnosticError {
    SyntaxError { message: String, span: Span, severity: Severity, suggestions: Vec<String> },
    UnexpectedToken { found: String, expected: String, span: Span, suggestions: Vec<String> },
    UndefinedReference { name: String, span: Span, suggestions: Vec<String> },
    DuplicateIdentifier { name: String, span: Span, first_definition: Option<Span> },
    InvalidAttribute { attribute: String, element: String, span: Span, valid_attributes: Vec<String> },
    MissingElement { element: String, span: Span, suggestions: Vec<String> },
    InvalidFlow { message: String, span: Span, suggestions: Vec<String> },
    ImportError { message: String, span: Span, path: String },
}

/// Mathematical model of a `DiagnosticError`.
pub enum DiagnosticErrorModel {
    SyntaxError { message: Seq<char>, span: SpanModel, severity: Severity, suggestions: Seq<Seq<char>> },
    UnexpectedToken { found: Seq<char>, expected: Seq<char>, span: SpanModel, suggestions: Seq<Seq<char>> },
    UndefinedReference { name: Seq<char>, span: SpanModel, suggestions: Seq<Seq<char>> },
    DuplicateIdentifier { name: Seq<char>, span: SpanModel, first_definition: Option<SpanModel> },
    InvalidAttribute { attribute: Seq<char>, element: Seq<char>, span: SpanModel, valid_attributes: Seq<Seq<char>> },
    MissingElement { element: Seq<char>, span: SpanModel, suggestions: Seq<Seq<char>> },
    InvalidFlow { message: Seq<char>, span: SpanModel, suggestions: Seq<Seq<char>> },
    ImportError { message: Seq<char>, span: SpanModel, path: Seq<char> },
}

/// The views of an owned string list.
pub open spec fn string_views(v: Seq<String>) -> Seq<Seq<char>> {
    v.map_values(|s: String| s@)
}

impl View for DiagnosticError {
    type V = DiagnosticErrorModel;

    open spec fn view(&self) -> DiagnosticErrorModel {
        match self {
            DiagnosticError::SyntaxError { message, span, severity, suggestions } =>
                DiagnosticErrorModel::SyntaxError {
                    message: message@,
                    span: span@,
                    severity: *severity,
                    suggestions: string_views(suggestions@),
                },
            DiagnosticError::UnexpectedToken { found, expected, span, suggestions } =>
                DiagnosticErrorModel::UnexpectedToken {
                    found: found@,
                    expected: expected@,
                    span: span@,
                    suggestions: string_views(suggestions@),
                },
            DiagnosticError::UndefinedReference { name, span, suggestions } =>
                DiagnosticErrorModel::UndefinedReference {
                    name: name@,
                    span: span@,
                    suggestions: string_views(suggestions@),
                },
            DiagnosticError::DuplicateIdentifier { name, span, first_definition } =>
                DiagnosticErrorModel::DuplicateIdentifier {
                    name: name@,
                    span: span@,
                    first_definition: match first_definition {
                        Option::Some(s) => Option::Some(s@),
                        Option::None => Option::None,
                    },
                },
            DiagnosticError::InvalidAttribute { attribute, element, span, valid_attributes } =>
                DiagnosticErrorModel::InvalidAttribute {
                    attribute: attribute@,
                    element: element@,
                    span: span@,
                    valid_attributes: string_views(valid_attributes@),
                },
            DiagnosticError::MissingElement { element, span, suggestions } =>
                DiagnosticErrorModel::MissingElement {
                    element: element@,
                    span: span@,
                    suggestions: string_views(suggestions@),
                },
            DiagnosticError::InvalidFlow { message, span, suggestions } =>
                DiagnosticErrorModel::InvalidFlow {
                    message: message@,
                    span: span@,
                    suggestions: string_views(suggestions@),
                },
            DiagnosticError::ImportError { message, span, path } =>
                DiagnosticErrorModel::ImportError {
                    message: message@,
                    span: span@,
                    path: path@,
                },
        }
    }
}

/// The span a diagnostic points at.
pub open spec fn diag_span(m: DiagnosticErrorModel) -> SpanModel {
    match m {
        DiagnosticErrorModel::SyntaxError { span, .. } => span,
        DiagnosticErrorModel::UnexpectedToken { span, .. } => span,
        DiagnosticErrorModel::UndefinedReference { span, .. } => span,
        DiagnosticErrorModel::DuplicateIdentifier { span, .. } => span,
        DiagnosticErrorModel::InvalidAttribute { span, .. } => span,
        DiagnosticErrorModel::MissingElement { span, .. } => span,
        DiagnosticErrorModel::InvalidFlow { span, .. } => span,
        DiagnosticErrorModel::ImportError { span, .. } => span,
    }
}

/// The severity of a diagnostic: syntax records carry their own; every
/// other kind is an error.
pub open spec fn diag_severity(m: DiagnosticErrorModel) -> Severity {
    match m {
        DiagnosticErrorModel::SyntaxError { severity, .. } => severity,
        _ => Severity::Error,
    }
}

/// The suggestion list of a diagnostic; for attribute complaints the valid
/// attribute names stand in, and duplicate-identifier and import records
/// carry none.
pub open spec fn diag_suggestions(m: DiagnosticErrorModel) -> Seq<Seq<char>> {
    match m {
        DiagnosticErrorModel::SyntaxError { suggestions, .. } => suggestions,
        DiagnosticErrorModel::UnexpectedToken { suggestions, .. } => suggestions,
        DiagnosticErrorModel::UndefinedReference { suggestions, .. } => suggestions,
        DiagnosticErrorModel::MissingElement { suggestions, .. } => suggestions,
        DiagnosticErrorModel::InvalidFlow { suggestions, .. } => suggestions,
        DiagnosticErrorModel::InvalidAttribute { valid_attributes, .. } => valid_attributes,
        DiagnosticErrorModel::DuplicateIdentifier { .. } => Seq::empty(),
        DiagnosticErrorModel::ImportError { .. } => Seq::empty(),
    }
}

/// The message a diagnostic renders to.
pub open spec fn diag_message(m: DiagnosticErrorModel) -> Seq<char> {
    match m {
        DiagnosticErrorModel::SyntaxError { message, .. } => "Syntax error: "@ + message,
        DiagnosticErrorModel::UnexpectedToken { found, expected, .. } =>
            "Unexpected token '"@ + found + "', expected "@ + expected,
        DiagnosticErrorModel::UndefinedReference { name, .. } =>
            "Undefined reference '"@ + name + "'"@,
        DiagnosticErrorModel::DuplicateIdentifier { name, .. } =>
            "Duplicate identifier '"@ + name + "'"@,
        DiagnosticErrorModel::InvalidAttribute { attribute, element, .. } =>
            "Invalid attribute '"@ + attribute + "' for element '"@ + element + "'"@,
        DiagnosticErrorModel::MissingElement { element, .. } =>
            "Missing required element '"@ + element + "'"@,
        DiagnosticErrorModel::InvalidFlow { message, .. } => "Invalid flow: "@ + message,
        DiagnosticErrorModel::ImportError { message, .. } => "Import error: "@ + message,
    }
}

/// A diagnostic model with one suggestion appended, where its kind carries
/// a suggestion list; every other kind is left unchanged.
pub open spec fn appended_suggestion(m: DiagnosticErrorModel, s: Seq<char>) -> DiagnosticErrorModel {
    match m {
        DiagnosticErrorModel::SyntaxError { message, span, severity, suggestions } =>
            DiagnosticErrorModel::SyntaxError {
                message, span, severity, suggestions: suggestions.push(s),
            },
        DiagnosticErrorModel::UnexpectedToken { found, expected, span, suggestions } =>
            DiagnosticErrorModel::UnexpectedToken {
                found, expected, span, suggestions: suggestions.push(s),
            },
        DiagnosticErrorModel::UndefinedReference { name, span, suggestions } =>
            DiagnosticErrorModel::UndefinedReference {
                name, span, suggestions: suggestions.push(s),
            },
        DiagnosticErrorModel::MissingElement { element, span, suggestions } =>
            DiagnosticErrorModel::MissingElement {
                element, span, suggestions: suggestions.push(s),
            },
        DiagnosticErrorModel::InvalidFlow { message, span, suggestions } =>
            DiagnosticErrorModel::InvalidFlow {
                message, span, suggestions: suggestions.push(s),
            },
        _ => m,
    }
}

/// A diagnostic model with a run of suggestions appended; attribute
/// complaints extend their valid-attribute list instead, and the two
/// kinds without a list are left unchanged.
pub open spec fn appended_suggestions(m: DiagnosticErrorModel, extra: Seq<Seq<char>>) -> DiagnosticErrorModel {
    match m {
        DiagnosticErrorModel::SyntaxError { message, span, severity, suggestions } =>
            DiagnosticErrorModel::SyntaxError {
                message, span, severity, suggestions: suggestions + extra,
            },
        DiagnosticErrorModel::UnexpectedToken { found, expected, span, suggestions } =>
            DiagnosticErrorModel::UnexpectedToken {
                found, expected, span, suggestions: suggestions + extra,
            },
        DiagnosticErrorModel::UndefinedReference { name, span, suggestions } =>
            DiagnosticErrorModel::UndefinedReference {
                name, span, suggestions: suggestions + extra,
            },
        DiagnosticErrorModel::MissingElement { element, span, suggestions } =>
            DiagnosticErrorModel::MissingElement {
                element, span, suggestions: suggestions + extra,
            },
        DiagnosticErrorModel::InvalidFlow { message, span, suggestions } =>
            DiagnosticErrorModel::InvalidFlow {
                message, span, suggestions: suggestions + extra,
            },
        DiagnosticErrorModel::InvalidAttribute { attribute, element, span, valid_attributes } =>
            DiagnosticErrorModel::InvalidAttribute {
                attribute, element, span, valid_attributes: valid_attributes + extra,
            },
        _ => m,
    }
}

proof fn lemma_string_views_push(v: Seq<String>, s: String)
    ensures
        string_views(v.push(s)) == string_views(v).push(s@),
{
    assert(string_views(v.push(s)) =~= string_views(v).push(s@));
}

proof fn lemma_string_views_concat(a: Seq<String>, b: Seq<String>)
    ensures
        string_views(a + b) == string_views(a) + string_views(b),
{
    assert(string_views(a + b) =~= string_views(a) + string_views(b));
}

/// A copy of an owned string list.
fn clone_strings(v: &Vec<String>) -> (r: Vec<String>)
    ensures
        string_views(r@) == string_views(v@),
{
    let mut r: Vec<String> = Vec::new();
    let mut k: usize = 0;
    while k < v.len()
        invariant
            k <= v@.len(),
            r@.len() == k,
            forall|m: int| 0 <= m < k ==> (#[trigger] r@[m])@ == v@[m]@,
        decreases v@.len() - k,
    {
        r.push(v[k].clone());
        k = k + 1;
    }
    proof {
        assert(string_views(r@) =~= string_views(v@));
    }
    r
}

impl Clone for DiagnosticError {
    fn clone(&self) -> (r: DiagnosticError)
        ensures
            r@ == self@,
    {
        let r = match self {
            DiagnosticError::SyntaxError { message, span, severity, suggestions } =>
                DiagnosticError::SyntaxError {
                    message: message.clone(),
                    span: span.clone(),
                    severity: *severity,
                    suggestions: clone_strings(suggestions),
                },
            DiagnosticError::UnexpectedToken { found, expected, span, suggestions } =>
                DiagnosticError::UnexpectedToken {
                    found: found.clone(),
                    expected: expected.clone(),
                    span: span.clone(),
                    suggestions: clone_strings(suggestions),
                },
            DiagnosticError::UndefinedReference { name, span, suggestions } =>
                DiagnosticError::UndefinedReference {
                    name: name.clone(),
                    span: span.clone(),
                    suggestions: clone_strings(suggestions),
                },
            DiagnosticError::DuplicateIdentifier { name, span, first_definition } =>
                DiagnosticError::DuplicateIdentifier {
                    name: name.clone(),
                    span: span.clone(),
                    first_definition: match first_definition {
                        Option::Some(s) => Option::Some(s.clone()),
                        Option::None => Option::None,
                    },
                },
            DiagnosticError::InvalidAttribute { attribute, element, span, valid_attributes } =>
                DiagnosticError::InvalidAttribute {
                    attribute: attribute.clone(),
                    element: element.clone(),
                    span: span.clone(),
                    valid_attributes: clone_strings(valid_attributes),
                },
            DiagnosticError::MissingElement { element, span, suggestions } =>
                DiagnosticError::MissingElement {
                    element: element.clone(),
                    span: span.clone(),
                    suggestions: clone_strings(suggestions),
                },
            DiagnosticError::InvalidFlow { message, span, suggestions } =>
                DiagnosticError::InvalidFlow {
                    message: message.clone(),
                    span: span.clone(),
                    suggestions: clone_strings(suggestions),
                },
            DiagnosticError::ImportError { message, span, path } =>
                DiagnosticError::ImportError {
                    message: message.clone(),
                    span: span.clone(),
                    path: path.clone(),
                },
        };
        r
    }
}

impl DiagnosticError {
    /// The span this diagnostic points at.
    pub fn span(&self) -> (r: &Span)
        ensures
            r@ == diag_span(self@),
    {
        match self {
            DiagnosticError::SyntaxError { span, .. } => span,
            DiagnosticError::UnexpectedToken { span, .. } => span,
            DiagnosticError::UndefinedReference { span, .. } => span,
            DiagnosticError::DuplicateIdentifier { span, .. } => span,
            DiagnosticError::InvalidAttribute { span, .. } => span,
            DiagnosticError::MissingElement { span, .. } => span,
            DiagnosticError::InvalidFlow { span, .. } => span,
            DiagnosticError::ImportError { span, .. } => span,
        }
    }

    /// The severity of this diagnostic.
    pub fn severity(&self) -> (r: Severity)
        ensures
            r == diag_severity(self@),
    {
        match self {
            DiagnosticError::SyntaxError { severity, .. } => *severity,
            DiagnosticError::UnexpectedToken { .. } => Severity::Error,
            DiagnosticError::UndefinedReference { .. } => Severity::Error,
            DiagnosticError::DuplicateIdentifier { .. } => Severity::Error,
            DiagnosticError::InvalidAttribute { .. } => Severity::Error,
            DiagnosticError::MissingElement { .. } => Severity::Error,
            DiagnosticError::InvalidFlow { .. } => Severity::Error,
            DiagnosticError::ImportError { .. } => Severity::Error,
        }
    }

    /// A copy of this diagnostic's suggestion list.
    pub fn suggestions(&self) -> (r: Vec<String>)
        ensures
            string_views(r@) == diag_suggestions(self@),
    {
        let r = match self {
            DiagnosticError::SyntaxError { suggestions, .. } => clone_strings(suggestions),
            DiagnosticError::UnexpectedToken { suggestions, .. } => clone_strings(suggestions),
            DiagnosticError::UndefinedReference { suggestions, .. } => clone_strings(suggestions),
            DiagnosticError::MissingElement { suggestions, .. } => clone_strings(suggestions),
            DiagnosticError::InvalidFlow { suggestions, .. } => clone_strings(suggestions),
            DiagnosticError::InvalidAttribute { valid_attributes, .. } =>
                clone_strings(valid_attributes),
            DiagnosticError::DuplicateIdentifier { .. } => Vec::new(),
            DiagnosticError::ImportError { .. } => Vec::new(),
        };
        proof {
            assert(string_views(Seq::<String>::empty()) =~= Seq::<Seq<char>>::empty());
        }
        r
    }

    /// This diagnostic with one more suggestion appended, where its kind
    /// carries a suggestion list (others are returned unchanged).
    pub fn with_suggestion(self, suggestion: String) -> (r: DiagnosticError)
        ensures
            r@ == appended_suggestion(self@, suggestion@),
    {
        let ghost m0 = self@;
        let ghost gs = suggestion@;
        match self {
            DiagnosticError::SyntaxError { message, span, severity, mut suggestions } => {
                let ghost pre = suggestions@;
                suggestions.push(suggestion);
                proof {
                    lemma_string_views_push(pre, suggestions@.last());
                }
                DiagnosticError::SyntaxError { message, span, severity, suggestions }
            }
            DiagnosticError::UnexpectedToken { found, expected, span, mut suggestions } => {
                let ghost pre = suggestions@;
                suggestions.push(suggestion);
                proof {
                    lemma_string_views_push(pre, suggestions@.last());
                }
                DiagnosticError::UnexpectedToken { found, expected, span, suggestions }
            }
            DiagnosticError::UndefinedReference { name, span, mut suggestions } => {
                let ghost pre = suggestions@;
                suggestions.push(suggestion);
                proof {
                    lemma_string_views_push(pre, suggestions@.last());
                }
                DiagnosticError::UndefinedReference { name, span, suggestions }
            }
            DiagnosticError::MissingElement { element, span, mut suggestions } => {
                let ghost pre = suggestions@;
                suggestions.push(suggestion);
                proof {
                    lemma_string_views_push(pre, suggestions@.last());
                }
                DiagnosticError::MissingElement { element, span, suggestions }
            }
            DiagnosticError::InvalidFlow { message, span, mut suggestions } => {
                let ghost pre = suggestions@;
                suggestions.push(suggestion);
                proof {
                    lemma_string_views_push(pre, suggestions@.last());
                }
                DiagnosticError::InvalidFlow { message, span, suggestions }
            }
            other => other,
        }
    }

    /// This diagnostic with more suggestions appended; attribute
    /// complaints extend their valid-attribute list instead, and the
    /// remaining kinds are returned unchanged.
    pub fn with_suggestions(self, new_suggestions: Vec<String>) -> (r: DiagnosticError)
        ensures
            r@ == appended_suggestions(self@, string_views(new_suggestions@)),
    {
        let mut incoming = new_suggestions;
        match self {
            DiagnosticError::SyntaxError { message, span, severity, mut suggestions } => {
                let ghost pre = suggestions@;
                let ghost ext = incoming@;
                suggestions.append(&mut incoming);
                proof {
                    lemma_string_views_concat(pre, ext);
                }
                DiagnosticError::SyntaxError { message, span, severity, suggestions }
            }
            DiagnosticError::UnexpectedToken { found, expected, span, mut suggestions } => {
                let ghost pre = suggestions@;
                let ghost ext = incoming@;
                suggestions.append(&mut incoming);
                proof {
                    lemma_string_views_concat(pre, ext);
                }
                DiagnosticError::UnexpectedToken { found, expected, span, suggestions }
            }
            DiagnosticError::UndefinedReference { name, span, mut suggestions } => {
                let ghost pre = suggestions@;
                let ghost ext = incoming@;
                suggestions.append(&mut incoming);
                proof {
                    lemma_string_views_concat(pre, ext);
                }
                DiagnosticError::UndefinedReference { name, span, suggestions }
            }
            DiagnosticError::MissingElement { element, span, mut suggestions } => {
                let ghost pre = suggestions@;
                let ghost ext = incoming@;
                suggestions.append(&mut incoming);
                proof {
                    lemma_string_views_concat(pre, ext);
                }
                DiagnosticError::MissingElement { element, span, suggestions }
            }
            DiagnosticError::InvalidFlow { message, span, mut suggestions } => {
                let ghost pre = suggestions@;
                let ghost ext = incoming@;
                suggestions.append(&mut incoming);
                proof {
                    lemma_string_views_concat(pre, ext);
                }
                DiagnosticError::InvalidFlow { message, span, suggestions }
            }
            DiagnosticError::InvalidAttribute { attribute, element, span, mut valid_attributes } => {
                let ghost pre = valid_attributes@;
                let ghost ext = incoming@;
                valid_attributes.append(&mut incoming);
                proof {
                    lemma_string_views_concat(pre, ext);
                }
                DiagnosticError::InvalidAttribute { attribute, element, span, valid_attributes }
            }
            other => other,
        }
    }

    /// Renders this diagnostic as one message line.
    pub fn message(&self) -> (r: String)
        ensures
            r@ == diag_message(self@),
    {
        match self {
            DiagnosticError::SyntaxError { message, .. } => {
                let mut r = "Syntax error: ".to_owned();
                r.append(message.as_str());
                r
            }
            DiagnosticError::UnexpectedToken { found, expected, .. } => {
                let mut r = "Unexpected token '".to_owned();
                r.append(found.as_str());
                r.append("', expected ");
                r.append(expected.as_str());
                r
            }
            DiagnosticError::UndefinedReference { name, .. } => {
                let mut r = "Undefined reference '".to_owned();
                r.append(name.as_str());
                r.append("'");
                r
            }
            DiagnosticError::DuplicateIdentifier { name, .. } => {
                let mut r = "Duplicate identifier '".to_owned();
                r.append(name.as_str());
                r.append("'");
                r
            }
            DiagnosticError::InvalidAttribute { attribute, element, .. } => {
                let mut r = "Invalid attribute '".to_owned();
                r.append(attribute.as_str());
                r.append("' for element '");
                r.append(element.as_str());
                r.append("'");
                r
            }
            DiagnosticError::MissingElement { element, .. } => {
                let mut r = "Missing required element '".to_owned();
                r.append(element.as_str());
                r.append("'");
                r
            }
            DiagnosticError::InvalidFlow { message, .. } => {
                let mut r = "Invalid flow: ".to_owned();
                r.append(message.as_str());
                r
            }
            DiagnosticError::ImportError { message, .. } => {
                let mut r = "Import error: ".to_owned();
                r.append(message.as_str());
                r
            }
        }
    }
}

/// How many of a run of diagnostics have the given severity.
pub open spec fn count_with_severity(es: Seq<DiagnosticError>, sev: Severity, i: int) -> int
    decreases es.len() - i when 0 <= i
{
    if i >= es.len() {
        0
    } else {
        (if diag_severity(es[i]@) == sev { 1int } else { 0int })
            + count_with_severity(es, sev, i + 1)
    }
}

/// One input's collected diagnostics, with the file and source they refer
/// to.
#[derive(Debug)]
pub struct DiagnosticReport {
    pub errors: Vec<DiagnosticError>,
    pub file_path: String,
    pub source_code: String,
}

impl DiagnosticReport {
    /// An empty report for one input.
    pub fn new(file_path: String, source_code: String) -> (r: DiagnosticReport)
        ensures
            r.errors@.len() == 0,
            r.file_path@ == file_path@,
            r.source_code@ == source_code@,
    {
        DiagnosticReport { errors: Vec::new(), file_path, source_code }
    }

    /// Records one diagnostic.
    pub fn add_error(&mut self, error: DiagnosticError)
        ensures
            final(self).errors@ == old(self).errors@.push(error),
            final(self).file_path@ == old(self).file_path@,
            final(self).source_code@ == old(self).source_code@,
    {
        self.errors.push(error);
    }

    /// Whether any recorded diagnostic has `Error` severity.
    pub fn has_errors(&self) -> (r: bool)
        ensures
            r == exists|i: int| 0 <= i < self.errors@.len()
                && diag_severity((#[trigger] self.errors@[i])@) == Severity::Error,
    {
        let mut k: usize = 0;
        while k < self.errors.len()
            invariant
                k <= self.errors@.len(),
                forall|i: int| 0 <= i < k
                    ==> diag_severity((#[trigger] self.errors@[i])@) != Severity::Error,
            decreases self.errors@.len() - k,
        {
            if self.errors[k].severity() == Severity::Error {
                return true;
            }
            k = k + 1;
        }
        false
    }

    /// How many recorded diagnostics are errors.
    pub fn error_count(&self) -> (r: usize)
        ensures
            r as int == count_with_severity(self.errors@, Severity::Error, 0),
    {
        self.count_severity(Severity::Error)
    }

    /// How many recorded diagnostics are warnings.
    pub fn warning_count(&self) -> (r: usize)
        ensures
            r as int == count_with_severity(self.errors@, Severity::Warning, 0),
    {
        self.count_severity(Severity::Warning)
    }

    fn count_severity(&self, sev: Severity) -> (r: usize)
        ensures
            r as int == count_with_severity(self.errors@, sev, 0),
    {
        proof {
            lemma_count_with_severity_bound(self.errors@, sev, 0);
        }
        let mut r: usize = 0;
        let mut k: usize = 0;
        while k < self.errors.len()
            invariant
                k <= self.errors@.len(),
                r <= k,
                r as int + count_with_severity(self.errors@, sev, k as int)
                    == count_with_severity(self.errors@, sev, 0),
            decreases self.errors@.len() - k,
        {
            if self.errors[k].severity() == sev {
                r = r + 1;
            }
            k = k + 1;
        }
        r
    }
}

proof fn lemma_count_with_severity_bound(es: Seq<DiagnosticError>, sev: Severity, i: int)
    requires
        0 <= i,
    ensures
        0 <= count_with_severity(es, sev, i),
        count_with_severity(es, sev, i) <= if es.len() - i >= 0 { es.len() - i } else { 0 },
    decreases es.len() - i,
{
    if i < es.len() {
        lemma_count_with_severity_bound(es, sev, i + 1);
    }
}

/// The identifier a document element contributes to "unknown reference"
/// suggestions: tasks and call activities by id, gateways by their
/// optional id; everything else contributes none.
pub open spec fn element_suggestion_ids(e: &ProcessElement) -> Seq<Seq<char>> {
    match e {
        ProcessElement::CallActivity { id, .. } => seq![id@],
        ProcessElement::Task { id, .. } => seq![id@],
        ProcessElement::Gateway { id, .. } => match id {
            Option::Some(g) => seq![g@],
            Option::None => Seq::empty(),
        },
        _ => Seq::empty(),
    }
}

/// The suggestion identifiers of the elements from `j` on.
pub open spec fn elements_suggestion_ids(es: Seq<ProcessElement>, j: int) -> Seq<Seq<char>>
    decreases es.len() - j when 0 <= j <= es.len()
{
    if j >= es.len() {
        Seq::empty()
    } else {
        element_suggestion_ids(&es[j]) + elements_suggestion_ids(es, j + 1)
    }
}

/// The suggestion identifiers of the processes from `i` on: each process's
/// direct task, call and gateway ids, in order.
pub open spec fn processes_suggestion_ids(
    ps: Seq<crate::parser::ast::ProcessDeclaration>,
    i: int,
) -> Seq<Seq<char>>
    decreases ps.len() - i when 0 <= i <= ps.len()
{
    if i >= ps.len() {
        Seq::empty()
    } else {
        elements_suggestion_ids(ps[i].elements@, 0) + processes_suggestion_ids(ps, i + 1)
    }
}

/// The suggestion list a converted parse error carries: keyword
/// suggestions for the first quoted part of an "Unexpected token" message,
/// identifier suggestions for that of an "Unknown" endpoint message,
/// nothing otherwise or when no quoted part exists.
pub open spec fn converted_suggestions(
    msg: Seq<char>,
    ps: Seq<crate::parser::ast::ProcessDeclaration>,
) -> Seq<Seq<char>> {
    let q1 = quote_from(msg, 0);
    let q2 = if q1 >= 0 { quote_from(msg, q1 + 1) } else { -1 };
    if spec_contains(msg, "Unexpected token"@) {
        if q1 >= 0 && q2 >= 0 {
            crate::diagnostics::suggestions::spec_suggest(
                msg.subrange(q1 + 1, q2),
                crate::diagnostics::suggestions::keyword_views(),
                3,
            )
        } else {
            Seq::empty()
        }
    } else if spec_contains(msg, "Unknown"@) {
        if q1 >= 0 && q2 >= 0 {
            crate::diagnostics::suggestions::spec_suggest(
                msg.subrange(q1 + 1, q2),
                processes_suggestion_ids(ps, 0),
                3,
            )
        } else {
            Seq::empty()
        }
    } else {
        Seq::empty()
    }
}

/// Turns one recorded parse error into a user-facing diagnostic, mining
/// its message for a quoted token or name so that keyword or identifier
/// suggestions can be attached: "Unexpected token" complaints get keyword
/// suggestions, "Unknown" endpoint complaints get suggestions from the
/// document's own task, call and gateway identifiers.
pub fn convert_parser_error_to_diagnostic(
    error: &ParseError,
    ast: &AstDocument,
) -> (r: DiagnosticError)
    ensures
        r@ matches DiagnosticErrorModel::SyntaxError { message, span, severity, suggestions }
            && message == error.message@
            && span == error.span@
            && severity == (if error.severity == ErrorSeverity::Error {
                Severity::Error
            } else {
                Severity::Warning
            })
            && suggestions == converted_suggestions(error.message@, ast.processes@),
{
    let suggestions: Vec<String> = if contains_sub(error.message.as_str(), "Unexpected token") {
        match quoted_part(error.message.as_str()) {
            Option::Some(found_token) => {
                crate::diagnostics::suggestions::suggest_keywords(found_token.as_str())
            }
            Option::None => Vec::new(),
        }
    } else if contains_sub(error.message.as_str(), "Unknown") {
        let mut identifiers: Vec<String> = Vec::new();
        let ghost ps = ast.processes@;
        let mut pi: usize = 0;
        proof {
            assert(crate::diagnostics::suggestions::owned_views(identifiers@)
                + processes_suggestion_ids(ps, 0)
                =~= processes_suggestion_ids(ps, 0));
        }
        while pi < ast.processes.len()
            invariant
                pi <= ps.len(),
                ps == ast.processes@,
                crate::diagnostics::suggestions::owned_views(identifiers@)
                    + processes_suggestion_ids(ps, pi as int)
                    == processes_suggestion_ids(ps, 0),
            decreases ast.processes@.len() - pi,
        {
            let process = &ast.processes[pi];
            let ghost es = process.elements@;
            let mut ei: usize = 0;
            while ei < process.elements.len()
                invariant
                    ei <= es.len(),
                    es == process.elements@,
                    pi < ps.len(),
                    ps == ast.processes@,
                    es == ps[pi as int].elements@,
                    crate::diagnostics::suggestions::owned_views(identifiers@)
                        + elements_suggestion_ids(es, ei as int)
                        + processes_suggestion_ids(ps, pi as int + 1)
                        == processes_suggestion_ids(ps, 0),
                decreases process.elements@.len() - ei,
            {
                let ghost idv = identifiers@;
                match &process.elements[ei] {
                    ProcessElement::CallActivity { id, .. } => {
                        identifiers.push(id.clone());
                    }
                    ProcessElement::Task { id, .. } => {
                        identifiers.push(id.clone());
                    }
                    ProcessElement::Gateway { id, .. } => {
                        if let Some(gid) = id {
                            identifiers.push(gid.clone());
                        }
                    }
                    _ => {}
                }
                proof {
                    assert(crate::diagnostics::suggestions::owned_views(identifiers@)
                        =~= crate::diagnostics::suggestions::owned_views(idv)
                            + element_suggestion_ids(&es[ei as int]));
                    assert(crate::diagnostics::suggestions::owned_views(identifiers@)
                        + elements_suggestion_ids(es, ei as int + 1)
                        + processes_suggestion_ids(ps, pi as int + 1)
                        =~= crate::diagnostics::suggestions::owned_views(idv)
                            + elements_suggestion_ids(es, ei as int)
                            + processes_suggestion_ids(ps, pi as int + 1));
                }
                ei = ei + 1;
            }
            proof {
                assert(elements_suggestion_ids(es, es.len() as int) =~= Seq::empty());
                assert(crate::diagnostics::suggestions::owned_views(identifiers@)
                    + elements_suggestion_ids(es, es.len() as int)
                    + processes_suggestion_ids(ps, pi as int + 1)
                    =~= crate::diagnostics::suggestions::owned_views(identifiers@)
                        + processes_suggestion_ids(ps, pi as int + 1));
            }
            pi = pi + 1;
        }
        proof {
            assert(processes_suggestion_ids(ps, ps.len() as int) =~= Seq::empty());
            assert(crate::diagnostics::suggestions::owned_views(identifiers@)
                + processes_suggestion_ids(ps, ps.len() as int)
                =~= crate::diagnostics::suggestions::owned_views(identifiers@));
        }

        match quoted_part(error.message.as_str()) {
            Option::Some(unknown_name) => {
                crate::diagnostics::suggestions::suggest_identifiers(
                    unknown_name.as_str(),
                    identifiers.as_slice(),
                )
            }
            Option::None => Vec::new(),
        }
    } else {
        Vec::new()
    };

    proof {
        assert(string_views(Seq::<String>::empty()) =~= Seq::<Seq<char>>::empty());
        assert(string_views(suggestions@)
            == converted_suggestions(error.message@, ast.processes@));
    }
    DiagnosticError::SyntaxError {
        message: error.message.clone(),
        span: error.span.clone(),
        severity: match error.severity {
            ErrorSeverity::Error => Severity::Error,
            ErrorSeverity::Warning => Severity::Warning,
        },
        suggestions,
    }
}

/// Whether `pat` stands in `s` starting at character `k`.
pub open spec fn matches_from(s: Seq<char>, pat: Seq<char>, k: int) -> bool {
    0 <= k && k + pat.len() <= s.len() && s.subrange(k, k + pat.len()) == pat
}

/// Whether `pat` occurs anywhere in `s`.
pub open spec fn spec_contains(s: Seq<char>, pat: Seq<char>) -> bool {
    exists|k: int| matches_from(s, pat, k)
}

/// The first single quote of `s` at or after `j`, or -1.
pub open spec fn quote_from(s: Seq<char>, j: int) -> int
    decreases s.len() - j when 0 <= j <= s.len()
{
    if j >= s.len() {
        -1
    } else if s[j] == '\'' {
        j
    } else {
        quote_from(s, j + 1)
    }
}

proof fn lemma_quote_from_bounds(s: Seq<char>, j: int)
    requires
        0 <= j <= s.len(),
    ensures
        quote_from(s, j) == -1 || (j <= quote_from(s, j) < s.len()),
    decreases s.len() - j,
{
    if j < s.len() && s[j] != '\'' {
        lemma_quote_from_bounds(s, j + 1);
    }
}

#[verifier::loop_isolation(false)]
fn contains_sub(s: &str, pat: &str) -> (r: bool)
    ensures
        r == spec_contains(s@, pat@),
{
    let sv = crate::lexer::chars_of(s);
    let pv = crate::lexer::chars_of(pat);
    let n = sv.len();
    let m = pv.len();
    if m == 0 {
        proof {
            assert(s@.subrange(0, 0) =~= pat@);
            assert(matches_from(s@, pat@, 0));
        }
        return true;
    }
    if m > n {
        proof {
            assert forall|k: int| !matches_from(s@, pat@, k) by {}
        }
        return false;
    }
    let mut k: usize = 0;
    while k <= n - m
        invariant
            1 <= m <= n,
            n == sv@.len(),
            m == pv@.len(),
            forall|k2: int| 0 <= k2 < k ==> !matches_from(s@, pat@, k2),
        decreases n - m - k + 1,
    {
        let mut q: usize = 0;
        let mut all = true;
        while q < m
            invariant
                q <= m,
                k <= n - m,
                1 <= m <= n,
                n == sv@.len(),
                m == pv@.len(),
                all == forall|q2: int| 0 <= q2 < q ==> s@[k + q2] == pat@[q2],
            decreases m - q,
        {
            if sv[k + q] != pv[q] {
                all = false;
            }
            q = q + 1;
        }
        if all {
            proof {
                assert(s@.subrange(k as int, k as int + pat@.len()) =~= pat@);
                assert(matches_from(s@, pat@, k as int));
            }
            return true;
        }
        proof {
            let bad = choose|q2: int| 0 <= q2 < m && s@[k + q2] != pat@[q2];
            assert(s@.subrange(k as int, k as int + pat@.len())[bad] != pat@[bad]);
            assert(!matches_from(s@, pat@, k as int));
        }
        k = k + 1;
    }
    proof {
        assert forall|k2: int| !matches_from(s@, pat@, k2) by {
            if 0 <= k2 && k2 + pat@.len() <= s@.len() {
                assert(k2 < k);
            }
        }
    }
    false
}

/// The text between the first two single quotes of `s`, if both exist.
#[verifier::loop_isolation(false)]
fn quoted_part(s: &str) -> (r: Option<String>)
    ensures
        ({
            let q1 = quote_from(s@, 0);
            if q1 >= 0 && quote_from(s@, q1 + 1) >= 0 {
                match r {
                    Option::Some(t) => t@ == s@.subrange(q1 + 1, quote_from(s@, q1 + 1)),
                    Option::None => false,
                }
            } else {
                r matches Option::None
            }
        }),
{
    let sv = crate::lexer::chars_of(s);
    let n = sv.len();
    let mut first: usize = 0;
    let mut have_first = false;
    let mut k: usize = 0;
    proof {
        lemma_quote_from_bounds(s@, 0);
    }
    while k < n
        invariant
            k <= n,
            n == sv@.len(),
            sv@ == s@,
            have_first ==> first < k,
            !have_first ==> quote_from(s@, 0) == quote_from(s@, k as int),
            have_first ==> quote_from(s@, 0) == first as int
                && quote_from(s@, first as int + 1) == quote_from(s@, k as int),
        decreases n - k,
    {
        if sv[k] == '\'' {
            if !have_first {
                have_first = true;
                first = k;
            } else {
                proof {
                    assert(quote_from(s@, k as int) == k as int);
                }
                return Some(s.substring_char(first + 1, k).to_owned());
            }
        }
        k = k + 1;
    }
    proof {
        assert(quote_from(s@, n as int) == -1);
    }
    None
}

} // verus!
