//! The recursive-descent parser and its companions: the syntax tree, the
//! error-recovery engine, and the post-parse semantic validator.
//!
//! The parser walks an index over a read-only token sequence. A failed
//! grammar rule is caught at the document or process boundary, recorded as
//! a diagnostic, and followed by a jump to a synchronization point; a parse
//! therefore always yields a document, whatever the input held.

pub mod ast;
pub mod builder;
pub mod error;
pub mod recovery;
pub mod validator;

use vstd::prelude::*;
use vstd::string::*;
use crate::lexer::{digit_run_end, Span, SpanModel, Token, TokenKind, TokenModel};
use crate::parser::ast::{
    AstDocument, AttributeValue, AttributeValueModel, Attributes, ErrorSeverity, EventType, Flow,
    FlowType, GatewayBranch, GatewayType, ImportDeclaration, Lane, ParseError,
    ProcessDeclaration, ProcessElement, TaskType,
};
use crate::parser::error::ParserError;
use crate::parser::recovery::ErrorRecovery;
use crate::text::{replace_seq, replace_str, str_eq};

verus! {

/// The model of the token the parser sees past the end of its input: a
/// synthetic `Eof` with an empty span.
pub open spec fn eof_default() -> TokenModel {
    TokenModel {
        kind: TokenKind::Eof,
        span: SpanModel { start: 0, end: 0, line: 1, column: 1, file: Seq::empty() },
        text: Seq::empty(),
    }
}

/// The model of the token at `pos`, or the synthetic `Eof` beyond the end.
pub open spec fn tok_at(toks: Seq<Token>, pos: int) -> TokenModel {
    if 0 <= pos < toks.len() {
        toks[pos]@
    } else {
        eof_default()
    }
}

/// Whether the cursor is done: past the end, or on an `Eof` token.
pub open spec fn spec_at_end(toks: Seq<Token>, pos: int) -> bool {
    pos >= toks.len() || tok_at(toks, pos).kind == TokenKind::Eof
}

/// Tokens the parser steps over between statements: newlines and comments.
pub open spec fn is_trivia_kind(k: TokenKind) -> bool {
    k == TokenKind::Newline || k == TokenKind::CarriageReturnNewline
        || k == TokenKind::LineComment || k == TokenKind::BlockComment
}

/// The first position at or after `pos` that does not hold trivia.
pub open spec fn skip_trivia(toks: Seq<Token>, pos: int) -> int
    decreases toks.len() - pos when 0 <= pos <= toks.len()
{
    if pos < toks.len() && is_trivia_kind(toks[pos]@.kind) {
        skip_trivia(toks, pos + 1)
    } else {
        pos
    }
}

/// The position where a document-level resynchronization stops: the next
/// `process`, `import`, `}` or `Eof` token (or the end of input).
pub open spec fn next_stmt_pos(toks: Seq<Token>, pos: int) -> int
    decreases toks.len() - pos when 0 <= pos <= toks.len()
{
    if pos >= toks.len() {
        pos
    } else if toks[pos]@.kind == TokenKind::Process || toks[pos]@.kind == TokenKind::Import
        || toks[pos]@.kind == TokenKind::RightBrace || toks[pos]@.kind == TokenKind::Eof {
        pos
    } else {
        next_stmt_pos(toks, pos + 1)
    }
}

pub proof fn lemma_next_stmt_pos_bounds(toks: Seq<Token>, pos: int)
    requires
        0 <= pos <= toks.len(),
    ensures
        pos <= next_stmt_pos(toks, pos) <= toks.len(),
    decreases toks.len() - pos,
{
    if pos < toks.len() && !(toks[pos]@.kind == TokenKind::Process
        || toks[pos]@.kind == TokenKind::Import
        || toks[pos]@.kind == TokenKind::RightBrace
        || toks[pos]@.kind == TokenKind::Eof) {
        lemma_next_stmt_pos_bounds(toks, pos + 1);
    }
}

/// Whether the first significant token opens a process whose name and
/// opening brace follow directly: the shape on which a parse is owed a
/// process in the result.
pub open spec fn first_process_ready(toks: Seq<Token>, pos: int) -> bool {
    let s0 = skip_trivia(toks, pos);
    &&& tok_at(toks, s0).kind == TokenKind::Process
    &&& tok_at(toks, s0 + 1).kind == TokenKind::Identifier
    &&& tok_at(toks, s0 + 2).kind == TokenKind::LeftBrace
}

/// The item-list scan of the `import a, b from "p"` form: starting after
/// the `import` keyword, identifiers are collected (other tokens skipped)
/// until `from`, the end, or an item followed by neither a comma nor
/// `from`. Returns the stop position and the collected item texts.
pub open spec fn import_items_scan(toks: Seq<Token>, pos: int, acc: Seq<Seq<char>>) -> (int, Seq<Seq<char>>)
    decreases toks.len() - pos when 0 <= pos <= toks.len() via import_items_scan_decreases
{
    if !(pos < toks.len() && tok_at(toks, pos).kind != TokenKind::From
        && tok_at(toks, pos).kind != TokenKind::Eof) {
        (pos, acc)
    } else {
        let acc1 = if tok_at(toks, pos).kind == TokenKind::Identifier {
            acc.push(tok_at(toks, pos).text)
        } else {
            acc
        };
        if tok_at(toks, pos + 1).kind == TokenKind::Comma {
            import_items_scan(toks, pos + 2, acc1)
        } else {
            (pos + 1, acc1)
        }
    }
}

#[via_fn]
proof fn import_items_scan_decreases(toks: Seq<Token>, pos: int, acc: Seq<Seq<char>>) {
}

/// The name a token kind renders to in "expected ..." messages.
pub open spec fn kind_name(k: TokenKind) -> Seq<char> {
    match k {
        TokenKind::Process => "Process"@,
        TokenKind::Import => "Import"@,
        TokenKind::From => "From"@,
        TokenKind::As => "As"@,
        TokenKind::Subprocess => "Subprocess"@,
        TokenKind::Start => "Start"@,
        TokenKind::End => "End"@,
        TokenKind::Task => "Task"@,
        TokenKind::User => "User"@,
        TokenKind::Service => "Service"@,
        TokenKind::Script => "Script"@,
        TokenKind::Call => "Call"@,
        TokenKind::Xor => "Xor"@,
        TokenKind::And => "And"@,
        TokenKind::Event => "Event"@,
        TokenKind::Group => "Group"@,
        TokenKind::Pool => "Pool"@,
        TokenKind::Lane => "Lane"@,
        TokenKind::Note => "Note"@,
        TokenKind::SequenceFlow => "SequenceFlow"@,
        TokenKind::MessageFlow => "MessageFlow"@,
        TokenKind::DefaultFlow => "DefaultFlow"@,
        TokenKind::Association => "Association"@,
        TokenKind::Namespace => "Namespace"@,
        TokenKind::LeftBrace => "LeftBrace"@,
        TokenKind::RightBrace => "RightBrace"@,
        TokenKind::LeftParen => "LeftParen"@,
        TokenKind::RightParen => "RightParen"@,
        TokenKind::LeftBracket => "LeftBracket"@,
        TokenKind::RightBracket => "RightBracket"@,
        TokenKind::Comma => "Comma"@,
        TokenKind::Equals => "Equals"@,
        TokenKind::At => "At"@,
        TokenKind::Question => "Question"@,
        TokenKind::StringLiteral => "StringLiteral"@,
        TokenKind::NumberLiteral => "NumberLiteral"@,
        TokenKind::Identifier => "Identifier"@,
        TokenKind::LineComment => "LineComment"@,
        TokenKind::BlockComment => "BlockComment"@,
        TokenKind::Newline => "Newline"@,
        TokenKind::CarriageReturnNewline => "CarriageReturnNewline"@,
        TokenKind::Unknown => "Unknown"@,
        TokenKind::Eof => "Eof"@,
    }
}

fn kind_name_str(k: &TokenKind) -> (r: &'static str)
    ensures
        r@ == kind_name(*k),
{
    match k {
        TokenKind::Process => "Process",
        TokenKind::Import => "Import",
        TokenKind::From => "From",
        TokenKind::As => "As",
        TokenKind::Subprocess => "Subprocess",
        TokenKind::Start => "Start",
        TokenKind::End => "End",
        TokenKind::Task => "Task",
        TokenKind::User => "User",
        TokenKind::Service => "Service",
        TokenKind::Script => "Script",
        TokenKind::Call => "Call",
        TokenKind::Xor => "Xor",
        TokenKind::And => "And",
        TokenKind::Event => "Event",
        TokenKind::Group => "Group",
        TokenKind::Pool => "Pool",
        TokenKind::Lane => "Lane",
        TokenKind::Note => "Note",
        TokenKind::SequenceFlow => "SequenceFlow",
        TokenKind::MessageFlow => "MessageFlow",
        TokenKind::DefaultFlow => "DefaultFlow",
        TokenKind::Association => "Association",
        TokenKind::Namespace => "Namespace",
        TokenKind::LeftBrace => "LeftBrace",
        TokenKind::RightBrace => "RightBrace",
        TokenKind::LeftParen => "LeftParen",
        TokenKind::RightParen => "RightParen",
        TokenKind::LeftBracket => "LeftBracket",
        TokenKind::RightBracket => "RightBracket",
        TokenKind::Comma => "Comma",
        TokenKind::Equals => "Equals",
        TokenKind::At => "At",
        TokenKind::Question => "Question",
        TokenKind::StringLiteral => "StringLiteral",
        TokenKind::NumberLiteral => "NumberLiteral",
        TokenKind::Identifier => "Identifier",
        TokenKind::LineComment => "LineComment",
        TokenKind::BlockComment => "BlockComment",
        TokenKind::Newline => "Newline",
        TokenKind::CarriageReturnNewline => "CarriageReturnNewline",
        TokenKind::Unknown => "Unknown",
        TokenKind::Eof => "Eof",
    }
}

/// The flow kind an arrow token stands for, if it is an arrow at all.
pub open spec fn arrow_type(k: TokenKind) -> Option<crate::parser::ast::FlowType> {
    match k {
        TokenKind::SequenceFlow => Option::Some(crate::parser::ast::FlowType::Sequence),
        TokenKind::MessageFlow => Option::Some(crate::parser::ast::FlowType::Message),
        TokenKind::DefaultFlow => Option::Some(crate::parser::ast::FlowType::Default),
        TokenKind::Association => Option::Some(crate::parser::ast::FlowType::Association),
        _ => Option::None,
    }
}

/// Whether `r` is exactly an `UnexpectedToken` error with these parts.
pub open spec fn is_unexpected_err<T>(
    r: &Result<T, Box<ParserError>>,
    found: Seq<char>,
    expected: Seq<char>,
    span: SpanModel,
) -> bool {
    match r {
        Result::Err(e) => match &**e {
            ParserError::UnexpectedToken { found: f, expected: x, span: s } =>
                f@ == found && x@ == expected && s@ == span,
            _ => false,
        },
        Result::Ok(_) => false,
    }
}

/// The unescaped content of a string-literal token: the quotes are
/// stripped and the escapes `\"` `\\` `\n` `\t` are substituted, in that
/// order of passes. A token not shaped like a quoted literal is kept as is.
pub open spec fn unescape_lit(t: Seq<char>) -> Seq<char> {
    if t.len() >= 2 && t[0] == '"' && t[t.len() - 1] == '"' {
        let inner = t.subrange(1, t.len() - 1);
        replace_seq(
            replace_seq(
                replace_seq(replace_seq(inner, "\\\""@, "\""@), "\\\\"@, "\\"@),
                "\\n"@,
                "\n"@,
            ),
            "\\t"@,
            "\t"@,
        )
    } else {
        t
    }
}

/// Token texts that glue onto the previous condition piece without a space,
/// so that `=` `=` renders as `==`.
pub open spec fn is_glue_text(t: Seq<char>) -> bool {
    t == "="@ || t == "!"@ || t == "<"@ || t == ">"@ || t == "&"@ || t == "|"@
}

/// One step after another of condition reconstruction: consumes up to 50
/// tokens until a `]` or the end, concatenating their texts with single
/// spaces except around glue characters. Returns the stop position and the
/// accumulated text.
pub open spec fn cond_scan(toks: Seq<Token>, pos: int, count: int, acc: Seq<char>) -> (int, Seq<char>)
    decreases 50 - count when count <= 50
{
    if pos < toks.len() && count < 50 && tok_at(toks, pos).kind != TokenKind::RightBracket
        && tok_at(toks, pos).kind != TokenKind::Eof {
        let text = tok_at(toks, pos).text;
        let acc2 = if acc.len() > 0 && !is_glue_text(text) {
            acc + seq![' '] + text
        } else {
            acc + text
        };
        cond_scan(toks, pos + 1, count + 1, acc2)
    } else {
        (pos, acc)
    }
}

/// Whether a token text is a plain decimal number: digits, then optionally
/// a dot and at least one more digit. Exactly these texts become `Number`
/// attribute values; a trailing unit letter makes a `Duration` instead,
/// and anything else is rejected.
pub open spec fn is_plain_number(t: Seq<char>) -> bool {
    let d1 = digit_run_end(t, 0);
    d1 > 0 && (d1 == t.len()
        || (d1 < t.len() && t[d1] == '.' && t.len() > d1 + 1 && digit_run_end(t, d1 + 1) == t.len()))
}

/// Whether a number token text carries a duration unit: it ends in one of
/// the letters `m`, `s` or `h` (which also covers `ms`).
pub open spec fn has_duration_suffix(t: Seq<char>) -> bool {
    t.len() >= 1 && (t[t.len() - 1] == 'm' || t[t.len() - 1] == 's' || t[t.len() - 1] == 'h')
}

/// What `parse_attribute_value` leaves behind: the result and the new
/// cursor, as a function of the token at the old cursor.
pub open spec fn attr_value_post(
    toks: Seq<Token>,
    pos: int,
    r: &Result<AttributeValue, Box<ParserError>>,
    pos2: int,
) -> bool {
    let t = tok_at(toks, pos);
    if t.kind == TokenKind::StringLiteral {
        pos2 == pos + 1 && match r {
            Result::Ok(AttributeValue::String(s)) => s@ == unescape_lit(t.text),
            _ => false,
        }
    } else if t.kind == TokenKind::NumberLiteral {
        pos2 == pos + 1 && if has_duration_suffix(t.text) {
            match r {
                Result::Ok(AttributeValue::Duration(s)) => s@ == t.text,
                _ => false,
            }
        } else if is_plain_number(t.text) {
            match r {
                Result::Ok(AttributeValue::Number(s)) => s@ == t.text,
                _ => false,
            }
        } else {
            match r {
                Result::Err(e) => match &**e {
                    ParserError::InvalidAttributeValue { value, span } =>
                        value@ == t.text && span@ == tok_at(toks, pos + 1).span,
                    _ => false,
                },
                Result::Ok(_) => false,
            }
        }
    } else if t.kind == TokenKind::Identifier {
        pos2 == pos + 1 && match r {
            Result::Ok(AttributeValue::Boolean(b)) =>
                (t.text == "true"@ && *b) || (t.text == "false"@ && !*b),
            Result::Ok(AttributeValue::String(s)) =>
                t.text != "true"@ && t.text != "false"@ && s@ == t.text,
            _ => false,
        }
    } else {
        pos2 == pos
            && is_unexpected_err(r, t.text, "attribute value (string, number, boolean)"@, t.span)
    }
}

/// The recursive-descent parser: a cursor over a read-only token sequence.
pub struct Parser {
    tokens: Vec<Token>,
    position: usize,
}

impl Parser {
    /// The token sequence being parsed.
    pub closed spec fn toks(&self) -> Seq<Token> {
        self.tokens@
    }

    /// The cursor.
    pub closed spec fn pos(&self) -> int {
        self.position as int
    }

    /// The cursor never runs past the end of the token sequence.
    pub open spec fn wf(&self) -> bool {
        self.pos() <= self.toks().len()
    }

    pub fn new(tokens: Vec<Token>) -> (r: Parser)
        ensures
            r.toks() == tokens@,
            r.pos() == 0,
            r.wf(),
    {
        Parser { tokens, position: 0 }
    }

    /// The kind of the token under the cursor (`Eof` past the end).
    fn current_kind(&self) -> (k: TokenKind)
        requires
            self.wf(),
        ensures
            k == tok_at(self.toks(), self.pos()).kind,
    {
        if self.position < self.tokens.len() {
            self.tokens[self.position].kind
        } else {
            TokenKind::Eof
        }
    }

    /// A copy of the token under the cursor (a synthetic `Eof` past the
    /// end).
    pub fn current_token(&self) -> (r: Token)
        requires
            self.wf(),
        ensures
            r@ == tok_at(self.toks(), self.pos()),
    {
        if self.position < self.tokens.len() {
            self.tokens[self.position].clone()
        } else {
            Token {
                kind: TokenKind::Eof,
                span: Span { start: 0, end: 0, line: 1, column: 1, file: String::new() },
                text: String::new(),
            }
        }
    }

    /// A copy of the span of the token under the cursor.
    pub fn current_span(&self) -> (r: Span)
        requires
            self.wf(),
        ensures
            r@ == tok_at(self.toks(), self.pos()).span,
    {
        if self.position < self.tokens.len() {
            self.tokens[self.position].span.clone()
        } else {
            Span { start: 0, end: 0, line: 1, column: 1, file: String::new() }
        }
    }

    /// Whether the token under the cursor has this kind.
    fn check_token(&self, kind: &TokenKind) -> (r: bool)
        requires
            self.wf(),
        ensures
            r == (tok_at(self.toks(), self.pos()).kind == *kind),
    {
        self.current_kind() == *kind
    }

    /// Whether the cursor is done: past the end, or on an `Eof` token.
    fn is_at_end(&self) -> (r: bool)
        requires
            self.wf(),
        ensures
            r == spec_at_end(self.toks(), self.pos()),
    {
        self.position >= self.tokens.len() || self.current_kind() == TokenKind::Eof
    }

    /// Steps over the token under the cursor, unless already done, and
    /// returns the token now under the cursor.
    fn advance(&mut self) -> (r: Token)
        requires
            old(self).wf(),
        ensures
            final(self).toks() == old(self).toks(),
            final(self).wf(),
            final(self).pos() == if spec_at_end(old(self).toks(), old(self).pos()) {
                old(self).pos()
            } else {
                old(self).pos() + 1
            },
            r@ == tok_at(final(self).toks(), final(self).pos()),
    {
        let n = self.tokens.len();
        if !self.is_at_end() {
            proof {
                assert(self.position < n);
            }
            self.position = self.position + 1;
        }
        self.current_token()
    }

    /// Steps over the token under the cursor if it has the expected kind;
    /// otherwise reports it, naming the expected kind, and stays put.
    fn consume_token(&mut self, expected: &TokenKind) -> (r: Result<Token, Box<ParserError>>)
        requires
            old(self).wf(),
        ensures
            final(self).toks() == old(self).toks(),
            final(self).wf(),
            tok_at(old(self).toks(), old(self).pos()).kind == *expected ==> match r {
                Result::Ok(t) => {
                    &&& final(self).pos() == if spec_at_end(old(self).toks(), old(self).pos()) {
                        old(self).pos()
                    } else {
                        old(self).pos() + 1
                    }
                    &&& t@ == tok_at(final(self).toks(), final(self).pos())
                },
                Result::Err(_) => false,
            },
            tok_at(old(self).toks(), old(self).pos()).kind != *expected ==> {
                &&& final(self).pos() == old(self).pos()
                &&& is_unexpected_err(
                    &r,
                    tok_at(old(self).toks(), old(self).pos()).text,
                    kind_name(*expected),
                    tok_at(old(self).toks(), old(self).pos()).span,
                )
            },
    {
        if self.check_token(expected) {
            Ok(self.advance())
        } else {
            Err(Box::new(ParserError::UnexpectedToken {
                found: self.current_token().text,
                expected: kind_name_str(expected).to_owned(),
                span: self.current_span(),
            }))
        }
    }

    /// Steps over newlines and comments.
    fn skip_whitespace_and_comments(&mut self)
        requires
            old(self).wf(),
        ensures
            final(self).toks() == old(self).toks(),
            final(self).wf(),
            final(self).pos() == skip_trivia(old(self).toks(), old(self).pos()),
            final(self).pos() >= old(self).pos(),
    {
        let ghost t0 = self.toks();
        let ghost p0 = self.pos();
        loop
            invariant
                self.wf(),
                self.toks() == t0,
                p0 <= self.pos(),
                skip_trivia(t0, p0) == skip_trivia(t0, self.pos()),
            ensures
                self.wf(),
                self.toks() == t0,
                p0 <= self.pos(),
                self.pos() == skip_trivia(t0, p0),
            decreases t0.len() - self.pos(),
        {
            let k = self.current_kind();
            if (k == TokenKind::Newline || k == TokenKind::CarriageReturnNewline
                || k == TokenKind::LineComment || k == TokenKind::BlockComment)
                && !self.is_at_end() {
                self.advance();
            } else {
                break;
            }
        }
    }

    /// Skips forward to the next `process`, `import`, `}` or `Eof` token.
    fn recover_to_next_statement(&mut self)
        requires
            old(self).wf(),
        ensures
            final(self).toks() == old(self).toks(),
            final(self).wf(),
            final(self).pos() == next_stmt_pos(old(self).toks(), old(self).pos()),
            final(self).pos() >= old(self).pos(),
    {
        let ghost t0 = self.toks();
        let ghost p0 = self.pos();
        loop
            invariant
                self.wf(),
                self.toks() == t0,
                p0 <= self.pos(),
                next_stmt_pos(t0, p0) == next_stmt_pos(t0, self.pos()),
            ensures
                self.wf(),
                self.toks() == t0,
                p0 <= self.pos(),
                self.pos() == next_stmt_pos(t0, p0),
            decreases t0.len() - self.pos(),
        {
            if self.is_at_end() {
                break;
            }
            let k = self.current_kind();
            if k == TokenKind::Process || k == TokenKind::Import || k == TokenKind::RightBrace
                || k == TokenKind::Eof {
                break;
            }
            self.advance();
        }
        proof {
            lemma_next_stmt_pos_bounds(t0, self.pos());
        }
    }

    /// Takes an identifier token, returning its text; any other token is
    /// reported and the cursor stays put.
    fn parse_identifier(&mut self) -> (r: Result<String, Box<ParserError>>)
        requires
            old(self).wf(),
        ensures
            final(self).toks() == old(self).toks(),
            final(self).wf(),
            match r {
                Result::Ok(s) => {
                    &&& tok_at(old(self).toks(), old(self).pos()).kind == TokenKind::Identifier
                    &&& s@ == tok_at(old(self).toks(), old(self).pos()).text
                    &&& final(self).pos() == old(self).pos() + 1
                },
                Result::Err(_) => {
                    &&& tok_at(old(self).toks(), old(self).pos()).kind != TokenKind::Identifier
                    &&& final(self).pos() == old(self).pos()
                    &&& is_unexpected_err(
                        &r,
                        tok_at(old(self).toks(), old(self).pos()).text,
                        "identifier"@,
                        tok_at(old(self).toks(), old(self).pos()).span,
                    )
                },
            },
    {
        if !self.check_token(&TokenKind::Identifier) {
            return Err(Box::new(ParserError::UnexpectedToken {
                found: self.current_token().text,
                expected: "identifier".to_owned(),
                span: self.current_span(),
            }));
        }
        let identifier = self.current_token().text;
        self.advance();
        Ok(identifier)
    }

    /// Takes a string-literal token, returning its unescaped content; any
    /// other token is reported and the cursor stays put.
    fn parse_string_literal(&mut self) -> (r: Result<String, Box<ParserError>>)
        requires
            old(self).wf(),
        ensures
            final(self).toks() == old(self).toks(),
            final(self).wf(),
            match r {
                Result::Ok(s) => {
                    &&& tok_at(old(self).toks(), old(self).pos()).kind == TokenKind::StringLiteral
                    &&& s@ == unescape_lit(tok_at(old(self).toks(), old(self).pos()).text)
                    &&& final(self).pos() == old(self).pos() + 1
                },
                Result::Err(_) => {
                    &&& tok_at(old(self).toks(), old(self).pos()).kind != TokenKind::StringLiteral
                    &&& final(self).pos() == old(self).pos()
                    &&& is_unexpected_err(
                        &r,
                        tok_at(old(self).toks(), old(self).pos()).text,
                        "string literal"@,
                        tok_at(old(self).toks(), old(self).pos()).span,
                    )
                },
            },
    {
        if !self.check_token(&TokenKind::StringLiteral) {
            return Err(Box::new(ParserError::UnexpectedToken {
                found: self.current_token().text,
                expected: "string literal".to_owned(),
                span: self.current_span(),
            }));
        }
        let literal = self.current_token().text;
        self.advance();
        let lit = literal.as_str();
        let n = lit.unicode_len();
        if n >= 2 && lit.get_char(0) == '"' && lit.get_char(n - 1) == '"' {
            let inner = lit.substring_char(1, n - 1);
            proof {
                reveal_strlit("\\\"");
                reveal_strlit("\\\\");
                reveal_strlit("\\n");
                reveal_strlit("\\t");
            }
            let step1 = replace_str(inner, "\\\"", "\"");
            let step2 = replace_str(step1.as_str(), "\\\\", "\\");
            let step3 = replace_str(step2.as_str(), "\\n", "\n");
            let step4 = replace_str(step3.as_str(), "\\t", "\t");
            Ok(step4)
        } else {
            Ok(literal)
        }
    }

    /// Reconstructs an opaque condition text: concatenates up to 50 token
    /// texts before the closing `]`, separated by single spaces except
    /// around glue characters, so that `=` `=` composes to `==`. An empty
    /// reconstruction is reported as a missing condition.
    fn parse_condition_expression(&mut self) -> (r: Result<String, Box<ParserError>>)
        requires
            old(self).wf(),
        ensures
            final(self).toks() == old(self).toks(),
            final(self).wf(),
            final(self).pos() == cond_scan(old(self).toks(), old(self).pos(), 0, Seq::empty()).0,
            final(self).pos() >= old(self).pos(),
            match r {
                Result::Ok(s) => {
                    &&& s@ == cond_scan(old(self).toks(), old(self).pos(), 0, Seq::empty()).1
                    &&& s@.len() > 0
                },
                Result::Err(_) => {
                    &&& cond_scan(old(self).toks(), old(self).pos(), 0, Seq::empty()).1.len() == 0
                    &&& is_unexpected_err(
                        &r,
                        "]"@,
                        "condition expression"@,
                        tok_at(final(self).toks(), final(self).pos()).span,
                    )
                },
            },
    {
        let ghost t0 = self.toks();
        let ghost p0 = self.pos();
        let mut condition = String::new();
        let mut token_count: usize = 0;
        proof {
            assert(condition@ =~= Seq::<char>::empty());
        }
        loop
            invariant
                self.wf(),
                self.toks() == t0,
                p0 <= self.pos(),
                token_count <= 50,
                cond_scan(t0, p0, 0, Seq::empty())
                    == cond_scan(t0, self.pos(), token_count as int, condition@),
            ensures
                self.wf(),
                self.toks() == t0,
                p0 <= self.pos(),
                (self.pos(), condition@) == cond_scan(t0, p0, 0, Seq::empty()),
            decreases 50 - token_count,
        {
            if self.check_token(&TokenKind::RightBracket) || self.is_at_end()
                || token_count >= 50 {
                break;
            }
            let tok = self.current_token();
            if condition.as_str().unicode_len() > 0 {
                let t = tok.text.as_str();
                if !(str_eq(t, "=") || str_eq(t, "!") || str_eq(t, "<") || str_eq(t, ">")
                    || str_eq(t, "&") || str_eq(t, "|")) {
                    condition.append(" ");
                    proof {
                        reveal_strlit(" ");
                        assert(" "@ =~= seq![' ']);
                    }
                }
            } else {
                proof {
                    assert(condition@.len() == 0);
                }
            }
            condition.append(tok.text.as_str());
            self.advance();
            token_count = token_count + 1;
        }
        if condition.as_str().unicode_len() == 0 {
            proof {
                reveal_strlit("]");
            }
            return Err(Box::new(ParserError::UnexpectedToken {
                found: "]".to_owned(),
                expected: "condition expression".to_owned(),
                span: self.current_span(),
            }));
        }
        Ok(condition)
    }

    /// Resolves one attribute value token: a string literal unescapes, a
    /// number with a unit suffix becomes a `Duration`, a plain number a
    /// `Number`, `true`/`false` become booleans, any other bare identifier
    /// stays a string, and anything else is rejected.
    fn parse_attribute_value(&mut self) -> (r: Result<AttributeValue, Box<ParserError>>)
        requires
            old(self).wf(),
        ensures
            final(self).toks() == old(self).toks(),
            final(self).wf(),
            attr_value_post(old(self).toks(), old(self).pos(), &r, final(self).pos()),
    {
        let k = self.current_kind();
        if k == TokenKind::StringLiteral {
            let value = self.parse_string_literal();
            match value {
                Ok(v) => Ok(AttributeValue::String(v)),
                Err(e) => Err(e),
            }
        } else if k == TokenKind::NumberLiteral {
            let text = self.current_token().text;
            self.advance();
            let t = text.as_str();
            let n = t.unicode_len();
            let last_unit = n >= 1
                && (t.get_char(n - 1) == 'm' || t.get_char(n - 1) == 's'
                    || t.get_char(n - 1) == 'h');
            if last_unit {
                Ok(AttributeValue::Duration(text))
            } else if is_plain_number_str(t) {
                Ok(AttributeValue::Number(text))
            } else {
                Err(Box::new(ParserError::InvalidAttributeValue {
                    value: text,
                    span: self.current_span(),
                }))
            }
        } else if k == TokenKind::Identifier {
            let text = self.current_token().text;
            self.advance();
            if str_eq(text.as_str(), "true") {
                Ok(AttributeValue::Boolean(true))
            } else if str_eq(text.as_str(), "false") {
                Ok(AttributeValue::Boolean(false))
            } else {
                Ok(AttributeValue::String(text))
            }
        } else {
            Err(Box::new(ParserError::UnexpectedToken {
                found: self.current_token().text,
                expected: "attribute value (string, number, boolean)".to_owned(),
                span: self.current_span(),
            }))
        }
    }
}

/// Whether `r` is an `Ok` flow with exactly these parts: source and span
/// from the token at `pos`, the flow kind of the arrow after it, the target
/// at the token after that (`end` for the end keyword), and the given
/// condition text.
pub open spec fn flow_ok(
    r: &Result<Flow, Box<ParserError>>,
    toks: Seq<Token>,
    pos: int,
    cond: Option<Seq<char>>,
) -> bool {
    match r {
        Result::Ok(f) => {
            &&& f.from@ == tok_at(toks, pos).text
            &&& arrow_type(tok_at(toks, pos + 1).kind) == Option::Some(f.flow_type)
            &&& f.to@ == if tok_at(toks, pos + 2).kind == TokenKind::End {
                "end"@
            } else {
                tok_at(toks, pos + 2).text
            }
            &&& match (&f.condition, cond) {
                (Option::Some(c), Option::Some(cc)) => c@ == cc,
                (Option::None, Option::None) => true,
                _ => false,
            }
            &&& f.span@ == tok_at(toks, pos).span
        },
        Result::Err(_) => false,
    }
}

/// What `parse_flow` leaves behind, for every input: the exact result and
/// cursor as a function of the tokens at the old cursor. A flow is source,
/// arrow, target (an identifier or the `end` keyword), and an optional
/// bracketed condition.
pub open spec fn flow_post(
    toks: Seq<Token>,
    pos: int,
    r: &Result<Flow, Box<ParserError>>,
    pos2: int,
) -> bool {
    let t0 = tok_at(toks, pos);
    if t0.kind != TokenKind::Identifier {
        pos2 == pos && is_unexpected_err(r, t0.text, "identifier"@, t0.span)
    } else {
        let t1 = tok_at(toks, pos + 1);
        if (arrow_type(t1.kind) matches Option::None) {
            pos2 == pos + 1 && is_unexpected_err(r, t1.text, "flow arrow (-> --> => ..>)"@, t1.span)
        } else {
            let t2 = tok_at(toks, pos + 2);
            if t2.kind == TokenKind::End || t2.kind == TokenKind::Identifier {
                let t3 = tok_at(toks, pos + 3);
                if t3.kind == TokenKind::LeftBracket {
                    let sc = cond_scan(toks, pos + 4, 0, Seq::empty());
                    if sc.1.len() == 0 {
                        pos2 == sc.0 && is_unexpected_err(
                            r,
                            "]"@,
                            "condition expression"@,
                            tok_at(toks, sc.0).span,
                        )
                    } else if tok_at(toks, sc.0).kind == TokenKind::RightBracket {
                        pos2 == sc.0 + 1 && flow_ok(r, toks, pos, Option::Some(sc.1))
                    } else {
                        pos2 == sc.0 && is_unexpected_err(
                            r,
                            tok_at(toks, sc.0).text,
                            kind_name(TokenKind::RightBracket),
                            tok_at(toks, sc.0).span,
                        )
                    }
                } else {
                    pos2 == pos + 3 && flow_ok(r, toks, pos, Option::None)
                }
            } else {
                pos2 == pos + 2 && is_unexpected_err(r, t2.text, "identifier"@, t2.span)
            }
        }
    }
}

/// The element-introducing keywords.
pub open spec fn is_element_keyword(k: TokenKind) -> bool {
    k == TokenKind::Start || k == TokenKind::End || k == TokenKind::Task
        || k == TokenKind::User || k == TokenKind::Service || k == TokenKind::Script
        || k == TokenKind::Call || k == TokenKind::Xor || k == TokenKind::And
        || k == TokenKind::Event || k == TokenKind::Subprocess || k == TokenKind::Pool
        || k == TokenKind::Group || k == TokenKind::Note
}

/// Whether `r` is `Ok(None)`: no event annotation was present.
pub open spec fn ok_no_event(r: &Result<Option<EventType>, Box<ParserError>>) -> bool {
    match r {
        Result::Ok(Option::None) => true,
        _ => false,
    }
}

/// Whether `r` is an `Ok` event of the given shape.
pub open spec fn ok_event(
    r: &Result<Option<EventType>, Box<ParserError>>,
    want: EventTypeShape,
    payload: Seq<char>,
) -> bool {
    match r {
        Result::Ok(Option::Some(EventType::Message(p))) =>
            want == EventTypeShape::Message && p@ == payload,
        Result::Ok(Option::Some(EventType::Timer(p))) =>
            want == EventTypeShape::Timer && p@ == payload,
        Result::Ok(Option::Some(EventType::Error(p))) =>
            want == EventTypeShape::Error && p@ == payload,
        Result::Ok(Option::Some(EventType::Signal(p))) =>
            want == EventTypeShape::Signal && p@ == payload,
        Result::Ok(Option::Some(EventType::Terminate)) =>
            want == EventTypeShape::Terminate && payload.len() == 0,
        _ => false,
    }
}

/// The shapes an event annotation can take.
#[derive(PartialEq, Eq, Structural)]
pub enum EventTypeShape {
    Message,
    Timer,
    Error,
    Signal,
    Terminate,
}

/// What `parse_event_type` leaves behind, for every input: without a
/// leading `@` nothing is consumed and there is no annotation; after `@`,
/// the name must be an identifier spelling one of the five event types;
/// `message`, `error` and `signal` take an optional string payload,
/// `timer` an optional number or identifier duration.
pub open spec fn event_type_post(
    toks: Seq<Token>,
    pos: int,
    r: &Result<Option<EventType>, Box<ParserError>>,
    pos2: int,
) -> bool {
    let t0 = tok_at(toks, pos);
    if t0.kind != TokenKind::At {
        pos2 == pos && ok_no_event(r)
    } else {
        let t1 = tok_at(toks, pos + 1);
        if t1.kind != TokenKind::Identifier {
            pos2 == pos + 1 && is_unexpected_err(r, t1.text, "event type identifier"@, t1.span)
        } else {
            let t2 = tok_at(toks, pos + 2);
            if t1.text == "message"@ {
                if t2.kind == TokenKind::StringLiteral {
                    pos2 == pos + 3 && ok_event(r, EventTypeShape::Message, unescape_lit(t2.text))
                } else {
                    pos2 == pos + 2 && ok_event(r, EventTypeShape::Message, Seq::empty())
                }
            } else if t1.text == "timer"@ {
                if t2.kind == TokenKind::NumberLiteral || t2.kind == TokenKind::Identifier {
                    pos2 == pos + 3 && ok_event(r, EventTypeShape::Timer, t2.text)
                } else {
                    pos2 == pos + 2 && ok_event(r, EventTypeShape::Timer, Seq::empty())
                }
            } else if t1.text == "error"@ {
                if t2.kind == TokenKind::StringLiteral {
                    pos2 == pos + 3 && ok_event(r, EventTypeShape::Error, unescape_lit(t2.text))
                } else {
                    pos2 == pos + 2 && ok_event(r, EventTypeShape::Error, Seq::empty())
                }
            } else if t1.text == "signal"@ {
                if t2.kind == TokenKind::StringLiteral {
                    pos2 == pos + 3 && ok_event(r, EventTypeShape::Signal, unescape_lit(t2.text))
                } else {
                    pos2 == pos + 2 && ok_event(r, EventTypeShape::Signal, Seq::empty())
                }
            } else if t1.text == "terminate"@ {
                pos2 == pos + 2 && ok_event(r, EventTypeShape::Terminate, Seq::empty())
            } else {
                pos2 == pos + 2 && is_unexpected_err(
                    r,
                    t1.text,
                    "event type (message, timer, error, signal, terminate)"@,
                    tok_at(toks, pos + 2).span,
                )
            }
        }
    }
}

/// Mathematical model of one gateway branch.
pub struct GatewayBranchModel {
    pub condition: Option<Seq<char>>,
    pub target: Seq<char>,
    pub is_default: bool,
    pub span: SpanModel,
}

impl View for GatewayBranch {
    type V = GatewayBranchModel;

    open spec fn view(&self) -> GatewayBranchModel {
        GatewayBranchModel {
            condition: match &self.condition {
                Option::Some(c) => Option::Some(c@),
                Option::None => Option::None,
            },
            target: self.target@,
            is_default: self.is_default,
            span: self.span@,
        }
    }
}

/// The models of a branch list.
pub open spec fn branch_models(bs: Seq<GatewayBranch>) -> Seq<GatewayBranchModel> {
    bs.map_values(|b: GatewayBranch| b@)
}

/// How a gateway-branch scan ends: with the collected branches at the
/// closing position, or with the parts of the one error it reports.
pub enum BranchScan {
    Done { branches: Seq<GatewayBranchModel>, end: int },
    Failed { found: Seq<char>, expected: Seq<char>, at: int },
}

/// The condition-reconstruction scan never moves backward and stays
/// inside the tokens.
pub proof fn lemma_cond_scan_bounds(toks: Seq<Token>, pos: int, count: int, acc: Seq<char>)
    requires
        0 <= pos <= toks.len(),
        count <= 50,
    ensures
        pos <= cond_scan(toks, pos, count, acc).0 <= toks.len(),
    decreases 50 - count,
{
    if pos < toks.len() && count < 50 && tok_at(toks, pos).kind != TokenKind::RightBracket
        && tok_at(toks, pos).kind != TokenKind::Eof {
        let text = tok_at(toks, pos).text;
        let acc2 = if acc.len() > 0 && !is_glue_text(text) {
            acc + seq![' '] + text
        } else {
            acc + text
        };
        lemma_cond_scan_bounds(toks, pos + 1, count + 1, acc2);
    }
}

/// Skipping trivia twice skips it once.
pub proof fn lemma_skip_trivia_idempotent(toks: Seq<Token>, pos: int)
    requires
        0 <= pos <= toks.len(),
    ensures
        skip_trivia(toks, skip_trivia(toks, pos)) == skip_trivia(toks, pos),
        pos <= skip_trivia(toks, pos) <= toks.len(),
    decreases toks.len() - pos,
{
    if pos < toks.len() && is_trivia_kind(toks[pos]@.kind) {
        lemma_skip_trivia_idempotent(toks, pos + 1);
    }
}

/// The gateway-branch scan: branches of the form `[cond] -> target`,
/// `=> target` (the default, without a condition) or `ident -> target`,
/// each with a mandatory `->` or `=>` before the target, repeated up to
/// the closing `}` (or the end of input). The first rule violation stops
/// the scan with the error the parser reports for it.
pub open spec fn branches_scan(toks: Seq<Token>, pos: int, acc: Seq<GatewayBranchModel>) -> BranchScan
    decreases toks.len() - pos when 0 <= pos <= toks.len() via branches_scan_decreases
{
    let p = skip_trivia(toks, pos);
    if !(p < toks.len() && tok_at(toks, p).kind != TokenKind::RightBrace
        && tok_at(toks, p).kind != TokenKind::Eof) {
        BranchScan::Done { branches: acc, end: p }
    } else {
        let bspan = tok_at(toks, p).span;
        let head: (Option<(Option<Seq<char>>, bool)>, int) = if tok_at(toks, p).kind
            == TokenKind::LeftBracket {
            let sc = cond_scan(toks, p + 1, 0, Seq::empty());
            if sc.1.len() == 0 {
                (Option::None, sc.0)
            } else if tok_at(toks, sc.0).kind != TokenKind::RightBracket {
                (Option::None, sc.0)
            } else {
                (Option::Some((Option::Some(sc.1), false)), sc.0 + 1)
            }
        } else if tok_at(toks, p).kind == TokenKind::DefaultFlow {
            (Option::Some((Option::None, true)), p + 1)
        } else if tok_at(toks, p).kind == TokenKind::Identifier {
            (Option::Some((Option::Some(tok_at(toks, p).text), false)), p + 1)
        } else {
            (Option::None, p)
        };
        match head.0 {
            Option::None => {
                if tok_at(toks, p).kind == TokenKind::LeftBracket {
                    let sc = cond_scan(toks, p + 1, 0, Seq::empty());
                    if sc.1.len() == 0 {
                        BranchScan::Failed {
                            found: "]"@,
                            expected: "condition expression"@,
                            at: sc.0,
                        }
                    } else {
                        BranchScan::Failed {
                            found: tok_at(toks, sc.0).text,
                            expected: kind_name(TokenKind::RightBracket),
                            at: sc.0,
                        }
                    }
                } else {
                    BranchScan::Failed {
                        found: tok_at(toks, p).text,
                        expected: "identifier"@,
                        at: p,
                    }
                }
            },
            Option::Some(cd) => {
                let after = head.1;
                if tok_at(toks, after).kind != TokenKind::SequenceFlow
                    && tok_at(toks, after).kind != TokenKind::DefaultFlow {
                    BranchScan::Failed {
                        found: tok_at(toks, after).text,
                        expected: "-> or =>"@,
                        at: after,
                    }
                } else if tok_at(toks, after + 1).kind != TokenKind::Identifier {
                    BranchScan::Failed {
                        found: tok_at(toks, after + 1).text,
                        expected: "identifier"@,
                        at: after + 1,
                    }
                } else {
                    branches_scan(toks, after + 2, acc.push(GatewayBranchModel {
                        condition: cd.0,
                        target: tok_at(toks, after + 1).text,
                        is_default: cd.1,
                        span: bspan,
                    }))
                }
            },
        }
    }
}

#[via_fn]
proof fn branches_scan_decreases(toks: Seq<Token>, pos: int, acc: Seq<GatewayBranchModel>) {
    lemma_skip_trivia_idempotent(toks, pos);
    let p = skip_trivia(toks, pos);
    if p < toks.len() && tok_at(toks, p).kind != TokenKind::RightBrace
        && tok_at(toks, p).kind != TokenKind::Eof {
        if tok_at(toks, p).kind == TokenKind::LeftBracket {
            lemma_cond_scan_bounds(toks, p + 1, 0, Seq::empty());
        }
    }
}

/// Skipping leading trivia before a branch scan changes nothing: the scan
/// itself begins by skipping it.
pub proof fn lemma_branches_scan_skip(toks: Seq<Token>, pos: int, acc: Seq<GatewayBranchModel>)
    requires
        0 <= pos <= toks.len(),
    ensures
        branches_scan(toks, pos, acc) == branches_scan(toks, skip_trivia(toks, pos), acc),
{
    lemma_skip_trivia_idempotent(toks, pos);
}

proof fn lemma_at_run_scan_bounds(toks: Seq<Token>, pos: int, attrs: Map<Seq<char>, AttributeValueModel>)
    requires
        0 <= pos <= toks.len(),
    ensures
        match at_run_scan(toks, pos, attrs) {
            AttrScan::Done { end, .. } => pos <= end <= toks.len(),
            _ => true,
        },
    decreases toks.len() - pos,
{
    if tok_at(toks, pos).kind == TokenKind::At {
        let kt = tok_at(toks, pos + 1);
        if kt.kind == TokenKind::Identifier {
            let vk = tok_at(toks, pos + 2).kind;
            if vk == TokenKind::StringLiteral || vk == TokenKind::NumberLiteral
                || vk == TokenKind::Identifier {
                match value_outcome(toks, pos + 2) {
                    ValueOutcome::Value { v, next } => {
                        lemma_at_run_scan_bounds(toks, pos + 3, attrs.insert(kt.text, v));
                    },
                    _ => {},
                }
            } else {
                lemma_at_run_scan_bounds(toks, pos + 2, attrs.insert(
                    kt.text,
                    AttributeValueModel::BooleanValue(true),
                ));
            }
        }
    }
}

proof fn lemma_paren_run_scan_bounds(toks: Seq<Token>, pos: int, attrs: Map<Seq<char>, AttributeValueModel>)
    requires
        0 <= pos <= toks.len(),
    ensures
        match paren_run_scan(toks, pos, attrs) {
            AttrScan::Done { end, .. } => pos <= end <= toks.len(),
            _ => true,
        },
    decreases toks.len() - pos,
{
    lemma_skip_trivia_idempotent(toks, pos);
    let p = skip_trivia(toks, pos);
    if p < toks.len() && tok_at(toks, p).kind != TokenKind::RightParen
        && tok_at(toks, p).kind != TokenKind::Eof
        && tok_at(toks, p).kind == TokenKind::Identifier
        && tok_at(toks, p + 1).kind == TokenKind::Equals {
        match value_outcome(toks, p + 2) {
            ValueOutcome::Value { v, next } => {
                lemma_skip_trivia_idempotent(toks, p + 3);
                let q = skip_trivia(toks, p + 3);
                if tok_at(toks, q).kind == TokenKind::Comma {
                    lemma_paren_run_scan_bounds(toks, q + 1,
                        attrs.insert(tok_at(toks, p).text, v));
                } else {
                    lemma_paren_run_scan_bounds(toks, p + 3,
                        attrs.insert(tok_at(toks, p).text, v));
                }
            },
            _ => {},
        }
    }
}

/// A completed attribute scan stays inside the tokens and past its start.
pub proof fn lemma_attrs_scan_bounds(toks: Seq<Token>, pos: int)
    requires
        0 <= pos <= toks.len(),
    ensures
        match attrs_scan(toks, pos) {
            AttrScan::Done { end, .. } => pos <= end <= toks.len(),
            _ => true,
        },
{
    lemma_at_run_scan_bounds(toks, pos, Map::empty());
    match at_run_scan(toks, pos, Map::empty()) {
        AttrScan::Done { attrs, end } => {
            if tok_at(toks, end).kind == TokenKind::LeftParen {
                lemma_paren_run_scan_bounds(toks, end + 1, attrs);
            }
        },
        _ => {},
    }
}

/// A completed branch scan stays inside the tokens and past its start.
pub proof fn lemma_branches_scan_bounds(toks: Seq<Token>, pos: int, acc: Seq<GatewayBranchModel>)
    requires
        0 <= pos <= toks.len(),
    ensures
        match branches_scan(toks, pos, acc) {
            BranchScan::Done { end, .. } => pos <= end <= toks.len(),
            BranchScan::Failed { .. } => true,
        },
    decreases toks.len() - pos,
{
    lemma_skip_trivia_idempotent(toks, pos);
    let p = skip_trivia(toks, pos);
    if p < toks.len() && tok_at(toks, p).kind != TokenKind::RightBrace
        && tok_at(toks, p).kind != TokenKind::Eof {
        if tok_at(toks, p).kind == TokenKind::LeftBracket {
            lemma_cond_scan_bounds(toks, p + 1, 0, Seq::empty());
            let sc = cond_scan(toks, p + 1, 0, Seq::empty());
            if sc.1.len() > 0 && tok_at(toks, sc.0).kind == TokenKind::RightBracket {
                let after = sc.0 + 1;
                if (tok_at(toks, after).kind == TokenKind::SequenceFlow
                    || tok_at(toks, after).kind == TokenKind::DefaultFlow)
                    && tok_at(toks, after + 1).kind == TokenKind::Identifier {
                    lemma_branches_scan_bounds(toks, after + 2, acc.push(GatewayBranchModel {
                        condition: Option::Some(sc.1),
                        target: tok_at(toks, after + 1).text,
                        is_default: false,
                        span: tok_at(toks, p).span,
                    }));
                }
            }
        } else if tok_at(toks, p).kind == TokenKind::DefaultFlow
            || tok_at(toks, p).kind == TokenKind::Identifier {
            let cd: (Option<Seq<char>>, bool) = if tok_at(toks, p).kind == TokenKind::DefaultFlow {
                (Option::None, true)
            } else {
                (Option::Some(tok_at(toks, p).text), false)
            };
            let after = p + 1;
            if (tok_at(toks, after).kind == TokenKind::SequenceFlow
                || tok_at(toks, after).kind == TokenKind::DefaultFlow)
                && tok_at(toks, after + 1).kind == TokenKind::Identifier {
                lemma_branches_scan_bounds(toks, after + 2, acc.push(GatewayBranchModel {
                    condition: cd.0,
                    target: tok_at(toks, after + 1).text,
                    is_default: cd.1,
                    span: tok_at(toks, p).span,
                }));
            }
        }
    }
}

/// A ready statement always moves the cursor forward and stays inside the
/// tokens.
pub proof fn lemma_element_success_end_bounds(toks: Seq<Token>, pos: int)
    requires
        0 <= pos <= toks.len(),
        element_success_ready(toks, pos),
    ensures
        pos < element_success_end(toks, pos) <= toks.len(),
{
    let t0 = tok_at(toks, pos);
    if t0.kind == TokenKind::Task || t0.kind == TokenKind::User
        || t0.kind == TokenKind::Service || t0.kind == TokenKind::Script
        || (t0.kind == TokenKind::Call
            && tok_at(toks, pos + 2).kind != TokenKind::Namespace) {
        assert(tok_at(toks, pos + 1).kind == TokenKind::Identifier);
        assert(pos + 2 <= toks.len());
        lemma_attrs_scan_bounds(toks, pos + 2);
    } else if t0.kind == TokenKind::Call {
        assert(tok_at(toks, pos + 3).kind == TokenKind::Identifier);
        assert(pos + 4 <= toks.len());
        lemma_attrs_scan_bounds(toks, pos + 4);
    } else if t0.kind == TokenKind::Xor || t0.kind == TokenKind::And {
        let q = gateway_brace_pos(toks, pos, t0.kind == TokenKind::Xor);
        assert(tok_at(toks, q).kind == TokenKind::LeftBrace);
        assert(q + 1 <= toks.len());
        lemma_branches_scan_bounds(toks, q + 1, Seq::empty());
    }
}

/// The well-formed run of a process body: starting from `pos`, each
/// statement in turn is a ready element shape, down to the closing `}`.
/// Returns each element's start position and the `}` position, or nothing
/// when some statement is not a ready shape.
pub open spec fn body_run(toks: Seq<Token>, pos: int, acc: Seq<int>) -> Option<(Seq<int>, int)>
    decreases toks.len() - pos when 0 <= pos <= toks.len() via body_run_decreases
{
    let b = skip_trivia(toks, pos);
    if tok_at(toks, b).kind == TokenKind::RightBrace {
        Option::Some((acc, b))
    } else if b < toks.len() && element_success_ready(toks, b) {
        body_run(toks, element_success_end(toks, b), acc.push(b))
    } else {
        Option::None
    }
}

#[via_fn]
proof fn body_run_decreases(toks: Seq<Token>, pos: int, acc: Seq<int>) {
    lemma_skip_trivia_idempotent(toks, pos);
    let b = skip_trivia(toks, pos);
    if tok_at(toks, b).kind != TokenKind::RightBrace && b < toks.len()
        && element_success_ready(toks, b) {
        lemma_element_success_end_bounds(toks, b);
    }
}

/// Skipping leading trivia before a body run changes nothing: the run
/// itself begins by skipping it.
pub proof fn lemma_body_run_skip(toks: Seq<Token>, pos: int, acc: Seq<int>)
    requires
        0 <= pos <= toks.len(),
    ensures
        body_run(toks, pos, acc) == body_run(toks, skip_trivia(toks, pos), acc),
{
    lemma_skip_trivia_idempotent(toks, pos);
}

/// Whether a parsed element list matches a run of statement positions:
/// one element per position, each of the shape its statement dictates.
pub open spec fn elements_match(toks: Seq<Token>, ps: Seq<int>, es: Seq<ProcessElement>) -> bool {
    &&& es.len() == ps.len()
    &&& forall|i: int| 0 <= i < ps.len()
        ==> element_ok_shape(toks, #[trigger] ps[i], &es[i])
}

impl Parser {
    /// Parses an optional `@type payload` event annotation. Without a
    /// leading `@` there is no annotation and nothing is consumed. After
    /// `@`, the type name must be one of `message`, `timer`, `error`,
    /// `signal` or `terminate`; the first four take an optional payload.
    fn parse_event_type(&mut self) -> (r: Result<Option<EventType>, Box<ParserError>>)
        requires
            old(self).wf(),
        ensures
            final(self).toks() == old(self).toks(),
            final(self).wf(),
            final(self).pos() >= old(self).pos(),
            event_type_post(old(self).toks(), old(self).pos(), &r, final(self).pos()),
    {
        if !self.check_token(&TokenKind::At) {
            return Ok(None);
        }

        self.advance();

        if !self.check_token(&TokenKind::Identifier) {
            return Err(Box::new(ParserError::UnexpectedToken {
                found: self.current_token().text,
                expected: "event type identifier".to_owned(),
                span: self.current_span(),
            }));
        }

        let event_type_name = self.current_token().text;
        self.advance();

        let name = event_type_name.as_str();
        if str_eq(name, "message") {
            let payload = if self.check_token(&TokenKind::StringLiteral) {
                match self.parse_string_literal() {
                    Ok(p) => p,
                    Err(e) => return Err(e),
                }
            } else {
                String::new()
            };
            Ok(Some(EventType::Message(payload)))
        } else if str_eq(name, "timer") {
            let duration = if self.check_token(&TokenKind::NumberLiteral)
                || self.check_token(&TokenKind::Identifier) {
                let dur = self.current_token().text;
                self.advance();
                dur
            } else {
                String::new()
            };
            Ok(Some(EventType::Timer(duration)))
        } else if str_eq(name, "error") {
            let error_code = if self.check_token(&TokenKind::StringLiteral) {
                match self.parse_string_literal() {
                    Ok(p) => p,
                    Err(e) => return Err(e),
                }
            } else {
                String::new()
            };
            Ok(Some(EventType::Error(error_code)))
        } else if str_eq(name, "signal") {
            let signal_name = if self.check_token(&TokenKind::StringLiteral) {
                match self.parse_string_literal() {
                    Ok(p) => p,
                    Err(e) => return Err(e),
                }
            } else {
                String::new()
            };
            Ok(Some(EventType::Signal(signal_name)))
        } else if str_eq(name, "terminate") {
            Ok(Some(EventType::Terminate))
        } else {
            Err(Box::new(ParserError::UnexpectedToken {
                found: event_type_name,
                expected: "event type (message, timer, error, signal, terminate)".to_owned(),
                span: self.current_span(),
            }))
        }
    }

    /// Parses both attribute forms, in order: any run of `@key value`
    /// prefixes, then one optional parenthesized `(key=value, ...)` group.
    /// The same key written again overwrites its earlier value. With
    /// neither form present the result is the empty mapping and nothing is
    /// consumed.
    #[verifier::loop_isolation(false)]
    fn parse_attributes(&mut self) -> (r: Result<Attributes, Box<ParserError>>)
        requires
            old(self).wf(),
        ensures
            final(self).toks() == old(self).toks(),
            final(self).wf(),
            final(self).pos() >= old(self).pos(),
            tok_at(old(self).toks(), old(self).pos()).kind != TokenKind::At
                && tok_at(old(self).toks(), old(self).pos()).kind != TokenKind::LeftParen ==> {
                &&& final(self).pos() == old(self).pos()
                &&& match r {
                    Result::Ok(a) => a@ == Map::<Seq<char>, AttributeValueModel>::empty(),
                    Result::Err(_) => false,
                }
            },
            match attrs_scan(old(self).toks(), old(self).pos()) {
                AttrScan::Done { attrs, end } => match r {
                    Result::Ok(a) => a@ == attrs && final(self).pos() == end,
                    Result::Err(_) => false,
                },
                AttrScan::FailedUnexpected { found, expected, at } => {
                    &&& is_unexpected_err(&r, found, expected,
                        tok_at(old(self).toks(), at).span)
                    &&& final(self).pos() == at
                },
                AttrScan::FailedValue { value, at } => {
                    &&& match &r {
                        Result::Err(e) => match &**e {
                            ParserError::InvalidAttributeValue { value: v, span } =>
                                v@ == value && span@ == tok_at(old(self).toks(), at).span,
                            _ => false,
                        },
                        Result::Ok(_) => false,
                    }
                    &&& final(self).pos() == at
                },
            },
    {
        let ghost t0 = self.toks();
        let ghost p0 = self.pos();
        let mut attributes = Attributes::new();
        proof {
            assert(attributes@ =~= Map::<Seq<char>, AttributeValueModel>::empty());
        }

        while self.check_token(&TokenKind::At)
            invariant
                self.wf(),
                self.toks() == t0,
                p0 <= self.pos(),
                tok_at(t0, p0).kind != TokenKind::At ==> self.pos() == p0
                    && attributes@ == Map::<Seq<char>, AttributeValueModel>::empty(),
                at_run_scan(t0, p0, Map::empty())
                    == at_run_scan(t0, self.pos(), attributes@),
            decreases t0.len() - self.pos(),
        {
            let ghost pos_it = self.pos();
            let ghost attrs_it = attributes@;
            self.advance();
            let key = match self.parse_identifier() {
                Ok(k) => k,
                Err(e) => return Err(e),
            };

            let has_value = self.check_token(&TokenKind::StringLiteral)
                || self.check_token(&TokenKind::NumberLiteral)
                || self.check_token(&TokenKind::Identifier);
            let value = if has_value {
                match self.parse_attribute_value() {
                    Ok(v) => v,
                    Err(e) => return Err(e),
                }
            } else {
                AttributeValue::Boolean(true)
            };
            let ghost gv = value@;
            let ghost gk = key@;
            attributes.insert(key, value);
            proof {
                assert(attributes@ == attrs_it.insert(gk, gv));
                if has_value {
                    reveal_strlit("true");
                    reveal_strlit("false");
                    assert(value_outcome(t0, pos_it + 2)
                        == (ValueOutcome::Value { v: gv, next: pos_it + 3 }));
                }
                assert(at_run_scan(t0, pos_it, attrs_it)
                    == at_run_scan(t0, self.pos(), attributes@));
            }
        }

        let ghost at_end_pos = self.pos();
        let ghost at_attrs = attributes@;
        proof {
            assert(at_run_scan(t0, p0, Map::empty())
                == (AttrScan::Done { attrs: at_attrs, end: at_end_pos }));
        }

        if self.check_token(&TokenKind::LeftParen) {
            self.advance();
            self.skip_whitespace_and_comments();
            proof {
                lemma_skip_trivia_idempotent(t0, at_end_pos + 1);
                lemma_paren_run_scan_skip(t0, at_end_pos + 1, at_attrs);
            }

            while !self.check_token(&TokenKind::RightParen) && !self.is_at_end()
                invariant
                    self.wf(),
                    self.toks() == t0,
                    p0 <= self.pos(),
                    skip_trivia(t0, self.pos()) == self.pos(),
                    paren_run_scan(t0, at_end_pos + 1, at_attrs)
                        == paren_run_scan(t0, self.pos(), attributes@),
                decreases t0.len() - self.pos(),
            {
                let ghost pos_it = self.pos();
                let ghost attrs_it = attributes@;
                let key = match self.parse_identifier() {
                    Ok(k) => k,
                    Err(e) => return Err(e),
                };

                if !self.check_token(&TokenKind::Equals) {
                    return Err(Box::new(ParserError::UnexpectedToken {
                        found: self.current_token().text,
                        expected: "=".to_owned(),
                        span: self.current_span(),
                    }));
                }
                self.advance();

                let value = match self.parse_attribute_value() {
                    Ok(v) => v,
                    Err(e) => return Err(e),
                };

                let ghost gv = value@;
                let ghost gk = key@;
                attributes.insert(key, value);
                proof {
                    assert(attributes@ == attrs_it.insert(gk, gv));
                    reveal_strlit("true");
                    reveal_strlit("false");
                    assert(value_outcome(t0, pos_it + 2)
                        == (ValueOutcome::Value { v: gv, next: pos_it + 3 }));
                }
                let ghost mid_pos = self.pos();
                self.skip_whitespace_and_comments();
                proof {
                    lemma_skip_trivia_idempotent(t0, mid_pos);
                }

                if self.check_token(&TokenKind::Comma) {
                    self.advance();
                    let ghost comma_pos = self.pos();
                    self.skip_whitespace_and_comments();
                    proof {
                        lemma_skip_trivia_idempotent(t0, comma_pos);
                        lemma_paren_run_scan_skip(t0, comma_pos, attributes@);
                        assert(paren_run_scan(t0, pos_it, attrs_it)
                            == paren_run_scan(t0, self.pos(), attributes@));
                    }
                } else {
                    proof {
                        lemma_paren_run_scan_skip(t0, mid_pos, attributes@);
                        assert(paren_run_scan(t0, pos_it, attrs_it)
                            == paren_run_scan(t0, self.pos(), attributes@));
                    }
                }
            }

            if self.check_token(&TokenKind::RightParen) {
                self.advance();
            } else {
                return Err(Box::new(ParserError::UnexpectedToken {
                    found: self.current_token().text,
                    expected: ")".to_owned(),
                    span: self.current_span(),
                }));
            }
        }

        Ok(attributes)
    }

    /// Parses one import statement, in either surface form:
    /// `import "path" as alias` or `import a, b from "path"`.
    #[verifier::loop_isolation(false)]
    fn parse_import(&mut self) -> (r: Result<ImportDeclaration, Box<ParserError>>)
        requires
            old(self).wf(),
        ensures
            final(self).toks() == old(self).toks(),
            final(self).wf(),
            final(self).pos() >= old(self).pos(),
            tok_at(old(self).toks(), old(self).pos()).kind == TokenKind::Import
                ==> final(self).pos() > old(self).pos(),
            match r {
                Result::Ok(imp) => imp.span@ == tok_at(old(self).toks(), old(self).pos()).span,
                Result::Err(_) => true,
            },
            tok_at(old(self).toks(), old(self).pos()).kind == TokenKind::Import
                && tok_at(old(self).toks(), old(self).pos() + 1).kind == TokenKind::StringLiteral
                ==> match r {
                    Result::Ok(imp) => {
                        &&& imp.path@ == unescape_lit(
                            tok_at(old(self).toks(), old(self).pos() + 1).text,
                        )
                        &&& imp.items@.len() == 0
                        &&& tok_at(old(self).toks(), old(self).pos() + 2).kind != TokenKind::As
                            ==> {
                                &&& (imp.alias matches Option::None)
                                &&& final(self).pos() == old(self).pos() + 2
                            }
                        &&& (tok_at(old(self).toks(), old(self).pos() + 2).kind == TokenKind::As
                            && tok_at(old(self).toks(), old(self).pos() + 3).kind
                                == TokenKind::Identifier) ==> {
                            &&& match &imp.alias {
                                Option::Some(a) => a@
                                    == tok_at(old(self).toks(), old(self).pos() + 3).text,
                                Option::None => false,
                            }
                            &&& final(self).pos() == old(self).pos() + 4
                        }
                    },
                    Result::Err(_) =>
                        tok_at(old(self).toks(), old(self).pos() + 2).kind == TokenKind::As
                            && tok_at(old(self).toks(), old(self).pos() + 3).kind
                                != TokenKind::Identifier,
                },
            tok_at(old(self).toks(), old(self).pos()).kind == TokenKind::Import
                && tok_at(old(self).toks(), old(self).pos() + 1).kind != TokenKind::StringLiteral
                ==> ({
                    let sc = import_items_scan(old(self).toks(), old(self).pos() + 1, Seq::empty());
                    let e = sc.0;
                    if tok_at(old(self).toks(), e).kind != TokenKind::From {
                        &&& is_unexpected_err(
                            &r,
                            tok_at(old(self).toks(), e).text,
                            kind_name(TokenKind::From),
                            tok_at(old(self).toks(), e).span,
                        )
                        &&& final(self).pos() == e
                    } else if tok_at(old(self).toks(), e + 1).kind != TokenKind::StringLiteral {
                        &&& is_unexpected_err(
                            &r,
                            tok_at(old(self).toks(), e + 1).text,
                            "string literal"@,
                            tok_at(old(self).toks(), e + 1).span,
                        )
                        &&& final(self).pos() == e + 1
                    } else {
                        match r {
                            Result::Ok(imp) => {
                                &&& imp.path@ == unescape_lit(tok_at(old(self).toks(), e + 1).text)
                                &&& (imp.alias matches Option::None)
                                &&& imp.items@.map_values(|t: String| t@) == sc.1
                                &&& final(self).pos() == e + 2
                            },
                            Result::Err(_) => false,
                        }
                    }
                }),
    {
        let ghost t0 = self.toks();
        let ghost p0 = self.pos();
        let start_span = self.current_span();

        match self.consume_token(&TokenKind::Import) {
            Ok(_) => {}
            Err(e) => return Err(e),
        }

        if self.check_token(&TokenKind::StringLiteral) {
            let path = match self.parse_string_literal() {
                Ok(p) => p,
                Err(e) => return Err(e),
            };

            let alias = if self.check_token(&TokenKind::As) {
                self.advance();
                match self.parse_identifier() {
                    Ok(a) => Some(a),
                    Err(e) => return Err(e),
                }
            } else {
                None
            };

            return Ok(ImportDeclaration {
                path,
                alias,
                items: Vec::new(),
                span: start_span,
            });
        }

        let mut items: Vec<String> = Vec::new();
        let ghost mut scan_done = false;
        proof {
            assert(items@.map_values(|t: String| t@) =~= Seq::<Seq<char>>::empty());
        }

        while !self.check_token(&TokenKind::From) && !self.is_at_end()
            invariant
                self.wf(),
                self.toks() == t0,
                p0 < self.pos(),
                if scan_done {
                    import_items_scan(t0, p0 + 1, Seq::empty())
                        == (self.pos(), items@.map_values(|t: String| t@))
                } else {
                    import_items_scan(t0, p0 + 1, Seq::empty())
                        == import_items_scan(t0, self.pos(), items@.map_values(|t: String| t@))
                },
                !scan_done,
            decreases t0.len() - self.pos(),
        {
            let ghost iv0 = items@.map_values(|t: String| t@);
            let ghost pos_it = self.pos();
            if self.check_token(&TokenKind::Identifier) {
                let item = match self.parse_identifier() {
                    Ok(i) => i,
                    Err(e) => return Err(e),
                };
                items.push(item);
                proof {
                    assert(items@.map_values(|t: String| t@)
                        =~= iv0.push(tok_at(t0, pos_it).text));
                }
            } else {
                self.advance();
            }

            if self.check_token(&TokenKind::Comma) {
                self.advance();
            } else if !self.check_token(&TokenKind::From) {
                proof {
                    scan_done = true;
                }
                break;
            }
        }
        proof {
            assert(import_items_scan(t0, p0 + 1, Seq::empty())
                == (self.pos(), items@.map_values(|t: String| t@)));
        }

        match self.consume_token(&TokenKind::From) {
            Ok(_) => {}
            Err(e) => return Err(e),
        }
        let path = match self.parse_string_literal() {
            Ok(p) => p,
            Err(e) => return Err(e),
        };

        Ok(ImportDeclaration {
            path,
            alias: None,
            items,
            span: start_span,
        })
    }

    /// Parses one flow statement: `from arrow to [condition]`, where the
    /// target may be the `end` keyword and the bracketed condition is
    /// optional. The whole behaviour is pinned by `flow_post`.
    fn parse_flow(&mut self) -> (r: Result<Flow, Box<ParserError>>)
        requires
            old(self).wf(),
        ensures
            final(self).toks() == old(self).toks(),
            final(self).wf(),
            final(self).pos() >= old(self).pos(),
            (r matches Result::Ok(_)) ==> final(self).pos() > old(self).pos(),
            flow_post(old(self).toks(), old(self).pos(), &r, final(self).pos()),
    {
        let span = self.current_span();
        let from = match self.parse_identifier() {
            Ok(f) => f,
            Err(e) => return Err(e),
        };

        let k = self.current_kind();
        let flow_type = if k == TokenKind::SequenceFlow {
            self.advance();
            FlowType::Sequence
        } else if k == TokenKind::MessageFlow {
            self.advance();
            FlowType::Message
        } else if k == TokenKind::DefaultFlow {
            self.advance();
            FlowType::Default
        } else if k == TokenKind::Association {
            self.advance();
            FlowType::Association
        } else {
            return Err(Box::new(ParserError::UnexpectedToken {
                found: self.current_token().text,
                expected: "flow arrow (-> --> => ..>)".to_owned(),
                span: self.current_span(),
            }));
        };

        let to = if self.check_token(&TokenKind::End) {
            self.advance();
            "end".to_owned()
        } else {
            match self.parse_identifier() {
                Ok(t) => t,
                Err(e) => return Err(e),
            }
        };

        let condition = if self.check_token(&TokenKind::LeftBracket) {
            self.advance();
            let cond = match self.parse_condition_expression() {
                Ok(c) => c,
                Err(e) => return Err(e),
            };
            match self.consume_token(&TokenKind::RightBracket) {
                Ok(_) => {}
                Err(e) => return Err(e),
            }
            Some(cond)
        } else {
            None
        };

        Ok(Flow {
            from,
            to,
            flow_type,
            condition,
            span,
        })
    }

    /// Parses the branches of a gateway body until the closing `}`: each is
    /// `[condition] -> target`, `=> target` (the default branch), or a bare
    /// identifier condition, always with a mandatory arrow before the
    /// target.
    #[verifier::loop_isolation(false)]
    fn parse_gateway_branches(&mut self) -> (r: Result<Vec<GatewayBranch>, Box<ParserError>>)
        requires
            old(self).wf(),
        ensures
            final(self).toks() == old(self).toks(),
            final(self).wf(),
            final(self).pos() >= old(self).pos(),
            match branches_scan(old(self).toks(), old(self).pos(), Seq::empty()) {
                BranchScan::Done { branches, end } => match r {
                    Result::Ok(bs) => branch_models(bs@) == branches
                        && final(self).pos() == end,
                    Result::Err(_) => false,
                },
                BranchScan::Failed { found, expected, at } => {
                    &&& is_unexpected_err(&r, found, expected,
                        tok_at(old(self).toks(), at).span)
                    &&& final(self).pos() == at
                },
            },
    {
        let ghost t0 = self.toks();
        let ghost p0 = self.pos();
        let mut branches: Vec<GatewayBranch> = Vec::new();

        self.skip_whitespace_and_comments();
        proof {
            lemma_skip_trivia_idempotent(t0, p0);
            lemma_branches_scan_skip(t0, p0, Seq::empty());
            assert(branch_models(branches@) =~= Seq::<GatewayBranchModel>::empty());
        }

        while !self.check_token(&TokenKind::RightBrace) && !self.is_at_end()
            invariant
                self.wf(),
                self.toks() == t0,
                p0 <= self.pos(),
                skip_trivia(t0, self.pos()) == self.pos(),
                branches_scan(t0, p0, Seq::empty())
                    == branches_scan(t0, self.pos(), branch_models(branches@)),
            decreases t0.len() - self.pos(),
        {
            let ghost pos_it = self.pos();
            let ghost models_it = branch_models(branches@);
            let span = self.current_span();

            let (condition, is_default): (Option<String>, bool) =
                if self.check_token(&TokenKind::LeftBracket) {
                    self.advance();
                    let cond = match self.parse_condition_expression() {
                        Ok(c) => c,
                        Err(e) => return Err(e),
                    };
                    match self.consume_token(&TokenKind::RightBracket) {
                        Ok(_) => {}
                        Err(e) => return Err(e),
                    }
                    (Some(cond), false)
                } else if self.check_token(&TokenKind::DefaultFlow) {
                    self.advance();
                    (None, true)
                } else {
                    let cond = match self.parse_identifier() {
                        Ok(c) => c,
                        Err(e) => return Err(e),
                    };
                    (Some(cond), false)
                };

            if !self.check_token(&TokenKind::SequenceFlow)
                && !self.check_token(&TokenKind::DefaultFlow) {
                return Err(Box::new(ParserError::UnexpectedToken {
                    found: self.current_token().text,
                    expected: "-> or =>".to_owned(),
                    span: self.current_span(),
                }));
            }

            self.advance();

            let target = match self.parse_identifier() {
                Ok(t) => t,
                Err(e) => return Err(e),
            };

            branches.push(GatewayBranch {
                condition,
                target,
                is_default,
                span,
            });
            proof {
                assert(branch_models(branches@)
                    =~= models_it.push(branches@.last()@));
                assert(branches_scan(t0, pos_it, models_it)
                    == branches_scan(t0, self.pos(), branch_models(branches@)));
                lemma_skip_trivia_idempotent(t0, self.pos());
                lemma_branches_scan_skip(t0, self.pos(), branch_models(branches@));
            }

            self.skip_whitespace_and_comments();
        }

        Ok(branches)
    }
}

/// The task kind a task-family keyword stands for (`Generic` otherwise).
pub open spec fn task_type_for(k: TokenKind) -> crate::parser::ast::TaskType {
    if k == TokenKind::User {
        crate::parser::ast::TaskType::User
    } else if k == TokenKind::Service {
        crate::parser::ast::TaskType::Service
    } else if k == TokenKind::Script {
        crate::parser::ast::TaskType::Script
    } else {
        crate::parser::ast::TaskType::Generic
    }
}

/// Where a parsed gateway's `{` must stand: past the keyword, the
/// optional name, and (for an exclusive gateway) the optional `?`.
pub open spec fn gateway_brace_pos(toks: Seq<Token>, pos: int, exclusive: bool) -> int {
    let q0 = if tok_at(toks, pos + 1).kind == TokenKind::Identifier {
        pos + 2
    } else {
        pos + 1
    };
    if exclusive && tok_at(toks, q0).kind == TokenKind::Question {
        q0 + 1
    } else {
        q0
    }
}

/// How an attribute scan ends: with the finished mapping at the next
/// cursor position, with an unexpected token, or with an unparseable
/// attribute value.
pub enum AttrScan {
    Done { attrs: Map<Seq<char>, AttributeValueModel>, end: int },
    FailedUnexpected { found: Seq<char>, expected: Seq<char>, at: int },
    FailedValue { value: Seq<char>, at: int },
}

/// How resolving one attribute value token ends.
pub enum ValueOutcome {
    Value { v: AttributeValueModel, next: int },
    ValueBad { value: Seq<char>, at: int },
    ValueUnexpected { found: Seq<char>, expected: Seq<char>, at: int },
}

/// The value the token at `pos` resolves to, exactly as
/// `parse_attribute_value` resolves it.
pub open spec fn value_outcome(toks: Seq<Token>, pos: int) -> ValueOutcome {
    let t = tok_at(toks, pos);
    if t.kind == TokenKind::StringLiteral {
        ValueOutcome::Value { v: AttributeValueModel::StringValue(unescape_lit(t.text)), next: pos + 1 }
    } else if t.kind == TokenKind::NumberLiteral {
        if has_duration_suffix(t.text) {
            ValueOutcome::Value { v: AttributeValueModel::DurationValue(t.text), next: pos + 1 }
        } else if is_plain_number(t.text) {
            ValueOutcome::Value { v: AttributeValueModel::NumberValue(t.text), next: pos + 1 }
        } else {
            ValueOutcome::ValueBad { value: t.text, at: pos + 1 }
        }
    } else if t.kind == TokenKind::Identifier {
        if t.text == "true"@ {
            ValueOutcome::Value { v: AttributeValueModel::BooleanValue(true), next: pos + 1 }
        } else if t.text == "false"@ {
            ValueOutcome::Value { v: AttributeValueModel::BooleanValue(false), next: pos + 1 }
        } else {
            ValueOutcome::Value { v: AttributeValueModel::StringValue(t.text), next: pos + 1 }
        }
    } else {
        ValueOutcome::ValueUnexpected {
            found: t.text,
            expected: "attribute value (string, number, boolean)"@,
            at: pos,
        }
    }
}

/// The `@key value` prefix run: each `@` takes an identifier key and an
/// optional value (a bare key means `true`), later writes overwriting
/// earlier ones. Stops at the first token that is not `@`.
pub open spec fn at_run_scan(toks: Seq<Token>, pos: int, attrs: Map<Seq<char>, AttributeValueModel>) -> AttrScan
    decreases toks.len() - pos when 0 <= pos <= toks.len() via at_run_scan_decreases
{
    if tok_at(toks, pos).kind != TokenKind::At {
        AttrScan::Done { attrs, end: pos }
    } else {
        let kt = tok_at(toks, pos + 1);
        if kt.kind != TokenKind::Identifier {
            AttrScan::FailedUnexpected { found: kt.text, expected: "identifier"@, at: pos + 1 }
        } else {
            let vk = tok_at(toks, pos + 2).kind;
            if vk == TokenKind::StringLiteral || vk == TokenKind::NumberLiteral
                || vk == TokenKind::Identifier {
                match value_outcome(toks, pos + 2) {
                    ValueOutcome::Value { v, next } =>
                        at_run_scan(toks, next, attrs.insert(kt.text, v)),
                    ValueOutcome::ValueBad { value, at } =>
                        AttrScan::FailedValue { value, at },
                    ValueOutcome::ValueUnexpected { found, expected, at } =>
                        AttrScan::FailedUnexpected { found, expected, at },
                }
            } else {
                at_run_scan(toks, pos + 2, attrs.insert(
                    kt.text,
                    AttributeValueModel::BooleanValue(true),
                ))
            }
        }
    }
}

#[via_fn]
proof fn at_run_scan_decreases(toks: Seq<Token>, pos: int, attrs: Map<Seq<char>, AttributeValueModel>) {
}

/// The parenthesized `(key=value, ...)` run, after the `(`: `key=value`
/// entries separated by optional commas up to the closing `)`, later
/// writes overwriting earlier ones.
pub open spec fn paren_run_scan(toks: Seq<Token>, pos: int, attrs: Map<Seq<char>, AttributeValueModel>) -> AttrScan
    decreases toks.len() - pos when 0 <= pos <= toks.len() via paren_run_scan_decreases
{
    let p = skip_trivia(toks, pos);
    if !(p < toks.len() && tok_at(toks, p).kind != TokenKind::RightParen
        && tok_at(toks, p).kind != TokenKind::Eof) {
        if tok_at(toks, p).kind == TokenKind::RightParen {
            AttrScan::Done { attrs, end: p + 1 }
        } else {
            AttrScan::FailedUnexpected { found: tok_at(toks, p).text, expected: ")"@, at: p }
        }
    } else if tok_at(toks, p).kind != TokenKind::Identifier {
        AttrScan::FailedUnexpected { found: tok_at(toks, p).text, expected: "identifier"@, at: p }
    } else if tok_at(toks, p + 1).kind != TokenKind::Equals {
        AttrScan::FailedUnexpected { found: tok_at(toks, p + 1).text, expected: "="@, at: p + 1 }
    } else {
        match value_outcome(toks, p + 2) {
            ValueOutcome::Value { v, next } => {
                let q = skip_trivia(toks, next);
                if tok_at(toks, q).kind == TokenKind::Comma {
                    paren_run_scan(toks, q + 1, attrs.insert(tok_at(toks, p).text, v))
                } else {
                    paren_run_scan(toks, next, attrs.insert(tok_at(toks, p).text, v))
                }
            },
            ValueOutcome::ValueBad { value, at } => AttrScan::FailedValue { value, at },
            ValueOutcome::ValueUnexpected { found, expected, at } =>
                AttrScan::FailedUnexpected { found, expected, at },
        }
    }
}

#[via_fn]
proof fn paren_run_scan_decreases(toks: Seq<Token>, pos: int, attrs: Map<Seq<char>, AttributeValueModel>) {
    lemma_skip_trivia_idempotent(toks, pos);
    let p = skip_trivia(toks, pos);
    if p < toks.len() && tok_at(toks, p).kind != TokenKind::RightParen
        && tok_at(toks, p).kind != TokenKind::Eof
        && tok_at(toks, p).kind == TokenKind::Identifier
        && tok_at(toks, p + 1).kind == TokenKind::Equals {
        if value_outcome(toks, p + 2) matches ValueOutcome::Value { v, next } {
            lemma_skip_trivia_idempotent(toks, p + 3);
        }
    }
}

/// Skipping leading trivia before a parenthesized run changes nothing:
/// the run itself begins by skipping it.
pub proof fn lemma_paren_run_scan_skip(toks: Seq<Token>, pos: int, attrs: Map<Seq<char>, AttributeValueModel>)
    requires
        0 <= pos <= toks.len(),
    ensures
        paren_run_scan(toks, pos, attrs) == paren_run_scan(toks, skip_trivia(toks, pos), attrs),
{
    lemma_skip_trivia_idempotent(toks, pos);
}

/// The whole attribute grammar: the `@key value` run, then one optional
/// parenthesized group.
pub open spec fn attrs_scan(toks: Seq<Token>, pos: int) -> AttrScan {
    match at_run_scan(toks, pos, Map::empty()) {
        AttrScan::Done { attrs, end } => {
            if tok_at(toks, end).kind == TokenKind::LeftParen {
                paren_run_scan(toks, end + 1, attrs)
            } else {
                AttrScan::Done { attrs, end }
            }
        },
        fail => fail,
    }
}

/// The shape of a successfully parsed element, as a function of the tokens
/// at the old cursor: which variant its keyword produces, its span, its
/// identifier or label, a task's kind, a gateway's kind, a call activity's
/// resolved callee, and the absence of an event annotation when no `@`
/// follows.
pub open spec fn element_ok_shape(toks: Seq<Token>, pos: int, e: &ProcessElement) -> bool {
    let t0 = tok_at(toks, pos);
    let t1 = tok_at(toks, pos + 1);
    match t0.kind {
        TokenKind::Start => match e {
            ProcessElement::StartEvent { id, event_type, attributes, span } => {
                &&& id matches Option::None
                &&& span@ == t0.span
                &&& t1.kind != TokenKind::At ==> {
                    &&& (event_type matches Option::None)
                    &&& match attrs_scan(toks, pos + 1) {
                        AttrScan::Done { attrs, .. } => attributes@ == attrs,
                        _ => false,
                    }
                }
            },
            _ => false,
        },
        TokenKind::End => match e {
            ProcessElement::EndEvent { id, event_type, attributes, span } => {
                &&& id matches Option::None
                &&& span@ == t0.span
                &&& t1.kind != TokenKind::At ==> {
                    &&& (event_type matches Option::None)
                    &&& match attrs_scan(toks, pos + 1) {
                        AttrScan::Done { attrs, .. } => attributes@ == attrs,
                        _ => false,
                    }
                }
            },
            _ => false,
        },
        TokenKind::Task | TokenKind::User | TokenKind::Service | TokenKind::Script => match e {
            ProcessElement::Task { id, task_type, attributes, span } => {
                &&& id@ == t1.text
                &&& task_type == task_type_for(t0.kind)
                &&& span@ == t0.span
                &&& match attrs_scan(toks, pos + 2) {
                    AttrScan::Done { attrs, .. } => attributes@ == attrs,
                    _ => false,
                }
            },
            _ => false,
        },
        TokenKind::Call => match e {
            ProcessElement::CallActivity { id, called_element, attributes, span } => {
                &&& id@ == t1.text
                &&& span@ == t0.span
                &&& tok_at(toks, pos + 2).kind == TokenKind::Namespace ==> {
                    &&& called_element@ == t1.text + "::"@ + tok_at(toks, pos + 3).text
                    &&& match attrs_scan(toks, pos + 4) {
                        AttrScan::Done { attrs, .. } => attributes@ == attrs,
                        _ => false,
                    }
                }
                &&& tok_at(toks, pos + 2).kind != TokenKind::Namespace ==> {
                    &&& called_element@ == t1.text
                    &&& match attrs_scan(toks, pos + 2) {
                        AttrScan::Done { attrs, .. } => attributes@ == attrs,
                        _ => false,
                    }
                }
            },
            _ => false,
        },
        TokenKind::Xor => match e {
            ProcessElement::Gateway { id, gateway_type, branches, span } => {
                &&& gateway_type == crate::parser::ast::GatewayType::Exclusive
                &&& span@ == t0.span
                &&& match id {
                    Option::Some(g) => t1.kind == TokenKind::Identifier && g@ == t1.text,
                    Option::None => t1.kind != TokenKind::Identifier,
                }
                &&& match branches_scan(toks, gateway_brace_pos(toks, pos, true) + 1, Seq::empty()) {
                    BranchScan::Done { branches: bs, .. } => branch_models(branches@) == bs,
                    BranchScan::Failed { .. } => false,
                }
            },
            _ => false,
        },
        TokenKind::And => match e {
            ProcessElement::Gateway { id, gateway_type, branches, span } => {
                &&& gateway_type == crate::parser::ast::GatewayType::Parallel
                &&& span@ == t0.span
                &&& match id {
                    Option::Some(g) => t1.kind == TokenKind::Identifier && g@ == t1.text,
                    Option::None => t1.kind != TokenKind::Identifier,
                }
                &&& match branches_scan(toks, gateway_brace_pos(toks, pos, false) + 1, Seq::empty()) {
                    BranchScan::Done { branches: bs, .. } => branch_models(branches@) == bs,
                    BranchScan::Failed { .. } => false,
                }
            },
            _ => false,
        },
        TokenKind::Event => match e {
            ProcessElement::IntermediateEvent { id, span, .. } =>
                (id matches Option::None) && span@ == t0.span,
            _ => false,
        },
        TokenKind::Subprocess => match e {
            ProcessElement::Subprocess { id, span, .. } => id@ == t1.text && span@ == t0.span,
            _ => false,
        },
        TokenKind::Pool => match e {
            ProcessElement::Pool { name, span, .. } => name@ == t1.text && span@ == t0.span,
            _ => false,
        },
        TokenKind::Group => match e {
            ProcessElement::Group { label, span, .. } =>
                label@ == unescape_lit(t1.text) && span@ == t0.span,
            _ => false,
        },
        TokenKind::Note => match e {
            ProcessElement::Annotation { text, span } =>
                text@ == unescape_lit(t1.text) && span@ == t0.span,
            _ => false,
        },
        _ => false,
    }
}

/// The statement shapes on which `parse_process_element` owes success:
/// start and end events without annotations or attributes, task-family and
/// call statements whose identifier and attribute run are well formed,
/// notes with their label, and gateways whose brace block opens, scans and
/// closes.
pub open spec fn element_success_ready(toks: Seq<Token>, pos: int) -> bool {
    let t0 = tok_at(toks, pos);
    let t1 = tok_at(toks, pos + 1);
    let t2 = tok_at(toks, pos + 2);
    ||| ((t0.kind == TokenKind::Start || t0.kind == TokenKind::End)
        && t1.kind != TokenKind::At && t1.kind != TokenKind::LeftParen)
    ||| ((t0.kind == TokenKind::Task || t0.kind == TokenKind::User
        || t0.kind == TokenKind::Service || t0.kind == TokenKind::Script)
        && t1.kind == TokenKind::Identifier
        && (attrs_scan(toks, pos + 2) matches AttrScan::Done { .. }))
    ||| (t0.kind == TokenKind::Call && t1.kind == TokenKind::Identifier
        && t2.kind != TokenKind::Namespace
        && (attrs_scan(toks, pos + 2) matches AttrScan::Done { .. }))
    ||| (t0.kind == TokenKind::Call && t1.kind == TokenKind::Identifier
        && t2.kind == TokenKind::Namespace
        && tok_at(toks, pos + 3).kind == TokenKind::Identifier
        && (attrs_scan(toks, pos + 4) matches AttrScan::Done { .. }))
    ||| (t0.kind == TokenKind::Note && t1.kind == TokenKind::StringLiteral)
    ||| ({
        let q = gateway_brace_pos(toks, pos, t0.kind == TokenKind::Xor);
        (t0.kind == TokenKind::Xor || t0.kind == TokenKind::And)
            && tok_at(toks, q).kind == TokenKind::LeftBrace
            && (match branches_scan(toks, q + 1, Seq::empty()) {
                BranchScan::Done { end, .. } =>
                    tok_at(toks, end).kind == TokenKind::RightBrace,
                BranchScan::Failed { .. } => false,
            })
    })
}

/// Where the cursor stands after a successfully parsed statement of one
/// of the `element_success_ready` shapes.
pub open spec fn element_success_end(toks: Seq<Token>, pos: int) -> int {
    let t0 = tok_at(toks, pos);
    let t2 = tok_at(toks, pos + 2);
    if t0.kind == TokenKind::Start || t0.kind == TokenKind::End {
        pos + 1
    } else if t0.kind == TokenKind::Task || t0.kind == TokenKind::User
        || t0.kind == TokenKind::Service || t0.kind == TokenKind::Script {
        match attrs_scan(toks, pos + 2) {
            AttrScan::Done { end, .. } => end,
            _ => pos + 2,
        }
    } else if t0.kind == TokenKind::Call && t2.kind != TokenKind::Namespace {
        match attrs_scan(toks, pos + 2) {
            AttrScan::Done { end, .. } => end,
            _ => pos + 2,
        }
    } else if t0.kind == TokenKind::Call {
        match attrs_scan(toks, pos + 4) {
            AttrScan::Done { end, .. } => end,
            _ => pos + 4,
        }
    } else if t0.kind == TokenKind::Note {
        pos + 2
    } else {
        let q = gateway_brace_pos(toks, pos, t0.kind == TokenKind::Xor);
        match branches_scan(toks, q + 1, Seq::empty()) {
            BranchScan::Done { end, .. } => end + 1,
            BranchScan::Failed { .. } => q + 1,
        }
    }
}

impl Parser {
    /// Parses one element, keyed by its leading keyword: events, the task
    /// family, call activities, gateways, and the recursive containers
    /// (subprocess, pool with lanes, group), plus `note` annotations. Any
    /// other leading token is rejected without consuming it. Success
    /// always consumes at least one token.
    #[verifier::loop_isolation(false)]
    #[verifier::rlimit(60)]
    fn parse_process_element(&mut self) -> (r: Result<ProcessElement, Box<ParserError>>)
        requires
            old(self).wf(),
        ensures
            final(self).toks() == old(self).toks(),
            final(self).wf(),
            final(self).pos() >= old(self).pos(),
            (r matches Result::Ok(_)) ==> final(self).pos() > old(self).pos(),
            match r {
                Result::Ok(e) => element_ok_shape(old(self).toks(), old(self).pos(), &e),
                Result::Err(_) => true,
            },
            element_success_ready(old(self).toks(), old(self).pos()) ==> {
                &&& r matches Result::Ok(_)
                &&& final(self).pos()
                    == element_success_end(old(self).toks(), old(self).pos())
            },
            !is_element_keyword(tok_at(old(self).toks(), old(self).pos()).kind) ==> {
                &&& final(self).pos() == old(self).pos()
                &&& is_unexpected_err(
                    &r,
                    tok_at(old(self).toks(), old(self).pos()).text,
                    "process element"@,
                    tok_at(old(self).toks(), old(self).pos()).span,
                )
            },
        decreases old(self).toks().len() - old(self).pos(),
    {
        let ghost t0 = self.toks();
        let ghost p0 = self.pos();
        let span = self.current_span();

        match self.current_kind() {
            TokenKind::Start => {
                self.advance();
                let event_type = match self.parse_event_type() {
                    Ok(e) => e,
                    Err(e) => return Err(e),
                };
                let attributes = match self.parse_attributes() {
                    Ok(a) => a,
                    Err(e) => return Err(e),
                };

                Ok(ProcessElement::StartEvent { id: None, event_type, attributes, span })
            }
            TokenKind::End => {
                self.advance();
                let event_type = match self.parse_event_type() {
                    Ok(e) => e,
                    Err(e) => return Err(e),
                };
                let attributes = match self.parse_attributes() {
                    Ok(a) => a,
                    Err(e) => return Err(e),
                };

                Ok(ProcessElement::EndEvent { id: None, event_type, attributes, span })
            }
            TokenKind::Task => {
                self.advance();
                let id = match self.parse_identifier() {
                    Ok(i) => i,
                    Err(e) => return Err(e),
                };
                let attributes = match self.parse_attributes() {
                    Ok(a) => a,
                    Err(e) => return Err(e),
                };

                Ok(ProcessElement::Task { id, task_type: TaskType::Generic, attributes, span })
            }
            TokenKind::User => {
                self.advance();
                let id = match self.parse_identifier() {
                    Ok(i) => i,
                    Err(e) => return Err(e),
                };
                let attributes = match self.parse_attributes() {
                    Ok(a) => a,
                    Err(e) => return Err(e),
                };

                Ok(ProcessElement::Task { id, task_type: TaskType::User, attributes, span })
            }
            TokenKind::Service => {
                self.advance();
                let id = match self.parse_identifier() {
                    Ok(i) => i,
                    Err(e) => return Err(e),
                };
                let attributes = match self.parse_attributes() {
                    Ok(a) => a,
                    Err(e) => return Err(e),
                };

                Ok(ProcessElement::Task { id, task_type: TaskType::Service, attributes, span })
            }
            TokenKind::Script => {
                self.advance();
                let id = match self.parse_identifier() {
                    Ok(i) => i,
                    Err(e) => return Err(e),
                };
                let attributes = match self.parse_attributes() {
                    Ok(a) => a,
                    Err(e) => return Err(e),
                };

                Ok(ProcessElement::Task { id, task_type: TaskType::Script, attributes, span })
            }
            TokenKind::Call => {
                self.advance();
                let id = match self.parse_identifier() {
                    Ok(i) => i,
                    Err(e) => return Err(e),
                };
                let called_element = if self.check_token(&TokenKind::Namespace) {
                    self.advance();
                    let second = match self.parse_identifier() {
                        Ok(s) => s,
                        Err(e) => return Err(e),
                    };
                    let mut ce = id.clone();
                    ce.append("::");
                    ce.append(second.as_str());
                    ce
                } else {
                    id.clone()
                };
                let attributes = match self.parse_attributes() {
                    Ok(a) => a,
                    Err(e) => return Err(e),
                };

                Ok(ProcessElement::CallActivity { id, called_element, attributes, span })
            }
            TokenKind::Xor => {
                self.advance();
                let id = if self.check_token(&TokenKind::Identifier) {
                    match self.parse_identifier() {
                        Ok(i) => Some(i),
                        Err(e) => return Err(e),
                    }
                } else {
                    None
                };

                if self.check_token(&TokenKind::Question) {
                    self.advance();
                }

                match self.consume_token(&TokenKind::LeftBrace) {
                    Ok(_) => {}
                    Err(e) => return Err(e),
                }
                let branches = match self.parse_gateway_branches() {
                    Ok(b) => b,
                    Err(e) => return Err(e),
                };
                match self.consume_token(&TokenKind::RightBrace) {
                    Ok(_) => {}
                    Err(e) => return Err(e),
                }

                Ok(ProcessElement::Gateway {
                    id,
                    gateway_type: GatewayType::Exclusive,
                    branches,
                    span,
                })
            }
            TokenKind::And => {
                self.advance();
                let id = if self.check_token(&TokenKind::Identifier) {
                    match self.parse_identifier() {
                        Ok(i) => Some(i),
                        Err(e) => return Err(e),
                    }
                } else {
                    None
                };

                match self.consume_token(&TokenKind::LeftBrace) {
                    Ok(_) => {}
                    Err(e) => return Err(e),
                }
                let branches = match self.parse_gateway_branches() {
                    Ok(b) => b,
                    Err(e) => return Err(e),
                };
                match self.consume_token(&TokenKind::RightBrace) {
                    Ok(_) => {}
                    Err(e) => return Err(e),
                }

                Ok(ProcessElement::Gateway {
                    id,
                    gateway_type: GatewayType::Parallel,
                    branches,
                    span,
                })
            }
            TokenKind::Event => {
                self.advance();
                let event_type = match self.parse_event_type() {
                    Ok(Some(et)) => et,
                    Ok(None) => {
                        return Err(Box::new(ParserError::UnexpectedToken {
                            found: self.current_token().text,
                            expected: "event type (timer, message, etc.)".to_owned(),
                            span: self.current_span(),
                        }));
                    }
                    Err(e) => return Err(e),
                };

                let payload = if self.check_token(&TokenKind::StringLiteral)
                    || self.check_token(&TokenKind::NumberLiteral)
                    || self.check_token(&TokenKind::Identifier) {
                    Some(self.current_token().text)
                } else {
                    None
                };

                if payload.is_some() {
                    self.advance();
                }

                let attributes = match self.parse_attributes() {
                    Ok(a) => a,
                    Err(e) => return Err(e),
                };

                Ok(ProcessElement::IntermediateEvent {
                    id: None,
                    event_type,
                    payload,
                    attributes,
                    span,
                })
            }
            TokenKind::Subprocess => {
                self.advance();
                let id = match self.parse_identifier() {
                    Ok(i) => i,
                    Err(e) => return Err(e),
                };
                let attributes = match self.parse_attributes() {
                    Ok(a) => a,
                    Err(e) => return Err(e),
                };

                match self.consume_token(&TokenKind::LeftBrace) {
                    Ok(_) => {}
                    Err(e) => return Err(e),
                }

                let mut elements: Vec<ProcessElement> = Vec::new();
                let mut flows: Vec<Flow> = Vec::new();

                self.skip_whitespace_and_comments();

                while !self.check_token(&TokenKind::RightBrace) && !self.is_at_end()
                    invariant
                        self.wf(),
                        self.toks() == t0,
                        self.pos() > p0,
                    decreases t0.len() - self.pos(),
                {
                    match self.parse_process_element() {
                        Ok(element) => {
                            elements.push(element);
                        }
                        Err(_) => {
                            match self.parse_flow() {
                                Ok(flow) => {
                                    flows.push(flow);
                                }
                                Err(_) => {
                                    if self.is_at_end() {
                                        break;
                                    }
                                    self.advance();
                                }
                            }
                        }
                    }
                    self.skip_whitespace_and_comments();
                }

                match self.consume_token(&TokenKind::RightBrace) {
                    Ok(_) => {}
                    Err(e) => return Err(e),
                }

                Ok(ProcessElement::Subprocess { id, elements, flows, attributes, span })
            }
            TokenKind::Pool => {
                self.advance();
                let name = match self.parse_identifier() {
                    Ok(n) => n,
                    Err(e) => return Err(e),
                };

                match self.consume_token(&TokenKind::LeftBrace) {
                    Ok(_) => {}
                    Err(e) => return Err(e),
                }

                let mut lanes: Vec<Lane> = Vec::new();
                let mut elements: Vec<ProcessElement> = Vec::new();
                let mut flows: Vec<Flow> = Vec::new();

                self.skip_whitespace_and_comments();

                while !self.check_token(&TokenKind::RightBrace) && !self.is_at_end()
                    invariant
                        self.wf(),
                        self.toks() == t0,
                        self.pos() > p0,
                    decreases t0.len() - self.pos(),
                {
                    if self.check_token(&TokenKind::Lane) {
                        let lane = match self.parse_lane() {
                            Ok(l) => l,
                            Err(e) => return Err(e),
                        };
                        lanes.push(lane);
                    } else {
                        match self.parse_process_element() {
                            Ok(element) => {
                                elements.push(element);
                            }
                            Err(_) => {
                                match self.parse_flow() {
                                    Ok(flow) => {
                                        flows.push(flow);
                                    }
                                    Err(_) => {
                                        if self.is_at_end() {
                                            break;
                                        }
                                        self.advance();
                                    }
                                }
                            }
                        }
                    }
                    self.skip_whitespace_and_comments();
                }

                match self.consume_token(&TokenKind::RightBrace) {
                    Ok(_) => {}
                    Err(e) => return Err(e),
                }

                Ok(ProcessElement::Pool { name, lanes, elements, flows, span })
            }
            TokenKind::Group => {
                self.advance();
                let label = match self.parse_string_literal() {
                    Ok(l) => l,
                    Err(e) => return Err(e),
                };

                match self.consume_token(&TokenKind::LeftBrace) {
                    Ok(_) => {}
                    Err(e) => return Err(e),
                }

                let mut elements: Vec<ProcessElement> = Vec::new();
                self.skip_whitespace_and_comments();

                while !self.check_token(&TokenKind::RightBrace) && !self.is_at_end()
                    invariant
                        self.wf(),
                        self.toks() == t0,
                        self.pos() > p0,
                    decreases t0.len() - self.pos(),
                {
                    match self.parse_process_element() {
                        Ok(element) => {
                            elements.push(element);
                        }
                        Err(_) => {
                            if self.is_at_end() {
                                break;
                            }
                            self.advance();
                        }
                    }
                    self.skip_whitespace_and_comments();
                }

                match self.consume_token(&TokenKind::RightBrace) {
                    Ok(_) => {}
                    Err(e) => return Err(e),
                }

                Ok(ProcessElement::Group { label, elements, span })
            }
            TokenKind::Note => {
                self.advance();
                let text = match self.parse_string_literal() {
                    Ok(t) => t,
                    Err(e) => return Err(e),
                };

                Ok(ProcessElement::Annotation { text, span })
            }
            _ => Err(Box::new(ParserError::UnexpectedToken {
                found: self.current_token().text,
                expected: "process element".to_owned(),
                span: self.current_span(),
            })),
        }
    }

    /// Parses one lane inside a pool: `lane Name { elements }`, skipping a
    /// token whenever no element parses.
    #[verifier::loop_isolation(false)]
    fn parse_lane(&mut self) -> (r: Result<Lane, Box<ParserError>>)
        requires
            old(self).wf(),
        ensures
            final(self).toks() == old(self).toks(),
            final(self).wf(),
            final(self).pos() >= old(self).pos(),
            (r matches Result::Ok(_)) ==> final(self).pos() > old(self).pos(),
            match r {
                Result::Ok(l) => {
                    &&& tok_at(old(self).toks(), old(self).pos()).kind == TokenKind::Lane
                    &&& l.name@ == tok_at(old(self).toks(), old(self).pos() + 1).text
                    &&& l.span@ == tok_at(old(self).toks(), old(self).pos()).span
                },
                Result::Err(_) => true,
            },
        decreases old(self).toks().len() - old(self).pos(),
    {
        let ghost t0 = self.toks();
        let ghost p0 = self.pos();
        let span = self.current_span();
        match self.consume_token(&TokenKind::Lane) {
            Ok(_) => {}
            Err(e) => return Err(e),
        }
        let name = match self.parse_identifier() {
            Ok(n) => n,
            Err(e) => return Err(e),
        };

        match self.consume_token(&TokenKind::LeftBrace) {
            Ok(_) => {}
            Err(e) => return Err(e),
        }

        let mut elements: Vec<ProcessElement> = Vec::new();
        self.skip_whitespace_and_comments();

        while !self.check_token(&TokenKind::RightBrace) && !self.is_at_end()
            invariant
                self.wf(),
                self.toks() == t0,
                self.pos() > p0,
            decreases t0.len() - self.pos(),
        {
            match self.parse_process_element() {
                Ok(element) => {
                    elements.push(element);
                }
                Err(_) => {
                    if self.is_at_end() {
                        break;
                    }
                    self.advance();
                }
            }
            self.skip_whitespace_and_comments();
        }

        match self.consume_token(&TokenKind::RightBrace) {
            Ok(_) => {}
            Err(e) => return Err(e),
        }

        Ok(Lane { name, elements, span })
    }

    /// Parses one process declaration without outside help: on the first
    /// grammar failure inside the body, one token is skipped and parsing
    /// resumes. Used by the plain `parse` entry point.
    #[verifier::loop_isolation(false)]
    fn parse_process(&mut self) -> (r: Result<ProcessDeclaration, Box<ParserError>>)
        requires
            old(self).wf(),
        ensures
            final(self).toks() == old(self).toks(),
            final(self).wf(),
            final(self).pos() >= old(self).pos(),
            tok_at(old(self).toks(), old(self).pos()).kind == TokenKind::Process
                ==> final(self).pos() > old(self).pos(),
            match r {
                Result::Ok(p) => {
                    &&& tok_at(old(self).toks(), old(self).pos()).kind == TokenKind::Process
                    &&& p.name@ == tok_at(old(self).toks(), old(self).pos() + 1).text
                    &&& p.span@ == tok_at(old(self).toks(), old(self).pos()).span
                },
                Result::Err(_) => true,
            },
    {
        let ghost t0 = self.toks();
        let ghost p0 = self.pos();
        let start_span = self.current_span();
        match self.consume_token(&TokenKind::Process) {
            Ok(_) => {}
            Err(e) => return Err(e),
        }

        let name = match self.parse_identifier() {
            Ok(n) => n,
            Err(e) => return Err(e),
        };
        let attributes = match self.parse_attributes() {
            Ok(a) => a,
            Err(e) => return Err(e),
        };

        match self.consume_token(&TokenKind::LeftBrace) {
            Ok(_) => {}
            Err(e) => return Err(e),
        }

        let mut elements: Vec<ProcessElement> = Vec::new();
        let mut flows: Vec<Flow> = Vec::new();

        self.skip_whitespace_and_comments();

        while !self.check_token(&TokenKind::RightBrace) && !self.is_at_end()
            invariant
                self.wf(),
                self.toks() == t0,
                self.pos() > p0,
            decreases t0.len() - self.pos(),
        {
            match self.parse_process_element() {
                Ok(element) => {
                    elements.push(element);
                }
                Err(_) => {
                    match self.parse_flow() {
                        Ok(flow) => {
                            flows.push(flow);
                        }
                        Err(_) => {
                            if self.is_at_end() {
                                break;
                            }
                            self.advance();
                        }
                    }
                }
            }
            self.skip_whitespace_and_comments();
        }

        match self.consume_token(&TokenKind::RightBrace) {
            Ok(_) => {}
            Err(e) => return Err(e),
        }

        Ok(ProcessDeclaration {
            name,
            attributes,
            elements,
            flows,
            span: start_span,
        })
    }

    /// Parses one process declaration with full error recovery: each body
    /// statement is tried as an element, rewound and tried as a flow,
    /// handed to the recovery engine, and finally skipped one token at a
    /// time with a warning — so the body loop always terminates. A missing
    /// closing brace is recorded rather than fatal.
    #[verifier::loop_isolation(false)]
    #[verifier::rlimit(100)]
    fn parse_process_with_recovery(
        &mut self,
        recovery: &mut ErrorRecovery,
    ) -> (r: Result<ProcessDeclaration, Box<ParserError>>)
        requires
            old(self).wf(),
        ensures
            final(self).toks() == old(self).toks(),
            final(self).wf(),
            final(self).pos() >= old(self).pos(),
            tok_at(old(self).toks(), old(self).pos()).kind == TokenKind::Process
                ==> final(self).pos() > old(self).pos(),
            old(recovery).errors@.is_prefix_of(final(recovery).errors@),
            match r {
                Result::Ok(p) => {
                    &&& tok_at(old(self).toks(), old(self).pos()).kind == TokenKind::Process
                    &&& p.name@ == tok_at(old(self).toks(), old(self).pos() + 1).text
                    &&& p.span@ == tok_at(old(self).toks(), old(self).pos()).span
                },
                Result::Err(_) => true,
            },
            (tok_at(old(self).toks(), old(self).pos()).kind == TokenKind::Process
                && tok_at(old(self).toks(), old(self).pos() + 1).kind == TokenKind::Identifier
                && tok_at(old(self).toks(), old(self).pos() + 2).kind == TokenKind::LeftBrace)
                ==> (r matches Result::Ok(_)),
            (r matches Result::Err(_))
                ==> final(recovery).errors@ == old(recovery).errors@,
            (tok_at(old(self).toks(), old(self).pos()).kind == TokenKind::Process
                && tok_at(old(self).toks(), old(self).pos() + 1).kind == TokenKind::Identifier
                && tok_at(old(self).toks(), old(self).pos() + 2).kind == TokenKind::LeftBrace
                && ({
                    let b0 = skip_trivia(old(self).toks(), old(self).pos() + 3);
                    &&& b0 < old(self).toks().len()
                    &&& !is_element_keyword(tok_at(old(self).toks(), b0).kind)
                    &&& tok_at(old(self).toks(), b0).kind != TokenKind::Identifier
                    &&& tok_at(old(self).toks(), b0).kind != TokenKind::RightBrace
                    &&& tok_at(old(self).toks(), b0).kind != TokenKind::Eof
                })) ==> ({
                let b0 = skip_trivia(old(self).toks(), old(self).pos() + 3);
                let k = old(recovery).errors@.len() as int;
                &&& final(recovery).errors@.len() >= k + 2
                &&& final(recovery).errors@[k]@.message
                    == "Cannot recover from token '"@ + tok_at(old(self).toks(), b0).text + "'"@
                &&& final(recovery).errors@[k + 1]@.message
                    == "Skipping unexpected token '"@ + tok_at(old(self).toks(), b0).text + "'"@
                &&& final(recovery).errors@[k + 1]@.span == tok_at(old(self).toks(), b0).span
                &&& final(recovery).errors@[k + 1]@.severity == ErrorSeverity::Warning
            }),
            (tok_at(old(self).toks(), old(self).pos()).kind == TokenKind::Process
                && tok_at(old(self).toks(), old(self).pos() + 1).kind == TokenKind::Identifier
                && tok_at(old(self).toks(), old(self).pos() + 2).kind == TokenKind::LeftBrace
                && element_success_ready(
                    old(self).toks(),
                    skip_trivia(old(self).toks(), old(self).pos() + 3),
                )) ==> match r {
                Result::Ok(p) => p.elements@.len() >= 1 && element_ok_shape(
                    old(self).toks(),
                    skip_trivia(old(self).toks(), old(self).pos() + 3),
                    &p.elements@[0],
                ),
                Result::Err(_) => false,
            },
            (tok_at(old(self).toks(), old(self).pos()).kind == TokenKind::Process
                && tok_at(old(self).toks(), old(self).pos() + 1).kind == TokenKind::Identifier
                && tok_at(old(self).toks(), old(self).pos() + 2).kind == TokenKind::LeftBrace
                && (body_run(old(self).toks(), old(self).pos() + 3, Seq::empty())
                    matches Option::Some(_)))
                ==> match r {
                Result::Ok(p) => ({
                    let ps = match body_run(old(self).toks(), old(self).pos() + 3, Seq::empty()) {
                        Option::Some(pr) => pr.0,
                        Option::None => Seq::empty(),
                    };
                    let rb = match body_run(old(self).toks(), old(self).pos() + 3, Seq::empty()) {
                        Option::Some(pr) => pr.1,
                        Option::None => 0,
                    };
                    &&& elements_match(old(self).toks(), ps, p.elements@)
                    &&& p.flows@.len() == 0
                    &&& final(recovery).errors@ == old(recovery).errors@
                    &&& final(self).pos() == rb + 1
                }),
                Result::Err(_) => false,
            },
            match r {
                Result::Ok(_) => (final(self).pos() >= 1
                        && tok_at(old(self).toks(), final(self).pos() - 1).kind
                            == TokenKind::RightBrace)
                    || (spec_at_end(old(self).toks(), final(self).pos())
                        && final(recovery).errors@.len() > old(recovery).errors@.len()
                        && final(recovery).errors@.last()@.message
                            == "Missing closing brace for process"@
                        && final(recovery).errors@.last()@.span
                            == tok_at(old(self).toks(), final(self).pos()).span
                        && final(recovery).errors@.last()@.severity == ErrorSeverity::Error),
                Result::Err(_) => true,
            },
    {
        let ghost t0 = self.toks();
        let ghost p0 = self.pos();
        let start_span = self.current_span();
        match self.consume_token(&TokenKind::Process) {
            Ok(_) => {}
            Err(e) => return Err(e),
        }

        let name = match self.parse_identifier() {
            Ok(n) => n,
            Err(e) => return Err(e),
        };
        let attributes = match self.parse_attributes() {
            Ok(a) => a,
            Err(_) => Attributes::new(),
        };

        match self.consume_token(&TokenKind::LeftBrace) {
            Ok(_) => {}
            Err(e) => return Err(e),
        }

        let mut elements: Vec<ProcessElement> = Vec::new();
        let mut flows: Vec<Flow> = Vec::new();

        self.skip_whitespace_and_comments();

        let ghost b0 = skip_trivia(t0, p0 + 3);
        let ghost k0 = old(recovery).errors@.len() as int;
        let ghost wfb = tok_at(t0, p0).kind == TokenKind::Process
            && tok_at(t0, p0 + 1).kind == TokenKind::Identifier
            && tok_at(t0, p0 + 2).kind == TokenKind::LeftBrace
            && (body_run(t0, p0 + 3, Seq::empty()) matches Option::Some(_));
        let ghost bps: Seq<int> = match body_run(t0, p0 + 3, Seq::empty()) {
            Option::Some(pr) => pr.0,
            Option::None => Seq::empty(),
        };
        let ghost brb: int = match body_run(t0, p0 + 3, Seq::empty()) {
            Option::Some(pr) => pr.1,
            Option::None => 0,
        };
        let ghost mut gps: Seq<int> = Seq::empty();
        proof {
            if wfb {
                lemma_skip_trivia_idempotent(t0, p0 + 3);
                lemma_body_run_skip(t0, p0 + 3, Seq::empty());
            }
        }
        let ghost elem_case = tok_at(t0, p0).kind == TokenKind::Process
            && tok_at(t0, p0 + 1).kind == TokenKind::Identifier
            && tok_at(t0, p0 + 2).kind == TokenKind::LeftBrace
            && element_success_ready(t0, b0);
        let ghost skip_case = tok_at(t0, p0).kind == TokenKind::Process
            && tok_at(t0, p0 + 1).kind == TokenKind::Identifier
            && tok_at(t0, p0 + 2).kind == TokenKind::LeftBrace
            && b0 < t0.len()
            && !is_element_keyword(tok_at(t0, b0).kind)
            && tok_at(t0, b0).kind != TokenKind::Identifier
            && tok_at(t0, b0).kind != TokenKind::RightBrace
            && tok_at(t0, b0).kind != TokenKind::Eof;
        while !self.check_token(&TokenKind::RightBrace) && !self.is_at_end()
            invariant
                self.wf(),
                self.toks() == t0,
                self.pos() > p0,
                old(recovery).errors@.is_prefix_of(recovery.errors@),
                elem_case ==> (elements@.len() >= 1
                        && element_ok_shape(t0, b0, &elements@[0]))
                    || (self.pos() == b0 && elements@.len() == 0),
                wfb ==> {
                    &&& elements@.len() == gps.len()
                    &&& forall|i: int| 0 <= i < gps.len()
                        ==> #[trigger] element_ok_shape(t0, gps[i], &elements@[i])
                    &&& flows@.len() == 0
                    &&& recovery.errors@ == old(recovery).errors@
                    &&& skip_trivia(t0, self.pos()) == self.pos()
                    &&& body_run(t0, p0 + 3, Seq::empty()) == body_run(t0, self.pos(), gps)
                },
                skip_case ==> (recovery.errors@.len() >= k0 + 2
                        && recovery.errors@[k0]@.message
                            == "Cannot recover from token '"@ + tok_at(t0, b0).text + "'"@
                        && recovery.errors@[k0 + 1]@.message
                            == "Skipping unexpected token '"@ + tok_at(t0, b0).text + "'"@
                        && recovery.errors@[k0 + 1]@.span == tok_at(t0, b0).span
                        && recovery.errors@[k0 + 1]@.severity == ErrorSeverity::Warning)
                    || (self.pos() == b0 && recovery.errors@ == old(recovery).errors@),
            decreases t0.len() - self.pos(),
        {
            let current_pos = self.position;
            let ghost ek = elements@.len() as int;
            let ghost pos_it = self.pos();

            match self.parse_process_element() {
                Ok(element) => {
                    elements.push(element);
                    proof {
                        if wfb {
                            gps = gps.push(pos_it);
                            lemma_skip_trivia_idempotent(t0, self.pos());
                            lemma_body_run_skip(t0, self.pos(), gps);
                        }
                    }
                }
                Err(_) => {
                    proof {
                        if wfb {
                            assert(skip_trivia(t0, pos_it) == pos_it);
                            assert(tok_at(t0, pos_it).kind != TokenKind::RightBrace);
                            assert(element_success_ready(t0, pos_it));
                            assert(false);
                        }
                    }
                    self.position = current_pos;
                    match self.parse_flow() {
                        Ok(flow) => {
                            flows.push(flow);
                        }
                        Err(_) => {
                            self.position = current_pos;

                            if let Some((recovered_element, new_pos)) =
                                recovery.recover_process_element(
                                    self.tokens.as_slice(),
                                    self.position,
                                ) {
                                elements.push(recovered_element);
                                self.position = new_pos;
                            } else if let Some((recovered_flow, new_pos)) =
                                recovery.recover_flow(self.tokens.as_slice(), self.position) {
                                flows.push(recovered_flow);
                                self.position = new_pos;
                            } else {
                                let mut message = "Skipping unexpected token '".to_owned();
                                message.append(self.current_token().text.as_str());
                                message.append("'");
                                recovery.errors.push(ParseError {
                                    message,
                                    span: self.current_span(),
                                    severity: ErrorSeverity::Warning,
                                });
                                if self.is_at_end() {
                                    break;
                                }
                                self.advance();
                            }
                        }
                    }
                }
            }

            self.skip_whitespace_and_comments();
        }

        proof {
            if wfb {
                assert(body_run(t0, self.pos(), gps)
                    == Option::Some((bps, brb)));
            }
        }
        if self.check_token(&TokenKind::RightBrace) {
            self.advance();
        } else {
            recovery.errors.push(ParseError {
                message: "Missing closing brace for process".to_owned(),
                span: self.current_span(),
                severity: ErrorSeverity::Error,
            });
        }

        Ok(ProcessDeclaration {
            name,
            attributes,
            elements,
            flows,
            span: start_span,
        })
    }

    /// Parses a whole document with error recovery: imports, then
    /// processes; a failed statement is recorded as an error and parsing
    /// jumps to the next synchronization point. Always returns a document;
    /// the token sequence is read, never changed; the cursor strictly
    /// advances through every recovery, so the parse always terminates.
    #[verifier::loop_isolation(false)]
    pub fn parse_with_recovery(&mut self) -> (r: AstDocument)
        requires
            old(self).wf(),
        ensures
            final(self).toks() == old(self).toks(),
            final(self).wf(),
            final(self).pos() >= old(self).pos(),
            spec_at_end(old(self).toks(), skip_trivia(old(self).toks(), old(self).pos())) ==> {
                &&& r.imports@.len() == 0
                &&& r.processes@.len() == 0
                &&& r.errors@.len() == 0
            },
            first_process_ready(old(self).toks(), old(self).pos()) ==> {
                &&& r.processes@.len() >= 1
                &&& r.processes@[0].name@ == tok_at(
                    old(self).toks(),
                    skip_trivia(old(self).toks(), old(self).pos()) + 1,
                ).text
                &&& r.processes@[0].span@ == tok_at(
                    old(self).toks(),
                    skip_trivia(old(self).toks(), old(self).pos()),
                ).span
            },
            !spec_at_end(old(self).toks(), final(self).pos()) ==> {
                &&& r.errors@.len() > 0
                &&& r.errors@.last()@.message
                    == "Unexpected token '"@ + tok_at(old(self).toks(), final(self).pos()).text
                        + "'"@
                &&& r.errors@.last()@.span == tok_at(old(self).toks(), final(self).pos()).span
                &&& r.errors@.last()@.severity == ErrorSeverity::Error
            },
            (first_process_ready(old(self).toks(), old(self).pos())
                && element_success_ready(
                    old(self).toks(),
                    skip_trivia(
                        old(self).toks(),
                        skip_trivia(old(self).toks(), old(self).pos()) + 3,
                    ),
                )) ==> {
                &&& r.processes@.len() >= 1
                &&& r.processes@[0].elements@.len() >= 1
                &&& element_ok_shape(
                    old(self).toks(),
                    skip_trivia(
                        old(self).toks(),
                        skip_trivia(old(self).toks(), old(self).pos()) + 3,
                    ),
                    &r.processes@[0].elements@[0],
                )
            },
            ({
                let toks = old(self).toks();
                let s0 = skip_trivia(toks, old(self).pos());
                let run = body_run(toks, s0 + 3, Seq::empty());
                let ps = match run { Option::Some(pr) => pr.0, Option::None => Seq::empty() };
                let rb = match run { Option::Some(pr) => pr.1, Option::None => 0 };
                (first_process_ready(toks, old(self).pos())
                    && (run matches Option::Some(_))
                    && spec_at_end(toks, skip_trivia(toks, rb + 1))) ==> {
                    &&& r.processes@.len() == 1
                    &&& elements_match(toks, ps, r.processes@[0].elements@)
                    &&& r.processes@[0].flows@.len() == 0
                    &&& r.errors@.len() == 0
                }
            }),
    {
        let ghost t0 = self.toks();
        let ghost p0 = self.pos();
        let ghost s0 = skip_trivia(t0, p0);
        let ghost done0 = spec_at_end(t0, s0);
        let ghost fp = first_process_ready(t0, p0);
        let ghost fe = fp && element_success_ready(t0, skip_trivia(t0, s0 + 3));
        let ghost run0 = body_run(t0, s0 + 3, Seq::empty());
        let ghost bps0: Seq<int> = match run0 {
            Option::Some(pr) => pr.0,
            Option::None => Seq::empty(),
        };
        let ghost brb0: int = match run0 {
            Option::Some(pr) => pr.1,
            Option::None => 0,
        };
        let ghost fw = fp && (run0 matches Option::Some(_))
            && spec_at_end(t0, skip_trivia(t0, brb0 + 1));
        let mut document = AstDocument::new();
        let mut recovery = ErrorRecovery::new();

        self.skip_whitespace_and_comments();

        while self.check_token(&TokenKind::Import)
            invariant
                self.wf(),
                self.toks() == t0,
                old(self).pos() <= self.pos(),
                done0 ==> self.pos() == s0 && document.imports@.len() == 0
                    && document.processes@.len() == 0 && document.errors@.len() == 0
                    && recovery.errors@.len() == 0,
                fp ==> self.pos() == s0 && document.processes@.len() == 0
                    && document.errors@.len() == 0 && recovery.errors@.len() == 0,
            decreases t0.len() - self.pos(),
        {
            match self.parse_import() {
                Ok(import) => {
                    document.imports.push(import);
                }
                Err(err) => {
                    document.add_error(err.message(), self.current_span());

                    let sync = recovery.find_sync_point(self.tokens.as_slice(), self.position);
                    self.position = sync;
                }
            }
            self.skip_whitespace_and_comments();
        }

        while self.check_token(&TokenKind::Process)
            invariant
                self.wf(),
                self.toks() == t0,
                old(self).pos() <= self.pos(),
                done0 ==> self.pos() == s0 && document.imports@.len() == 0
                    && document.processes@.len() == 0 && document.errors@.len() == 0
                    && recovery.errors@.len() == 0,
                fp ==> (document.processes@.len() >= 1
                        && document.processes@[0].name@ == tok_at(t0, s0 + 1).text
                        && document.processes@[0].span@ == tok_at(t0, s0).span)
                    || (document.processes@.len() == 0 && self.pos() == s0),
                fe ==> (document.processes@.len() >= 1
                        && document.processes@[0].elements@.len() >= 1
                        && element_ok_shape(
                            t0,
                            skip_trivia(t0, s0 + 3),
                            &document.processes@[0].elements@[0],
                        ))
                    || (document.processes@.len() == 0 && self.pos() == s0),
                fw ==> (document.processes@.len() == 1
                        && elements_match(t0, bps0, document.processes@[0].elements@)
                        && document.processes@[0].flows@.len() == 0
                        && document.errors@.len() == 0
                        && recovery.errors@.len() == 0
                        && spec_at_end(t0, self.pos()))
                    || (document.processes@.len() == 0 && document.errors@.len() == 0
                        && recovery.errors@.len() == 0 && self.pos() == s0),
            decreases t0.len() - self.pos(),
        {
            let ghost pos_iter = self.pos();
            let ghost procs_iter = document.processes@;
            match self.parse_process_with_recovery(&mut recovery) {
                Ok(process) => {
                    document.processes.push(process);
                    proof {
                        if fw && pos_iter == s0 && procs_iter.len() == 0 {
                            assert(document.processes@.len() == 1);
                        }
                    }
                }
                Err(err) => {
                    proof {
                        if fw && pos_iter == s0 {
                            assert(false);
                        }
                    }
                    document.add_error(err.message(), self.current_span());

                    let sync = recovery.find_sync_point(self.tokens.as_slice(), self.position);
                    self.position = sync;
                }
            }
            self.skip_whitespace_and_comments();
        }

        let ghost procs_mid = document.processes@;
        let ghost imports_mid = document.imports@;
        let mut k: usize = 0;
        while k < recovery.errors.len()
            invariant
                k <= recovery.errors@.len(),
                document.processes@ == procs_mid,
                document.imports@ == imports_mid,
                done0 ==> recovery.errors@.len() == 0 && document.errors@.len() == 0,
                fw ==> recovery.errors@.len() == 0 && document.errors@.len() == 0,
            decreases recovery.errors@.len() - k,
        {
            document.errors.push(recovery.errors[k].clone());
            k = k + 1;
        }

        if !self.is_at_end() && !self.check_token(&TokenKind::Eof) {
            let mut message = "Unexpected token '".to_owned();
            message.append(self.current_token().text.as_str());
            message.append("'");
            document.add_error(message, self.current_span());
        }

        document
    }

    /// Parses a whole document without the recovery engine: a failed
    /// statement is recorded and the cursor skips to the next statement
    /// keyword. Always returns a document.
    #[verifier::loop_isolation(false)]
    pub fn parse(&mut self) -> (r: AstDocument)
        requires
            old(self).wf(),
        ensures
            final(self).toks() == old(self).toks(),
            final(self).wf(),
            final(self).pos() >= old(self).pos(),
            spec_at_end(old(self).toks(), skip_trivia(old(self).toks(), old(self).pos())) ==> {
                &&& r.imports@.len() == 0
                &&& r.processes@.len() == 0
                &&& r.errors@.len() == 0
            },
            first_process_ready(old(self).toks(), old(self).pos())
                ==> r.processes@.len() + r.errors@.len() >= 1,
            !spec_at_end(old(self).toks(), final(self).pos()) ==> {
                &&& r.errors@.len() > 0
                &&& r.errors@.last()@.message
                    == "Unexpected token '"@ + tok_at(old(self).toks(), final(self).pos()).text
                        + "'"@
                &&& r.errors@.last()@.span == tok_at(old(self).toks(), final(self).pos()).span
                &&& r.errors@.last()@.severity == ErrorSeverity::Error
            },
    {
        let ghost t0 = self.toks();
        let ghost p0 = self.pos();
        let ghost s0 = skip_trivia(t0, p0);
        let ghost done0 = spec_at_end(t0, s0);
        let ghost fp = first_process_ready(t0, p0);
        let mut document = AstDocument::new();

        self.skip_whitespace_and_comments();

        while self.check_token(&TokenKind::Import)
            invariant
                self.wf(),
                self.toks() == t0,
                old(self).pos() <= self.pos(),
                done0 ==> self.pos() == s0 && document.imports@.len() == 0
                    && document.processes@.len() == 0 && document.errors@.len() == 0,
                fp ==> self.pos() == s0 && document.processes@.len() == 0
                    && document.errors@.len() == 0,
            decreases t0.len() - self.pos(),
        {
            match self.parse_import() {
                Ok(import) => {
                    document.imports.push(import);
                }
                Err(err) => {
                    document.add_error(err.message(), self.current_span());

                    self.recover_to_next_statement();
                }
            }
            self.skip_whitespace_and_comments();
        }

        while self.check_token(&TokenKind::Process)
            invariant
                self.wf(),
                self.toks() == t0,
                old(self).pos() <= self.pos(),
                done0 ==> self.pos() == s0 && document.imports@.len() == 0
                    && document.processes@.len() == 0 && document.errors@.len() == 0,
                fp ==> document.processes@.len() + document.errors@.len() >= 1
                    || (document.processes@.len() == 0 && document.errors@.len() == 0
                        && self.pos() == s0),
            decreases t0.len() - self.pos(),
        {
            match self.parse_process() {
                Ok(process) => {
                    document.processes.push(process);
                }
                Err(err) => {
                    document.add_error(err.message(), self.current_span());

                    self.recover_to_next_statement();
                }
            }

            self.skip_whitespace_and_comments();
        }

        if !self.is_at_end() && !self.check_token(&TokenKind::Eof) {
            let mut message = "Unexpected token '".to_owned();
            message.append(self.current_token().text.as_str());
            message.append("'");
            document.add_error(message, self.current_span());
        }

        document
    }
}

/// Parses a token sequence into a document, with error recovery. Total:
/// every input yields a document whose error list reports what went wrong.
/// A stream with nothing but trivia before its end yields the empty
/// document; one whose first statement opens `process Name {` yields at
/// least that process, under that name.
pub fn parse_tokens(tokens: Vec<Token>) -> (r: AstDocument)
    ensures
        spec_at_end(tokens@, skip_trivia(tokens@, 0)) ==> {
            &&& r.imports@.len() == 0
            &&& r.processes@.len() == 0
            &&& r.errors@.len() == 0
        },
        first_process_ready(tokens@, 0) ==> {
            &&& r.processes@.len() >= 1
            &&& r.processes@[0].name@ == tok_at(tokens@, skip_trivia(tokens@, 0) + 1).text
            &&& r.processes@[0].span@ == tok_at(tokens@, skip_trivia(tokens@, 0)).span
        },
        (first_process_ready(tokens@, 0) && element_success_ready(
            tokens@,
            skip_trivia(tokens@, skip_trivia(tokens@, 0) + 3),
        )) ==> {
            &&& r.processes@.len() >= 1
            &&& r.processes@[0].elements@.len() >= 1
            &&& element_ok_shape(
                tokens@,
                skip_trivia(tokens@, skip_trivia(tokens@, 0) + 3),
                &r.processes@[0].elements@[0],
            )
        },
        ({
            let s0 = skip_trivia(tokens@, 0);
            let run = body_run(tokens@, s0 + 3, Seq::empty());
            let ps = match run { Option::Some(pr) => pr.0, Option::None => Seq::empty() };
            let rb = match run { Option::Some(pr) => pr.1, Option::None => 0 };
            (first_process_ready(tokens@, 0)
                && (run matches Option::Some(_))
                && spec_at_end(tokens@, skip_trivia(tokens@, rb + 1))) ==> {
                &&& r.processes@.len() == 1
                &&& elements_match(tokens@, ps, r.processes@[0].elements@)
                &&& r.processes@[0].flows@.len() == 0
                &&& r.errors@.len() == 0
            }
        }),
{
    let mut parser = Parser::new(tokens);

    parser.parse_with_recovery()
}

/// Parses a token sequence with error recovery and then runs semantic
/// validation, merging every semantic diagnostic into the document's error
/// list. Total: every input yields a document; parsing and validating an
/// empty stream yields the empty document, and a leading `process Name {`
/// statement still yields its process.
pub fn parse_tokens_with_validation(tokens: Vec<Token>) -> (r: AstDocument)
    ensures
        spec_at_end(tokens@, skip_trivia(tokens@, 0)) ==> {
            &&& r.imports@.len() == 0
            &&& r.processes@.len() == 0
            &&& r.errors@.len() == 0
        },
        first_process_ready(tokens@, 0) ==> {
            &&& r.processes@.len() >= 1
            &&& r.processes@[0].name@ == tok_at(tokens@, skip_trivia(tokens@, 0) + 1).text
            &&& r.processes@[0].span@ == tok_at(tokens@, skip_trivia(tokens@, 0)).span
        },
{
    let mut document = parse_tokens(tokens);
    proof {
        if document.processes@.len() == 0 {
            assert(crate::parser::validator::processes_errors(document.processes@, 0)
                =~= Seq::empty());
            assert(crate::parser::validator::start_warnings(document.processes@, 0)
                =~= Seq::empty());
            assert(crate::parser::validator::document_errors(&document).len() == 0);
        }
    }
    match crate::parser::validator::validate_syntax(&document) {
        Ok(()) => document,
        Err(mut semantic_errors) => {
            document.errors.append(&mut semantic_errors);
            document
        }
    }
}

/// Whether a string is a plain decimal number (digits, optional dot and
/// more digits).
fn is_plain_number_str(t: &str) -> (r: bool)
    ensures
        r == is_plain_number(t@),
{
    let s = crate::lexer::chars_of(t);
    let d1 = crate::lexer::digit_run_end_ex(&s, 0);
    if d1 == 0 {
        return false;
    }
    if d1 == s.len() {
        return true;
    }
    if s[d1] == '.' && d1 + 1 < s.len() {
        let d2 = crate::lexer::digit_run_end_ex(&s, d1 + 1);
        d2 == s.len()
    } else {
        false
    }
}

} // verus!
