//! The pre-parse context checker: one heuristic pass over the raw token
//! sequence, independent of parser state. It flags identifiers at statement
//! start that look like misspelled keywords, stray unknown characters,
//! lone `-` characters that were probably meant as `->`, and gateways whose
//! brace blocks never open or never close. Everything it reports is
//! advisory: parsing proceeds regardless.

use vstd::prelude::*;
use vstd::string::*;
use crate::diagnostics::{string_views, DiagnosticError, DiagnosticErrorModel, Severity};
use crate::diagnostics::suggestions::{
    detect_keyword_typo, is_likely_keyword_typo, keyword_views, similarity_ppm, spec_suggest,
    suggest_keywords,
};
use crate::lexer::{Span, Token, TokenKind};
use crate::parser::{is_trivia_kind, tok_at};
use crate::text::str_eq;

verus! {

/// The models of a diagnostic list.
pub open spec fn diag_models(es: Seq<DiagnosticError>) -> Seq<crate::diagnostics::DiagnosticErrorModel> {
    es.map_values(|e: DiagnosticError| e@)
}

/// The arrow token kinds.
pub open spec fn is_arrow_kind(k: TokenKind) -> bool {
    k == TokenKind::SequenceFlow || k == TokenKind::MessageFlow
        || k == TokenKind::DefaultFlow || k == TokenKind::Association
}

/// Whether the identifier at `i` stands in a "contextual" position, where
/// keyword checking would misfire: a call-like use before `(`, an arrow on
/// either side, or a following lone `-` (a broken arrow in the making).
pub open spec fn spec_is_contextual(toks: Seq<Token>, i: int) -> bool {
    ||| tok_at(toks, i + 1).kind == TokenKind::LeftParen
    ||| (i > 0 && is_arrow_kind(tok_at(toks, i - 1).kind))
    ||| is_arrow_kind(tok_at(toks, i + 1).kind)
    ||| tok_at(toks, i + 1).text == "-"@
}

/// The backward scan of the statement-start test: crossing only
/// identifiers and literals, stopping at a brace or newline (statement
/// start) or anything else (not).
pub open spec fn stmt_start_scan(toks: Seq<Token>, j: int) -> bool
    decreases j + 1 when j < toks.len()
{
    if j < 0 {
        false
    } else if toks[j]@.kind == TokenKind::LeftBrace || toks[j]@.kind == TokenKind::RightBrace
        || toks[j]@.kind == TokenKind::Newline {
        true
    } else if toks[j]@.kind == TokenKind::Identifier
        || toks[j]@.kind == TokenKind::StringLiteral
        || toks[j]@.kind == TokenKind::NumberLiteral {
        stmt_start_scan(toks, j - 1)
    } else {
        false
    }
}

/// Whether index `i` starts a statement: the very first token, or only
/// identifiers and literals back to a brace or newline.
pub open spec fn spec_is_statement_start(toks: Seq<Token>, i: int) -> bool {
    i == 0 || stmt_start_scan(toks, i - 1)
}

/// Whether a lone `-` at `i` sits between two identifiers, which makes it
/// look like a broken flow arrow.
pub open spec fn spec_flow_context(toks: Seq<Token>, i: int) -> bool {
    i > 0 && tok_at(toks, i - 1).kind == TokenKind::Identifier
        && tok_at(toks, i + 1).kind == TokenKind::Identifier
}

/// The first index at or after `j` holding something other than newlines
/// and comments, or -1.
pub open spec fn next_significant(toks: Seq<Token>, j: int) -> int
    decreases toks.len() - j when 0 <= j <= toks.len()
{
    if j >= toks.len() {
        -1
    } else if is_trivia_kind(toks[j]@.kind) {
        next_significant(toks, j + 1)
    } else {
        j
    }
}

proof fn lemma_next_significant_bounds(toks: Seq<Token>, j: int)
    requires
        0 <= j <= toks.len(),
    ensures
        next_significant(toks, j) == -1 || j <= next_significant(toks, j) < toks.len(),
    decreases toks.len() - j,
{
    if j < toks.len() && is_trivia_kind(toks[j]@.kind) {
        lemma_next_significant_bounds(toks, j + 1);
    }
}

/// Whether gateway-branch evidence (`[` or `=>`) appears within the next
/// `left` significant tokens (newlines and comments do not count), before
/// any `}`.
pub open spec fn gw_conditions_ahead(toks: Seq<Token>, j: int, left: int) -> bool
    decreases toks.len() - j when 0 <= j <= toks.len()
{
    if left <= 0 || j >= toks.len() {
        false
    } else if is_trivia_kind(toks[j]@.kind) {
        gw_conditions_ahead(toks, j + 1, left)
    } else if toks[j]@.kind == TokenKind::LeftBracket
        || toks[j]@.kind == TokenKind::DefaultFlow {
        true
    } else if toks[j]@.kind == TokenKind::RightBrace {
        false
    } else {
        gw_conditions_ahead(toks, j + 1, left - 1)
    }
}

/// Whether the block whose `{` sits just before `j` ever closes: the
/// depth-tracked scan reaches depth zero before the tokens run out. Only a
/// scan that exhausts the stream leaves the block unclosed; an empty block
/// closes like any other.
pub open spec fn gw_block_closes(toks: Seq<Token>, j: int, depth: int) -> bool
    decreases toks.len() - j when 0 <= j <= toks.len()
{
    if j >= toks.len() {
        false
    } else if toks[j]@.kind == TokenKind::LeftBrace {
        gw_block_closes(toks, j + 1, depth + 1)
    } else if toks[j]@.kind == TokenKind::RightBrace {
        if depth == 1 {
            true
        } else {
            gw_block_closes(toks, j + 1, depth - 1)
        }
    } else {
        gw_block_closes(toks, j + 1, depth)
    }
}

/// The six single characters that legitimately appear while a
/// multi-character operator is being typed; they are never flagged.
pub open spec fn operator_fragment(t: Seq<char>) -> bool {
    t == "<"@ || t == ">"@ || t == "="@ || t == "!"@ || t == "&"@ || t == "|"@
}

/// The diagnostic an unknown token earns: none for an operator fragment,
/// else one syntax error naming the stray text.
pub open spec fn unknown_diag(tok: crate::lexer::TokenModel) -> Seq<DiagnosticErrorModel> {
    if operator_fragment(tok.text) {
        Seq::empty()
    } else {
        seq![DiagnosticErrorModel::SyntaxError {
            message: "Unknown token '"@ + tok.text + "'"@,
            span: tok.span,
            severity: Severity::Error,
            suggestions: Seq::empty(),
        }]
    }
}

/// The diagnostic an identifier earns: nothing in a contextual position or
/// off statement start; a confident correction when the best keyword
/// scores above 0.75; ranked suggestions when some keyword scores strictly
/// between 0.6 and 1; else nothing.
pub open spec fn typo_diag(toks: Seq<Token>, i: int) -> Seq<DiagnosticErrorModel> {
    let t = toks[i]@;
    if spec_is_contextual(toks, i) {
        Seq::empty()
    } else if !spec_is_statement_start(toks, i) {
        Seq::empty()
    } else {
        let sugg = spec_suggest(t.text, keyword_views(), 3);
        if sugg.len() > 0 && similarity_ppm(t.text, sugg[0]) > 750000 {
            seq![DiagnosticErrorModel::UnexpectedToken {
                found: t.text,
                expected: "keyword (did you mean '"@ + sugg[0] + "'?)"@,
                span: t.span,
                suggestions: seq![sugg[0]],
            }]
        } else if exists|j: int| 0 <= j < keyword_views().len()
            && 600000 < similarity_ppm(t.text, #[trigger] keyword_views()[j]) < 1000000 {
            seq![DiagnosticErrorModel::UnexpectedToken {
                found: t.text,
                expected: "BPMN keyword"@,
                span: t.span,
                suggestions: sugg,
            }]
        } else {
            Seq::empty()
        }
    }
}

/// The identifier and unknown-token diagnostics of the tokens from `i` on,
/// in token order.
pub open spec fn token_pass(toks: Seq<Token>, i: int) -> Seq<DiagnosticErrorModel>
    decreases toks.len() - i when 0 <= i <= toks.len()
{
    if i >= toks.len() {
        Seq::empty()
    } else {
        let here = if toks[i]@.kind == TokenKind::Identifier {
            typo_diag(toks, i)
        } else if toks[i]@.kind == TokenKind::Unknown {
            unknown_diag(toks[i]@)
        } else {
            Seq::empty()
        };
        here + token_pass(toks, i + 1)
    }
}

/// The diagnostic a lone `-` earns: one syntax error suggesting `->` when
/// it is not followed by `>` but sits between two identifiers.
pub open spec fn flow_diag(toks: Seq<Token>, i: int) -> Seq<DiagnosticErrorModel> {
    let t = toks[i]@;
    if t.text == "-"@ && !(i + 1 < toks.len() && toks[i + 1]@.text == ">"@)
        && spec_flow_context(toks, i) {
        seq![DiagnosticErrorModel::SyntaxError {
            message: "Invalid flow operator: use '->' for sequence flow"@,
            span: t.span,
            severity: Severity::Error,
            suggestions: seq!["->"@],
        }]
    } else {
        Seq::empty()
    }
}

/// The broken-arrow diagnostics of the tokens from `i` on.
pub open spec fn flow_pass(toks: Seq<Token>, i: int) -> Seq<DiagnosticErrorModel>
    decreases toks.len() - i when 0 <= i <= toks.len()
{
    if i >= toks.len() {
        Seq::empty()
    } else {
        flow_diag(toks, i) + flow_pass(toks, i + 1)
    }
}

/// Where a gateway's optional name and `?` end: the scan position and the
/// byte offset its reported span stretches to.
pub open spec fn gw_head_end(toks: Seq<Token>, i: int) -> (int, int) {
    let t = toks[i]@;
    let a = if tok_at(toks, i + 1).kind == TokenKind::Identifier {
        (i + 2, tok_at(toks, i + 1).span.end)
    } else {
        (i + 1, t.span.end)
    };
    if tok_at(toks, a.0).kind == TokenKind::Question {
        (a.0 + 1, tok_at(toks, a.0).span.end)
    } else {
        a
    }
}

/// The diagnostic a gateway keyword earns: a missing closing brace when
/// its `{` never closes over gateway-shaped content, a missing opening
/// brace when branch evidence follows without one, else nothing.
pub open spec fn gw_diag(toks: Seq<Token>, i: int) -> Seq<DiagnosticErrorModel> {
    let t = toks[i]@;
    let head = gw_head_end(toks, i);
    let gspan = crate::lexer::SpanModel {
        start: t.span.start,
        end: head.1,
        line: t.span.line,
        column: t.span.column,
        file: t.span.file,
    };
    let gname = if t.kind == TokenKind::Xor { "XOR"@ } else { "AND"@ };
    let open_idx = next_significant(toks, head.0);
    if open_idx >= 0 && toks[open_idx]@.kind == TokenKind::LeftBrace {
        if !gw_block_closes(toks, open_idx + 1, 1) {
            seq![DiagnosticErrorModel::SyntaxError {
                message: gname + " gateway missing closing brace '}'"@,
                span: gspan,
                severity: Severity::Error,
                suggestions: seq!["}"@],
            }]
        } else {
            Seq::empty()
        }
    } else if gw_conditions_ahead(toks, head.0, 10) {
        seq![DiagnosticErrorModel::SyntaxError {
            message: gname + " gateway missing opening brace '{' before conditions"@,
            span: gspan,
            severity: Severity::Error,
            suggestions: seq!["{"@],
        }]
    } else {
        Seq::empty()
    }
}

/// The gateway-brace diagnostics of the tokens from `i` on.
pub open spec fn brace_pass(toks: Seq<Token>, i: int) -> Seq<DiagnosticErrorModel>
    decreases toks.len() - i when 0 <= i <= toks.len()
{
    if i >= toks.len() {
        Seq::empty()
    } else {
        let here = if toks[i]@.kind == TokenKind::Xor || toks[i]@.kind == TokenKind::And {
            gw_diag(toks, i)
        } else {
            Seq::empty()
        };
        here + brace_pass(toks, i + 1)
    }
}

/// Every diagnostic the context checker reports for a token sequence, in
/// order: the identifier and unknown-token checks, then the broken-arrow
/// check, then the gateway-brace check.
pub open spec fn context_diagnostics(toks: Seq<Token>) -> Seq<DiagnosticErrorModel> {
    token_pass(toks, 0) + flow_pass(toks, 0) + brace_pass(toks, 0)
}

/// The pre-parse context checker; collects the diagnostics of one
/// `validate_tokens` run.
pub struct ContextValidator {
    errors: Vec<DiagnosticError>,
    source_code: String,
}

impl ContextValidator {
    /// The diagnostics collected so far.
    pub closed spec fn errs(&self) -> Seq<DiagnosticError> {
        self.errors@
    }

    pub fn new(source_code: String) -> (r: ContextValidator)
        ensures
            r.errs().len() == 0,
    {
        ContextValidator { errors: Vec::new(), source_code }
    }

    /// Runs every context check over the token sequence and returns the
    /// collected diagnostics: identifier typos at statement starts, stray
    /// unknown characters, broken flow arrows, and gateway brace problems.
    #[verifier::loop_isolation(false)]
    pub fn validate_tokens(&mut self, tokens: &[Token]) -> (r: Vec<DiagnosticError>)
        ensures
            diag_models(r@) == context_diagnostics(tokens@),
            diag_models(r@) == diag_models(final(self).errs()),
    {
        self.errors = Vec::new();

        let mut i: usize = 0;
        proof {
            assert(diag_models(self.errors@) =~= Seq::empty());
            assert(diag_models(self.errors@) + token_pass(tokens@, 0)
                =~= token_pass(tokens@, 0));
        }
        while i < tokens.len()
            invariant
                i <= tokens@.len(),
                diag_models(self.errors@) + token_pass(tokens@, i as int)
                    == token_pass(tokens@, 0),
            decreases tokens@.len() - i,
        {
            let ghost pre = self.errors@;
            match tokens[i].kind {
                TokenKind::Identifier => {
                    self.check_identifier_typo(&tokens[i], tokens, i);
                }
                TokenKind::Unknown => {
                    self.check_unknown_token(&tokens[i]);
                }
                _ => {}
            }
            proof {
                assert(diag_models(self.errors@) + token_pass(tokens@, i as int + 1)
                    =~= diag_models(pre) + token_pass(tokens@, i as int));
            }
            i = i + 1;
        }
        proof {
            assert(token_pass(tokens@, tokens@.len() as int) =~= Seq::empty());
            assert(diag_models(self.errors@) + token_pass(tokens@, tokens@.len() as int)
                =~= diag_models(self.errors@));
            assert(diag_models(self.errors@) == token_pass(tokens@, 0));
        }

        self.check_flow_syntax(tokens);
        self.check_missing_braces(tokens);
        proof {
            assert(diag_models(self.errors@) =~= context_diagnostics(tokens@));
        }

        let mut r: Vec<DiagnosticError> = Vec::new();
        let mut k: usize = 0;
        while k < self.errors.len()
            invariant
                k <= self.errors@.len(),
                r@.len() == k,
                forall|m: int| 0 <= m < k ==> (#[trigger] r@[m])@ == self.errors@[m]@,
            decreases self.errors@.len() - k,
        {
            r.push(self.errors[k].clone());
            k = k + 1;
        }
        proof {
            assert(diag_models(r@) =~= diag_models(self.errors@));
        }
        r
    }

    /// Flags an identifier at statement start that closely matches one
    /// keyword (a confident correction) or weakly matches several (ranked
    /// suggestions). Contextual positions are left alone.
    fn check_identifier_typo(&mut self, token: &Token, tokens: &[Token], index: usize)
        requires
            index < tokens@.len(),
            token@ == tokens@[index as int]@,
        ensures
            old(self).errs().is_prefix_of(final(self).errs()),
            diag_models(final(self).errs())
                == diag_models(old(self).errs()) + typo_diag(tokens@, index as int),
    {
        let identifier = &token.text;
        let ghost e0 = self.errors@;

        if self.is_contextual_identifier(tokens, index) {
            proof {
                assert(diag_models(self.errors@)
                    =~= diag_models(e0) + typo_diag(tokens@, index as int));
            }
            return;
        }

        if self.is_statement_start(tokens, index) {
            if let Some(suggestion) = detect_keyword_typo(identifier.as_str()) {
                let ghost gs = suggestion@;
                let mut expected = "keyword (did you mean '".to_owned();
                expected.append(suggestion.as_str());
                expected.append("'?)");
                let mut suggestions: Vec<String> = Vec::new();
                suggestions.push(suggestion);
                proof {
                    assert(string_views(suggestions@) =~= seq![gs]);
                }
                self.errors.push(DiagnosticError::UnexpectedToken {
                    found: identifier.clone(),
                    expected,
                    span: token.span.clone(),
                    suggestions,
                });
                proof {
                    assert(old(self).errs().is_prefix_of(self.errors@));
                    assert(diag_models(self.errors@)
                        =~= diag_models(e0) + typo_diag(tokens@, index as int));
                }
            } else if is_likely_keyword_typo(identifier.as_str()) {
                let suggestions = suggest_keywords(identifier.as_str());
                self.errors.push(DiagnosticError::UnexpectedToken {
                    found: identifier.clone(),
                    expected: "BPMN keyword".to_owned(),
                    span: token.span.clone(),
                    suggestions,
                });
                proof {
                    assert(old(self).errs().is_prefix_of(self.errors@));
                    assert(diag_models(self.errors@)
                        =~= diag_models(e0) + typo_diag(tokens@, index as int));
                }
            } else {
                proof {
                    assert(diag_models(self.errors@)
                        =~= diag_models(e0) + typo_diag(tokens@, index as int));
                }
            }
        } else {
            proof {
                assert(diag_models(self.errors@)
                    =~= diag_models(e0) + typo_diag(tokens@, index as int));
            }
        }
    }

    /// Flags an unknown token, unless its text is one of the characters
    /// that legitimately appear while a multi-character operator is being
    /// typed (`<` `>` `=` `!` `&` `|`).
    fn check_unknown_token(&mut self, token: &Token)
        ensures
            old(self).errs().is_prefix_of(final(self).errs()),
            diag_models(final(self).errs())
                == diag_models(old(self).errs()) + unknown_diag(token@),
    {
        let ghost e0 = self.errors@;
        let t = token.text.as_str();
        if str_eq(t, "<") || str_eq(t, ">") || str_eq(t, "=") || str_eq(t, "!")
            || str_eq(t, "&") || str_eq(t, "|") {
            proof {
                assert(diag_models(self.errors@) =~= diag_models(e0) + unknown_diag(token@));
            }
            return;
        }

        let mut message = "Unknown token '".to_owned();
        message.append(token.text.as_str());
        message.append("'");
        self.errors.push(DiagnosticError::SyntaxError {
            message,
            span: token.span.clone(),
            severity: Severity::Error,
            suggestions: Vec::new(),
        });
        proof {
            assert(old(self).errs().is_prefix_of(self.errors@));
            assert(string_views(Seq::<String>::empty()) =~= Seq::<Seq<char>>::empty());
            assert(diag_models(self.errors@) =~= diag_models(e0) + unknown_diag(token@));
        }
    }

    /// Flags each lone `-` that is not part of `->` but sits between two
    /// identifiers, suggesting the sequence-flow arrow.
    #[verifier::loop_isolation(false)]
    fn check_flow_syntax(&mut self, tokens: &[Token])
        ensures
            old(self).errs().is_prefix_of(final(self).errs()),
            diag_models(final(self).errs())
                == diag_models(old(self).errs()) + flow_pass(tokens@, 0),
    {
        let ghost e0 = self.errors@;
        let mut i: usize = 0;
        proof {
            assert(diag_models(e0) + flow_pass(tokens@, 0) =~= diag_models(e0) + flow_pass(tokens@, 0));
        }
        while i < tokens.len()
            invariant
                i <= tokens@.len(),
                e0.is_prefix_of(self.errors@),
                diag_models(self.errors@) + flow_pass(tokens@, i as int)
                    == diag_models(e0) + flow_pass(tokens@, 0),
            decreases tokens@.len() - i,
        {
            let ghost pre = self.errors@;
            let token = &tokens[i];
            if str_eq(token.text.as_str(), "-") {
                let next_is_gt = if i + 1 < tokens.len() {
                    str_eq(tokens[i + 1].text.as_str(), ">")
                } else {
                    false
                };

                if !next_is_gt && self.looks_like_flow_context(tokens, i) {
                    let mut suggestions: Vec<String> = Vec::new();
                    suggestions.push("->".to_owned());
                    proof {
                        reveal_strlit("->");
                        assert(string_views(suggestions@) =~= seq!["->"@]);
                    }
                    self.errors.push(DiagnosticError::SyntaxError {
                        message: "Invalid flow operator: use '->' for sequence flow".to_owned(),
                        span: token.span.clone(),
                        severity: Severity::Error,
                        suggestions,
                    });
                }
            }
            proof {
                assert(diag_models(self.errors@)
                    =~= diag_models(pre) + flow_diag(tokens@, i as int));
                assert(diag_models(self.errors@) + flow_pass(tokens@, i as int + 1)
                    =~= diag_models(pre) + flow_pass(tokens@, i as int));
            }
            i = i + 1;
        }
        proof {
            assert(flow_pass(tokens@, tokens@.len() as int) =~= Seq::empty());
            assert(diag_models(self.errors@) + flow_pass(tokens@, tokens@.len() as int)
                =~= diag_models(self.errors@));
        }
    }

    /// Checks every gateway keyword for brace problems.
    #[verifier::loop_isolation(false)]
    fn check_missing_braces(&mut self, tokens: &[Token])
        ensures
            old(self).errs().is_prefix_of(final(self).errs()),
            diag_models(final(self).errs())
                == diag_models(old(self).errs()) + brace_pass(tokens@, 0),
    {
        let ghost e0 = self.errors@;
        let mut i: usize = 0;
        while i < tokens.len()
            invariant
                i <= tokens@.len(),
                e0.is_prefix_of(self.errors@),
                diag_models(self.errors@) + brace_pass(tokens@, i as int)
                    == diag_models(e0) + brace_pass(tokens@, 0),
            decreases tokens@.len() - i,
        {
            let ghost pre = self.errors@;
            if tokens[i].kind == TokenKind::Xor || tokens[i].kind == TokenKind::And {
                self.check_gateway_braces(tokens, i);
            }
            proof {
                assert(diag_models(self.errors@) + brace_pass(tokens@, i as int + 1)
                    =~= diag_models(pre) + brace_pass(tokens@, i as int));
            }
            i = i + 1;
        }
        proof {
            assert(brace_pass(tokens@, tokens@.len() as int) =~= Seq::empty());
            assert(diag_models(self.errors@) + brace_pass(tokens@, tokens@.len() as int)
                =~= diag_models(self.errors@));
        }
    }

    /// Checks one gateway: skips its optional name and `?`, then either
    /// follows its `{` looking for gateway-shaped content and the matching
    /// `}` (reporting a missing closing brace when the scan runs out), or,
    /// with no `{`, looks a few tokens ahead for branch evidence and
    /// reports a missing opening brace when it finds some.
    fn check_gateway_braces(&mut self, tokens: &[Token], gateway_index: usize)
        requires
            gateway_index < tokens@.len(),
        ensures
            old(self).errs().is_prefix_of(final(self).errs()),
            diag_models(final(self).errs())
                == diag_models(old(self).errs()) + gw_diag(tokens@, gateway_index as int),
    {
        let ghost e0 = self.errors@;
        let token = &tokens[gateway_index];
        let gateway_type: &str = if token.kind == TokenKind::Xor { "XOR" } else { "AND" };
        let ghost gname: Seq<char> = if token@.kind == TokenKind::Xor { "XOR"@ } else { "AND"@ };
        proof {
            assert(gateway_type@ == gname);
        }

        let mut j = gateway_index + 1;
        let mut gateway_name_end = token.span.end;

        if j < tokens.len() && tokens[j].kind == TokenKind::Identifier {
            gateway_name_end = tokens[j].span.end;
            j = j + 1;
        }

        if j < tokens.len() && tokens[j].kind == TokenKind::Question {
            gateway_name_end = tokens[j].span.end;
            j = j + 1;
        }

        let gateway_span = Span {
            start: token.span.start,
            end: gateway_name_end,
            line: token.span.line,
            column: token.span.column,
            file: token.span.file.clone(),
        };

        proof {
            assert(gw_head_end(tokens@, gateway_index as int)
                == (j as int, gateway_name_end as int));
            assert(gateway_span@ == (crate::lexer::SpanModel {
                start: token@.span.start,
                end: gateway_name_end as int,
                line: token@.span.line,
                column: token@.span.column,
                file: token@.span.file,
            }));
        }

        let open_idx = self.find_next_significant_token(tokens, j);

        let has_opening_brace = match open_idx {
            Option::Some(idx) => tokens[idx].kind == TokenKind::LeftBrace,
            Option::None => false,
        };

        if has_opening_brace {
            if let Some(idx) = open_idx {
                match self.find_gateway_closing_brace(tokens, idx) {
                    Option::Some(_) => {}
                    Option::None => {
                        let mut message = gateway_type.to_owned();
                        message.append(" gateway missing closing brace '}'");
                        let mut suggestions: Vec<String> = Vec::new();
                        suggestions.push("}".to_owned());
                        proof {
                            reveal_strlit("}");
                            assert(string_views(suggestions@) =~= seq!["}"@]);
                        }
                        self.errors.push(DiagnosticError::SyntaxError {
                            message,
                            span: gateway_span,
                            severity: Severity::Error,
                            suggestions,
                        });
                    }
                }
            }
        } else if self.has_gateway_conditions_ahead(tokens, j) {
            let mut message = gateway_type.to_owned();
            message.append(" gateway missing opening brace '{' before conditions");
            let mut suggestions: Vec<String> = Vec::new();
            suggestions.push("{".to_owned());
            proof {
                reveal_strlit("{");
                assert(string_views(suggestions@) =~= seq!["{"@]);
            }
            self.errors.push(DiagnosticError::SyntaxError {
                message,
                span: gateway_span,
                severity: Severity::Error,
                suggestions,
            });
        }
        proof {
            assert(old(self).errs().is_prefix_of(self.errors@));
            assert(diag_models(self.errors@)
                =~= diag_models(e0) + gw_diag(tokens@, gateway_index as int));
        }
    }

    /// The first token at or after `start` that is not a newline or
    /// comment.
    #[verifier::loop_isolation(false)]
    fn find_next_significant_token(&self, tokens: &[Token], start: usize) -> (r: Option<usize>)
        requires
            start <= tokens@.len(),
        ensures
            match r {
                Option::Some(idx) => idx as int == next_significant(tokens@, start as int)
                    && start <= idx < tokens@.len(),
                Option::None => next_significant(tokens@, start as int) == -1,
            },
    {
        proof {
            lemma_next_significant_bounds(tokens@, start as int);
        }
        let mut j = start;
        while j < tokens.len() && is_trivia_token(&tokens[j])
            invariant
                start <= j <= tokens@.len(),
                next_significant(tokens@, start as int) == next_significant(tokens@, j as int),
            decreases tokens@.len() - j,
        {
            j = j + 1;
        }
        if j < tokens.len() {
            Some(j)
        } else {
            None
        }
    }

    /// Whether branch evidence (`[` or `=>`) appears within the next ten
    /// tokens, before any `}`.
    #[verifier::loop_isolation(false)]
    fn has_gateway_conditions_ahead(&self, tokens: &[Token], start: usize) -> (r: bool)
        requires
            start <= tokens@.len(),
        ensures
            r == gw_conditions_ahead(tokens@, start as int, 10),
    {
        let mut j = start;
        let mut left: usize = 10;
        while j < tokens.len() && left > 0
            invariant
                start <= j <= tokens@.len(),
                left <= 10,
                gw_conditions_ahead(tokens@, start as int, 10)
                    == gw_conditions_ahead(tokens@, j as int, left as int),
            decreases tokens@.len() - j,
        {
            if is_trivia_token(&tokens[j]) {
                j = j + 1;
            } else {
                match tokens[j].kind {
                    TokenKind::LeftBracket | TokenKind::DefaultFlow => {
                        return true;
                    }
                    TokenKind::RightBrace => {
                        return false;
                    }
                    _ => {}
                }
                j = j + 1;
                left = left - 1;
            }
        }
        false
    }

    /// The matching `}` of a gateway block: the depth-tracked scan either
    /// reaches depth zero (the block closes) or exhausts the tokens.
    #[verifier::loop_isolation(false)]
    fn find_gateway_closing_brace(&self, tokens: &[Token], open_idx: usize) -> (r: Option<usize>)
        requires
            open_idx < tokens@.len(),
        ensures
            tokens@[open_idx as int]@.kind == TokenKind::LeftBrace
                ==> (r matches Option::Some(_))
                    == gw_block_closes(tokens@, open_idx as int + 1, 1),
            tokens@[open_idx as int]@.kind != TokenKind::LeftBrace
                ==> r matches Option::None,
    {
        if !(tokens[open_idx].kind == TokenKind::LeftBrace) {
            return None;
        }

        let mut brace_count: usize = 1;

        let mut i = open_idx + 1;
        while i < tokens.len()
            invariant
                open_idx < i <= tokens@.len(),
                brace_count >= 1,
                brace_count as int <= i - open_idx,
                gw_block_closes(tokens@, open_idx as int + 1, 1)
                    == gw_block_closes(tokens@, i as int, brace_count as int),
            decreases tokens@.len() - i,
        {
            match tokens[i].kind {
                TokenKind::LeftBrace => {
                    brace_count = brace_count + 1;
                }
                TokenKind::RightBrace => {
                    if brace_count == 1 {
                        return Some(i);
                    }
                    brace_count = brace_count - 1;
                }
                _ => {}
            }
            i = i + 1;
        }
        None
    }

    /// Whether the identifier at `index` stands in a contextual position
    /// where keyword checking would misfire.
    fn is_contextual_identifier(&self, tokens: &[Token], index: usize) -> (r: bool)
        requires
            index < tokens@.len(),
        ensures
            r == spec_is_contextual(tokens@, index as int),
    {
        let n = tokens.len();
        proof {
            assert(index < n);
        }
        if index + 1 < tokens.len() && tokens[index + 1].kind == TokenKind::LeftParen {
            return true;
        }

        if index > 0 {
            let k = tokens[index - 1].kind;
            if k == TokenKind::SequenceFlow || k == TokenKind::MessageFlow
                || k == TokenKind::DefaultFlow || k == TokenKind::Association {
                return true;
            }
        }

        if index + 1 < tokens.len() {
            let k = tokens[index + 1].kind;
            if k == TokenKind::SequenceFlow || k == TokenKind::MessageFlow
                || k == TokenKind::DefaultFlow || k == TokenKind::Association {
                return true;
            }
        }

        if index + 1 < tokens.len() && str_eq(tokens[index + 1].text.as_str(), "-") {
            return true;
        }

        proof {
            reveal_strlit("-");
            assert("-"@ =~= seq!['-']);
            if index as int + 1 < tokens@.len() {
                assert(tok_at(tokens@, index as int + 1).text
                    == tokens@[index as int + 1]@.text);
            } else {
                assert(tok_at(tokens@, index as int + 1).text =~= Seq::<char>::empty());
            }
            assert(tok_at(tokens@, index as int + 1).text != "-"@);
        }
        false
    }

    /// Whether `index` starts a statement: the very first token, or only
    /// identifiers and literals between it and the last brace or newline.
    #[verifier::loop_isolation(false)]
    fn is_statement_start(&self, tokens: &[Token], index: usize) -> (r: bool)
        requires
            index < tokens@.len(),
        ensures
            r == spec_is_statement_start(tokens@, index as int),
    {
        if index == 0 {
            return true;
        }

        let mut j = index - 1;
        loop
            invariant
                j < index < tokens@.len(),
                stmt_start_scan(tokens@, index as int - 1) == stmt_start_scan(tokens@, j as int),
            decreases j,
        {
            let k = tokens[j].kind;
            if k == TokenKind::LeftBrace || k == TokenKind::RightBrace
                || k == TokenKind::Newline {
                return true;
            }
            if !(k == TokenKind::Identifier || k == TokenKind::StringLiteral
                || k == TokenKind::NumberLiteral) {
                return false;
            }
            if j == 0 {
                proof {
                    assert(stmt_start_scan(tokens@, -1) == false);
                }
                return false;
            }
            j = j - 1;
        }
    }

    /// Whether the `-` at `index` sits between two identifiers.
    fn looks_like_flow_context(&self, tokens: &[Token], index: usize) -> (r: bool)
        requires
            index < tokens@.len(),
        ensures
            r == spec_flow_context(tokens@, index as int),
    {
        if index > 0 && tokens[index - 1].kind == TokenKind::Identifier {
            if index + 1 < tokens.len() && tokens[index + 1].kind == TokenKind::Identifier {
                return true;
            }
        }
        false
    }
}

/// Whether a token is a newline or comment.
fn is_trivia_token(t: &Token) -> (r: bool)
    ensures
        r == is_trivia_kind(t.kind),
{
    t.kind == TokenKind::Newline || t.kind == TokenKind::CarriageReturnNewline
        || t.kind == TokenKind::LineComment || t.kind == TokenKind::BlockComment
}

} // verus!
