//! The error-recovery engine. When direct grammar parsing of an element or
//! flow fails, these routines reconstruct a best-effort node from the raw
//! tokens, synthesizing placeholders for missing pieces and recording a
//! diagnostic for each repair. Every successful recovery strictly advances
//! the cursor, so total recovery work stays linear in the token count.

use vstd::prelude::*;
use vstd::string::*;
use crate::lexer::{Token, TokenKind};
use crate::parser::ast::{
    Attributes, ErrorSeverity, Flow, FlowType, GatewayBranch, GatewayType, ParseError,
    ProcessElement, TaskType,
};
use crate::parser::{arrow_type, task_type_for, tok_at};
use crate::text::{dec_str, usize_to_string};

verus! {

/// Where a document-level resynchronization lands: just past the next `}`,
/// at the next element- or statement-introducing keyword, or at the end.
pub open spec fn sync_pos(toks: Seq<Token>, pos: int) -> int
    decreases toks.len() - pos when 0 <= pos <= toks.len()
{
    if pos >= toks.len() {
        pos
    } else if toks[pos]@.kind == TokenKind::RightBrace {
        pos + 1
    } else if is_sync_keyword(toks[pos]@.kind) {
        pos
    } else {
        sync_pos(toks, pos + 1)
    }
}

/// The keywords a resynchronization may stop at.
pub open spec fn is_sync_keyword(k: TokenKind) -> bool {
    k == TokenKind::Start || k == TokenKind::End || k == TokenKind::Task
        || k == TokenKind::User || k == TokenKind::Service || k == TokenKind::Script
        || k == TokenKind::Xor || k == TokenKind::And || k == TokenKind::Event
        || k == TokenKind::Process || k == TokenKind::Import || k == TokenKind::Subprocess
        || k == TokenKind::Pool || k == TokenKind::Lane
}

/// The keyword kinds whose statements the task recoverer treats as the end
/// of a malformed attribute run.
pub open spec fn is_attr_stop_kind(k: TokenKind) -> bool {
    k == TokenKind::At || k == TokenKind::LeftParen || k == TokenKind::Start
        || k == TokenKind::End || k == TokenKind::Task || k == TokenKind::User
        || k == TokenKind::Service || k == TokenKind::Script || k == TokenKind::Xor
        || k == TokenKind::And || k == TokenKind::RightBrace
}

/// The raw reconstruction of a bracketed recovery condition: the token
/// texts up to the closing `]` (or the end of input), joined by single
/// spaces. Returns the stop position (at the `]` or the end) and the text.
pub open spec fn raw_cond(toks: Seq<Token>, j: int, acc: Seq<char>) -> (int, Seq<char>)
    decreases toks.len() - j when 0 <= j <= toks.len()
{
    if !(j < toks.len() && toks[j]@.kind != TokenKind::RightBracket) {
        (j, acc)
    } else {
        let acc2 = if acc.len() > 0 {
            acc + seq![' '] + toks[j]@.text
        } else {
            acc + toks[j]@.text
        };
        raw_cond(toks, j + 1, acc2)
    }
}

/// Where a recovered gateway's body is expected: just past the keyword,
/// its optional name, and its optional `?`.
pub open spec fn gw_body_pos(toks: Seq<Token>, start: int) -> int {
    let p1 = if tok_at(toks, start + 1).kind == TokenKind::Identifier {
        start + 2
    } else {
        start + 1
    };
    if tok_at(toks, p1).kind == TokenKind::Question {
        p1 + 1
    } else {
        p1
    }
}

/// The end of one malformed `@` run: the next attribute-stopping token.
pub open spec fn attr_skip_inner(toks: Seq<Token>, j: int) -> int
    decreases toks.len() - j when 0 <= j <= toks.len()
{
    if j < toks.len() && !is_attr_stop_kind(toks[j]@.kind) {
        attr_skip_inner(toks, j + 1)
    } else {
        j
    }
}

pub proof fn lemma_attr_skip_inner_bounds(toks: Seq<Token>, j: int)
    requires
        0 <= j <= toks.len(),
    ensures
        j <= attr_skip_inner(toks, j) <= toks.len(),
    decreases toks.len() - j,
{
    if j < toks.len() && !is_attr_stop_kind(toks[j]@.kind) {
        lemma_attr_skip_inner_bounds(toks, j + 1);
    }
}

/// Every malformed `@` run skipped in turn.
pub open spec fn attr_skip_at(toks: Seq<Token>, j: int) -> int
    decreases toks.len() - j when 0 <= j <= toks.len() via attr_skip_at_decreases
{
    if j < toks.len() && toks[j]@.kind == TokenKind::At {
        attr_skip_at(toks, attr_skip_inner(toks, j + 1))
    } else {
        j
    }
}

#[via_fn]
proof fn attr_skip_at_decreases(toks: Seq<Token>, j: int) {
    if 0 <= j && j < toks.len() && toks[j]@.kind == TokenKind::At {
        lemma_attr_skip_inner_bounds(toks, j + 1);
    }
}

/// One balanced parenthesized group skipped, depth-tracked; an unbalanced
/// group runs to the end of the tokens.
pub open spec fn paren_skip(toks: Seq<Token>, j: int, count: int) -> int
    decreases toks.len() - j when 0 <= j <= toks.len()
{
    if !(j < toks.len() && count > 0) {
        j
    } else {
        let c2 = if toks[j]@.kind == TokenKind::LeftParen {
            count + 1
        } else if toks[j]@.kind == TokenKind::RightParen {
            count - 1
        } else {
            count
        };
        paren_skip(toks, j + 1, c2)
    }
}

/// Everything the task recoverer skips after the identifier: the `@` runs,
/// then one balanced `(...)` group if it follows.
pub open spec fn attr_skip_end(toks: Seq<Token>, j: int) -> int {
    let a = attr_skip_at(toks, j);
    if 0 <= a < toks.len() && toks[a]@.kind == TokenKind::LeftParen {
        paren_skip(toks, a + 1, 1)
    } else {
        a
    }
}

/// Reconstructs partial nodes after grammar failures. The error list
/// collects one diagnostic per repair; it is merged into the document by
/// the caller.
pub struct ErrorRecovery {
    pub recovered_elements: Vec<ProcessElement>,
    pub recovered_flows: Vec<Flow>,
    pub errors: Vec<ParseError>,
}

impl ErrorRecovery {
    pub fn new() -> (r: ErrorRecovery)
        ensures
            r.recovered_elements@.len() == 0,
            r.recovered_flows@.len() == 0,
            r.errors@.len() == 0,
    {
        ErrorRecovery {
            recovered_elements: Vec::new(),
            recovered_flows: Vec::new(),
            errors: Vec::new(),
        }
    }

    /// Rebuilds an element from the token at `start_pos`. Start and end
    /// events recover from their keyword alone; tasks tolerate a missing
    /// identifier (a placeholder is synthesized) and skip malformed
    /// attributes; gateways tolerate missing blocks, arrows and targets.
    /// Any other leading token is unrecoverable: an error is recorded and
    /// the caller must skip it. A successful recovery strictly advances.
    pub fn recover_process_element(
        &mut self,
        tokens: &[Token],
        start_pos: usize,
    ) -> (r: Option<(ProcessElement, usize)>)
        ensures
            old(self).errors@.is_prefix_of(final(self).errors@),
            match r {
                Option::Some((e, p)) => start_pos < p <= tokens@.len(),
                Option::None => true,
            },
            start_pos < tokens@.len() && tokens@[start_pos as int]@.kind == TokenKind::Start
                ==> match r {
                    Option::Some((e, p)) => p == start_pos + 1 && match e {
                        ProcessElement::StartEvent { id, event_type, attributes, span } => {
                            &&& id matches Option::None
                            &&& event_type matches Option::None
                            &&& attributes@ == Map::<Seq<char>, crate::parser::ast::AttributeValueModel>::empty()
                            &&& span@ == tokens@[start_pos as int]@.span
                        },
                        _ => false,
                    },
                    Option::None => false,
                },
            start_pos < tokens@.len() && tokens@[start_pos as int]@.kind == TokenKind::End
                ==> match r {
                    Option::Some((e, p)) => p == start_pos + 1 && match e {
                        ProcessElement::EndEvent { id, event_type, attributes, span } => {
                            &&& id matches Option::None
                            &&& event_type matches Option::None
                            &&& attributes@ == Map::<Seq<char>, crate::parser::ast::AttributeValueModel>::empty()
                            &&& span@ == tokens@[start_pos as int]@.span
                        },
                        _ => false,
                    },
                    Option::None => false,
                },
            start_pos < tokens@.len() && (tokens@[start_pos as int]@.kind == TokenKind::Task
                || tokens@[start_pos as int]@.kind == TokenKind::User
                || tokens@[start_pos as int]@.kind == TokenKind::Service
                || tokens@[start_pos as int]@.kind == TokenKind::Script
                || tokens@[start_pos as int]@.kind == TokenKind::Xor
                || tokens@[start_pos as int]@.kind == TokenKind::And)
                ==> (r matches Option::Some(_)),
            start_pos >= tokens@.len() ==> (r matches Option::None)
                && final(self).errors@ == old(self).errors@,
            start_pos < tokens@.len() && !(tokens@[start_pos as int]@.kind == TokenKind::Start
                || tokens@[start_pos as int]@.kind == TokenKind::End
                || tokens@[start_pos as int]@.kind == TokenKind::Task
                || tokens@[start_pos as int]@.kind == TokenKind::User
                || tokens@[start_pos as int]@.kind == TokenKind::Service
                || tokens@[start_pos as int]@.kind == TokenKind::Script
                || tokens@[start_pos as int]@.kind == TokenKind::Xor
                || tokens@[start_pos as int]@.kind == TokenKind::And) ==> {
                &&& r matches Option::None
                &&& final(self).errors@.len() == old(self).errors@.len() + 1
                &&& final(self).errors@.drop_last() == old(self).errors@
                &&& final(self).errors@.last()@.message
                    == "Cannot recover from token '"@ + tokens@[start_pos as int]@.text + "'"@
                &&& final(self).errors@.last()@.span == tokens@[start_pos as int]@.span
                &&& final(self).errors@.last()@.severity == ErrorSeverity::Error
            },
    {
        if start_pos >= tokens.len() {
            return None;
        }
        let token = &tokens[start_pos];
        let span = token.span.clone();

        match token.kind {
            TokenKind::Start => {
                let element = ProcessElement::StartEvent {
                    id: None,
                    event_type: None,
                    attributes: Attributes::new(),
                    span,
                };
                Some((element, start_pos + 1))
            }
            TokenKind::End => {
                let element = ProcessElement::EndEvent {
                    id: None,
                    event_type: None,
                    attributes: Attributes::new(),
                    span,
                };
                Some((element, start_pos + 1))
            }
            TokenKind::Task | TokenKind::User | TokenKind::Service | TokenKind::Script => {
                self.recover_task(tokens, start_pos)
            }
            TokenKind::Xor | TokenKind::And => self.recover_gateway(tokens, start_pos),
            _ => {
                let mut message = "Cannot recover from token '".to_owned();
                message.append(token.text.as_str());
                message.append("'");
                self.errors.push(ParseError {
                    message,
                    span,
                    severity: ErrorSeverity::Error,
                });
                proof {
                    assert(old(self).errors@.is_prefix_of(self.errors@));
                }
                None
            }
        }
    }

    /// Rebuilds a task-family element: the keyword gives the task kind, a
    /// following identifier (or a synthesized placeholder plus a warning)
    /// gives the id, and any attribute-looking tokens after it are skipped
    /// without being parsed.
    fn recover_task(
        &mut self,
        tokens: &[Token],
        start_pos: usize,
    ) -> (r: Option<(ProcessElement, usize)>)
        requires
            start_pos < tokens@.len(),
        ensures
            old(self).errors@.is_prefix_of(final(self).errors@),
            (tokens@[start_pos as int]@.kind == TokenKind::Task
                || tokens@[start_pos as int]@.kind == TokenKind::User
                || tokens@[start_pos as int]@.kind == TokenKind::Service
                || tokens@[start_pos as int]@.kind == TokenKind::Script)
                ==> (r matches Option::Some(_))
                    && if tok_at(tokens@, start_pos + 1).kind == TokenKind::Identifier {
                        final(self).errors@ == old(self).errors@
                    } else {
                        &&& final(self).errors@.len() == old(self).errors@.len() + 1
                        &&& final(self).errors@.drop_last() == old(self).errors@
                        &&& final(self).errors@.last()@.message
                            == "Missing task identifier, using default"@
                        &&& final(self).errors@.last()@.span
                            == tokens@[start_pos as int]@.span
                        &&& final(self).errors@.last()@.severity == ErrorSeverity::Warning
                    },
            match r {
                Option::Some((e, p)) => start_pos < p <= tokens@.len()
                    && p == (if tok_at(tokens@, start_pos + 1).kind == TokenKind::Identifier {
                        attr_skip_end(tokens@, start_pos + 2)
                    } else {
                        attr_skip_end(tokens@, start_pos + 1)
                    })
                    && match e {
                    ProcessElement::Task { id, task_type, attributes, span } => {
                        &&& attributes@
                            == Map::<Seq<char>, crate::parser::ast::AttributeValueModel>::empty()
                        &&& task_type == task_type_for(tokens@[start_pos as int]@.kind)
                        &&& span@ == tokens@[start_pos as int]@.span
                        &&& if tok_at(tokens@, start_pos + 1).kind == TokenKind::Identifier {
                            id@ == tok_at(tokens@, start_pos + 1).text
                        } else {
                            id@ == "Task_"@ + dec_str(start_pos as int)
                        }
                    },
                    _ => false,
                },
                Option::None => true,
            },
    {
        let mut pos = start_pos;
        let span = tokens[pos].span.clone();

        let task_type = match tokens[pos].kind {
            TokenKind::Task => TaskType::Generic,
            TokenKind::User => TaskType::User,
            TokenKind::Service => TaskType::Service,
            TokenKind::Script => TaskType::Script,
            _ => {
                return None;
            }
        };

        pos = pos + 1;

        let id = if pos < tokens.len() && tokens[pos].kind == TokenKind::Identifier {
            let id = tokens[pos].text.clone();
            pos = pos + 1;
            id
        } else {
            self.errors.push(ParseError {
                message: "Missing task identifier, using default".to_owned(),
                span: span.clone(),
                severity: ErrorSeverity::Warning,
            });
            let mut placeholder = "Task_".to_owned();
            placeholder.append(usize_to_string(start_pos).as_str());
            placeholder
        };

        pos = self.skip_malformed_attributes(tokens, pos);

        let element = ProcessElement::Task {
            id,
            task_type,
            attributes: Attributes::new(),
            span,
        };

        proof {
            assert(old(self).errors@.is_prefix_of(self.errors@));
        }
        Some((element, pos))
    }

    /// Rebuilds a gateway: optional id and `?`, then either a brace block
    /// whose branches are recovered one by one, or no block at all (an
    /// error is recorded and the gateway gets no branches).
    fn recover_gateway(
        &mut self,
        tokens: &[Token],
        start_pos: usize,
    ) -> (r: Option<(ProcessElement, usize)>)
        requires
            start_pos < tokens@.len(),
        ensures
            old(self).errors@.is_prefix_of(final(self).errors@),
            (tokens@[start_pos as int]@.kind == TokenKind::Xor
                || tokens@[start_pos as int]@.kind == TokenKind::And)
                ==> (r matches Option::Some(_)),
            match r {
                Option::Some((e, p)) => start_pos < p <= tokens@.len() && match e {
                    ProcessElement::Gateway { id, gateway_type, branches, span } => {
                        &&& gateway_type == (if tokens@[start_pos as int]@.kind == TokenKind::Xor {
                            GatewayType::Exclusive
                        } else {
                            GatewayType::Parallel
                        })
                        &&& span@ == tokens@[start_pos as int]@.span
                        &&& match id {
                            Option::Some(name) =>
                                tok_at(tokens@, start_pos + 1).kind == TokenKind::Identifier
                                    && name@ == tok_at(tokens@, start_pos + 1).text,
                            Option::None =>
                                tok_at(tokens@, start_pos + 1).kind != TokenKind::Identifier,
                        }
                        &&& tok_at(tokens@, gw_body_pos(tokens@, start_pos as int)).kind
                            != TokenKind::LeftBrace ==> {
                            &&& branches@.len() == 0
                            &&& final(self).errors@.len() == old(self).errors@.len() + 1
                            &&& final(self).errors@.drop_last() == old(self).errors@
                            &&& final(self).errors@.last()@.message
                                == "Gateway missing branches block"@
                            &&& final(self).errors@.last()@.span
                                == tokens@[start_pos as int]@.span
                            &&& final(self).errors@.last()@.severity == ErrorSeverity::Error
                        }
                    },
                    _ => false,
                },
                Option::None => true,
            },
    {
        let mut pos = start_pos;
        let span = tokens[pos].span.clone();

        let gateway_type = match tokens[pos].kind {
            TokenKind::Xor => GatewayType::Exclusive,
            TokenKind::And => GatewayType::Parallel,
            _ => {
                return None;
            }
        };

        pos = pos + 1;

        let id = if pos < tokens.len() && tokens[pos].kind == TokenKind::Identifier {
            let id = tokens[pos].text.clone();
            pos = pos + 1;
            Some(id)
        } else {
            None
        };

        if pos < tokens.len() && tokens[pos].kind == TokenKind::Question {
            pos = pos + 1;
        }

        let branches = if pos < tokens.len() && tokens[pos].kind == TokenKind::LeftBrace {
            pos = pos + 1;
            let (recovered_branches, new_pos) = self.recover_gateway_branches(tokens, pos);
            pos = new_pos;

            if pos < tokens.len() && tokens[pos].kind == TokenKind::RightBrace {
                pos = pos + 1;
            }

            recovered_branches
        } else {
            self.errors.push(ParseError {
                message: "Gateway missing branches block".to_owned(),
                span: span.clone(),
                severity: ErrorSeverity::Error,
            });
            Vec::new()
        };

        let element = ProcessElement::Gateway {
            id,
            gateway_type,
            branches,
            span,
        };

        proof {
            assert(old(self).errors@.is_prefix_of(self.errors@));
        }
        Some((element, pos))
    }

    /// Recovers gateway branches until a `}` or the end of input, skipping
    /// one token whenever no branch can be recognized.
    fn recover_gateway_branches(
        &mut self,
        tokens: &[Token],
        start_pos: usize,
    ) -> (r: (Vec<GatewayBranch>, usize))
        requires
            start_pos <= tokens@.len(),
        ensures
            old(self).errors@.is_prefix_of(final(self).errors@),
            start_pos <= r.1 <= tokens@.len(),
    {
        let mut branches: Vec<GatewayBranch> = Vec::new();
        let mut pos = start_pos;
        let ghost e0 = self.errors@;

        while pos < tokens.len() && tokens[pos].kind != TokenKind::RightBrace
            invariant
                start_pos <= pos <= tokens@.len(),
                e0.is_prefix_of(self.errors@),
            decreases tokens@.len() - pos,
        {
            if let Some((branch, new_pos)) = self.recover_single_branch(tokens, pos) {
                branches.push(branch);
                pos = new_pos;
            } else {
                pos = pos + 1;
            }
        }

        (branches, pos)
    }

    /// Recovers one gateway branch: a bracketed or bare condition (or `=>`
    /// for the default branch), a mandatory arrow, and a target identifier
    /// (or a synthesized placeholder plus an error). Returns nothing when
    /// no branch shape is recognizable at `start_pos`.
    fn recover_single_branch(
        &mut self,
        tokens: &[Token],
        start_pos: usize,
    ) -> (r: Option<(GatewayBranch, usize)>)
        requires
            start_pos < tokens@.len(),
        ensures
            old(self).errors@.is_prefix_of(final(self).errors@),
            tokens@[start_pos as int]@.kind == TokenKind::DefaultFlow
                ==> (r matches Option::Some(_)),
            (tokens@[start_pos as int]@.kind == TokenKind::Identifier
                && (tok_at(tokens@, start_pos + 1).kind == TokenKind::SequenceFlow
                    || tok_at(tokens@, start_pos + 1).kind == TokenKind::DefaultFlow))
                ==> (r matches Option::Some(_)),
            (tokens@[start_pos as int]@.kind == TokenKind::Identifier
                && tok_at(tokens@, start_pos + 1).kind != TokenKind::SequenceFlow
                && tok_at(tokens@, start_pos + 1).kind != TokenKind::DefaultFlow)
                ==> (r matches Option::None)
                    && final(self).errors@.len() == old(self).errors@.len() + 1
                    && final(self).errors@.drop_last() == old(self).errors@
                    && final(self).errors@.last()@.message
                        == "Missing arrow in gateway branch"@
                    && final(self).errors@.last()@.span == tokens@[start_pos as int]@.span
                    && final(self).errors@.last()@.severity == ErrorSeverity::Error,
            tokens@[start_pos as int]@.kind == TokenKind::LeftBracket ==> ({
                let rc = raw_cond(tokens@, start_pos + 1, Seq::empty());
                let after = if rc.0 < tokens@.len() { rc.0 + 1 } else { rc.0 };
                if tok_at(tokens@, after).kind == TokenKind::SequenceFlow
                    || tok_at(tokens@, after).kind == TokenKind::DefaultFlow {
                    match r {
                        Option::Some((b, p)) => {
                            &&& !b.is_default
                            &&& match &b.condition {
                                Option::Some(c) => c@ == rc.1,
                                Option::None => false,
                            }
                            &&& tok_at(tokens@, after + 1).kind == TokenKind::Identifier ==> {
                                &&& b.target@ == tok_at(tokens@, after + 1).text
                                &&& p == after + 2
                                &&& final(self).errors@ == old(self).errors@
                            }
                            &&& tok_at(tokens@, after + 1).kind != TokenKind::Identifier ==> {
                                &&& b.target@ == "UnknownTarget_"@ + dec_str(after + 1)
                                &&& p == after + 1
                                &&& final(self).errors@.len() == old(self).errors@.len() + 1
                                &&& final(self).errors@.drop_last() == old(self).errors@
                                &&& final(self).errors@.last()@.message
                                    == "Missing target in gateway branch"@
                                &&& final(self).errors@.last()@.span
                                    == tokens@[start_pos as int]@.span
                                &&& final(self).errors@.last()@.severity == ErrorSeverity::Error
                            }
                        },
                        Option::None => false,
                    }
                } else {
                    &&& r matches Option::None
                    &&& final(self).errors@.len() == old(self).errors@.len() + 1
                    &&& final(self).errors@.drop_last() == old(self).errors@
                    &&& final(self).errors@.last()@.message == "Missing arrow in gateway branch"@
                    &&& final(self).errors@.last()@.span == tokens@[start_pos as int]@.span
                    &&& final(self).errors@.last()@.severity == ErrorSeverity::Error
                }
            }),
            match r {
                Option::Some((b, p)) => {
                    &&& start_pos < p <= tokens@.len()
                    &&& b.span@ == tokens@[start_pos as int]@.span
                    &&& tokens@[start_pos as int]@.kind == TokenKind::DefaultFlow
                        ==> b.is_default && (b.condition matches Option::None)
                    &&& tokens@[start_pos as int]@.kind == TokenKind::Identifier
                        ==> !b.is_default && match &b.condition {
                            Option::Some(c) => c@ == tokens@[start_pos as int]@.text,
                            Option::None => false,
                        }
                },
                Option::None => true,
            },
    {
        let mut pos = start_pos;
        let span = tokens[pos].span.clone();

        let (condition, is_default): (Option<String>, bool) =
            if tokens[pos].kind == TokenKind::LeftBracket {
                pos = pos + 1;
                let mut cond = String::new();
                proof {
                    assert(cond@ =~= Seq::<char>::empty());
                }
                while pos < tokens.len() && tokens[pos].kind != TokenKind::RightBracket
                    invariant
                        start_pos < pos <= tokens@.len(),
                        raw_cond(tokens@, start_pos + 1, Seq::empty())
                            == raw_cond(tokens@, pos as int, cond@),
                    decreases tokens@.len() - pos,
                {
                    if cond.as_str().unicode_len() > 0 {
                        cond.append(" ");
                        proof {
                            reveal_strlit(" ");
                            assert(" "@ =~= seq![' ']);
                        }
                    }
                    cond.append(tokens[pos].text.as_str());
                    pos = pos + 1;
                }
                proof {
                    assert(raw_cond(tokens@, start_pos + 1, Seq::empty())
                        == (pos as int, cond@));
                }
                if pos < tokens.len() {
                    pos = pos + 1;
                }
                (Some(cond), false)
            } else if tokens[pos].kind == TokenKind::DefaultFlow {
                (None, true)
            } else if tokens[pos].kind == TokenKind::Identifier {
                let cond = tokens[pos].text.clone();
                pos = pos + 1;
                (Some(cond), false)
            } else {
                return None;
            };

        if pos >= tokens.len()
            || !(tokens[pos].kind == TokenKind::SequenceFlow
                || tokens[pos].kind == TokenKind::DefaultFlow) {
            self.errors.push(ParseError {
                message: "Missing arrow in gateway branch".to_owned(),
                span,
                severity: ErrorSeverity::Error,
            });
            proof {
                assert(old(self).errors@.is_prefix_of(self.errors@));
            }
            return None;
        }
        pos = pos + 1;

        let target = if pos < tokens.len() && tokens[pos].kind == TokenKind::Identifier {
            let target = tokens[pos].text.clone();
            pos = pos + 1;
            target
        } else {
            self.errors.push(ParseError {
                message: "Missing target in gateway branch".to_owned(),
                span: span.clone(),
                severity: ErrorSeverity::Error,
            });
            let mut placeholder = "UnknownTarget_".to_owned();
            placeholder.append(usize_to_string(pos).as_str());
            placeholder
        };

        let branch = GatewayBranch {
            condition,
            target,
            is_default,
            span,
        };

        proof {
            assert(old(self).errors@.is_prefix_of(self.errors@));
        }
        Some((branch, pos))
    }

    /// Rebuilds a flow from raw tokens: a recognizable source identifier
    /// and arrow are required to proceed at all; a missing target is
    /// replaced by a synthesized placeholder plus an error; a trailing
    /// bracketed condition is reassembled as text.
    pub fn recover_flow(&mut self, tokens: &[Token], start_pos: usize) -> (r: Option<(Flow, usize)>)
        ensures
            old(self).errors@.is_prefix_of(final(self).errors@),
            (start_pos < tokens@.len()
                && tokens@[start_pos as int]@.kind == TokenKind::Identifier
                && !(arrow_type(tok_at(tokens@, start_pos + 1).kind) matches Option::None))
                ==> (r matches Option::Some(_))
                    && if tok_at(tokens@, start_pos + 2).kind == TokenKind::Identifier {
                        final(self).errors@ == old(self).errors@
                    } else {
                        &&& final(self).errors@.len() == old(self).errors@.len() + 1
                        &&& final(self).errors@.drop_last() == old(self).errors@
                        &&& final(self).errors@.last()@.message == "Missing target in flow"@
                        &&& final(self).errors@.last()@.span
                            == tokens@[start_pos as int]@.span
                        &&& final(self).errors@.last()@.severity == ErrorSeverity::Error
                    },
            match r {
                Option::Some((f, p)) => {
                    &&& start_pos < p <= tokens@.len()
                    &&& start_pos < tokens@.len()
                    &&& tokens@[start_pos as int]@.kind == TokenKind::Identifier
                    &&& f.from@ == tokens@[start_pos as int]@.text
                    &&& arrow_type(tok_at(tokens@, start_pos + 1).kind)
                        == Option::Some(f.flow_type)
                    &&& f.span@ == tokens@[start_pos as int]@.span
                    &&& f.to@ == if tok_at(tokens@, start_pos + 2).kind == TokenKind::Identifier {
                        tok_at(tokens@, start_pos + 2).text
                    } else {
                        "UnknownTarget_"@ + dec_str(start_pos + 2)
                    }
                    &&& ({
                        let tpos = if tok_at(tokens@, start_pos + 2).kind
                            == TokenKind::Identifier {
                            start_pos + 3
                        } else {
                            start_pos + 2
                        };
                        if tok_at(tokens@, tpos).kind == TokenKind::LeftBracket {
                            match &f.condition {
                                Option::Some(c) => c@ == raw_cond(tokens@, tpos + 1, Seq::empty()).1,
                                Option::None => false,
                            }
                        } else {
                            f.condition matches Option::None
                        }
                    })
                },
                Option::None => true,
            },
            !(start_pos < tokens@.len()
                && tokens@[start_pos as int]@.kind == TokenKind::Identifier)
                ==> (r matches Option::None) && final(self).errors@ == old(self).errors@,
            (start_pos < tokens@.len()
                && tokens@[start_pos as int]@.kind == TokenKind::Identifier
                && (arrow_type(tok_at(tokens@, start_pos + 1).kind) matches Option::None))
                ==> (r matches Option::None) && final(self).errors@ == old(self).errors@,
    {
        let mut pos = start_pos;

        let from = if pos < tokens.len() && tokens[pos].kind == TokenKind::Identifier {
            let from = tokens[pos].text.clone();
            pos = pos + 1;
            from
        } else {
            return None;
        };

        let flow_type = if pos < tokens.len() {
            match tokens[pos].kind {
                TokenKind::SequenceFlow => {
                    pos = pos + 1;
                    FlowType::Sequence
                }
                TokenKind::MessageFlow => {
                    pos = pos + 1;
                    FlowType::Message
                }
                TokenKind::DefaultFlow => {
                    pos = pos + 1;
                    FlowType::Default
                }
                TokenKind::Association => {
                    pos = pos + 1;
                    FlowType::Association
                }
                _ => {
                    return None;
                }
            }
        } else {
            return None;
        };

        let to = if pos < tokens.len() && tokens[pos].kind == TokenKind::Identifier {
            let to = tokens[pos].text.clone();
            pos = pos + 1;
            to
        } else {
            self.errors.push(ParseError {
                message: "Missing target in flow".to_owned(),
                span: tokens[start_pos].span.clone(),
                severity: ErrorSeverity::Error,
            });
            let mut placeholder = "UnknownTarget_".to_owned();
            placeholder.append(usize_to_string(pos).as_str());
            placeholder
        };

        let ghost tpos = pos as int;
        let condition = if pos < tokens.len() && tokens[pos].kind == TokenKind::LeftBracket {
            pos = pos + 1;
            let mut cond = String::new();
            proof {
                assert(cond@ =~= Seq::<char>::empty());
            }
            while pos < tokens.len() && tokens[pos].kind != TokenKind::RightBracket
                invariant
                    start_pos < pos <= tokens@.len(),
                    raw_cond(tokens@, tpos + 1, Seq::empty())
                        == raw_cond(tokens@, pos as int, cond@),
                decreases tokens@.len() - pos,
            {
                if cond.as_str().unicode_len() > 0 {
                    cond.append(" ");
                    proof {
                        reveal_strlit(" ");
                        assert(" "@ =~= seq![' ']);
                    }
                }
                cond.append(tokens[pos].text.as_str());
                pos = pos + 1;
            }
            proof {
                assert(raw_cond(tokens@, tpos + 1, Seq::empty()) == (pos as int, cond@));
            }
            if pos < tokens.len() {
                pos = pos + 1;
            }
            Some(cond)
        } else {
            None
        };

        let flow = Flow {
            from,
            to,
            flow_type,
            condition,
            span: tokens[start_pos].span.clone(),
        };

        proof {
            assert(old(self).errors@.is_prefix_of(self.errors@));
        }
        Some((flow, pos))
    }

    /// Skips attribute-looking tokens after a recovered task: each `@key`
    /// run up to the next statement-like token, then one balanced
    /// parenthesized group, all without parsing their contents.
    fn skip_malformed_attributes(&mut self, tokens: &[Token], start_pos: usize) -> (r: usize)
        requires
            start_pos <= tokens@.len(),
        ensures
            *final(self) == *old(self),
            start_pos <= r <= tokens@.len(),
            r as int == attr_skip_end(tokens@, start_pos as int),
    {
        let mut pos = start_pos;

        while pos < tokens.len() && tokens[pos].kind == TokenKind::At
            invariant
                start_pos <= pos <= tokens@.len(),
                attr_skip_at(tokens@, start_pos as int) == attr_skip_at(tokens@, pos as int),
            decreases tokens@.len() - pos,
        {
            let ghost pb = pos as int;
            pos = pos + 1;
            while pos < tokens.len() && !is_attr_stop_kind_ex(tokens[pos].kind)
                invariant
                    start_pos <= pos <= tokens@.len(),
                    pb < pos,
                    attr_skip_inner(tokens@, pb + 1) == attr_skip_inner(tokens@, pos as int),
                decreases tokens@.len() - pos,
            {
                pos = pos + 1;
            }
            proof {
                assert(attr_skip_inner(tokens@, pb + 1) == pos as int);
            }
        }
        proof {
            assert(attr_skip_at(tokens@, start_pos as int) == pos as int);
        }

        let ghost a = pos as int;
        let n = tokens.len();
        if pos < tokens.len() && tokens[pos].kind == TokenKind::LeftParen {
            pos = pos + 1;
            let mut paren_count: usize = 1;
            while pos < tokens.len() && paren_count > 0
                invariant
                    start_pos <= pos <= tokens@.len(),
                    n == tokens@.len(),
                    start_pos <= a < pos,
                    paren_count as int <= pos - a,
                    paren_skip(tokens@, a + 1, 1)
                        == paren_skip(tokens@, pos as int, paren_count as int),
                decreases tokens@.len() - pos,
            {
                proof {
                    assert(pos < n);
                }
                match tokens[pos].kind {
                    TokenKind::LeftParen => {
                        paren_count = paren_count + 1;
                    }
                    TokenKind::RightParen => {
                        paren_count = paren_count - 1;
                    }
                    _ => {}
                }
                pos = pos + 1;
            }
            proof {
                assert(paren_skip(tokens@, a + 1, 1) == pos as int);
            }
        }

        pos
    }

    /// Finds the next safe place to resume document-level parsing: just
    /// past the next `}`, at the next statement-introducing keyword, or at
    /// the end of input. Never moves backward.
    pub fn find_sync_point(&self, tokens: &[Token], start_pos: usize) -> (r: usize)
        requires
            start_pos <= tokens@.len(),
        ensures
            r == sync_pos(tokens@, start_pos as int),
            start_pos <= r,
            r <= tokens@.len(),
    {
        let mut pos = start_pos;

        while pos < tokens.len()
            invariant
                start_pos <= pos <= tokens@.len(),
                sync_pos(tokens@, start_pos as int) == sync_pos(tokens@, pos as int),
            ensures
                start_pos <= pos,
                pos <= tokens@.len(),
                pos == sync_pos(tokens@, start_pos as int),
            decreases tokens@.len() - pos,
        {
            match tokens[pos].kind {
                TokenKind::RightBrace => {
                    pos = pos + 1;
                    proof {
                        assert(pos - 1 < tokens@.len());
                    }
                    return pos;
                }
                TokenKind::Start | TokenKind::End | TokenKind::Task | TokenKind::User
                | TokenKind::Service | TokenKind::Script | TokenKind::Xor | TokenKind::And
                | TokenKind::Event | TokenKind::Process | TokenKind::Import
                | TokenKind::Subprocess | TokenKind::Pool | TokenKind::Lane => {
                    return pos;
                }
                _ => {
                    pos = pos + 1;
                }
            }
        }

        pos
    }
}

/// Executable check for the attribute-stop kinds.
fn is_attr_stop_kind_ex(k: TokenKind) -> (r: bool)
    ensures
        r == is_attr_stop_kind(k),
{
    k == TokenKind::At || k == TokenKind::LeftParen || k == TokenKind::Start
        || k == TokenKind::End || k == TokenKind::Task || k == TokenKind::User
        || k == TokenKind::Service || k == TokenKind::Script || k == TokenKind::Xor
        || k == TokenKind::And || k == TokenKind::RightBrace
}

impl Default for ErrorRecovery {
    fn default() -> (r: ErrorRecovery)
        ensures
            r.recovered_elements@.len() == 0,
            r.recovered_flows@.len() == 0,
            r.errors@.len() == 0,
    {
        ErrorRecovery::new()
    }
}

} // verus!
