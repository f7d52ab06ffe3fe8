//! The post-parse semantic validator: a read-only pass over the finished
//! syntax tree. It enforces identifier uniqueness per direct container
//! (nested containers get fresh scopes that do not merge with their
//! parent's), checks flow endpoints against the owning container's
//! identifiers with the two sentinels `start` and `end`, and warns about
//! processes without a start event. The exact list of diagnostics it
//! produces is pinned down by `document_errors`.

use vstd::prelude::*;
use vstd::string::*;
use crate::lexer::Span;
use crate::parser::ast::{
    AstDocument, ErrorSeverity, Flow, FlowType, ParseError, ParseErrorModel, ProcessDeclaration,
    ProcessElement,
};
use crate::text::str_eq;

verus! {

/// A semantic diagnostic; the same shape as a parse error.
pub type SyntaxError = ParseError;

/// An empty list means the document passed; a non-empty one holds every
/// diagnostic found, errors and warnings together.
pub type ValidationResult = Result<(), Vec<SyntaxError>>;

/// The models of an error sequence.
pub open spec fn error_models(es: Seq<ParseError>) -> Seq<ParseErrorModel> {
    es.map_values(|e: ParseError| e@)
}

/// The set of identifiers a run of owned strings denotes.
pub open spec fn ids_set(v: Seq<String>) -> Set<Seq<char>>
    decreases v.len(),
{
    if v.len() == 0 {
        Set::empty()
    } else {
        ids_set(v.drop_last()).insert(v.last()@)
    }
}

pub proof fn lemma_ids_set_contains(v: Seq<String>, k: Seq<char>)
    ensures
        ids_set(v).contains(k) <==> exists|i: int| 0 <= i < v.len() && v[i]@ == k,
    decreases v.len(),
{
    if v.len() > 0 {
        lemma_ids_set_contains(v.drop_last(), k);
        if v.last()@ == k {
            assert(v[v.len() - 1]@ == k);
        }
        if exists|i: int| 0 <= i < v.drop_last().len() && v.drop_last()[i]@ == k {
            let i = choose|i: int| 0 <= i < v.drop_last().len() && v.drop_last()[i]@ == k;
            assert(v[i]@ == k);
        }
        if exists|i: int| 0 <= i < v.len() && v[i]@ == k {
            let i = choose|i: int| 0 <= i < v.len() && v[i]@ == k;
            if i < v.len() - 1 {
                assert(v.drop_last()[i]@ == k);
            }
        }
    }
}

/// The duplicate-identifier diagnostic.
pub open spec fn dup_error(id: Seq<char>, span: crate::lexer::SpanModel) -> ParseErrorModel {
    ParseErrorModel {
        message: "Duplicate node id '"@ + id + "'"@,
        span: span,
        severity: ErrorSeverity::Error,
    }
}

/// The diagnostics and updated scope that checking one element produces:
/// containers first validate their children in a fresh scope - a
/// subprocess also checks its own flows against that scope, a pool also
/// validates each lane body in a fresh scope of its own and checks the
/// pool's flows - then the container's own identifier is checked against
/// (and added to) the current scope. Groups and annotations have no
/// identifier of their own; a pool is known by its name.
pub open spec fn element_check(e: &ProcessElement, ids: Set<Seq<char>>) -> (Seq<ParseErrorModel>, Set<Seq<char>>)
    decreases e, 0int,
{
    match e {
        ProcessElement::StartEvent { id, span, .. } => id_check(opt_id_view(id), span@, ids),
        ProcessElement::EndEvent { id, span, .. } => id_check(opt_id_view(id), span@, ids),
        ProcessElement::Task { id, span, .. } => id_check(Option::Some(id@), span@, ids),
        ProcessElement::Gateway { id, span, .. } => id_check(opt_id_view(id), span@, ids),
        ProcessElement::IntermediateEvent { id, span, .. } => id_check(opt_id_view(id), span@, ids),
        ProcessElement::Subprocess { id, elements, flows, span, .. } => {
            let nested = elements_check(elements@, 0, Set::empty());
            let fl = flows_errors(flows@, 0, nested.1);
            let own = id_check(Option::Some(id@), span@, ids);
            (nested.0 + fl + own.0, own.1)
        },
        ProcessElement::CallActivity { id, span, .. } => id_check(Option::Some(id@), span@, ids),
        ProcessElement::Pool { name, lanes, elements, flows, span } => {
            let nested = elements_check(elements@, 0, Set::empty());
            let ln = lanes_check(lanes@, 0);
            let fl = flows_errors(flows@, 0, nested.1);
            let own = id_check(Option::Some(name@), span@, ids);
            (nested.0 + ln + fl + own.0, own.1)
        },
        ProcessElement::Group { elements, span, .. } => {
            let nested = elements_check(elements@, 0, Set::empty());
            (nested.0, ids)
        },
        ProcessElement::Annotation { .. } => (Seq::empty(), ids),
    }
}

/// The diagnostics of the lane bodies from index `i` on, each body in an
/// independent scope of its own.
pub open spec fn lanes_check(ls: Seq<crate::parser::ast::Lane>, i: int) -> Seq<ParseErrorModel>
    decreases ls, ls.len() - i when 0 <= i <= ls.len()
{
    if i >= ls.len() {
        Seq::empty()
    } else {
        elements_check(ls[i].elements@, 0, Set::empty()).0 + lanes_check(ls, i + 1)
    }
}

/// The view of an optional identifier.
pub open spec fn opt_id_view(id: &Option<String>) -> Option<Seq<char>> {
    match id {
        Option::Some(s) => Option::Some(s@),
        Option::None => Option::None,
    }
}

/// The view of an optional borrowed identifier.
pub open spec fn opt_ref_view(id: Option<&String>) -> Option<Seq<char>> {
    match id {
        Option::Some(s) => Option::Some(s@),
        Option::None => Option::None,
    }
}

/// One identifier against the current scope: a second occurrence reports a
/// duplicate; a first occurrence joins the scope.
pub open spec fn id_check(id: Option<Seq<char>>, span: crate::lexer::SpanModel, ids: Set<Seq<char>>) -> (Seq<ParseErrorModel>, Set<Seq<char>>) {
    match id {
        Option::Some(k) => if ids.contains(k) {
            (seq![dup_error(k, span)], ids)
        } else {
            (Seq::empty(), ids.insert(k))
        },
        Option::None => (Seq::empty(), ids),
    }
}

/// Checking the elements from index `i` on, threading the scope through.
pub open spec fn elements_check(es: Seq<ProcessElement>, i: int, ids: Set<Seq<char>>) -> (Seq<ParseErrorModel>, Set<Seq<char>>)
    decreases es, es.len() - i when 0 <= i <= es.len()
{
    if i >= es.len() {
        (Seq::empty(), ids)
    } else {
        let head = element_check(&es[i], ids);
        let rest = elements_check(es, i + 1, head.1);
        (head.0 + rest.0, rest.1)
    }
}

/// The diagnostics one flow produces against its container's identifiers.
/// Sequence, message and association flows are currently always accepted
/// (reserved extension points); a default flow's source must resolve to a
/// known identifier or `start`; then both endpoints are checked, with the
/// sentinels `start` (as source) and `end` (as target) always valid.
pub open spec fn flow_errors(f: &Flow, ids: Set<Seq<char>>) -> Seq<ParseErrorModel> {
    let type_errs: Seq<ParseErrorModel> = if f.flow_type == FlowType::Default
        && !(ids.contains(f.from@) || f.from@ == "start"@) {
        seq![ParseErrorModel {
            message: "The default arrow can only come from the gateway: "@ + f.from@
                + " => "@ + f.to@,
            span: f.span@,
            severity: ErrorSeverity::Error,
        }]
    } else {
        Seq::empty()
    };
    let src_errs: Seq<ParseErrorModel> = if !ids.contains(f.from@) && f.from@ != "start"@ {
        seq![ParseErrorModel {
            message: "Unknown flow source: '"@ + f.from@ + "'"@,
            span: f.span@,
            severity: ErrorSeverity::Error,
        }]
    } else {
        Seq::empty()
    };
    let dst_errs: Seq<ParseErrorModel> = if !ids.contains(f.to@) && f.to@ != "end"@ {
        seq![ParseErrorModel {
            message: "Unknown flow target: '"@ + f.to@ + "'"@,
            span: f.span@,
            severity: ErrorSeverity::Error,
        }]
    } else {
        Seq::empty()
    };
    type_errs + src_errs + dst_errs
}

/// The flow diagnostics from index `i` on.
pub open spec fn flows_errors(fs: Seq<Flow>, i: int, ids: Set<Seq<char>>) -> Seq<ParseErrorModel>
    decreases fs.len() - i when 0 <= i <= fs.len()
{
    if i >= fs.len() {
        Seq::empty()
    } else {
        flow_errors(&fs[i], ids) + flows_errors(fs, i + 1, ids)
    }
}

/// The diagnostics one process produces: its elements checked in order in
/// a fresh scope, then its flows against the resulting identifiers.
pub open spec fn process_errors(p: &ProcessDeclaration) -> Seq<ParseErrorModel> {
    let ec = elements_check(p.elements@, 0, Set::empty());
    ec.0 + flows_errors(p.flows@, 0, ec.1)
}

/// The element and flow diagnostics of the processes from index `i` on.
pub open spec fn processes_errors(ps: Seq<ProcessDeclaration>, i: int) -> Seq<ParseErrorModel>
    decreases ps.len() - i when 0 <= i <= ps.len()
{
    if i >= ps.len() {
        Seq::empty()
    } else {
        process_errors(&ps[i]) + processes_errors(ps, i + 1)
    }
}

/// Whether a process holds a start event among its direct elements
/// (containers are not searched).
pub open spec fn has_start_event(es: Seq<ProcessElement>) -> bool {
    exists|i: int| 0 <= i < es.len() && (#[trigger] es[i]) matches ProcessElement::StartEvent { .. }
}

/// The missing-start-event warning of one process, if it is owed.
pub open spec fn start_warning(p: &ProcessDeclaration) -> Seq<ParseErrorModel> {
    if has_start_event(p.elements@) {
        Seq::empty()
    } else {
        seq![ParseErrorModel {
            message: "Process '"@ + p.name@ + "' must contain at least one start event"@,
            span: p.span@,
            severity: ErrorSeverity::Warning,
        }]
    }
}

/// The missing-start-event warnings of the processes from index `i` on.
pub open spec fn start_warnings(ps: Seq<ProcessDeclaration>, i: int) -> Seq<ParseErrorModel>
    decreases ps.len() - i when 0 <= i <= ps.len()
{
    if i >= ps.len() {
        Seq::empty()
    } else {
        start_warning(&ps[i]) + start_warnings(ps, i + 1)
    }
}

/// Every diagnostic semantic validation reports for a document, in order:
/// per process its element and flow checks, then per process its
/// missing-start-event warning.
pub open spec fn document_errors(d: &AstDocument) -> Seq<ParseErrorModel> {
    processes_errors(d.processes@, 0) + start_warnings(d.processes@, 0)
}

/// Whether `v` holds the identifier `k`.
#[verifier::loop_isolation(false)]
fn contains_id(v: &Vec<String>, k: &str) -> (r: bool)
    ensures
        r == ids_set(v@).contains(k@),
{
    proof {
        lemma_ids_set_contains(v@, k@);
    }
    let mut i: usize = 0;
    while i < v.len()
        invariant
            i <= v@.len(),
            forall|m: int| 0 <= m < i ==> (#[trigger] v@[m])@ != k@,
        decreases v@.len() - i,
    {
        if str_eq(v[i].as_str(), k) {
            proof {
                assert(v@[i as int]@ == k@);
            }
            return true;
        }
        i = i + 1;
    }
    false
}

/// The semantic validator; collects every diagnostic of one `validate`
/// run.
pub struct SyntaxValidator {
    errors: Vec<SyntaxError>,
}

impl SyntaxValidator {
    /// The diagnostics collected so far.
    pub closed spec fn errs(&self) -> Seq<ParseError> {
        self.errors@
    }

    pub fn new() -> (r: SyntaxValidator)
        ensures
            r.errs().len() == 0,
    {
        SyntaxValidator { errors: Vec::new() }
    }

    /// Validates a whole document. Returns `Ok` exactly when no diagnostic
    /// is owed; otherwise the full list, errors and warnings together, as
    /// pinned down by `document_errors`.
    #[verifier::loop_isolation(false)]
    pub fn validate(&mut self, document: &AstDocument) -> (r: ValidationResult)
        ensures
            error_models(final(self).errs()) == document_errors(document),
            match r {
                Result::Ok(()) => document_errors(document).len() == 0,
                Result::Err(es) => error_models(es@) == document_errors(document)
                    && es@.len() > 0,
            },
    {
        self.errors = Vec::new();

        let ghost ps = document.processes@;
        let mut pi: usize = 0;
        proof {
            assert(error_models(self.errors@) + processes_errors(ps, 0)
                =~= processes_errors(ps, 0));
        }
        while pi < document.processes.len()
            invariant
                pi <= ps.len(),
                ps == document.processes@,
                error_models(self.errors@) + processes_errors(ps, pi as int)
                    == processes_errors(ps, 0),
            decreases ps.len() - pi,
        {
            let process = &document.processes[pi];
            let mut node_ids: Vec<String> = Vec::new();

            let ghost errs_before = self.errors@;
            let ghost es = process.elements@;
            proof {
                assert(ids_set(node_ids@) =~= Set::<Seq<char>>::empty());
                assert(error_models(self.errors@) + elements_check(es, 0, Set::empty()).0
                    =~= errs_before.map_values(|e: ParseError| e@)
                        + elements_check(es, 0, Set::empty()).0);
            }
            let mut ei: usize = 0;
            while ei < process.elements.len()
                invariant
                    ei <= es.len(),
                    es == process.elements@,
                    error_models(self.errors@)
                        + elements_check(es, ei as int, ids_set(node_ids@)).0
                        == error_models(errs_before) + elements_check(es, 0, Set::empty()).0,
                    elements_check(es, ei as int, ids_set(node_ids@)).1
                        == elements_check(es, 0, Set::empty()).1,
                decreases es.len() - ei,
            {
                self.validate_element(&process.elements[ei], &mut node_ids);
                ei = ei + 1;
            }

            let ghost errs_mid = self.errors@;
            let ghost fs = process.flows@;
            let mut fi: usize = 0;
            while fi < process.flows.len()
                invariant
                    fi <= fs.len(),
                    fs == process.flows@,
                    ids_set(node_ids@) == elements_check(es, 0, Set::empty()).1,
                    es == process.elements@,
                    error_models(self.errors@)
                        + flows_errors(fs, fi as int, ids_set(node_ids@))
                        == error_models(errs_mid) + flows_errors(fs, 0, ids_set(node_ids@)),
                decreases fs.len() - fi,
            {
                self.validate_flow(&process.flows[fi], &node_ids);
                fi = fi + 1;
            }

            pi = pi + 1;
            proof {
                assert(process_errors(&ps[pi as int - 1])
                    =~= elements_check(es, 0, Set::empty()).0
                        + flows_errors(fs, 0, elements_check(es, 0, Set::empty()).1));
                assert(error_models(self.errors@)
                    =~= error_models(errs_before) + process_errors(&ps[pi as int - 1]));
                assert(error_models(self.errors@) + processes_errors(ps, pi as int)
                    =~= processes_errors(ps, 0));
            }
        }

        self.validate_unknown_commands(document);

        proof {
            assert(error_models(self.errors@) =~= document_errors(document));
        }

        if self.errors.len() == 0 {
            proof {
                assert(document_errors(document) =~= error_models(self.errors@));
            }
            Ok(())
        } else {
            let mut copy: Vec<SyntaxError> = Vec::new();
            let mut k: usize = 0;
            while k < self.errors.len()
                invariant
                    k <= self.errors@.len(),
                    copy@.len() == k,
                    forall|m: int| 0 <= m < k ==> (#[trigger] copy@[m])@ == self.errors@[m]@,
                decreases self.errors@.len() - k,
            {
                copy.push(self.errors[k].clone());
                k = k + 1;
            }
            proof {
                assert(error_models(copy@) =~= error_models(self.errors@));
            }
            Err(copy)
        }
    }

    /// Checks one element against the current scope, recursing into
    /// containers with fresh scopes first, exactly as `element_check`
    /// says.
    #[verifier::loop_isolation(false)]
    fn validate_element(&mut self, element: &ProcessElement, node_ids: &mut Vec<String>)
        ensures
            error_models(final(self).errs()) == error_models(old(self).errs())
                + element_check(element, ids_set(old(node_ids)@)).0,
            ids_set(final(node_ids)@) == element_check(element, ids_set(old(node_ids)@)).1,
        decreases element, 0int,
    {
        let ghost ids0 = ids_set(node_ids@);
        let (id_opt, span): (Option<&String>, &Span) = match element {
            ProcessElement::Gateway { id, span, .. } => {
                (if let Some(s) = id { Some(s) } else { None }, span)
            }
            ProcessElement::EndEvent { id, span, .. } => {
                (if let Some(s) = id { Some(s) } else { None }, span)
            }
            ProcessElement::StartEvent { id, span, .. } => {
                (if let Some(s) = id { Some(s) } else { None }, span)
            }
            ProcessElement::IntermediateEvent { id, span, .. } => {
                (if let Some(s) = id { Some(s) } else { None }, span)
            }
            ProcessElement::Subprocess { id, span, elements, flows, .. } => {
                let mut nested_ids: Vec<String> = Vec::new();
                self.validate_children(elements, &mut nested_ids);
                self.validate_container_flows(flows, &nested_ids);
                (Some(id), span)
            }
            ProcessElement::CallActivity { id, span, .. } => (Some(id), span),
            ProcessElement::Task { id, span, .. } => (Some(id), span),
            ProcessElement::Pool { name, span, lanes, elements, flows } => {
                let mut pool_ids: Vec<String> = Vec::new();
                self.validate_children(elements, &mut pool_ids);
                self.validate_lanes(lanes);
                self.validate_container_flows(flows, &pool_ids);
                (Some(name), span)
            }
            ProcessElement::Group { elements, span, .. } => {
                let mut group_ids: Vec<String> = Vec::new();
                self.validate_children(elements, &mut group_ids);
                (None, span)
            }
            ProcessElement::Annotation { span, .. } => (None, span),
        };

        let ghost errs_mid = self.errors@;
        let ghost own = id_check(opt_ref_view(id_opt), span@, ids0);
        proof {
            match element {
                ProcessElement::Subprocess { id, elements, flows, span: sp, .. } => {
                    assert(opt_ref_view(id_opt) == Option::Some(id@));
                    assert(span@ == sp@);
                    assert(error_models(errs_mid) =~= error_models(old(self).errs())
                        + elements_check(elements@, 0, Set::empty()).0
                        + flows_errors(flows@, 0, elements_check(elements@, 0, Set::empty()).1));
                    assert(element_check(element, ids0).0
                        =~= elements_check(elements@, 0, Set::empty()).0
                            + flows_errors(flows@, 0, elements_check(elements@, 0, Set::empty()).1)
                            + own.0);
                    assert(element_check(element, ids0).1 == own.1);
                }
                ProcessElement::Pool { name, lanes, elements, flows, span: sp } => {
                    assert(opt_ref_view(id_opt) == Option::Some(name@));
                    assert(span@ == sp@);
                    assert(error_models(errs_mid) =~= error_models(old(self).errs())
                        + elements_check(elements@, 0, Set::empty()).0
                        + lanes_check(lanes@, 0)
                        + flows_errors(flows@, 0, elements_check(elements@, 0, Set::empty()).1));
                    assert(element_check(element, ids0).0
                        =~= elements_check(elements@, 0, Set::empty()).0
                            + lanes_check(lanes@, 0)
                            + flows_errors(flows@, 0, elements_check(elements@, 0, Set::empty()).1)
                            + own.0);
                    assert(element_check(element, ids0).1 == own.1);
                }
                ProcessElement::Group { elements, span: sp, .. } => {
                    assert(opt_ref_view(id_opt) == Option::<Seq<char>>::None);
                    assert(error_models(errs_mid) =~= error_models(old(self).errs())
                        + elements_check(elements@, 0, Set::empty()).0);
                    assert(element_check(element, ids0).0
                        =~= elements_check(elements@, 0, Set::empty()).0 + own.0);
                    assert(element_check(element, ids0).1 == own.1);
                }
                ProcessElement::Gateway { id, span: sp, .. } => {
                    assert(opt_ref_view(id_opt) == opt_id_view(id));
                    assert(span@ == sp@);
                    assert(errs_mid == old(self).errs());
                    assert(element_check(element, ids0).0
                        =~= Seq::<ParseErrorModel>::empty() + own.0);
                    assert(element_check(element, ids0).1 == own.1);
                }
                ProcessElement::StartEvent { id, span: sp, .. } => {
                    assert(opt_ref_view(id_opt) == opt_id_view(id));
                    assert(span@ == sp@);
                    assert(errs_mid == old(self).errs());
                    assert(element_check(element, ids0).0
                        =~= Seq::<ParseErrorModel>::empty() + own.0);
                    assert(element_check(element, ids0).1 == own.1);
                }
                ProcessElement::EndEvent { id, span: sp, .. } => {
                    assert(opt_ref_view(id_opt) == opt_id_view(id));
                    assert(span@ == sp@);
                    assert(errs_mid == old(self).errs());
                    assert(element_check(element, ids0).0
                        =~= Seq::<ParseErrorModel>::empty() + own.0);
                    assert(element_check(element, ids0).1 == own.1);
                }
                ProcessElement::IntermediateEvent { id, span: sp, .. } => {
                    assert(opt_ref_view(id_opt) == opt_id_view(id));
                    assert(span@ == sp@);
                    assert(errs_mid == old(self).errs());
                    assert(element_check(element, ids0).0
                        =~= Seq::<ParseErrorModel>::empty() + own.0);
                    assert(element_check(element, ids0).1 == own.1);
                }
                ProcessElement::Task { id, span: sp, .. } => {
                    assert(opt_ref_view(id_opt) == Option::Some(id@));
                    assert(span@ == sp@);
                    assert(errs_mid == old(self).errs());
                    assert(element_check(element, ids0).0
                        =~= Seq::<ParseErrorModel>::empty() + own.0);
                    assert(element_check(element, ids0).1 == own.1);
                }
                ProcessElement::CallActivity { id, span: sp, .. } => {
                    assert(opt_ref_view(id_opt) == Option::Some(id@));
                    assert(span@ == sp@);
                    assert(errs_mid == old(self).errs());
                    assert(element_check(element, ids0).0
                        =~= Seq::<ParseErrorModel>::empty() + own.0);
                    assert(element_check(element, ids0).1 == own.1);
                }
                ProcessElement::Annotation { span: sp, .. } => {
                    assert(opt_ref_view(id_opt) == Option::<Seq<char>>::None);
                    assert(errs_mid == old(self).errs());
                    assert(element_check(element, ids0).0
                        =~= Seq::<ParseErrorModel>::empty() + own.0);
                    assert(element_check(element, ids0).1 == own.1);
                }
            }
        }

        if let Some(id) = id_opt {
            if contains_id(node_ids, id.as_str()) {
                let mut message = "Duplicate node id '".to_owned();
                message.append(id.as_str());
                message.append("'");
                let err = SyntaxError {
                    message,
                    span: span.clone(),
                    severity: ErrorSeverity::Error,
                };
                let ghost ev = err@;
                let ghost epre = self.errors@;
                proof {
                    assert(ev == dup_error(id@, span@));
                    assert(own.0 =~= seq![dup_error(id@, span@)]);
                }
                self.errors.push(err);
                proof {
                    assert(error_models(self.errors@) =~= error_models(epre).push(ev));
                    assert(error_models(self.errors@) =~= error_models(errs_mid) + own.0);
                }
            } else {
                node_ids.push(id.clone());
                proof {
                    assert(node_ids@.drop_last() =~= old(node_ids)@);
                    assert(ids_set(node_ids@) == ids0.insert(id@));
                    assert(own.0.len() == 0);
                    assert(error_models(self.errors@) =~= error_models(errs_mid) + own.0);
                }
            }
        } else {
            proof {
                assert(own.0.len() == 0);
                assert(error_models(self.errors@) =~= error_models(errs_mid) + own.0);
            }
        }
        proof {
            assert(error_models(self.errors@) =~= error_models(old(self).errs())
                + element_check(element, ids0).0);
            assert(ids_set(node_ids@) == own.1);
        }
    }

    /// Checks a container's children in their own fresh scope.
    #[verifier::loop_isolation(false)]
    fn validate_children(&mut self, elements: &Vec<ProcessElement>, scope_ids: &mut Vec<String>)
        requires
            old(scope_ids)@.len() == 0,
        ensures
            error_models(final(self).errs()) == error_models(old(self).errs())
                + elements_check(elements@, 0, Set::empty()).0,
            ids_set(final(scope_ids)@) == elements_check(elements@, 0, Set::empty()).1,
        decreases elements, usize::MAX as int,
    {
        let ghost es = elements@;
        let ghost errs0 = self.errors@;
        proof {
            assert(ids_set(scope_ids@) =~= Set::<Seq<char>>::empty());
        }
        let mut i: usize = 0;
        while i < elements.len()
            invariant
                i <= es.len(),
                es == elements@,
                error_models(self.errors@) + elements_check(es, i as int, ids_set(scope_ids@)).0
                    == error_models(errs0) + elements_check(es, 0, Set::empty()).0,
                elements_check(es, i as int, ids_set(scope_ids@)).1
                    == elements_check(es, 0, Set::empty()).1,
            decreases es.len() - i,
        {
            self.validate_element(&elements[i], scope_ids);
            i = i + 1;
        }
    }

    /// Checks a container's own flows against its scope, exactly as
    /// `flows_errors` says.
    fn validate_container_flows(&mut self, flows: &Vec<Flow>, scope_ids: &Vec<String>)
        ensures
            error_models(final(self).errs()) == error_models(old(self).errs())
                + flows_errors(flows@, 0, ids_set(scope_ids@)),
    {
        let ghost fs = flows@;
        let ghost errs0 = self.errors@;
        let mut i: usize = 0;
        proof {
            assert(error_models(errs0) + flows_errors(fs, 0, ids_set(scope_ids@))
                =~= error_models(errs0) + flows_errors(fs, 0, ids_set(scope_ids@)));
        }
        while i < flows.len()
            invariant
                i <= fs.len(),
                fs == flows@,
                error_models(self.errors@) + flows_errors(fs, i as int, ids_set(scope_ids@))
                    == error_models(errs0) + flows_errors(fs, 0, ids_set(scope_ids@)),
            decreases fs.len() - i,
        {
            self.validate_flow(&flows[i], scope_ids);
            i = i + 1;
        }
        proof {
            assert(flows_errors(fs, fs.len() as int, ids_set(scope_ids@)) =~= Seq::empty());
            assert(error_models(self.errors@)
                + flows_errors(fs, fs.len() as int, ids_set(scope_ids@))
                =~= error_models(self.errors@));
        }
    }

    /// Checks every lane body in an independent scope of its own, exactly
    /// as `lanes_check` says.
    fn validate_lanes(&mut self, lanes: &Vec<crate::parser::ast::Lane>)
        ensures
            error_models(final(self).errs()) == error_models(old(self).errs())
                + lanes_check(lanes@, 0),
        decreases lanes, usize::MAX as int,
    {
        let ghost ls = lanes@;
        let ghost errs0 = self.errors@;
        let mut i: usize = 0;
        proof {
            assert(error_models(errs0) + lanes_check(ls, 0)
                =~= error_models(errs0) + lanes_check(ls, 0));
        }
        while i < lanes.len()
            invariant
                i <= ls.len(),
                ls == lanes@,
                error_models(self.errors@) + lanes_check(ls, i as int)
                    == error_models(errs0) + lanes_check(ls, 0),
            decreases ls.len() - i,
        {
            let mut lane_ids: Vec<String> = Vec::new();
            self.validate_children(&lanes[i].elements, &mut lane_ids);
            i = i + 1;
        }
        proof {
            assert(lanes_check(ls, ls.len() as int) =~= Seq::empty());
            assert(error_models(self.errors@) + lanes_check(ls, ls.len() as int)
                =~= error_models(self.errors@));
        }
    }

    /// Checks one flow against the container's identifiers, exactly as
    /// `flow_errors` says.
    fn validate_flow(&mut self, flow: &Flow, node_ids: &Vec<String>)
        ensures
            error_models(final(self).errs()) == error_models(old(self).errs())
                + flow_errors(flow, ids_set(node_ids@)),
    {
        let ghost before = self.errors@;
        match flow.flow_type {
            FlowType::Sequence => {
                if !self.is_valid_sequence_flow(flow.from.as_str(), flow.to.as_str(), node_ids) {
                    let mut message = "Invalid sequential arrow: ".to_owned();
                    message.append(flow.from.as_str());
                    message.append(" -> ");
                    message.append(flow.to.as_str());
                    self.errors.push(SyntaxError {
                        message,
                        span: flow.span.clone(),
                        severity: ErrorSeverity::Error,
                    });
                }
            }
            FlowType::Message => {
                if !self.is_valid_message_flow(flow.from.as_str(), flow.to.as_str()) {
                    let mut message = "Invalid message arrow: ".to_owned();
                    message.append(flow.from.as_str());
                    message.append(" --> ");
                    message.append(flow.to.as_str());
                    self.errors.push(SyntaxError {
                        message,
                        span: flow.span.clone(),
                        severity: ErrorSeverity::Error,
                    });
                }
            }
            FlowType::Default => {
                if !self.is_valid_default_flow(flow.from.as_str(), node_ids) {
                    let mut message = "The default arrow can only come from the gateway: "
                        .to_owned();
                    message.append(flow.from.as_str());
                    message.append(" => ");
                    message.append(flow.to.as_str());
                    self.errors.push(SyntaxError {
                        message,
                        span: flow.span.clone(),
                        severity: ErrorSeverity::Error,
                    });
                }
            }
            FlowType::Association => {
                if !self.is_valid_association(flow.from.as_str(), flow.to.as_str()) {
                    let mut message = "Invalid associative link: ".to_owned();
                    message.append(flow.from.as_str());
                    message.append(" ..> ");
                    message.append(flow.to.as_str());
                    self.errors.push(SyntaxError {
                        message,
                        span: flow.span.clone(),
                        severity: ErrorSeverity::Warning,
                    });
                }
            }
        }

        if !contains_id(node_ids, flow.from.as_str()) && !str_eq(flow.from.as_str(), "start") {
            let mut message = "Unknown flow source: '".to_owned();
            message.append(flow.from.as_str());
            message.append("'");
            self.errors.push(SyntaxError {
                message,
                span: flow.span.clone(),
                severity: ErrorSeverity::Error,
            });
        }

        if !contains_id(node_ids, flow.to.as_str()) && !str_eq(flow.to.as_str(), "end") {
            let mut message = "Unknown flow target: '".to_owned();
            message.append(flow.to.as_str());
            message.append("'");
            self.errors.push(SyntaxError {
                message,
                span: flow.span.clone(),
                severity: ErrorSeverity::Error,
            });
        }

        proof {
            assert(error_models(self.errors@) =~= error_models(before)
                + flow_errors(flow, ids_set(node_ids@)));
        }
    }

    /// Warns, per process, when no start event stands among its direct
    /// elements.
    #[verifier::loop_isolation(false)]
    fn validate_unknown_commands(&mut self, document: &AstDocument)
        ensures
            error_models(final(self).errs()) == error_models(old(self).errs())
                + start_warnings(document.processes@, 0),
    {
        let ghost ps = document.processes@;
        let ghost errs0 = self.errors@;
        let mut pi: usize = 0;
        while pi < document.processes.len()
            invariant
                pi <= ps.len(),
                ps == document.processes@,
                error_models(self.errors@) + start_warnings(ps, pi as int)
                    == error_models(errs0) + start_warnings(ps, 0),
            decreases ps.len() - pi,
        {
            let process = &document.processes[pi];
            let mut has_start = false;
            let ghost es = process.elements@;
            let mut ei: usize = 0;
            while ei < process.elements.len()
                invariant
                    ei <= es.len(),
                    es == process.elements@,
                    has_start == exists|m: int| 0 <= m < ei
                        && (#[trigger] es[m]) matches ProcessElement::StartEvent { .. },
                decreases es.len() - ei,
            {
                if matches!(&process.elements[ei], ProcessElement::StartEvent { .. }) {
                    has_start = true;
                }
                ei = ei + 1;
            }

            if !has_start {
                let mut message = "Process '".to_owned();
                message.append(process.name.as_str());
                message.append("' must contain at least one start event");
                self.errors.push(SyntaxError {
                    message,
                    span: process.span.clone(),
                    severity: ErrorSeverity::Warning,
                });
            }
            pi = pi + 1;
            proof {
                assert(error_models(self.errors@) + start_warnings(ps, pi as int)
                    =~= error_models(errs0) + start_warnings(ps, 0));
            }
        }
    }

    /// Sequence flows are currently always accepted: a reserved extension
    /// point kept permissive on purpose.
    fn is_valid_sequence_flow(&self, from: &str, to: &str, _node_ids: &Vec<String>) -> (r: bool)
        ensures
            r,
    {
        if str_eq(from, "start") || str_eq(to, "end") {
            return true;
        }

        true
    }

    /// Message flows are currently always accepted: a reserved extension
    /// point kept permissive on purpose.
    fn is_valid_message_flow(&self, _from: &str, _to: &str) -> (r: bool)
        ensures
            r,
    {
        true
    }

    /// A default flow's source must be a known identifier or `start`.
    fn is_valid_default_flow(&self, from: &str, node_ids: &Vec<String>) -> (r: bool)
        ensures
            r == (ids_set(node_ids@).contains(from@) || from@ == "start"@),
    {
        contains_id(node_ids, from) || str_eq(from, "start")
    }

    /// Associations are currently always accepted: a reserved extension
    /// point kept permissive on purpose.
    fn is_valid_association(&self, _from: &str, _to: &str) -> (r: bool)
        ensures
            r,
    {
        true
    }
}

impl Default for SyntaxValidator {
    fn default() -> (r: SyntaxValidator)
        ensures
            r.errs().len() == 0,
    {
        SyntaxValidator::new()
    }
}

/// Validates a document: `Ok` exactly when no diagnostic is owed, else the
/// full list that `document_errors` pins down.
pub fn validate_syntax(document: &AstDocument) -> (r: ValidationResult)
    ensures
        match r {
            Result::Ok(()) => document_errors(document).len() == 0,
            Result::Err(es) => error_models(es@) == document_errors(document) && es@.len() > 0,
        },
{
    let mut validator = SyntaxValidator::new();
    validator.validate(document)
}

} // verus!
