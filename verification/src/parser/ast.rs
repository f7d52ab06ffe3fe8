//! The syntax tree: a document of imports and processes, whose elements and
//! flows keep their source order, plus the parse errors collected along the
//! way. A document is produced for every input, however malformed; the error
//! list, not an aborted parse, reports what went wrong.

use vstd::prelude::*;
use vstd::string::*;
use crate::lexer::{Span, SpanModel};
use crate::text::str_eq;

verus! {

/// How bad a recorded parse error is.
#[derive(Debug, Clone, Copy, PartialEq, Eq, Structural)]
pub enum ErrorSeverity {
    Error,
    Warning,
}

/// One recorded parse error: a message, where it happened, and how bad it is.
#[derive(Debug, PartialEq, Eq)]
pub struct ParseError {
    pub message: String,
    pub span: Span,
    pub severity: ErrorSeverity,
}

/// Mathematical model of a `ParseError`.
pub struct ParseErrorModel {
    pub message: Seq<char>,
    pub span: SpanModel,
    pub severity: ErrorSeverity,
}

impl View for ParseError {
    type V = ParseErrorModel;

    open spec fn view(&self) -> ParseErrorModel {
        ParseErrorModel { message: self.message@, span: self.span@, severity: self.severity }
    }
}

impl Clone for ParseError {
    fn clone(&self) -> (r: ParseError)
        ensures
            r@ == self@,
    {
        ParseError { message: self.message.clone(), span: self.span.clone(), severity: self.severity }
    }
}

/// The value of one attribute. Numbers keep their exact source text, so no
/// precision is lost; durations keep their unit-suffixed text unparsed.
#[derive(Debug, PartialEq, Eq)]
pub enum AttributeValue {
    String(String),
    Number(String),
    Boolean(bool),
    Duration(String),
}

/// Mathematical model of an `AttributeValue`.
pub enum AttributeValueModel {
    StringValue(Seq<char>),
    NumberValue(Seq<char>),
    BooleanValue(bool),
    DurationValue(Seq<char>),
}

impl View for AttributeValue {
    type V = AttributeValueModel;

    open spec fn view(&self) -> AttributeValueModel {
        match self {
            AttributeValue::String(s) => AttributeValueModel::StringValue(s@),
            AttributeValue::Number(s) => AttributeValueModel::NumberValue(s@),
            AttributeValue::Boolean(b) => AttributeValueModel::BooleanValue(*b),
            AttributeValue::Duration(s) => AttributeValueModel::DurationValue(s@),
        }
    }
}

impl Clone for AttributeValue {
    fn clone(&self) -> (r: AttributeValue)
        ensures
            r@ == self@,
    {
        match self {
            AttributeValue::String(s) => AttributeValue::String(s.clone()),
            AttributeValue::Number(s) => AttributeValue::Number(s.clone()),
            AttributeValue::Boolean(b) => AttributeValue::Boolean(*b),
            AttributeValue::Duration(s) => AttributeValue::Duration(s.clone()),
        }
    }
}

/// The map that a run of attribute entries denotes: later entries overwrite
/// earlier ones with the same key.
pub open spec fn entries_map(s: Seq<(String, AttributeValue)>) -> Map<Seq<char>, AttributeValueModel>
    decreases s.len(),
{
    if s.len() == 0 {
        Map::empty()
    } else {
        entries_map(s.drop_last()).insert(s.last().0@, s.last().1@)
    }
}

/// An attribute mapping with string keys, where writing an existing key
/// overwrites its value. Viewed as a `Map` from key characters to values.
#[derive(Debug, PartialEq, Eq)]
pub struct Attributes {
    entries: Vec<(String, AttributeValue)>,
}

impl View for Attributes {
    type V = Map<Seq<char>, AttributeValueModel>;

    closed spec fn view(&self) -> Map<Seq<char>, AttributeValueModel> {
        entries_map(self.entries@)
    }
}

impl Attributes {
    /// An empty attribute mapping.
    pub fn new() -> (r: Attributes)
        ensures
            r@ == Map::<Seq<char>, AttributeValueModel>::empty(),
    {
        Attributes { entries: Vec::new() }
    }

    /// Writes one attribute; an existing value under the same key is
    /// overwritten.
    pub fn insert(&mut self, key: String, value: AttributeValue)
        ensures
            final(self)@ == old(self)@.insert(key@, value@),
    {
        let ghost gk = key@;
        let ghost gv = value@;
        self.entries.push((key, value));
        proof {
            assert(self.entries@.drop_last() =~= old(self).entries@);
            assert(self.entries@.last().0@ == gk);
            assert(self.entries@.last().1@ == gv);
        }
    }

    /// Looks an attribute up by key.
    pub fn get(&self, key: &str) -> (r: Option<&AttributeValue>)
        ensures
            match r {
                Option::Some(v) => self@.contains_key(key@) && v@ == self@[key@],
                Option::None => !self@.contains_key(key@),
            },
    {
        let mut idx = self.entries.len();
        proof {
            assert(self.entries@.take(self.entries@.len() as int) =~= self.entries@);
        }
        while idx > 0
            invariant
                idx <= self.entries@.len(),
                entries_map(self.entries@.take(idx as int)).contains_key(key@)
                    ==> entries_map(self.entries@).contains_key(key@)
                        && entries_map(self.entries@)[key@]
                            == entries_map(self.entries@.take(idx as int))[key@],
                !entries_map(self.entries@.take(idx as int)).contains_key(key@)
                    ==> !entries_map(self.entries@).contains_key(key@),
            decreases idx,
        {
            idx = idx - 1;
            let pair = &self.entries[idx];
            if str_eq(pair.0.as_str(), key) {
                proof {
                    assert(self.entries@.take(idx as int + 1).drop_last()
                        =~= self.entries@.take(idx as int));
                    assert(self.entries@.take(idx as int + 1).last() == self.entries@[idx as int]);
                }
                return Some(&self.entries[idx].1);
            }
            proof {
                assert(self.entries@.take(idx as int + 1).drop_last()
                    =~= self.entries@.take(idx as int));
                assert(self.entries@.take(idx as int + 1).last() == self.entries@[idx as int]);
            }
        }
        proof {
            assert(self.entries@.take(0) =~= Seq::<(String, AttributeValue)>::empty());
        }
        None
    }

    /// Whether an attribute with this key has been written.
    pub fn contains_key(&self, key: &str) -> (r: bool)
        ensures
            r == self@.contains_key(key@),
    {
        match self.get(key) {
            Option::Some(_) => true,
            Option::None => false,
        }
    }
}

impl Clone for Attributes {
    fn clone(&self) -> (r: Attributes)
        ensures
            r@ == self@,
    {
        let mut entries: Vec<(String, AttributeValue)> = Vec::new();
        let mut k: usize = 0;
        while k < self.entries.len()
            invariant
                k <= self.entries@.len(),
                entries@.len() == k,
                forall|m: int| 0 <= m < k ==> #[trigger] entries@[m].0@ == self.entries@[m].0@
                    && entries@[m].1@ == self.entries@[m].1@,
            decreases self.entries@.len() - k,
        {
            let pair = &self.entries[k];
            entries.push((pair.0.clone(), pair.1.clone()));
            k = k + 1;
        }
        let r = Attributes { entries };
        proof {
            lemma_entries_map_congruent(r.entries@, self.entries@);
        }
        r
    }
}

/// Entry runs with pairwise equal keys and values denote the same map.
proof fn lemma_entries_map_congruent(a: Seq<(String, AttributeValue)>, b: Seq<(String, AttributeValue)>)
    requires
        a.len() == b.len(),
        forall|m: int| 0 <= m < a.len() ==> #[trigger] a[m].0@ == b[m].0@ && a[m].1@ == b[m].1@,
    ensures
        entries_map(a) == entries_map(b),
    decreases a.len(),
{
    if a.len() > 0 {
        lemma_entries_map_congruent(a.drop_last(), b.drop_last());
        assert(a.last() == a[a.len() - 1]);
        assert(b.last() == b[b.len() - 1]);
        assert(entries_map(a) =~= entries_map(b));
    } else {
        assert(entries_map(a) =~= entries_map(b));
    }
}

/// What kind of work a task stands for.
#[derive(Debug, Clone, Copy, PartialEq, Eq, Structural)]
pub enum TaskType {
    Generic,
    User,
    Service,
    Script,
}

/// How a gateway routes: exclusive takes one branch, parallel takes all.
#[derive(Debug, Clone, Copy, PartialEq, Eq, Structural)]
pub enum GatewayType {
    Exclusive,
    Parallel,
}

/// The kind of an event attached to a start, end or intermediate element.
#[derive(Debug, PartialEq, Eq)]
pub enum EventType {
    Message(String),
    Timer(String),
    Error(String),
    Signal(String),
    Terminate,
}

/// One branch of a gateway: an optional condition, a target, and whether it
/// is the default branch.
#[derive(Debug, PartialEq, Eq)]
pub struct GatewayBranch {
    pub condition: Option<String>,
    pub target: String,
    pub is_default: bool,
    pub span: Span,
}

/// The kind of a flow edge.
#[derive(Debug, Clone, Copy, PartialEq, Eq, Structural)]
pub enum FlowType {
    Sequence,
    Message,
    Default,
    Association,
}

/// A directed edge between two named elements, with an optional condition.
#[derive(Debug, PartialEq, Eq)]
pub struct Flow {
    pub from: String,
    pub to: String,
    pub flow_type: FlowType,
    pub condition: Option<String>,
    pub span: Span,
}

/// A diagram element. Containers (subprocess, pool, lane, group) nest
/// further elements; everything else is a leaf.
#[derive(Debug, PartialEq)]
pub enum ProcessElement {
    StartEvent {
        id: Option<String>,
        event_type: Option<EventType>,
        attributes: Attributes,
        span: Span,
    },
    EndEvent {
        id: Option<String>,
        event_type: Option<EventType>,
        attributes: Attributes,
        span: Span,
    },
    Task {
        id: String,
        task_type: TaskType,
        attributes: Attributes,
        span: Span,
    },
    Gateway {
        id: Option<String>,
        gateway_type: GatewayType,
        branches: Vec<GatewayBranch>,
        span: Span,
    },
    IntermediateEvent {
        id: Option<String>,
        event_type: EventType,
        payload: Option<String>,
        attributes: Attributes,
        span: Span,
    },
    Subprocess {
        id: String,
        elements: Vec<ProcessElement>,
        flows: Vec<Flow>,
        attributes: Attributes,
        span: Span,
    },
    CallActivity {
        id: String,
        called_element: String,
        attributes: Attributes,
        span: Span,
    },
    Pool {
        name: String,
        lanes: Vec<Lane>,
        elements: Vec<ProcessElement>,
        flows: Vec<Flow>,
        span: Span,
    },
    Group {
        label: String,
        elements: Vec<ProcessElement>,
        span: Span,
    },
    Annotation {
        text: String,
        span: Span,
    },
}

/// A lane inside a pool, grouping elements by responsibility.
#[derive(Debug, PartialEq)]
pub struct Lane {
    pub name: String,
    pub elements: Vec<ProcessElement>,
    pub span: Span,
}

/// One named process: its attributes, its elements and its flows, in
/// source order.
#[derive(Debug, PartialEq)]
pub struct ProcessDeclaration {
    pub name: String,
    pub attributes: Attributes,
    pub elements: Vec<ProcessElement>,
    pub flows: Vec<Flow>,
    pub span: Span,
}

/// One import statement: `import "p" as alias` has an alias and no items;
/// `import a, b from "p"` has items and no alias.
#[derive(Debug, PartialEq, Eq)]
pub struct ImportDeclaration {
    pub path: String,
    pub alias: Option<String>,
    pub items: Vec<String>,
    pub span: Span,
}

/// A parsed document: imports, processes, and every error collected while
/// parsing. Always produced, whatever the input held.
#[derive(Debug, PartialEq)]
pub struct AstDocument {
    pub imports: Vec<ImportDeclaration>,
    pub processes: Vec<ProcessDeclaration>,
    pub errors: Vec<ParseError>,
}

impl AstDocument {
    /// An empty document.
    pub fn new() -> (r: AstDocument)
        ensures
            r.imports@.len() == 0,
            r.processes@.len() == 0,
            r.errors@.len() == 0,
    {
        AstDocument { imports: Vec::new(), processes: Vec::new(), errors: Vec::new() }
    }

    /// Whether any recorded error has `Error` severity (warnings alone do
    /// not count).
    pub fn has_errors(&self) -> (r: bool)
        ensures
            r == exists|i: int| 0 <= i < self.errors@.len()
                && (#[trigger] self.errors@[i]).severity == ErrorSeverity::Error,
    {
        let mut k: usize = 0;
        while k < self.errors.len()
            invariant
                k <= self.errors@.len(),
                forall|i: int| 0 <= i < k
                    ==> (#[trigger] self.errors@[i]).severity != ErrorSeverity::Error,
            decreases self.errors@.len() - k,
        {
            if self.errors[k].severity == ErrorSeverity::Error {
                return true;
            }
            k = k + 1;
        }
        false
    }

    /// Records an error-severity diagnostic.
    pub fn add_error(&mut self, message: String, span: Span)
        ensures
            final(self).errors@ == old(self).errors@.push(
                ParseError { message, span, severity: ErrorSeverity::Error },
            ),
            final(self).imports@ == old(self).imports@,
            final(self).processes@ == old(self).processes@,
    {
        self.errors.push(ParseError { message, span, severity: ErrorSeverity::Error });
    }

    /// Records a warning-severity diagnostic.
    pub fn add_warnings(&mut self, message: String, span: Span)
        ensures
            final(self).errors@ == old(self).errors@.push(
                ParseError { message, span, severity: ErrorSeverity::Warning },
            ),
            final(self).imports@ == old(self).imports@,
            final(self).processes@ == old(self).processes@,
    {
        self.errors.push(ParseError { message, span, severity: ErrorSeverity::Warning });
    }
}

impl Default for AstDocument {
    fn default() -> (r: AstDocument)
        ensures
            r.imports@.len() == 0,
            r.processes@.len() == 0,
            r.errors@.len() == 0,
    {
        AstDocument::new()
    }
}

} // verus!
