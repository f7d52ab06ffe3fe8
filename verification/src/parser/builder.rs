//! A value-style builder for process declarations: the process under
//! construction is explicit state threaded through the calls, not a shared
//! mutable singleton. Elements and flows keep their insertion order.

use vstd::prelude::*;
use crate::lexer::Span;
use crate::parser::ast::{
    Attributes, AttributeValue, EventType, Flow, FlowType, GatewayBranch, GatewayType,
    ProcessDeclaration, ProcessElement, TaskType,
};

verus! {

/// Builds one process declaration at a time.
pub struct AstBuilder {
    current_process: Option<ProcessDeclaration>,
}

impl AstBuilder {
    /// The process under construction, if any.
    pub closed spec fn current(&self) -> Option<ProcessDeclaration> {
        self.current_process
    }

    pub fn new() -> (r: AstBuilder)
        ensures
            r.current() matches Option::None,
    {
        AstBuilder { current_process: None }
    }

    /// Begins a fresh process with this name and span; any process under
    /// construction is discarded.
    pub fn start_process(&mut self, name: String, span: Span)
        ensures
            match final(self).current() {
                Option::Some(p) => {
                    &&& p.name@ == name@
                    &&& p.span@ == span@
                    &&& p.attributes@ == Map::<Seq<char>, crate::parser::ast::AttributeValueModel>::empty()
                    &&& p.elements@.len() == 0
                    &&& p.flows@.len() == 0
                },
                Option::None => false,
            },
    {
        self.current_process = Some(ProcessDeclaration {
            name,
            attributes: Attributes::new(),
            elements: Vec::new(),
            flows: Vec::new(),
            span,
        });
    }

    /// Writes one attribute of the process under construction; without one,
    /// nothing happens.
    pub fn add_process_atribute(&mut self, key: String, value: AttributeValue)
        ensures
            match old(self).current() {
                Option::Some(p) => match final(self).current() {
                    Option::Some(q) => {
                        &&& q.attributes@ == p.attributes@.insert(key@, value@)
                        &&& q.name@ == p.name@
                        &&& q.elements@ == p.elements@
                        &&& q.flows@ == p.flows@
                        &&& q.span@ == p.span@
                    },
                    Option::None => false,
                },
                Option::None => final(self).current() matches Option::None,
            },
    {
        if let Some(process) = &mut self.current_process {
            process.attributes.insert(key, value);
        }
    }

    /// Appends one element to the process under construction; without one,
    /// nothing happens.
    pub fn add_element(&mut self, element: ProcessElement)
        ensures
            match old(self).current() {
                Option::Some(p) => match final(self).current() {
                    Option::Some(q) => {
                        &&& q.elements@ == p.elements@.push(element)
                        &&& q.name@ == p.name@
                        &&& q.flows@ == p.flows@
                        &&& q.span@ == p.span@
                    },
                    Option::None => false,
                },
                Option::None => final(self).current() matches Option::None,
            },
    {
        if let Some(process) = &mut self.current_process {
            process.elements.push(element);
        }
    }

    /// Appends one flow to the process under construction; without one,
    /// nothing happens.
    pub fn add_flow(&mut self, flow: Flow)
        ensures
            match old(self).current() {
                Option::Some(p) => match final(self).current() {
                    Option::Some(q) => {
                        &&& q.flows@ == p.flows@.push(flow)
                        &&& q.name@ == p.name@
                        &&& q.elements@ == p.elements@
                        &&& q.span@ == p.span@
                    },
                    Option::None => false,
                },
                Option::None => final(self).current() matches Option::None,
            },
    {
        if let Some(process) = &mut self.current_process {
            process.flows.push(flow);
        }
    }

    /// Hands the finished process over and leaves the builder empty.
    pub fn finish_process(&mut self) -> (r: Option<ProcessDeclaration>)
        ensures
            final(self).current() matches Option::None,
            r == old(self).current(),
    {
        self.current_process.take()
    }

    /// A start event with these parts.
    pub fn create_start_event(
        &self,
        id: Option<String>,
        event_type: Option<EventType>,
        attributes: Attributes,
        span: Span,
    ) -> (r: ProcessElement)
        ensures
            r == (ProcessElement::StartEvent { id, event_type, attributes, span }),
    {
        ProcessElement::StartEvent { id, event_type, attributes, span }
    }

    /// A task with these parts.
    pub fn create_task(
        &self,
        id: String,
        task_type: TaskType,
        attributes: Attributes,
        span: Span,
    ) -> (r: ProcessElement)
        ensures
            r == (ProcessElement::Task { id, task_type, attributes, span }),
    {
        ProcessElement::Task { id, task_type, attributes, span }
    }

    /// A gateway with these parts.
    pub fn create_gateway(
        &self,
        id: Option<String>,
        gateway_type: GatewayType,
        branches: Vec<GatewayBranch>,
        span: Span,
    ) -> (r: ProcessElement)
        ensures
            r == (ProcessElement::Gateway { id, gateway_type, branches, span }),
    {
        ProcessElement::Gateway { id, gateway_type, branches, span }
    }

    /// A flow with these parts.
    pub fn create_flow(
        &self,
        from: String,
        to: String,
        flow_type: FlowType,
        condition: Option<String>,
        span: Span,
    ) -> (r: Flow)
        ensures
            r == (Flow { from, to, flow_type, condition, span }),
    {
        Flow { from, to, flow_type, condition, span }
    }
}

impl Default for AstBuilder {
    fn default() -> (r: AstBuilder)
        ensures
            r.current() matches Option::None,
    {
        AstBuilder::new()
    }
}

} // verus!
