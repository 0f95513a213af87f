use vstd::prelude::*;
use vstd::string::*;

verus! {

pub type Id = String;

pub type URI = String;

/// The view of an optional string.
pub open spec fn opt_view(o: Option<String>) -> Option<Seq<char>> {
    match o {
        Some(s) => Some(s@),
        None => None,
    }
}

/// What std's `Debug` formatting makes of a string: the text in double
/// quotes, with quotes, backslashes and special characters escaped.
pub uninterp spec fn debug_text(s: Seq<char>) -> Seq<char>;

/// Relies on std's `Debug` impl for `str` (through `format!("{:?}")`): the
/// result is the quoted, escaped text and depends on `s` alone.
#[verifier::external_body]
fn debug_str(s: &str) -> (r: String)
    ensures
        r@ == debug_text(s@),
{
    format!("{:?}", s)
}

/// The `Debug` form of an optional string, given the `Debug` form `d` of its
/// content: `None`, or `Some(` + `d` + `)`.
pub open spec fn debug_option_with(present: bool, d: Seq<char>) -> Seq<char> {
    if present {
        "Some("@ + d + ")"@
    } else {
        "None"@
    }
}

/// The `Debug` form of an optional string.
pub open spec fn debug_option(o: Option<String>) -> Seq<char> {
    match o {
        Some(s) => debug_option_with(true, debug_text(s@)),
        None => debug_option_with(false, Seq::empty()),
    }
}

/// A top-level element of a process-definition document.
#[derive(Debug, Clone)]
pub enum RootElement {
    Collaboration(Collaboration),
    Process(Process),
    Message(Message),
}

/// The root of a process-definition document.
#[derive(Debug, Clone)]
pub struct Definitions {
    pub id: Option<Id>,
    pub name: Option<String>,
    pub root_elements: Vec<RootElement>,
}

#[derive(Debug, Clone)]
pub struct Collaboration {
    pub id: Option<Id>,
    pub name: Option<String>,
    pub is_closed: Option<bool>,
    pub participants: Vec<Participant>,
    pub message_flows: Vec<MessageFlow>,
}

#[derive(Debug, Clone)]
pub struct Participant {
    pub id: Option<Id>,
    pub name: Option<String>,
}

#[derive(Debug, Clone)]
pub struct MessageFlow {
    pub id: Option<Id>,
    pub name: Option<String>,
    pub source_ref: String,
    pub target_ref: String,
    pub message_ref: Option<String>,
}

#[derive(Debug, Clone)]
pub struct Process {
    pub id: Option<Id>,
    pub name: Option<String>,
    pub lane_sets: Vec<LaneSet>,
    pub flow_elements: Vec<FlowElement>,
}

#[derive(Debug, Clone)]
pub struct LaneSet {
    pub id: Option<Id>,
    pub name: Option<String>,
    pub lanes: Vec<Lane>,
}

#[derive(Debug, Clone)]
pub struct Lane {
    pub id: Option<Id>,
    pub name: Option<String>,
}

#[derive(Debug, Clone)]
pub struct Message {
    pub id: Option<Id>,
    pub name: Option<String>,
}

/// An element of a process: a flow node (event, task or gateway), or a
/// sequence flow connecting two flow nodes.
#[derive(Debug, Clone)]
pub enum FlowElement {
    EndEvent(EndEvent),
    SequenceFlow(SequenceFlow),
    StartEvent(StartEvent),
    Task(Task),
    EventBasedGateway(EventBasedGateway),
    IntermediateCatchEvent(IntermediateCatchEvent),
    ParallelGateway(ParallelGateway),
}

#[derive(Debug, Clone)]
pub struct StartEvent {
    pub id: Option<Id>,
    pub name: Option<String>,
    pub incomings: Vec<String>,
    pub outgoings: Vec<String>,
}

#[derive(Debug, Clone)]
pub struct EndEvent {
    pub id: Option<Id>,
    pub name: Option<String>,
    pub incomings: Vec<String>,
    pub outgoings: Vec<String>,
}

#[derive(Debug, Clone)]
pub struct Task {
    pub id: Option<Id>,
    pub name: Option<String>,
    pub incomings: Vec<String>,
    pub outgoings: Vec<String>,
}

#[derive(Debug, Clone)]
pub struct SequenceFlow {
    pub id: Option<Id>,
    pub name: Option<String>,
    pub source_ref: String,
    pub target_ref: String,
}

#[derive(Debug, Clone)]
pub struct EventBasedGateway {
    pub id: Option<Id>,
    pub name: Option<String>,
    pub incomings: Vec<String>,
    pub outgoings: Vec<String>,
}

#[derive(Debug, Clone)]
pub struct ParallelGateway {
    pub id: Option<Id>,
    pub name: Option<String>,
    pub incomings: Vec<String>,
    pub outgoings: Vec<String>,
}

#[derive(Debug, Clone)]
pub struct IntermediateCatchEvent {
    pub id: Option<Id>,
    pub name: Option<String>,
    pub incomings: Vec<String>,
    pub outgoings: Vec<String>,
}

fn clone_opt(o: &Option<String>) -> (r: Option<String>)
    ensures
        r == *o,
{
    match o {
        Some(s) => Some(s.clone()),
        None => None,
    }
}

fn opt_eq(a: &Option<String>, b: &Option<String>) -> (r: bool)
    ensures
        r == (opt_view(*a) == opt_view(*b)),
{
    match (a, b) {
        (Some(x), Some(y)) => *x == *y,
        (None, None) => true,
        _ => false,
    }
}

impl FlowElement {
    /// The element's identifier.
    pub open spec fn spec_id(&self) -> Option<String> {
        match self {
            FlowElement::EndEvent(e) => e.id,
            FlowElement::SequenceFlow(e) => e.id,
            FlowElement::StartEvent(e) => e.id,
            FlowElement::Task(e) => e.id,
            FlowElement::EventBasedGateway(e) => e.id,
            FlowElement::IntermediateCatchEvent(e) => e.id,
            FlowElement::ParallelGateway(e) => e.id,
        }
    }

    /// The element's name.
    pub open spec fn spec_name(&self) -> Option<String> {
        match self {
            FlowElement::EndEvent(e) => e.name,
            FlowElement::SequenceFlow(e) => e.name,
            FlowElement::StartEvent(e) => e.name,
            FlowElement::Task(e) => e.name,
            FlowElement::EventBasedGateway(e) => e.name,
            FlowElement::IntermediateCatchEvent(e) => e.name,
            FlowElement::ParallelGateway(e) => e.name,
        }
    }

    /// A flow node becomes a vertex of the graph; a sequence flow does not.
    pub open spec fn is_node(&self) -> bool {
        !(self is SequenceFlow)
    }

    /// The kind word of the element, padded to nine columns.
    pub open spec fn kind_tag(&self) -> Seq<char> {
        match self {
            FlowElement::EndEvent(_) => "End      "@,
            FlowElement::SequenceFlow(_) => "Flow     "@,
            FlowElement::StartEvent(_) => "Start    "@,
            FlowElement::Task(_) => "Task     "@,
            FlowElement::EventBasedGateway(_) => "G.Event  "@,
            FlowElement::ParallelGateway(_) => "P.Event  "@,
            FlowElement::IntermediateCatchEvent(_) => "IC.Event "@,
        }
    }

    /// The human-readable label of the element: its kind word, then the
    /// `Debug` form of its name, or for a sequence flow the `Debug` forms of
    /// its two ends joined by an arrow.
    pub open spec fn spec_label(&self) -> Seq<char> {
        match self {
            FlowElement::SequenceFlow(e) => "Flow     "@ + debug_text(e.source_ref@) + " -> "@
                + debug_text(e.target_ref@),
            _ => self.kind_tag() + debug_option(self.spec_name()),
        }
    }

    /// Same kind and same identifier.
    pub open spec fn same_element(&self, other: &FlowElement) -> bool {
        &&& self.is_node() == other.is_node()
        &&& (self is EndEvent) == (other is EndEvent)
        &&& (self is StartEvent) == (other is StartEvent)
        &&& (self is Task) == (other is Task)
        &&& (self is EventBasedGateway) == (other is EventBasedGateway)
        &&& (self is IntermediateCatchEvent) == (other is IntermediateCatchEvent)
        &&& (self is ParallelGateway) == (other is ParallelGateway)
        &&& opt_view(self.spec_id()) == opt_view(other.spec_id())
    }

    pub fn get_id_name(&self) -> (r: (Option<String>, Option<String>))
        ensures
            r.0 == self.spec_id(),
            r.1 == self.spec_name(),
    {
        match self {
            FlowElement::EndEvent(e) => (clone_opt(&e.id), clone_opt(&e.name)),
            FlowElement::SequenceFlow(e) => (clone_opt(&e.id), clone_opt(&e.name)),
            FlowElement::StartEvent(e) => (clone_opt(&e.id), clone_opt(&e.name)),
            FlowElement::Task(e) => (clone_opt(&e.id), clone_opt(&e.name)),
            FlowElement::EventBasedGateway(e) => (clone_opt(&e.id), clone_opt(&e.name)),
            FlowElement::IntermediateCatchEvent(e) => (clone_opt(&e.id), clone_opt(&e.name)),
            FlowElement::ParallelGateway(e) => (clone_opt(&e.id), clone_opt(&e.name)),
        }
    }

    /// The label of a flow node (see `spec_label`), given `name_debug`, the
    /// `Debug` form of its name's text (not read when it has no name).
    pub fn tagged_name(&self, name_debug: &str) -> (r: String)
        ensures
            r@ == self.kind_tag() + debug_option_with(self.spec_name() is Some, name_debug@),
    {
        let mut s = match self {
            FlowElement::EndEvent(_) => String::from_str("End      "),
            FlowElement::SequenceFlow(_) => String::from_str("Flow     "),
            FlowElement::StartEvent(_) => String::from_str("Start    "),
            FlowElement::Task(_) => String::from_str("Task     "),
            FlowElement::EventBasedGateway(_) => String::from_str("G.Event  "),
            FlowElement::ParallelGateway(_) => String::from_str("P.Event  "),
            FlowElement::IntermediateCatchEvent(_) => String::from_str("IC.Event "),
        };
        if self.has_name() {
            s.append("Some(");
            s.append(name_debug);
            s.append(")");
            assert(s@ =~= self.kind_tag() + ("Some("@ + name_debug@ + ")"@));
        } else {
            s.append("None");
        }
        s
    }

    fn has_name(&self) -> (r: bool)
        ensures
            r == self.spec_name() is Some,
    {
        match self {
            FlowElement::EndEvent(e) => e.name.is_some(),
            FlowElement::SequenceFlow(e) => e.name.is_some(),
            FlowElement::StartEvent(e) => e.name.is_some(),
            FlowElement::Task(e) => e.name.is_some(),
            FlowElement::EventBasedGateway(e) => e.name.is_some(),
            FlowElement::IntermediateCatchEvent(e) => e.name.is_some(),
            FlowElement::ParallelGateway(e) => e.name.is_some(),
        }
    }

    /// The label of a sequence flow, given the `Debug` forms of its two ends.
    pub fn tagged_flow(source_debug: &str, target_debug: &str) -> (r: String)
        ensures
            r@ == "Flow     "@ + source_debug@ + " -> "@ + target_debug@,
    {
        let mut s = String::from_str("Flow     ");
        s.append(source_debug);
        s.append(" -> ");
        s.append(target_debug);
        s
    }

    /// The element's label (see `spec_label`).
    pub fn label(&self) -> (r: String)
        ensures
            r@ == self.spec_label(),
    {
        match self {
            FlowElement::SequenceFlow(f) => {
                let a = debug_str(f.source_ref.as_str());
                let b = debug_str(f.target_ref.as_str());
                FlowElement::tagged_flow(a.as_str(), b.as_str())
            },
            _ => {
                let (_, name) = self.get_id_name();
                match name {
                    Some(n) => {
                        let d = debug_str(n.as_str());
                        self.tagged_name(d.as_str())
                    },
                    None => self.tagged_name(""),
                }
            },
        }
    }
}

impl PartialEq for FlowElement {
    /// Two elements are equal when they are of the same kind and carry the
    /// same identifier.
    fn eq(&self, other: &Self) -> (r: bool) {
        match (self, other) {
            (FlowElement::EndEvent(l), FlowElement::EndEvent(r)) => opt_eq(&l.id, &r.id),
            (FlowElement::SequenceFlow(l), FlowElement::SequenceFlow(r)) => opt_eq(&l.id, &r.id),
            (FlowElement::StartEvent(l), FlowElement::StartEvent(r)) => opt_eq(&l.id, &r.id),
            (FlowElement::Task(l), FlowElement::Task(r)) => opt_eq(&l.id, &r.id),
            (FlowElement::EventBasedGateway(l), FlowElement::EventBasedGateway(r)) => opt_eq(
                &l.id,
                &r.id,
            ),
            (FlowElement::IntermediateCatchEvent(l), FlowElement::IntermediateCatchEvent(r)) => {
                opt_eq(&l.id, &r.id)
            },
            (FlowElement::ParallelGateway(l), FlowElement::ParallelGateway(r)) => opt_eq(
                &l.id,
                &r.id,
            ),
            _ => false,
        }
    }
}

impl vstd::std_specs::cmp::PartialEqSpecImpl for FlowElement {
    open spec fn obeys_eq_spec() -> bool {
        true
    }

    open spec fn eq_spec(&self, other: &FlowElement) -> bool {
        self.same_element(other)
    }
}

} // verus!
