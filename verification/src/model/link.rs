//! Ports, link endpoints and links.

use crate::text::{copy_opt, opt_view, views};
use vstd::prelude::*;

verus! {

/// A port of a node: its identifier and the type tag of what flows through it.
#[derive(Debug, PartialEq, Eq)]
pub struct PortDescriptor {
    pub port_id: String,
    pub port_type: String,
}

/// The mathematical value of a [`PortDescriptor`].
pub struct PortView {
    pub port_id: Seq<char>,
    pub port_type: Seq<char>,
}

impl View for PortDescriptor {
    type V = PortView;

    open spec fn view(&self) -> PortView {
        PortView { port_id: self.port_id@, port_type: self.port_type@ }
    }
}

impl Clone for PortDescriptor {
    fn clone(&self) -> (r: Self)
        ensures
            r@ == self@,
    {
        PortDescriptor { port_id: self.port_id.clone(), port_type: self.port_type.clone() }
    }
}

/// The sending end of a link: a node and one of its outputs.
#[derive(Debug, PartialEq, Eq)]
pub struct OutputDescriptor {
    pub node: String,
    pub output: String,
}

/// The mathematical value of an [`OutputDescriptor`].
pub struct OutputView {
    pub node: Seq<char>,
    pub output: Seq<char>,
}

impl View for OutputDescriptor {
    type V = OutputView;

    open spec fn view(&self) -> OutputView {
        OutputView { node: self.node@, output: self.output@ }
    }
}

impl Clone for OutputDescriptor {
    fn clone(&self) -> (r: Self)
        ensures
            r@ == self@,
    {
        OutputDescriptor { node: self.node.clone(), output: self.output.clone() }
    }
}

/// The receiving end of a link: a node and one of its inputs.
#[derive(Debug, PartialEq, Eq)]
pub struct InputDescriptor {
    pub node: String,
    pub input: String,
}

/// The mathematical value of an [`InputDescriptor`].
pub struct InputView {
    pub node: Seq<char>,
    pub input: Seq<char>,
}

impl View for InputDescriptor {
    type V = InputView;

    open spec fn view(&self) -> InputView {
        InputView { node: self.node@, input: self.input@ }
    }
}

impl Clone for InputDescriptor {
    fn clone(&self) -> (r: Self)
        ensures
            r@ == self@,
    {
        InputDescriptor { node: self.node.clone(), input: self.input.clone() }
    }
}

/// A directed edge from an output of one node to an input of another, with
/// the optional policy of the channel that realises it.
#[derive(Debug, PartialEq, Eq)]
pub struct LinkDescriptor {
    pub from: OutputDescriptor,
    pub to: InputDescriptor,
    pub size: Option<usize>,
    pub queueing_policy: Option<String>,
    pub priority: Option<usize>,
}

/// The mathematical value of a [`LinkDescriptor`].
pub struct LinkView {
    pub from: OutputView,
    pub to: InputView,
    pub size: Option<usize>,
    pub queueing_policy: Option<Seq<char>>,
    pub priority: Option<usize>,
}

impl View for LinkDescriptor {
    type V = LinkView;

    open spec fn view(&self) -> LinkView {
        LinkView {
            from: self.from@,
            to: self.to@,
            size: self.size,
            queueing_policy: opt_view(self.queueing_policy),
            priority: self.priority,
        }
    }
}

impl Clone for LinkDescriptor {
    fn clone(&self) -> (r: Self)
        ensures
            r@ == self@,
    {
        LinkDescriptor {
            from: self.from.clone(),
            to: self.to.clone(),
            size: self.size,
            queueing_policy: copy_opt(&self.queueing_policy),
            priority: self.priority,
        }
    }
}

/// Whether what leaves an output of type `output` may enter an input of
/// type `input`: the two type tags are the same.
pub open spec fn compatible(output: Seq<char>, input: Seq<char>) -> bool {
    output == input
}

/// Decides whether an output type and an input type are compatible.
pub fn port_types_match(output: &String, input: &String) -> (r: bool)
    ensures
        r == compatible(output@, input@),
{
    *output == *input
}

/// The type of the first port of `ports` whose identifier is `id`.
pub open spec fn port_type_of(ports: Seq<PortView>, id: Seq<char>) -> Option<Seq<char>>
    decreases ports.len(),
{
    if ports.len() == 0 {
        None
    } else if ports[0].port_id == id {
        Some(ports[0].port_type)
    } else {
        port_type_of(ports.drop_first(), id)
    }
}

/// Looks up the type of the port `id` among `ports`.
pub fn find_port_type(ports: &Vec<PortDescriptor>, id: &String) -> (r: Option<String>)
    ensures
        opt_view(r) == port_type_of(views(ports@), id@),
{
    let mut i: usize = 0;
    assert(views(ports@).skip(0) =~= views(ports@));
    while i < ports.len()
        invariant
            i <= ports@.len(),
            port_type_of(views(ports@), id@) == port_type_of(views(ports@).skip(i as int), id@),
        decreases ports@.len() - i,
    {
        let ghost rest = views(ports@).skip(i as int);
        assert(rest[0] == ports@[i as int]@);
        if ports[i].port_id == *id {
            return Some(ports[i].port_type.clone());
        }
        assert(rest.drop_first() =~= views(ports@).skip(i + 1));
        i += 1;
    }
    None
}

} // verus!
