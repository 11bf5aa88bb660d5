//! Feedback loops as they are declared in a flow description.

use vstd::prelude::*;

verus! {

/// A declared feedback loop: messages leave the egress operator through the
/// feedback port and enter the ingress operator through a port of the same
/// identifier and type.
#[derive(Debug, PartialEq, Eq)]
pub struct LoopDescriptor {
    pub ingress: String,
    pub egress: String,
    pub feedback_port: String,
    pub port_type: String,
}

/// The mathematical value of a [`LoopDescriptor`].
pub struct LoopView {
    pub ingress: Seq<char>,
    pub egress: Seq<char>,
    pub feedback_port: Seq<char>,
    pub port_type: Seq<char>,
}

impl View for LoopDescriptor {
    type V = LoopView;

    open spec fn view(&self) -> LoopView {
        LoopView {
            ingress: self.ingress@,
            egress: self.egress@,
            feedback_port: self.feedback_port@,
            port_type: self.port_type@,
        }
    }
}

impl Clone for LoopDescriptor {
    fn clone(&self) -> (r: Self)
        ensures
            r@ == self@,
    {
        LoopDescriptor {
            ingress: self.ingress.clone(),
            egress: self.egress.clone(),
            feedback_port: self.feedback_port.clone(),
            port_type: self.port_type.clone(),
        }
    }
}

} // verus!
