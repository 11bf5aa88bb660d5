//! The graph compiler: what a flow is made of, and how a flow description
//! becomes a record that can be deployed.

pub mod link;
pub mod compile;
pub mod configuration;
pub mod connector;
pub mod deadline;
pub mod descriptor;
pub mod loops;
pub mod naming;
pub mod flag;
pub mod identity;
pub mod laws;
pub mod node;
pub mod record;
