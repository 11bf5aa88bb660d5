//! The runner side: what flows along the links of a running flow, how an
//! end-to-end deadline is checked on arrival, and the sink runner.

pub mod deadline;
pub mod laws;
pub mod message;
pub mod sink;
