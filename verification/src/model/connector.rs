//! Connectors: the two halves of a link that crosses from one runtime to
//! another.

use crate::model::link::{PortDescriptor, PortView};
use vstd::prelude::*;

verus! {

/// Which half of a cross-runtime link a connector is.
#[derive(Debug, Clone, Copy, PartialEq, Eq, Structural)]
pub enum ZFConnectorKind {
    Sender,
    Receiver,
}

/// One half of a cross-runtime link: a publish or subscribe endpoint on a
/// shared, named transport resource.
#[derive(Debug, PartialEq, Eq)]
pub struct ZFConnectorRecord {
    pub kind: ZFConnectorKind,
    pub id: String,
    pub resource: String,
    pub link_id: PortDescriptor,
    pub runtime: String,
}

/// The mathematical value of a [`ZFConnectorRecord`].
pub struct ConnectorView {
    pub kind: ZFConnectorKind,
    pub id: Seq<char>,
    pub resource: Seq<char>,
    pub link_id: PortView,
    pub runtime: Seq<char>,
}

impl View for ZFConnectorRecord {
    type V = ConnectorView;

    open spec fn view(&self) -> ConnectorView {
        ConnectorView {
            kind: self.kind,
            id: self.id@,
            resource: self.resource@,
            link_id: self.link_id@,
            runtime: self.runtime@,
        }
    }
}

impl Clone for ZFConnectorRecord {
    fn clone(&self) -> (r: Self)
        ensures
            r@ == self@,
    {
        ZFConnectorRecord {
            kind: self.kind,
            id: self.id.clone(),
            resource: self.resource.clone(),
            link_id: self.link_id.clone(),
            runtime: self.runtime.clone(),
        }
    }
}

/// Whether `connectors` holds a sender on `resource`.
pub open spec fn has_sender(connectors: Seq<ConnectorView>, resource: Seq<char>) -> bool {
    exists|i: int|
        0 <= i < connectors.len() && (#[trigger] connectors[i]).kind == ZFConnectorKind::Sender
            && connectors[i].resource == resource
}

/// Whether no two senders of `connectors` share a resource.
pub open spec fn senders_unique(connectors: Seq<ConnectorView>) -> bool {
    forall|i: int, j: int|
        0 <= i < j < connectors.len() && (#[trigger] connectors[i]).kind == ZFConnectorKind::Sender
            && (#[trigger] connectors[j]).kind == ZFConnectorKind::Sender ==> connectors[i].resource
            != connectors[j].resource
}

} // verus!
