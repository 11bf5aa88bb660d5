//! The error type shared by the compiler and the runners.

use vstd::prelude::*;

verus! {

/// What can go wrong while a flow is compiled or while a runner executes.
#[derive(Debug, PartialEq, Eq)]
pub enum ZFError {
    /// A failure with no further detail, such as a loop that names an
    /// operator the flow does not have.
    GenericError,
    /// A value could not be written in a textual encoding.
    SerializationError,
    /// A textual encoding could not be read; the text says why.
    ParsingError(String),
    /// A node has no entry in the runtime mapping.
    MissingConfiguration,
    /// The record lacks what an operation needs; the text says what.
    Uncompleted(String),
    /// The node (first) has no port of that identifier (second).
    PortNotFound((String, String)),
    /// The type of an output (first) differs from the type of the input
    /// (second) that a link connects it to.
    PortTypeNotMatching((String, String)),
    /// A runner was built without the link that one of its ports needs; the
    /// text names the port and the node.
    MissingOutput(String),
    /// An output link was offered to a sink.
    SinkDoesNotHaveOutputs,
    /// The runner does not offer the operation.
    Unsupported,
    /// The runner does not handle this kind of message yet.
    Unimplemented,
    /// The runner has no input link to receive from.
    Disconnected,
    /// Receiving from a link failed; the text says why.
    RecvError(String),
}

/// The mathematical value of a [`ZFError`].
pub enum ErrorView {
    GenericError,
    SerializationError,
    ParsingError(Seq<char>),
    MissingConfiguration,
    Uncompleted(Seq<char>),
    PortNotFound(Seq<char>, Seq<char>),
    PortTypeNotMatching(Seq<char>, Seq<char>),
    MissingOutput(Seq<char>),
    SinkDoesNotHaveOutputs,
    Unsupported,
    Unimplemented,
    Disconnected,
    RecvError(Seq<char>),
}

impl View for ZFError {
    type V = ErrorView;

    open spec fn view(&self) -> ErrorView {
        match self {
            ZFError::GenericError => ErrorView::GenericError,
            ZFError::SerializationError => ErrorView::SerializationError,
            ZFError::ParsingError(m) => ErrorView::ParsingError(m@),
            ZFError::MissingConfiguration => ErrorView::MissingConfiguration,
            ZFError::Uncompleted(m) => ErrorView::Uncompleted(m@),
            ZFError::PortNotFound(p) => ErrorView::PortNotFound(p.0@, p.1@),
            ZFError::PortTypeNotMatching(p) => ErrorView::PortTypeNotMatching(p.0@, p.1@),
            ZFError::MissingOutput(m) => ErrorView::MissingOutput(m@),
            ZFError::SinkDoesNotHaveOutputs => ErrorView::SinkDoesNotHaveOutputs,
            ZFError::Unsupported => ErrorView::Unsupported,
            ZFError::Unimplemented => ErrorView::Unimplemented,
            ZFError::Disconnected => ErrorView::Disconnected,
            ZFError::RecvError(m) => ErrorView::RecvError(m@),
        }
    }
}

impl Clone for ZFError {
    fn clone(&self) -> (r: Self)
        ensures
            r@ == self@,
    {
        match self {
            ZFError::GenericError => ZFError::GenericError,
            ZFError::SerializationError => ZFError::SerializationError,
            ZFError::ParsingError(m) => ZFError::ParsingError(m.clone()),
            ZFError::MissingConfiguration => ZFError::MissingConfiguration,
            ZFError::Uncompleted(m) => ZFError::Uncompleted(m.clone()),
            ZFError::PortNotFound(p) => ZFError::PortNotFound((p.0.clone(), p.1.clone())),
            ZFError::PortTypeNotMatching(p) => ZFError::PortTypeNotMatching(
                (p.0.clone(), p.1.clone()),
            ),
            ZFError::MissingOutput(m) => ZFError::MissingOutput(m.clone()),
            ZFError::SinkDoesNotHaveOutputs => ZFError::SinkDoesNotHaveOutputs,
            ZFError::Unsupported => ZFError::Unsupported,
            ZFError::Unimplemented => ZFError::Unimplemented,
            ZFError::Disconnected => ZFError::Disconnected,
            ZFError::RecvError(m) => ZFError::RecvError(m.clone()),
        }
    }
}

/// The result of an operation that may fail with a [`ZFError`].
pub type ZFResult<T> = Result<T, ZFError>;

} // verus!
