use vstd::prelude::*;

verus! {

/// Why a node could not start.
#[derive(Debug, Clone, Copy, PartialEq, Eq, Structural)]
pub enum Error {
    /// The listening port could not be bound.
    PortBind { port: u16 },
}

/// Why the server stopped.
#[derive(Debug, Clone, Copy, PartialEq, Eq, Structural)]
pub enum ServerError {
    /// The listening port could not be bound.
    PortBind { port: u16 },
    /// Serving failed.
    Serve,
}

} // verus!
