//! The status of the `ASHv2` connection.
use vstd::prelude::*;

verus! {

/// `ASHv2` connection status.
#[derive(Clone, Copy, Debug, Default, PartialEq, Eq, Structural, Hash)]
pub enum Status {
    /// No connection has been established yet.
    #[default]
    Disconnected,
    /// A connection has been established.
    Connected,
    /// The connection has been terminated.
    Failed,
}

} // verus!
