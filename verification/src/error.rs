//! The one error of the engine.

use vstd::prelude::*;

verus! {

/// A query depends on itself.
#[derive(Clone, Copy, Debug, PartialEq, Eq, Structural)]
pub enum CyclicQuery {
    /// The query is already on the calling thread's own call chain.
    Local,
    /// The thread would wait, through other waiting threads, on itself.
    Global,
}

impl CyclicQuery {
    /// Whether the cycle was found on the thread's own call chain.
    pub fn is_local(&self) -> (local: bool)
        ensures
            local == (*self == CyclicQuery::Local),
    {
        match self {
            CyclicQuery::Local => true,
            CyclicQuery::Global => false,
        }
    }
}

} // verus!
