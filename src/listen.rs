use vstd::prelude::*;

use crate::config::Listen;

verus! {

/// Where the server listens.
#[derive(Clone, Copy, Debug, PartialEq, Eq)]
pub enum ListenPlan {
    /// On the address and port of the configuration.
    Tcp(Listen),
    /// On the one socket handed over by the service manager.
    InheritedSocket,
}

/// Why the server cannot decide where to listen.
#[derive(Clone, Copy, Debug, PartialEq, Eq)]
pub enum ListenError {
    /// The configuration names an address and a socket was handed over as well.
    Conflicting,
    /// The configuration names no address and no socket was handed over.
    Nowhere,
    /// More than one socket was handed over.
    TooManySockets,
}

/// Decides where to listen from the configured address, if any, and the number of
/// sockets handed over by the service manager: exactly one of the two must be given,
/// and at most one socket.
pub fn listen_plan(listen: Option<Listen>, inherited_sockets: usize) -> (r: Result<
    ListenPlan,
    ListenError,
>)
    ensures
        match listen {
            Some(l) => if inherited_sockets == 0 {
                r == Ok::<_, ListenError>(ListenPlan::Tcp(l))
            } else {
                r == Err::<ListenPlan, _>(ListenError::Conflicting)
            },
            None => if inherited_sockets == 0 {
                r == Err::<ListenPlan, _>(ListenError::Nowhere)
            } else if inherited_sockets > 1 {
                r == Err::<ListenPlan, _>(ListenError::TooManySockets)
            } else {
                r == Ok::<_, ListenError>(ListenPlan::InheritedSocket)
            },
        },
{
    match listen {
        Some(l) => {
            if inherited_sockets != 0 {
                Err(ListenError::Conflicting)
            } else {
                Ok(ListenPlan::Tcp(l))
            }
        },
        None => {
            if inherited_sockets == 0 {
                Err(ListenError::Nowhere)
            } else if inherited_sockets > 1 {
                Err(ListenError::TooManySockets)
            } else {
                Ok(ListenPlan::InheritedSocket)
            }
        },
    }
}

} // verus!
