//! Errors shared by all endpoints, and the traits that name endpoints and
//! notifications on the wire.

use vstd::prelude::*;

verus! {

/// Failures below the application: the request could not be carried.
#[derive(Debug, Clone, Copy, PartialEq, Eq, Structural)]
pub enum TransportLayerErr {
    LargeBody,
    IncorrectPayload,
}

/// Failures on the server's side.
#[derive(Debug, Clone, Copy, PartialEq, Eq, Structural)]
pub enum ServerErr {
    InternalErr,
    Transport(TransportLayerErr),
}

/// The error of an RPC call: the endpoint's own error, a server failure, or
/// a missing login.
#[derive(Debug, Clone, PartialEq, Eq)]
pub enum APIError<T> {
    EndpointErr(T),
    ServerErr(ServerErr),
    Unauthorized,
}

/// An RPC endpoint, known by its key on the wire.
pub trait RPCMethod {
    /// The key that names the endpoint on the wire.
    spec fn wire_key() -> Seq<char>;

    /// The key that names the endpoint on the wire.
    fn key() -> (k: &'static str)
        ensures
            k@ == Self::wire_key(),
    ;
}

/// A notification pushed by the server, known by its key on the wire.
pub trait RPCNotification {
    /// The key that names the notification on the wire.
    spec fn wire_key() -> Seq<char>;

    /// The key that names the notification on the wire.
    fn key() -> (k: &'static str)
        ensures
            k@ == Self::wire_key(),
    ;
}

} // verus!
