use vstd::prelude::*;

verus! {

/// The four kinds of endpoint; each kind has its own registry.
#[derive(Clone, Copy, Debug, PartialEq, Eq, Structural)]
pub enum EndpointKind {
    UdpServer,
    UdpClient,
    TcpServer,
    TcpClient,
}

/// Why a control-path operation (start, stop, send) failed.
#[derive(Debug, PartialEq, Eq)]
pub enum EndpointError {
    /// An endpoint of this kind is already registered under the key.
    AlreadyRunning(EndpointKind),
    /// No endpoint of this kind is registered under the key.
    NotRunning(EndpointKind),
    /// Binding the local address failed; the text is the system's reason.
    Bind(String),
    /// Connecting to the remote address failed.
    Connect(String),
    /// The payload is not valid base64.
    Encoding(String),
    /// A TCP server send named a peer that is not connected.
    PeerNotFound,
    /// Writing to a socket failed.
    Write(String),
}

} // verus!
