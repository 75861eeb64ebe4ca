use vstd::prelude::*;

use crate::error::{EndpointError, EndpointKind};
use crate::payload::base64_decoded;
use crate::registry::{has_key, start_outcome, stop_outcome, Registry};
use crate::udp_client::datagram_send_result;

verus! {

/// Starts a UDP server bound to `bind_addr`. The bind happens in `open`,
/// before the worker is spawned, so a bind failure comes back to the caller
/// and registers nothing; it runs only when no server is live there.
pub fn start<H, F>(servers: &mut Registry<H>, bind_addr: String, open: F) -> (r: Result<
    (),
    EndpointError,
>) where F: FnOnce(&String) -> Result<H, EndpointError>
    requires
        old(servers).wf(),
        open.requires((&bind_addr,)),
    ensures
        final(servers).wf(),
        start_outcome(old(servers)@, final(servers)@, EndpointKind::UdpServer, bind_addr, open, r),
{
    servers.start(EndpointKind::UdpServer, bind_addr, open)
}

/// Unregisters the server on `bind_addr`, or every server when it is
/// `None`, and hands back the handles to signal and join.
pub fn stop<H>(servers: &mut Registry<H>, bind_addr: Option<String>) -> (r: Result<
    Vec<H>,
    EndpointError,
>)
    requires
        old(servers).wf(),
    ensures
        final(servers).wf(),
        stop_outcome(old(servers)@, final(servers)@, EndpointKind::UdpServer, bind_addr, r),
{
    servers.stop(EndpointKind::UdpServer, bind_addr)
}

/// Sends a base64 payload to `to_addr` from a server's address: through the
/// server's own socket when one is live on `bind_addr`, else through a socket
/// bound for this send only.
pub fn send_from<S, R, E>(
    servers: &Registry<S>,
    bind_addr: &String,
    to_addr: &String,
    data_b64: &String,
    send_on: R,
    ephemeral: E,
) -> (r: Result<usize, EndpointError>) where
    R: FnOnce(&S, &[u8], &String) -> Result<usize, String>,
    E: FnOnce(&String, &[u8], &String) -> Result<usize, EndpointError>,

    requires
        forall|s: &S, b: &[u8]| send_on.requires((s, b, to_addr)),
        forall|b: &[u8]| ephemeral.requires((bind_addr, b, to_addr)),
    ensures
        base64_decoded(data_b64@) is None ==> (r matches Err(EndpointError::Encoding(_))),
        base64_decoded(data_b64@) is Some && has_key(servers@, bind_addr@) ==> exists|
            i: int,
            b: &[u8],
            res: Result<usize, String>,
        |
            #![trigger send_on.ensures((&servers@[i].1, b, to_addr), res)]
            0 <= i < servers@.len() && servers@[i].0@ == bind_addr@ && b@ == base64_decoded(
                data_b64@,
            )->0 && send_on.ensures((&servers@[i].1, b, to_addr), res) && r == datagram_send_result(
                res,
            ),
        base64_decoded(data_b64@) is Some && !has_key(servers@, bind_addr@) ==> exists|b: &[u8]|
            #![trigger ephemeral.ensures((bind_addr, b, to_addr), r)]
            b@ == base64_decoded(data_b64@)->0 && ephemeral.ensures((bind_addr, b, to_addr), r),
{
    crate::udp_client::send_from(servers, bind_addr, to_addr, data_b64, send_on, ephemeral)
}

} // verus!
