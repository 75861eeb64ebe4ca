use vstd::prelude::*;

use crate::error::{EndpointError, EndpointKind};
use crate::payload::{base64_decoded, decode_payload};
use crate::registry::{has_key, start_outcome, stop_outcome, Registry};

verus! {

/// Starts a UDP client bound to `bind_addr`. `open` binds the socket and
/// spawns its receiving worker; it runs only when no client is live on that
/// address, and a failed bind registers nothing.
pub fn start<H, F>(clients: &mut Registry<H>, bind_addr: String, open: F) -> (r: Result<
    (),
    EndpointError,
>) where F: FnOnce(&String) -> Result<H, EndpointError>
    requires
        old(clients).wf(),
        open.requires((&bind_addr,)),
    ensures
        final(clients).wf(),
        start_outcome(old(clients)@, final(clients)@, EndpointKind::UdpClient, bind_addr, open, r),
{
    clients.start(EndpointKind::UdpClient, bind_addr, open)
}

/// Unregisters the client on `bind_addr`, or every client when it is
/// `None`, and hands back the handles to signal and join.
pub fn stop<H>(clients: &mut Registry<H>, bind_addr: Option<String>) -> (r: Result<
    Vec<H>,
    EndpointError,
>)
    requires
        old(clients).wf(),
    ensures
        final(clients).wf(),
        stop_outcome(old(clients)@, final(clients)@, EndpointKind::UdpClient, bind_addr, r),
{
    clients.stop(EndpointKind::UdpClient, bind_addr)
}

/// What a datagram send outcome means to the caller: the number of bytes
/// sent, or the send error.
pub open spec fn datagram_send_result(res: Result<usize, String>) -> Result<
    usize,
    EndpointError,
> {
    match res {
        Ok(n) => Ok(n),
        Err(m) => Err(EndpointError::Write(m)),
    }
}

/// Sends a base64 payload to `to_addr` from the local address `bind_addr`.
/// When an endpoint is registered there, its socket sends (`send_on`);
/// otherwise a socket is bound for this one send (`ephemeral`), outside any
/// registry.
pub fn send_from<S, R, E>(
    sockets: &Registry<S>,
    bind_addr: &String,
    to_addr: &String,
    data_b64: &String,
    send_on: R,
    ephemeral: E,
) -> (r: Result<usize, EndpointError>) where
    R: FnOnce(&S, &[u8], &String) -> Result<usize, String>,
    E: FnOnce(&String, &[u8], &String) -> Result<usize, EndpointError>,

    requires
        forall|s: &S, b: &[u8]| send_on.requires((s, b, to_addr)),
        forall|b: &[u8]| ephemeral.requires((bind_addr, b, to_addr)),
    ensures
        base64_decoded(data_b64@) is None ==> (r matches Err(EndpointError::Encoding(_))),
        base64_decoded(data_b64@) is Some && has_key(sockets@, bind_addr@) ==> exists|
            i: int,
            b: &[u8],
            res: Result<usize, String>,
        |
            #![trigger send_on.ensures((&sockets@[i].1, b, to_addr), res)]
            0 <= i < sockets@.len() && sockets@[i].0@ == bind_addr@ && b@ == base64_decoded(
                data_b64@,
            )->0 && send_on.ensures((&sockets@[i].1, b, to_addr), res) && r == datagram_send_result(
                res,
            ),
        base64_decoded(data_b64@) is Some && !has_key(sockets@, bind_addr@) ==> exists|b: &[u8]|
            #![trigger ephemeral.ensures((bind_addr, b, to_addr), r)]
            b@ == base64_decoded(data_b64@)->0 && ephemeral.ensures((bind_addr, b, to_addr), r),
{
    let data = match decode_payload(data_b64) {
        Ok(d) => d,
        Err(e) => return Err(e),
    };
    let bytes = data.as_slice();
    match sockets.get(bind_addr) {
        Some(sock) => match send_on(sock, bytes, to_addr) {
            Ok(n) => Ok(n),
            Err(m) => Err(EndpointError::Write(m)),
        },
        None => ephemeral(bind_addr, bytes, to_addr),
    }
}

} // verus!
