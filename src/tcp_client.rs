use vstd::prelude::*;

use crate::error::{EndpointError, EndpointKind};
use crate::payload::{base64_decoded, decode_payload};
use crate::registry::{has_key, start_outcome, stop_outcome, Registry};

verus! {

/// Connects a TCP client to `remote_addr`. `open` connects and spawns the
/// reading worker; it runs only when no client is live for that address,
/// and a failed connect registers nothing.
pub fn start<H, F>(clients: &mut Registry<H>, remote_addr: String, open: F) -> (r: Result<
    (),
    EndpointError,
>) where F: FnOnce(&String) -> Result<H, EndpointError>
    requires
        old(clients).wf(),
        open.requires((&remote_addr,)),
    ensures
        final(clients).wf(),
        start_outcome(
            old(clients)@,
            final(clients)@,
            EndpointKind::TcpClient,
            remote_addr,
            open,
            r,
        ),
{
    clients.start(EndpointKind::TcpClient, remote_addr, open)
}

/// Unregisters the client for `remote_addr`, or every client when it is
/// `None`, and hands back the handles to signal and join.
pub fn stop<H>(clients: &mut Registry<H>, remote_addr: Option<String>) -> (r: Result<
    Vec<H>,
    EndpointError,
>)
    requires
        old(clients).wf(),
    ensures
        final(clients).wf(),
        stop_outcome(old(clients)@, final(clients)@, EndpointKind::TcpClient, remote_addr, r),
{
    clients.stop(EndpointKind::TcpClient, remote_addr)
}

/// What a write outcome means to the caller of `send`: the number of bytes
/// written, or the write error.
pub open spec fn stream_write_result(res: Result<(), String>, n: nat) -> Result<
    usize,
    EndpointError,
> {
    match res {
        Ok(_) => Ok(n as usize),
        Err(m) => Err(EndpointError::Write(m)),
    }
}

/// Writes a base64 payload on the connection of the client for
/// `remote_addr`. A write failure is returned and leaves the registry as it
/// is: the worker notices a broken connection on its next read.
pub fn send<S, W>(clients: &Registry<S>, remote_addr: &String, data_b64: &String, write: W) -> (r:
    Result<usize, EndpointError>) where W: FnOnce(&S, &[u8]) -> Result<(), String>
    requires
        forall|s: &S, b: &[u8]| write.requires((s, b)),
    ensures
        base64_decoded(data_b64@) is None ==> (r matches Err(EndpointError::Encoding(_))),
        base64_decoded(data_b64@) is Some && !has_key(clients@, remote_addr@) ==> r == Err::<
            usize,
            EndpointError,
        >(EndpointError::NotRunning(EndpointKind::TcpClient)),
        base64_decoded(data_b64@) is Some && has_key(clients@, remote_addr@) ==> exists|
            i: int,
            b: &[u8],
            res: Result<(), String>,
        |
            #![trigger write.ensures((&clients@[i].1, b), res)]
            0 <= i < clients@.len() && clients@[i].0@ == remote_addr@ && b@ == base64_decoded(
                data_b64@,
            )->0 && write.ensures((&clients@[i].1, b), res) && r == stream_write_result(
                res,
                b@.len(),
            ),
{
    let data = match decode_payload(data_b64) {
        Ok(d) => d,
        Err(e) => return Err(e),
    };
    match clients.get(remote_addr) {
        Some(stream) => {
            let bytes = data.as_slice();
            match write(stream, bytes) {
                Ok(_) => Ok(bytes.len()),
                Err(m) => Err(EndpointError::Write(m)),
            }
        },
        None => Err(EndpointError::NotRunning(EndpointKind::TcpClient)),
    }
}

} // verus!
