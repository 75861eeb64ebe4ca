use vstd::prelude::*;

use crate::error::{EndpointError, EndpointKind};
use crate::payload::{base64_decoded, decode_payload};
use crate::registry::{
    count_false, count_true, has_key, kept, lemma_counts, lemma_kept, oks, start_outcome,
    stop_outcome, unique_keys, Registry,
};

verus! {

/// Starts a TCP server on `bind_addr`. `open` binds the listener and spawns
/// its worker; it runs only when no server is live on that address.
pub fn start<H, F>(servers: &mut Registry<H>, bind_addr: String, open: F) -> (r: Result<
    (),
    EndpointError,
>) where F: FnOnce(&String) -> Result<H, EndpointError>
    requires
        old(servers).wf(),
        open.requires((&bind_addr,)),
    ensures
        final(servers).wf(),
        start_outcome(old(servers)@, final(servers)@, EndpointKind::TcpServer, bind_addr, open, r),
{
    servers.start(EndpointKind::TcpServer, bind_addr, open)
}

/// Unregisters the server on `bind_addr`, or every server when it is `None`,
/// and hands back the handles to signal and join.
pub fn stop<H>(servers: &mut Registry<H>, bind_addr: Option<String>) -> (r: Result<
    Vec<H>,
    EndpointError,
>)
    requires
        old(servers).wf(),
    ensures
        final(servers).wf(),
        stop_outcome(old(servers)@, final(servers)@, EndpointKind::TcpServer, bind_addr, r),
{
    servers.stop(EndpointKind::TcpServer, bind_addr)
}

/// Writes `data` to every tracked peer in turn. Peers whose write fails are
/// dropped from the table; the result is the number of successful writes.
pub fn broadcast<S, W>(peers: &mut Registry<S>, data: &[u8], write: &W) -> (sent: usize) where
    W: Fn(&S, &[u8]) -> Result<(), String>,

    requires
        old(peers).wf(),
        forall|s: &S| write.requires((s, data)),
    ensures
        final(peers).wf(),
        exists|outs: Seq<Result<(), String>>|
            outs.len() == old(peers)@.len() && (forall|i: int|
                0 <= i < outs.len() ==> write.ensures(
                    (&old(peers)@[i].1, data),
                    #[trigger] outs[i],
                )) && sent == count_true(oks(outs)) && final(peers)@ == kept(
                old(peers)@,
                oks(outs),
            ),
{
    peers.retain_ok(write, data)
}

/// Of a broadcast to N peers of which M fail: N - M writes succeed, and
/// exactly the M failing peers are gone from the peer table afterwards.
pub proof fn lemma_broadcast_drops_exactly_failed<S>(before: Seq<(String, S)>, ok: Seq<bool>)
    requires
        unique_keys(before),
        ok.len() == before.len(),
    ensures
        count_true(ok) == before.len() - count_false(ok),
        kept(before, ok).len() == count_true(ok),
        forall|i: int|
            0 <= i < before.len() ==> (!has_key(kept(before, ok), (#[trigger] before[i]).0@)
                <==> !ok[i]),
        forall|m: int|
            0 <= m < kept(before, ok).len() ==> has_key(before, (#[trigger] kept(before, ok)[m]).0@),
{
    lemma_counts(ok);
    lemma_kept(before, ok);
    let k = kept(before, ok);
    assert forall|m: int| 0 <= m < k.len() implies has_key(before, (#[trigger] k[m]).0@) by {
        let j = choose|j: int| 0 <= j < before.len() && ok[j] && (#[trigger] before[j]) == k[m];
    }
}

/// What a write outcome means to the caller of `send` for one peer.
pub open spec fn peer_write_result(res: Result<(), String>) -> Result<usize, EndpointError> {
    match res {
        Ok(_) => Ok(1),
        Err(m) => Err(EndpointError::Write(m)),
    }
}

/// Sends a base64 payload from a TCP server: to the peer `to_peer` when it
/// is given, else to every peer (see `broadcast`). Returns how many peers
/// were written. A failed write to a named peer is the caller's error and
/// leaves the peer in place.
pub fn send<S, W>(peers: &mut Registry<S>, to_peer: Option<String>, data_b64: &String, write: &W) -> (r:
    Result<usize, EndpointError>) where W: Fn(&S, &[u8]) -> Result<(), String>
    requires
        old(peers).wf(),
        forall|s: &S, b: &[u8]| write.requires((s, b)),
    ensures
        final(peers).wf(),
        base64_decoded(data_b64@) is None ==> (r matches Err(EndpointError::Encoding(_)))
            && final(peers)@ == old(peers)@,
        base64_decoded(data_b64@) is Some ==> match to_peer {
            Some(p) => final(peers)@ == old(peers)@ && if has_key(old(peers)@, p@) {
                exists|i: int, b: &[u8], res: Result<(), String>|
                    #![trigger write.ensures((&old(peers)@[i].1, b), res)]
                    0 <= i < old(peers)@.len() && old(peers)@[i].0@ == p@ && b@
                        == base64_decoded(data_b64@)->0 && write.ensures(
                        (&old(peers)@[i].1, b),
                        res,
                    ) && r == peer_write_result(res)
            } else {
                r == Err::<usize, EndpointError>(EndpointError::PeerNotFound)
            },
            None => exists|b: &[u8], outs: Seq<Result<(), String>>|
                b@ == base64_decoded(data_b64@)->0 && outs.len() == old(peers)@.len() && (forall|
                    i: int,
                |
                    0 <= i < outs.len() ==> write.ensures(
                        (&old(peers)@[i].1, b),
                        #[trigger] outs[i],
                    )) && r == Ok::<usize, EndpointError>(count_true(oks(outs)) as usize)
                    && final(peers)@ == kept(old(peers)@, oks(outs)),
        },
{
    let data = match decode_payload(data_b64) {
        Ok(d) => d,
        Err(e) => return Err(e),
    };
    let bytes = data.as_slice();
    match to_peer {
        Some(p) => match peers.get(&p) {
            Some(stream) => {
                let res = write(stream, bytes);
                match res {
                    Ok(_) => Ok(1),
                    Err(m) => Err(EndpointError::Write(m)),
                }
            },
            None => Err(EndpointError::PeerNotFound),
        },
        None => {
            let sent = broadcast(peers, bytes, write);
            Ok(sent)
        },
    }
}

} // verus!
