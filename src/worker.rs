use vstd::prelude::*;

use std::collections::hash_map::DefaultHasher;
use std::hash::Hasher;
use vstd::std_specs::hash::DefaultHasherAdditionalSpecFns;
use vstd::string::StringSliceAdditionalSpecFns;

use crate::registry::{has_key, Registry};
use crate::payload::{base64_of, encode_payload, MAX_CHUNK};

verus! {

/// How long after a datagram an identical one counts as a duplicate.
pub const DUP_WINDOW_NS: u64 = 50_000_000;

/// The sequence number that follows `s`; wraps to 0 after `u64::MAX`.
pub open spec fn seq_after(s: u64) -> u64 {
    if s == u64::MAX {
        0
    } else {
        (s + 1) as u64
    }
}

pub fn next_seq(s: u64) -> (r: u64)
    ensures
        r == seq_after(s),
{
    if s == u64::MAX {
        0
    } else {
        s + 1
    }
}

/// Hash of a datagram over its source address text and its bytes; the
/// separator byte 0xff cannot occur in UTF-8 text.
pub open spec fn datagram_hash(from: Seq<u8>, data: Seq<u8>) -> u64 {
    DefaultHasher::spec_finish(seq![from, seq![0xffu8], data])
}

pub fn hash_datagram(from: &str, data: &[u8]) -> (r: u64)
    ensures
        r == datagram_hash(from.spec_bytes(), data@),
{
    let mut sep: Vec<u8> = Vec::new();
    sep.push(0xffu8);
    assert(sep@ =~= seq![0xffu8]);
    let mut hasher = DefaultHasher::new();
    let fb = from.as_bytes();
    hasher.write(fb);
    hasher.write(sep.as_slice());
    hasher.write(data);
    assert(hasher@ =~= seq![from.spec_bytes(), seq![0xffu8], data@]);
    hasher.finish()
}

/// Time from `since` to `now`, zero when `now` is earlier (a monotonic clock
/// read on another thread may lag).
pub open spec fn elapsed(since: u64, now: u64) -> u64 {
    if now >= since {
        (now - since) as u64
    } else {
        0
    }
}

/// A datagram with hash `hash` arriving at `now` is a duplicate when the one
/// before it on the same endpoint had the same hash and arrived less than
/// the window earlier. The first datagram is never one.
pub open spec fn is_duplicate(last: Option<(u64, u64)>, hash: u64, now: u64) -> bool {
    match last {
        Some(p) => p.0 == hash && elapsed(p.1, now) < DUP_WINDOW_NS,
        None => false,
    }
}

/// How a read attempt on a socket ended.
#[derive(Clone, Copy, Debug, PartialEq, Eq, Structural)]
pub enum ReadStatus {
    /// Bytes (possibly none) were read.
    Ready,
    /// The read timed out or would block; nothing happened.
    WouldBlock,
    /// Any other error.
    Failed,
}

/// A datagram as reported to the observer.
#[derive(Debug, PartialEq, Eq)]
pub struct DatagramEvent {
    pub from: String,
    /// The bytes, base64-encoded.
    pub data: String,
    pub seq: u64,
    pub ts_ms: u64,
    pub dup: bool,
}

/// A chunk of a TCP stream as reported to the observer.
#[derive(Debug, PartialEq, Eq)]
pub struct StreamEvent {
    /// The bytes, base64-encoded.
    pub data: String,
    pub seq: u64,
    pub ts_ms: u64,
}

/// What a UDP worker does after a receive attempt.
#[derive(Debug, PartialEq, Eq)]
pub enum DatagramStep {
    Deliver(DatagramEvent),
    Idle,
    /// Report the error and keep receiving.
    ReportError,
}

/// Receive state of a UDP endpoint (server or client): the last sequence
/// number and the most recent datagram's hash and arrival time.
pub struct UdpReceiver {
    seq: u64,
    last: Option<(u64, u64)>,
}

impl UdpReceiver {
    pub closed spec fn last_seq(&self) -> u64 {
        self.seq
    }

    pub closed spec fn last_seen(&self) -> Option<(u64, u64)> {
        self.last
    }

    pub fn new() -> (r: Self)
        ensures
            r.last_seq() == 0,
            r.last_seen() == None::<(u64, u64)>,
    {
        UdpReceiver { seq: 0, last: None }
    }

    /// Numbers a datagram from `from` received at monotonic time `now_ns`
    /// and flags it when it repeats the previous one within the window.
    pub fn on_datagram(&mut self, from: &str, data: &[u8], now_ns: u64, ts_ms: u64) -> (ev:
        DatagramEvent)
        requires
            data@.len() <= MAX_CHUNK,
        ensures
            ev.seq == seq_after(old(self).last_seq()),
            final(self).last_seq() == ev.seq,
            ev.dup == is_duplicate(
                old(self).last_seen(),
                datagram_hash(from.spec_bytes(), data@),
                now_ns,
            ),
            final(self).last_seen() == Some((datagram_hash(from.spec_bytes(), data@), now_ns)),
            ev.from@ == from@,
            ev.data@ == base64_of(data@),
            ev.ts_ms == ts_ms,
    {
        self.seq = next_seq(self.seq);
        let hash = hash_datagram(from, data);
        let dup = match self.last {
            Some(p) => {
                let gap: u64 = if now_ns >= p.1 {
                    now_ns - p.1
                } else {
                    0
                };
                p.0 == hash && gap < DUP_WINDOW_NS
            },
            None => false,
        };
        self.last = Some((hash, now_ns));
        DatagramEvent {
            from: from.to_owned(),
            data: encode_payload(data),
            seq: self.seq,
            ts_ms,
            dup,
        }
    }

    /// One receive attempt: a datagram is delivered, a timeout is ignored,
    /// any other error is reported and receiving goes on.
    pub fn on_recv(
        &mut self,
        status: ReadStatus,
        from: &str,
        data: &[u8],
        now_ns: u64,
        ts_ms: u64,
    ) -> (st: DatagramStep)
        requires
            data@.len() <= MAX_CHUNK,
        ensures
            status == ReadStatus::Ready ==> match st {
                DatagramStep::Deliver(ev) => ev.seq == seq_after(old(self).last_seq())
                    && final(self).last_seq() == ev.seq && ev.dup == is_duplicate(
                    old(self).last_seen(),
                    datagram_hash(from.spec_bytes(), data@),
                    now_ns,
                ) && final(self).last_seen() == Some(
                    (datagram_hash(from.spec_bytes(), data@), now_ns),
                ) && ev.from@ == from@ && ev.data@ == base64_of(data@) && ev.ts_ms == ts_ms,
                _ => false,
            },
            status == ReadStatus::WouldBlock ==> st == DatagramStep::Idle,
            status == ReadStatus::Failed ==> st == DatagramStep::ReportError,
            status != ReadStatus::Ready ==> final(self).last_seq() == old(self).last_seq()
                && final(self).last_seen() == old(self).last_seen(),
    {
        match status {
            ReadStatus::Ready => DatagramStep::Deliver(self.on_datagram(from, data, now_ns, ts_ms)),
            ReadStatus::WouldBlock => DatagramStep::Idle,
            ReadStatus::Failed => DatagramStep::ReportError,
        }
    }
}

/// What a TCP client worker does after a read attempt.
#[derive(Debug, PartialEq, Eq)]
pub enum StreamStep {
    Deliver(StreamEvent),
    Idle,
    /// The remote side closed the connection: report it and stop reading.
    Closed,
    /// A read error: report it and stop reading.
    Failed,
}

/// Read state of a TCP client: the last sequence number, and whether the
/// connection is still being read.
pub struct TcpClientReader {
    seq: u64,
    open: bool,
}

impl TcpClientReader {
    pub closed spec fn last_seq(&self) -> u64 {
        self.seq
    }

    pub closed spec fn is_open(&self) -> bool {
        self.open
    }

    pub fn new() -> (r: Self)
        ensures
            r.last_seq() == 0,
            r.is_open(),
    {
        TcpClientReader { seq: 0, open: true }
    }

    pub fn is_reading(&self) -> (r: bool)
        ensures
            r == self.is_open(),
    {
        self.open
    }

    /// One read attempt on the connection. A chunk is delivered; an empty
    /// read (orderly close) or an error ends the reading; a timeout is
    /// ignored.
    pub fn on_read(&mut self, status: ReadStatus, chunk: &[u8], ts_ms: u64) -> (st: StreamStep)
        requires
            old(self).is_open(),
            chunk@.len() <= MAX_CHUNK,
        ensures
            status == ReadStatus::Ready && chunk@.len() > 0 ==> match st {
                StreamStep::Deliver(ev) => ev.seq == seq_after(old(self).last_seq())
                    && final(self).last_seq() == ev.seq && ev.data@ == base64_of(chunk@)
                    && ev.ts_ms == ts_ms && final(self).is_open(),
                _ => false,
            },
            status == ReadStatus::Ready && chunk@.len() == 0 ==> st == StreamStep::Closed
                && !final(self).is_open() && final(self).last_seq() == old(self).last_seq(),
            status == ReadStatus::WouldBlock ==> st == StreamStep::Idle && final(self).is_open()
                && final(self).last_seq() == old(self).last_seq(),
            status == ReadStatus::Failed ==> st == StreamStep::Failed && !final(self).is_open()
                && final(self).last_seq() == old(self).last_seq(),
    {
        match status {
            ReadStatus::Ready => {
                if chunk.len() == 0 {
                    self.open = false;
                    StreamStep::Closed
                } else {
                    self.seq = next_seq(self.seq);
                    StreamStep::Deliver(
                        StreamEvent { data: encode_payload(chunk), seq: self.seq, ts_ms },
                    )
                }
            },
            ReadStatus::WouldBlock => StreamStep::Idle,
            ReadStatus::Failed => {
                self.open = false;
                StreamStep::Failed
            },
        }
    }
}

/// What a TCP server worker does after reading from one peer.
#[derive(Debug, PartialEq, Eq)]
pub enum PeerStep {
    Deliver(StreamEvent),
    Idle,
    /// The peer closed or failed; it has been dropped from the peer table.
    Disconnected,
}

/// Read state of a TCP server: the last sequence number over all its peers.
pub struct TcpServerReader {
    seq: u64,
}

impl TcpServerReader {
    pub closed spec fn last_seq(&self) -> u64 {
        self.seq
    }

    pub fn new() -> (r: Self)
        ensures
            r.last_seq() == 0,
    {
        TcpServerReader { seq: 0 }
    }

    /// Registers a newly accepted peer under its address; a stale entry under
    /// the same address is replaced.
    pub fn on_accept<S>(&self, peers: &mut Registry<S>, peer: String, stream: S) -> (prev: Option<S>)
        requires
            old(peers).wf(),
        ensures
            final(peers).wf(),
            has_key(final(peers)@, peer@),
            match prev {
                Some(p) => exists|i: int|
                    0 <= i < old(peers)@.len() && (#[trigger] old(peers)@[i]).0@ == peer@
                        && old(peers)@[i].1 == p && final(peers)@ == old(peers)@.remove(i).push(
                        (peer, stream),
                    ),
                None => !has_key(old(peers)@, peer@) && final(peers)@ == old(peers)@.push(
                    (peer, stream),
                ),
            },
    {
        peers.insert(peer, stream)
    }

    /// One non-blocking read from the tracked peer `peer`. A chunk is
    /// delivered; an empty read or an error drops the peer; would-block does
    /// nothing.
    pub fn on_peer_read<S>(
        &mut self,
        peers: &mut Registry<S>,
        peer: &String,
        status: ReadStatus,
        chunk: &[u8],
        ts_ms: u64,
    ) -> (st: PeerStep)
        requires
            old(peers).wf(),
            has_key(old(peers)@, peer@),
            chunk@.len() <= MAX_CHUNK,
        ensures
            final(peers).wf(),
            status == ReadStatus::Ready && chunk@.len() > 0 ==> match st {
                PeerStep::Deliver(ev) => ev.seq == seq_after(old(self).last_seq())
                    && final(self).last_seq() == ev.seq && ev.data@ == base64_of(chunk@)
                    && ev.ts_ms == ts_ms && final(peers)@ == old(peers)@,
                _ => false,
            },
            status == ReadStatus::WouldBlock ==> st == PeerStep::Idle && final(peers)@ == old(
                peers,
            )@ && final(self).last_seq() == old(self).last_seq(),
            (status == ReadStatus::Failed || (status == ReadStatus::Ready && chunk@.len() == 0))
                ==> st == PeerStep::Disconnected && final(self).last_seq() == old(self).last_seq()
                && !has_key(final(peers)@, peer@) && exists|i: int|
                0 <= i < old(peers)@.len() && (#[trigger] old(peers)@[i]).0@ == peer@
                    && final(peers)@ == old(peers)@.remove(i),
    {
        let drop_peer = match status {
            ReadStatus::Ready => chunk.len() == 0,
            ReadStatus::WouldBlock => false,
            ReadStatus::Failed => true,
        };
        if drop_peer {
            let _ = peers.remove(peer);
            PeerStep::Disconnected
        } else if status == ReadStatus::WouldBlock {
            PeerStep::Idle
        } else {
            self.seq = next_seq(self.seq);
            PeerStep::Deliver(StreamEvent { data: encode_payload(chunk), seq: self.seq, ts_ms })
        }
    }
}

} // verus!
