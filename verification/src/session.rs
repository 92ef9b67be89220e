//! The session: admission of the first packet, the states a session passes
//! through, and the write phase of a wake cycle.

use vstd::prelude::*;
use crate::addr::{PathIdentity, SocketAddress};
use crate::connection_id::{derive_connection_id, derived_id, HASH_INPUT_LIMIT};
use crate::pacer::{LossRate, Pacer, MAX_BUF_SIZE};
use crate::packet::PacketHeader;
use crate::responder::{PartialView, Responder};
use crate::scheduler::{PathStats, Scheduler};
use crate::token::{mint_token, minted, validate_token, validated};

verus! {

/// Why a received packet is dropped without a reply.
#[derive(Clone, Copy, Debug, PartialEq, Eq)]
pub enum Discard {
    /// There is no session and the packet does not start a handshake.
    NotInitial,
    /// The token does not validate for the packet's source address.
    InvalidToken,
    /// The destination connection id has not the length of the ids this server
    /// issues.
    InvalidConnectionId,
}

/// What to do with a received packet.
#[derive(Clone, Debug, PartialEq, Eq)]
pub enum Ingest {
    /// Hand the packet to the engine of the session that exists.
    Route,
    /// Drop the packet.
    Discard(Discard),
    /// Answer with a version-negotiation packet and drop the packet.
    NegotiateVersion,
    /// Answer with a stateless retry that names `scid` as the new source
    /// connection id and carries `token`, and drop the packet.
    Retry { scid: Vec<u8>, token: Vec<u8> },
    /// Open a session: the engine accepts a connection with source
    /// connection id `scid` and original destination connection id `odcid`,
    /// and takes the packet.
    Accept { scid: Vec<u8>, odcid: Vec<u8> },
}

/// An `Ingest` with byte strings as sequences.
pub ghost enum IngestView {
    Route,
    Discard(Discard),
    NegotiateVersion,
    Retry { scid: Seq<u8>, token: Seq<u8> },
    Accept { scid: Seq<u8>, odcid: Seq<u8> },
}

impl View for Ingest {
    type V = IngestView;

    open spec fn view(&self) -> IngestView {
        match *self {
            Ingest::Route => IngestView::Route,
            Ingest::Discard(why) => IngestView::Discard(why),
            Ingest::NegotiateVersion => IngestView::NegotiateVersion,
            Ingest::Retry { scid, token } => IngestView::Retry { scid: scid@, token: token@ },
            Ingest::Accept { scid, odcid } => IngestView::Accept { scid: scid@, odcid: odcid@ },
        }
    }
}

/// The rule of admission. With a session, every packet is routed to it.
/// Without one, only an initial packet of a supported version is considered:
/// without a token it is answered with a retry that carries a fresh token and
/// the derived connection id `conn_id`; with a token it is accepted when the
/// token validates for `from` and the packet is addressed to a connection id
/// as long as `conn_id`.
pub open spec fn admission(
    session_exists: bool,
    hdr: PacketHeader,
    version_supported: bool,
    from: SocketAddress,
    conn_id: Seq<u8>,
) -> IngestView {
    if session_exists {
        IngestView::Route
    } else if !hdr.is_initial() {
        IngestView::Discard(Discard::NotInitial)
    } else if !version_supported {
        IngestView::NegotiateVersion
    } else if hdr.token_bytes().len() == 0 {
        IngestView::Retry { scid: conn_id, token: minted(hdr.dcid@, from) }
    } else {
        match validated(from, hdr.token_bytes()) {
            None => IngestView::Discard(Discard::InvalidToken),
            Some(odcid) => if conn_id.len() != hdr.dcid@.len() {
                IngestView::Discard(Discard::InvalidConnectionId)
            } else {
                IngestView::Accept { scid: hdr.dcid@, odcid }
            },
        }
    }
}

/// Decides what to do with a packet, given the connection id that the server
/// derives for it.
pub fn decide_ingest(
    session_exists: bool,
    hdr: &PacketHeader,
    version_supported: bool,
    from: &SocketAddress,
    conn_id: Vec<u8>,
) -> (r: Ingest)
    ensures
        r@ == admission(session_exists, *hdr, version_supported, *from, conn_id@),
{
    if session_exists {
        return Ingest::Route;
    }
    if !hdr.initial() {
        return Ingest::Discard(Discard::NotInitial);
    }
    if !version_supported {
        return Ingest::NegotiateVersion;
    }
    match &hdr.token {
        None => Ingest::Retry { scid: conn_id, token: mint_token(hdr, from) },
        Some(token) => {
            if token.len() == 0 {
                return Ingest::Retry { scid: conn_id, token: mint_token(hdr, from) };
            }
            match validate_token(from, token.as_slice()) {
                None => Ingest::Discard(Discard::InvalidToken),
                Some(odcid) => {
                    if conn_id.len() != hdr.dcid.len() {
                        Ingest::Discard(Discard::InvalidConnectionId)
                    } else {
                        Ingest::Accept { scid: hdr.dcid.clone(), odcid }
                    }
                },
            }
        },
    }
}

/// Decides what to do with a packet that came from `from`. The connection id
/// is derived from the packet's destination connection id under `secret`.
pub fn ingest(
    session_exists: bool,
    hdr: &PacketHeader,
    version_supported: bool,
    from: &SocketAddress,
    secret: &[u8],
) -> (r: Ingest)
    requires
        secret@.len() <= HASH_INPUT_LIMIT,
        hdr.dcid@.len() <= HASH_INPUT_LIMIT,
    ensures
        r@ == admission(
            session_exists,
            *hdr,
            version_supported,
            *from,
            derived_id(secret@, hdr.dcid@),
        ),
{
    let conn_id = derive_connection_id(secret, hdr.dcid.as_slice());
    decide_ingest(session_exists, hdr, version_supported, from, conn_id)
}

/// There is at most one session: while one exists no packet opens another,
/// and every packet goes to its engine. Without a session a packet is accepted
/// only if it is an initial packet of a supported version with a token that
/// validates for its source address.
pub proof fn lemma_single_session(
    hdr: PacketHeader,
    version_supported: bool,
    from: SocketAddress,
    conn_id: Seq<u8>,
)
    ensures
        admission(true, hdr, version_supported, from, conn_id) is Route,
        admission(false, hdr, version_supported, from, conn_id) !is Route,
        admission(false, hdr, version_supported, from, conn_id) is Accept ==> {
            &&& hdr.is_initial()
            &&& version_supported
            &&& validated(from, hdr.token_bytes()) is Some
        },
{
}

/// A peer that answers a retry from the address it was sent to is accepted:
/// its packet carries the retry's token and is addressed to the retry's
/// connection id, and the session gets that connection id and the destination
/// connection id of the peer's first packet.
pub proof fn lemma_retry_is_honoured(
    first: PacketHeader,
    second: PacketHeader,
    from: SocketAddress,
    first_id: Seq<u8>,
    second_id: Seq<u8>,
)
    requires
        first.is_initial(),
        first.token_bytes().len() == 0,
        second.is_initial(),
        second.dcid@ == first_id,
        second.token_bytes() == minted(first.dcid@, from),
        second_id.len() == first_id.len(),
    ensures
        admission(false, first, true, from, first_id) == (IngestView::Retry {
            scid: first_id,
            token: minted(first.dcid@, from),
        }),
        admission(false, second, true, from, second_id) == (IngestView::Accept {
            scid: first_id,
            odcid: first.dcid@,
        }),
{
    crate::token::lemma_token_round_trip(first.dcid@, from);
    assert(minted(first.dcid@, from).len() >= 6);
}

/// The states of the one session that the server holds.
#[derive(Clone, Copy, Debug, PartialEq, Eq)]
pub enum SessionState {
    NoSession,
    Handshaking,
    Established,
    Closed,
}

/// What moves a session from one state to the next.
#[derive(Clone, Copy, Debug, PartialEq, Eq)]
pub enum SessionEvent {
    /// A validated first packet was admitted.
    Admitted,
    /// The engine reported on the connection after taking a packet.
    Engine { established: bool, early_data: bool, closed: bool },
}

impl SessionState {
    /// The state after an event: an admitted packet starts the handshake, a
    /// closed connection closes the session from any state, and a handshake
    /// ends when the connection is established or early data can be used.
    pub open spec fn after(self, event: SessionEvent) -> SessionState {
        match event {
            SessionEvent::Admitted => if self is NoSession {
                SessionState::Handshaking
            } else {
                self
            },
            SessionEvent::Engine { established, early_data, closed } => if closed {
                SessionState::Closed
            } else if self is Handshaking && (established || early_data) {
                SessionState::Established
            } else {
                self
            },
        }
    }

    /// The state after an event.
    pub fn advance(self, event: SessionEvent) -> (next: SessionState)
        ensures
            next == self.after(event),
    {
        match event {
            SessionEvent::Admitted => match self {
                SessionState::NoSession => SessionState::Handshaking,
                _ => self,
            },
            SessionEvent::Engine { established, early_data, closed } => {
                if closed {
                    SessionState::Closed
                } else {
                    match self {
                        SessionState::Handshaking => if established || early_data {
                            SessionState::Established
                        } else {
                            self
                        },
                        _ => self,
                    }
                }
            },
        }
    }
}

/// A closed session stays closed, and a session is established only out of a
/// handshake.
pub proof fn lemma_session_states(state: SessionState, event: SessionEvent)
    ensures
        SessionState::Closed.after(event) is Closed,
        state.after(event) is Established ==> state is Established || state is Handshaking,
        state.after(event) is Handshaking ==> state is Handshaking || (state is NoSession
            && event is Admitted),
        state.after(event) is NoSession ==> state is NoSession,
{
}

/// What the server keeps of its one session, beside the engine's connection.
pub struct Client {
    /// The state of the session.
    pub state: SessionState,
    /// The responses that wait for their streams.
    pub partial_responses: Responder,
    /// The pacing state.
    pub pacer: Pacer,
}

impl Client {
    /// The session that an accepted first packet opens: in its handshake, with
    /// no pending response, no loss and the largest burst ceiling.
    pub fn new() -> (c: Client)
        ensures
            c.state is Handshaking,
            c.partial_responses.wf(),
            c.partial_responses.pending() == Map::<u64, PartialView>::empty(),
            c.pacer == (Pacer { baseline: LossRate { lost: 0, sent: 0 }, ceiling: MAX_BUF_SIZE }),
    {
        Client {
            state: SessionState::Handshaking,
            partial_responses: Responder::new(),
            pacer: Pacer::new(),
        }
    }
}

/// Whether streams are served after a packet was taken: only once the
/// connection is established or early data can be used.
pub fn serves_streams(established: bool, early_data: bool) -> (r: bool)
    ensures
        r == (established || early_data),
{
    early_data || established
}

/// How long a poll may wait.
#[derive(Clone, Copy, Debug, PartialEq, Eq)]
pub struct Wait {
    pub secs: u64,
    pub nanos: u32,
}

/// The wait of the next poll: none at all after a write phase that was cut off
/// at its quota, else until the engine's next timeout, if it has one.
pub fn poll_timeout(deferred: bool, engine_timeout: Option<Wait>) -> (r: Option<Wait>)
    ensures
        r == if deferred {
            Some(Wait { secs: 0, nanos: 0 })
        } else {
            engine_timeout
        },
{
    if deferred {
        Some(Wait { secs: 0, nanos: 0 })
    } else {
        engine_timeout
    }
}

/// Whether a wake is a timeout: the poll reported no event and no write was
/// left over. The engine's timeout is fired and the socket is not read.
pub fn is_timeout(no_events: bool, deferred: bool) -> (r: bool)
    ensures
        r == (no_events && !deferred),
{
    no_events && !deferred
}

/// The error code with which a connection is closed after a failed send.
pub const CLOSE_ERROR_CODE: u64 = 0x1;

/// The reason given when a connection is closed after a failed send: the ASCII
/// letters `fail`.
pub open spec fn close_reason_spec() -> Seq<u8> {
    seq![0x66u8, 0x61u8, 0x69u8, 0x6cu8]
}

/// The reason given when a connection is closed after a failed send.
pub fn close_reason() -> (r: Vec<u8>)
    ensures
        r@ == close_reason_spec(),
{
    let mut r: Vec<u8> = Vec::new();
    r.push(0x66);
    r.push(0x61);
    r.push(0x69);
    r.push(0x6c);
    assert(r@ =~= close_reason_spec());
    r
}

/// What came of one attempt to emit a datagram.
#[derive(Clone, Copy, Debug, PartialEq, Eq)]
pub enum Emission {
    /// The scheduler named no path.
    NoPath,
    /// The engine has nothing more to send.
    Done,
    /// The engine failed to produce a datagram.
    Failed,
    /// The engine produced a datagram of `bytes` bytes; `blocked` says that
    /// the socket would not take it.
    Sent { bytes: usize, blocked: bool },
}

/// How the write phase goes on after an attempt.
#[derive(Clone, Copy, Debug, PartialEq, Eq)]
pub enum Verdict {
    /// Ask the scheduler for the next path.
    Continue,
    /// The burst is over.
    End,
    /// Close the connection with `CLOSE_ERROR_CODE` and the fixed reason; the
    /// burst is over.
    Close,
}

/// The write phase of one wake cycle.
#[derive(Clone, Copy, Debug, PartialEq, Eq)]
pub struct Burst {
    /// Bytes that this burst may emit.
    pub quota: usize,
    /// Bytes emitted so far.
    pub written: usize,
    /// The burst reached its quota while the engine still had data.
    pub deferred: bool,
    /// The burst is over.
    pub ended: bool,
}

impl Burst {
    /// Whether another datagram is to be emitted.
    pub open spec fn active(self) -> bool {
        !self.ended && self.written < self.quota
    }

    /// The burst after an attempt, and how the write phase goes on.
    pub open spec fn step(self, emission: Emission) -> (Burst, Verdict) {
        match emission {
            Emission::NoPath => (Burst { ended: true, ..self }, Verdict::End),
            Emission::Done => (Burst { ended: true, ..self }, Verdict::End),
            Emission::Failed => (Burst { ended: true, ..self }, Verdict::Close),
            Emission::Sent { bytes, blocked } => {
                let written = (self.written + bytes) as usize;
                if blocked {
                    (Burst { written, ended: true, ..self }, Verdict::End)
                } else if written >= self.quota {
                    (Burst { written, deferred: true, ended: true, ..self }, Verdict::End)
                } else {
                    (Burst { written, ..self }, Verdict::Continue)
                }
            },
        }
    }

    /// A burst that may emit `quota` bytes.
    pub fn begin(quota: usize) -> (b: Burst)
        ensures
            b == (Burst { quota, written: 0, deferred: false, ended: false }),
    {
        Burst { quota, written: 0, deferred: false, ended: false }
    }

    /// Whether another datagram is to be emitted.
    pub fn wants_more(&self) -> (r: bool)
        ensures
            r == self.active(),
    {
        !self.ended && self.written < self.quota
    }

    /// Takes note of an attempt to emit a datagram.
    pub fn record(&mut self, emission: Emission) -> (verdict: Verdict)
        requires
            emission matches Emission::Sent { bytes, .. } ==> old(self).written + bytes
                <= usize::MAX,
        ensures
            (*final(self), verdict) == old(self).step(emission),
    {
        match emission {
            Emission::NoPath => {
                self.ended = true;
                Verdict::End
            },
            Emission::Done => {
                self.ended = true;
                Verdict::End
            },
            Emission::Failed => {
                self.ended = true;
                Verdict::Close
            },
            Emission::Sent { bytes, blocked } => {
                self.written = self.written + bytes;
                if blocked {
                    self.ended = true;
                    Verdict::End
                } else if self.written >= self.quota {
                    self.deferred = true;
                    self.ended = true;
                    Verdict::End
                } else {
                    Verdict::Continue
                }
            },
        }
    }
}

/// The path of the next datagram of a burst. While the burst is active the
/// scheduler is asked and its choice is the path; a scheduler that names no
/// path ends the burst. A burst that is not active asks nobody.
pub fn next_emission<S: Scheduler>(burst: &mut Burst, scheduler: &mut S, paths: &[PathStats]) -> (r:
    Option<PathIdentity>)
    ensures
        r == if old(burst).active() {
            old(scheduler).choice(paths@)
        } else {
            None
        },
        *final(scheduler) == if old(burst).active() {
            old(scheduler).advanced(paths@)
        } else {
            *old(scheduler)
        },
        *final(burst) == if old(burst).active() && r is None {
            old(burst).step(Emission::NoPath).0
        } else {
            *old(burst)
        },
        r matches Some(id) ==> exists|i: int|
            0 <= i < paths@.len() && #[trigger] paths@[i].identity() == id,
{
    if !burst.wants_more() {
        return None;
    }
    match scheduler.next_path(paths) {
        Some(id) => Some(id),
        None => {
            burst.record(Emission::NoPath);
            None
        },
    }
}

/// A burst goes on only below its quota, is deferred only at or above it, and
/// is over once it is deferred.
pub proof fn lemma_burst_step(b: Burst, emission: Emission)
    requires
        b.active(),
        !b.deferred,
        emission matches Emission::Sent { bytes, .. } ==> b.written + bytes <= usize::MAX,
    ensures
        b.step(emission).1 is Continue ==> b.step(emission).0.active(),
        b.step(emission).1 !is Continue ==> !b.step(emission).0.active(),
        b.step(emission).0.deferred <==> (emission matches Emission::Sent { bytes, blocked }
            && !blocked && b.written + bytes >= b.quota),
        b.step(emission).0.written >= b.written,
        b.step(emission).0.quota == b.quota,
{
}

} // verus!
