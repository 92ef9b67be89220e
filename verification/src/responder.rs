//! Responses that a stream did not take whole.
//!
//! A response is written as the last segment of its stream. Where the engine
//! takes less than the whole body, the rest waits here until the stream can be
//! written again.

use std::collections::HashMap;
use vstd::prelude::*;
use vstd::slice::slice_subrange;

verus! {

broadcast use vstd::std_specs::hash::group_hash_axioms;

/// Whether a write of a response ends its stream: a response is the last
/// segment of its stream, so it does.
pub const RESPONSE_ENDS_STREAM: bool = true;

/// A response body and how much of it the stream has taken.
#[derive(Debug)]
pub struct PartialResponse {
    /// The whole body.
    pub body: Vec<u8>,
    /// The bytes of the body that were written.
    pub written: usize,
}

/// A partial response as values: the body and the write cursor.
pub ghost struct PartialView {
    pub body: Seq<u8>,
    pub written: nat,
}

impl View for PartialResponse {
    type V = PartialView;

    open spec fn view(&self) -> PartialView {
        PartialView { body: self.body@, written: self.written as nat }
    }
}

/// What the engine answered to a stream write.
#[derive(Clone, Copy, Debug, PartialEq, Eq)]
pub enum StreamSend {
    /// The stream took this many bytes.
    Written(usize),
    /// The stream can take nothing now.
    Done,
    /// The stream failed.
    Failed,
}

impl StreamSend {
    /// The bytes that the stream took.
    pub open spec fn taken(self) -> nat {
        match self {
            StreamSend::Written(n) => n as nat,
            _ => 0,
        }
    }
}

/// The pending responses after the first write of a response: a failed write
/// leaves them as they are, and so does one that took the whole body; a short
/// one records the body and what was taken.
pub open spec fn after_response(
    pending: Map<u64, PartialView>,
    stream_id: u64,
    body: Seq<u8>,
    outcome: StreamSend,
) -> Map<u64, PartialView> {
    if outcome !is Failed && outcome.taken() < body.len() {
        pending.insert(stream_id, PartialView { body, written: outcome.taken() })
    } else {
        pending
    }
}

/// The pending responses after a write to a stream that can be written again:
/// a stream without pending response changes nothing; a failed write drops the
/// response; else the cursor moves on by what was taken, and the response is
/// dropped once the cursor has reached the end of the body.
pub open spec fn after_flush(
    pending: Map<u64, PartialView>,
    stream_id: u64,
    outcome: StreamSend,
) -> Map<u64, PartialView> {
    if !pending.contains_key(stream_id) {
        pending
    } else if outcome is Failed {
        pending.remove(stream_id)
    } else {
        let entry = pending[stream_id];
        let written = entry.written + outcome.taken();
        if written == entry.body.len() {
            pending.remove(stream_id)
        } else {
            pending.insert(stream_id, PartialView { body: entry.body, written })
        }
    }
}

/// The pending responses after a run of writes that each took some bytes.
pub open spec fn after_flushes(
    pending: Map<u64, PartialView>,
    stream_id: u64,
    taken: Seq<nat>,
) -> Map<u64, PartialView>
    decreases taken.len(),
{
    if taken.len() == 0 {
        pending
    } else {
        let before = after_flushes(pending, stream_id, taken.drop_last());
        if !before.contains_key(stream_id) {
            before
        } else {
            let entry = before[stream_id];
            let written = entry.written + taken.last();
            if written == entry.body.len() {
                before.remove(stream_id)
            } else {
                before.insert(stream_id, PartialView { body: entry.body, written })
            }
        }
    }
}

/// The sum of a run of numbers.
pub open spec fn total(taken: Seq<nat>) -> nat
    decreases taken.len(),
{
    if taken.len() == 0 {
        0
    } else {
        total(taken.drop_last()) + taken.last()
    }
}

/// The responses that wait for their streams.
pub struct Responder {
    partial: HashMap<u64, PartialResponse>,
}

impl Responder {
    /// The pending responses by stream id.
    pub closed spec fn pending(&self) -> Map<u64, PartialView> {
        Map::new(|id: u64| self.partial@.contains_key(id), |id: u64| self.partial@[id]@)
    }

    /// Every pending response has bytes left to write.
    pub open spec fn wf(&self) -> bool {
        forall|id: u64| #[trigger]
            self.pending().contains_key(id) ==> self.pending()[id].written
                < self.pending()[id].body.len()
    }

    /// No pending responses.
    pub fn new() -> (r: Responder)
        ensures
            r.pending() == Map::<u64, PartialView>::empty(),
            r.wf(),
    {
        let r = Responder { partial: HashMap::new() };
        assert(r.pending() =~= Map::<u64, PartialView>::empty());
        r
    }

    /// Whether a response waits for the stream.
    pub fn has_pending(&self, stream_id: u64) -> (r: bool)
        ensures
            r == self.pending().contains_key(stream_id),
    {
        self.partial.contains_key(&stream_id)
    }

    /// The number of responses that wait.
    pub fn len(&self) -> (n: usize)
        ensures
            n == self.pending().dom().len(),
    {
        assert(self.pending().dom() =~= self.partial@.dom());
        self.partial.len()
    }

    /// Takes note of the first write of a response on a stream.
    pub fn on_response(&mut self, stream_id: u64, body: Vec<u8>, outcome: StreamSend)
        requires
            old(self).wf(),
        ensures
            final(self).wf(),
            final(self).pending() == after_response(
                old(self).pending(),
                stream_id,
                body@,
                outcome,
            ),
    {
        let written: usize = match outcome {
            StreamSend::Written(n) => n,
            StreamSend::Done => 0,
            StreamSend::Failed => {
                return ;
            },
        };
        if written < body.len() {
            let ghost before = self.pending();
            let response = PartialResponse { body, written };
            self.partial.insert(stream_id, response);
            assert(self.pending() =~= before.insert(stream_id, response@));
        }
    }

    /// The bytes of a pending response that are still to be written.
    pub fn pending_chunk(&self, stream_id: u64) -> (r: Option<&[u8]>)
        requires
            self.wf(),
        ensures
            match r {
                Some(chunk) => self.pending().contains_key(stream_id) && chunk@
                    == self.pending()[stream_id].body.skip(
                    self.pending()[stream_id].written as int,
                ),
                None => !self.pending().contains_key(stream_id),
            },
    {
        match self.partial.get(&stream_id) {
            Some(response) => {
                assert(self.pending().contains_key(stream_id));
                assert(self.pending()[stream_id] == response@);
                let chunk = slice_subrange(
                    response.body.as_slice(),
                    response.written,
                    response.body.len(),
                );
                assert(response.body@.subrange(
                    response.written as int,
                    response.body@.len() as int,
                ) == response.body@.skip(response.written as int));
                Some(chunk)
            },
            None => None,
        }
    }

    /// Takes note of a write to a stream that can be written again. The engine
    /// never takes more than it was offered.
    pub fn on_flush(&mut self, stream_id: u64, outcome: StreamSend)
        requires
            old(self).wf(),
            old(self).pending().contains_key(stream_id) ==> old(self).pending()[stream_id].written
                + outcome.taken() <= old(self).pending()[stream_id].body.len(),
        ensures
            final(self).wf(),
            final(self).pending() == after_flush(old(self).pending(), stream_id, outcome),
    {
        let ghost before = self.pending();
        match self.partial.remove(&stream_id) {
            None => {
                assert(self.pending() =~= before);
            },
            Some(response) => {
                assert(before.contains_key(stream_id));
                assert(before[stream_id] == response@);
                assert(self.pending() =~= before.remove(stream_id));
                let taken: usize = match outcome {
                    StreamSend::Written(n) => n,
                    StreamSend::Done => 0,
                    StreamSend::Failed => {
                        return ;
                    },
                };
                let len: usize = response.body.len();
                assert(response.written + taken <= len) by {
                    assert(old(self).pending()[stream_id] == response@);
                    assert(outcome.taken() == taken);
                }
                let written: usize = response.written + taken;
                if written != len {
                    let ghost removed = self.pending();
                    let next = PartialResponse { body: response.body, written };
                    self.partial.insert(stream_id, next);
                    assert(self.pending() =~= removed.insert(stream_id, next@));
                    assert(self.pending() =~= before.insert(stream_id, next@));
                }
            },
        }
    }
}

/// A write that takes less than the body leaves a response pending for the
/// stream, and only such a write does.
pub proof fn lemma_short_write_is_recorded(
    pending: Map<u64, PartialView>,
    stream_id: u64,
    body: Seq<u8>,
    outcome: StreamSend,
)
    requires
        !pending.contains_key(stream_id),
    ensures
        after_response(pending, stream_id, body, outcome).contains_key(stream_id) <==> (outcome
            !is Failed && outcome.taken() < body.len()),
        after_response(pending, stream_id, body, outcome).contains_key(stream_id)
            ==> after_response(pending, stream_id, body, outcome)[stream_id] == (PartialView {
            body,
            written: outcome.taken(),
        }),
{
}

/// Writes that together take no more than what is left drain a pending
/// response: it stays pending, with its cursor moved on by what was taken, as
/// long as bytes are left, and is gone once all of the body was taken.
pub proof fn lemma_flushes_drain(pending: Map<u64, PartialView>, stream_id: u64, taken: Seq<nat>)
    requires
        pending.contains_key(stream_id),
        pending[stream_id].written < pending[stream_id].body.len(),
        pending[stream_id].written + total(taken) <= pending[stream_id].body.len(),
    ensures
        after_flushes(pending, stream_id, taken).contains_key(stream_id) <==> pending[stream_id].written
            + total(taken) < pending[stream_id].body.len(),
        after_flushes(pending, stream_id, taken).contains_key(stream_id) ==> after_flushes(
            pending,
            stream_id,
            taken,
        )[stream_id] == (PartialView {
            body: pending[stream_id].body,
            written: pending[stream_id].written + total(taken),
        }),
        forall|other: u64|
            other != stream_id ==> (#[trigger] after_flushes(
                pending,
                stream_id,
                taken,
            ).contains_key(other) <==> pending.contains_key(other)),
    decreases taken.len(),
{
    if taken.len() > 0 {
        lemma_flushes_drain(pending, stream_id, taken.drop_last());
    }
}

/// One write of `n` bytes is a run of one.
pub proof fn lemma_flush_is_a_run(pending: Map<u64, PartialView>, stream_id: u64, n: usize)
    ensures
        after_flush(pending, stream_id, StreamSend::Written(n)) == after_flushes(
            pending,
            stream_id,
            seq![n as nat],
        ),
{
    let run = seq![n as nat];
    assert(run.drop_last() =~= Seq::<nat>::empty());
    assert(after_flushes(pending, stream_id, run.drop_last()) == pending);
    assert(run.last() == n as nat);
}

} // verus!
