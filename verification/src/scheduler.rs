//! Path scheduling: which path carries the next datagram of a burst.

use vstd::prelude::*;
use crate::addr::{PathIdentity, SocketAddress};
use crate::bytes::has_at;

verus! {

/// What the engine reports of one path.
#[derive(Clone, Copy, Debug, PartialEq, Eq)]
pub struct PathStats {
    /// The local address of the path.
    pub local_addr: SocketAddress,
    /// The peer's address on the path.
    pub peer_addr: SocketAddress,
    /// The measured round-trip time, in nanoseconds.
    pub rtt: u128,
    /// Bytes sent on the path so far.
    pub sent_bytes: u64,
    /// Bytes received on the path so far.
    pub recv_bytes: u64,
    /// The congestion window, in bytes.
    pub cwnd: usize,
    /// Bytes sent and not yet acknowledged.
    pub bytes_in_flight: usize,
}

impl PathStats {
    /// The pair of addresses that names the path.
    pub open spec fn identity(self) -> PathIdentity {
        (self.local_addr, self.peer_addr)
    }

    /// The pair of addresses that names the path.
    pub fn path(&self) -> (id: PathIdentity)
        ensures
            id == self.identity(),
    {
        (self.local_addr, self.peer_addr)
    }
}

/// A strategy that picks the path of each datagram of a burst. `paths` is the
/// engine's list of paths, in the order in which the engine enumerates them.
pub trait Scheduler: Sized {
    /// The scheduler after `start` on `paths`.
    spec fn started(&self, paths: Seq<PathStats>) -> Self;

    /// The path that the next call of `next_path` on `paths` names.
    spec fn choice(&self, paths: Seq<PathStats>) -> Option<PathIdentity>;

    /// The scheduler after the next call of `next_path` on `paths`.
    spec fn advanced(&self, paths: Seq<PathStats>) -> Self;

    /// Prepares for a burst over `paths`.
    fn start(&mut self, paths: &[PathStats])
        ensures
            *final(self) == old(self).started(paths@),
    ;

    /// The path of the next datagram, or `None` to end the burst. A scheduler
    /// names only paths that the engine knows.
    fn next_path(&mut self, paths: &[PathStats]) -> (r: Option<PathIdentity>)
        ensures
            r == old(self).choice(paths@),
            *final(self) == old(self).advanced(paths@),
            r matches Some(id) ==> exists|i: int|
                0 <= i < paths@.len() && #[trigger] paths@[i].identity() == id,
    ;
}

/// Round robin: one datagram for each path in turn.
#[derive(Clone, Copy, Debug, PartialEq, Eq)]
pub struct RoundRobinScheduler {
    /// Index of the path that was named last.
    pub next: usize,
}

/// The cursor after one call: it moves on by one, and wraps to the first path
/// where that would take it behind the last.
pub open spec fn rr_advance(cursor: nat, count: nat) -> nat {
    if cursor + 1 >= count {
        0
    } else {
        cursor + 1
    }
}

/// The path under the cursor, if the cursor stands on one.
pub open spec fn rr_pick(paths: Seq<PathStats>, cursor: nat) -> Option<PathIdentity> {
    if cursor < paths.len() {
        Some(paths[cursor as int].identity())
    } else {
        None
    }
}

/// The cursor after `calls` calls of `next_path` that follow one `start`, all
/// on `count` paths.
pub open spec fn rr_cursor_after(count: nat, calls: nat) -> nat
    decreases calls,
{
    if calls == 0 {
        count
    } else {
        rr_advance(rr_cursor_after(count, (calls - 1) as nat), count)
    }
}

impl RoundRobinScheduler {
    /// A scheduler that has not started a burst yet.
    pub fn new() -> (s: RoundRobinScheduler)
        ensures
            s.next == 0,
    {
        RoundRobinScheduler { next: 0 }
    }
}

impl Scheduler for RoundRobinScheduler {
    open spec fn started(&self, paths: Seq<PathStats>) -> Self {
        RoundRobinScheduler { next: paths.len() as usize }
    }

    open spec fn choice(&self, paths: Seq<PathStats>) -> Option<PathIdentity> {
        rr_pick(paths, rr_advance(self.next as nat, paths.len()))
    }

    open spec fn advanced(&self, paths: Seq<PathStats>) -> Self {
        RoundRobinScheduler { next: rr_advance(self.next as nat, paths.len()) as usize }
    }

    /// Puts the cursor behind the last path, so that the first call wraps.
    fn start(&mut self, paths: &[PathStats])
        ensures
            final(self).next == paths@.len(),
    {
        self.next = paths.len();
    }

    /// Moves the cursor on, around the paths, and names the path under it.
    /// Names none only where there is no path.
    fn next_path(&mut self, paths: &[PathStats]) -> (r: Option<PathIdentity>)
        ensures
            final(self).next == rr_advance(old(self).next as nat, paths@.len()),
            r == rr_pick(paths@, final(self).next as nat),
            r is None <==> paths@.len() == 0,
    {
        self.next = if self.next >= paths.len() || self.next + 1 >= paths.len() {
            0
        } else {
            self.next + 1
        };
        if self.next < paths.len() {
            let id = paths[self.next].path();
            assert(paths@[self.next as int].identity() == id);
            Some(id)
        } else {
            None
        }
    }
}

/// After one `start` on `n` paths, call number `k + 1` of `next_path` names
/// path number `k`, for every `k < n`: `n` calls in a row name each path once,
/// in the engine's order.
pub proof fn lemma_round_robin_rotation(paths: Seq<PathStats>, k: nat)
    requires
        k < paths.len(),
    ensures
        rr_cursor_after(paths.len(), k + 1) == k,
        rr_pick(paths, rr_cursor_after(paths.len(), k + 1)) == Some(paths[k as int].identity()),
    decreases k,
{
    if k == 0 {
        assert(rr_cursor_after(paths.len(), 0) == paths.len());
        assert(rr_cursor_after(paths.len(), 1) == rr_advance(
            rr_cursor_after(paths.len(), 0),
            paths.len(),
        ));
    } else {
        lemma_round_robin_rotation(paths, (k - 1) as nat);
        assert(rr_cursor_after(paths.len(), k + 1) == rr_advance(
            rr_cursor_after(paths.len(), k),
            paths.len(),
        ));
    }
}

/// One step around `n` places: the place after `x mod n` is `(x + 1) mod n`.
pub proof fn lemma_next_place(x: nat, n: nat)
    requires
        n > 0,
    ensures
        0 <= (x as int) % (n as int) < n,
        rr_advance(((x as int) % (n as int)) as nat, n) == ((x + 1) as int) % (n as int),
{
    let xi = x as int;
    let d = n as int;
    let q = xi / d;
    let c = xi % d;
    vstd::arithmetic::div_mod::lemma_fundamental_div_mod(xi, d);
    vstd::arithmetic::div_mod::lemma_mod_bound(xi, d);
    if c + 1 < d {
        assert(xi + 1 == q * d + (c + 1)) by (nonlinear_arith)
            requires
                xi == d * q + c,
        ;
        vstd::arithmetic::div_mod::lemma_fundamental_div_mod_converse_mod(xi + 1, d, q, c + 1);
    } else {
        assert(xi + 1 == (q + 1) * d + 0) by (nonlinear_arith)
            requires
                xi == d * q + c,
                c + 1 == d,
        ;
        vstd::arithmetic::div_mod::lemma_fundamental_div_mod_converse_mod(xi + 1, d, q + 1, 0);
    }
}

/// After one `start` on `n` paths, call number `k` of `next_path` names path
/// number `(k - 1) mod n`: the calls go around the paths for as long as the
/// burst lasts, and the cursor never leaves them.
pub proof fn lemma_round_robin_wraps(paths: Seq<PathStats>, k: nat)
    requires
        paths.len() > 0,
        k >= 1,
    ensures
        rr_cursor_after(paths.len(), k) == (k - 1) % (paths.len() as int),
        rr_cursor_after(paths.len(), k) < paths.len(),
        rr_pick(paths, rr_cursor_after(paths.len(), k)) == Some(
            paths[(k - 1) % (paths.len() as int)].identity(),
        ),
    decreases k,
{
    let n = paths.len();
    assert(rr_cursor_after(n, k) == rr_advance(rr_cursor_after(n, (k - 1) as nat), n));
    if k == 1 {
        assert(rr_cursor_after(n, 0) == n);
        vstd::arithmetic::div_mod::lemma_small_mod(0, n);
    } else {
        lemma_round_robin_wraps(paths, (k - 1) as nat);
        lemma_next_place((k - 2) as nat, n);
    }
    vstd::arithmetic::div_mod::lemma_mod_bound(k - 1, n as int);
}

/// Lowest round-trip time first, after every path has been tried once.
#[derive(Clone, Copy, Debug, PartialEq, Eq)]
pub struct MinRttScheduler {}

/// Path `i` is the first on which nothing was sent yet.
pub open spec fn is_first_unsent(paths: Seq<PathStats>, i: int) -> bool {
    &&& 0 <= i < paths.len()
    &&& paths[i].sent_bytes == 0
    &&& forall|j: int| 0 <= j < i ==> (#[trigger] paths[j]).sent_bytes != 0
}

/// Something was sent on every path.
pub open spec fn all_sent(paths: Seq<PathStats>) -> bool {
    forall|j: int| 0 <= j < paths.len() ==> (#[trigger] paths[j]).sent_bytes != 0
}

/// Path `i` has the lowest round-trip time, and is the first that has it.
pub open spec fn is_first_min_rtt(paths: Seq<PathStats>, i: int) -> bool {
    &&& 0 <= i < paths.len()
    &&& forall|j: int| 0 <= j < paths.len() ==> paths[i].rtt <= (#[trigger] paths[j]).rtt
    &&& forall|j: int| 0 <= j < i ==> (#[trigger] paths[j]).rtt > paths[i].rtt
}

/// Path `i` is the one that lowest-round-trip-time scheduling names: the first
/// path on which nothing was sent, or, where there is none, the first of the
/// paths with the lowest round-trip time.
pub open spec fn min_rtt_choice(paths: Seq<PathStats>, i: int) -> bool {
    is_first_unsent(paths, i) || (all_sent(paths) && is_first_min_rtt(paths, i))
}

/// The path that lowest-round-trip-time scheduling names, if there is a path.
pub open spec fn min_rtt_pick(paths: Seq<PathStats>) -> Option<PathIdentity> {
    if paths.len() == 0 {
        None
    } else {
        Some(paths[choose|i: int| min_rtt_choice(paths, i)].identity())
    }
}

impl MinRttScheduler {
    /// The scheduler; it keeps no state.
    pub fn new() -> (s: MinRttScheduler)
        ensures
            s == (MinRttScheduler {  }),
    {
        MinRttScheduler {  }
    }

    /// The index of the path to use next; `None` only where there is no path.
    pub fn pick(paths: &[PathStats]) -> (r: Option<usize>)
        ensures
            match r {
                Some(i) => min_rtt_choice(paths@, i as int),
                None => paths@.len() == 0,
            },
    {
        let mut i: usize = 0;
        while i < paths.len()
            invariant
                i <= paths@.len(),
                forall|j: int| 0 <= j < i ==> (#[trigger] paths@[j]).sent_bytes != 0,
            decreases paths@.len() - i,
        {
            if paths[i].sent_bytes == 0 {
                return Some(i);
            }
            i += 1;
        }
        if paths.len() == 0 {
            return None;
        }
        let mut best: usize = 0;
        let mut k: usize = 1;
        while k < paths.len()
            invariant
                1 <= k <= paths@.len(),
                best < k,
                forall|j: int| 0 <= j < k ==> paths@[best as int].rtt <= (#[trigger] paths@[j]).rtt,
                forall|j: int| 0 <= j < best ==> (#[trigger] paths@[j]).rtt > paths@[best as int].rtt,
            decreases paths@.len() - k,
        {
            if paths[k].rtt < paths[best].rtt {
                best = k;
            }
            k += 1;
        }
        Some(best)
    }
}

impl Scheduler for MinRttScheduler {
    open spec fn started(&self, paths: Seq<PathStats>) -> Self {
        *self
    }

    open spec fn choice(&self, paths: Seq<PathStats>) -> Option<PathIdentity> {
        min_rtt_pick(paths)
    }

    open spec fn advanced(&self, paths: Seq<PathStats>) -> Self {
        *self
    }

    /// Nothing to prepare.
    fn start(&mut self, paths: &[PathStats])
        ensures
            *final(self) == *old(self),
    {
    }

    /// Names the first path on which nothing was sent yet; where there is
    /// none, the path with the lowest round-trip time, the first of them where
    /// several have it. Names none only where there is no path.
    fn next_path(&mut self, paths: &[PathStats]) -> (r: Option<PathIdentity>)
        ensures
            r == min_rtt_pick(paths@),
            match r {
                Some(id) => exists|i: int|
                    min_rtt_choice(paths@, i) && id == (#[trigger] paths@[i]).identity(),
                None => paths@.len() == 0,
            },
    {
        match MinRttScheduler::pick(paths) {
            Some(i) => {
                let id = paths[i].path();
                proof {
                    let chosen = choose|j: int| min_rtt_choice(paths@, j);
                    lemma_min_rtt_choice_unique(paths@, i as int, chosen);
                }
                assert(min_rtt_choice(paths@, i as int) && id == paths@[i as int].identity());
                Some(id)
            },
            None => None,
        }
    }
}

/// Lowest-round-trip-time scheduling names one path and no other.
pub proof fn lemma_min_rtt_choice_unique(paths: Seq<PathStats>, i: int, j: int)
    requires
        min_rtt_choice(paths, i),
        min_rtt_choice(paths, j),
    ensures
        i == j,
{
    if i < j {
        assert(paths[i].sent_bytes == paths[i].sent_bytes);
        assert(paths[i].rtt == paths[i].rtt);
    } else if j < i {
        assert(paths[j].sent_bytes == paths[j].sent_bytes);
        assert(paths[j].rtt == paths[j].rtt);
    }
}

/// While there is a path on which nothing was sent, the choice is such a path,
/// whatever the round-trip times; once something was sent on every path, the
/// choice has the lowest round-trip time of all.
pub proof fn lemma_min_rtt_bootstrap(paths: Seq<PathStats>, i: int)
    requires
        min_rtt_choice(paths, i),
    ensures
        !all_sent(paths) ==> paths[i].sent_bytes == 0,
        all_sent(paths) ==> forall|j: int|
            0 <= j < paths.len() ==> paths[i].rtt <= (#[trigger] paths[j]).rtt,
{
    if all_sent(paths) {
        assert(paths[i].sent_bytes != 0);
    }
}

/// The strategies that a server can be started with.
#[derive(Clone, Copy, Debug, PartialEq, Eq)]
pub enum SchedulerKind {
    RoundRobin(RoundRobinScheduler),
    MinRtt(MinRttScheduler),
}

impl Scheduler for SchedulerKind {
    open spec fn started(&self, paths: Seq<PathStats>) -> Self {
        match *self {
            SchedulerKind::RoundRobin(s) => SchedulerKind::RoundRobin(s.started(paths)),
            SchedulerKind::MinRtt(s) => SchedulerKind::MinRtt(s.started(paths)),
        }
    }

    open spec fn choice(&self, paths: Seq<PathStats>) -> Option<PathIdentity> {
        match *self {
            SchedulerKind::RoundRobin(s) => s.choice(paths),
            SchedulerKind::MinRtt(s) => s.choice(paths),
        }
    }

    open spec fn advanced(&self, paths: Seq<PathStats>) -> Self {
        match *self {
            SchedulerKind::RoundRobin(s) => SchedulerKind::RoundRobin(s.advanced(paths)),
            SchedulerKind::MinRtt(s) => SchedulerKind::MinRtt(s.advanced(paths)),
        }
    }

    /// Prepares the strategy for a burst.
    fn start(&mut self, paths: &[PathStats]) {
        match self {
            SchedulerKind::RoundRobin(s) => s.start(paths),
            SchedulerKind::MinRtt(s) => s.start(paths),
        }
    }

    /// Asks the strategy for the path of the next datagram.
    fn next_path(&mut self, paths: &[PathStats]) -> (r: Option<PathIdentity>) {
        match self {
            SchedulerKind::RoundRobin(s) => s.next_path(paths),
            SchedulerKind::MinRtt(s) => s.next_path(paths),
        }
    }
}

/// Tests two strings for equality.
pub fn same_text(a: &str, b: &str) -> (r: bool)
    ensures
        r == (a@ == b@),
{
    let x = a.as_bytes();
    let y = b.as_bytes();
    proof {
        vstd::utf8::encode_utf8_decode_utf8(a@);
        vstd::utf8::encode_utf8_decode_utf8(b@);
    }
    if x.len() != y.len() {
        return false;
    }
    let r = has_at(x, 0, y);
    assert(x@.subrange(0, x@.len() as int) == x@);
    r
}

/// The strategy that a configuration value selects: `rr` is round robin,
/// `minRtt` is lowest round-trip time, and any other value selects none.
pub fn scheduler_by_name(name: &str) -> (r: Option<SchedulerKind>)
    ensures
        r == if name@ == "rr"@ {
            Some(SchedulerKind::RoundRobin(RoundRobinScheduler { next: 0 }))
        } else if name@ == "minRtt"@ {
            Some(SchedulerKind::MinRtt(MinRttScheduler {  }))
        } else {
            None
        },
{
    if same_text(name, "rr") {
        Some(SchedulerKind::RoundRobin(RoundRobinScheduler::new()))
    } else if same_text(name, "minRtt") {
        Some(SchedulerKind::MinRtt(MinRttScheduler::new()))
    } else {
        None
    }
}

} // verus!
