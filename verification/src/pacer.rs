//! Loss-adaptive burst pacing.
//!
//! A session starts with a burst ceiling of one full UDP payload. Whenever the
//! loss rate has grown by more than a tenth of a percent over the rate at the
//! last cut, the ceiling is cut to three quarters, but not below ten
//! datagrams. Loss rates are kept as exact fractions.

use vstd::prelude::*;

verus! {

/// The burst ceiling of a new session: the largest UDP payload.
pub const MAX_BUF_SIZE: usize = 65507;

/// The datagram size that the server configures its engine with.
pub const MAX_DATAGRAM_SIZE: usize = 1350;

/// The number of datagrams below which a burst ceiling is never cut.
pub const MIN_BURST_DATAGRAMS: usize = 10;

/// A loss rate: the fraction `lost / sent`, and zero where nothing was sent.
#[derive(Clone, Copy, Debug, PartialEq, Eq)]
pub struct LossRate {
    /// Packets lost.
    pub lost: u64,
    /// Packets sent.
    pub sent: u64,
}

impl LossRate {
    /// The numerator of the rate.
    pub open spec fn num(self) -> int {
        if self.sent == 0 {
            0
        } else {
            self.lost as int
        }
    }

    /// The denominator of the rate; it is positive.
    pub open spec fn den(self) -> int {
        if self.sent == 0 {
            1
        } else {
            self.sent as int
        }
    }

    /// Whether this rate lies more than one in a thousand above `base`:
    /// `num/den > base.num/base.den + 1/1000`, with the denominators cleared.
    pub open spec fn exceeds(self, base: LossRate) -> bool {
        1000 * (self.num() * base.den()) > 1000 * (base.num() * self.den()) + self.den()
            * base.den()
    }

    /// The rate of a session on which nothing was lost.
    pub fn zero() -> (r: LossRate)
        ensures
            r == (LossRate { lost: 0, sent: 0 }),
    {
        LossRate { lost: 0, sent: 0 }
    }

    /// Whether this rate lies more than one in a thousand above `base`.
    pub fn regressed(&self, base: &LossRate) -> (r: bool)
        ensures
            r == self.exceeds(*base),
    {
        let num: u128 = if self.sent == 0 {
            0
        } else {
            self.lost as u128
        };
        let den: u128 = if self.sent == 0 {
            1
        } else {
            self.sent as u128
        };
        let base_num: u128 = if base.sent == 0 {
            0
        } else {
            base.lost as u128
        };
        let base_den: u128 = if base.sent == 0 {
            1
        } else {
            base.sent as u128
        };
        assert(num * base_den <= 0xffff_ffff_ffff_ffff * 0xffff_ffff_ffff_ffff) by (nonlinear_arith)
            requires
                num <= 0xffff_ffff_ffff_ffff,
                base_den <= 0xffff_ffff_ffff_ffff,
        ;
        assert(base_num * den <= 0xffff_ffff_ffff_ffff * 0xffff_ffff_ffff_ffff) by (nonlinear_arith)
            requires
                base_num <= 0xffff_ffff_ffff_ffff,
                den <= 0xffff_ffff_ffff_ffff,
        ;
        assert(den * base_den <= 0xffff_ffff_ffff_ffff * 0xffff_ffff_ffff_ffff) by (nonlinear_arith)
            requires
                den <= 0xffff_ffff_ffff_ffff,
                base_den <= 0xffff_ffff_ffff_ffff,
        ;
        let ours: u128 = num * base_den;
        let theirs: u128 = base_num * den;
        let unit: u128 = den * base_den;
        ours > theirs && ours - theirs > unit / 1000
    }
}

/// Three quarters of a ceiling, in whole bytes.
pub open spec fn three_quarters(ceiling: int) -> int {
    ceiling / 4 * 3
}

/// The ceiling after a cut: three quarters of it, but at least
/// `MIN_BURST_DATAGRAMS` datagrams.
pub open spec fn cut(ceiling: int, max_datagram_size: int) -> int {
    if three_quarters(ceiling) >= max_datagram_size * MIN_BURST_DATAGRAMS {
        three_quarters(ceiling)
    } else {
        max_datagram_size * MIN_BURST_DATAGRAMS
    }
}

/// The bytes that one write cycle may emit: the smaller of the engine's send
/// quantum and the ceiling, rounded down to whole datagrams.
pub open spec fn burst_quota(send_quantum: int, ceiling: int, max_datagram_size: int) -> int {
    let allowed = if send_quantum <= ceiling {
        send_quantum
    } else {
        ceiling
    };
    allowed / max_datagram_size * max_datagram_size
}

/// The pacing state of a session.
#[derive(Clone, Copy, Debug, PartialEq, Eq)]
pub struct Pacer {
    /// The loss rate at the last cut; zero before the first.
    pub baseline: LossRate,
    /// The burst ceiling, in bytes.
    pub ceiling: usize,
}

impl Pacer {
    /// The pacer after a write cycle that observed `observed`: cut, with the
    /// observed rate as new baseline, where the rate exceeds the baseline, and
    /// unchanged where it does not.
    pub open spec fn after(self, observed: LossRate, max_datagram_size: usize) -> Pacer {
        if observed.exceeds(self.baseline) {
            Pacer {
                baseline: observed,
                ceiling: cut(self.ceiling as int, max_datagram_size as int) as usize,
            }
        } else {
            self
        }
    }

    /// The pacer of a new session.
    pub fn new() -> (p: Pacer)
        ensures
            p == (Pacer { baseline: LossRate { lost: 0, sent: 0 }, ceiling: MAX_BUF_SIZE }),
    {
        Pacer { baseline: LossRate::zero(), ceiling: MAX_BUF_SIZE }
    }

    /// Takes note of the engine's counters of lost and sent packets at the
    /// start of a write cycle. Only where the ceiling is cut must the least
    /// ceiling, `MIN_BURST_DATAGRAMS` datagrams, fit the machine's word.
    pub fn observe(&mut self, lost: u64, sent: u64, max_datagram_size: usize)
        requires
            (LossRate { lost, sent }).exceeds(old(self).baseline) ==> max_datagram_size
                * MIN_BURST_DATAGRAMS <= usize::MAX,
        ensures
            *final(self) == old(self).after(LossRate { lost, sent }, max_datagram_size),
    {
        let observed = LossRate { lost, sent };
        if observed.regressed(&self.baseline) {
            let reduced: usize = self.ceiling / 4 * 3;
            let floor: usize = max_datagram_size * MIN_BURST_DATAGRAMS;
            self.ceiling = if reduced >= floor {
                reduced
            } else {
                floor
            };
            self.baseline = observed;
        }
    }

    /// The bytes that this write cycle may emit.
    pub fn quota(&self, send_quantum: usize, max_datagram_size: usize) -> (q: usize)
        requires
            max_datagram_size > 0,
        ensures
            q == burst_quota(send_quantum as int, self.ceiling as int, max_datagram_size as int),
    {
        let allowed: usize = if send_quantum <= self.ceiling {
            send_quantum
        } else {
            self.ceiling
        };
        let whole: usize = allowed / max_datagram_size;
        assert(whole * max_datagram_size <= allowed) by (nonlinear_arith)
            requires
                whole == allowed / max_datagram_size,
                max_datagram_size > 0,
        ;
        whole * max_datagram_size
    }
}

/// A quota exceeds neither the engine's send quantum nor the ceiling, is a
/// whole number of datagrams, and wastes less than one datagram.
pub proof fn lemma_quota_bounds(send_quantum: nat, ceiling: nat, max_datagram_size: nat)
    requires
        max_datagram_size > 0,
    ensures
        0 <= burst_quota(send_quantum as int, ceiling as int, max_datagram_size as int),
        burst_quota(send_quantum as int, ceiling as int, max_datagram_size as int) <= send_quantum,
        burst_quota(send_quantum as int, ceiling as int, max_datagram_size as int) <= ceiling,
        burst_quota(send_quantum as int, ceiling as int, max_datagram_size as int)
            % (max_datagram_size as int) == 0,
        send_quantum <= ceiling ==> send_quantum - burst_quota(
            send_quantum as int,
            ceiling as int,
            max_datagram_size as int,
        ) < max_datagram_size,
        ceiling <= send_quantum ==> ceiling - burst_quota(
            send_quantum as int,
            ceiling as int,
            max_datagram_size as int,
        ) < max_datagram_size,
{
    let allowed: int = if send_quantum <= ceiling {
        send_quantum as int
    } else {
        ceiling as int
    };
    let m = max_datagram_size as int;
    vstd::arithmetic::div_mod::lemma_fundamental_div_mod(allowed, m);
    vstd::arithmetic::div_mod::lemma_mod_bound(allowed, m);
    vstd::arithmetic::div_mod::lemma_div_pos_is_pos(allowed, m);
    vstd::arithmetic::div_mod::lemma_mod_multiples_basic(allowed / m, m);
    assert(allowed / m * m == m * (allowed / m)) by (nonlinear_arith);
    assert(0 <= (allowed / m) * m) by (nonlinear_arith)
        requires
            0 <= allowed / m,
            0 < m,
    ;
}

/// A loss rate that does not exceed the baseline leaves the pacer as it is.
pub proof fn lemma_steady_loss_keeps_ceiling(p: Pacer, observed: LossRate, max_datagram_size: usize)
    requires
        !observed.exceeds(p.baseline),
    ensures
        p.after(observed, max_datagram_size) == p,
{
}

/// A ceiling that holds at least `MIN_BURST_DATAGRAMS` datagrams never grows,
/// and never falls below that many datagrams.
pub proof fn lemma_ceiling_never_grows(p: Pacer, observed: LossRate, max_datagram_size: usize)
    requires
        max_datagram_size * MIN_BURST_DATAGRAMS <= p.ceiling,
    ensures
        p.after(observed, max_datagram_size).ceiling <= p.ceiling,
        p.after(observed, max_datagram_size).ceiling >= max_datagram_size * MIN_BURST_DATAGRAMS,
{
}

/// A rate exceeds a baseline exactly when the fractions differ by more than a
/// thousandth; no rate exceeds itself, and the rate of a session without
/// traffic exceeds none.
pub proof fn lemma_exceeds(rate: LossRate, base: LossRate)
    ensures
        !rate.exceeds(rate),
        rate.sent == 0 ==> !rate.exceeds(base),
        rate.exceeds(base) ==> !base.exceeds(rate),
{
    assert(rate.den() * rate.den() > 0) by (nonlinear_arith)
        requires
            rate.den() > 0,
    ;
    assert(rate.den() * base.den() > 0) by (nonlinear_arith)
        requires
            rate.den() > 0,
            base.den() > 0,
    ;
    assert(base.den() * rate.den() == rate.den() * base.den()) by (nonlinear_arith);
    assert(base.num() * rate.den() >= 0) by (nonlinear_arith)
        requires
            base.num() >= 0,
            rate.den() > 0,
    ;
    if rate.sent == 0 {
        assert(rate.num() * base.den() == 0) by (nonlinear_arith)
            requires
                rate.num() == 0,
        ;
    }
}

} // verus!
