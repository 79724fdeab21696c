//! The bridge's pool of RTP/RTCP port pairs.
//!
//! The configured port range is cut into pairs `(even, even + 1)`, counted
//! from the start of the range. A pair is drawn at random from those that
//! are neither in use by the bridge nor known to be taken by another
//! process; it is in use from the moment its sockets are bound until either
//! of its ports is cleared.
use crate::outside::choose_random;
use crate::settings::RtpPortRange;
use std::collections::BTreeSet;
use vstd::prelude::*;

verus! {

broadcast use {vstd::std_specs::btree::group_btree_axioms, vstd::laws_cmp::group_laws_cmp};

/// The number of pairs in a range: half its width, rounded up.
pub open spec fn spec_port_pairs(start: u16, end: u16) -> int {
    (end - start + 1) / 2
}

/// The RTP port of a pair; its RTCP port is the one after it.
pub open spec fn rtp_port_of(start: u16, pair: u16) -> int {
    start + 2 * pair
}

/// The pair a port of the range belongs to.
pub open spec fn pair_of_port(start: u16, port: u16) -> int {
    (port - start) / 2
}

/// The pairs that may be drawn: in the range, not in use, not failed.
pub open spec fn drawable(pairs: u16, used: Set<u16>, failed: Seq<u16>, p: u16) -> bool {
    p < pairs && !used.contains(p) && !failed.contains(p)
}

pub struct PortPool {
    /// Start of the port range
    pub port_start: u16,
    /// The number of port pairs
    pub port_pairs: u16,
    /// The pairs known to be used by the bridge
    pub used_pairs: BTreeSet<u16>,
}

impl PortPool {
    /// Every pair lies within the range and in use pairs are pairs of it.
    pub open spec fn wf(&self) -> bool {
        &&& self.port_start + 2 * self.port_pairs <= 0x1_0000
        &&& forall|p: u16| #[trigger] self.used_pairs@.contains(p) ==> p < self.port_pairs
    }

    /// A pool over the configured range, with no pair in use.
    pub fn init(range: &RtpPortRange) -> (r: Self)
        requires
            range.start <= range.end,
        ensures
            r.wf(),
            r.port_start == range.start,
            r.port_pairs == spec_port_pairs(range.start, range.end),
            r.used_pairs@ == Set::<u16>::empty(),
    {
        let width: u16 = range.end - range.start;
        let port_pairs: u16 = width / 2 + width % 2;
        assert(port_pairs == spec_port_pairs(range.start, range.end));
        PortPool { port_start: range.start, port_pairs, used_pairs: BTreeSet::new() }
    }

    /// Draws a random pair that is neither in use nor among `failed`;
    /// `None` when there is none.
    pub fn draw_pair(&self, failed: &Vec<u16>) -> (r: Option<u16>)
        ensures
            r is None <==> (forall|p: u16| !drawable(self.port_pairs, self.used_pairs@, failed@, p)),
            r matches Some(p) ==> drawable(self.port_pairs, self.used_pairs@, failed@, p),
    {
        let mut candidates: Vec<u16> = Vec::new();
        let mut p: u16 = 0;
        while p < self.port_pairs
            invariant
                p <= self.port_pairs,
                forall|q: u16| candidates@.contains(q) <==> (q < p && drawable(self.port_pairs, self.used_pairs@, failed@, q)),
            decreases self.port_pairs - p,
        {
            let in_failed = contains_u16(failed, p);
            let ghost before = candidates@;
            let take = !self.used_pairs.contains(&p) && !in_failed;
            if take {
                candidates.push(p);
            }
            proof {
                assert(take == drawable(self.port_pairs, self.used_pairs@, failed@, p));
                assert forall|q: u16| candidates@.contains(q) <==> (q < p + 1 && drawable(
                    self.port_pairs,
                    self.used_pairs@,
                    failed@,
                    q,
                )) by {
                    if candidates@.contains(q) {
                        let i = choose|i: int| 0 <= i < candidates@.len() && candidates@[i] == q;
                        if i < before.len() {
                            assert(before[i] == q);
                            assert(before.contains(q));
                        }
                    }
                    if q < p + 1 && drawable(self.port_pairs, self.used_pairs@, failed@, q) {
                        if q < p {
                            assert(before.contains(q));
                            let i = choose|i: int| 0 <= i < before.len() && before[i] == q;
                            assert(candidates@[i] == q);
                        } else {
                            assert(candidates@[candidates@.len() - 1] == q);
                        }
                    }
                }
            }
            p = p + 1;
        }
        let ghost c = candidates@;
        let r = choose_random(candidates);
        proof {
            if c.len() > 0 {
                assert(c.contains(c[0]));
            } else {
                assert forall|q: u16| !drawable(self.port_pairs, self.used_pairs@, failed@, q) by {
                    if drawable(self.port_pairs, self.used_pairs@, failed@, q) {
                        assert(c.contains(q));
                    }
                }
            }
        }
        r
    }

    /// The RTP and RTCP ports of a pair of the range.
    pub fn pair_ports(&self, pair: u16) -> (r: (u16, u16))
        requires
            self.wf(),
            pair < self.port_pairs,
        ensures
            r.0 == rtp_port_of(self.port_start, pair),
            r.1 == r.0 + 1,
    {
        let rtp: u16 = self.port_start + pair * 2;
        (rtp, rtp + 1)
    }

    /// Takes a pair into use once its sockets are bound.
    pub fn mark_used(&mut self, pair: u16)
        requires
            old(self).wf(),
            pair < old(self).port_pairs,
        ensures
            final(self).wf(),
            final(self).used_pairs@ == old(self).used_pairs@.insert(pair),
            final(self).port_start == old(self).port_start,
            final(self).port_pairs == old(self).port_pairs,
    {
        self.used_pairs.insert(pair);
    }

    /// Gives the pair of a port back to the pool; tells whether it was in
    /// use.
    pub fn clear_port(&mut self, port: u16) -> (r: bool)
        requires
            old(self).wf(),
            port >= old(self).port_start,
        ensures
            final(self).wf(),
            r == old(self).used_pairs@.contains(pair_of_port(old(self).port_start, port) as u16),
            final(self).used_pairs@ == old(self).used_pairs@.remove(pair_of_port(old(self).port_start, port) as u16),
            final(self).port_start == old(self).port_start,
            final(self).port_pairs == old(self).port_pairs,
    {
        let pair: u16 = (port - self.port_start) / 2;
        self.used_pairs.remove(&pair)
    }
}

fn contains_u16(v: &Vec<u16>, x: u16) -> (r: bool)
    ensures
        r == v@.contains(x),
{
    let mut i: usize = 0;
    while i < v.len()
        invariant
            i <= v@.len(),
            forall|j: int| 0 <= j < i ==> v@[j] != x,
        decreases v@.len() - i,
    {
        if v[i] == x {
            assert(v@[i as int] == x);
            return true;
        }
        i = i + 1;
    }
    false
}

/// Both ports of a pair lead back to it, so clearing either frees the pair.
pub proof fn lemma_ports_lead_back(start: u16, pair: u16)
    requires
        start + 2 * pair + 1 <= 0xffff,
    ensures
        pair_of_port(start, rtp_port_of(start, pair) as u16) == pair,
        pair_of_port(start, (rtp_port_of(start, pair) + 1) as u16) == pair,
{
}

/// A pair drawn, taken into use and cleared again by one of its ports
/// leaves the pool's pairs in use as they were.
pub proof fn lemma_use_then_clear_restores(used: Set<u16>, start: u16, pair: u16, port: u16)
    requires
        !used.contains(pair),
        start + 2 * pair + 1 <= 0xffff,
        port == rtp_port_of(start, pair) || port == rtp_port_of(start, pair) + 1,
    ensures
        used.insert(pair).remove(pair_of_port(start, port) as u16) == used,
{
    lemma_ports_lead_back(start, pair);
    assert(used.insert(pair).remove(pair) =~= used);
}

} // verus!
