//! Aggregation of transaction ids into an aggregate proof structure.

use vstd::prelude::*;

use crate::pcd_types::VerifyingKey;
use crate::types::AggregateProof;

verus! {

/// Collects the exact, ordered transaction id list of one aggregate.
pub struct Aggregator {
    txids: Vec<[u8; 32]>,
}

impl View for Aggregator {
    type V = Seq<[u8; 32]>;

    closed spec fn view(&self) -> Seq<[u8; 32]> {
        self.txids@
    }
}

impl Aggregator {
    /// An empty aggregator.
    pub fn new() -> (r: Aggregator)
        ensures
            r@.len() == 0,
    {
        Aggregator { txids: Vec::new() }
    }

    /// Append one transaction id; order is preserved.
    pub fn add_txid(&mut self, txid: [u8; 32])
        requires
            old(self)@.len() < usize::MAX,
        ensures
            final(self)@ == old(self)@.push(txid),
    {
        self.txids.push(txid);
    }

    /// Build the aggregate over the collected ids.  The proof bytes stay
    /// empty; a proving backend fills them in.
    pub fn build(self, vk: &VerifyingKey) -> (r: AggregateProof)
        ensures
            r.txids@ == self@,
            r.proof@.len() == 0,
    {
        let _ = vk;
        AggregateProof { txids: self.txids, proof: Vec::new() }
    }
}

/// Single-shot aggregation of an id list.
pub fn aggregate_txids(vk: &VerifyingKey, txids: Vec<[u8; 32]>) -> (r: AggregateProof)
    requires
        txids@.len() < usize::MAX,
    ensures
        r.txids@ == txids@,
        r.proof@.len() == 0,
{
    let ghost ids = txids@;
    let mut agg = Aggregator::new();
    let n = txids.len();
    let mut i: usize = 0;
    while i < n
        invariant
            i <= n,
            n == txids@.len() < usize::MAX,
            txids@ == ids,
            agg@ == ids.take(i as int),
        decreases n - i,
    {
        agg.add_txid(txids[i]);
        proof {
            assert(ids.take(i as int).push(ids[i as int]) =~= ids.take(i + 1 as int));
        }
        i += 1;
    }
    proof {
        assert(ids.take(n as int) =~= ids);
    }
    agg.build(vk)
}

} // verus!
