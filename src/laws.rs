//! Properties of the relay that span several calls, stated over the views
//! that the calls' own contracts use.
use vstd::prelude::*;

use crate::message::{envelope, relayable};
use crate::reactor::peers;

verus! {

proof fn lemma_accept_prefix<C>(states: Seq<Map<usize, C>>, ids: Seq<usize>, conns: Seq<C>, k: int)
    requires
        states.len() == ids.len() + 1,
        conns.len() == ids.len(),
        states[0] == Map::<usize, C>::empty(),
        forall|i: int|
            0 <= i < ids.len() ==> !(#[trigger] states[i]).contains_key(ids[i]) && states[i + 1]
                == states[i].insert(ids[i], conns[i]),
        0 <= k <= ids.len(),
    ensures
        states[k].dom().finite(),
        states[k].len() == k,
        forall|i: int| 0 <= i < k ==> states[k].contains_key(#[trigger] ids[i]),
        forall|i: int, j: int| 0 <= i < j < k ==> ids[i] != ids[j],
    decreases k,
{
    if k == 0 {
        assert(states[0].dom() =~= Set::<usize>::empty());
    } else {
        lemma_accept_prefix(states, ids, conns, k - 1);
        let prev = states[k - 1];
        assert(!prev.contains_key(ids[k - 1]));
        assert(states[k] == prev.insert(ids[k - 1], conns[k - 1]));
        assert(states[k].dom() =~= prev.dom().insert(ids[k - 1]));
        assert forall|i: int, j: int| 0 <= i < j < k implies ids[i] != ids[j] by {
            if j == k - 1 {
                assert(prev.contains_key(ids[i]));
            }
        }
    }
}

/// Accepting N connections one after another into an empty relay, each under
/// the fresh identifier that `accept` returned, leaves exactly N live entries,
/// under N distinct identifiers.
pub proof fn law_accepts_counted<C>(states: Seq<Map<usize, C>>, ids: Seq<usize>, conns: Seq<C>)
    requires
        states.len() == ids.len() + 1,
        conns.len() == ids.len(),
        states[0] == Map::<usize, C>::empty(),
        forall|i: int|
            0 <= i < ids.len() ==> !(#[trigger] states[i]).contains_key(ids[i]) && states[i + 1]
                == states[i].insert(ids[i], conns[i]),
    ensures
        states.last().dom().finite(),
        states.last().len() == ids.len(),
        ids.no_duplicates(),
        forall|i: int| 0 <= i < ids.len() ==> states.last().contains_key(#[trigger] ids[i]),
{
    lemma_accept_prefix(states, ids, conns, ids.len() as int);
}

/// A broadcast whose targets are the sender's peers reaches every other live
/// connection exactly once (at exactly one position of the target list) and
/// never the sender.
pub proof fn law_each_peer_once<C>(
    conns: Map<usize, C>,
    sender: usize,
    targets: Seq<usize>,
    peer: usize,
)
    requires
        targets.no_duplicates(),
        targets.to_set() == peers(conns, sender),
    ensures
        !targets.contains(sender),
        conns.contains_key(peer) && peer != sender ==> exists|i: int|
            0 <= i < targets.len() && targets[i] == peer && forall|j: int|
                0 <= j < targets.len() && #[trigger] targets[j] == peer ==> j == i,
{
    assert(!targets.to_set().contains(sender));
    if conns.contains_key(peer) && peer != sender {
        assert(targets.to_set().contains(peer));
        let i = choose|i: int| 0 <= i < targets.len() && targets[i] == peer;
        assert forall|j: int| 0 <= j < targets.len() && #[trigger] targets[j] == peer implies j == i by {
            if j != i {
                assert(targets[j] == targets[i]);
            }
        }
    }
}

/// Disconnecting `a` removes exactly its entry: every other connection stays
/// as it was, and between any two of them messages still go both ways.
pub proof fn law_disconnect_isolated<C>(
    before: Map<usize, C>,
    after: Map<usize, C>,
    a: usize,
    b: usize,
    c: usize,
)
    requires
        after == before.remove(a),
        before.contains_key(b),
        before.contains_key(c),
        b != a,
        c != a,
        b != c,
    ensures
        !after.contains_key(a),
        after.dom() == before.dom().remove(a),
        after.contains_key(b) && after[b] == before[b],
        after.contains_key(c) && after[c] == before[c],
        peers(after, b).contains(c),
        peers(after, c).contains(b),
{
    assert(after.dom() =~= before.dom().remove(a));
}

/// The targets of a broadcast are fixed before any write. Where the write to
/// one target fails and that target is disconnected, every other peer of the
/// sender was still a target and stays connected as it was, and the failed one
/// is gone.
pub proof fn law_failed_write_isolated<C>(
    conns: Map<usize, C>,
    sender: usize,
    targets: Seq<usize>,
    failed: usize,
    after: Map<usize, C>,
)
    requires
        targets.to_set() == peers(conns, sender),
        after == conns.remove(failed),
    ensures
        !after.contains_key(failed),
        forall|c: usize|
            conns.contains_key(c) && c != sender && c != failed ==> {
                &&& targets.contains(c)
                &&& after.contains_key(c)
                &&& after[c] == conns[c]
            },
{
    assert forall|c: usize|
        conns.contains_key(c) && c != sender && c != failed implies {
            &&& targets.contains(c)
            &&& after.contains_key(c)
            &&& after[c] == conns[c]
        } by {
        assert(targets.to_set().contains(c));
    }
}

/// In anonymous mode every message is relayed, and a peer receives exactly the
/// bytes that the sender sent: nothing added, lost or repeated.
pub proof fn law_anonymous_verbatim(addr: Seq<char>, data: Seq<u8>)
    ensures
        relayable(data, true),
        envelope(addr, data, true) == data,
{
}

} // verus!
