//! Tallies: the counts of the shards tell how many clients each of them holds.

use crate::channel::ClientSender;
use crate::clients::{shard_of, SHARD_COUNT};
use vstd::prelude::*;
use vstd::set_lib::{
    full_set_properties, lemma_len_subset, lemma_set_disjoint_lens, range_set_properties,
    FiniteRange,
};

verus! {

/// The registered clients that belong to one shard.
pub open spec fn clients_in_shard(clients: Map<usize, ClientSender>, s: int) -> Set<usize> {
    clients.dom().filter(|id: usize| shard_of(id) == s)
}

/// Every count is the number of clients in its shard.
pub open spec fn counts_exact(clients: Map<usize, ClientSender>, counts: Seq<usize>) -> bool {
    &&& counts.len() == SHARD_COUNT
    &&& forall|s: int|
        0 <= s < SHARD_COUNT ==> #[trigger] counts[s] == clients_in_shard(clients, s).len()
}

/// Ids are machine integers: there is only a finite number of them.
pub proof fn lemma_ids_finite(ids: Set<usize>)
    ensures
        ids.finite(),
        ids.len() <= usize::MAX + 1,
{
    broadcast use {full_set_properties, range_set_properties};

    let all = Set::<usize>::full();
    assert(all =~= usize::range_set(0, usize::MAX).insert(usize::MAX));
    assert(all.finite());
    lemma_len_subset(ids, all);
}

/// A store without clients is tallied by counts of zero.
pub proof fn law_empty_store_is_tallied()
    ensures
        counts_exact(
            Map::<usize, ClientSender>::empty(),
            Seq::new(SHARD_COUNT as nat, |s: int| 0usize),
        ),
{
    assert forall|s: int| 0 <= s < SHARD_COUNT implies clients_in_shard(
        Map::<usize, ClientSender>::empty(),
        s,
    ).len() == 0 by {
        assert(clients_in_shard(Map::<usize, ClientSender>::empty(), s) =~= Set::empty());
    }
}

/// A client that is registered under a new id keeps the counts exact.
pub proof fn law_insert_keeps_tally(
    clients: Map<usize, ClientSender>,
    counts: Seq<usize>,
    id: usize,
    sender: ClientSender,
)
    requires
        counts_exact(clients, counts),
        !clients.contains_key(id),
    ensures
        counts_exact(
            clients.insert(id, sender),
            counts.update(shard_of(id), counts[shard_of(id)].wrapping_add(1)),
        ),
{
    let home = shard_of(id);
    let inside = clients_in_shard(clients, home);
    let elsewhere: usize = if id == 0 {
        1
    } else {
        (id - 1) as usize
    };
    assert(shard_of(elsewhere) != home);
    lemma_ids_finite(inside);
    lemma_ids_finite(inside.insert(id).insert(elsewhere));
    assert(inside.len() < usize::MAX);
    assert forall|s: int| 0 <= s < SHARD_COUNT implies clients_in_shard(
        clients.insert(id, sender),
        s,
    ).len() == #[trigger] counts.update(home, counts[home].wrapping_add(1))[s] by {
        if s == home {
            assert(clients_in_shard(clients.insert(id, sender), s) =~= inside.insert(id));
        } else {
            assert(clients_in_shard(clients.insert(id, sender), s) =~= clients_in_shard(
                clients,
                s,
            ));
            assert(counts[s] == clients_in_shard(clients, s).len());
        }
    }
}

/// A client that leaves keeps the counts exact.
pub proof fn law_remove_keeps_tally(
    clients: Map<usize, ClientSender>,
    counts: Seq<usize>,
    id: usize,
)
    requires
        counts_exact(clients, counts),
        clients.contains_key(id),
    ensures
        counts_exact(
            clients.remove(id),
            counts.update(shard_of(id), counts[shard_of(id)].wrapping_sub(1)),
        ),
{
    let home = shard_of(id);
    let inside = clients_in_shard(clients, home);
    lemma_ids_finite(inside);
    assert(inside.contains(id));
    assert forall|s: int| 0 <= s < SHARD_COUNT implies clients_in_shard(
        clients.remove(id),
        s,
    ).len() == #[trigger] counts.update(home, counts[home].wrapping_sub(1))[s] by {
        if s == home {
            assert(clients_in_shard(clients.remove(id), s) =~= inside.remove(id));
        } else {
            assert(clients_in_shard(clients.remove(id), s) =~= clients_in_shard(clients, s));
            assert(counts[s] == clients_in_shard(clients, s).len());
        }
    }
}

/// The sum of counts.
pub open spec fn total(counts: Seq<usize>) -> nat
    decreases counts.len(),
{
    if counts.len() == 0 {
        0
    } else {
        total(counts.drop_last()) + counts.last() as nat
    }
}

proof fn lemma_total_below(clients: Map<usize, ClientSender>, counts: Seq<usize>, n: int)
    requires
        counts_exact(clients, counts),
        0 <= n <= SHARD_COUNT,
    ensures
        clients.dom().filter(|id: usize| shard_of(id) < n).len() == total(counts.take(n)),
    decreases n,
{
    let below = clients.dom().filter(|id: usize| shard_of(id) < n);
    if n == 0 {
        assert(below =~= Set::empty());
    } else {
        lemma_total_below(clients, counts, n - 1);
        let earlier = clients.dom().filter(|id: usize| shard_of(id) < n - 1);
        let last = clients_in_shard(clients, n - 1);
        lemma_ids_finite(earlier);
        lemma_ids_finite(last);
        assert(below =~= earlier + last);
        assert(earlier.disjoint(last));
        lemma_set_disjoint_lens(earlier, last);
        assert(counts.take(n).drop_last() =~= counts.take(n - 1));
        assert(counts[n - 1] == last.len());
    }
}

/// Exact counts add up to the number of clients.
pub proof fn law_counts_add_up(clients: Map<usize, ClientSender>, counts: Seq<usize>)
    requires
        counts_exact(clients, counts),
    ensures
        total(counts) == clients.dom().len(),
{
    lemma_total_below(clients, counts, SHARD_COUNT as int);
    assert(clients.dom().filter(|id: usize| shard_of(id) < SHARD_COUNT as int) =~= clients.dom());
    assert(counts.take(SHARD_COUNT as int) =~= counts);
}

} // verus!
