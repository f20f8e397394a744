//! What holds of the batch operations taken together.

use crate::address::Address;
use crate::batch::{
    cache_hits, cache_misses, fetched_entries, lemma_cache_misses, lemma_fetched_entries_dom,
    lemma_no_misses,
};
use vstd::prelude::*;

verus! {

/// The result of a batch fetch has an entry exactly for the requested
/// addresses that the cache held or that the reply gave a value for.
pub proof fn lemma_fetch_result_keys<M>(
    cache: Map<Address, M>,
    addresses: Seq<Address>,
    slots: Seq<Option<M>>,
)
    requires
        slots.len() == cache_misses(cache, addresses).len(),
    ensures
        ({
            let request = cache_misses(cache, addresses);
            let found = cache_hits(cache, addresses).union_prefer_right(
                fetched_entries(request, slots),
            );
            forall|address: Address| #[trigger]
                found.contains_key(address) <==> addresses.contains(address) && (
                cache.contains_key(address) || exists|i: int|
                    0 <= i < request.len() && request[i] == address && slots[i] is Some)
        }),
{
    let request = cache_misses(cache, addresses);
    let fetched = fetched_entries(request, slots);
    let found = cache_hits(cache, addresses).union_prefer_right(fetched);
    lemma_cache_misses(cache, addresses);
    lemma_fetched_entries_dom(request, slots);
    assert forall|address: Address| #[trigger]
        found.contains_key(address) <==> addresses.contains(address) && (cache.contains_key(address)
            || exists|i: int| 0 <= i < request.len() && request[i] == address && slots[i] is Some) by {
        if fetched.contains_key(address) {
            let i = choose|i: int|
                0 <= i < request.len() && request[i] == address && slots[i] is Some;
            assert(request.contains(address));
        }
    }
}

/// After a batch fetch in which every fetched address got a value, the same
/// request is answered from the cache alone, and with the same values.
pub proof fn lemma_refetch_from_cache<M>(
    cache: Map<Address, M>,
    addresses: Seq<Address>,
    slots: Seq<Option<M>>,
)
    requires
        slots.len() == cache_misses(cache, addresses).len(),
        forall|i: int| 0 <= i < slots.len() ==> (#[trigger] slots[i]) is Some,
    ensures
        ({
            let fetched = fetched_entries(cache_misses(cache, addresses), slots);
            let found = cache_hits(cache, addresses).union_prefer_right(fetched);
            let cache_after = cache.union_prefer_right(fetched);
            &&& cache_misses(cache_after, addresses).len() == 0
            &&& cache_hits(cache_after, addresses) == found
        }),
{
    let request = cache_misses(cache, addresses);
    let fetched = fetched_entries(request, slots);
    let found = cache_hits(cache, addresses).union_prefer_right(fetched);
    let cache_after = cache.union_prefer_right(fetched);
    lemma_cache_misses(cache, addresses);
    lemma_fetched_entries_dom(request, slots);
    assert forall|i: int| 0 <= i < addresses.len() implies cache_after.contains_key(
        #[trigger] addresses[i],
    ) by {
        let address = addresses[i];
        assert(addresses.contains(address));
        if !cache.contains_key(address) {
            assert(request.contains(address));
            let j = choose|j: int| 0 <= j < request.len() && request[j] == address;
            assert(slots[j] is Some);
            assert(fetched.contains_key(address));
        }
    }
    lemma_no_misses(cache_after, addresses);
    assert forall|address: Address| fetched.contains_key(address) implies addresses.to_set().contains(
        address,
    ) by {
        let j = choose|j: int| 0 <= j < request.len() && request[j] == address && slots[j] is Some;
        assert(request.contains(address));
    }
    assert(cache_hits(cache_after, addresses) =~= found);
}

/// The reply of a node that holds the given values: at each position the
/// value of the requested address, if the node holds one.
pub open spec fn node_reply<M>(node: Map<Address, M>, request: Seq<Address>) -> Seq<Option<M>> {
    Seq::new(
        request.len(),
        |i: int|
            if node.contains_key(request[i]) {
                Some(node[request[i]])
            } else {
                None
            },
    )
}

/// While the node holds the same values, a second batch fetch of the same
/// addresses gives the same result as the first.
pub proof fn lemma_refetch_same_result<M>(
    cache: Map<Address, M>,
    node: Map<Address, M>,
    addresses: Seq<Address>,
)
    ensures
        ({
            let request = cache_misses(cache, addresses);
            let fetched = fetched_entries(request, node_reply(node, request));
            let found = cache_hits(cache, addresses).union_prefer_right(fetched);
            let cache_after = cache.union_prefer_right(fetched);
            let request_again = cache_misses(cache_after, addresses);
            let fetched_again = fetched_entries(request_again, node_reply(node, request_again));
            cache_hits(cache_after, addresses).union_prefer_right(fetched_again) == found
        }),
{
    let request = cache_misses(cache, addresses);
    let slots = node_reply(node, request);
    let fetched = fetched_entries(request, slots);
    let found = cache_hits(cache, addresses).union_prefer_right(fetched);
    let cache_after = cache.union_prefer_right(fetched);
    let request_again = cache_misses(cache_after, addresses);
    let slots_again = node_reply(node, request_again);
    let fetched_again = fetched_entries(request_again, slots_again);
    lemma_cache_misses(cache, addresses);
    lemma_cache_misses(cache_after, addresses);
    lemma_fetched_entries_dom(request, slots);
    lemma_fetched_entries_dom(request_again, slots_again);
    assert forall|address: Address| !fetched_again.contains_key(address) by {
        if fetched_again.contains_key(address) {
            let i = choose|i: int|
                0 <= i < request_again.len() && i < slots_again.len() && request_again[i]
                    == address && slots_again[i] is Some;
            assert(request_again.contains(address));
            assert(node.contains_key(address));
            assert(request.contains(address));
            let j = choose|j: int| 0 <= j < request.len() && request[j] == address;
            assert(slots[j] is Some);
            assert(fetched.contains_key(address));
        }
    }
    assert forall|address: Address| fetched.contains_key(address) implies addresses.to_set().contains(
        address,
    ) by {
        let j = choose|j: int|
            0 <= j < request.len() && j < slots.len() && request[j] == address && slots[j] is Some;
        assert(request.contains(address));
    }
    assert(cache_hits(cache_after, addresses).union_prefer_right(fetched_again) =~= found);
}

} // verus!
