//! Batch operations over a cache and a connection pool.
//!
//! A batch operation runs in two steps around one network call. The first
//! step consults the cache and says whether a call is needed and for which
//! addresses; the second takes the reply and gives the result. The call
//! itself is the caller's part.
//!
//! A fetched address that is absent on-chain and one whose data does not
//! decode are treated alike: neither appears in the result nor in the cache.

use crate::address::Address;
use crate::address_map::AddressMap;
use crate::cache::AccountCache;
use crate::decode::{option_view, Decoded};
use crate::pool::ConnectionPool;
use std::sync::Arc;
use vstd::prelude::*;

verus! {

/// The cached values of the requested addresses.
pub open spec fn cache_hits<M>(cache: Map<Address, M>, addresses: Seq<Address>) -> Map<
    Address,
    M,
> {
    cache.restrict(addresses.to_set())
}

/// The requested addresses that the cache has no value for: each once, in
/// the order in which they first occur in the request.
pub open spec fn cache_misses<M>(cache: Map<Address, M>, addresses: Seq<Address>) -> Seq<Address>
    decreases addresses.len(),
{
    if addresses.len() == 0 {
        Seq::empty()
    } else {
        let before = cache_misses(cache, addresses.drop_last());
        let address = addresses.last();
        if cache.contains_key(address) || before.contains(address) {
            before
        } else {
            before.push(address)
        }
    }
}

/// The view of each slot of a reply.
pub open spec fn slot_views<T: View>(slots: Seq<Option<T>>) -> Seq<Option<T::V>> {
    Seq::new(slots.len(), |i: int| option_view(slots[i]))
}

/// What each slot of a reply decodes to: nothing where the slot is empty or
/// its data does not decode.
pub open spec fn decoded_slots<V: Decoded>(raw: Seq<Option<Seq<u8>>>, scope: V::Scope) -> Seq<
    Option<V::V>,
> {
    Seq::new(
        raw.len(),
        |i: int|
            match raw[i] {
                Some(data) => V::decoded(data, scope),
                None => None,
            },
    )
}

/// The entries that a reply gives: the address at each position of the
/// request with the value at the same position of the reply, where there is
/// one. Where an address occurs twice, the later value stands.
pub open spec fn fetched_entries<M>(request: Seq<Address>, slots: Seq<Option<M>>) -> Map<
    Address,
    M,
>
    decreases request.len(),
{
    if request.len() == 0 {
        Map::empty()
    } else {
        let before = fetched_entries(request.drop_last(), slots);
        let last = request.len() - 1;
        if last < slots.len() && slots[last] is Some {
            before.insert(request[last], slots[last]->0)
        } else {
            before
        }
    }
}

/// Whether each slot of a reply holds an account.
pub open spec fn present_slots(reply: Seq<Option<Vec<u8>>>) -> Seq<bool> {
    Seq::new(reply.len(), |i: int| reply[i] is Some)
}

/// The existence map that a reply gives: each address of the request with
/// the flag at its position. Where an address occurs twice, the later flag
/// stands.
pub open spec fn presence(request: Seq<Address>, present: Seq<bool>) -> Map<Address, bool>
    decreases request.len(),
{
    if request.len() == 0 {
        Map::empty()
    } else {
        let before = presence(request.drop_last(), present);
        let last = request.len() - 1;
        if last < present.len() {
            before.insert(request[last], present[last])
        } else {
            before
        }
    }
}

/// The misses of a request are requested, not cached, and listed once each.
pub proof fn lemma_cache_misses<M>(cache: Map<Address, M>, addresses: Seq<Address>)
    ensures
        cache_misses(cache, addresses).no_duplicates(),
        forall|address: Address| #[trigger]
            cache_misses(cache, addresses).contains(address) <==> addresses.contains(address)
                && !cache.contains_key(address),
    decreases addresses.len(),
{
    if addresses.len() > 0 {
        let shorter = addresses.drop_last();
        let before = cache_misses(cache, shorter);
        let last = addresses.last();
        let misses = cache_misses(cache, addresses);
        lemma_cache_misses(cache, shorter);
        assert forall|address: Address| #[trigger]
            misses.contains(address) <==> addresses.contains(address) && !cache.contains_key(
                address,
            ) by {
            if addresses.contains(address) {
                let i = choose|i: int| 0 <= i < addresses.len() && addresses[i] == address;
                if i < shorter.len() {
                    assert(shorter[i] == address);
                }
            }
            if shorter.contains(address) {
                let i = choose|i: int| 0 <= i < shorter.len() && shorter[i] == address;
                assert(addresses[i] == address);
            }
            assert(addresses[addresses.len() - 1] == last);
            if misses.contains(address) {
                let i = choose|i: int| 0 <= i < misses.len() && misses[i] == address;
                if i < before.len() {
                    assert(before[i] == address);
                }
            }
            if before.contains(address) {
                let i = choose|i: int| 0 <= i < before.len() && before[i] == address;
                assert(misses[i] == address);
            }
            if !(cache.contains_key(last) || before.contains(last)) {
                assert(misses[before.len() as int] == last);
            }
        }
    }
}

/// No address is missed exactly when every requested address is cached.
pub proof fn lemma_no_misses<M>(cache: Map<Address, M>, addresses: Seq<Address>)
    ensures
        cache_misses(cache, addresses).len() == 0 <==> forall|i: int|
            0 <= i < addresses.len() ==> cache.contains_key(#[trigger] addresses[i]),
{
    let misses = cache_misses(cache, addresses);
    lemma_cache_misses(cache, addresses);
    if misses.len() > 0 {
        assert(misses.contains(misses[0]));
        assert(addresses.contains(misses[0]));
    }
    if exists|i: int| 0 <= i < addresses.len() && !cache.contains_key(#[trigger] addresses[i]) {
        let i = choose|i: int|
            0 <= i < addresses.len() && !cache.contains_key(#[trigger] addresses[i]);
        assert(addresses.contains(addresses[i]));
        assert(misses.contains(addresses[i]));
    }
}

/// A reply gives an entry exactly for the requested addresses that have a
/// value at one of their positions.
pub proof fn lemma_fetched_entries_dom<M>(request: Seq<Address>, slots: Seq<Option<M>>)
    ensures
        forall|address: Address| #[trigger]
            fetched_entries(request, slots).contains_key(address) <==> exists|i: int|
                0 <= i < request.len() && i < slots.len() && request[i] == address
                    && slots[i] is Some,
    decreases request.len(),
{
    if request.len() > 0 {
        let shorter = request.drop_last();
        lemma_fetched_entries_dom(shorter, slots);
        let last = request.len() - 1;
        assert forall|address: Address| #[trigger]
            fetched_entries(request, slots).contains_key(address) <==> exists|i: int|
                0 <= i < request.len() && i < slots.len() && request[i] == address
                    && slots[i] is Some by {
            if fetched_entries(shorter, slots).contains_key(address) {
                let i = choose|i: int|
                    0 <= i < shorter.len() && i < slots.len() && shorter[i] == address
                        && slots[i] is Some;
                assert(request[i] == address && slots[i] is Some);
            }
            if exists|i: int|
                0 <= i < request.len() && i < slots.len() && request[i] == address
                    && slots[i] is Some {
                let i = choose|i: int|
                    0 <= i < request.len() && i < slots.len() && request[i] == address
                        && slots[i] is Some;
                if i < last {
                    assert(shorter[i] == address);
                }
            }
        }
    }
}

/// Where no address is requested twice, the entry of the address at a
/// position holds the value at that position of the reply, and no other.
pub proof fn lemma_fetched_entries_positional<M>(
    request: Seq<Address>,
    slots: Seq<Option<M>>,
    i: int,
)
    requires
        request.no_duplicates(),
        0 <= i < request.len(),
        i < slots.len(),
    ensures
        match slots[i] {
            Some(value) => fetched_entries(request, slots).contains_key(request[i])
                && fetched_entries(request, slots)[request[i]] == value,
            None => !fetched_entries(request, slots).contains_key(request[i]),
        },
    decreases request.len(),
{
    let shorter = request.drop_last();
    let last = request.len() - 1;
    if i < last {
        assert(shorter.no_duplicates());
        lemma_fetched_entries_positional(shorter, slots, i);
        assert(request[i] != request[last]);
    } else {
        lemma_fetched_entries_dom(shorter, slots);
        if fetched_entries(shorter, slots).contains_key(request[i]) {
            let j = choose|j: int|
                0 <= j < shorter.len() && j < slots.len() && shorter[j] == request[i]
                    && slots[j] is Some;
            assert(request[j] == request[i]);
        }
    }
}

/// Positions of the reply beyond the end of the request give no entry.
pub proof fn lemma_fetched_entries_take<M>(request: Seq<Address>, slots: Seq<Option<M>>, n: int)
    requires
        0 <= n <= request.len(),
        slots.len() <= n,
    ensures
        fetched_entries(request, slots) == fetched_entries(request.take(n), slots),
    decreases request.len(),
{
    if n < request.len() {
        lemma_fetched_entries_take(request.drop_last(), slots, n);
        assert(request.drop_last().take(n) == request.take(n));
    } else {
        assert(request.take(n) == request);
    }
}

/// The set of the addresses of a request grows by the last address.
proof fn lemma_to_set_last(request: Seq<Address>)
    requires
        request.len() > 0,
    ensures
        request.to_set() == request.drop_last().to_set().insert(request.last()),
        request.drop_last().to_set().finite() ==> request.to_set().finite(),
{
    let shorter = request.drop_last();
    assert forall|address: Address| request.to_set().contains(address) implies shorter.to_set().insert(
        request.last(),
    ).contains(address) by {
        let i = choose|i: int| 0 <= i < request.len() && request[i] == address;
        if i < shorter.len() {
            assert(shorter[i] == address);
        }
    }
    assert forall|address: Address|
        shorter.to_set().insert(request.last()).contains(address) implies request.to_set().contains(
        address,
    ) by {
        if address == request.last() {
            assert(request[request.len() - 1] == address);
        } else {
            let i = choose|i: int| 0 <= i < shorter.len() && shorter[i] == address;
            assert(request[i] == address);
        }
    }
    assert(request.to_set() =~= shorter.to_set().insert(request.last()));
}

/// Where the reply has a flag for every position, the existence map has an
/// entry exactly for the requested addresses.
pub proof fn lemma_presence_dom(request: Seq<Address>, present: Seq<bool>)
    requires
        request.len() <= present.len(),
    ensures
        presence(request, present).dom() == request.to_set(),
        request.to_set().finite(),
    decreases request.len(),
{
    if request.len() == 0 {
        assert(presence(request, present).dom() =~= request.to_set());
    } else {
        lemma_presence_dom(request.drop_last(), present);
        lemma_to_set_last(request);
        assert(presence(request, present).dom() =~= request.to_set());
    }
}

/// The flag of an address in the existence map is the flag at the last
/// position at which the address is requested.
pub proof fn lemma_presence_positional(request: Seq<Address>, present: Seq<bool>, i: int)
    requires
        request.len() <= present.len(),
        0 <= i < request.len(),
        forall|j: int| i < j < request.len() ==> request[j] != request[i],
    ensures
        presence(request, present).contains_key(request[i]),
        presence(request, present)[request[i]] == present[i],
    decreases request.len(),
{
    let last = request.len() - 1;
    if i < last {
        let shorter = request.drop_last();
        assert(request[last] != request[i]);
        assert forall|j: int| i < j < shorter.len() implies shorter[j] != shorter[i] by {
            assert(request[j] != request[i]);
        }
        lemma_presence_positional(shorter, present, i);
    }
}

/// What a batch operation does next.
pub enum BatchStep<V, P> {
    /// The result stands without a network call.
    Done(AddressMap<V>),
    /// One network call is to be made, as the pending operation says.
    Fetch(P),
}

/// Why a batch operation gave no result.
#[derive(Debug, PartialEq, Eq)]
pub enum BatchError<E> {
    /// The network call failed with the given error.
    Transport(E),
    /// The reply does not have one slot for each requested address.
    ReplyLength,
}

/// A batch fetch that waits for the reply to its network call.
pub struct PendingFetch<V: Decoded, H> {
    /// The connection to make the call on.
    pub client: Arc<H>,
    /// What the reply is decoded in.
    pub scope: V::Scope,
    /// The addresses to fetch, in this order and in one call.
    pub request: Vec<Address>,
    /// The values that the cache held for the requested addresses.
    pub cached: AddressMap<V>,
}

/// An existence check that waits for the reply to its network call.
pub struct PendingProbe<H> {
    /// The connection to make the call on.
    pub client: Arc<H>,
    /// The addresses to fetch, in this order and in one call.
    pub request: Vec<Address>,
}

/// The first step of a batch fetch: finds the requested addresses in the
/// cache, and asks for one network call for the others, if there are any.
pub fn begin_fetch<V: Decoded, H>(
    cache: &AccountCache<V>,
    pool: &ConnectionPool<H>,
    scope: V::Scope,
    addresses: &[Address],
) -> (step: BatchStep<V, PendingFetch<V, H>>)
    ensures
        match step {
            BatchStep::Done(found) => {
                &&& cache_misses(cache@, addresses@).len() == 0
                &&& found@ == cache_hits(cache@, addresses@)
            },
            BatchStep::Fetch(pending) => {
                &&& cache_misses(cache@, addresses@).len() > 0
                &&& pending.request@ == cache_misses(cache@, addresses@)
                &&& pending.request@.no_duplicates()
                &&& pending.cached@ == cache_hits(cache@, addresses@)
                &&& pending.scope == scope
                &&& pool.handles().len() == 0 ==> pending.client == pool.seed()
                &&& pool.handles().len() > 0 ==> pool.handles().contains(pending.client)
            },
        },
        (forall|i: int| 0 <= i < addresses@.len() ==> cache@.contains_key(#[trigger] addresses@[i]))
            <==> step is Done,
{
    let mut cached: AddressMap<V> = AddressMap::new();
    let mut request: Vec<Address> = Vec::new();
    let mut i: usize = 0;
    while i < addresses.len()
        invariant
            i <= addresses@.len(),
            cached@ == cache_hits(cache@, addresses@.take(i as int)),
            request@ == cache_misses(cache@, addresses@.take(i as int)),
        decreases addresses@.len() - i,
    {
        let address = addresses[i];
        proof {
            assert(addresses@.take(i + 1).drop_last() == addresses@.take(i as int));
            assert(addresses@.take(i + 1).last() == address);
            lemma_to_set_last(addresses@.take(i + 1));
        }
        match cache.get(&address) {
            Some(value) => {
                if !cached.contains_key(&address) {
                    cached.insert(address, value.duplicate());
                }
            },
            None => {
                if !contains_address(&request, &address) {
                    request.push(address);
                }
            },
        }
        assert(cached@ =~= cache_hits(cache@, addresses@.take(i + 1)));
        i += 1;
    }
    proof {
        assert(addresses@.take(i as int) == addresses@);
        lemma_no_misses(cache@, addresses@);
        lemma_cache_misses(cache@, addresses@);
    }
    if request.len() == 0 {
        BatchStep::Done(cached)
    } else {
        BatchStep::Fetch(PendingFetch { client: pool.select_handle(), scope, request, cached })
    }
}

/// The addresses of a request that the first positions of a reply, as many as
/// given, stand beside.
spec fn paired(request: Seq<Address>, positions: int) -> Seq<Address> {
    request.take(vstd::math::min(positions, request.len() as int))
}

/// Decodes each slot of a reply in the given scope: nothing where the slot is
/// empty or its data does not decode.
pub fn decode_slots<V: Decoded>(slots: &Vec<Option<Vec<u8>>>, scope: &V::Scope) -> (decoded: Vec<
    Option<V>,
>)
    ensures
        slot_views(decoded@) == decoded_slots::<V>(slot_views(slots@), *scope),
{
    let mut decoded: Vec<Option<V>> = Vec::new();
    let mut i: usize = 0;
    while i < slots.len()
        invariant
            i <= slots@.len(),
            decoded@.len() == i,
            forall|j: int|
                0 <= j < i ==> option_view(#[trigger] decoded@[j]) == decoded_slots::<V>(
                    slot_views(slots@),
                    *scope,
                )[j],
        decreases slots@.len() - i,
    {
        let value = match &slots[i] {
            Some(data) => V::decode(data, scope),
            None => None,
        };
        decoded.push(value);
        i += 1;
    }
    assert(slot_views(decoded@) =~= decoded_slots::<V>(slot_views(slots@), *scope));
    decoded
}

/// Caches the values decoded for the requested addresses, position by
/// position, and gives them together with the values found in the cache
/// before.
pub fn merge_fetched<V: Decoded>(
    cache: &mut AccountCache<V>,
    cached: AddressMap<V>,
    request: &Vec<Address>,
    decoded: Vec<Option<V>>,
) -> (found: AddressMap<V>)
    ensures
        found@ == cached@.union_prefer_right(fetched_entries(request@, slot_views(decoded@))),
        final(cache)@ == old(cache)@.union_prefer_right(
            fetched_entries(request@, slot_views(decoded@)),
        ),
{
    let ghost slots = slot_views(decoded@);
    let count = decoded.len();
    let mut found = cached;
    let mut i: usize = 0;
    proof {
        assert(found@ =~= cached@.union_prefer_right(fetched_entries(paired(request@, 0), slots)));
        assert(cache@ =~= old(cache)@.union_prefer_right(
            fetched_entries(paired(request@, 0), slots),
        ));
    }
    for value in iter: decoded
        invariant
            i == iter.index(),
            iter.seq() == decoded@,
            decoded@.len() == count,
            slots == slot_views(decoded@),
            found@ == cached@.union_prefer_right(
                fetched_entries(paired(request@, i as int), slots),
            ),
            cache@ == old(cache)@.union_prefer_right(
                fetched_entries(paired(request@, i as int), slots),
            ),
    {
        let ghost before = fetched_entries(paired(request@, i as int), slots);
        proof {
            if i < request@.len() {
                assert(request@.take(i + 1).drop_last() == request@.take(i as int));
            }
        }
        if i < request.len() {
            match value {
                Some(value) => {
                    let address = request[i];
                    proof {
                        vstd::map_lib::lemma_union_insert_right(cached@, before, address, value@);
                        vstd::map_lib::lemma_union_insert_right(
                            old(cache)@,
                            before,
                            address,
                            value@,
                        );
                    }
                    cache.insert(address, value.duplicate());
                    found.insert(address, value);
                },
                None => {},
            }
        }
        i += 1;
    }
    proof {
        if count <= request@.len() {
            lemma_fetched_entries_take(request@, slots, count as int);
        } else {
            assert(request@.take(request@.len() as int) == request@);
        }
    }
    found
}

/// The second step of a batch fetch: decodes the reply position by position,
/// caches what decodes, and gives the cached and the fetched values together.
///
/// A failed call or a reply of the wrong length gives an error and leaves the
/// cache as it was.
pub fn finish_fetch<V: Decoded, H, E>(
    cache: &mut AccountCache<V>,
    pending: PendingFetch<V, H>,
    reply: Result<Vec<Option<Vec<u8>>>, E>,
) -> (result: Result<AddressMap<V>, BatchError<E>>)
    ensures
        match reply {
            Err(error) => {
                &&& result == Err::<AddressMap<V>, BatchError<E>>(BatchError::Transport(error))
                &&& final(cache)@ == old(cache)@
            },
            Ok(slots) => if slots@.len() != pending.request@.len() {
                &&& result == Err::<AddressMap<V>, BatchError<E>>(BatchError::ReplyLength)
                &&& final(cache)@ == old(cache)@
            } else {
                let fetched = fetched_entries(
                    pending.request@,
                    decoded_slots::<V>(slot_views(slots@), pending.scope),
                );
                &&& result matches Ok(found)
                &&& found@ == pending.cached@.union_prefer_right(fetched)
                &&& final(cache)@ == old(cache)@.union_prefer_right(fetched)
            },
        },
{
    let slots = match reply {
        Ok(slots) => slots,
        Err(error) => {
            return Err(BatchError::Transport(error));
        },
    };
    let PendingFetch { client: _, scope, request, cached } = pending;
    if slots.len() != request.len() {
        return Err(BatchError::ReplyLength);
    }
    let decoded = decode_slots::<V>(&slots, &scope);
    Ok(merge_fetched(cache, cached, &request, decoded))
}

/// The first step of an existence check: asks for one network call for all
/// the addresses as they are given, and for none where none is given.
pub fn begin_probe<H>(pool: &ConnectionPool<H>, addresses: &[Address]) -> (step: BatchStep<
    bool,
    PendingProbe<H>,
>)
    ensures
        match step {
            BatchStep::Done(found) => {
                &&& addresses@.len() == 0
                &&& found@ == Map::<Address, bool>::empty()
            },
            BatchStep::Fetch(pending) => {
                &&& addresses@.len() > 0
                &&& pending.request@ == addresses@
                &&& pool.handles().len() == 0 ==> pending.client == pool.seed()
                &&& pool.handles().len() > 0 ==> pool.handles().contains(pending.client)
            },
        },
{
    if addresses.len() == 0 {
        BatchStep::Done(AddressMap::new())
    } else {
        let mut request: Vec<Address> = Vec::new();
        let mut i: usize = 0;
        while i < addresses.len()
            invariant
                i <= addresses@.len(),
                request@ == addresses@.take(i as int),
            decreases addresses@.len() - i,
        {
            request.push(addresses[i]);
            assert(request@ =~= addresses@.take(i + 1));
            i += 1;
        }
        assert(addresses@.take(i as int) == addresses@);
        BatchStep::Fetch(PendingProbe { client: pool.select_handle(), request })
    }
}

/// The second step of an existence check: says of every requested address
/// whether the reply holds an account at its position.
///
/// A failed call or a reply of the wrong length gives an error.
pub fn finish_probe<H, E>(pending: PendingProbe<H>, reply: Result<Vec<Option<Vec<u8>>>, E>) -> (result:
    Result<AddressMap<bool>, BatchError<E>>)
    ensures
        match reply {
            Err(error) => result == Err::<AddressMap<bool>, BatchError<E>>(
                BatchError::Transport(error),
            ),
            Ok(slots) => if slots@.len() != pending.request@.len() {
                result == Err::<AddressMap<bool>, BatchError<E>>(BatchError::ReplyLength)
            } else {
                &&& result matches Ok(found)
                &&& found@ == presence(pending.request@, present_slots(slots@))
                &&& found@.dom() == pending.request@.to_set()
            },
        },
{
    let slots = match reply {
        Ok(slots) => slots,
        Err(error) => {
            return Err(BatchError::Transport(error));
        },
    };
    if slots.len() != pending.request.len() {
        return Err(BatchError::ReplyLength);
    }
    let ghost present = present_slots(slots@);
    let mut found: AddressMap<bool> = AddressMap::new();
    let mut i: usize = 0;
    while i < pending.request.len()
        invariant
            i <= pending.request@.len(),
            slots@.len() == pending.request@.len(),
            present == present_slots(slots@),
            found@ == presence(pending.request@.take(i as int), present),
        decreases pending.request@.len() - i,
    {
        proof {
            assert(pending.request@.take(i + 1).drop_last() == pending.request@.take(i as int));
        }
        found.insert(pending.request[i], slots[i].is_some());
        i += 1;
    }
    proof {
        assert(pending.request@.take(i as int) == pending.request@);
        lemma_presence_dom(pending.request@, present);
    }
    Ok(found)
}

/// Whether the list holds the address.
pub fn contains_address(list: &Vec<Address>, address: &Address) -> (found: bool)
    ensures
        found == list@.contains(*address),
{
    let mut i: usize = 0;
    while i < list.len()
        invariant
            i <= list@.len(),
            forall|j: int| 0 <= j < i ==> list@[j] != *address,
        decreases list@.len() - i,
    {
        if list[i] == *address {
            return true;
        }
        i += 1;
    }
    false
}

} // verus!
