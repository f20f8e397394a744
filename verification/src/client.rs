//! The batching client: a connection pool with a cache of token accounts and
//! a cache of mints.

use crate::address::Address;
use crate::address_map::AddressMap;
use crate::batch::{
    begin_fetch, begin_probe, cache_hits, cache_misses, decoded_slots, fetched_entries,
    finish_fetch, finish_probe, presence, present_slots, slot_views, BatchError, BatchStep,
    PendingFetch, PendingProbe,
};
use crate::cache::AccountCache;
use crate::decode::{Mint, MintView, TokenAccount, TokenAccountView};
use crate::pool::ConnectionPool;
use std::sync::Arc;
use vstd::prelude::*;

verus! {

/// Fetches many accounts in one network call each, and answers from its
/// caches what it has fetched before.
pub struct BatchRpcClient<H> {
    /// The connections that the network calls are spread over.
    pub pool: ConnectionPool<H>,
    /// The token accounts decoded so far, by address.
    pub token_accounts: AccountCache<TokenAccount>,
    /// The mints decoded so far, by address.
    pub mints: AccountCache<Mint>,
}

impl<H> BatchRpcClient<H> {
    /// The client over one connection, with empty caches.
    pub fn new(rpc_client: Arc<H>) -> (client: Self)
        ensures
            client.pool.seed() == rpc_client,
            client.pool.handles() == seq![rpc_client],
            client.token_accounts@ == Map::<Address, TokenAccountView>::empty(),
            client.mints@ == Map::<Address, MintView>::empty(),
    {
        BatchRpcClient {
            pool: ConnectionPool::new(rpc_client),
            token_accounts: AccountCache::new(),
            mints: AccountCache::new(),
        }
    }

    /// A connection from the pool, chosen by the system clock: some handle of
    /// the pool, and the seed handle where the pool is empty.
    pub fn get_client(&self) -> (client: Arc<H>)
        ensures
            self.pool.handles().len() == 0 ==> client == self.pool.seed(),
            self.pool.handles().len() > 0 ==> self.pool.handles().contains(client),
    {
        self.pool.select_handle()
    }

    /// Adds a connection to the pool.
    pub fn add_client(&mut self, client: Arc<H>)
        ensures
            final(self).pool.seed() == old(self).pool.seed(),
            final(self).pool.handles() == old(self).pool.handles().push(client),
            final(self).token_accounts == old(self).token_accounts,
            final(self).mints == old(self).mints,
    {
        self.pool.add_handle(client);
    }

    /// Begins a fetch of the token accounts at the given addresses, which
    /// belong to the given mint.
    ///
    /// Where the cache holds every address, the result stands and holds the
    /// cached values. Otherwise one network call is due for the addresses
    /// that the cache lacks, each once.
    pub fn get_multiple_token_accounts(&self, mint: &Address, accounts: &[Address]) -> (step:
        BatchStep<TokenAccount, PendingFetch<TokenAccount, H>>)
        ensures
            match step {
                BatchStep::Done(found) => {
                    &&& cache_misses(self.token_accounts@, accounts@).len() == 0
                    &&& found@ == cache_hits(self.token_accounts@, accounts@)
                },
                BatchStep::Fetch(pending) => {
                    &&& cache_misses(self.token_accounts@, accounts@).len() > 0
                    &&& pending.request@ == cache_misses(self.token_accounts@, accounts@)
                    &&& pending.request@.no_duplicates()
                    &&& pending.cached@ == cache_hits(self.token_accounts@, accounts@)
                    &&& pending.scope == *mint
                    &&& self.pool.handles().len() == 0 ==> pending.client == self.pool.seed()
                    &&& self.pool.handles().len() > 0 ==> self.pool.handles().contains(
                        pending.client,
                    )
                },
            },
            (forall|i: int|
                0 <= i < accounts@.len() ==> self.token_accounts@.contains_key(
                    #[trigger] accounts@[i],
                )) <==> step is Done,
    {
        begin_fetch(&self.token_accounts, &self.pool, *mint, accounts)
    }

    /// Completes a fetch of token accounts with the reply to its network
    /// call.
    ///
    /// The data at each position of the reply is decoded for the address at
    /// the same position of the request. What decodes to an account of the
    /// mint is cached and returned with the values found in the cache before.
    /// A failed call or a reply of the wrong length gives an error and
    /// changes nothing.
    pub fn complete_token_accounts<E>(
        &mut self,
        pending: PendingFetch<TokenAccount, H>,
        reply: Result<Vec<Option<Vec<u8>>>, E>,
    ) -> (result: Result<AddressMap<TokenAccount>, BatchError<E>>)
        ensures
            final(self).pool == old(self).pool,
            final(self).mints == old(self).mints,
            match reply {
                Err(error) => {
                    &&& result == Err::<AddressMap<TokenAccount>, BatchError<E>>(
                        BatchError::Transport(error),
                    )
                    &&& final(self).token_accounts@ == old(self).token_accounts@
                },
                Ok(slots) => if slots@.len() != pending.request@.len() {
                    &&& result == Err::<AddressMap<TokenAccount>, BatchError<E>>(
                        BatchError::ReplyLength,
                    )
                    &&& final(self).token_accounts@ == old(self).token_accounts@
                } else {
                    let fetched = fetched_entries(
                        pending.request@,
                        decoded_slots::<TokenAccount>(slot_views(slots@), pending.scope),
                    );
                    &&& result matches Ok(found)
                    &&& found@ == pending.cached@.union_prefer_right(fetched)
                    &&& final(self).token_accounts@ == old(self).token_accounts@.union_prefer_right(
                        fetched,
                    )
                },
            },
    {
        finish_fetch(&mut self.token_accounts, pending, reply)
    }

    /// Begins a fetch of the mints at the given addresses.
    ///
    /// Where the cache holds every address, the result stands and holds the
    /// cached values. Otherwise one network call is due for the addresses
    /// that the cache lacks, each once.
    pub fn get_multiple_mints(&self, mints: &[Address]) -> (step: BatchStep<
        Mint,
        PendingFetch<Mint, H>,
    >)
        ensures
            match step {
                BatchStep::Done(found) => {
                    &&& cache_misses(self.mints@, mints@).len() == 0
                    &&& found@ == cache_hits(self.mints@, mints@)
                },
                BatchStep::Fetch(pending) => {
                    &&& cache_misses(self.mints@, mints@).len() > 0
                    &&& pending.request@ == cache_misses(self.mints@, mints@)
                    &&& pending.request@.no_duplicates()
                    &&& pending.cached@ == cache_hits(self.mints@, mints@)
                    &&& self.pool.handles().len() == 0 ==> pending.client == self.pool.seed()
                    &&& self.pool.handles().len() > 0 ==> self.pool.handles().contains(
                        pending.client,
                    )
                },
            },
            (forall|i: int| 0 <= i < mints@.len() ==> self.mints@.contains_key(#[trigger] mints@[i]))
                <==> step is Done,
    {
        begin_fetch(&self.mints, &self.pool, (), mints)
    }

    /// Completes a fetch of mints with the reply to its network call.
    ///
    /// The data at each position of the reply is decoded for the address at
    /// the same position of the request. What decodes to a mint is cached and
    /// returned with the values found in the cache before. A failed call or a
    /// reply of the wrong length gives an error and changes nothing.
    pub fn complete_mints<E>(
        &mut self,
        pending: PendingFetch<Mint, H>,
        reply: Result<Vec<Option<Vec<u8>>>, E>,
    ) -> (result: Result<AddressMap<Mint>, BatchError<E>>)
        ensures
            final(self).pool == old(self).pool,
            final(self).token_accounts == old(self).token_accounts,
            match reply {
                Err(error) => {
                    &&& result == Err::<AddressMap<Mint>, BatchError<E>>(
                        BatchError::Transport(error),
                    )
                    &&& final(self).mints@ == old(self).mints@
                },
                Ok(slots) => if slots@.len() != pending.request@.len() {
                    &&& result == Err::<AddressMap<Mint>, BatchError<E>>(BatchError::ReplyLength)
                    &&& final(self).mints@ == old(self).mints@
                } else {
                    let fetched = fetched_entries(
                        pending.request@,
                        decoded_slots::<Mint>(slot_views(slots@), ()),
                    );
                    &&& result matches Ok(found)
                    &&& found@ == pending.cached@.union_prefer_right(fetched)
                    &&& final(self).mints@ == old(self).mints@.union_prefer_right(fetched)
                },
            },
    {
        finish_fetch(&mut self.mints, pending, reply)
    }

    /// Begins a check of which of the given addresses exist on-chain.
    ///
    /// The caches are not consulted: one network call is due for the
    /// addresses as they are given, and none where none is given.
    pub fn check_multiple_accounts_exist(&self, accounts: &[Address]) -> (step: BatchStep<
        bool,
        PendingProbe<H>,
    >)
        ensures
            match step {
                BatchStep::Done(found) => {
                    &&& accounts@.len() == 0
                    &&& found@ == Map::<Address, bool>::empty()
                },
                BatchStep::Fetch(pending) => {
                    &&& accounts@.len() > 0
                    &&& pending.request@ == accounts@
                    &&& self.pool.handles().len() == 0 ==> pending.client == self.pool.seed()
                    &&& self.pool.handles().len() > 0 ==> self.pool.handles().contains(
                        pending.client,
                    )
                },
            },
    {
        begin_probe(&self.pool, accounts)
    }

    /// Completes an existence check with the reply to its network call:
    /// every requested address gets the flag that says whether the reply
    /// holds an account at its position.
    ///
    /// A failed call or a reply of the wrong length gives an error.
    pub fn complete_accounts_exist<E>(
        &self,
        pending: PendingProbe<H>,
        reply: Result<Vec<Option<Vec<u8>>>, E>,
    ) -> (result: Result<AddressMap<bool>, BatchError<E>>)
        ensures
            match reply {
                Err(error) => result == Err::<AddressMap<bool>, BatchError<E>>(
                    BatchError::Transport(error),
                ),
                Ok(slots) => if slots@.len() != pending.request@.len() {
                    result == Err::<AddressMap<bool>, BatchError<E>>(BatchError::ReplyLength)
                } else {
                    &&& result matches Ok(found)
                    &&& found@ == presence(pending.request@, present_slots(slots@))
                    &&& found@.dom() == pending.request@.to_set()
                },
            },
    {
        finish_probe(pending, reply)
    }
}

/// The client over one connection, with empty caches.
pub fn create_batch_client<H>(rpc_client: Arc<H>) -> (client: BatchRpcClient<H>)
    ensures
        client.pool.seed() == rpc_client,
        client.pool.handles() == seq![rpc_client],
        client.token_accounts@ == Map::<Address, TokenAccountView>::empty(),
        client.mints@ == Map::<Address, MintView>::empty(),
{
    BatchRpcClient::new(rpc_client)
}

} // verus!
