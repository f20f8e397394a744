use batch_rpc::address::Address;
use batch_rpc::address_map::AddressMap;
use batch_rpc::batch::{
    contains_address, decode_slots, merge_fetched, BatchError, BatchStep, PendingFetch,
    PendingProbe,
};
use batch_rpc::cache::AccountCache;
use batch_rpc::client::{create_batch_client, BatchRpcClient};
use batch_rpc::decode::{Decoded, Mint, TokenAccount};
use std::sync::Arc;

type Client = BatchRpcClient<u32>;

type Reply = Result<Vec<Option<Vec<u8>>>, String>;

fn addr(n: u8) -> Address {
    Address::new([n; 32])
}

fn client() -> Client {
    create_batch_client(Arc::new(0u32))
}

/// The packed form of an initialized token account without extensions.
fn account_data(mint: &Address, owner: &Address, amount: u64) -> Vec<u8> {
    let mut data = vec![0u8; 165];
    data[0..32].copy_from_slice(&mint.bytes);
    data[32..64].copy_from_slice(&owner.bytes);
    data[64..72].copy_from_slice(&amount.to_le_bytes());
    data[108] = 1;
    data
}

/// The packed form of an initialized mint without extensions.
fn mint_data(supply: u64, decimals: u8) -> Vec<u8> {
    let mut data = vec![0u8; 82];
    data[36..44].copy_from_slice(&supply.to_le_bytes());
    data[44] = decimals;
    data[45] = 1;
    data
}

fn account(mint: &Address, owner: &Address, amount: u64) -> TokenAccount {
    TokenAccount { mint: *mint, owner: *owner, amount, extensions: vec![] }
}

fn pending_accounts(
    step: BatchStep<TokenAccount, PendingFetch<TokenAccount, u32>>,
) -> PendingFetch<TokenAccount, u32> {
    match step {
        BatchStep::Fetch(pending) => pending,
        BatchStep::Done(_) => panic!("a network call is due"),
    }
}

fn done_accounts(
    step: BatchStep<TokenAccount, PendingFetch<TokenAccount, u32>>,
) -> AddressMap<TokenAccount> {
    match step {
        BatchStep::Done(found) => found,
        BatchStep::Fetch(_) => panic!("no network call is due"),
    }
}

fn pending_mints(step: BatchStep<Mint, PendingFetch<Mint, u32>>) -> PendingFetch<Mint, u32> {
    match step {
        BatchStep::Fetch(pending) => pending,
        BatchStep::Done(_) => panic!("a network call is due"),
    }
}

fn pending_probe(step: BatchStep<bool, PendingProbe<u32>>) -> PendingProbe<u32> {
    match step {
        BatchStep::Fetch(pending) => pending,
        BatchStep::Done(_) => panic!("a network call is due"),
    }
}

/// Fetches the token account at `address` into the client's cache.
fn prime(client: &mut Client, mint: &Address, address: &Address, owner: &Address, amount: u64) {
    let pending = pending_accounts(client.get_multiple_token_accounts(mint, &[*address]));
    let reply: Reply = Ok(vec![Some(account_data(mint, owner, amount))]);
    client.complete_token_accounts(pending, reply).unwrap();
}

#[test]
fn fetch_returns_the_accounts_that_exist_on_chain() {
    let mut client = client();
    let (a, b, c, mint) = (addr(1), addr(2), addr(3), addr(9));
    let pending = pending_accounts(client.get_multiple_token_accounts(&mint, &[a, b, c]));
    assert_eq!(pending.request, vec![a, b, c]);
    assert!(pending.cached.is_empty());
    assert_eq!(pending.scope, mint);
    let reply: Reply = Ok(vec![
        Some(account_data(&mint, &addr(11), 100)),
        None,
        Some(account_data(&mint, &addr(13), 300)),
    ]);
    let found = client.complete_token_accounts(pending, reply).unwrap();
    assert_eq!(found.len(), 2);
    assert_eq!(found.get(&a), Some(&account(&mint, &addr(11), 100)));
    assert_eq!(found.get(&b), None);
    assert_eq!(found.get(&c), Some(&account(&mint, &addr(13), 300)));
    assert_eq!(client.token_accounts.len(), 2);
    assert_eq!(client.token_accounts.lookup(&a), Some(account(&mint, &addr(11), 100)));
    assert_eq!(client.token_accounts.lookup(&b), None);
    assert_eq!(client.token_accounts.lookup(&c), Some(account(&mint, &addr(13), 300)));
}

#[test]
fn existence_check_flags_every_requested_address() {
    let client = client();
    let (a, b, c) = (addr(1), addr(2), addr(3));
    let pending = pending_probe(client.check_multiple_accounts_exist(&[a, b, c]));
    assert_eq!(pending.request, vec![a, b, c]);
    let reply: Reply = Ok(vec![Some(vec![1, 2, 3]), None, Some(vec![])]);
    let found = client.complete_accounts_exist(pending, reply).unwrap();
    assert_eq!(found.len(), 3);
    assert_eq!(found.get(&a), Some(&true));
    assert_eq!(found.get(&b), Some(&false));
    assert_eq!(found.get(&c), Some(&true));
}

#[test]
fn cached_address_is_not_fetched_again() {
    let mut client = client();
    let (a, b, mint) = (addr(1), addr(2), addr(9));
    prime(&mut client, &mint, &a, &addr(11), 100);
    let pending = pending_accounts(client.get_multiple_token_accounts(&mint, &[a, a, b]));
    assert_eq!(pending.request, vec![b]);
    assert_eq!(pending.cached.len(), 1);
    assert_eq!(pending.cached.get(&a), Some(&account(&mint, &addr(11), 100)));
    let reply: Reply = Ok(vec![Some(account_data(&mint, &addr(12), 200))]);
    let found = client.complete_token_accounts(pending, reply).unwrap();
    assert_eq!(found.len(), 2);
    assert_eq!(found.get(&a), Some(&account(&mint, &addr(11), 100)));
    assert_eq!(found.get(&b), Some(&account(&mint, &addr(12), 200)));
}

#[test]
fn empty_request_needs_no_network_call() {
    let client = client();
    let accounts = done_accounts(client.get_multiple_token_accounts(&addr(9), &[]));
    assert!(accounts.is_empty());
    match client.get_multiple_mints(&[]) {
        BatchStep::Done(found) => assert!(found.is_empty()),
        BatchStep::Fetch(_) => panic!("no network call is due"),
    }
    match client.check_multiple_accounts_exist(&[]) {
        BatchStep::Done(found) => assert!(found.is_empty()),
        BatchStep::Fetch(_) => panic!("no network call is due"),
    }
}

#[test]
fn fully_cached_request_is_answered_from_the_cache() {
    let mut client = client();
    let (a, b, mint) = (addr(1), addr(2), addr(9));
    prime(&mut client, &mint, &a, &addr(11), 100);
    prime(&mut client, &mint, &b, &addr(12), 200);
    let found = done_accounts(client.get_multiple_token_accounts(&mint, &[b, a, b]));
    assert_eq!(found.len(), 2);
    assert_eq!(found.get(&a), Some(&account(&mint, &addr(11), 100)));
    assert_eq!(found.get(&b), Some(&account(&mint, &addr(12), 200)));
    let only_a = done_accounts(client.get_multiple_token_accounts(&mint, &[a]));
    assert_eq!(only_a.len(), 1);
    assert_eq!(only_a.get(&b), None);
}

#[test]
fn second_fetch_gives_the_same_values_without_a_call() {
    let mut client = client();
    let (a, b, mint) = (addr(1), addr(2), addr(9));
    let pending = pending_accounts(client.get_multiple_token_accounts(&mint, &[a, b]));
    let reply: Reply = Ok(vec![
        Some(account_data(&mint, &addr(11), 100)),
        Some(account_data(&mint, &addr(12), 200)),
    ]);
    let first = client.complete_token_accounts(pending, reply).unwrap();
    let second = done_accounts(client.get_multiple_token_accounts(&mint, &[a, b]));
    assert_eq!(first.len(), 2);
    assert_eq!(second.len(), 2);
    assert_eq!(first.get(&a), second.get(&a));
    assert_eq!(first.get(&b), second.get(&b));
    assert_eq!(second.get(&a), Some(&account(&mint, &addr(11), 100)));
    assert_eq!(second.get(&b), Some(&account(&mint, &addr(12), 200)));
}

#[test]
fn absent_address_is_fetched_again() {
    let mut client = client();
    let (a, b, mint) = (addr(1), addr(2), addr(9));
    let pending = pending_accounts(client.get_multiple_token_accounts(&mint, &[a, b]));
    let reply: Reply = Ok(vec![Some(account_data(&mint, &addr(11), 100)), None]);
    client.complete_token_accounts(pending, reply).unwrap();
    let again = pending_accounts(client.get_multiple_token_accounts(&mint, &[a, b]));
    assert_eq!(again.request, vec![b]);
    assert_eq!(again.cached.len(), 1);
}

#[test]
fn each_address_is_decoded_from_its_own_slot() {
    let mut client = client();
    let (a, b, c, mint) = (addr(1), addr(2), addr(3), addr(9));
    let pending = pending_accounts(client.get_multiple_token_accounts(&mint, &[c, a, b]));
    assert_eq!(pending.request, vec![c, a, b]);
    let reply: Reply = Ok(vec![
        Some(account_data(&mint, &addr(33), 3)),
        Some(account_data(&mint, &addr(11), 1)),
        Some(account_data(&mint, &addr(22), 2)),
    ]);
    let found = client.complete_token_accounts(pending, reply).unwrap();
    assert_eq!(found.get(&a), Some(&account(&mint, &addr(11), 1)));
    assert_eq!(found.get(&b), Some(&account(&mint, &addr(22), 2)));
    assert_eq!(found.get(&c), Some(&account(&mint, &addr(33), 3)));
}

#[test]
fn duplicate_addresses_are_fetched_once() {
    let mut client = client();
    let (a, b, mint) = (addr(1), addr(2), addr(9));
    let pending = pending_accounts(client.get_multiple_token_accounts(&mint, &[a, b, a, a, b]));
    assert_eq!(pending.request, vec![a, b]);
    let reply: Reply = Ok(vec![
        Some(account_data(&mint, &addr(11), 100)),
        Some(account_data(&mint, &addr(12), 200)),
    ]);
    let found = client.complete_token_accounts(pending, reply).unwrap();
    assert_eq!(found.len(), 2);
    assert_eq!(client.token_accounts.len(), 2);
}

#[test]
fn undecodable_entry_is_left_out_and_its_siblings_stay() {
    let mut client = client();
    let (a, b, c, mint) = (addr(1), addr(2), addr(3), addr(9));
    let pending = pending_accounts(client.get_multiple_token_accounts(&mint, &[a, b, c]));
    let reply: Reply = Ok(vec![
        Some(account_data(&mint, &addr(11), 100)),
        Some(vec![0xff; 40]),
        Some(account_data(&addr(8), &addr(13), 300)),
    ]);
    let found = client.complete_token_accounts(pending, reply).unwrap();
    assert_eq!(found.len(), 1);
    assert_eq!(found.get(&a), Some(&account(&mint, &addr(11), 100)));
    assert_eq!(found.get(&b), None);
    assert_eq!(found.get(&c), None);
    assert_eq!(client.token_accounts.len(), 1);
    assert!(!client.token_accounts.contains(&b));
    assert!(!client.token_accounts.contains(&c));
}

#[test]
fn failed_call_gives_the_transport_error_and_caches_nothing() {
    let mut client = client();
    let (a, b, mint) = (addr(1), addr(2), addr(9));
    prime(&mut client, &mint, &a, &addr(11), 100);
    let pending = pending_accounts(client.get_multiple_token_accounts(&mint, &[a, b]));
    let reply: Reply = Err(String::from("connection lost"));
    let result = client.complete_token_accounts(pending, reply);
    assert_eq!(result.unwrap_err(), BatchError::Transport(String::from("connection lost")));
    assert_eq!(client.token_accounts.len(), 1);
    assert!(!client.token_accounts.contains(&b));
}

#[test]
fn reply_of_the_wrong_length_is_an_error() {
    let mut client = client();
    let (a, b, mint) = (addr(1), addr(2), addr(9));
    let pending = pending_accounts(client.get_multiple_token_accounts(&mint, &[a, b]));
    let short: Reply = Ok(vec![Some(account_data(&mint, &addr(11), 100))]);
    assert_eq!(
        client.complete_token_accounts(pending, short).unwrap_err(),
        BatchError::ReplyLength
    );
    assert_eq!(client.token_accounts.len(), 0);
    let pending = pending_accounts(client.get_multiple_token_accounts(&mint, &[a]));
    let long: Reply = Ok(vec![None, None]);
    assert_eq!(
        client.complete_token_accounts(pending, long).unwrap_err(),
        BatchError::ReplyLength
    );
}

#[test]
fn later_fetch_overwrites_the_cached_value() {
    let mut client = client();
    let (a, mint) = (addr(1), addr(9));
    prime(&mut client, &mint, &a, &addr(11), 100);
    let pending = PendingFetch {
        client: client.get_client(),
        scope: mint,
        request: vec![a],
        cached: AddressMap::new(),
    };
    let reply: Reply = Ok(vec![Some(account_data(&mint, &addr(11), 250))]);
    let found = client.complete_token_accounts(pending, reply).unwrap();
    assert_eq!(found.get(&a), Some(&account(&mint, &addr(11), 250)));
    assert_eq!(client.token_accounts.len(), 1);
    assert_eq!(client.token_accounts.lookup(&a), Some(account(&mint, &addr(11), 250)));
}

#[test]
fn mints_are_fetched_and_cached() {
    let mut client = client();
    let (a, b, c) = (addr(1), addr(2), addr(3));
    let pending = pending_mints(client.get_multiple_mints(&[a, b, a, c]));
    assert_eq!(pending.request, vec![a, b, c]);
    let reply: Reply =
        Ok(vec![Some(mint_data(1_000, 6)), None, Some(account_data(&a, &b, 5))]);
    let found = client.complete_mints(pending, reply).unwrap();
    assert_eq!(found.len(), 1);
    assert_eq!(found.get(&a), Some(&Mint { supply: 1_000, decimals: 6, extensions: vec![] }));
    assert_eq!(client.mints.len(), 1);
    assert_eq!(client.token_accounts.len(), 0);
    let again = pending_mints(client.get_multiple_mints(&[a, b, c]));
    assert_eq!(again.request, vec![b, c]);
    assert_eq!(again.cached.get(&a), Some(&Mint { supply: 1_000, decimals: 6, extensions: vec![] }));
    match client.get_multiple_mints(&[a, a]) {
        BatchStep::Done(found) => assert_eq!(found.len(), 1),
        BatchStep::Fetch(_) => panic!("no network call is due"),
    }
}

#[test]
fn mint_fetch_reports_errors() {
    let mut client = client();
    let pending = pending_mints(client.get_multiple_mints(&[addr(1)]));
    let failed: Reply = Err(String::from("timeout"));
    assert_eq!(
        client.complete_mints(pending, failed).unwrap_err(),
        BatchError::Transport(String::from("timeout"))
    );
    let pending = pending_mints(client.get_multiple_mints(&[addr(1)]));
    let empty: Reply = Ok(vec![]);
    assert_eq!(client.complete_mints(pending, empty).unwrap_err(), BatchError::ReplyLength);
    assert_eq!(client.mints.len(), 0);
}

#[test]
fn token_account_and_mint_caches_are_separate() {
    let mut client = client();
    let (a, mint) = (addr(1), addr(9));
    prime(&mut client, &mint, &a, &addr(11), 100);
    let pending = pending_mints(client.get_multiple_mints(&[a]));
    assert_eq!(pending.request, vec![a]);
}

#[test]
fn existence_check_has_one_entry_per_unique_address() {
    let client = client();
    let (a, b) = (addr(1), addr(2));
    let pending = pending_probe(client.check_multiple_accounts_exist(&[a, b, a, b, b]));
    assert_eq!(pending.request, vec![a, b, a, b, b]);
    let reply: Reply = Ok(vec![Some(vec![]), None, Some(vec![]), None, None]);
    let found = client.complete_accounts_exist(pending, reply).unwrap();
    assert_eq!(found.len(), 2);
    assert_eq!(found.get(&a), Some(&true));
    assert_eq!(found.get(&b), Some(&false));
}

#[test]
fn existence_check_takes_the_flag_of_the_last_position() {
    let client = client();
    let a = addr(1);
    let pending = pending_probe(client.check_multiple_accounts_exist(&[a, a]));
    let reply: Reply = Ok(vec![Some(vec![]), None]);
    let found = client.complete_accounts_exist(pending, reply).unwrap();
    assert_eq!(found.into_entries(), vec![(a, false)]);
}

#[test]
fn existence_check_does_not_consult_the_cache() {
    let mut client = client();
    let (a, mint) = (addr(1), addr(9));
    prime(&mut client, &mint, &a, &addr(11), 100);
    let pending = pending_probe(client.check_multiple_accounts_exist(&[a]));
    assert_eq!(pending.request, vec![a]);
    let reply: Reply = Ok(vec![None]);
    let found = client.complete_accounts_exist(pending, reply).unwrap();
    assert_eq!(found.get(&a), Some(&false));
    assert!(client.token_accounts.contains(&a));
}

#[test]
fn existence_check_reports_errors() {
    let client = client();
    let pending = pending_probe(client.check_multiple_accounts_exist(&[addr(1), addr(2)]));
    let failed: Reply = Err(String::from("refused"));
    assert_eq!(
        client.complete_accounts_exist(pending, failed).unwrap_err(),
        BatchError::Transport(String::from("refused"))
    );
    let pending = pending_probe(client.check_multiple_accounts_exist(&[addr(1), addr(2)]));
    let short: Reply = Ok(vec![None]);
    assert_eq!(
        client.complete_accounts_exist(pending, short).unwrap_err(),
        BatchError::ReplyLength
    );
}

#[test]
fn pending_call_names_a_connection_of_the_pool() {
    let seed = Arc::new(0u32);
    let other = Arc::new(1u32);
    let mut client = create_batch_client(seed.clone());
    client.add_client(other.clone());
    let pending = pending_mints(client.get_multiple_mints(&[addr(1)]));
    assert!(Arc::ptr_eq(&pending.client, &seed) || Arc::ptr_eq(&pending.client, &other));
    let probe = pending_probe(client.check_multiple_accounts_exist(&[addr(1)]));
    assert!(Arc::ptr_eq(&probe.client, &seed) || Arc::ptr_eq(&probe.client, &other));
}

#[test]
fn contains_address_finds_listed_addresses() {
    let list = vec![addr(1), addr(2)];
    assert!(contains_address(&list, &addr(2)));
    assert!(!contains_address(&list, &addr(3)));
    assert!(!contains_address(&Vec::new(), &addr(1)));
}

#[test]
fn decode_slots_decodes_each_slot_in_place() {
    let mint = addr(9);
    let slots = vec![
        None,
        Some(account_data(&mint, &addr(11), 100)),
        Some(vec![1, 2, 3]),
        Some(account_data(&addr(8), &addr(12), 200)),
    ];
    let decoded: Vec<Option<TokenAccount>> = decode_slots(&slots, &mint);
    assert_eq!(decoded, vec![None, Some(account(&mint, &addr(11), 100)), None, None]);
    let mints: Vec<Option<Mint>> = decode_slots(&vec![Some(mint_data(5, 2)), None], &());
    assert_eq!(mints, vec![Some(Mint { supply: 5, decimals: 2, extensions: vec![] }), None]);
    let none: Vec<Option<Mint>> = decode_slots(&Vec::new(), &());
    assert!(none.is_empty());
}

#[test]
fn merge_fetched_pairs_addresses_with_values_by_position() {
    let mut cache: AccountCache<Mint> = AccountCache::new();
    let (a, b, c) = (addr(1), addr(2), addr(3));
    let mut cached: AddressMap<Mint> = AddressMap::new();
    cached.insert(c, Mint { supply: 3, decimals: 0, extensions: vec![] });
    let decoded = vec![Some(Mint { supply: 1, decimals: 1, extensions: vec![9] }), None];
    let found = merge_fetched(&mut cache, cached, &vec![a, b], decoded);
    assert_eq!(found.len(), 2);
    assert_eq!(found.get(&a), Some(&Mint { supply: 1, decimals: 1, extensions: vec![9] }));
    assert_eq!(found.get(&b), None);
    assert_eq!(found.get(&c), Some(&Mint { supply: 3, decimals: 0, extensions: vec![] }));
    assert_eq!(cache.len(), 1);
    assert_eq!(cache.lookup(&a), Some(Mint { supply: 1, decimals: 1, extensions: vec![9] }));
    assert!(!cache.contains(&c));
}

#[test]
fn merge_fetched_lets_the_later_position_stand() {
    let mut cache: AccountCache<Mint> = AccountCache::new();
    let a = addr(1);
    let first = Mint { supply: 1, decimals: 0, extensions: vec![] };
    let second = Mint { supply: 2, decimals: 0, extensions: vec![] };
    let found =
        merge_fetched(&mut cache, AddressMap::new(), &vec![a, a], vec![Some(first), Some(second)]);
    assert_eq!(found.len(), 1);
    assert_eq!(found.get(&a), Some(&Mint { supply: 2, decimals: 0, extensions: vec![] }));
    assert_eq!(cache.lookup(&a), Some(Mint { supply: 2, decimals: 0, extensions: vec![] }));
}

#[test]
fn merge_fetched_ignores_positions_without_a_partner() {
    let (a, b) = (addr(1), addr(2));
    let value = Mint { supply: 1, decimals: 0, extensions: vec![] };
    let mut cache: AccountCache<Mint> = AccountCache::new();
    let found = merge_fetched(
        &mut cache,
        AddressMap::new(),
        &vec![a],
        vec![Some(value.duplicate()), Some(value.duplicate())],
    );
    assert_eq!(found.len(), 1);
    assert_eq!(found.get(&a), Some(&value));
    let mut cache: AccountCache<Mint> = AccountCache::new();
    let found = merge_fetched(&mut cache, AddressMap::new(), &vec![a, b], vec![Some(value)]);
    assert_eq!(found.len(), 1);
    assert!(found.contains_key(&a));
    assert!(!cache.contains(&b));
}
