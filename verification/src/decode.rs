//! Decoded token accounts and mints, and their decoding from raw account data.

use crate::address::Address;
#[allow(deprecated)]
use spl_token_2022::extension::{BaseStateWithExtensions, StateWithExtensionsOwned};
#[allow(deprecated)]
use spl_token_2022::state::{Account, Mint as PackedMint};
use vstd::prelude::*;

verus! {

/// A decoded token account.
#[derive(Debug, PartialEq, Eq)]
pub struct TokenAccount {
    /// The mint whose tokens the account holds.
    pub mint: Address,
    /// The owner of the account.
    pub owner: Address,
    /// The balance of the account.
    pub amount: u64,
    /// The extension data that follows the base account, not decoded further.
    pub extensions: Vec<u8>,
}

/// What a [`TokenAccount`] holds.
pub struct TokenAccountView {
    pub mint: Address,
    pub owner: Address,
    pub amount: u64,
    pub extensions: Seq<u8>,
}

impl View for TokenAccount {
    type V = TokenAccountView;

    open spec fn view(&self) -> TokenAccountView {
        TokenAccountView {
            mint: self.mint,
            owner: self.owner,
            amount: self.amount,
            extensions: self.extensions@,
        }
    }
}

/// A decoded mint.
#[derive(Debug, PartialEq, Eq)]
pub struct Mint {
    /// The number of tokens in existence.
    pub supply: u64,
    /// The number of decimal places of an amount.
    pub decimals: u8,
    /// The extension data that follows the base mint, not decoded further.
    pub extensions: Vec<u8>,
}

/// What a [`Mint`] holds.
pub struct MintView {
    pub supply: u64,
    pub decimals: u8,
    pub extensions: Seq<u8>,
}

impl View for Mint {
    type V = MintView;

    open spec fn view(&self) -> MintView {
        MintView { supply: self.supply, decimals: self.decimals, extensions: self.extensions@ }
    }
}

/// The token account that the token program's unpacking reads from raw
/// account data, or `None` where it rejects the data.
pub uninterp spec fn unpacked_token_account(raw: Seq<u8>) -> Option<TokenAccountView>;

/// The mint that the token program's unpacking reads from raw account data,
/// or `None` where it rejects the data.
pub uninterp spec fn unpacked_mint(raw: Seq<u8>) -> Option<MintView>;

/// Unpacks raw account data as a token account with
/// `spl_token_2022::extension::StateWithExtensionsOwned::<Account>::unpack`.
///
/// Trusted: the result is the unpacked account's mint, owner, amount and
/// extension data, which depend on the data alone and are named
/// [`unpacked_token_account`]; it is `None` exactly where `unpack` fails.
#[verifier::external_body]
fn unpack_token_account(raw: &Vec<u8>) -> (account: Option<TokenAccount>)
    ensures
        match account {
            Some(a) => unpacked_token_account(raw@) == Some(a@),
            None => unpacked_token_account(raw@) is None,
        },
{
    match StateWithExtensionsOwned::<Account>::unpack(raw.clone()) {
        Ok(state) => Some(
            TokenAccount {
                mint: Address { bytes: state.base.mint.to_bytes() },
                owner: Address { bytes: state.base.owner.to_bytes() },
                amount: state.base.amount,
                extensions: state.get_tlv_data().to_vec(),
            },
        ),
        Err(_) => None,
    }
}

/// Unpacks raw account data as a mint with
/// `spl_token_2022::extension::StateWithExtensionsOwned::<Mint>::unpack`.
///
/// Trusted: the result is the unpacked mint's supply, decimals and extension
/// data, which depend on the data alone and are named [`unpacked_mint`]; it
/// is `None` exactly where `unpack` fails.
#[verifier::external_body]
fn unpack_mint(raw: &Vec<u8>) -> (mint: Option<Mint>)
    ensures
        match mint {
            Some(m) => unpacked_mint(raw@) == Some(m@),
            None => unpacked_mint(raw@) is None,
        },
{
    match StateWithExtensionsOwned::<PackedMint>::unpack(raw.clone()) {
        Ok(state) => Some(
            Mint {
                supply: state.base.supply,
                decimals: state.base.decimals,
                extensions: state.get_tlv_data().to_vec(),
            },
        ),
        Err(_) => None,
    }
}

/// The view of an optional value.
pub open spec fn option_view<T: View>(value: Option<T>) -> Option<T::V> {
    match value {
        Some(v) => Some(v@),
        None => None,
    }
}

/// An unpacked token account, kept only where it belongs to the given mint.
pub open spec fn scoped_to_mint(account: Option<TokenAccountView>, mint: Address) -> Option<
    TokenAccountView,
> {
    match account {
        Some(a) => if a.mint == mint {
            Some(a)
        } else {
            None
        },
        None => None,
    }
}

/// Keeps an unpacked token account only where it belongs to the given mint.
pub fn scope_to_mint(account: Option<TokenAccount>, mint: &Address) -> (scoped: Option<TokenAccount>)
    ensures
        scoped == match account {
            Some(a) => if a.mint == *mint {
                account
            } else {
                None
            },
            None => None,
        },
        option_view(scoped) == scoped_to_mint(option_view(account), *mint),
{
    match account {
        Some(a) => if a.mint == *mint {
            Some(a)
        } else {
            None
        },
        None => None,
    }
}

/// A value that is decoded from the raw data of an account and kept in a
/// cache.
pub trait Decoded: View + Sized {
    /// What a decoding is scoped to.
    type Scope;

    /// The value that raw account data decodes to in the given scope, or
    /// `None` where the data does not decode.
    spec fn decoded(raw: Seq<u8>, scope: Self::Scope) -> Option<Self::V>;

    /// Decodes raw account data in the given scope.
    fn decode(raw: &Vec<u8>, scope: &Self::Scope) -> (value: Option<Self>)
        ensures
            option_view(value) == Self::decoded(raw@, *scope),
    ;

    /// A copy of the value.
    fn duplicate(&self) -> (copy: Self)
        ensures
            copy@ == self@,
    ;
}

impl Decoded for TokenAccount {
    /// The mint that the account must belong to.
    type Scope = Address;

    open spec fn decoded(raw: Seq<u8>, scope: Address) -> Option<TokenAccountView> {
        scoped_to_mint(unpacked_token_account(raw), scope)
    }

    fn decode(raw: &Vec<u8>, scope: &Address) -> (value: Option<TokenAccount>) {
        scope_to_mint(unpack_token_account(raw), scope)
    }

    fn duplicate(&self) -> (copy: TokenAccount) {
        TokenAccount {
            mint: self.mint,
            owner: self.owner,
            amount: self.amount,
            extensions: self.extensions.clone(),
        }
    }
}

impl Decoded for Mint {
    type Scope = ();

    open spec fn decoded(raw: Seq<u8>, scope: ()) -> Option<MintView> {
        unpacked_mint(raw)
    }

    fn decode(raw: &Vec<u8>, scope: &()) -> (value: Option<Mint>) {
        unpack_mint(raw)
    }

    fn duplicate(&self) -> (copy: Mint) {
        Mint {
            supply: self.supply,
            decimals: self.decimals,
            extensions: self.extensions.clone(),
        }
    }
}

} // verus!
