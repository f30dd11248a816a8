//! The stored entries that decide what a call does. A host that brings these
//! into the [`Env`](crate::env::Env) of a call need bring no others.

use vstd::prelude::*;

use crate::storage::{DataKey, DataKeyView};
use crate::types::{is_zero_commitment, zero_commitment, Symbol};

verus! {

/// Whether a list of keys names a key.
pub open spec fn lists(keys: Seq<DataKey>, key: DataKeyView) -> bool {
    exists|i: int| 0 <= i < keys.len() && (#[trigger] keys[i])@ == key
}

/// `initialize`, `set_currency_token` and `set_rate` read the admin.
pub open spec fn admin_reads(key: DataKeyView) -> bool {
    key == DataKeyView::Admin
}

/// `get_rate` reads the rate of its currency.
pub open spec fn rate_reads(currency: Seq<char>, key: DataKeyView) -> bool {
    key == DataKeyView::Rate(currency)
}

/// `quote` reads the two rates.
pub open spec fn quote_reads(
    from_currency: Seq<char>,
    to_currency: Seq<char>,
    key: DataKeyView,
) -> bool {
    ||| key == DataKeyView::Rate(from_currency)
    ||| key == DataKeyView::Rate(to_currency)
}

/// `swap` reads the two rates, the two tokens and, if it has a commitment, the
/// mark of that.
pub open spec fn swap_reads(
    from_currency: Seq<char>,
    to_currency: Seq<char>,
    commitment: Seq<u8>,
    key: DataKeyView,
) -> bool {
    ||| quote_reads(from_currency, to_currency, key)
    ||| key == DataKeyView::LiquidityToken(from_currency)
    ||| key == DataKeyView::LiquidityToken(to_currency)
    ||| commitment != zero_commitment() && key == DataKeyView::Commitment(commitment)
}

/// `fund_liquidity` reads the admin and the token of its currency.
pub open spec fn fund_reads(currency: Seq<char>, key: DataKeyView) -> bool {
    ||| key == DataKeyView::Admin
    ||| key == DataKeyView::LiquidityToken(currency)
}

/// The keys that `initialize`, `set_currency_token` and `set_rate` read.
pub fn admin_keys() -> (keys: Vec<DataKey>)
    ensures
        forall|key: DataKeyView| #[trigger] lists(keys@, key) == admin_reads(key),
        keys@.len() == 1,
        keys@[0]@ == DataKeyView::Admin,
{
    let mut keys: Vec<DataKey> = Vec::new();
    keys.push(DataKey::Admin);
    assert(keys@[0]@ == DataKeyView::Admin);
    keys
}

/// The key that `get_rate` reads.
pub fn rate_keys(currency: &Symbol) -> (keys: Vec<DataKey>)
    ensures
        forall|key: DataKeyView| #[trigger] lists(keys@, key) == rate_reads(currency@, key),
        keys@.len() == 1,
        keys@[0]@ == DataKeyView::Rate(currency@),
{
    let mut keys: Vec<DataKey> = Vec::new();
    keys.push(DataKey::Rate(currency.clone()));
    assert(keys@[0]@ == DataKeyView::Rate(currency@));
    keys
}

/// The keys that `quote` reads.
pub fn quote_keys(from_currency: &Symbol, to_currency: &Symbol) -> (keys: Vec<DataKey>)
    ensures
        forall|key: DataKeyView| #[trigger]
            lists(keys@, key) == quote_reads(from_currency@, to_currency@, key),
        keys@.len() == 2,
        keys@[0]@ == DataKeyView::Rate(from_currency@),
        keys@[1]@ == DataKeyView::Rate(to_currency@),
{
    let mut keys: Vec<DataKey> = Vec::new();
    keys.push(DataKey::Rate(from_currency.clone()));
    keys.push(DataKey::Rate(to_currency.clone()));
    assert(keys@[0]@ == DataKeyView::Rate(from_currency@));
    assert(keys@[1]@ == DataKeyView::Rate(to_currency@));
    keys
}

/// The keys that `swap` reads.
pub fn swap_keys(from_currency: &Symbol, to_currency: &Symbol, commitment: &[u8; 32]) -> (keys: Vec<
    DataKey,
>)
    ensures
        forall|key: DataKeyView| #[trigger]
            lists(keys@, key) == swap_reads(from_currency@, to_currency@, commitment@, key),
        4 <= keys@.len() <= 5,
        keys@[0]@ == DataKeyView::Rate(from_currency@),
        keys@[1]@ == DataKeyView::Rate(to_currency@),
        keys@[2]@ == DataKeyView::LiquidityToken(from_currency@),
        keys@[3]@ == DataKeyView::LiquidityToken(to_currency@),
        keys@.len() == 4 <==> forall|i: int| 0 <= i < 32 ==> commitment@[i] == 0u8,
        keys@.len() == 5 ==> keys@[4]@ == DataKeyView::Commitment(commitment@),
{
    let mut keys: Vec<DataKey> = Vec::new();
    keys.push(DataKey::Rate(from_currency.clone()));
    keys.push(DataKey::Rate(to_currency.clone()));
    keys.push(DataKey::LiquidityToken(from_currency.clone()));
    keys.push(DataKey::LiquidityToken(to_currency.clone()));
    if !is_zero_commitment(commitment) {
        keys.push(DataKey::Commitment(*commitment));
        assert(keys@[4]@ == DataKeyView::Commitment(commitment@));
    }
    assert(keys@[0]@ == DataKeyView::Rate(from_currency@));
    assert(keys@[1]@ == DataKeyView::Rate(to_currency@));
    assert(keys@[2]@ == DataKeyView::LiquidityToken(from_currency@));
    assert(keys@[3]@ == DataKeyView::LiquidityToken(to_currency@));
    keys
}

/// The keys that `fund_liquidity` reads.
pub fn fund_keys(currency: &Symbol) -> (keys: Vec<DataKey>)
    ensures
        forall|key: DataKeyView| #[trigger] lists(keys@, key) == fund_reads(currency@, key),
        keys@.len() == 2,
        keys@[0]@ == DataKeyView::Admin,
        keys@[1]@ == DataKeyView::LiquidityToken(currency@),
{
    let mut keys: Vec<DataKey> = Vec::new();
    keys.push(DataKey::Admin);
    keys.push(DataKey::LiquidityToken(currency.clone()));
    assert(keys@[0]@ == DataKeyView::Admin);
    assert(keys@[1]@ == DataKeyView::LiquidityToken(currency@));
    keys
}

} // verus!
