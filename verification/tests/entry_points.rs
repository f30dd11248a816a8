//! The entry points on an environment of their own: answers, stored entries
//! and the journal.

use swiftramp_swap::env::SwapEvent;
use swiftramp_swap::footprint;
use swiftramp_swap::rates::exchange;
use swiftramp_swap::storage::Storage;
use swiftramp_swap::types::{is_zero_commitment, same_commitment};
use swiftramp_swap::{
    Address, DataKey, Effect, Env, SwapError, SwiftRampSwap, Symbol, Value, RATE_SCALE,
};

fn admin() -> Address {
    Address::new("ADMIN")
}

fn at(name: &str) -> Address {
    Address::new(name)
}

fn sym(name: &str) -> Symbol {
    Symbol::new(name)
}

/// A contract with an admin, tokens for USD and NGN, and 1 USD at 1580 NGN.
fn ready() -> Env {
    let mut env = Env::new(at("CONTRACT"));
    SwiftRampSwap::initialize(&mut env, admin()).unwrap();
    SwiftRampSwap::set_currency_token(&mut env, admin(), sym("USD"), at("USD-TOKEN")).unwrap();
    SwiftRampSwap::set_currency_token(&mut env, admin(), sym("NGN"), at("NGN-TOKEN")).unwrap();
    SwiftRampSwap::set_rate(&mut env, admin(), sym("USD"), RATE_SCALE).unwrap();
    SwiftRampSwap::set_rate(&mut env, admin(), sym("NGN"), 1580 * RATE_SCALE).unwrap();
    env
}

fn swap(env: &mut Env, to: &str, amount: i128, floor: i128, mark: u8) -> Result<i128, SwapError> {
    SwiftRampSwap::swap(
        env,
        at("SENDER"),
        at("RECIPIENT"),
        sym("USD"),
        sym(to),
        amount,
        floor,
        [mark; 32],
    )
}

fn is_auth(effect: &Effect, who: &str) -> bool {
    matches!(effect, Effect::RequireAuth(address) if *address == at(who))
}

fn is_transfer(effect: &Effect, token: &str, from: &str, to: &str, amount: i128) -> bool {
    match effect {
        Effect::Transfer { token: t, from: f, to: r, amount: a } => {
            *t == at(token) && *f == at(from) && *r == at(to) && *a == amount
        }
        _ => false,
    }
}

// ---------------------------------------------------------------
// Initialization and the admin
// ---------------------------------------------------------------

#[test]
fn initialize_asks_for_authorization_and_stores_the_admin() {
    let mut env = Env::new(at("CONTRACT"));
    assert!(!env.has_instance(&DataKey::Admin));
    assert_eq!(SwiftRampSwap::initialize(&mut env, admin()), Ok(()));
    assert_eq!(env.get_instance(&DataKey::Admin), Some(Value::Address(admin())));
    assert_eq!(env.journal().len(), 2);
    assert!(is_auth(&env.journal()[0], "ADMIN"));
    assert!(matches!(
        &env.journal()[1],
        Effect::SetInstance(DataKey::Admin, Value::Address(a)) if *a == admin()
    ));
}

#[test]
fn a_second_initialize_changes_nothing() {
    let mut env = ready();
    let before = env.journal().len();
    assert_eq!(
        SwiftRampSwap::initialize(&mut env, at("OTHER")),
        Err(SwapError::AlreadyInitialized)
    );
    assert_eq!(env.journal().len(), before);
    assert_eq!(env.get_instance(&DataKey::Admin), Some(Value::Address(admin())));
}

#[test]
fn admin_calls_before_initialization_are_refused() {
    let mut env = Env::new(at("CONTRACT"));
    assert_eq!(
        SwiftRampSwap::set_rate(&mut env, admin(), sym("USD"), 1),
        Err(SwapError::NotInitialized)
    );
    assert_eq!(
        SwiftRampSwap::set_currency_token(&mut env, admin(), sym("USD"), at("T")),
        Err(SwapError::NotInitialized)
    );
    assert_eq!(
        SwiftRampSwap::fund_liquidity(&mut env, admin(), sym("USD"), 1),
        Err(SwapError::NotInitialized)
    );
    assert!(env.journal().is_empty());
}

#[test]
fn an_impostor_is_asked_for_nothing() {
    let mut env = ready();
    let before = env.journal().len();
    assert_eq!(
        SwiftRampSwap::set_rate(&mut env, at("IMPOSTOR"), sym("USD"), 0),
        Err(SwapError::NotAdmin)
    );
    assert_eq!(env.journal().len(), before);
}

#[test]
fn a_bad_rate_is_refused_after_the_admin_is_asked() {
    let mut env = ready();
    let before = env.journal().len();
    assert_eq!(
        SwiftRampSwap::set_rate(&mut env, admin(), sym("USD"), 0),
        Err(SwapError::ZeroAmount)
    );
    assert_eq!(env.journal().len(), before + 1);
    assert!(is_auth(&env.journal()[before], "ADMIN"));
    assert_eq!(SwiftRampSwap::get_rate(&env, sym("USD")), Ok(RATE_SCALE));
}

// ---------------------------------------------------------------
// Rates, tokens and quotes
// ---------------------------------------------------------------

#[test]
fn a_published_rate_is_read_back() {
    let mut env = ready();
    SwiftRampSwap::set_rate(&mut env, admin(), sym("KES"), 129 * RATE_SCALE).unwrap();
    assert_eq!(SwiftRampSwap::get_rate(&env, sym("KES")), Ok(129 * RATE_SCALE));
    SwiftRampSwap::set_rate(&mut env, admin(), sym("KES"), 130 * RATE_SCALE).unwrap();
    assert_eq!(SwiftRampSwap::get_rate(&env, sym("KES")), Ok(130 * RATE_SCALE));
    assert_eq!(SwiftRampSwap::get_rate(&env, sym("USD")), Ok(RATE_SCALE));
    assert_eq!(SwiftRampSwap::get_rate(&env, sym("kes")), Err(SwapError::UnknownCurrency));
}

#[test]
fn a_registered_token_replaces_the_one_before() {
    let mut env = ready();
    let key = DataKey::LiquidityToken(sym("USD"));
    assert_eq!(env.get_instance(&key), Some(Value::Address(at("USD-TOKEN"))));
    SwiftRampSwap::set_currency_token(&mut env, admin(), sym("USD"), at("NEW-TOKEN")).unwrap();
    assert_eq!(env.get_instance(&key), Some(Value::Address(at("NEW-TOKEN"))));
    assert_eq!(
        env.get_instance(&DataKey::LiquidityToken(sym("NGN"))),
        Some(Value::Address(at("NGN-TOKEN")))
    );
}

#[test]
fn one_dollar_is_1580_naira() {
    let env = ready();
    let quoted = SwiftRampSwap::quote(&env, sym("USD"), sym("NGN"), RATE_SCALE);
    assert_eq!(quoted, Ok(1580 * RATE_SCALE));
    let back = SwiftRampSwap::quote(&env, sym("NGN"), sym("USD"), 1580 * RATE_SCALE);
    assert_eq!(back, Ok(RATE_SCALE));
}

#[test]
fn quotes_round_toward_zero() {
    let env = ready();
    assert_eq!(SwiftRampSwap::quote(&env, sym("NGN"), sym("USD"), 1579), Ok(0));
    assert_eq!(SwiftRampSwap::quote(&env, sym("NGN"), sym("USD"), 3161), Ok(2));
    assert_eq!(SwiftRampSwap::quote(&env, sym("NGN"), sym("USD"), -3161), Ok(-2));
    assert_eq!(SwiftRampSwap::quote(&env, sym("NGN"), sym("USD"), 0), Ok(0));
    assert_eq!(exchange(-7, 2, 1), Ok(-3));
    assert_eq!(exchange(7, 2, 1), Ok(3));
    assert_eq!(exchange(i128::MIN, 1, 1), Ok(i128::MIN));
    assert_eq!(exchange(i128::MAX, 2, 1), Ok(i128::MAX / 2));
}

#[test]
fn quotes_there_and_back_never_gain() {
    let env = ready();
    for amount in 0..5000i128 {
        let out = SwiftRampSwap::quote(&env, sym("NGN"), sym("USD"), amount).unwrap();
        let back = SwiftRampSwap::quote(&env, sym("USD"), sym("NGN"), out).unwrap();
        assert!(back <= amount);
        assert_eq!(SwiftRampSwap::quote(&env, sym("NGN"), sym("NGN"), amount), Ok(amount));
    }
}

#[test]
fn the_way_back_loses_less_than_the_two_rates() {
    for amount in 0..2000i128 {
        let worth = exchange(amount, 7, 3).unwrap();
        let back = exchange(worth, 3, 7).unwrap();
        assert!(0 <= back && back <= amount);
        assert!((amount - back) * 3 < 7 + 3);
        if amount * 3 % 7 == 0 {
            assert_eq!(back, amount);
        }
    }
    assert_eq!(exchange(exchange(13, 7, 3).unwrap(), 3, 7), Ok(11));
    assert_eq!(exchange(exchange(14, 7, 3).unwrap(), 3, 7), Ok(14));
}

#[test]
fn splitting_an_amount_loses_at_most_one_unit() {
    for one in 0..100i128 {
        for other in 0..100i128 {
            let parts = exchange(one, 7, 3).unwrap() + exchange(other, 7, 3).unwrap();
            let whole = exchange(one + other, 7, 3).unwrap();
            assert!(parts <= whole && whole <= parts + 1);
        }
    }
    assert_eq!(exchange(2, 7, 3), Ok(0));
    assert_eq!(exchange(4, 7, 3), Ok(1));
}

#[test]
fn a_way_round_never_beats_the_direct_exchange() {
    for amount in 0..2000i128 {
        let routed = exchange(exchange(amount, 7, 2).unwrap(), 2, 5).unwrap();
        assert!(routed <= exchange(amount, 7, 5).unwrap());
    }
    assert_eq!(exchange(exchange(3, 7, 2).unwrap(), 2, 5), Ok(0));
    assert_eq!(exchange(3, 7, 5), Ok(2));
}

#[test]
fn rates_scaled_by_one_factor_give_the_same_quote() {
    for amount in -500..500i128 {
        assert_eq!(exchange(amount, 7 * 11, 3 * 11), exchange(amount, 7, 3));
    }
    let mut env = ready();
    let before = SwiftRampSwap::quote(&env, sym("NGN"), sym("USD"), 123_457);
    SwiftRampSwap::set_rate(&mut env, admin(), sym("USD"), 3 * RATE_SCALE).unwrap();
    SwiftRampSwap::set_rate(&mut env, admin(), sym("NGN"), 3 * 1580 * RATE_SCALE).unwrap();
    assert_eq!(SwiftRampSwap::quote(&env, sym("NGN"), sym("USD"), 123_457), before);
    assert_eq!(before, Ok(78));
}

#[test]
fn the_latest_rate_and_token_count() {
    let mut env = ready();
    for rate in [5, 9, 2i128] {
        SwiftRampSwap::set_rate(&mut env, admin(), sym("NGN"), rate * RATE_SCALE).unwrap();
    }
    assert_eq!(
        SwiftRampSwap::set_rate(&mut env, at("IMPOSTOR"), sym("NGN"), 7),
        Err(SwapError::NotAdmin)
    );
    assert_eq!(
        SwiftRampSwap::set_rate(&mut env, admin(), sym("NGN"), -7),
        Err(SwapError::ZeroAmount)
    );
    SwiftRampSwap::set_currency_token(&mut env, admin(), sym("NGN"), at("SECOND")).unwrap();
    SwiftRampSwap::set_currency_token(&mut env, admin(), sym("NGN"), at("THIRD")).unwrap();
    assert_eq!(SwiftRampSwap::get_rate(&env, sym("NGN")), Ok(2 * RATE_SCALE));
    assert_eq!(SwiftRampSwap::get_rate(&env, sym("EUR")), Err(SwapError::UnknownCurrency));

    assert_eq!(swap(&mut env, "NGN", 10, 0, 0), Ok(20));
    let n = env.journal().len();
    assert!(is_transfer(&env.journal()[n - 3], "USD-TOKEN", "SENDER", "CONTRACT", 10));
    assert!(is_transfer(&env.journal()[n - 2], "THIRD", "CONTRACT", "RECIPIENT", 20));
    SwiftRampSwap::fund_liquidity(&mut env, admin(), sym("NGN"), 4).unwrap();
    let n = env.journal().len();
    assert!(is_transfer(&env.journal()[n - 1], "THIRD", "ADMIN", "CONTRACT", 4));
}

#[test]
fn admin_calls_turn_one_caller_away_alike() {
    for caller in ["ADMIN", "IMPOSTOR"] {
        for set_up in [false, true] {
            let fresh = || if set_up { ready() } else { Env::new(at("CONTRACT")) };
            let stop = match (set_up, caller) {
                (false, _) => Some(SwapError::NotInitialized),
                (true, "ADMIN") => None,
                _ => Some(SwapError::NotAdmin),
            };
            let rate = SwiftRampSwap::set_rate(&mut fresh(), at(caller), sym("USD"), 1);
            let token =
                SwiftRampSwap::set_currency_token(&mut fresh(), at(caller), sym("USD"), at("T"));
            let fund = SwiftRampSwap::fund_liquidity(&mut fresh(), at(caller), sym("USD"), 1);
            assert_eq!(rate.err(), stop);
            assert_eq!(token.err(), stop);
            assert_eq!(fund.err(), stop);
        }
    }
}

#[test]
fn larger_amounts_are_worth_no_less() {
    let mut last = exchange(-1000, 7, 3).unwrap();
    for amount in -999..1000i128 {
        let worth = exchange(amount, 7, 3).unwrap();
        assert!(worth >= last);
        last = worth;
    }
}

#[test]
fn a_product_out_of_range_is_an_error() {
    let mut env = ready();
    let limit = i128::MAX / (1580 * RATE_SCALE);
    assert!(SwiftRampSwap::quote(&env, sym("USD"), sym("NGN"), limit).is_ok());
    assert_eq!(
        SwiftRampSwap::quote(&env, sym("USD"), sym("NGN"), limit + 1),
        Err(SwapError::AmountOverflow)
    );
    assert_eq!(
        SwiftRampSwap::quote(&env, sym("USD"), sym("NGN"), i128::MIN),
        Err(SwapError::AmountOverflow)
    );
    assert_eq!(swap(&mut env, "NGN", i128::MAX, 0, 0), Err(SwapError::AmountOverflow));
}

#[test]
fn a_quote_needs_both_rates() {
    let env = ready();
    assert_eq!(
        SwiftRampSwap::quote(&env, sym("ZWL"), sym("USD"), 1),
        Err(SwapError::UnknownCurrency)
    );
    assert_eq!(
        SwiftRampSwap::quote(&env, sym("USD"), sym("ZWL"), 1),
        Err(SwapError::UnknownCurrency)
    );
}

// ---------------------------------------------------------------
// Swaps
// ---------------------------------------------------------------

#[test]
fn an_accepted_swap_asks_for_authorization_mark_transfers_and_event() {
    let mut env = ready();
    let before = env.journal().len();
    assert_eq!(swap(&mut env, "NGN", 100, 158_000, 7), Ok(158_000));

    let asked = &env.journal()[before..];
    assert_eq!(asked.len(), 5);
    assert!(is_auth(&asked[0], "SENDER"));
    assert!(matches!(
        &asked[1],
        Effect::SetPersistent(DataKey::Commitment(c), Value::Flag(true)) if *c == [7u8; 32]
    ));
    assert!(is_transfer(&asked[2], "USD-TOKEN", "SENDER", "CONTRACT", 100));
    assert!(is_transfer(&asked[3], "NGN-TOKEN", "CONTRACT", "RECIPIENT", 158_000));
    match &asked[4] {
        Effect::Publish(SwapEvent {
            topic,
            from_currency,
            to_currency,
            sender,
            recipient,
            receive_amount,
            commitment,
        }) => {
            assert_eq!(*topic, sym("swap"));
            assert_eq!(*from_currency, sym("USD"));
            assert_eq!(*to_currency, sym("NGN"));
            assert_eq!(*sender, at("SENDER"));
            assert_eq!(*recipient, at("RECIPIENT"));
            assert_eq!(*receive_amount, 158_000);
            assert_eq!(*commitment, [7u8; 32]);
        }
        other => panic!("not an event: {other:?}"),
    }
    assert!(env.has_persistent(&DataKey::Commitment([7u8; 32])));
}

#[test]
fn a_swap_without_commitment_marks_nothing() {
    let mut env = ready();
    let before = env.journal().len();
    assert_eq!(swap(&mut env, "NGN", 100, 0, 0), Ok(158_000));
    assert_eq!(swap(&mut env, "NGN", 100, 0, 0), Ok(158_000));
    assert_eq!(env.journal().len(), before + 8);
    assert!(!env.has_persistent(&DataKey::Commitment([0u8; 32])));
}

#[test]
fn the_reasons_for_refusal_are_looked_for_in_order() {
    let mut env = ready();
    assert_eq!(swap(&mut env, "ZWL", 0, 1, 7), Err(SwapError::ZeroAmount));
    assert_eq!(swap(&mut env, "ZWL", 1, 9999, 7), Err(SwapError::UnknownCurrency));
    assert_eq!(swap(&mut env, "NGN", 1, 1580, 7), Ok(1580));
    assert_eq!(swap(&mut env, "NGN", 1, 1581, 7), Err(SwapError::SlippageExceeded));
    SwiftRampSwap::set_rate(&mut env, admin(), sym("GBP"), RATE_SCALE).unwrap();
    assert_eq!(swap(&mut env, "GBP", 1, 0, 7), Err(SwapError::CommitmentAlreadyUsed));
    assert_eq!(swap(&mut env, "GBP", 1, 0, 8), Err(SwapError::UnknownCurrency));
}

#[test]
fn a_refused_swap_asks_for_authorization_alone() {
    let mut env = ready();
    let before = env.journal().len();
    assert_eq!(swap(&mut env, "NGN", -1, 0, 7), Err(SwapError::ZeroAmount));
    assert_eq!(env.journal().len(), before + 1);
    assert!(is_auth(&env.journal()[before], "SENDER"));
    assert!(!env.has_persistent(&DataKey::Commitment([7u8; 32])));
}

#[test]
fn a_commitment_serves_one_swap_whatever_comes_between() {
    let mut env = ready();
    assert_eq!(swap(&mut env, "NGN", 100, 0, 7), Ok(158_000));
    SwiftRampSwap::set_rate(&mut env, admin(), sym("NGN"), 2 * RATE_SCALE).unwrap();
    assert_eq!(swap(&mut env, "NGN", 100, 0, 8), Ok(200));
    SwiftRampSwap::fund_liquidity(&mut env, admin(), sym("USD"), 5).unwrap();
    assert_eq!(swap(&mut env, "NGN", 1, 0, 7), Err(SwapError::CommitmentAlreadyUsed));
}

#[test]
fn a_fresh_commitment_is_never_refused_as_used() {
    let mut env = ready();
    for mark in 1..20u8 {
        assert_eq!(swap(&mut env, "NGN", 0, 0, mark), Err(SwapError::ZeroAmount));
        assert_eq!(swap(&mut env, "NGN", 1, 1581, mark), Err(SwapError::SlippageExceeded));
        assert!(!env.has_persistent(&DataKey::Commitment([mark; 32])));
        assert_eq!(swap(&mut env, "NGN", 1, 0, mark), Ok(1580));
        assert_eq!(swap(&mut env, "NGN", 1, 0, mark), Err(SwapError::CommitmentAlreadyUsed));
    }
}

#[test]
fn the_parties_do_not_change_the_payout() {
    let mut env = ready();
    let one = SwiftRampSwap::swap(
        &mut env,
        at("A"),
        at("A"),
        sym("USD"),
        sym("NGN"),
        3,
        0,
        [0u8; 32],
    );
    assert_eq!(one, swap(&mut env, "NGN", 3, 0, 0));
    assert_eq!(one, Ok(4740));
}

// ---------------------------------------------------------------
// Funding
// ---------------------------------------------------------------

#[test]
fn funding_asks_for_authorization_and_a_transfer() {
    let mut env = ready();
    let before = env.journal().len();
    assert_eq!(SwiftRampSwap::fund_liquidity(&mut env, admin(), sym("USD"), 500), Ok(()));
    let asked = &env.journal()[before..];
    assert_eq!(asked.len(), 2);
    assert!(is_auth(&asked[0], "ADMIN"));
    assert!(is_transfer(&asked[1], "USD-TOKEN", "ADMIN", "CONTRACT", 500));
}

#[test]
fn funding_needs_a_token() {
    let mut env = ready();
    let before = env.journal().len();
    assert_eq!(
        SwiftRampSwap::fund_liquidity(&mut env, admin(), sym("GBP"), 500),
        Err(SwapError::UnknownCurrency)
    );
    assert_eq!(env.journal().len(), before + 1);
}

// ---------------------------------------------------------------
// Stored entries
// ---------------------------------------------------------------

#[test]
fn restored_entries_are_read_and_leave_no_record() {
    let mut env = Env::new(at("CONTRACT"));
    assert_eq!(env.current_contract_address(), at("CONTRACT"));
    assert!(env.restore(DataKey::Admin, Value::Address(admin())));
    assert!(env.restore(DataKey::Rate(sym("USD")), Value::Rate(3)));
    assert!(env.restore(DataKey::LiquidityToken(sym("USD")), Value::Address(at("T"))));
    assert!(env.restore(DataKey::Commitment([7u8; 32]), Value::Flag(true)));
    assert!(env.journal().is_empty());
    assert_eq!(SwiftRampSwap::get_rate(&env, sym("USD")), Ok(3));
    assert_eq!(SwiftRampSwap::initialize(&mut env, admin()), Err(SwapError::AlreadyInitialized));
    assert_eq!(swap(&mut env, "USD", 5, 0, 7), Err(SwapError::CommitmentAlreadyUsed));
    assert_eq!(swap(&mut env, "USD", 5, 0, 8), Ok(5));
}

#[test]
fn entries_that_do_not_fit_are_not_taken() {
    let mut env = Env::new(at("CONTRACT"));
    assert!(!env.restore(DataKey::Admin, Value::Rate(1)));
    assert!(!env.restore(DataKey::Rate(sym("USD")), Value::Rate(0)));
    assert!(!env.restore(DataKey::Rate(sym("USD")), Value::Flag(true)));
    assert!(!env.restore(DataKey::LiquidityToken(sym("USD")), Value::Flag(true)));
    assert!(!env.restore(DataKey::Commitment([7u8; 32]), Value::Flag(false)));
    assert!(!env.has_instance(&DataKey::Admin));
    assert!(!env.has_instance(&DataKey::Rate(sym("USD"))));
    assert!(!env.has_persistent(&DataKey::Commitment([7u8; 32])));
}

/// The entries under the keys of a call are enough for it.
#[test]
fn a_call_needs_only_the_entries_that_it_reads() {
    let mut full = ready();
    full.restore(DataKey::Commitment([9u8; 32]), Value::Flag(true));
    let mut part = Env::new(at("CONTRACT"));
    for key in footprint::swap_keys(&sym("USD"), &sym("NGN"), &[7u8; 32]) {
        if let Some(value) = full.get_instance(&key) {
            assert!(part.restore(key, value));
        }
    }
    let before = full.journal().len();
    assert_eq!(swap(&mut full, "NGN", 11, 0, 7), swap(&mut part, "NGN", 11, 0, 7));
    let asked = format!("{:?}", &full.journal()[before..]);
    assert_eq!(asked, format!("{:?}", &part.journal()[..]));
}

#[test]
fn footprints_name_the_keys() {
    assert_eq!(footprint::admin_keys(), vec![DataKey::Admin]);
    assert_eq!(footprint::rate_keys(&sym("USD")), vec![DataKey::Rate(sym("USD"))]);
    assert_eq!(
        footprint::quote_keys(&sym("USD"), &sym("NGN")),
        vec![DataKey::Rate(sym("USD")), DataKey::Rate(sym("NGN"))]
    );
    assert_eq!(
        footprint::fund_keys(&sym("USD")),
        vec![DataKey::Admin, DataKey::LiquidityToken(sym("USD"))]
    );
    let keys = footprint::swap_keys(&sym("USD"), &sym("NGN"), &[1u8; 32]);
    assert_eq!(keys.len(), 5);
    assert!(keys.contains(&DataKey::Commitment([1u8; 32])));
    assert!(keys.contains(&DataKey::LiquidityToken(sym("NGN"))));
    let keys = footprint::swap_keys(&sym("USD"), &sym("NGN"), &[0u8; 32]);
    assert_eq!(keys.len(), 4);
    assert!(!keys.contains(&DataKey::Commitment([0u8; 32])));
}

/// Carrying out the writes of the journal gives the stored entries.
#[test]
fn the_journal_accounts_for_the_stored_entries() {
    let mut env = ready();
    swap(&mut env, "NGN", 1, 0, 7).unwrap();
    let mut instance = Storage::new();
    let mut persistent = Storage::new();
    for effect in env.journal() {
        match effect {
            Effect::SetInstance(key, value) => instance.set(key.clone(), value.clone()),
            Effect::SetPersistent(key, value) => persistent.set(key.clone(), value.clone()),
            _ => {}
        }
    }
    for code in ["USD", "NGN", "ZWL"] {
        for key in [DataKey::Rate(sym(code)), DataKey::LiquidityToken(sym(code))] {
            assert_eq!(instance.get(&key), env.get_instance(&key));
        }
    }
    assert_eq!(instance.get(&DataKey::Admin), env.get_instance(&DataKey::Admin));
    for mark in 0..9u8 {
        let key = DataKey::Commitment([mark; 32]);
        assert_eq!(persistent.has(&key), env.has_persistent(&key));
    }
}

#[test]
fn a_storage_keeps_one_value_for_each_key() {
    let mut storage = Storage::new();
    assert_eq!(storage.get(&DataKey::Admin), None);
    storage.set(DataKey::Rate(sym("USD")), Value::Rate(1));
    storage.set(DataKey::LiquidityToken(sym("USD")), Value::Address(at("T")));
    storage.set(DataKey::Rate(sym("USD")), Value::Rate(2));
    assert_eq!(storage.get(&DataKey::Rate(sym("USD"))), Some(Value::Rate(2)));
    assert_eq!(
        storage.get(&DataKey::LiquidityToken(sym("USD"))),
        Some(Value::Address(at("T")))
    );
    assert!(!storage.has(&DataKey::Rate(sym("NGN"))));
}

#[test]
fn commitments_are_compared_byte_by_byte() {
    let mut one = [0u8; 32];
    assert!(is_zero_commitment(&one));
    one[31] = 1;
    assert!(!is_zero_commitment(&one));
    assert!(!same_commitment(&one, &[0u8; 32]));
    assert!(same_commitment(&one, &one));
}

#[test]
fn errors_have_codes_of_their_own() {
    let errors = [
        SwapError::NotInitialized,
        SwapError::AlreadyInitialized,
        SwapError::NotAdmin,
        SwapError::UnknownCurrency,
        SwapError::SlippageExceeded,
        SwapError::ZeroAmount,
        SwapError::CommitmentAlreadyUsed,
        SwapError::AmountOverflow,
    ];
    for (i, error) in errors.iter().enumerate() {
        assert_eq!(error.code(), i as u32 + 1);
    }
}
