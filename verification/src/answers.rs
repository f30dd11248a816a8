//! What each entry point answers, keeps and asks for, told on the stored
//! entries and the journal themselves.

use vstd::prelude::*;
use vstd::std_specs::cmp::PartialEqSpec;

use crate::contract::SwapRequest;
use crate::env::{effects_view, Effect, EffectView, EnvView, SwapEvent, SwapEventView};
use crate::footprint::{admin_reads, fund_reads, quote_reads, rate_reads, swap_reads};
use crate::laws::{
    agree_on, law_calls_depend_only_on_what_they_read, law_quotes_depend_only_on_what_they_read,
    Call,
};
use crate::rates::law_exchange_is_exact;
use crate::storage::{fits, DataKey, DataKeyView, Value, ValueView};
use crate::types::{zero_commitment, Address, SwapError, Symbol, RATE_SCALE};

verus! {

/// A payout, rounded toward zero, is below a floor exactly if the product of
/// the exchange is below that of the floor.
proof fn lemma_floor_on_product(product: int, rate_from: int, payout: int, floor: int)
    requires
        rate_from > 0,
        0 <= product - payout * rate_from < rate_from,
    ensures
        payout < floor <==> product < floor * rate_from,
{
    if payout < floor {
        assert(product < floor * rate_from) by (nonlinear_arith)
            requires
                rate_from > 0,
                payout + 1 <= floor,
                product - payout * rate_from < rate_from,
        ;
    } else {
        assert(product >= floor * rate_from) by (nonlinear_arith)
            requires
                rate_from > 0,
                floor <= payout,
                0 <= product - payout * rate_from,
        ;
    }
}

/// A state is valid exactly if every entry is in its place and of its kind:
/// the admin's and the tokens' addresses and the positive rates with the
/// instance, the marks of commitments in the persistent storage.
pub proof fn law_valid_entries(env: EnvView)
    ensures
        env.valid() <==> {
            &&& forall|key: DataKeyView| #[trigger]
                env.instance.dom().contains(key) ==> match (key, env.instance[key]) {
                    (DataKeyView::Admin, ValueView::Address(_)) => true,
                    (DataKeyView::Rate(_), ValueView::Rate(rate)) => rate > 0,
                    (DataKeyView::LiquidityToken(_), ValueView::Address(_)) => true,
                    _ => false,
                }
            &&& forall|key: DataKeyView| #[trigger]
                env.persistent.dom().contains(key) ==> match (key, env.persistent[key]) {
                    (DataKeyView::Commitment(_), ValueView::Flag(mark)) => mark,
                    _ => false,
                }
        },
{
}

/// The admin, the rates, the tokens and the used commitments are the entries
/// under their keys, as they are stored.
pub proof fn law_lookups_give_the_stored_entries(
    env: EnvView,
    currency: Seq<char>,
    commitment: Seq<u8>,
)
    requires
        env.valid(),
    ensures
        match env.admin() {
            Some(admin) => env.instance.contains_pair(
                DataKeyView::Admin,
                ValueView::Address(admin),
            ),
            None => !env.instance.dom().contains(DataKeyView::Admin),
        },
        match env.rate(currency) {
            Some(rate) => env.instance.contains_pair(
                DataKeyView::Rate(currency),
                ValueView::Rate(rate),
            ),
            None => !env.instance.dom().contains(DataKeyView::Rate(currency)),
        },
        match env.token(currency) {
            Some(token) => env.instance.contains_pair(
                DataKeyView::LiquidityToken(currency),
                ValueView::Address(token),
            ),
            None => !env.instance.dom().contains(DataKeyView::LiquidityToken(currency)),
        },
        env.used(commitment) == env.persistent.dom().contains(DataKeyView::Commitment(commitment)),
{
}

/// An effect is recorded last and leaves the rest of the journal as it was. A
/// write puts its value under its key in its own storage; nothing else
/// changes an entry.
pub proof fn law_effects_are_recorded_and_written(env: EnvView, effect: EffectView)
    ensures
        env.after(effect).contract == env.contract,
        env.after(effect).journal == env.journal + seq![effect],
        env.after(effect).instance == match effect {
            EffectView::SetInstance(key, value) => env.instance.insert(key, value),
            EffectView::SetPersistent(_, _) => env.instance,
            EffectView::RequireAuth(_) => env.instance,
            EffectView::Transfer { .. } => env.instance,
            EffectView::Publish(_) => env.instance,
        },
        env.after(effect).persistent == match effect {
            EffectView::SetPersistent(key, value) => env.persistent.insert(key, value),
            EffectView::SetInstance(_, _) => env.persistent,
            EffectView::RequireAuth(_) => env.persistent,
            EffectView::Transfer { .. } => env.persistent,
            EffectView::Publish(_) => env.persistent,
        },
{
    assert(env.after(effect).journal =~= env.journal + seq![effect]);
}

/// The test of an admin call's caller: without a stored admin it is
/// `NotInitialized`; with one, it is passed exactly by the stored address, and
/// is `NotAdmin` for any other.
pub proof fn law_admin_check_compares_with_the_stored_admin(
    env: EnvView,
    caller: Seq<char>,
    admin: Seq<char>,
)
    ensures
        !env.instance.dom().contains(DataKeyView::Admin) ==> env.admin_check(caller) == Err::<
            (),
            SwapError,
        >(SwapError::NotInitialized),
        env.instance.contains_pair(DataKeyView::Admin, ValueView::Address(admin)) && caller == admin
            ==> env.admin_check(caller) is Ok,
        env.instance.contains_pair(DataKeyView::Admin, ValueView::Address(admin)) && caller != admin
            ==> env.admin_check(caller) == Err::<(), SwapError>(SwapError::NotAdmin),
{
}

/// `initialize` is accepted exactly while no admin is stored. It then asks
/// for the authorization of the one it appoints and stores that address,
/// and nothing else; refused, it changes nothing.
pub proof fn law_initialize_on_the_entries(env: EnvView, admin: Seq<char>)
    ensures
        match env.initialize_result() {
            Ok(_) => {
                &&& !env.instance.dom().contains(DataKeyView::Admin)
                &&& env.after_initialize(admin).instance == env.instance.insert(
                    DataKeyView::Admin,
                    ValueView::Address(admin),
                )
                &&& env.after_initialize(admin).journal == env.journal + seq![
                    EffectView::RequireAuth(admin),
                    EffectView::SetInstance(DataKeyView::Admin, ValueView::Address(admin)),
                ]
            },
            Err(error) => {
                &&& env.instance.dom().contains(DataKeyView::Admin)
                &&& error == SwapError::AlreadyInitialized
                &&& env.after_initialize(admin).instance == env.instance
                &&& env.after_initialize(admin).journal == env.journal
            },
        },
        env.after_initialize(admin).persistent == env.persistent,
        env.after_initialize(admin).contract == env.contract,
{
    if env.initialize_result() is Ok {
        assert(env.after_initialize(admin).journal =~= env.journal + seq![
            EffectView::RequireAuth(admin),
            EffectView::SetInstance(DataKeyView::Admin, ValueView::Address(admin)),
        ]);
    }
}

/// The stored admin's `set_currency_token` is always accepted: it asks for
/// their authorization and stores the token under its currency.
pub proof fn law_set_currency_token_on_the_entries(
    env: EnvView,
    admin: Seq<char>,
    currency: Seq<char>,
    token: Seq<char>,
)
    requires
        env.instance.contains_pair(DataKeyView::Admin, ValueView::Address(admin)),
    ensures
        env.admin_check(admin) is Ok,
        ({
            let after = env.after_set_currency_token(admin, currency, token);
            &&& after.instance == env.instance.insert(
                DataKeyView::LiquidityToken(currency),
                ValueView::Address(token),
            )
            &&& after.persistent == env.persistent
            &&& after.contract == env.contract
            &&& after.journal == env.journal + seq![
                EffectView::RequireAuth(admin),
                EffectView::SetInstance(
                    DataKeyView::LiquidityToken(currency),
                    ValueView::Address(token),
                ),
            ]
        }),
{
    assert(env.after_set_currency_token(admin, currency, token).journal =~= env.journal + seq![
        EffectView::RequireAuth(admin),
        EffectView::SetInstance(DataKeyView::LiquidityToken(currency), ValueView::Address(token)),
    ]);
}

/// The stored admin's `set_rate` is accepted for every positive rate and
/// refused with `ZeroAmount` for every other. It asks for their
/// authorization either way; accepted, it stores the rate under its currency.
pub proof fn law_set_rate_on_the_entries(
    env: EnvView,
    admin: Seq<char>,
    currency: Seq<char>,
    rate: i128,
)
    requires
        env.instance.contains_pair(DataKeyView::Admin, ValueView::Address(admin)),
    ensures
        rate > 0 ==> env.set_rate_result(admin, rate) is Ok,
        rate <= 0 ==> env.set_rate_result(admin, rate) == Err::<(), SwapError>(
            SwapError::ZeroAmount,
        ),
        ({
            let after = env.after_set_rate(admin, currency, rate);
            &&& after.persistent == env.persistent
            &&& after.contract == env.contract
            &&& rate > 0 ==> after.instance == env.instance.insert(
                DataKeyView::Rate(currency),
                ValueView::Rate(rate),
            )
            &&& rate > 0 ==> after.journal == env.journal + seq![
                EffectView::RequireAuth(admin),
                EffectView::SetInstance(DataKeyView::Rate(currency), ValueView::Rate(rate)),
            ]
            &&& rate <= 0 ==> after.instance == env.instance
            &&& rate <= 0 ==> after.journal == env.journal + seq![EffectView::RequireAuth(admin)]
        }),
{
    let after = env.after_set_rate(admin, currency, rate);
    if rate > 0 {
        assert(after.journal =~= env.journal + seq![
            EffectView::RequireAuth(admin),
            EffectView::SetInstance(DataKeyView::Rate(currency), ValueView::Rate(rate)),
        ]);
    } else {
        assert(after.journal =~= env.journal + seq![EffectView::RequireAuth(admin)]);
    }
}

/// The stored admin's `fund_liquidity` is accepted exactly if the currency has
/// a stored token. It asks for their authorization either way; accepted, it
/// asks for the transfer of that amount of that token from them to the
/// contract. No entry changes.
pub proof fn law_fund_liquidity_on_the_entries(
    env: EnvView,
    admin: Seq<char>,
    currency: Seq<char>,
    amount: i128,
    token: Seq<char>,
)
    requires
        env.instance.contains_pair(DataKeyView::Admin, ValueView::Address(admin)),
    ensures
        ({
            let after = env.after_fund_liquidity(admin, currency, amount);
            let key = DataKeyView::LiquidityToken(currency);
            &&& after.instance == env.instance
            &&& after.persistent == env.persistent
            &&& after.contract == env.contract
            &&& env.instance.contains_pair(key, ValueView::Address(token)) ==> {
                &&& env.fund_liquidity_result(admin, currency) is Ok
                &&& after.journal == env.journal + seq![
                    EffectView::RequireAuth(admin),
                    EffectView::Transfer { token, from: admin, to: env.contract, amount },
                ]
            }
            &&& !env.instance.dom().contains(key) ==> {
                &&& env.fund_liquidity_result(admin, currency) == Err::<(), SwapError>(
                    SwapError::UnknownCurrency,
                )
                &&& after.journal == env.journal + seq![EffectView::RequireAuth(admin)]
            }
        }),
{
    let after = env.after_fund_liquidity(admin, currency, amount);
    let key = DataKeyView::LiquidityToken(currency);
    if env.instance.contains_pair(key, ValueView::Address(token)) {
        assert(after.journal =~= env.journal + seq![
            EffectView::RequireAuth(admin),
            EffectView::Transfer { token, from: admin, to: env.contract, amount },
        ]);
    } else if !env.instance.dom().contains(key) {
        assert(after.journal =~= env.journal + seq![EffectView::RequireAuth(admin)]);
    }
}

/// An admin call of anyone but the stored admin is refused with `NotAdmin`,
/// and every one is with `NotInitialized` where none is stored, whatever the
/// other arguments. Nothing is kept or asked for.
pub proof fn law_admin_calls_of_others_on_the_entries(
    env: EnvView,
    caller: Seq<char>,
    currency: Seq<char>,
    token: Seq<char>,
    number: i128,
)
    requires
        env.valid(),
        !env.instance.contains_pair(DataKeyView::Admin, ValueView::Address(caller)),
    ensures
        ({
            let error = if env.instance.dom().contains(DataKeyView::Admin) {
                SwapError::NotAdmin
            } else {
                SwapError::NotInitialized
            };
            &&& env.admin_check(caller) == Err::<(), SwapError>(error)
            &&& env.set_rate_result(caller, number) == Err::<(), SwapError>(error)
            &&& env.fund_liquidity_result(caller, currency) == Err::<(), SwapError>(error)
        }),
        env.after_admin_check(caller) == env,
        env.after_set_currency_token(caller, currency, token) == env,
        env.after_set_rate(caller, currency, number) == env,
        env.after_fund_liquidity(caller, currency, number) == env,
{
}

/// `get_rate` gives the stored rate, and `UnknownCurrency` exactly where none
/// is stored.
pub proof fn law_get_rate_on_the_entries(env: EnvView, currency: Seq<char>, rate: i128)
    requires
        env.valid(),
    ensures
        env.rate_result(currency) == Ok::<i128, SwapError>(rate) <==> env.instance.contains_pair(
            DataKeyView::Rate(currency),
            ValueView::Rate(rate),
        ),
        !env.instance.dom().contains(DataKeyView::Rate(currency)) <==> env.rate_result(currency)
            == Err::<i128, SwapError>(SwapError::UnknownCurrency),
{
}

/// `quote` at stored rates: it is `AmountOverflow` exactly if the amount times
/// the second rate does not fit in 128 bits, and else the quotient of that
/// product by the first rate, short of the exact one by less than a unit, on
/// the side of zero.
pub proof fn law_quote_on_the_entries(
    env: EnvView,
    from_currency: Seq<char>,
    to_currency: Seq<char>,
    amount: i128,
    rate_from: i128,
    rate_to: i128,
)
    requires
        env.valid(),
        env.instance.contains_pair(DataKeyView::Rate(from_currency), ValueView::Rate(rate_from)),
        env.instance.contains_pair(DataKeyView::Rate(to_currency), ValueView::Rate(rate_to)),
    ensures
        match env.quote_result(from_currency, to_currency, amount) {
            Ok(payout) => {
                &&& i128::MIN <= amount * rate_to <= i128::MAX
                &&& amount >= 0 ==> 0 <= amount * rate_to - payout * rate_from < rate_from
                &&& amount <= 0 ==> -rate_from < amount * rate_to - payout * rate_from <= 0
            },
            Err(error) => {
                &&& !(i128::MIN <= amount * rate_to <= i128::MAX)
                &&& error == SwapError::AmountOverflow
            },
        },
{
    law_exchange_is_exact(amount, rate_from, rate_to);
    assert((amount >= 0 ==> amount * rate_to >= 0) && (amount <= 0 ==> amount * rate_to <= 0))
        by (nonlinear_arith)
        requires
            rate_to > 0,
    ;
}

/// `quote` is `UnknownCurrency` where one of the rates is not stored, and only
/// there.
pub proof fn law_quote_needs_both_rates(
    env: EnvView,
    from_currency: Seq<char>,
    to_currency: Seq<char>,
    amount: i128,
)
    requires
        env.valid(),
    ensures
        env.quote_result(from_currency, to_currency, amount) == Err::<i128, SwapError>(
            SwapError::UnknownCurrency,
        ) <==> !env.instance.dom().contains(DataKeyView::Rate(from_currency))
            || !env.instance.dom().contains(DataKeyView::Rate(to_currency)),
{
}

/// The commitment that stands for none is thirty-two zero bytes, and no other
/// commitment is.
pub proof fn law_zero_commitment_is_all_zeros(commitment: Seq<u8>)
    requires
        commitment.len() == 32,
    ensures
        zero_commitment().len() == 32,
        commitment == zero_commitment() <==> forall|i: int|
            0 <= i < commitment.len() ==> commitment[i] == 0u8,
{
    if forall|i: int| 0 <= i < commitment.len() ==> commitment[i] == 0u8 {
        assert(commitment =~= zero_commitment());
    }
}

/// A swap is accepted, with the quote as its payout, exactly if its amount is
/// positive, the quote is not below the floor, its commitment is all zeros or
/// not used, and both currencies have a token. It is refused for slippage
/// exactly if the amount is positive and the quote is below the floor, and
/// for its amount exactly if that is not positive.
pub proof fn law_swap_is_accepted_at_the_quote(env: EnvView, request: SwapRequest, payout: i128)
    requires
        env.valid(),
        request.commitment.len() == 32,
    ensures
        ({
            let quoted = env.quote_result(
                request.from_currency,
                request.to_currency,
                request.amount,
            );
            let result = env.swap_result(request);
            let fresh = (forall|i: int|
                0 <= i < request.commitment.len() ==> request.commitment[i] == 0u8)
                || !env.persistent.dom().contains(DataKeyView::Commitment(request.commitment));
            let backed = env.instance.dom().contains(
                DataKeyView::LiquidityToken(request.from_currency),
            ) && env.instance.dom().contains(DataKeyView::LiquidityToken(request.to_currency));
            &&& result == Ok::<i128, SwapError>(payout) <==> request.amount > 0 && (
            quoted matches Ok(p) && p == payout) && payout >= request.min_receive && fresh
                && backed
            &&& result == Err::<i128, SwapError>(SwapError::SlippageExceeded)
                <==> request.amount > 0 && (quoted matches Ok(p) && p < request.min_receive)
            &&& result == Err::<i128, SwapError>(SwapError::ZeroAmount) <==> request.amount <= 0
            &&& result == Err::<i128, SwapError>(SwapError::AmountOverflow) <==> request.amount
                > 0 && quoted == Err::<i128, SwapError>(SwapError::AmountOverflow)
            &&& result == Err::<i128, SwapError>(SwapError::CommitmentAlreadyUsed)
                <==> request.amount > 0 && (quoted matches Ok(p) && p >= request.min_receive)
                && !fresh
            &&& result == Err::<i128, SwapError>(SwapError::UnknownCurrency) <==> request.amount
                > 0 && (quoted == Err::<i128, SwapError>(SwapError::UnknownCurrency) || (
            quoted matches Ok(p) && p >= request.min_receive) && fresh && !backed)
        }),
{
    law_zero_commitment_is_all_zeros(request.commitment);
}

/// The answer of a swap whose rates are stored, told on the numbers alone:
/// with the amount positive, it is `AmountOverflow` exactly if the amount
/// times the second rate is above 128 bits; else `SlippageExceeded` exactly if
/// that product is below the floor times the first rate; and a payout is never
/// above the exact quotient of the two, nor short of it by a unit.
pub proof fn law_swap_on_the_numbers(
    env: EnvView,
    request: SwapRequest,
    rate_from: i128,
    rate_to: i128,
)
    requires
        env.valid(),
        request.amount > 0,
        env.instance.contains_pair(
            DataKeyView::Rate(request.from_currency),
            ValueView::Rate(rate_from),
        ),
        env.instance.contains_pair(
            DataKeyView::Rate(request.to_currency),
            ValueView::Rate(rate_to),
        ),
    ensures
        ({
            let result = env.swap_result(request);
            let product = request.amount * rate_to;
            &&& result == Err::<i128, SwapError>(SwapError::AmountOverflow) <==> product > i128::MAX
            &&& result == Err::<i128, SwapError>(SwapError::SlippageExceeded) <==> product
                <= i128::MAX && product < request.min_receive * rate_from
            &&& result matches Ok(payout) ==> 0 <= product - payout * rate_from < rate_from
            &&& result != Err::<i128, SwapError>(SwapError::ZeroAmount)
        }),
{
    let product = request.amount * rate_to;
    assert(product > 0) by (nonlinear_arith)
        requires
            product == request.amount * rate_to,
            request.amount > 0,
            rate_to > 0,
    ;
    if product <= i128::MAX {
        law_exchange_is_exact(request.amount, rate_from, rate_to);
        let payout = env.quote_result(
            request.from_currency,
            request.to_currency,
            request.amount,
        )->Ok_0;
        lemma_floor_on_product(
            product,
            rate_from as int,
            payout as int,
            request.min_receive as int,
        );
    }
}

/// What an accepted swap keeps and asks for, in order: the sender's
/// authorization; the mark of its commitment, if it has one; the transfer of
/// the amount from the sender to the contract; that of the payout from the
/// contract to the recipient; and the event, which names the two currencies,
/// the sender, the recipient, the payout and the commitment. Only the mark is
/// stored.
pub proof fn law_accepted_swap_on_the_journal(
    env: EnvView,
    request: SwapRequest,
    payout: i128,
    from_token: Seq<char>,
    to_token: Seq<char>,
)
    requires
        request.commitment.len() == 32,
        env.swap_result(request) == Ok::<i128, SwapError>(payout),
        env.instance.contains_pair(
            DataKeyView::LiquidityToken(request.from_currency),
            ValueView::Address(from_token),
        ),
        env.instance.contains_pair(
            DataKeyView::LiquidityToken(request.to_currency),
            ValueView::Address(to_token),
        ),
    ensures
        ({
            let after = env.after_swap(request);
            let key = DataKeyView::Commitment(request.commitment);
            let mark = ValueView::Flag(true);
            let named = exists|i: int| 0 <= i < 32 && request.commitment[i] != 0u8;
            let asked = seq![EffectView::RequireAuth(request.sender)];
            let marked = seq![EffectView::SetPersistent(key, mark)];
            let moved = seq![
                EffectView::Transfer {
                    token: from_token,
                    from: request.sender,
                    to: env.contract,
                    amount: request.amount,
                },
                EffectView::Transfer {
                    token: to_token,
                    from: env.contract,
                    to: request.recipient,
                    amount: payout,
                },
                EffectView::Publish(
                    SwapEventView {
                        topic: "swap"@,
                        from_currency: request.from_currency,
                        to_currency: request.to_currency,
                        sender: request.sender,
                        recipient: request.recipient,
                        receive_amount: payout,
                        commitment: request.commitment,
                    },
                ),
            ];
            &&& after.contract == env.contract
            &&& after.instance == env.instance
            &&& named ==> after.persistent == env.persistent.insert(key, mark)
            &&& named ==> after.journal == env.journal + asked + marked + moved
            &&& !named ==> after.persistent == env.persistent
            &&& !named ==> after.journal == env.journal + asked + moved
        }),
{
    law_zero_commitment_is_all_zeros(request.commitment);
    let after = env.after_swap(request);
    let n = env.journal.len() as int;
    let key = DataKeyView::Commitment(request.commitment);
    let asked = seq![EffectView::RequireAuth(request.sender)];
    let marked = seq![EffectView::SetPersistent(key, ValueView::Flag(true))];
    let named = exists|i: int| 0 <= i < 32 && request.commitment[i] != 0u8;
    if named {
        let moved = after.journal.skip(n + 2);
        assert(after.journal =~= env.journal + asked + marked + moved);
    } else {
        let moved = after.journal.skip(n + 1);
        assert(after.journal =~= env.journal + asked + moved);
    }
}

/// A refused swap asks for the sender's authorization. It marks its
/// commitment only if it was refused for a missing token alone; no money
/// moves, nothing is announced, and no other entry changes.
pub proof fn law_refused_swap_on_the_journal(env: EnvView, request: SwapRequest, error: SwapError)
    requires
        request.commitment.len() == 32,
        env.swap_result(request) == Err::<i128, SwapError>(error),
    ensures
        ({
            let after = env.after_swap(request);
            let key = DataKeyView::Commitment(request.commitment);
            let mark = ValueView::Flag(true);
            let asked = seq![EffectView::RequireAuth(request.sender)];
            let marked = seq![EffectView::SetPersistent(key, mark)];
            let named = exists|i: int| 0 <= i < 32 && request.commitment[i] != 0u8;
            let quoted = env.quote_result(
                request.from_currency,
                request.to_currency,
                request.amount,
            );
            &&& after.contract == env.contract
            &&& after.instance == env.instance
            &&& if error == SwapError::UnknownCurrency && quoted is Ok && named {
                &&& after.persistent == env.persistent.insert(key, mark)
                &&& after.journal == env.journal + asked + marked
            } else {
                &&& after.persistent == env.persistent
                &&& after.journal == env.journal + asked
            }
        }),
{
    law_zero_commitment_is_all_zeros(request.commitment);
    let after = env.after_swap(request);
    let key = DataKeyView::Commitment(request.commitment);
    let asked = seq![EffectView::RequireAuth(request.sender)];
    let marked = seq![EffectView::SetPersistent(key, ValueView::Flag(true))];
    if env.swap_marks(request) {
        assert(after.journal =~= env.journal + asked + marked);
    } else {
        assert(after.journal =~= env.journal + asked);
    }
}

/// A value fits a key exactly if it is what that key stores: an address for
/// the admin and for a token, a positive rate for a currency's rate, the mark
/// `true` for a commitment.
pub proof fn law_fitting_values(
    currency: Seq<char>,
    commitment: Seq<u8>,
    address: Seq<char>,
    rate: i128,
    mark: bool,
)
    ensures
        fits(DataKeyView::Admin, ValueView::Address(address)),
        !fits(DataKeyView::Admin, ValueView::Rate(rate)),
        !fits(DataKeyView::Admin, ValueView::Flag(mark)),
        !fits(DataKeyView::Rate(currency), ValueView::Address(address)),
        fits(DataKeyView::Rate(currency), ValueView::Rate(rate)) <==> rate > 0,
        !fits(DataKeyView::Rate(currency), ValueView::Flag(mark)),
        fits(DataKeyView::LiquidityToken(currency), ValueView::Address(address)),
        !fits(DataKeyView::LiquidityToken(currency), ValueView::Rate(rate)),
        !fits(DataKeyView::LiquidityToken(currency), ValueView::Flag(mark)),
        !fits(DataKeyView::Commitment(commitment), ValueView::Address(address)),
        !fits(DataKeyView::Commitment(commitment), ValueView::Rate(rate)),
        fits(DataKeyView::Commitment(commitment), ValueView::Flag(mark)) <==> mark,
{
}

/// An entry that is put back is held as it is, under its own key and in its
/// own storage; every other entry of both storages, the journal and the
/// address stay as they were.
pub proof fn law_restored_entry_is_held(
    env: EnvView,
    key: DataKeyView,
    value: ValueView,
    other: DataKeyView,
)
    ensures
        ({
            let after = env.with_entry(key, value);
            &&& key is Commitment ==> after.persistent.contains_pair(key, value)
            &&& key is Commitment ==> after.instance == env.instance
            &&& !(key is Commitment) ==> after.instance.contains_pair(key, value)
            &&& !(key is Commitment) ==> after.persistent == env.persistent
            &&& other != key ==> after.instance.dom().contains(other)
                == env.instance.dom().contains(other)
            &&& other != key ==> after.persistent.dom().contains(other)
                == env.persistent.dom().contains(other)
            &&& other != key && env.instance.dom().contains(other) ==> after.instance[other]
                == env.instance[other]
            &&& other != key && env.persistent.dom().contains(other) ==> after.persistent[other]
                == env.persistent[other]
            &&& after.journal == env.journal
            &&& after.contract == env.contract
        }),
{
}

/// A rate that is put back is the one that `get_rate` gives and that quotes
/// start from; the other currencies keep theirs, and admin, tokens and
/// commitments are as before.
pub proof fn law_restored_rate_is_read(
    env: EnvView,
    currency: Seq<char>,
    rate: i128,
    other: Seq<char>,
    commitment: Seq<u8>,
)
    ensures
        ({
            let after = env.with_entry(DataKeyView::Rate(currency), ValueView::Rate(rate));
            &&& after.rate_result(currency) == Ok::<i128, SwapError>(rate)
            &&& other != currency ==> after.rate_result(other) == env.rate_result(other)
            &&& after.admin() == env.admin()
            &&& after.token(other) == env.token(other)
            &&& after.used(commitment) == env.used(commitment)
        }),
{
}

/// A token that is put back backs its currency, and an admin that is put back
/// passes the admin check and no one else does; nothing else is touched.
pub proof fn law_restored_addresses_are_read(
    env: EnvView,
    currency: Seq<char>,
    address: Seq<char>,
    other: Seq<char>,
    commitment: Seq<u8>,
)
    ensures
        ({
            let after = env.with_entry(
                DataKeyView::LiquidityToken(currency),
                ValueView::Address(address),
            );
            &&& after.token(currency) == Some(address)
            &&& other != currency ==> after.token(other) == env.token(other)
            &&& after.admin() == env.admin()
            &&& after.rate(other) == env.rate(other)
            &&& after.used(commitment) == env.used(commitment)
        }),
        ({
            let after = env.with_entry(DataKeyView::Admin, ValueView::Address(address));
            &&& after.initialize_result() is Err
            &&& after.admin_check(other) is Ok <==> other == address
            &&& after.token(other) == env.token(other)
            &&& after.rate(other) == env.rate(other)
            &&& after.used(commitment) == env.used(commitment)
        }),
{
}

/// A commitment whose mark is put back is used, and no other commitment
/// becomes so or ceases to be. A swap with it is never accepted, and one that
/// would otherwise have reached the payout is refused as a replay; a swap with
/// another commitment is answered as before.
pub proof fn law_restored_commitment_is_used(
    env: EnvView,
    commitment: Seq<u8>,
    other: Seq<u8>,
    request: SwapRequest,
)
    requires
        commitment.len() == 32,
    ensures
        ({
            let after = env.with_entry(DataKeyView::Commitment(commitment), ValueView::Flag(true));
            let named = exists|i: int| 0 <= i < 32 && commitment[i] != 0u8;
            &&& after.used(commitment)
            &&& after.persistent.dom().contains(DataKeyView::Commitment(commitment))
            &&& other != commitment ==> after.used(other) == env.used(other)
            &&& other != commitment ==> (after.persistent.dom().contains(
                DataKeyView::Commitment(other),
            ) <==> env.persistent.dom().contains(DataKeyView::Commitment(other)))
            &&& after.instance == env.instance
            &&& named && request.commitment == commitment ==> after.swap_result(request) is Err
            &&& named && request.commitment == commitment && env.swap_result(request) is Ok
                ==> after.swap_result(request) == Err::<i128, SwapError>(
                SwapError::CommitmentAlreadyUsed,
            )
            &&& request.commitment != commitment ==> after.swap_result(request) == env.swap_result(
                request,
            )
        }),
{
    law_zero_commitment_is_all_zeros(commitment);
}

/// The state into which the entries of a ledger were put back, for the keys
/// of a list.
pub open spec fn recalled(ledger: EnvView, keys: Seq<DataKeyView>) -> EnvView
    decreases keys.len(),
{
    if keys.len() == 0 {
        EnvView {
            contract: ledger.contract,
            instance: Map::empty(),
            persistent: Map::empty(),
            journal: Seq::empty(),
        }
    } else {
        let earlier = recalled(ledger, keys.drop_last());
        let key = keys.last();
        if ledger.instance.dom().contains(key) {
            earlier.with_entry(key, ledger.instance[key])
        } else if ledger.persistent.dom().contains(key) {
            earlier.with_entry(key, ledger.persistent[key])
        } else {
            earlier
        }
    }
}

/// A state that was put back from a ledger holds what the ledger holds under
/// each key of the list, and nothing under any other.
pub proof fn law_recalled_entries_are_the_ledgers(
    ledger: EnvView,
    keys: Seq<DataKeyView>,
    key: DataKeyView,
)
    requires
        ledger.valid(),
    ensures
        ({
            let after = recalled(ledger, keys);
            &&& after.contract == ledger.contract
            &&& after.instance.dom().contains(key) <==> keys.contains(key)
                && ledger.instance.dom().contains(key)
            &&& after.instance.dom().contains(key) ==> after.instance[key] == ledger.instance[key]
            &&& after.persistent.dom().contains(key) <==> keys.contains(key)
                && ledger.persistent.dom().contains(key)
            &&& after.persistent.dom().contains(key) ==> after.persistent[key]
                == ledger.persistent[key]
        }),
    decreases keys.len(),
{
    if keys.len() > 0 {
        let shorter = keys.drop_last();
        law_recalled_entries_are_the_ledgers(ledger, shorter, key);
        assert(keys =~= shorter.push(keys.last()));
        assert(keys.contains(key) <==> shorter.contains(key) || key == keys.last()) by {
            if shorter.contains(key) {
                let i = choose|i: int| 0 <= i < shorter.len() && shorter[i] == key;
                assert(keys[i] == key);
            }
            if key == keys.last() {
                assert(keys[keys.len() - 1] == key);
            }
        }
    }
}

/// A call on a state into which the entries that it reads were put back
/// answers as on the ledger's own state, and asks the same of the host.
pub proof fn law_recalled_calls_answer_alike(ledger: EnvView, keys: Seq<DataKeyView>, call: Call)
    requires
        ledger.valid(),
        forall|key: DataKeyView| #[trigger] call.reads(key) ==> keys.contains(key),
    ensures
        recalled(ledger, keys).refusal(call) == ledger.refusal(call),
        call matches Call::Swap { request } ==> recalled(ledger, keys).swap_result(request)
            == ledger.swap_result(request),
        recalled(ledger, keys).effects_of(call) == ledger.effects_of(call),
{
    let after = recalled(ledger, keys);
    assert forall|key: DataKeyView| call.reads(key) implies #[trigger] agree_on(
        after,
        ledger,
        key,
    ) by {
        law_recalled_entries_are_the_ledgers(ledger, keys, key);
    }
    law_recalled_entries_are_the_ledgers(ledger, keys, DataKeyView::Admin);
    law_calls_depend_only_on_what_they_read(after, ledger, call);
}

/// A rate and a quote on a state into which the rates were put back are those
/// of the ledger's own state.
pub proof fn law_recalled_quotes_answer_alike(
    ledger: EnvView,
    keys: Seq<DataKeyView>,
    from_currency: Seq<char>,
    to_currency: Seq<char>,
    amount: i128,
)
    requires
        ledger.valid(),
        keys.contains(DataKeyView::Rate(from_currency)),
        keys.contains(DataKeyView::Rate(to_currency)),
    ensures
        recalled(ledger, keys).rate_result(from_currency) == ledger.rate_result(from_currency),
        recalled(ledger, keys).rate_result(to_currency) == ledger.rate_result(to_currency),
        recalled(ledger, keys).quote_result(from_currency, to_currency, amount)
            == ledger.quote_result(from_currency, to_currency, amount),
{
    law_recalled_entries_are_the_ledgers(ledger, keys, DataKeyView::Rate(from_currency));
    law_recalled_entries_are_the_ledgers(ledger, keys, DataKeyView::Rate(to_currency));
    law_quotes_depend_only_on_what_they_read(
        recalled(ledger, keys),
        ledger,
        from_currency,
        to_currency,
        amount,
    );
}

/// A swap whose commitment has its mark on the ledger is refused on every
/// state into which that mark was put back.
pub proof fn law_recalled_commitment_stops_a_swap(
    ledger: EnvView,
    keys: Seq<DataKeyView>,
    request: SwapRequest,
)
    requires
        ledger.valid(),
        request.commitment.len() == 32,
        exists|i: int| 0 <= i < 32 && request.commitment[i] != 0u8,
        ledger.persistent.dom().contains(DataKeyView::Commitment(request.commitment)),
        keys.contains(DataKeyView::Commitment(request.commitment)),
    ensures
        recalled(ledger, keys).used(request.commitment),
        recalled(ledger, keys).swap_result(request) is Err,
{
    law_recalled_entries_are_the_ledgers(
        ledger,
        keys,
        DataKeyView::Commitment(request.commitment),
    );
    law_zero_commitment_is_all_zeros(request.commitment);
}

/// The scale stands for seven decimal places.
pub proof fn law_scale_is_seven_decimal_places()
    ensures
        RATE_SCALE == 10 * 10 * 10 * 10 * 10 * 10 * 10,
{
}

/// Each error is reported under its own number, from one to eight.
pub proof fn law_error_codes(error: SwapError)
    ensures
        error.spec_code() == 1 <==> error is NotInitialized,
        error.spec_code() == 2 <==> error is AlreadyInitialized,
        error.spec_code() == 3 <==> error is NotAdmin,
        error.spec_code() == 4 <==> error is UnknownCurrency,
        error.spec_code() == 5 <==> error is SlippageExceeded,
        error.spec_code() == 6 <==> error is ZeroAmount,
        error.spec_code() == 7 <==> error is CommitmentAlreadyUsed,
        error.spec_code() == 8 <==> error is AmountOverflow,
{
}

/// Addresses and symbols are known by their text alone, keys and values by
/// their kind and contents alone; `==` tells exactly those apart.
pub proof fn law_names_and_entries_are_known_by_their_contents(
    address: Address,
    other_address: Address,
    symbol: Symbol,
    other_symbol: Symbol,
    rate: i128,
    flag: bool,
    commitment: [u8; 32],
)
    ensures
        address@ == address.strkey@,
        symbol@ == symbol.name@,
        address.eq_spec(&other_address) <==> address.strkey@ == other_address.strkey@,
        symbol.eq_spec(&other_symbol) <==> symbol.name@ == other_symbol.name@,
        DataKey::Admin@ == DataKeyView::Admin,
        DataKey::Rate(symbol)@ == DataKeyView::Rate(symbol.name@),
        DataKey::LiquidityToken(symbol)@ == DataKeyView::LiquidityToken(symbol.name@),
        DataKey::Commitment(commitment)@ == DataKeyView::Commitment(commitment@),
        Value::Address(address)@ == ValueView::Address(address.strkey@),
        Value::Rate(rate)@ == ValueView::Rate(rate),
        Value::Flag(flag)@ == ValueView::Flag(flag),
{
}

/// Two keys are equal exactly if their kinds and contents are, and so are two
/// values.
pub proof fn law_equal_entries(key: DataKey, other_key: DataKey, value: Value, other_value: Value)
    ensures
        key.eq_spec(&other_key) <==> match (key, other_key) {
            (DataKey::Admin, DataKey::Admin) => true,
            (DataKey::Rate(one), DataKey::Rate(other)) => one.name@ == other.name@,
            (DataKey::LiquidityToken(one), DataKey::LiquidityToken(other)) => one.name@
                == other.name@,
            (DataKey::Commitment(one), DataKey::Commitment(other)) => one@ == other@,
            _ => false,
        },
        value.eq_spec(&other_value) <==> match (value, other_value) {
            (Value::Address(one), Value::Address(other)) => one.strkey@ == other.strkey@,
            (Value::Rate(one), Value::Rate(other)) => one == other,
            (Value::Flag(one), Value::Flag(other)) => one == other,
            _ => false,
        },
{
}

/// An effect says of itself what its fields say, each field in its place; a
/// journal lists its effects in order.
pub proof fn law_effects_are_known_by_their_contents(
    address: Address,
    key: DataKey,
    value: Value,
    from: Address,
    to: Address,
    amount: i128,
    event: SwapEvent,
    journal: Seq<Effect>,
    i: int,
)
    ensures
        Effect::RequireAuth(address)@ == EffectView::RequireAuth(address.strkey@),
        Effect::SetInstance(key, value)@ == EffectView::SetInstance(key@, value@),
        Effect::SetPersistent(key, value)@ == EffectView::SetPersistent(key@, value@),
        (Effect::Transfer { token: address, from, to, amount })@ == (EffectView::Transfer {
            token: address.strkey@,
            from: from.strkey@,
            to: to.strkey@,
            amount,
        }),
        Effect::Publish(event)@ == EffectView::Publish(event@),
        event@.topic == event.topic.name@,
        event@.from_currency == event.from_currency.name@,
        event@.to_currency == event.to_currency.name@,
        event@.sender == event.sender.strkey@,
        event@.recipient == event.recipient.strkey@,
        event@.receive_amount == event.receive_amount,
        event@.commitment == event.commitment@,
        effects_view(journal).len() == journal.len(),
        0 <= i < journal.len() ==> effects_view(journal)[i] == journal[i]@,
{
}

/// The entries that each entry point reads, no fewer and no more: a swap with
/// a commitment of zeros does not look for a mark.
pub proof fn law_entries_read(
    currency: Seq<char>,
    to_currency: Seq<char>,
    commitment: Seq<u8>,
    key: DataKeyView,
)
    requires
        commitment.len() == 32,
    ensures
        admin_reads(key) <==> key is Admin,
        rate_reads(currency, key) <==> (key matches DataKeyView::Rate(c) && c == currency),
        quote_reads(currency, to_currency, key) <==> (key matches DataKeyView::Rate(c) && (c
            == currency || c == to_currency)),
        fund_reads(currency, key) <==> key is Admin || (key matches DataKeyView::LiquidityToken(c)
            && c == currency),
        swap_reads(currency, to_currency, commitment, key) <==> match key {
            DataKeyView::Admin => false,
            DataKeyView::Rate(c) => c == currency || c == to_currency,
            DataKeyView::LiquidityToken(c) => c == currency || c == to_currency,
            DataKeyView::Commitment(c) => c == commitment && exists|i: int|
                0 <= i < 32 && commitment[i] != 0u8,
        },
{
    law_zero_commitment_is_all_zeros(commitment);
}

} // verus!
