//! What holds of the contract as a whole: across entry points, and across
//! any sequence of calls.

use vstd::prelude::*;

use crate::contract::SwapRequest;
use crate::env::{EffectView, EnvView};
use crate::footprint::{admin_reads, fund_reads, quote_reads, rate_reads, swap_reads};
use crate::rates::{
    exchanged, is_amount, law_exchange_at_one_rate_keeps_the_amount, law_exchange_at_scaled_rates,
    law_exchange_by_way_of_another, law_exchange_in_parts, law_exchange_is_monotone,
    law_exchange_rounds_toward_zero, law_exchange_there_and_back,
};
use crate::storage::{DataKeyView, ValueView};
use crate::types::{zero_commitment, SwapError};

verus! {

/// A call of an entry point that can change the state.
pub enum Call {
    Initialize { admin: Seq<char> },
    SetCurrencyToken { admin: Seq<char>, currency: Seq<char>, token: Seq<char> },
    SetRate { admin: Seq<char>, currency: Seq<char>, rate: i128 },
    Swap { request: SwapRequest },
    FundLiquidity { admin: Seq<char>, currency: Seq<char>, amount: i128 },
}

impl Call {
    /// The one who must authorize the call.
    pub open spec fn actor(self) -> Seq<char> {
        match self {
            Call::Initialize { admin } => admin,
            Call::SetCurrencyToken { admin, .. } => admin,
            Call::SetRate { admin, .. } => admin,
            Call::Swap { request } => request.sender,
            Call::FundLiquidity { admin, .. } => admin,
        }
    }

    /// Whether the entry point is for the admin only.
    pub open spec fn is_admin_call(self) -> bool {
        self is SetCurrencyToken || self is SetRate || self is FundLiquidity
    }

    /// The rate that the call would publish for a currency.
    pub open spec fn published_rate(self, currency: Seq<char>) -> Option<i128> {
        match self {
            Call::SetRate { currency: c, rate, .. } if c == currency => Some(rate),
            _ => None,
        }
    }

    /// The token that the call would register for a currency.
    pub open spec fn registered_token(self, currency: Seq<char>) -> Option<Seq<char>> {
        match self {
            Call::SetCurrencyToken { currency: c, token, .. } if c == currency => Some(token),
            _ => None,
        }
    }

    /// Whether the call is a swap with a commitment.
    pub open spec fn swaps_with(self, commitment: Seq<u8>) -> bool {
        self matches Call::Swap { request } && request.commitment == commitment
    }

    /// The keys whose entries decide what the call does.
    pub open spec fn reads(self, key: DataKeyView) -> bool {
        match self {
            Call::Initialize { .. } => admin_reads(key),
            Call::SetCurrencyToken { .. } => admin_reads(key),
            Call::SetRate { .. } => admin_reads(key),
            Call::Swap { request } => swap_reads(
                request.from_currency,
                request.to_currency,
                request.commitment,
                key,
            ),
            Call::FundLiquidity { currency, .. } => fund_reads(currency, key),
        }
    }
}

/// A call, and what became of it on the host.
pub struct Settled {
    pub call: Call,
    /// Whether the host could perform all that the call asked for.
    pub performed: bool,
}

/// An instance storage with the writes of some effects carried out.
pub open spec fn instance_after(
    instance: Map<DataKeyView, ValueView>,
    effects: Seq<EffectView>,
) -> Map<DataKeyView, ValueView>
    decreases effects.len(),
{
    if effects.len() == 0 {
        instance
    } else {
        let earlier = instance_after(instance, effects.drop_last());
        match effects.last() {
            EffectView::SetInstance(key, value) => earlier.insert(key, value),
            _ => earlier,
        }
    }
}

/// A persistent storage with the writes of some effects carried out.
pub open spec fn persistent_after(
    persistent: Map<DataKeyView, ValueView>,
    effects: Seq<EffectView>,
) -> Map<DataKeyView, ValueView>
    decreases effects.len(),
{
    if effects.len() == 0 {
        persistent
    } else {
        let earlier = persistent_after(persistent, effects.drop_last());
        match effects.last() {
            EffectView::SetPersistent(key, value) => earlier.insert(key, value),
            _ => earlier,
        }
    }
}

impl EnvView {
    /// The state of a contract that has just been deployed.
    pub open spec fn deployed(contract: Seq<char>) -> EnvView {
        EnvView {
            contract,
            instance: Map::empty(),
            persistent: Map::empty(),
            journal: Seq::empty(),
        }
    }

    /// Why a call is refused, if it is.
    pub open spec fn refusal(self, call: Call) -> Option<SwapError> {
        match call {
            Call::Initialize { .. } => self.initialize_result().err(),
            Call::SetCurrencyToken { admin, .. } => self.admin_check(admin).err(),
            Call::SetRate { admin, rate, .. } => self.set_rate_result(admin, rate).err(),
            Call::Swap { request } => self.swap_result(request).err(),
            Call::FundLiquidity { admin, currency, .. } => self.fund_liquidity_result(
                admin,
                currency,
            ).err(),
        }
    }

    /// The state in which a call ends.
    pub open spec fn after_call(self, call: Call) -> EnvView {
        match call {
            Call::Initialize { admin } => self.after_initialize(admin),
            Call::SetCurrencyToken { admin, currency, token } => self.after_set_currency_token(
                admin,
                currency,
                token,
            ),
            Call::SetRate { admin, currency, rate } => self.after_set_rate(admin, currency, rate),
            Call::Swap { request } => self.after_swap(request),
            Call::FundLiquidity { admin, currency, amount } => self.after_fund_liquidity(
                admin,
                currency,
                amount,
            ),
        }
    }

    /// What a call asks of the host.
    pub open spec fn effects_of(self, call: Call) -> Seq<EffectView> {
        self.after_call(call).journal.skip(self.journal.len() as int)
    }

    /// Whether the ledger keeps what a call did: it was accepted, and the host
    /// could perform all of it.
    pub open spec fn takes_effect(self, settled: Settled) -> bool {
        settled.performed && self.refusal(settled.call) is None
    }

    /// The state that the ledger keeps of a call: a refused call, and one
    /// that the host could not perform, leave no trace.
    pub open spec fn settle(self, settled: Settled) -> EnvView {
        if self.takes_effect(settled) {
            self.after_call(settled.call)
        } else {
            self
        }
    }

    /// The state that the ledger keeps of a sequence of calls.
    pub open spec fn settle_all(self, calls: Seq<Settled>) -> EnvView
        decreases calls.len(),
    {
        if calls.len() == 0 {
            self
        } else {
            self.settle_all(calls.drop_last()).settle(calls.last())
        }
    }

    /// The rate that was published last for a currency in a sequence of
    /// calls, among the calls that took effect.
    pub open spec fn latest_rate(self, calls: Seq<Settled>, currency: Seq<char>) -> Option<i128>
        decreases calls.len(),
    {
        if calls.len() == 0 {
            None
        } else {
            let earlier = calls.drop_last();
            match calls.last().call.published_rate(currency) {
                Some(rate) if self.settle_all(earlier).takes_effect(calls.last()) => Some(rate),
                _ => self.latest_rate(earlier, currency),
            }
        }
    }

    /// Whether a swap with a commitment took effect in a sequence of calls.
    pub open spec fn swapped_with(self, calls: Seq<Settled>, commitment: Seq<u8>) -> bool
        decreases calls.len(),
    {
        calls.len() > 0 && {
            let earlier = calls.drop_last();
            ||| self.swapped_with(earlier, commitment)
            ||| calls.last().call.swaps_with(commitment) && self.settle_all(earlier).takes_effect(
                calls.last(),
            )
        }
    }

    /// The admin whom the first `initialize` that took effect in a sequence
    /// of calls appointed.
    pub open spec fn first_appointed(self, calls: Seq<Settled>) -> Option<Seq<char>>
        decreases calls.len(),
    {
        if calls.len() == 0 {
            None
        } else {
            let earlier = calls.drop_last();
            match (self.first_appointed(earlier), calls.last().call) {
                (Some(admin), _) => Some(admin),
                (None, Call::Initialize { admin }) if self.settle_all(earlier).takes_effect(
                    calls.last(),
                ) => Some(admin),
                _ => None,
            }
        }
    }

    /// What the calls of a sequence that took effect asked of the host, one
    /// after the other.
    pub open spec fn effects_of_all(self, calls: Seq<Settled>) -> Seq<EffectView>
        decreases calls.len(),
    {
        if calls.len() == 0 {
            Seq::empty()
        } else {
            let earlier = calls.drop_last();
            let before = self.settle_all(earlier);
            if before.takes_effect(calls.last()) {
                self.effects_of_all(earlier) + before.effects_of(calls.last().call)
            } else {
                self.effects_of_all(earlier)
            }
        }
    }

    /// The token that was registered last for a currency in a sequence of
    /// calls, among the calls that took effect.
    pub open spec fn latest_token(self, calls: Seq<Settled>, currency: Seq<char>) -> Option<
        Seq<char>,
    >
        decreases calls.len(),
    {
        if calls.len() == 0 {
            None
        } else {
            let earlier = calls.drop_last();
            match calls.last().call.registered_token(currency) {
                Some(token) if self.settle_all(earlier).takes_effect(calls.last()) => Some(token),
                _ => self.latest_token(earlier, currency),
            }
        }
    }
}

/// Every call keeps what is stored valid, accepted or not.
pub proof fn law_calls_keep_storage_valid(env: EnvView, call: Call)
    requires
        env.valid(),
    ensures
        env.after_call(call).valid(),
{
}

/// Every call keeps the journal it found, and the contract's address.
pub proof fn law_calls_only_add_to_the_journal(env: EnvView, call: Call)
    ensures
        env.after_call(call).contract == env.contract,
        env.after_call(call).journal == env.journal + env.effects_of(call),
{
    assert(env.after_call(call).journal =~= env.journal + env.effects_of(call));
}

/// Over any sequence of calls the contract keeps its address, and the journal
/// grows by what the calls that took effect asked for, in order.
pub proof fn law_journal_is_what_took_effect(env: EnvView, calls: Seq<Settled>)
    ensures
        env.settle_all(calls).contract == env.contract,
        env.settle_all(calls).journal == env.journal + env.effects_of_all(calls),
    decreases calls.len(),
{
    if calls.len() > 0 {
        let before = env.settle_all(calls.drop_last());
        law_journal_is_what_took_effect(env, calls.drop_last());
        law_calls_only_add_to_the_journal(before, calls.last().call);
    }
    assert(env.settle_all(calls).journal =~= env.journal + env.effects_of_all(calls));
}

/// Whether a state is one that was reached from another by effects alone,
/// each write among them carried out.
spec fn accounts_for(start: EnvView, end: EnvView) -> bool {
    let asked = end.journal.skip(start.journal.len() as int);
    &&& start.journal.len() <= end.journal.len()
    &&& end.instance == instance_after(start.instance, asked)
    &&& end.persistent == persistent_after(start.persistent, asked)
}

broadcast proof fn lemma_effect_is_accounted_for(start: EnvView, end: EnvView, effect: EffectView)
    requires
        accounts_for(start, end),
    ensures
        #[trigger] accounts_for(start, end.after(effect)),
{
    let n = start.journal.len() as int;
    let asked = end.after(effect).journal.skip(n);
    assert(asked.drop_last() =~= end.journal.skip(n));
    assert(asked.last() == effect);
}

/// The journal accounts for the storage: carrying out the writes that a call
/// asked for gives the storage in which the call ended.
pub proof fn law_journal_accounts_for_storage(env: EnvView, call: Call)
    ensures
        env.after_call(call).instance == instance_after(env.instance, env.effects_of(call)),
        env.after_call(call).persistent == persistent_after(env.persistent, env.effects_of(call)),
{
    broadcast use lemma_effect_is_accounted_for;

    assert(env.journal.skip(env.journal.len() as int).len() == 0);
    assert(accounts_for(env, env));
    assert(accounts_for(env, env.after_call(call)));
}

/// Whether two states hold the same under a key.
pub open spec fn agree_on(one: EnvView, other: EnvView, key: DataKeyView) -> bool {
    &&& one.instance.dom().contains(key) == other.instance.dom().contains(key)
    &&& one.instance.dom().contains(key) ==> one.instance[key] == other.instance[key]
    &&& one.persistent.dom().contains(key) == other.persistent.dom().contains(key)
    &&& one.persistent.dom().contains(key) ==> one.persistent[key] == other.persistent[key]
}

/// What a call does is decided by the entries that it reads: two states that
/// agree on those give the same answer and ask the same of the host.
pub proof fn law_calls_depend_only_on_what_they_read(one: EnvView, other: EnvView, call: Call)
    requires
        one.contract == other.contract,
        forall|key: DataKeyView| call.reads(key) ==> #[trigger] agree_on(one, other, key),
    ensures
        one.refusal(call) == other.refusal(call),
        call matches Call::Swap { request } ==> one.swap_result(request) == other.swap_result(
            request,
        ),
        one.effects_of(call) == other.effects_of(call),
{
    assert(call.reads(DataKeyView::Admin) ==> agree_on(one, other, DataKeyView::Admin));
    match call {
        Call::Swap { request } => {
            assert(agree_on(one, other, DataKeyView::Rate(request.from_currency)));
            assert(agree_on(one, other, DataKeyView::Rate(request.to_currency)));
            assert(agree_on(one, other, DataKeyView::LiquidityToken(request.from_currency)));
            assert(agree_on(one, other, DataKeyView::LiquidityToken(request.to_currency)));
            assert(request.commitment != zero_commitment() ==> agree_on(
                one,
                other,
                DataKeyView::Commitment(request.commitment),
            ));
        },
        Call::FundLiquidity { currency, .. } => {
            assert(agree_on(one, other, DataKeyView::LiquidityToken(currency)));
        },
        _ => {},
    }
    assert(one.effects_of(call) =~= other.effects_of(call));
}

/// A rate is decided by its own entry.
pub proof fn law_rates_depend_only_on_what_they_read(
    one: EnvView,
    other: EnvView,
    currency: Seq<char>,
)
    requires
        forall|key: DataKeyView| rate_reads(currency, key) ==> #[trigger] agree_on(one, other, key),
    ensures
        one.rate_result(currency) == other.rate_result(currency),
{
    assert(agree_on(one, other, DataKeyView::Rate(currency)));
}

/// A quote is decided by the two rates.
pub proof fn law_quotes_depend_only_on_what_they_read(
    one: EnvView,
    other: EnvView,
    from_currency: Seq<char>,
    to_currency: Seq<char>,
    amount: i128,
)
    requires
        forall|key: DataKeyView|
            quote_reads(from_currency, to_currency, key) ==> #[trigger] agree_on(one, other, key),
    ensures
        one.quote_result(from_currency, to_currency, amount) == other.quote_result(
            from_currency,
            to_currency,
            amount,
        ),
{
    assert(agree_on(one, other, DataKeyView::Rate(from_currency)));
    assert(agree_on(one, other, DataKeyView::Rate(to_currency)));
}

/// A currency is worth itself: an amount of it buys as much of it, unless the
/// product with the rate is out of range.
pub proof fn law_quote_in_one_currency_keeps_the_amount(
    env: EnvView,
    currency: Seq<char>,
    amount: i128,
)
    requires
        env.valid(),
        env.rate(currency) matches Some(rate) && is_amount(amount * rate),
    ensures
        env.quote_result(currency, currency, amount) == Ok::<i128, SwapError>(amount),
{
    law_exchange_at_one_rate_keeps_the_amount(amount, env.rate(currency)->Some_0);
}

/// A payout is the exact product over the rate, rounded toward zero: it is
/// never more than the exact quotient in size, and short of it by less than
/// one unit.
pub proof fn law_quote_rounds_toward_zero(
    env: EnvView,
    from_currency: Seq<char>,
    to_currency: Seq<char>,
    amount: i128,
    payout: i128,
)
    requires
        env.valid(),
        env.quote_result(from_currency, to_currency, amount) == Ok::<i128, SwapError>(payout),
    ensures
        env.rate(from_currency) matches Some(rate_from) && (env.rate(to_currency) matches Some(
            rate_to,
        ) && {
            let rest = amount * rate_to - payout * rate_from;
            &&& amount >= 0 ==> payout >= 0 && 0 <= rest < rate_from
            &&& amount <= 0 ==> payout <= 0 && -rate_from < rest <= 0
        }),
{
    law_exchange_rounds_toward_zero(
        amount,
        env.rate(from_currency)->Some_0,
        env.rate(to_currency)->Some_0,
    );
}

/// A larger amount buys no less.
pub proof fn law_quote_is_monotone(
    env: EnvView,
    from_currency: Seq<char>,
    to_currency: Seq<char>,
    less: i128,
    more: i128,
    low: i128,
    high: i128,
)
    requires
        env.valid(),
        less <= more,
        env.quote_result(from_currency, to_currency, less) == Ok::<i128, SwapError>(low),
        env.quote_result(from_currency, to_currency, more) == Ok::<i128, SwapError>(high),
    ensures
        low <= high,
{
    law_exchange_is_monotone(
        less,
        more,
        env.rate(from_currency)->Some_0,
        env.rate(to_currency)->Some_0,
    );
}

/// At the same published rates, what was bought can always be sold back. That
/// never gains anything; what it loses, at the rate of the currency bought, is
/// less than the two rates together; and it loses nothing where the first
/// quote needed no rounding.
pub proof fn law_quote_there_and_back(
    env: EnvView,
    from_currency: Seq<char>,
    to_currency: Seq<char>,
    amount: i128,
    payout: i128,
)
    requires
        env.valid(),
        amount >= 0,
        env.quote_result(from_currency, to_currency, amount) == Ok::<i128, SwapError>(payout),
    ensures
        env.rate(from_currency) matches Some(rate_from) && (env.rate(to_currency) matches Some(
            rate_to,
        ) && (env.quote_result(to_currency, from_currency, payout) matches Ok(back) && {
            &&& 0 <= back <= amount
            &&& (amount - back) * rate_to < rate_from + rate_to
            &&& (amount * rate_to) % (rate_from as int) == 0 ==> back == amount
        })),
{
    law_exchange_there_and_back(
        amount,
        env.rate(from_currency)->Some_0,
        env.rate(to_currency)->Some_0,
    );
}

/// Splitting an amount in two never pays more, and loses at most one unit.
pub proof fn law_quote_in_parts(
    env: EnvView,
    from_currency: Seq<char>,
    to_currency: Seq<char>,
    one: i128,
    other: i128,
    whole: i128,
    payout: i128,
)
    requires
        env.valid(),
        one >= 0,
        other >= 0,
        whole == one + other,
        env.quote_result(from_currency, to_currency, whole) == Ok::<i128, SwapError>(payout),
    ensures
        env.quote_result(from_currency, to_currency, one) matches Ok(first) && (env.quote_result(
            from_currency,
            to_currency,
            other,
        ) matches Ok(second) && first + second <= payout <= first + second + 1),
{
    law_exchange_in_parts(
        one,
        other,
        whole,
        env.rate(from_currency)->Some_0,
        env.rate(to_currency)->Some_0,
    );
}

/// Buying by way of a third currency never beats the direct quote.
pub proof fn law_quote_by_way_of_another(
    env: EnvView,
    from_currency: Seq<char>,
    between_currency: Seq<char>,
    to_currency: Seq<char>,
    amount: i128,
    between: i128,
    routed: i128,
    direct: i128,
)
    requires
        env.valid(),
        amount >= 0,
        env.quote_result(from_currency, between_currency, amount) == Ok::<i128, SwapError>(between),
        env.quote_result(between_currency, to_currency, between) == Ok::<i128, SwapError>(routed),
        env.quote_result(from_currency, to_currency, amount) == Ok::<i128, SwapError>(direct),
    ensures
        routed <= direct,
{
    law_exchange_by_way_of_another(
        amount,
        env.rate(from_currency)->Some_0,
        env.rate(between_currency)->Some_0,
        env.rate(to_currency)->Some_0,
        between,
        routed,
        direct,
    );
}

/// Only the ratio of the two rates counts: published larger by one factor,
/// they give the same quote, unless the product is then out of range.
pub proof fn law_quote_at_scaled_rates(
    env: EnvView,
    scaled: EnvView,
    from_currency: Seq<char>,
    to_currency: Seq<char>,
    amount: i128,
    factor: int,
)
    requires
        env.valid(),
        factor > 0,
        env.rate(from_currency) matches Some(rate_from) && scaled.rate(from_currency) matches Some(
            scaled_from,
        ) && scaled_from == rate_from * factor,
        env.rate(to_currency) matches Some(rate_to) && scaled.rate(to_currency) matches Some(
            scaled_to,
        ) && scaled_to == rate_to * factor && is_amount(amount * scaled_to),
    ensures
        scaled.quote_result(from_currency, to_currency, amount) is Ok,
        scaled.quote_result(from_currency, to_currency, amount) == env.quote_result(
            from_currency,
            to_currency,
            amount,
        ),
{
    law_exchange_at_scaled_rates(
        amount,
        env.rate(from_currency)->Some_0,
        env.rate(to_currency)->Some_0,
        factor,
        scaled.rate(from_currency)->Some_0,
        scaled.rate(to_currency)->Some_0,
    );
}

/// An accepted call has its actor's authorization as the first thing it asks
/// of the host, before any write, transfer or event.
pub proof fn law_accepted_calls_are_authorized_first(env: EnvView, call: Call)
    requires
        env.refusal(call) is None,
    ensures
        env.effects_of(call).len() > 1,
        env.effects_of(call)[0] == EffectView::RequireAuth(call.actor()),
        forall|i: int|
            1 <= i < env.effects_of(call).len() ==> !(#[trigger] env.effects_of(
                call,
            )[i] is RequireAuth),
{
}

/// A swap, accepted or not, asks for its sender's authorization before all
/// else.
pub proof fn law_swaps_ask_the_sender_first(env: EnvView, request: SwapRequest)
    ensures
        env.effects_of(Call::Swap { request }).len() > 0,
        env.effects_of(Call::Swap { request })[0] == EffectView::RequireAuth(request.sender),
{
}

/// Someone who is not the admin is told so, and nothing is asked of the host:
/// not even whether they authorized the call.
pub proof fn law_impostors_are_turned_away_before_authorization(
    env: EnvView,
    call: Call,
    admin: Seq<char>,
)
    requires
        call.is_admin_call(),
        env.admin() == Some(admin),
        call.actor() != admin,
    ensures
        env.refusal(call) == Some(SwapError::NotAdmin),
        env.after_call(call) == env,
{
}

/// The admin's calls share one test of their caller: each is refused for want
/// of an admin, or for not being the admin, exactly where that test says so,
/// whatever its other arguments.
pub proof fn law_admin_calls_share_one_test(env: EnvView, call: Call, error: SwapError)
    requires
        call.is_admin_call(),
        error == SwapError::NotInitialized || error == SwapError::NotAdmin,
    ensures
        env.refusal(call) == Some(error) <==> env.admin_check(call.actor()) == Err::<(), SwapError>(
            error,
        ),
{
}

/// The admin's calls test their caller first: what the test asks of the host
/// comes before all else that they ask, and a call whose caller fails it ends
/// there.
pub proof fn law_admin_calls_test_their_caller_first(env: EnvView, call: Call)
    requires
        call.is_admin_call(),
    ensures
        env.after_admin_check(call.actor()).journal.is_prefix_of(env.after_call(call).journal),
        env.admin_check(call.actor()) matches Err(error) ==> env.refusal(call) == Some(error)
            && env.after_call(call) == env.after_admin_check(call.actor()),
{
}

/// One caller is turned away from all of the admin's calls alike, with the
/// same error.
pub proof fn law_admin_calls_turn_one_caller_away_alike(
    env: EnvView,
    one: Call,
    other: Call,
    error: SwapError,
)
    requires
        one.is_admin_call(),
        other.is_admin_call(),
        one.actor() == other.actor(),
        error == SwapError::NotInitialized || error == SwapError::NotAdmin,
    ensures
        env.refusal(one) == Some(error) <==> env.refusal(other) == Some(error),
{
    law_admin_calls_share_one_test(env, one, error);
    law_admin_calls_share_one_test(env, other, error);
}

/// Before there is an admin, the admin's calls are refused for that reason,
/// and nothing is asked of the host.
pub proof fn law_admin_calls_need_initialization(env: EnvView, call: Call)
    requires
        call.is_admin_call(),
        env.admin() is None,
    ensures
        env.refusal(call) == Some(SwapError::NotInitialized),
        env.after_call(call) == env,
{
}

/// Whoever `initialize` was called with is the admin, and no one else is.
pub proof fn law_initialize_appoints_the_admin(
    env: EnvView,
    admin: Seq<char>,
    other: Seq<char>,
)
    requires
        env.admin() is None,
        other != admin,
    ensures
        env.initialize_result() is Ok,
        env.after_initialize(admin).admin() == Some(admin),
        env.after_initialize(admin).admin_check(admin) is Ok,
        env.after_initialize(admin).admin_check(other) == Err::<(), SwapError>(SwapError::NotAdmin),
{
}

/// An admin, once set, is the admin for ever: no sequence of calls changes
/// that, and each later `initialize` is refused.
pub proof fn law_admin_is_set_once(env: EnvView, calls: Seq<Settled>)
    requires
        env.admin() is Some,
    ensures
        env.settle_all(calls).admin() == env.admin(),
        env.settle_all(calls).initialize_result() == Err::<(), SwapError>(
            SwapError::AlreadyInitialized,
        ),
    decreases calls.len(),
{
    if calls.len() > 0 {
        law_admin_is_set_once(env, calls.drop_last());
    }
}

/// The admin is whoever was the admin before; where there was none, whoever
/// the first `initialize` that took effect appointed.
pub proof fn law_admin_is_the_first_appointed(env: EnvView, calls: Seq<Settled>)
    ensures
        env.settle_all(calls).admin() == match env.admin() {
            Some(admin) => Some(admin),
            None => env.first_appointed(calls),
        },
    decreases calls.len(),
{
    if calls.len() > 0 {
        law_admin_is_the_first_appointed(env, calls.drop_last());
    }
}

/// From deployment on, the admin is whoever the first `initialize` that took
/// effect appointed, and there is none before that.
pub proof fn law_admin_is_the_first_appointed_since_deployment(
    contract: Seq<char>,
    calls: Seq<Settled>,
)
    ensures
        EnvView::deployed(contract).settle_all(calls).admin() == EnvView::deployed(
            contract,
        ).first_appointed(calls),
{
    law_admin_is_the_first_appointed(EnvView::deployed(contract), calls);
}

/// A call that changes the instance storage, once there is an admin, is an
/// accepted call that the admin must have authorized.
pub proof fn law_only_the_admin_changes_rates_and_tokens(
    env: EnvView,
    call: Call,
    admin: Seq<char>,
)
    requires
        env.admin() == Some(admin),
        env.after_call(call).instance != env.instance,
    ensures
        call is SetRate || call is SetCurrencyToken,
        call.actor() == admin,
        env.refusal(call) is None,
        env.effects_of(call)[0] == EffectView::RequireAuth(admin),
{
}

/// A published rate is read back as it was published, and publishing it
/// leaves every other rate, all tokens, the admin and the commitments alone.
pub proof fn law_published_rate_is_read_back(
    env: EnvView,
    admin: Seq<char>,
    currency: Seq<char>,
    rate: i128,
    other: Seq<char>,
)
    requires
        env.set_rate_result(admin, rate) is Ok,
        other != currency,
    ensures
        env.after_set_rate(admin, currency, rate).rate_result(currency) == Ok::<i128, SwapError>(
            rate,
        ),
        env.after_set_rate(admin, currency, rate).rate_result(other) == env.rate_result(other),
        env.after_set_rate(admin, currency, rate).token(currency) == env.token(currency),
        env.after_set_rate(admin, currency, rate).token(other) == env.token(other),
        env.after_set_rate(admin, currency, rate).admin() == env.admin(),
        env.after_set_rate(admin, currency, rate).persistent == env.persistent,
{
}

/// The rate of a currency is the one that was published last; where none was
/// published, it is what it was before.
pub proof fn law_rate_is_the_latest(env: EnvView, calls: Seq<Settled>, currency: Seq<char>)
    ensures
        env.settle_all(calls).rate(currency) == match env.latest_rate(calls, currency) {
            Some(rate) => Some(rate),
            None => env.rate(currency),
        },
    decreases calls.len(),
{
    if calls.len() > 0 {
        law_rate_is_the_latest(env, calls.drop_last(), currency);
    }
}

/// From deployment on, `get_rate` gives the rate that was published last, and
/// says that the currency is unknown if none ever was.
pub proof fn law_rate_is_the_latest_since_deployment(
    contract: Seq<char>,
    calls: Seq<Settled>,
    currency: Seq<char>,
)
    ensures
        ({
            let start = EnvView::deployed(contract);
            &&& start.settle_all(calls).rate(currency) == start.latest_rate(calls, currency)
            &&& start.settle_all(calls).rate_result(currency) == match start.latest_rate(
                calls,
                currency,
            ) {
                Some(rate) => Ok(rate),
                None => Err(SwapError::UnknownCurrency),
            }
        }),
{
    law_rate_is_the_latest(EnvView::deployed(contract), calls, currency);
}

/// From deployment on, quotes are made at the rates that were published last,
/// and need one for each of the two currencies.
pub proof fn law_quotes_use_the_latest_rates(
    contract: Seq<char>,
    calls: Seq<Settled>,
    from_currency: Seq<char>,
    to_currency: Seq<char>,
    amount: i128,
)
    ensures
        ({
            let start = EnvView::deployed(contract);
            start.settle_all(calls).quote_result(from_currency, to_currency, amount) == match (
                start.latest_rate(calls, from_currency),
                start.latest_rate(calls, to_currency),
            ) {
                (Some(rate_from), Some(rate_to)) => exchanged(amount, rate_from, rate_to),
                _ => Err(SwapError::UnknownCurrency),
            }
        }),
{
    law_rate_is_the_latest(EnvView::deployed(contract), calls, from_currency);
    law_rate_is_the_latest(EnvView::deployed(contract), calls, to_currency);
}

/// A rate stays as it is while no call publishes another for its currency.
pub proof fn law_rate_lasts(env: EnvView, calls: Seq<Settled>, currency: Seq<char>)
    requires
        forall|i: int|
            0 <= i < calls.len() ==> (#[trigger] calls[i]).call.published_rate(currency) is None,
    ensures
        env.latest_rate(calls, currency) is None,
        env.settle_all(calls).rate(currency) == env.rate(currency),
    decreases calls.len(),
{
    if calls.len() > 0 {
        assert(calls[calls.len() - 1] == calls.last());
        law_rate_lasts(env, calls.drop_last(), currency);
    }
    law_rate_is_the_latest(env, calls, currency);
}

/// The token of a currency is the one that was registered last; where none
/// was registered, it is what it was before.
pub proof fn law_token_is_the_latest(env: EnvView, calls: Seq<Settled>, currency: Seq<char>)
    ensures
        env.settle_all(calls).token(currency) == match env.latest_token(calls, currency) {
            Some(token) => Some(token),
            None => env.token(currency),
        },
    decreases calls.len(),
{
    if calls.len() > 0 {
        law_token_is_the_latest(env, calls.drop_last(), currency);
    }
}

/// A token stays as it is while no call registers another for its currency.
pub proof fn law_token_lasts(env: EnvView, calls: Seq<Settled>, currency: Seq<char>)
    requires
        forall|i: int|
            0 <= i < calls.len() ==> (#[trigger] calls[i]).call.registered_token(currency) is None,
    ensures
        env.latest_token(calls, currency) is None,
        env.settle_all(calls).token(currency) == env.token(currency),
    decreases calls.len(),
{
    if calls.len() > 0 {
        assert(calls[calls.len() - 1] == calls.last());
        law_token_lasts(env, calls.drop_last(), currency);
    }
    law_token_is_the_latest(env, calls, currency);
}

/// From deployment on, money moves in the tokens that were registered last:
/// an accepted swap takes in and pays out in those of its two currencies.
pub proof fn law_swap_uses_the_latest_tokens(
    contract: Seq<char>,
    calls: Seq<Settled>,
    request: SwapRequest,
    payout: i128,
)
    requires
        EnvView::deployed(contract).settle_all(calls).swap_result(request) == Ok::<i128, SwapError>(
            payout,
        ),
    ensures
        ({
            let start = EnvView::deployed(contract);
            let now = start.settle_all(calls);
            let effects = now.effects_of(Call::Swap { request });
            let n = effects.len();
            &&& n >= 4
            &&& start.latest_token(calls, request.from_currency) matches Some(token)
                && effects[n - 3] == (EffectView::Transfer {
                token,
                from: request.sender,
                to: now.contract,
                amount: request.amount,
            })
            &&& start.latest_token(calls, request.to_currency) matches Some(token)
                && effects[n - 2] == (EffectView::Transfer {
                token,
                from: now.contract,
                to: request.recipient,
                amount: payout,
            })
        }),
{
    let start = EnvView::deployed(contract);
    law_token_is_the_latest(start, calls, request.from_currency);
    law_token_is_the_latest(start, calls, request.to_currency);
    law_swap_moves_amount_in_and_payout_out(start.settle_all(calls), request, payout);
}

/// From deployment on, the admin funds the contract in the token that was
/// registered last, and cannot in a currency that never had one.
pub proof fn law_funding_uses_the_latest_token(
    contract: Seq<char>,
    calls: Seq<Settled>,
    admin: Seq<char>,
    currency: Seq<char>,
    amount: i128,
)
    requires
        EnvView::deployed(contract).settle_all(calls).admin_check(admin) is Ok,
    ensures
        ({
            let start = EnvView::deployed(contract);
            let now = start.settle_all(calls);
            let asked = now.after(EffectView::RequireAuth(admin));
            match start.latest_token(calls, currency) {
                Some(token) => {
                    &&& now.fund_liquidity_result(admin, currency) is Ok
                    &&& now.after_fund_liquidity(admin, currency, amount) == asked.after(
                        EffectView::Transfer { token, from: admin, to: now.contract, amount },
                    )
                },
                None => {
                    &&& now.fund_liquidity_result(admin, currency) == Err::<(), SwapError>(
                        SwapError::UnknownCurrency,
                    )
                    &&& now.after_fund_liquidity(admin, currency, amount) == asked
                },
            }
        }),
{
    law_token_is_the_latest(EnvView::deployed(contract), calls, currency);
}

/// A newly published rate is the one that the next quote uses.
pub proof fn law_quotes_use_the_current_rate(
    env: EnvView,
    admin: Seq<char>,
    from_currency: Seq<char>,
    to_currency: Seq<char>,
    rate: i128,
    amount: i128,
)
    requires
        env.set_rate_result(admin, rate) is Ok,
        from_currency != to_currency,
    ensures
        env.rate(from_currency) matches Some(rate_from) ==> env.after_set_rate(
            admin,
            to_currency,
            rate,
        ).quote_result(from_currency, to_currency, amount) == exchanged(amount, rate_from, rate),
        env.rate(to_currency) matches Some(rate_to) ==> env.after_set_rate(
            admin,
            from_currency,
            rate,
        ).quote_result(from_currency, to_currency, amount) == exchanged(amount, rate, rate_to),
{
}

/// A registered token is the one that backs its currency, and registering it
/// leaves every other token, all rates, the admin and the commitments alone.
pub proof fn law_registered_token_backs_its_currency(
    env: EnvView,
    admin: Seq<char>,
    currency: Seq<char>,
    token: Seq<char>,
    other: Seq<char>,
)
    requires
        env.admin_check(admin) is Ok,
        other != currency,
    ensures
        env.after_set_currency_token(admin, currency, token).token(currency) == Some(token),
        env.after_set_currency_token(admin, currency, token).token(other) == env.token(other),
        env.after_set_currency_token(admin, currency, token).rate(currency) == env.rate(currency),
        env.after_set_currency_token(admin, currency, token).rate(other) == env.rate(other),
        env.after_set_currency_token(admin, currency, token).admin() == env.admin(),
        env.after_set_currency_token(admin, currency, token).persistent == env.persistent,
{
}

/// From deployment on, whatever is called, every published rate is positive.
pub proof fn law_published_rates_are_positive(
    contract: Seq<char>,
    calls: Seq<Settled>,
    currency: Seq<char>,
)
    ensures
        EnvView::deployed(contract).settle_all(calls).valid(),
        EnvView::deployed(contract).settle_all(calls).rate(currency) matches Some(rate) ==> rate
            > 0,
    decreases calls.len(),
{
    if calls.len() > 0 {
        law_published_rates_are_positive(contract, calls.drop_last(), currency);
        law_calls_keep_storage_valid(
            EnvView::deployed(contract).settle_all(calls.drop_last()),
            calls.last().call,
        );
    }
}

/// A swap that is accepted pays what `quote` says, and no less than the
/// sender's floor.
pub proof fn law_swap_pays_the_quote(env: EnvView, request: SwapRequest, payout: i128)
    requires
        env.swap_result(request) == Ok::<i128, SwapError>(payout),
    ensures
        env.quote_result(request.from_currency, request.to_currency, request.amount) == Ok::<
            i128,
            SwapError,
        >(payout),
        payout >= request.min_receive,
        request.amount > 0,
{
}

/// An accepted swap moves money exactly twice: the amount, in its currency's
/// token, from the sender to the contract, then the payout, in the other
/// token, from the contract to the recipient. The event comes last.
pub proof fn law_swap_moves_amount_in_and_payout_out(
    env: EnvView,
    request: SwapRequest,
    payout: i128,
)
    requires
        env.swap_result(request) == Ok::<i128, SwapError>(payout),
    ensures
        ({
            let effects = env.effects_of(Call::Swap { request });
            let n = effects.len();
            &&& n >= 4
            &&& effects[n - 3] == (EffectView::Transfer {
                token: env.token(request.from_currency)->Some_0,
                from: request.sender,
                to: env.contract,
                amount: request.amount,
            })
            &&& effects[n - 2] == (EffectView::Transfer {
                token: env.token(request.to_currency)->Some_0,
                from: env.contract,
                to: request.recipient,
                amount: payout,
            })
            &&& effects[n - 1] is Publish
            &&& forall|i: int|
                0 <= i < n - 3 ==> !(#[trigger] effects[i] is Transfer) && !(effects[i] is Publish)
        }),
{
}

/// A refused call moves no money and publishes nothing.
pub proof fn law_refused_calls_move_nothing(env: EnvView, call: Call, i: int)
    requires
        env.refusal(call) is Some,
        0 <= i < env.effects_of(call).len(),
    ensures
        !(env.effects_of(call)[i] is Transfer),
        !(env.effects_of(call)[i] is Publish),
{
}

/// A refused call asks for no write, but for a swap that had marked its
/// commitment before a token was found missing.
pub proof fn law_refused_calls_write_nothing(env: EnvView, call: Call)
    requires
        env.refusal(call) is Some,
        !(call matches Call::Swap { request } && env.swap_marks(request)),
    ensures
        env.after_call(call).instance == env.instance,
        env.after_call(call).persistent == env.persistent,
{
}

/// The ledger keeps no trace of a refused call.
pub proof fn law_refused_calls_leave_no_trace(env: EnvView, settled: Settled)
    requires
        env.refusal(settled.call) is Some,
    ensures
        env.settle(settled) == env,
{
}

/// The ledger keeps no trace of a call that the host could not perform, such
/// as a swap that the contract cannot pay.
pub proof fn law_unperformed_calls_leave_no_trace(env: EnvView, settled: Settled)
    requires
        !settled.performed,
    ensures
        env.settle(settled) == env,
{
}

/// A commitment that has been used stays used, whatever is called.
pub proof fn law_used_commitments_stay_used(
    env: EnvView,
    calls: Seq<Settled>,
    commitment: Seq<u8>,
)
    requires
        env.used(commitment),
    ensures
        env.settle_all(calls).used(commitment),
    decreases calls.len(),
{
    if calls.len() > 0 {
        law_used_commitments_stay_used(env, calls.drop_last(), commitment);
    }
}

/// A commitment is used where it was used before, or where a swap with it
/// took effect: nothing else uses it up.
pub proof fn law_commitments_are_used_by_swaps_alone(
    env: EnvView,
    calls: Seq<Settled>,
    commitment: Seq<u8>,
)
    requires
        commitment != zero_commitment(),
    ensures
        env.settle_all(calls).used(commitment) == (env.used(commitment) || env.swapped_with(
            calls,
            commitment,
        )),
    decreases calls.len(),
{
    if calls.len() > 0 {
        law_commitments_are_used_by_swaps_alone(env, calls.drop_last(), commitment);
    }
}

/// From deployment on, a commitment is used exactly if a swap with it took
/// effect, and the all-zero one never is.
pub proof fn law_used_commitments_are_those_swapped_with(
    contract: Seq<char>,
    calls: Seq<Settled>,
    commitment: Seq<u8>,
)
    ensures
        EnvView::deployed(contract).settle_all(calls).used(commitment) == (commitment
            != zero_commitment() && EnvView::deployed(contract).swapped_with(calls, commitment)),
    decreases calls.len(),
{
    if commitment != zero_commitment() {
        law_commitments_are_used_by_swaps_alone(EnvView::deployed(contract), calls, commitment);
    } else if calls.len() > 0 {
        law_used_commitments_are_those_swapped_with(contract, calls.drop_last(), commitment);
    }
}

/// From deployment on, a swap is refused for its commitment exactly if it has
/// one, a swap with that took effect, and neither its amount, its rates nor
/// its floor stood in the way. A fresh commitment is never refused as used.
pub proof fn law_only_replays_are_refused_as_used(
    contract: Seq<char>,
    calls: Seq<Settled>,
    request: SwapRequest,
)
    ensures
        ({
            let start = EnvView::deployed(contract);
            let now = start.settle_all(calls);
            now.swap_result(request) == Err::<i128, SwapError>(SwapError::CommitmentAlreadyUsed)
                <==> {
                &&& request.commitment != zero_commitment()
                &&& start.swapped_with(calls, request.commitment)
                &&& request.amount > 0
                &&& now.quote_result(
                    request.from_currency,
                    request.to_currency,
                    request.amount,
                ) matches Ok(payout) && payout >= request.min_receive
            }
        }),
{
    law_used_commitments_are_those_swapped_with(contract, calls, request.commitment);
}

/// A commitment serves one swap: once a swap with it has gone through, no
/// later swap with it is accepted, whatever was called in between. One that
/// is not refused for its amount, its rates or its floor is refused for its
/// commitment, and neither moves money nor marks anything.
pub proof fn law_commitments_serve_one_swap(
    env: EnvView,
    first: SwapRequest,
    calls: Seq<Settled>,
    second: SwapRequest,
)
    requires
        env.swap_result(first) is Ok,
        first.commitment != zero_commitment(),
        second.commitment == first.commitment,
    ensures
        ({
            let later = env.settle(
                Settled { call: Call::Swap { request: first }, performed: true },
            ).settle_all(calls);
            &&& later.swap_result(second) is Err
            &&& second.amount > 0 && (later.quote_result(
                second.from_currency,
                second.to_currency,
                second.amount,
            ) matches Ok(payout) && payout >= second.min_receive) ==> later.swap_result(second)
                == Err::<i128, SwapError>(SwapError::CommitmentAlreadyUsed)
            &&& later.after_swap(second) == later.after(EffectView::RequireAuth(second.sender))
        }),
{
    let done = env.settle(Settled { call: Call::Swap { request: first }, performed: true });
    assert(done.used(first.commitment));
    law_used_commitments_stay_used(done, calls, first.commitment);
}

/// The all-zero commitment is no commitment: it is never marked, and no used
/// commitment stands in its way.
pub proof fn law_zero_commitment_is_never_marked(env: EnvView, other: EnvView, request: SwapRequest)
    requires
        request.commitment == zero_commitment(),
        other.instance == env.instance,
    ensures
        env.after_swap(request).persistent == env.persistent,
        env.swap_result(request) != Err::<i128, SwapError>(SwapError::CommitmentAlreadyUsed),
        other.swap_result(request) == env.swap_result(request),
{
}

/// A swap with the all-zero commitment that was accepted is accepted again,
/// at the same payout.
pub proof fn law_zero_commitment_can_be_reused(env: EnvView, request: SwapRequest)
    requires
        request.commitment == zero_commitment(),
        env.swap_result(request) is Ok,
    ensures
        env.after_swap(request).swap_result(request) == env.swap_result(request),
{
}

/// Who sends and who receives has no part in the answer to a swap.
pub proof fn law_parties_do_not_change_the_answer(
    env: EnvView,
    request: SwapRequest,
    sender: Seq<char>,
    recipient: Seq<char>,
)
    ensures
        env.swap_result(SwapRequest { sender, recipient, ..request }) == env.swap_result(request),
{
}

/// Swaps and funding change no rate, no token and no admin.
pub proof fn law_money_moves_keep_the_terms(env: EnvView, call: Call)
    requires
        call is Swap || call is FundLiquidity,
    ensures
        env.after_call(call).instance == env.instance,
{
}

/// Each error has a code of its own.
pub proof fn law_error_codes_are_distinct(one: SwapError, other: SwapError)
    ensures
        one.spec_code() == other.spec_code() ==> one == other,
{
}

} // verus!
