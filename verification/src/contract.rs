//! The entry points of the contract.

use vstd::prelude::*;

use crate::env::{EffectView, Env, EnvView, SwapEvent, SwapEventView};
use crate::rates::{exchange, exchanged};
use crate::storage::{DataKey, DataKeyView, Value, ValueView};
use crate::types::{is_zero_commitment, zero_commitment, Address, SwapError, Symbol};

verus! {

/// What the sender of a swap asks for.
pub struct SwapRequest {
    pub sender: Seq<char>,
    pub recipient: Seq<char>,
    pub from_currency: Seq<char>,
    pub to_currency: Seq<char>,
    pub amount: i128,
    pub min_receive: i128,
    pub commitment: Seq<u8>,
}

impl EnvView {
    /// Whether a caller is the admin, and if not, the error that says so.
    pub open spec fn admin_check(self, caller: Seq<char>) -> Result<(), SwapError> {
        match self.admin() {
            None => Err(SwapError::NotInitialized),
            Some(admin) => if admin == caller {
                Ok(())
            } else {
                Err(SwapError::NotAdmin)
            },
        }
    }

    /// The state after the admin check: a caller who is the admin must have
    /// authorized the call; nothing is asked of any other.
    pub open spec fn after_admin_check(self, caller: Seq<char>) -> EnvView {
        if self.admin_check(caller) is Ok {
            self.after(EffectView::RequireAuth(caller))
        } else {
            self
        }
    }

    /// The admin can be set while there is none.
    pub open spec fn initialize_result(self) -> Result<(), SwapError> {
        if self.admin() is Some {
            Err(SwapError::AlreadyInitialized)
        } else {
            Ok(())
        }
    }

    pub open spec fn after_initialize(self, admin: Seq<char>) -> EnvView {
        if self.initialize_result() is Ok {
            self.after(EffectView::RequireAuth(admin)).after(
                EffectView::SetInstance(DataKeyView::Admin, ValueView::Address(admin)),
            )
        } else {
            self
        }
    }

    pub open spec fn after_set_currency_token(
        self,
        admin: Seq<char>,
        currency: Seq<char>,
        token: Seq<char>,
    ) -> EnvView {
        let checked = self.after_admin_check(admin);
        if self.admin_check(admin) is Ok {
            checked.after(
                EffectView::SetInstance(
                    DataKeyView::LiquidityToken(currency),
                    ValueView::Address(token),
                ),
            )
        } else {
            checked
        }
    }

    /// Only the admin can publish a rate, and only a positive one.
    pub open spec fn set_rate_result(self, admin: Seq<char>, rate: i128) -> Result<(), SwapError> {
        match self.admin_check(admin) {
            Err(error) => Err(error),
            Ok(_) => if rate <= 0 {
                Err(SwapError::ZeroAmount)
            } else {
                Ok(())
            },
        }
    }

    pub open spec fn after_set_rate(
        self,
        admin: Seq<char>,
        currency: Seq<char>,
        rate: i128,
    ) -> EnvView {
        let checked = self.after_admin_check(admin);
        if self.set_rate_result(admin, rate) is Ok {
            checked.after(
                EffectView::SetInstance(DataKeyView::Rate(currency), ValueView::Rate(rate)),
            )
        } else {
            checked
        }
    }

    pub open spec fn rate_result(self, currency: Seq<char>) -> Result<i128, SwapError> {
        match self.rate(currency) {
            Some(rate) => Ok(rate),
            None => Err(SwapError::UnknownCurrency),
        }
    }

    /// What an amount of one currency buys of another at the published rates.
    pub open spec fn quote_result(
        self,
        from_currency: Seq<char>,
        to_currency: Seq<char>,
        amount: i128,
    ) -> Result<i128, SwapError> {
        match (self.rate(from_currency), self.rate(to_currency)) {
            (Some(rate_from), Some(rate_to)) => exchanged(amount, rate_from, rate_to),
            _ => Err(SwapError::UnknownCurrency),
        }
    }

    /// Whether a commitment is one that a swap may not use again.
    pub open spec fn replays(self, commitment: Seq<u8>) -> bool {
        commitment != zero_commitment() && self.used(commitment)
    }

    /// The payout of a swap, or why it is refused. The reasons are looked for
    /// in this order: the amount, the rates, the floor on the payout, the
    /// commitment, the tokens.
    pub open spec fn swap_result(self, request: SwapRequest) -> Result<i128, SwapError> {
        if request.amount <= 0 {
            Err(SwapError::ZeroAmount)
        } else {
            match self.quote_result(request.from_currency, request.to_currency, request.amount) {
                Err(error) => Err(error),
                Ok(payout) => if payout < request.min_receive {
                    Err(SwapError::SlippageExceeded)
                } else if self.replays(request.commitment) {
                    Err(SwapError::CommitmentAlreadyUsed)
                } else if self.token(request.from_currency) is None || self.token(
                    request.to_currency,
                ) is None {
                    Err(SwapError::UnknownCurrency)
                } else {
                    Ok(payout)
                },
            }
        }
    }

    /// Whether a swap marks its commitment as used: it has one, and nothing
    /// but a missing token can still stop it.
    pub open spec fn swap_marks(self, request: SwapRequest) -> bool {
        &&& request.commitment != zero_commitment()
        &&& !self.used(request.commitment)
        &&& request.amount > 0
        &&& self.quote_result(
            request.from_currency,
            request.to_currency,
            request.amount,
        ) matches Ok(payout) && payout >= request.min_receive
    }

    /// The state after a swap: the sender's authorization is asked for
    /// first; an accepted swap moves the amount in and the payout out, and is
    /// announced.
    pub open spec fn after_swap(self, request: SwapRequest) -> EnvView {
        let authorized = self.after(EffectView::RequireAuth(request.sender));
        let marked = if self.swap_marks(request) {
            authorized.after(
                EffectView::SetPersistent(
                    DataKeyView::Commitment(request.commitment),
                    ValueView::Flag(true),
                ),
            )
        } else {
            authorized
        };
        match self.swap_result(request) {
            Err(_) => marked,
            Ok(payout) => marked.after(
                EffectView::Transfer {
                    token: self.token(request.from_currency)->Some_0,
                    from: request.sender,
                    to: self.contract,
                    amount: request.amount,
                },
            ).after(
                EffectView::Transfer {
                    token: self.token(request.to_currency)->Some_0,
                    from: self.contract,
                    to: request.recipient,
                    amount: payout,
                },
            ).after(
                EffectView::Publish(
                    SwapEventView {
                        topic: "swap"@,
                        from_currency: request.from_currency,
                        to_currency: request.to_currency,
                        sender: request.sender,
                        recipient: request.recipient,
                        receive_amount: payout,
                        commitment: request.commitment,
                    },
                ),
            ),
        }
    }

    /// Only the admin can fund the contract, and only in a currency that has
    /// a token.
    pub open spec fn fund_liquidity_result(
        self,
        admin: Seq<char>,
        currency: Seq<char>,
    ) -> Result<(), SwapError> {
        match self.admin_check(admin) {
            Err(error) => Err(error),
            Ok(_) => if self.token(currency) is None {
                Err(SwapError::UnknownCurrency)
            } else {
                Ok(())
            },
        }
    }

    pub open spec fn after_fund_liquidity(
        self,
        admin: Seq<char>,
        currency: Seq<char>,
        amount: i128,
    ) -> EnvView {
        let checked = self.after_admin_check(admin);
        if self.fund_liquidity_result(admin, currency) is Ok {
            checked.after(
                EffectView::Transfer {
                    token: self.token(currency)->Some_0,
                    from: admin,
                    to: self.contract,
                    amount,
                },
            )
        } else {
            checked
        }
    }
}

/// The swap contract.
pub struct SwiftRampSwap;

impl SwiftRampSwap {
    /// Sets the admin, once.
    pub fn initialize(env: &mut Env, admin: Address) -> (result: Result<(), SwapError>)
        requires
            old(env).wf(),
        ensures
            final(env).wf(),
            result == old(env)@.initialize_result(),
            final(env)@ == old(env)@.after_initialize(admin@),
    {
        if env.has_instance(&DataKey::Admin) {
            return Err(SwapError::AlreadyInitialized);
        }
        env.require_auth(&admin);
        env.set_instance(DataKey::Admin, Value::Address(admin));
        Ok(())
    }

    /// Registers the token that backs a currency. For the admin only.
    pub fn set_currency_token(
        env: &mut Env,
        admin: Address,
        currency: Symbol,
        token_address: Address,
    ) -> (result: Result<(), SwapError>)
        requires
            old(env).wf(),
        ensures
            final(env).wf(),
            result == old(env)@.admin_check(admin@),
            final(env)@ == old(env)@.after_set_currency_token(admin@, currency@, token_address@),
    {
        match Self::require_admin(env, &admin) {
            Err(error) => Err(error),
            Ok(()) => {
                env.set_instance(DataKey::LiquidityToken(currency), Value::Address(token_address));
                Ok(())
            },
        }
    }

    /// Publishes the rate of a currency. For the admin only.
    pub fn set_rate(env: &mut Env, admin: Address, currency: Symbol, rate_scaled: i128) -> (result:
        Result<(), SwapError>)
        requires
            old(env).wf(),
        ensures
            final(env).wf(),
            result == old(env)@.set_rate_result(admin@, rate_scaled),
            final(env)@ == old(env)@.after_set_rate(admin@, currency@, rate_scaled),
    {
        match Self::require_admin(env, &admin) {
            Err(error) => Err(error),
            Ok(()) => {
                if rate_scaled <= 0 {
                    return Err(SwapError::ZeroAmount);
                }
                env.set_instance(DataKey::Rate(currency), Value::Rate(rate_scaled));
                Ok(())
            },
        }
    }

    /// The published rate of a currency.
    pub fn get_rate(env: &Env, currency: Symbol) -> (result: Result<i128, SwapError>)
        requires
            env.wf(),
        ensures
            result == env@.rate_result(currency@),
    {
        match env.get_instance(&DataKey::Rate(currency)) {
            Some(Value::Rate(rate)) => Ok(rate),
            _ => Err(SwapError::UnknownCurrency),
        }
    }

    /// What an amount of one currency buys of another at the published rates.
    pub fn quote(env: &Env, from_currency: Symbol, to_currency: Symbol, amount: i128) -> (result:
        Result<i128, SwapError>)
        requires
            env.wf(),
        ensures
            result == env@.quote_result(from_currency@, to_currency@, amount),
    {
        match Self::get_rate(env, from_currency) {
            Err(error) => Err(error),
            Ok(rate_from) => match Self::get_rate(env, to_currency) {
                Err(error) => Err(error),
                Ok(rate_to) => exchange(amount, rate_from, rate_to),
            },
        }
    }

    /// Swaps `amount` of one currency, taken from the sender, for another,
    /// paid to the recipient at the published rates. The sender names the
    /// least payout they will accept, and may name a commitment, which no
    /// later swap can use again.
    pub fn swap(
        env: &mut Env,
        sender: Address,
        recipient: Address,
        from_currency: Symbol,
        to_currency: Symbol,
        amount: i128,
        min_receive: i128,
        commitment: [u8; 32],
    ) -> (result: Result<i128, SwapError>)
        requires
            old(env).wf(),
        ensures
            final(env).wf(),
            ({
                let request = SwapRequest {
                    sender: sender@,
                    recipient: recipient@,
                    from_currency: from_currency@,
                    to_currency: to_currency@,
                    amount,
                    min_receive,
                    commitment: commitment@,
                };
                &&& result == old(env)@.swap_result(request)
                &&& final(env)@ == old(env)@.after_swap(request)
            }),
    {
        env.require_auth(&sender);

        if amount <= 0 {
            return Err(SwapError::ZeroAmount);
        }
        let receive_amount: i128 = match Self::quote(
            env,
            from_currency.clone(),
            to_currency.clone(),
            amount,
        ) {
            Ok(quoted) => quoted,
            Err(error) => {
                return Err(error);
            },
        };
        if receive_amount < min_receive {
            return Err(SwapError::SlippageExceeded);
        }
        if !is_zero_commitment(&commitment) {
            let key = DataKey::Commitment(commitment);
            if env.has_persistent(&key) {
                return Err(SwapError::CommitmentAlreadyUsed);
            }
            env.set_persistent(key, Value::Flag(true));
        }
        let from_token = match Self::liquidity_token(env, &from_currency) {
            Ok(token) => token,
            Err(error) => {
                return Err(error);
            },
        };
        let to_token = match Self::liquidity_token(env, &to_currency) {
            Ok(token) => token,
            Err(error) => {
                return Err(error);
            },
        };
        let contract = env.current_contract_address();
        env.transfer(&from_token, &sender, &contract, amount);
        env.transfer(&to_token, &contract, &recipient, receive_amount);
        env.publish(
            SwapEvent {
                topic: Symbol::new("swap"),
                from_currency,
                to_currency,
                sender,
                recipient,
                receive_amount,
                commitment,
            },
        );
        Ok(receive_amount)
    }

    /// Moves tokens from the admin into the contract's own balance. For the
    /// admin only.
    pub fn fund_liquidity(env: &mut Env, admin: Address, currency: Symbol, amount: i128) -> (result:
        Result<(), SwapError>)
        requires
            old(env).wf(),
        ensures
            final(env).wf(),
            result == old(env)@.fund_liquidity_result(admin@, currency@),
            final(env)@ == old(env)@.after_fund_liquidity(admin@, currency@, amount),
    {
        match Self::require_admin(env, &admin) {
            Err(error) => Err(error),
            Ok(()) => match Self::liquidity_token(env, &currency) {
                Err(error) => Err(error),
                Ok(token) => {
                    let contract = env.current_contract_address();
                    env.transfer(&token, &admin, &contract, amount);
                    Ok(())
                },
            },
        }
    }

    /// The token that backs a currency.
    fn liquidity_token(env: &Env, currency: &Symbol) -> (result: Result<Address, SwapError>)
        requires
            env.wf(),
        ensures
            match result {
                Ok(token) => env@.token(currency@) == Some(token@),
                Err(error) => env@.token(currency@) is None && error == SwapError::UnknownCurrency,
            },
    {
        match env.get_instance(&DataKey::LiquidityToken(currency.clone())) {
            Some(Value::Address(token)) => Ok(token),
            _ => Err(SwapError::UnknownCurrency),
        }
    }

    /// Lets only the admin pass. The caller is compared with the admin before
    /// the authorization is asked for, so that anyone else is told that they
    /// are not the admin, whatever they could sign.
    pub(crate) fn require_admin(env: &mut Env, caller: &Address) -> (result: Result<(), SwapError>)
        requires
            old(env).wf(),
        ensures
            final(env).wf(),
            result == old(env)@.admin_check(caller@),
            final(env)@ == old(env)@.after_admin_check(caller@),
    {
        match env.get_instance(&DataKey::Admin) {
            Some(Value::Address(admin)) => {
                if admin != *caller {
                    return Err(SwapError::NotAdmin);
                }
                env.require_auth(caller);
                Ok(())
            },
            _ => Err(SwapError::NotInitialized),
        }
    }
}

} // verus!
