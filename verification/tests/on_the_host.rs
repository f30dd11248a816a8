//! The contract deployed on a host, with real tokens, authorization and
//! rollback.

use soroban_sdk::testutils::{Address as _, ContractFunctionSet, EnvTestConfig};
use soroban_sdk::token::{Client, StellarAssetClient};
use soroban_sdk::xdr::ToXdr;
use soroban_sdk::{
    Address as HostAddress, BytesN, Env as HostEnv, Error, IntoVal, InvokeError,
    Symbol as HostSymbol, TryFromVal, Val, Vec as HostVec,
};
use swiftramp_swap::{
    footprint, Address, DataKey, Effect, Env, SwapError, SwiftRampSwap, Symbol, Value, RATE_SCALE,
};

// ---------------------------------------------------------------
// The contract as the host runs it
// ---------------------------------------------------------------

struct Deployed;

fn text(address: &HostAddress) -> Address {
    Address::new(&address.to_string().to_string())
}

fn code(host: &HostEnv, symbol: &HostSymbol) -> Symbol {
    let encoded = symbol.clone().to_xdr(host);
    let length = encoded.get_unchecked(7) as u32;
    let name: String = encoded.slice(8..8 + length).iter().map(char::from).collect();
    assert_eq!(name, symbol.to_string());
    Symbol { name }
}

fn host_address(host: &HostEnv, address: &Address) -> HostAddress {
    HostAddress::from_str(host, &address.strkey)
}

fn host_symbol(host: &HostEnv, symbol: &Symbol) -> HostSymbol {
    HostSymbol::new(host, &symbol.name)
}

fn host_key(host: &HostEnv, key: &DataKey) -> Val {
    match key {
        DataKey::Admin => (HostSymbol::new(host, "Admin"),).into_val(host),
        DataKey::Rate(c) => (HostSymbol::new(host, "Rate"), host_symbol(host, c)).into_val(host),
        DataKey::LiquidityToken(c) => {
            (HostSymbol::new(host, "LiquidityToken"), host_symbol(host, c)).into_val(host)
        }
        DataKey::Commitment(bytes) => {
            (HostSymbol::new(host, "Commitment"), BytesN::from_array(host, bytes)).into_val(host)
        }
    }
}

fn host_value(host: &HostEnv, value: &Value) -> Val {
    match value {
        Value::Address(address) => host_address(host, address).into_val(host),
        Value::Rate(rate) => rate.into_val(host),
        Value::Flag(flag) => flag.into_val(host),
    }
}

fn read(host: &HostEnv, key: &DataKey) -> Option<Value> {
    let host_key = host_key(host, key);
    let instance = host.storage().instance();
    match key {
        DataKey::Admin | DataKey::LiquidityToken(_) => instance
            .get::<Val, HostAddress>(&host_key)
            .map(|a| Value::Address(text(&a))),
        DataKey::Rate(_) => instance.get::<Val, i128>(&host_key).map(Value::Rate),
        DataKey::Commitment(_) => host
            .storage()
            .persistent()
            .get::<Val, bool>(&host_key)
            .map(Value::Flag),
    }
}

fn open(host: &HostEnv, keys: Vec<DataKey>) -> Env {
    let mut env = Env::new(text(&host.current_contract_address()));
    for key in keys {
        if let Some(value) = read(host, &key) {
            assert!(env.restore(key, value));
        }
    }
    env
}

fn perform(host: &HostEnv, effect: &Effect) {
    match effect {
        Effect::RequireAuth(address) => host_address(host, address).require_auth(),
        Effect::SetInstance(key, value) => host
            .storage()
            .instance()
            .set(&host_key(host, key), &host_value(host, value)),
        Effect::SetPersistent(key, value) => host
            .storage()
            .persistent()
            .set(&host_key(host, key), &host_value(host, value)),
        Effect::Transfer { token, from, to, amount } => {
            Client::new(host, &host_address(host, token)).transfer(
                &host_address(host, from),
                &host_address(host, to),
                amount,
            )
        }
        #[allow(deprecated)]
        Effect::Publish(event) => host.events().publish(
            (
                host_symbol(host, &event.topic),
                host_symbol(host, &event.from_currency),
                host_symbol(host, &event.to_currency),
            ),
            (
                host_address(host, &event.sender),
                host_address(host, &event.recipient),
                event.receive_amount,
                BytesN::from_array(host, &event.commitment),
            ),
        ),
    }
}

fn answer<T: IntoVal<HostEnv, Val>>(
    host: &HostEnv,
    env: &Env,
    result: Result<T, SwapError>,
) -> Option<Val> {
    for effect in env.journal() {
        perform(host, effect);
    }
    Some(match result {
        Ok(value) => value.into_val(host),
        Err(error) => Error::from_contract_error(error.code()).to_val(),
    })
}

impl ContractFunctionSet for Deployed {
    fn call(&self, func: &str, host: HostEnv, args: &[Val]) -> Option<Val> {
        let address = |i: usize| text(&HostAddress::try_from_val(&host, &args[i]).unwrap());
        let symbol = |i: usize| code(&host, &HostSymbol::try_from_val(&host, &args[i]).unwrap());
        let number = |i: usize| i128::try_from_val(&host, &args[i]).unwrap();
        match func {
            "initialize" => {
                let mut env = open(&host, footprint::admin_keys());
                let result = SwiftRampSwap::initialize(&mut env, address(0));
                answer(&host, &env, result)
            }
            "set_currency_token" => {
                let mut env = open(&host, footprint::admin_keys());
                let result = SwiftRampSwap::set_currency_token(
                    &mut env,
                    address(0),
                    symbol(1),
                    address(2),
                );
                answer(&host, &env, result)
            }
            "set_rate" => {
                let mut env = open(&host, footprint::admin_keys());
                let result =
                    SwiftRampSwap::set_rate(&mut env, address(0), symbol(1), number(2));
                answer(&host, &env, result)
            }
            "get_rate" => {
                let env = open(&host, footprint::rate_keys(&symbol(0)));
                let result = SwiftRampSwap::get_rate(&env, symbol(0));
                answer(&host, &env, result)
            }
            "quote" => {
                let env = open(&host, footprint::quote_keys(&symbol(0), &symbol(1)));
                let result = SwiftRampSwap::quote(&env, symbol(0), symbol(1), number(2));
                answer(&host, &env, result)
            }
            "swap" => {
                let commitment = BytesN::<32>::try_from_val(&host, &args[6]).unwrap().to_array();
                let keys = footprint::swap_keys(&symbol(2), &symbol(3), &commitment);
                let mut env = open(&host, keys);
                let result = SwiftRampSwap::swap(
                    &mut env,
                    address(0),
                    address(1),
                    symbol(2),
                    symbol(3),
                    number(4),
                    number(5),
                    commitment,
                );
                answer(&host, &env, result)
            }
            "fund_liquidity" => {
                let mut env = open(&host, footprint::fund_keys(&symbol(1)));
                let result =
                    SwiftRampSwap::fund_liquidity(&mut env, address(0), symbol(1), number(2));
                answer(&host, &env, result)
            }
            _ => None,
        }
    }
}

// ---------------------------------------------------------------
// The client's side
// ---------------------------------------------------------------

struct Contract {
    host: HostEnv,
    id: HostAddress,
}

fn error_of(code: u32) -> SwapError {
    let errors = [
        SwapError::NotInitialized,
        SwapError::AlreadyInitialized,
        SwapError::NotAdmin,
        SwapError::UnknownCurrency,
        SwapError::SlippageExceeded,
        SwapError::ZeroAmount,
        SwapError::CommitmentAlreadyUsed,
        SwapError::AmountOverflow,
    ];
    *errors.iter().find(|e| e.code() == code).unwrap()
}

impl Contract {
    fn invoke<T: TryFromVal<HostEnv, Val>>(
        &self,
        func: &str,
        args: HostVec<Val>,
    ) -> Result<T, SwapError> {
        let called = self.host.try_invoke_contract::<T, InvokeError>(
            &self.id,
            &HostSymbol::new(&self.host, func),
            args,
        );
        match called {
            Ok(Ok(value)) => Ok(value),
            Ok(Err(_)) => panic!("the answer of {func} is of another type"),
            Err(Ok(InvokeError::Contract(code))) => Err(error_of(code)),
            Err(Err(InvokeError::Contract(code))) => Err(error_of(code)),
            Err(_) => panic!("{func} was aborted"),
        }
    }

    fn fails(&self, func: &str, args: HostVec<Val>) -> bool {
        let called = self.host.try_invoke_contract::<Val, InvokeError>(
            &self.id,
            &HostSymbol::new(&self.host, func),
            args,
        );
        called.is_err()
    }

    fn args<const N: usize>(&self, args: [Val; N]) -> HostVec<Val> {
        HostVec::from_array(&self.host, args)
    }

    fn try_initialize(&self, admin: &HostAddress) -> Result<(), SwapError> {
        self.invoke("initialize", self.args([admin.to_val()]))
    }

    fn try_set_currency_token(
        &self,
        admin: &HostAddress,
        currency: &str,
        token: &HostAddress,
    ) -> Result<(), SwapError> {
        let currency = HostSymbol::new(&self.host, currency);
        self.invoke(
            "set_currency_token",
            self.args([admin.to_val(), currency.to_val(), token.to_val()]),
        )
    }

    fn try_set_rate(
        &self,
        admin: &HostAddress,
        currency: &str,
        rate: i128,
    ) -> Result<(), SwapError> {
        let currency = HostSymbol::new(&self.host, currency);
        self.invoke(
            "set_rate",
            self.args([admin.to_val(), currency.to_val(), rate.into_val(&self.host)]),
        )
    }

    fn try_get_rate(&self, currency: &str) -> Result<i128, SwapError> {
        let currency = HostSymbol::new(&self.host, currency);
        self.invoke("get_rate", self.args([currency.to_val()]))
    }

    fn try_quote(&self, from: &str, to: &str, amount: i128) -> Result<i128, SwapError> {
        let from = HostSymbol::new(&self.host, from);
        let to = HostSymbol::new(&self.host, to);
        self.invoke(
            "quote",
            self.args([from.to_val(), to.to_val(), amount.into_val(&self.host)]),
        )
    }

    fn try_swap(
        &self,
        sender: &HostAddress,
        recipient: &HostAddress,
        from: &str,
        to: &str,
        amount: i128,
        min_receive: i128,
        commitment: [u8; 32],
    ) -> Result<i128, SwapError> {
        let from = HostSymbol::new(&self.host, from);
        let to = HostSymbol::new(&self.host, to);
        self.invoke(
            "swap",
            self.args([
                sender.to_val(),
                recipient.to_val(),
                from.to_val(),
                to.to_val(),
                amount.into_val(&self.host),
                min_receive.into_val(&self.host),
                BytesN::from_array(&self.host, &commitment).to_val(),
            ]),
        )
    }

    fn try_fund_liquidity(
        &self,
        admin: &HostAddress,
        currency: &str,
        amount: i128,
    ) -> Result<(), SwapError> {
        let currency = HostSymbol::new(&self.host, currency);
        self.invoke(
            "fund_liquidity",
            self.args([admin.to_val(), currency.to_val(), amount.into_val(&self.host)]),
        )
    }
}

struct Fixture {
    env: HostEnv,
    admin: HostAddress,
    sender: HostAddress,
    recipient: HostAddress,
    contract_id: HostAddress,
    client: Contract,
    usd_addr: HostAddress,
    usd_token: Client<'static>,
    ngn_addr: HostAddress,
    ngn_token: Client<'static>,
}

fn setup_token(env: &HostEnv, admin: &HostAddress) -> (HostAddress, Client<'static>) {
    let sac = env.register_stellar_asset_contract_v2(admin.clone());
    let address = sac.address();
    let client = Client::new(env, &address);
    (address, client)
}

fn setup() -> Fixture {
    let env = HostEnv::new_with_config(EnvTestConfig { capture_snapshot_at_drop: false });
    env.mock_all_auths();

    let admin = HostAddress::generate(&env);
    let sender = HostAddress::generate(&env);
    let recipient = HostAddress::generate(&env);

    let contract_id = env.register(Deployed, ());
    let client = Contract { host: env.clone(), id: contract_id.clone() };
    client.try_initialize(&admin).unwrap();

    let (usd_addr, usd_token) = setup_token(&env, &admin);
    let (ngn_addr, ngn_token) = setup_token(&env, &admin);

    client.try_set_currency_token(&admin, "USD", &usd_addr).unwrap();
    client.try_set_currency_token(&admin, "NGN", &ngn_addr).unwrap();
    client.try_set_rate(&admin, "USD", RATE_SCALE).unwrap();
    client.try_set_rate(&admin, "NGN", 1580 * RATE_SCALE).unwrap();

    Fixture {
        env,
        admin,
        sender,
        recipient,
        contract_id,
        client,
        usd_addr,
        usd_token,
        ngn_addr,
        ngn_token,
    }
}

const ZERO_COMMITMENT: [u8; 32] = [0u8; 32];

// ---------------------------------------------------------------
// Happy path
// ---------------------------------------------------------------

#[test]
fn swap_pays_out_at_published_rate() {
    let f = setup();

    let usd_sac = StellarAssetClient::new(&f.env, &f.usd_addr);
    usd_sac.mint(&f.sender, &(100 * RATE_SCALE));
    let ngn_sac = StellarAssetClient::new(&f.env, &f.ngn_addr);
    ngn_sac.mint(&f.contract_id, &(1_000_000 * RATE_SCALE));

    let received = f
        .client
        .try_swap(&f.sender, &f.recipient, "USD", "NGN", 100 * RATE_SCALE, 0, ZERO_COMMITMENT)
        .unwrap();

    assert_eq!(received, 158_000 * RATE_SCALE);
    assert_eq!(f.ngn_token.balance(&f.recipient), 158_000 * RATE_SCALE);
    assert_eq!(f.usd_token.balance(&f.sender), 0);
}

#[test]
fn quote_matches_manual_rate_math() {
    let f = setup();
    let quoted = f.client.try_quote("USD", "NGN", 50 * RATE_SCALE).unwrap();
    assert_eq!(quoted, 79_000 * RATE_SCALE);
}

#[test]
fn fund_liquidity_moves_tokens_from_admin_to_contract() {
    let f = setup();
    let usd_sac = StellarAssetClient::new(&f.env, &f.usd_addr);
    usd_sac.mint(&f.admin, &(500 * RATE_SCALE));

    f.client.try_fund_liquidity(&f.admin, "USD", 500 * RATE_SCALE).unwrap();

    assert_eq!(f.usd_token.balance(&f.admin), 0);
    assert_eq!(f.usd_token.balance(&f.contract_id), 500 * RATE_SCALE);
}

// ---------------------------------------------------------------
// Slippage / amount validation
// ---------------------------------------------------------------

#[test]
fn swap_rejects_slippage_below_floor() {
    let f = setup();
    let usd_sac = StellarAssetClient::new(&f.env, &f.usd_addr);
    usd_sac.mint(&f.sender, &(100 * RATE_SCALE));

    let result = f.client.try_swap(
        &f.sender,
        &f.recipient,
        "USD",
        "NGN",
        100 * RATE_SCALE,
        999_999 * RATE_SCALE,
        ZERO_COMMITMENT,
    );

    assert_eq!(result, Err(SwapError::SlippageExceeded));
}

#[test]
fn swap_rejects_zero_amount() {
    let f = setup();

    let result =
        f.client.try_swap(&f.sender, &f.recipient, "USD", "NGN", 0, 0, ZERO_COMMITMENT);

    assert_eq!(result, Err(SwapError::ZeroAmount));
}

#[test]
fn swap_rejects_negative_amount() {
    let f = setup();

    let result =
        f.client.try_swap(&f.sender, &f.recipient, "USD", "NGN", -RATE_SCALE, 0, ZERO_COMMITMENT);

    assert_eq!(result, Err(SwapError::ZeroAmount));
}

// ---------------------------------------------------------------
// Currency / rate lookups
// ---------------------------------------------------------------

#[test]
fn get_rate_errors_for_unknown_currency() {
    let f = setup();
    let result = f.client.try_get_rate("ZWL");
    assert_eq!(result, Err(SwapError::UnknownCurrency));
}

#[test]
fn swap_rejects_unpublished_currency() {
    let f = setup();
    let usd_sac = StellarAssetClient::new(&f.env, &f.usd_addr);
    usd_sac.mint(&f.sender, &(100 * RATE_SCALE));

    let result = f.client.try_swap(
        &f.sender,
        &f.recipient,
        "USD",
        "ZWL",
        100 * RATE_SCALE,
        0,
        ZERO_COMMITMENT,
    );

    assert_eq!(result, Err(SwapError::UnknownCurrency));
}

#[test]
fn set_rate_rejects_zero_or_negative() {
    let f = setup();
    let result = f.client.try_set_rate(&f.admin, "USD", 0);
    assert_eq!(result, Err(SwapError::ZeroAmount));

    let result = f.client.try_set_rate(&f.admin, "USD", -1);
    assert_eq!(result, Err(SwapError::ZeroAmount));
}

// ---------------------------------------------------------------
// Admin / auth boundaries
// ---------------------------------------------------------------

#[test]
fn initialize_twice_errors() {
    let f = setup();
    let result = f.client.try_initialize(&f.admin);
    assert_eq!(result, Err(SwapError::AlreadyInitialized));
}

#[test]
fn admin_only_calls_reject_non_admin_caller() {
    let f = setup();
    let impostor = HostAddress::generate(&f.env);

    let result = f.client.try_set_rate(&impostor, "USD", RATE_SCALE);
    assert_eq!(result, Err(SwapError::NotAdmin));

    let other_addr = HostAddress::generate(&f.env);
    let result = f.client.try_set_currency_token(&impostor, "GBP", &other_addr);
    assert_eq!(result, Err(SwapError::NotAdmin));

    let result = f.client.try_fund_liquidity(&impostor, "USD", RATE_SCALE);
    assert_eq!(result, Err(SwapError::NotAdmin));
}

// ---------------------------------------------------------------
// Commitment replay protection
// ---------------------------------------------------------------

#[test]
fn swap_rejects_replayed_commitment() {
    let f = setup();
    let usd_sac = StellarAssetClient::new(&f.env, &f.usd_addr);
    usd_sac.mint(&f.sender, &(200 * RATE_SCALE));
    let ngn_sac = StellarAssetClient::new(&f.env, &f.ngn_addr);
    ngn_sac.mint(&f.contract_id, &(10_000_000 * RATE_SCALE));

    let commitment = [7u8; 32];

    let first = f.client.try_swap(
        &f.sender,
        &f.recipient,
        "USD",
        "NGN",
        100 * RATE_SCALE,
        0,
        commitment,
    );
    assert!(first.is_ok());

    let second = f.client.try_swap(
        &f.sender,
        &f.recipient,
        "USD",
        "NGN",
        100 * RATE_SCALE,
        0,
        commitment,
    );
    assert_eq!(second, Err(SwapError::CommitmentAlreadyUsed));
}

#[test]
fn zero_commitment_can_be_reused_across_swaps() {
    // The all-zero commitment is treated as "no commitment supplied" and
    // is explicitly exempt from the replay check.
    let f = setup();
    let usd_sac = StellarAssetClient::new(&f.env, &f.usd_addr);
    usd_sac.mint(&f.sender, &(200 * RATE_SCALE));
    let ngn_sac = StellarAssetClient::new(&f.env, &f.ngn_addr);
    ngn_sac.mint(&f.contract_id, &(10_000_000 * RATE_SCALE));

    for _ in 0..2 {
        let result = f.client.try_swap(
            &f.sender,
            &f.recipient,
            "USD",
            "NGN",
            10 * RATE_SCALE,
            0,
            ZERO_COMMITMENT,
        );
        assert!(result.is_ok());
    }
}

// ---------------------------------------------------------------
// What the host adds
// ---------------------------------------------------------------

#[test]
fn a_swap_refused_for_a_missing_token_does_not_use_up_its_commitment() {
    let f = setup();
    f.client.try_set_rate(&f.admin, "GBP", RATE_SCALE).unwrap();
    let usd_sac = StellarAssetClient::new(&f.env, &f.usd_addr);
    usd_sac.mint(&f.sender, &(100 * RATE_SCALE));
    let commitment = [9u8; 32];

    for _ in 0..2 {
        let refused =
            f.client.try_swap(&f.sender, &f.recipient, "USD", "GBP", RATE_SCALE, 0, commitment);
        assert_eq!(refused, Err(SwapError::UnknownCurrency));
    }
    assert_eq!(f.usd_token.balance(&f.sender), 100 * RATE_SCALE);
}

#[test]
fn an_admin_call_without_authorization_is_undone() {
    let f = setup();
    f.env.set_auths(&[]);

    let args = f.client.args([
        f.admin.to_val(),
        HostSymbol::new(&f.env, "USD").to_val(),
        (2 * RATE_SCALE).into_val(&f.env),
    ]);
    assert!(f.client.fails("set_rate", args));
    assert_eq!(f.client.try_get_rate("USD"), Ok(RATE_SCALE));
}

#[test]
fn an_impostor_without_authorization_is_told_they_are_not_the_admin() {
    let f = setup();
    let impostor = HostAddress::generate(&f.env);
    f.env.set_auths(&[]);

    let result = f.client.try_set_rate(&impostor, "USD", 2 * RATE_SCALE);
    assert_eq!(result, Err(SwapError::NotAdmin));
}

#[test]
fn a_swap_that_the_contract_cannot_pay_is_undone() {
    let f = setup();
    let usd_sac = StellarAssetClient::new(&f.env, &f.usd_addr);
    usd_sac.mint(&f.sender, &(100 * RATE_SCALE));

    let args = f.client.args([
        f.sender.to_val(),
        f.recipient.to_val(),
        HostSymbol::new(&f.env, "USD").to_val(),
        HostSymbol::new(&f.env, "NGN").to_val(),
        (100 * RATE_SCALE).into_val(&f.env),
        0i128.into_val(&f.env),
        BytesN::from_array(&f.env, &[5u8; 32]).to_val(),
    ]);
    assert!(f.client.fails("swap", args));
    assert_eq!(f.usd_token.balance(&f.sender), 100 * RATE_SCALE);

    let ngn_sac = StellarAssetClient::new(&f.env, &f.ngn_addr);
    ngn_sac.mint(&f.contract_id, &(158_000 * RATE_SCALE));
    let received = f.client.try_swap(
        &f.sender,
        &f.recipient,
        "USD",
        "NGN",
        100 * RATE_SCALE,
        158_000 * RATE_SCALE,
        [5u8; 32],
    );
    assert_eq!(received, Ok(158_000 * RATE_SCALE));
}
