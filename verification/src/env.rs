//! The environment a call runs in: what the contract remembers, and the
//! journal of what it asks of its host.

use vstd::prelude::*;

use crate::storage::{fits, DataKey, DataKeyView, Storage, Value, ValueView};
use crate::types::{Address, Symbol};

verus! {

/// The announcement of a swap.
#[derive(Debug)]
pub struct SwapEvent {
    /// The name of the event.
    pub topic: Symbol,
    pub from_currency: Symbol,
    pub to_currency: Symbol,
    pub sender: Address,
    pub recipient: Address,
    pub receive_amount: i128,
    pub commitment: [u8; 32],
}

/// A [`SwapEvent`] by the contents of its fields.
pub struct SwapEventView {
    pub topic: Seq<char>,
    pub from_currency: Seq<char>,
    pub to_currency: Seq<char>,
    pub sender: Seq<char>,
    pub recipient: Seq<char>,
    pub receive_amount: i128,
    pub commitment: Seq<u8>,
}

impl View for SwapEvent {
    type V = SwapEventView;

    open spec fn view(&self) -> SwapEventView {
        SwapEventView {
            topic: self.topic@,
            from_currency: self.from_currency@,
            to_currency: self.to_currency@,
            sender: self.sender@,
            recipient: self.recipient@,
            receive_amount: self.receive_amount,
            commitment: self.commitment@,
        }
    }
}

/// A request to the host. The host performs the requests of a call in order;
/// one that it cannot perform aborts the call, and a call that is aborted or
/// refused leaves no trace on the ledger.
#[derive(Debug)]
pub enum Effect {
    /// Go on only if the address has authorized the call.
    RequireAuth(Address),
    /// Write a value to the storage of the contract instance.
    SetInstance(DataKey, Value),
    /// Write a value to the persistent storage.
    SetPersistent(DataKey, Value),
    /// Move an amount of a token between two addresses.
    Transfer { token: Address, from: Address, to: Address, amount: i128 },
    /// Publish an event.
    Publish(SwapEvent),
}

/// An [`Effect`] by the contents of its fields.
pub enum EffectView {
    RequireAuth(Seq<char>),
    SetInstance(DataKeyView, ValueView),
    SetPersistent(DataKeyView, ValueView),
    Transfer { token: Seq<char>, from: Seq<char>, to: Seq<char>, amount: i128 },
    Publish(SwapEventView),
}

impl View for Effect {
    type V = EffectView;

    open spec fn view(&self) -> EffectView {
        match *self {
            Effect::RequireAuth(address) => EffectView::RequireAuth(address@),
            Effect::SetInstance(key, value) => EffectView::SetInstance(key@, value@),
            Effect::SetPersistent(key, value) => EffectView::SetPersistent(key@, value@),
            Effect::Transfer { token, from, to, amount } => EffectView::Transfer {
                token: token@,
                from: from@,
                to: to@,
                amount,
            },
            Effect::Publish(event) => EffectView::Publish(event@),
        }
    }
}

/// The effects of a journal.
pub open spec fn effects_view(journal: Seq<Effect>) -> Seq<EffectView> {
    Seq::new(journal.len(), |i: int| journal[i]@)
}

/// The state of an [`Env`].
#[verifier::ext_equal]
pub struct EnvView {
    /// The contract's own address.
    pub contract: Seq<char>,
    /// The storage of the contract instance: admin, rates and tokens.
    pub instance: Map<DataKeyView, ValueView>,
    /// The persistent storage: the used commitments.
    pub persistent: Map<DataKeyView, ValueView>,
    /// What has been asked of the host, in order.
    pub journal: Seq<EffectView>,
}

impl EnvView {
    /// Every stored value is of the kind that its key calls for; commitments
    /// are persistent, and all else belongs to the instance.
    pub open spec fn valid(self) -> bool {
        &&& forall|key: DataKeyView| #[trigger]
            self.instance.dom().contains(key) ==> !(key is Commitment) && fits(
                key,
                self.instance[key],
            )
        &&& forall|key: DataKeyView| #[trigger]
            self.persistent.dom().contains(key) ==> key is Commitment && fits(
                key,
                self.persistent[key],
            )
    }

    /// The admin, once set.
    pub open spec fn admin(self) -> Option<Seq<char>> {
        if self.instance.dom().contains(DataKeyView::Admin) {
            Some(self.instance[DataKeyView::Admin]->Address_0)
        } else {
            None
        }
    }

    /// The published rate of a currency.
    pub open spec fn rate(self, currency: Seq<char>) -> Option<i128> {
        if self.instance.dom().contains(DataKeyView::Rate(currency)) {
            Some(self.instance[DataKeyView::Rate(currency)]->Rate_0)
        } else {
            None
        }
    }

    /// The token that backs a currency.
    pub open spec fn token(self, currency: Seq<char>) -> Option<Seq<char>> {
        if self.instance.dom().contains(DataKeyView::LiquidityToken(currency)) {
            Some(self.instance[DataKeyView::LiquidityToken(currency)]->Address_0)
        } else {
            None
        }
    }

    /// Whether a commitment has been used.
    pub open spec fn used(self, commitment: Seq<u8>) -> bool {
        self.persistent.dom().contains(DataKeyView::Commitment(commitment))
    }

    /// The state after one more effect: the journal records it, and a write
    /// changes the storage it is for.
    pub open spec fn after(self, effect: EffectView) -> EnvView {
        EnvView {
            contract: self.contract,
            instance: match effect {
                EffectView::SetInstance(key, value) => self.instance.insert(key, value),
                _ => self.instance,
            },
            persistent: match effect {
                EffectView::SetPersistent(key, value) => self.persistent.insert(key, value),
                _ => self.persistent,
            },
            journal: self.journal.push(effect),
        }
    }

    /// The state with an entry that an earlier call wrote.
    pub open spec fn with_entry(self, key: DataKeyView, value: ValueView) -> EnvView {
        if key is Commitment {
            EnvView { persistent: self.persistent.insert(key, value), ..self }
        } else {
            EnvView { instance: self.instance.insert(key, value), ..self }
        }
    }
}

/// The state of the contract during a call, and what the call asks of the
/// host.
#[derive(Debug)]
pub struct Env {
    contract: Address,
    instance: Storage,
    persistent: Storage,
    journal: Vec<Effect>,
}

impl View for Env {
    type V = EnvView;

    closed spec fn view(&self) -> EnvView {
        EnvView {
            contract: self.contract@,
            instance: self.instance@,
            persistent: self.persistent@,
            journal: effects_view(self.journal@),
        }
    }
}

impl Env {
    /// No key occurs twice in a storage.
    pub closed spec fn distinct(&self) -> bool {
        self.instance.wf() && self.persistent.wf()
    }

    /// The storages hold each key once, and only values that fit it.
    pub open spec fn wf(&self) -> bool {
        self.distinct() && self@.valid()
    }

    /// The environment of a contract that remembers nothing yet.
    pub fn new(contract: Address) -> (env: Env)
        ensures
            env.wf(),
            env@ == (EnvView {
                contract: contract@,
                instance: Map::empty(),
                persistent: Map::empty(),
                journal: Seq::empty(),
            }),
    {
        let env = Env {
            contract,
            instance: Storage::new(),
            persistent: Storage::new(),
            journal: Vec::new(),
        };
        assert(env@.journal =~= Seq::empty());
        env
    }

    /// Puts back an entry that an earlier call wrote, without a record in the
    /// journal. An entry whose value does not fit its key is not taken.
    pub fn restore(&mut self, key: DataKey, value: Value) -> (taken: bool)
        requires
            old(self).wf(),
        ensures
            final(self).wf(),
            taken == fits(key@, value@),
            final(self)@ == if taken {
                old(self)@.with_entry(key@, value@)
            } else {
                old(self)@
            },
            taken == match (key, value) {
                (DataKey::Admin, Value::Address(_)) => true,
                (DataKey::Rate(_), Value::Rate(rate)) => rate > 0,
                (DataKey::LiquidityToken(_), Value::Address(_)) => true,
                (DataKey::Commitment(_), Value::Flag(mark)) => mark,
                _ => false,
            },
            final(self)@.contract == old(self)@.contract,
            final(self)@.journal == old(self)@.journal,
            final(self)@.instance == if taken && !(key is Commitment) {
                old(self)@.instance.insert(key@, value@)
            } else {
                old(self)@.instance
            },
            final(self)@.persistent == if taken && key is Commitment {
                old(self)@.persistent.insert(key@, value@)
            } else {
                old(self)@.persistent
            },
    {
        let ghost added = (key@, value@);
        let fitting = match (&key, &value) {
            (DataKey::Admin, Value::Address(_)) => true,
            (DataKey::Rate(_), Value::Rate(rate)) => *rate > 0,
            (DataKey::LiquidityToken(_), Value::Address(_)) => true,
            (DataKey::Commitment(_), Value::Flag(flag)) => *flag,
            _ => false,
        };
        if fitting {
            match key {
                DataKey::Commitment(_) => self.persistent.set(key, value),
                _ => self.instance.set(key, value),
            }
        }
        proof {
            if fitting {
                assert(self@ =~= old(self)@.with_entry(added.0, added.1));
            }
        }
        fitting
    }

    /// The contract's own address.
    pub fn current_contract_address(&self) -> (address: Address)
        ensures
            address@ == self@.contract,
    {
        self.contract.clone()
    }

    /// Whether the instance storage holds a value under the key.
    pub fn has_instance(&self, key: &DataKey) -> (found: bool)
        requires
            self.wf(),
        ensures
            found == self@.instance.dom().contains(key@),
    {
        self.instance.has(key)
    }

    /// The value in the instance storage under the key.
    pub fn get_instance(&self, key: &DataKey) -> (value: Option<Value>)
        requires
            self.wf(),
        ensures
            match value {
                Some(v) => self@.instance.dom().contains(key@) && v@ == self@.instance[key@],
                None => !self@.instance.dom().contains(key@),
            },
    {
        self.instance.get(key)
    }

    /// Whether the persistent storage holds a value under the key.
    pub fn has_persistent(&self, key: &DataKey) -> (found: bool)
        requires
            self.wf(),
        ensures
            found == self@.persistent.dom().contains(key@),
    {
        self.persistent.has(key)
    }

    /// What has been asked of the host, in order.
    pub fn journal(&self) -> (effects: &Vec<Effect>)
        ensures
            effects_view(effects@) == self@.journal,
            effects@.len() == self@.journal.len(),
            forall|i: int| 0 <= i < effects@.len() ==> #[trigger] effects@[i]@ == self@.journal[i],
    {
        &self.journal
    }

    /// Records an effect, and carries out the write if it is one.
    fn perform(&mut self, effect: Effect)
        requires
            old(self).wf(),
            effect@ matches EffectView::SetInstance(key, value) ==> !(key is Commitment) && fits(
                key,
                value,
            ),
            effect@ matches EffectView::SetPersistent(key, value) ==> key is Commitment && fits(
                key,
                value,
            ),
        ensures
            final(self).wf(),
            final(self)@ == old(self)@.after(effect@),
    {
        match &effect {
            Effect::SetInstance(key, value) => self.instance.set(key.clone(), value.clone()),
            Effect::SetPersistent(key, value) => self.persistent.set(key.clone(), value.clone()),
            _ => {},
        }
        let ghost performed = effect@;
        self.journal.push(effect);
        assert(self@ =~= old(self)@.after(performed));
    }

    /// Asks that the address has authorized the call.
    pub(crate) fn require_auth(&mut self, address: &Address)
        requires
            old(self).wf(),
        ensures
            final(self).wf(),
            final(self)@ == old(self)@.after(EffectView::RequireAuth(address@)),
    {
        self.perform(Effect::RequireAuth(address.clone()));
    }

    /// Writes a value to the storage of the contract instance.
    pub(crate) fn set_instance(&mut self, key: DataKey, value: Value)
        requires
            old(self).wf(),
            !(key@ is Commitment),
            fits(key@, value@),
        ensures
            final(self).wf(),
            final(self)@ == old(self)@.after(EffectView::SetInstance(key@, value@)),
    {
        self.perform(Effect::SetInstance(key, value));
    }

    /// Writes a value to the persistent storage.
    pub(crate) fn set_persistent(&mut self, key: DataKey, value: Value)
        requires
            old(self).wf(),
            key@ is Commitment,
            fits(key@, value@),
        ensures
            final(self).wf(),
            final(self)@ == old(self)@.after(EffectView::SetPersistent(key@, value@)),
    {
        self.perform(Effect::SetPersistent(key, value));
    }

    /// Asks for a transfer of a token.
    pub(crate) fn transfer(&mut self, token: &Address, from: &Address, to: &Address, amount: i128)
        requires
            old(self).wf(),
        ensures
            final(self).wf(),
            final(self)@ == old(self)@.after(
                EffectView::Transfer { token: token@, from: from@, to: to@, amount },
            ),
    {
        self.perform(
            Effect::Transfer { token: token.clone(), from: from.clone(), to: to.clone(), amount },
        );
    }

    /// Publishes an event.
    pub(crate) fn publish(&mut self, event: SwapEvent)
        requires
            old(self).wf(),
        ensures
            final(self).wf(),
            final(self)@ == old(self)@.after(EffectView::Publish(event@)),
    {
        self.perform(Effect::Publish(event));
    }
}

} // verus!
