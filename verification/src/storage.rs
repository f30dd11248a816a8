//! What the contract remembers: values stored under [`DataKey`]s.

use vstd::prelude::*;

use crate::types::{same_commitment, Address, Symbol};

verus! {

/// The name of a stored value.
#[derive(Debug)]
pub enum DataKey {
    /// The one address that may call the admin functions.
    Admin,
    /// The published rate of a currency.
    Rate(Symbol),
    /// The token that backs a currency.
    LiquidityToken(Symbol),
    /// The mark of a used commitment.
    Commitment([u8; 32]),
}

/// A [`DataKey`] by the contents of its fields.
pub enum DataKeyView {
    Admin,
    Rate(Seq<char>),
    LiquidityToken(Seq<char>),
    Commitment(Seq<u8>),
}

impl View for DataKey {
    type V = DataKeyView;

    open spec fn view(&self) -> DataKeyView {
        match *self {
            DataKey::Admin => DataKeyView::Admin,
            DataKey::Rate(currency) => DataKeyView::Rate(currency@),
            DataKey::LiquidityToken(currency) => DataKeyView::LiquidityToken(currency@),
            DataKey::Commitment(bytes) => DataKeyView::Commitment(bytes@),
        }
    }
}

impl Clone for DataKey {
    fn clone(&self) -> (copy: Self)
        ensures
            copy@ == self@,
    {
        match self {
            DataKey::Admin => DataKey::Admin,
            DataKey::Rate(currency) => DataKey::Rate(currency.clone()),
            DataKey::LiquidityToken(currency) => DataKey::LiquidityToken(currency.clone()),
            DataKey::Commitment(bytes) => DataKey::Commitment(*bytes),
        }
    }
}

impl PartialEq for DataKey {
    fn eq(&self, other: &Self) -> (same: bool) {
        match (self, other) {
            (DataKey::Admin, DataKey::Admin) => true,
            (DataKey::Rate(a), DataKey::Rate(b)) => *a == *b,
            (DataKey::LiquidityToken(a), DataKey::LiquidityToken(b)) => *a == *b,
            (DataKey::Commitment(a), DataKey::Commitment(b)) => same_commitment(a, b),
            _ => false,
        }
    }
}

impl vstd::std_specs::cmp::PartialEqSpecImpl for DataKey {
    open spec fn obeys_eq_spec() -> bool {
        true
    }

    open spec fn eq_spec(&self, other: &Self) -> bool {
        self@ == other@
    }
}

impl Eq for DataKey {

}

/// A stored value.
#[derive(Debug)]
pub enum Value {
    /// The admin, or a token.
    Address(Address),
    /// A scaled rate.
    Rate(i128),
    /// The mark of a used commitment.
    Flag(bool),
}

/// A [`Value`] by the contents of its fields.
pub enum ValueView {
    Address(Seq<char>),
    Rate(i128),
    Flag(bool),
}

impl View for Value {
    type V = ValueView;

    open spec fn view(&self) -> ValueView {
        match *self {
            Value::Address(address) => ValueView::Address(address@),
            Value::Rate(rate) => ValueView::Rate(rate),
            Value::Flag(flag) => ValueView::Flag(flag),
        }
    }
}

impl Clone for Value {
    fn clone(&self) -> (copy: Self)
        ensures
            copy@ == self@,
    {
        match self {
            Value::Address(address) => Value::Address(address.clone()),
            Value::Rate(rate) => Value::Rate(*rate),
            Value::Flag(flag) => Value::Flag(*flag),
        }
    }
}

impl PartialEq for Value {
    fn eq(&self, other: &Self) -> (same: bool) {
        match (self, other) {
            (Value::Address(a), Value::Address(b)) => *a == *b,
            (Value::Rate(a), Value::Rate(b)) => *a == *b,
            (Value::Flag(a), Value::Flag(b)) => *a == *b,
            _ => false,
        }
    }
}

impl vstd::std_specs::cmp::PartialEqSpecImpl for Value {
    open spec fn obeys_eq_spec() -> bool {
        true
    }

    open spec fn eq_spec(&self, other: &Self) -> bool {
        self@ == other@
    }
}

impl Eq for Value {

}

/// Whether a value is of the kind that is stored under a key: an address for
/// the admin and for a token, a positive rate for a rate, the mark `true` for
/// a commitment.
pub open spec fn fits(key: DataKeyView, value: ValueView) -> bool {
    match key {
        DataKeyView::Admin => value is Address,
        DataKeyView::Rate(_) => value is Rate && value->Rate_0 > 0,
        DataKeyView::LiquidityToken(_) => value is Address,
        DataKeyView::Commitment(_) => value == ValueView::Flag(true),
    }
}

/// Values under keys, at most one for each key.
#[derive(Debug)]
pub struct Storage {
    entries: Vec<(DataKey, Value)>,
}

impl View for Storage {
    type V = Map<DataKeyView, ValueView>;

    closed spec fn view(&self) -> Map<DataKeyView, ValueView> {
        Map::new(
            |key: DataKeyView| exists|i: int| self.holds_at(key, i),
            |key: DataKeyView| self.entries@[choose|i: int| self.holds_at(key, i)].1@,
        )
    }
}

impl Storage {
    closed spec fn holds_at(&self, key: DataKeyView, i: int) -> bool {
        0 <= i < self.entries@.len() && self.entries@[i].0@ == key
    }

    /// No key occurs twice.
    pub closed spec fn wf(&self) -> bool {
        forall|i: int, j: int|
            0 <= i < j < self.entries@.len() ==> #[trigger] self.entries@[i].0@
                != #[trigger] self.entries@[j].0@
    }

    /// A storage that holds nothing.
    pub fn new() -> (storage: Storage)
        ensures
            storage.wf(),
            storage@ == Map::<DataKeyView, ValueView>::empty(),
    {
        let storage = Storage { entries: Vec::new() };
        assert(storage@ =~= Map::<DataKeyView, ValueView>::empty());
        storage
    }

    proof fn lemma_held(&self, key: DataKeyView, i: int)
        requires
            self.wf(),
            self.holds_at(key, i),
        ensures
            self@.dom().contains(key),
            self@[key] == self.entries@[i].1@,
    {
        let chosen = choose|j: int| self.holds_at(key, j);
        assert(chosen == i) by {
            if chosen < i {
                assert(self.entries@[chosen].0@ != self.entries@[i].0@);
            } else if i < chosen {
                assert(self.entries@[i].0@ != self.entries@[chosen].0@);
            }
        }
    }

    /// The place of a key among the entries, if it has one.
    fn position(&self, key: &DataKey) -> (place: Option<usize>)
        requires
            self.wf(),
        ensures
            match place {
                Some(i) => self.holds_at(key@, i as int),
                None => !self@.dom().contains(key@),
            },
    {
        let mut i: usize = 0;
        while i < self.entries.len()
            invariant
                i <= self.entries@.len(),
                forall|j: int| 0 <= j < i ==> (#[trigger] self.entries@[j]).0@ != key@,
            decreases self.entries@.len() - i,
        {
            if self.entries[i].0 == *key {
                return Some(i);
            }
            i += 1;
        }
        None
    }

    /// Whether a value is stored under the key.
    pub fn has(&self, key: &DataKey) -> (found: bool)
        requires
            self.wf(),
        ensures
            found == self@.dom().contains(key@),
    {
        match self.position(key) {
            Some(i) => {
                proof {
                    self.lemma_held(key@, i as int);
                }
                true
            },
            None => false,
        }
    }

    /// The value stored under the key.
    pub fn get(&self, key: &DataKey) -> (value: Option<Value>)
        requires
            self.wf(),
        ensures
            match value {
                Some(v) => self@.dom().contains(key@) && v@ == self@[key@],
                None => !self@.dom().contains(key@),
            },
    {
        match self.position(key) {
            Some(i) => {
                proof {
                    self.lemma_held(key@, i as int);
                }
                Some(self.entries[i].1.clone())
            },
            None => None,
        }
    }

    /// Stores the value under the key, in place of what was there.
    pub fn set(&mut self, key: DataKey, value: Value)
        requires
            old(self).wf(),
        ensures
            final(self).wf(),
            final(self)@ == old(self)@.insert(key@, value@),
    {
        let ghost before = *self;
        let ghost key_view = key@;
        let ghost value_view = value@;
        let place = self.position(&key);
        match place {
            Some(i) => {
                self.entries.set(i, (key, value));
            },
            None => {
                self.entries.push((key, value));
            },
        }
        proof {
            let at: int = match place {
                Some(i) => i as int,
                None => before.entries@.len() as int,
            };
            let after = *self;
            assert(after.wf()) by {
                assert forall|i: int, j: int| 0 <= i < j < after.entries@.len() implies
                    #[trigger] after.entries@[i].0@ != #[trigger] after.entries@[j].0@ by {
                    if place is None && j == at {
                        assert(before.entries@[i] == after.entries@[i]);
                        if before.entries@[i].0@ == key_view {
                            before.lemma_held(key_view, i);
                        }
                    } else {
                        assert(before.entries@[i].0@ != before.entries@[j].0@);
                    }
                }
            }
            assert(after.holds_at(key_view, at));
            after.lemma_held(key_view, at);
            let expected = before@.insert(key_view, value_view);
            assert forall|k: DataKeyView|
                after@.dom().contains(k) == #[trigger] expected.dom().contains(k)
                && (expected.dom().contains(k) ==> after@[k] == expected[k]) by {
                if k != key_view && before@.dom().contains(k) {
                    let i = choose|i: int| before.holds_at(k, i);
                    assert(after.holds_at(k, i));
                    before.lemma_held(k, i);
                    after.lemma_held(k, i);
                }
                if k != key_view && after@.dom().contains(k) {
                    let i = choose|i: int| after.holds_at(k, i);
                    assert(i != at);
                    assert(before.holds_at(k, i));
                    before.lemma_held(k, i);
                }
            }
            assert(after@ =~= expected);
        }
    }
}

} // verus!
