//! The plain values that the contract handles, and its errors.

use vstd::prelude::*;

verus! {

/// The fixed-point scale of rates and amounts: seven decimal places.
pub const RATE_SCALE: i128 = 10_000_000;

/// An account or a contract on the ledger, by its text form.
#[derive(Debug)]
pub struct Address {
    pub strkey: String,
}

impl View for Address {
    type V = Seq<char>;

    open spec fn view(&self) -> Seq<char> {
        self.strkey@
    }
}

impl Address {
    pub fn new(strkey: &str) -> (address: Address)
        ensures
            address@ == strkey@,
            address.strkey@ == strkey@,
    {
        Address { strkey: strkey.to_owned() }
    }
}

impl Clone for Address {
    fn clone(&self) -> (copy: Self)
        ensures
            copy@ == self@,
    {
        Address { strkey: self.strkey.clone() }
    }
}

impl PartialEq for Address {
    fn eq(&self, other: &Self) -> (same: bool) {
        self.strkey == other.strkey
    }
}

impl vstd::std_specs::cmp::PartialEqSpecImpl for Address {
    open spec fn obeys_eq_spec() -> bool {
        true
    }

    open spec fn eq_spec(&self, other: &Self) -> bool {
        self@ == other@
    }
}

impl Eq for Address {

}

/// A short identifier: a currency code, or the name of an event.
#[derive(Debug)]
pub struct Symbol {
    pub name: String,
}

impl View for Symbol {
    type V = Seq<char>;

    open spec fn view(&self) -> Seq<char> {
        self.name@
    }
}

impl Symbol {
    pub fn new(name: &str) -> (symbol: Symbol)
        ensures
            symbol@ == name@,
            symbol.name@ == name@,
    {
        Symbol { name: name.to_owned() }
    }
}

impl Clone for Symbol {
    fn clone(&self) -> (copy: Self)
        ensures
            copy@ == self@,
    {
        Symbol { name: self.name.clone() }
    }
}

impl PartialEq for Symbol {
    fn eq(&self, other: &Self) -> (same: bool) {
        self.name == other.name
    }
}

impl vstd::std_specs::cmp::PartialEqSpecImpl for Symbol {
    open spec fn obeys_eq_spec() -> bool {
        true
    }

    open spec fn eq_spec(&self, other: &Self) -> bool {
        self@ == other@
    }
}

impl Eq for Symbol {

}

/// The commitment that stands for "none supplied": all zeros.
pub open spec fn zero_commitment() -> Seq<u8> {
    Seq::new(32, |i: int| 0u8)
}

/// Whether two commitments are the same bytes.
pub fn same_commitment(a: &[u8; 32], b: &[u8; 32]) -> (same: bool)
    ensures
        same == (a@ == b@),
{
    let mut i: usize = 0;
    while i < 32
        invariant
            i <= 32,
            forall|j: int| 0 <= j < i ==> a@[j] == b@[j],
        decreases 32 - i,
    {
        if a[i] != b[i] {
            return false;
        }
        i += 1;
    }
    assert(a@ =~= b@);
    true
}

/// Whether a commitment is the all-zero one.
pub fn is_zero_commitment(commitment: &[u8; 32]) -> (zero: bool)
    ensures
        zero == (commitment@ == zero_commitment()),
        zero <==> forall|i: int| 0 <= i < 32 ==> commitment@[i] == 0u8,
{
    let zeros: [u8; 32] = [0u8; 32];
    assert(zeros@ =~= zero_commitment());
    assert((forall|i: int| 0 <= i < 32 ==> commitment@[i] == 0u8) ==> commitment@ =~= zeros@);
    same_commitment(commitment, &zeros)
}

/// Why a call was refused.
#[derive(Copy, Clone, Debug, PartialEq, Eq, PartialOrd, Ord, Structural)]
pub enum SwapError {
    /// No admin has been set yet.
    NotInitialized,
    /// The admin has been set before.
    AlreadyInitialized,
    /// The caller is not the admin.
    NotAdmin,
    /// A currency has no published rate, or no token.
    UnknownCurrency,
    /// The payout is below what the sender will accept.
    SlippageExceeded,
    /// An amount or a rate that must be positive is not.
    ZeroAmount,
    /// The commitment was used by an earlier swap.
    CommitmentAlreadyUsed,
    /// The amount times the rate is outside the range of amounts.
    AmountOverflow,
}

impl SwapError {
    /// The number under which the error is reported to callers.
    pub open spec fn spec_code(self) -> u32 {
        match self {
            SwapError::NotInitialized => 1,
            SwapError::AlreadyInitialized => 2,
            SwapError::NotAdmin => 3,
            SwapError::UnknownCurrency => 4,
            SwapError::SlippageExceeded => 5,
            SwapError::ZeroAmount => 6,
            SwapError::CommitmentAlreadyUsed => 7,
            SwapError::AmountOverflow => 8,
        }
    }

    /// The number under which the error is reported to callers.
    pub fn code(self) -> (code: u32)
        ensures
            code == self.spec_code(),
            1 <= code <= 8,
    {
        match self {
            SwapError::NotInitialized => 1,
            SwapError::AlreadyInitialized => 2,
            SwapError::NotAdmin => 3,
            SwapError::UnknownCurrency => 4,
            SwapError::SlippageExceeded => 5,
            SwapError::ZeroAmount => 6,
            SwapError::CommitmentAlreadyUsed => 7,
            SwapError::AmountOverflow => 8,
        }
    }
}

} // verus!
