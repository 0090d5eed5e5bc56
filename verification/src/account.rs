//! Accounts, amounts and times as the chain hands them to a contract.
use vstd::prelude::*;

verus! {

/// A token or stake amount in its smallest unit (nine decimals).
pub type Balance = u64;

/// Unix time in milliseconds.
pub type Timestamp = u64;

/// A 32-byte account identifier.
#[derive(Clone, Copy, Debug)]
pub struct AccountId(pub [u8; 32]);

/// Whether two 32-byte arrays hold the same bytes.
pub fn same_bytes(a: &[u8; 32], b: &[u8; 32]) -> (same: bool)
    ensures
        same == (*a == *b),
{
    let mut i: usize = 0;
    while i < 32
        invariant
            i <= 32,
            forall|j: int| 0 <= j < i ==> a@[j] == b@[j],
        decreases 32 - i,
    {
        if a[i] != b[i] {
            return false;
        }
        i = i + 1;
    }
    assert(*a =~= *b);
    true
}

impl PartialEq for AccountId {
    fn eq(&self, other: &Self) -> (same: bool) {
        same_bytes(&self.0, &other.0)
    }
}

impl vstd::std_specs::cmp::PartialEqSpecImpl for AccountId {
    open spec fn obeys_eq_spec() -> bool {
        true
    }

    open spec fn eq_spec(&self, other: &Self) -> bool {
        self.0 == other.0
    }
}

impl Eq for AccountId {

}

} // verus!
