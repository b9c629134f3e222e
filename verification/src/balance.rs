//! Accounts with a balance that can be raised in small steps.

use vstd::prelude::*;
use vstd::string::StringExecFns;

verus! {

/// The largest amount by which a balance can be raised at once.
pub const MAX_INCREASE: u32 = 10;

/// Something that has a balance. Unless a type says otherwise, its balance
/// is 10.
pub trait Balance {
    /// The balance.
    open spec fn balance(&self) -> u32 {
        10
    }

    /// Reads the balance.
    fn get_balance(&self) -> (r: u32)
        ensures
            r == self.balance(),
    ;
}

/// A user's account.
#[derive(Debug, Clone, PartialEq, Eq)]
pub struct UserAccount {
    pub name: String,
    pub age: Option<u32>,
}

impl Balance for UserAccount {
    fn get_balance(&self) -> (r: u32) {
        10
    }
}

/// What is said of an increase that is too large.
pub open spec fn increase_refused() -> Seq<char> {
    "Increase must be less than 10!"@
}

/// The balance of `account` raised by `amount`, which may be 10 at most.
pub fn increase_balance<T: Balance>(account: &T, amount: u32) -> (r: Result<u32, String>)
    requires
        amount <= MAX_INCREASE ==> account.balance() + amount <= u32::MAX,
    ensures
        match r {
            Ok(raised) => amount <= MAX_INCREASE && raised == account.balance() + amount,
            Err(refusal) => amount > MAX_INCREASE && refusal@ == increase_refused(),
        },
{
    if amount <= MAX_INCREASE {
        Ok(account.get_balance() + amount)
    } else {
        Err(String::from_str("Increase must be less than 10!"))
    }
}

} // verus!
