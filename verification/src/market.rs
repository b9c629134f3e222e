//! Buyers and sellers, told apart by how they pay.

use vstd::prelude::*;

verus! {

/// A means of payment.
#[derive(Debug, Clone, Copy, PartialEq, Eq, Structural)]
pub enum PaymentType {
    DigitalToken,
    Cash,
}

/// The result of `find_buyer` where no buyer is found.
pub const NOT_FOUND: i32 = -1;

/// The position of the first buyer who pays by `payment_type`, where
/// `payment_types` holds the buyers' means of payment in their order; -1
/// where there is none.
pub fn find_buyer(payment_types: &Vec<PaymentType>, payment_type: PaymentType) -> (r: i32)
    requires
        payment_types.len() <= i32::MAX,
    ensures
        r == NOT_FOUND <==> forall|j: int|
            0 <= j < payment_types.len() ==> payment_types[j] != payment_type,
        r != NOT_FOUND ==> 0 <= r < payment_types.len() && payment_types[r as int] == payment_type
            && forall|j: int| 0 <= j < r ==> payment_types[j] != payment_type,
{
    let mut index: usize = 0;
    while index < payment_types.len()
        invariant
            index <= payment_types.len() <= i32::MAX,
            forall|j: int| 0 <= j < index ==> payment_types[j] != payment_type,
        decreases payment_types.len() - index,
    {
        if payment_types[index] == payment_type {
            return index as i32;
        }
        index += 1;
    }
    NOT_FOUND
}

/// Whether a buyer who pays by `buyer` can buy from a seller who takes
/// `seller`.
pub fn can_trade(buyer: PaymentType, seller: PaymentType) -> (r: bool)
    ensures
        r == (buyer == seller),
{
    match buyer {
        PaymentType::DigitalToken => match seller {
            PaymentType::DigitalToken => true,
            PaymentType::Cash => false,
        },
        PaymentType::Cash => match seller {
            PaymentType::Cash => true,
            PaymentType::DigitalToken => false,
        },
    }
}

} // verus!
