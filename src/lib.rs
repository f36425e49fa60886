use vstd::prelude::*;

pub mod account;
pub mod address;
pub mod codec;
pub mod error;
pub mod instruction;
pub mod processor;
pub mod state;
pub mod ticket;
pub mod voucher;

verus! {

} // verus!
