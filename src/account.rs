use vstd::prelude::*;
use crate::address::Address;
use crate::codec::put_bytes;

verus! {

/// What a request sees of one account: its address, whether it signed the
/// request, its balance and its stored bytes.
#[derive(Debug)]
pub struct Account {
    pub key: Address,
    pub is_signer: bool,
    pub lamports: u64,
    pub data: Vec<u8>,
}

impl Account {
    /// An independent copy of the account.
    pub fn duplicate(&self) -> (r: Account)
        ensures
            r.key == self.key,
            r.is_signer == self.is_signer,
            r.lamports == self.lamports,
            r.data@ == self.data@,
    {
        let mut data: Vec<u8> = Vec::new();
        put_bytes(&mut data, self.data.as_slice());
        Account { key: self.key, is_signer: self.is_signer, lamports: self.lamports, data }
    }
}

} // verus!
