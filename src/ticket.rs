use vstd::prelude::*;
use crate::account::Account;
use crate::address::{check_derived, derived, make_ticket_seeds, seeds_view, ticket_seeds, Address};
use crate::codec::{
    get_key, get_u16, get_u32, holds_at, le16, le32, lemma_u16_round_trip, lemma_u32_round_trip,
    put_bytes, put_u16_le, put_u32_le, put_u8, u16_at, u32_at,
};
use crate::error::{CustomError, ProcessError};
use crate::state::overwrite;

verus! {

/// "AGLB": the first bytes of every initialized ticket record.
pub open spec fn ticket_prefix() -> Seq<u8> {
    seq![65u8, 71, 76, 66]
}

/// Version tag written into new tickets.
pub const TICKET_VERSION: u8 = 0;

/// Bytes a ticket record takes.
pub const TICKET_LEN: usize = 47;

/// Schema generations of the ticket record.
pub enum TicketVersion {
    Version0,
}

/// Record of one issued unit.
#[derive(Clone, Copy, Debug)]
pub struct Ticket {
    pub prefix: [u8; 4],
    pub version: u8,
    pub owner: Address,
    pub lootbox_id: u16,
    pub issue_index: u32,
    pub external_id: u32,
}

pub open spec fn encode_ticket(t: Ticket) -> Seq<u8> {
    t.prefix@ + seq![t.version] + t.owner@ + le16(t.lootbox_id) + le32(t.issue_index) + le32(
        t.external_id,
    )
}

/// The ticket stored at the start of `d`.
pub open spec fn parse_ticket(d: Seq<u8>) -> Option<Ticket> {
    if d.len() < TICKET_LEN {
        None
    } else {
        Some(
            Ticket {
                prefix: choose|a: [u8; 4]| a@ == d.subrange(0, 4),
                version: d[4],
                owner: choose|a: [u8; 32]| a@ == d.subrange(5, 37),
                lootbox_id: u16_at(d, 37),
                issue_index: u32_at(d, 39),
                external_id: u32_at(d, 43),
            },
        )
    }
}

/// A record is an initialized ticket when it starts with the prefix.
pub open spec fn ticket_initialized(d: Seq<u8>) -> bool {
    d.len() >= 4 && d.subrange(0, 4) == ticket_prefix()
}

/// The first failure of a ticket issue, in the order the checks run.
pub open spec fn create_error(
    buyer_signed: bool,
    buyer: Seq<u8>,
    ticket_key: Seq<u8>,
    ticket_data: Seq<u8>,
    lootbox_id: u16,
    ticket_seed: u32,
    buy_index: u8,
    bump: Option<u8>,
    program: Seq<u8>,
) -> Option<ProcessError> {
    if !buyer_signed {
        Some(ProcessError::Custom(CustomError::WrongSigner))
    } else if ticket_initialized(ticket_data) {
        Some(ProcessError::Custom(CustomError::TicketAccountAlreadyUsed))
    } else {
        match derived(ticket_seeds(buyer, lootbox_id, ticket_seed, buy_index), bump, program) {
            None => Some(ProcessError::InvalidSeeds),
            Some(a) => if a == ticket_key {
                None
            } else {
                Some(ProcessError::Custom(CustomError::TicketAccountMismatch))
            },
        }
    }
}

/// The first failure of a ticket redemption, in the order the checks run.
pub open spec fn close_error(owner_signed: bool, owner: Seq<u8>, ticket_data: Seq<u8>) -> Option<
    ProcessError,
> {
    if !owner_signed {
        Some(ProcessError::Custom(CustomError::WrongSigner))
    } else if !ticket_initialized(ticket_data) {
        Some(ProcessError::Custom(CustomError::TicketAccountNotExists))
    } else if parse_ticket(ticket_data) is None {
        Some(ProcessError::InvalidAccountData)
    } else if parse_ticket(ticket_data)->Some_0.owner@ != owner {
        Some(ProcessError::Custom(CustomError::WrongTicketOwner))
    } else {
        None
    }
}

/// A ticket that passed its checks: the record, its bytes, and the seeds
/// that sign for its address.
pub struct IssuedTicket {
    pub ticket: Ticket,
    pub data: Vec<u8>,
    pub seeds: Vec<Vec<u8>>,
}

impl Ticket {
    /// The record's bytes.
    pub fn encode(&self) -> (r: Vec<u8>)
        ensures
            r@ == encode_ticket(*self),
            r@.len() == TICKET_LEN,
    {
        let mut out: Vec<u8> = Vec::new();
        put_bytes(&mut out, self.prefix.as_slice());
        put_u8(&mut out, self.version);
        put_bytes(&mut out, self.owner.as_slice());
        put_u16_le(&mut out, self.lootbox_id);
        put_u32_le(&mut out, self.issue_index);
        put_u32_le(&mut out, self.external_id);
        out
    }

    /// The stored bytes with this ticket written over their start; fails
    /// when the ticket does not fit.
    pub fn save_to(&self, d: &Vec<u8>) -> (r: Result<Vec<u8>, ProcessError>)
        ensures
            TICKET_LEN <= d@.len() ==> (r matches Ok(n) && n@ == overwrite(d@, encode_ticket(*self))),
            TICKET_LEN > d@.len() ==> r == Err::<Vec<u8>, ProcessError>(
                ProcessError::Custom(CustomError::NotEnoughSpace),
            ),
    {
        if d.len() < TICKET_LEN {
            return Err(ProcessError::Custom(CustomError::NotEnoughSpace));
        }
        let mut out = self.encode();
        let mut i: usize = TICKET_LEN;
        while i < d.len()
            invariant
                TICKET_LEN <= i <= d@.len(),
                out@ == encode_ticket(*self) + d@.subrange(TICKET_LEN as int, i as int),
            decreases d@.len() - i,
        {
            out.push(d[i]);
            i = i + 1;
            assert(out@ =~= encode_ticket(*self) + d@.subrange(TICKET_LEN as int, i as int));
        }
        Ok(out)
    }

    /// Reads the ticket at the start of `d`.
    pub fn load_from(d: &Vec<u8>) -> (r: Result<Ticket, ProcessError>)
        ensures
            match parse_ticket(d@) {
                Some(t) => r == Ok::<Ticket, ProcessError>(t),
                None => r == Err::<Ticket, ProcessError>(ProcessError::InvalidAccountData),
            },
    {
        if d.len() < TICKET_LEN {
            return Err(ProcessError::InvalidAccountData);
        }
        let mut prefix: [u8; 4] = [0u8; 4];
        prefix[0] = d[0];
        prefix[1] = d[1];
        prefix[2] = d[2];
        prefix[3] = d[3];
        assert(prefix@ =~= d@.subrange(0, 4));
        let owner = get_key(d, 5);
        let t = Ticket {
            prefix,
            version: d[4],
            owner,
            lootbox_id: get_u16(d, 37),
            issue_index: get_u32(d, 39),
            external_id: get_u32(d, 43),
        };
        proof {
            let p = parse_ticket(d@)->Some_0;
            assert(p.prefix@ == prefix@);
            assert(p.owner@ == owner@);
            assert(p.prefix =~= prefix);
            assert(p.owner =~= owner);
        }
        Ok(t)
    }

    /// Whether the stored bytes hold a ticket.
    pub fn if_initialized(d: &Vec<u8>) -> (r: bool)
        ensures
            r == ticket_initialized(d@),
    {
        let r = d.len() >= 4 && d[0] == 65 && d[1] == 71 && d[2] == 76 && d[3] == 66;
        proof {
            if d@.len() >= 4 {
                assert(r == (d@.subrange(0, 4) =~= ticket_prefix()));
            }
        }
        r
    }

    /// The stored version tag.
    pub fn get_version(d: &Vec<u8>) -> (r: u8)
        requires
            d@.len() > 4,
        ensures
            r == d@[4],
    {
        d[4]
    }

    /// The version tag written into new tickets.
    pub fn get_last_version() -> (r: u8)
        ensures
            r == TICKET_VERSION,
    {
        TICKET_VERSION
    }

    /// Number of bytes a ticket record takes.
    pub fn serialized_len(&self) -> (r: usize)
        ensures
            r == encode_ticket(*self).len(),
            r == TICKET_LEN,
    {
        TICKET_LEN
    }

    /// Checks that `buyer` signed, that the ticket account is unused and that
    /// it is the address derived from `[buyer, "ticket", lootbox_id,
    /// ticket_seed, buy_index]`; returns the new record for it.
    pub fn verify_and_create(
        program_id: &Address,
        buyer: &Account,
        lootbox_id: u16,
        ticket_seed: u32,
        buy_index: u8,
        issue_index: u32,
        ticket_acc: &Account,
        bump: Option<u8>,
        external_id: Option<u32>,
    ) -> (r: Result<IssuedTicket, ProcessError>)
        ensures
            match create_error(
                buyer.is_signer,
                buyer.key@,
                ticket_acc.key@,
                ticket_acc.data@,
                lootbox_id,
                ticket_seed,
                buy_index,
                bump,
                program_id@,
            ) {
                Some(e) => r matches Err(x) && x == e,
                None => r is Ok,
            },
            r matches Ok(i) ==> {
                &&& i.ticket.prefix@ == ticket_prefix()
                &&& i.ticket.version == TICKET_VERSION
                &&& i.ticket.owner == buyer.key
                &&& i.ticket.lootbox_id == lootbox_id
                &&& i.ticket.issue_index == issue_index
                &&& i.ticket.external_id == (match external_id {
                    Some(x) => x,
                    None => 0,
                })
                &&& i.data@ == encode_ticket(i.ticket)
                &&& exists|b: u8|
                    seeds_view(i.seeds@) == ticket_seeds(buyer.key@, lootbox_id, ticket_seed, buy_index).push(seq![b])
                        && crate::address::derived_with(
                        ticket_seeds(buyer.key@, lootbox_id, ticket_seed, buy_index),
                        b,
                        program_id@,
                    ) == Some(ticket_acc.key@)
            },
    {
        if !buyer.is_signer {
            return Err(ProcessError::Custom(CustomError::WrongSigner));
        }
        if Ticket::if_initialized(&ticket_acc.data) {
            return Err(ProcessError::Custom(CustomError::TicketAccountAlreadyUsed));
        }
        let mut seeds = make_ticket_seeds(&buyer.key, lootbox_id, ticket_seed, buy_index);
        let b = check_derived(
            &seeds,
            bump,
            program_id,
            &ticket_acc.key,
            ProcessError::Custom(CustomError::TicketAccountMismatch),
        )?;
        let mut last: Vec<u8> = Vec::new();
        last.push(b);
        seeds.push(last);
        assert(seeds_view(seeds@) =~= ticket_seeds(buyer.key@, lootbox_id, ticket_seed, buy_index).push(seq![b]));
        let ticket = Ticket {
            prefix: [65u8, 71, 76, 66],
            version: Ticket::get_last_version(),
            owner: buyer.key,
            lootbox_id,
            issue_index,
            external_id: match external_id {
                Some(x) => x,
                None => 0,
            },
        };
        assert(ticket.prefix@ =~= ticket_prefix());
        let data = ticket.encode();
        Ok(IssuedTicket { ticket, data, seeds })
    }

    /// Redeems a ticket: checks that `owner` signed and holds it, moves the
    /// ticket account's balance to `owner` and zeroes its bytes.
    pub fn verify_and_close(owner: &mut Account, ticket_acc: &mut Account) -> (r: Result<
        (),
        ProcessError,
    >)
        ensures
            close_error(old(owner).is_signer, old(owner).key@, old(ticket_acc).data@) matches Some(e)
                ==> r == Err::<(), ProcessError>(e),
            close_error(old(owner).is_signer, old(owner).key@, old(ticket_acc).data@) is None ==> {
                if old(owner).lamports + old(ticket_acc).lamports > u64::MAX {
                    r == Err::<(), ProcessError>(ProcessError::ArithmeticOverflow)
                } else {
                    r is Ok
                }
            },
            r is Ok ==> {
                &&& final(owner).lamports == old(owner).lamports + old(ticket_acc).lamports
                &&& final(ticket_acc).lamports == 0
                &&& final(ticket_acc).data@ == Seq::new(old(ticket_acc).data@.len(), |i: int| 0u8)
                &&& final(owner).key == old(owner).key && final(owner).is_signer == old(owner).is_signer
                &&& final(owner).data == old(owner).data
                &&& final(ticket_acc).key == old(ticket_acc).key
                &&& final(ticket_acc).is_signer == old(ticket_acc).is_signer
            },
            r is Err ==> *final(owner) == *old(owner) && *final(ticket_acc) == *old(ticket_acc),
    {
        if !owner.is_signer {
            return Err(ProcessError::Custom(CustomError::WrongSigner));
        }
        if !Ticket::if_initialized(&ticket_acc.data) {
            return Err(ProcessError::Custom(CustomError::TicketAccountNotExists));
        }
        let ticket = Ticket::load_from(&ticket_acc.data)?;
        if !crate::address::same_address(&ticket.owner, &owner.key) {
            return Err(ProcessError::Custom(CustomError::WrongTicketOwner));
        }
        let total = match owner.lamports.checked_add(ticket_acc.lamports) {
            Some(t) => t,
            None => return Err(ProcessError::ArithmeticOverflow),
        };
        owner.lamports = total;
        ticket_acc.lamports = 0;
        let n = ticket_acc.data.len();
        let mut zeros: Vec<u8> = Vec::with_capacity(n);
        let mut i: usize = 0;
        while i < n
            invariant
                i <= n,
                zeros@ == Seq::new(i as nat, |j: int| 0u8),
            decreases n - i,
        {
            zeros.push(0u8);
            i = i + 1;
            assert(zeros@ =~= Seq::new(i as nat, |j: int| 0u8));
        }
        ticket_acc.data = zeros;
        Ok(())
    }
}

/// A stored ticket record marks its account as used.
pub proof fn lemma_stored_ticket_initialized(t: Ticket, d: Seq<u8>)
    requires
        t.prefix@ == ticket_prefix(),
        holds_at(d, 0, encode_ticket(t)),
    ensures
        ticket_initialized(d),
{
    assert(d.subrange(0, 4) =~= encode_ticket(t).subrange(0, 4));
    assert(encode_ticket(t).subrange(0, 4) =~= t.prefix@);
}

/// Issuing a ticket a second time at the same derived address fails with the
/// reuse error: once the first issue has stored its record there, the second
/// stops at the check that the account is unused, whatever else it is given.
pub proof fn lemma_second_issue_rejected(
    first: Ticket,
    stored: Seq<u8>,
    buyer: Seq<u8>,
    ticket_key: Seq<u8>,
    lootbox_id: u16,
    ticket_seed: u32,
    buy_index: u8,
    bump: Option<u8>,
    program: Seq<u8>,
)
    requires
        first.prefix@ == ticket_prefix(),
        holds_at(stored, 0, encode_ticket(first)),
    ensures
        create_error(true, buyer, ticket_key, stored, lootbox_id, ticket_seed, buy_index, bump, program)
            == Some(ProcessError::Custom(CustomError::TicketAccountAlreadyUsed)),
{
    lemma_stored_ticket_initialized(first, stored);
}

/// Decoding a stored ticket gives it back.
pub proof fn lemma_ticket_round_trip(t: Ticket, d: Seq<u8>)
    requires
        holds_at(d, 0, encode_ticket(t)),
    ensures
        parse_ticket(d) == Some(t),
{
    let e = encode_ticket(t);
    assert(e.len() == TICKET_LEN);
    assert(d.subrange(0, 47) == e);
    assert(d.subrange(0, 4) =~= t.prefix@);
    assert(d[4] == e[4]);
    assert(d.subrange(5, 37) =~= e.subrange(5, 37));
    assert(e.subrange(5, 37) =~= t.owner@);
    assert(d.subrange(37, 39) =~= e.subrange(37, 39));
    assert(e.subrange(37, 39) =~= le16(t.lootbox_id));
    assert(d.subrange(39, 43) =~= e.subrange(39, 43));
    assert(e.subrange(39, 43) =~= le32(t.issue_index));
    assert(d.subrange(43, 47) =~= e.subrange(43, 47));
    assert(e.subrange(43, 47) =~= le32(t.external_id));
    lemma_u16_round_trip(d, 37, t.lootbox_id);
    lemma_u32_round_trip(d, 39, t.issue_index);
    lemma_u32_round_trip(d, 43, t.external_id);
    let p = parse_ticket(d)->Some_0;
    assert(p.prefix@ == t.prefix@);
    assert(p.owner@ == t.owner@);
    assert(p.prefix =~= t.prefix);
    assert(p.owner =~= t.owner);
}


/// Redeeming a ticket that another identity holds always fails, whether or
/// not the caller signed the request.
pub proof fn lemma_foreign_ticket_rejected(caller_signed: bool, caller: Seq<u8>, stored: Seq<u8>)
    requires
        parse_ticket(stored) is Some,
        parse_ticket(stored)->Some_0.owner@ != caller,
    ensures
        close_error(caller_signed, caller, stored) is Some,
{
}

} // verus!
