use vstd::prelude::*;
use crate::address::Address;
use crate::codec::{
    get_bytes, get_key, get_key33, get_sig64, get_text, get_u16, get_u32, get_u64, get_u64_list,
    le16, le32, le64, lemma_text_round_trip, lemma_u16_bytes, lemma_u32_bytes,
    lemma_u32_round_trip, lemma_u64_bytes, parse_text, text_bytes, text_fits, u32_at, u64_list_bytes,
};
use crate::error::ProcessError;

verus! {

/// A recoverable signature: the recovery id and the 64 bytes of `r` and `s`.
#[derive(Clone, Copy, Debug)]
pub struct Signature {
    pub rec_id: u8,
    pub rs: [u8; 64],
}

#[derive(Debug)]
pub struct WithdrawParam {
    pub lootbox_id: u16,
    pub expire_at: u32,
    pub signature: Signature,
    /// Number of tickets redeemed.
    pub tickets: u8,
    /// One amount per token payout.
    pub amounts: Vec<u64>,
}

#[derive(Debug)]
pub struct ObtainTicketParams {
    pub lootbox_id: u16,
    pub bump: u8,
    pub id: u32,
    pub expire_at: u32,
    pub signature: Signature,
}

#[derive(Debug)]
pub struct BuyParam {
    pub lootbox_id: u16,
    /// One bump per ticket to issue.
    pub ticket_bumps: Vec<u8>,
    pub ticket_seed: u32,
}

#[derive(Debug)]
pub struct InitializeParams {
    pub lootbox_id: u16,
    pub vault_bump: u8,
    pub state_bump: u8,
    pub max_supply: u32,
    pub begin_ts: u32,
    pub end_ts: u32,
    pub signer: [u8; 33],
    pub name: String,
    /// One amount per price account, in the order the accounts follow.
    pub prices: Vec<u64>,
    pub base_url: String,
}

#[derive(Clone, Copy, Debug)]
pub struct MigrateToV3Params {
    pub state_bump: u8,
}

/// Which fields an update applies is a bit mask; the other fields are ignored.
#[derive(Clone, Copy, Debug)]
pub struct UpdateStateParams {
    pub state_bump: u8,
    pub lootbox_id: u16,
    pub enabled_fields: u32,
    pub max_supply: u32,
    pub begin_ts: u32,
    pub end_ts: u32,
    pub price_ata: Address,
    pub price_amount: u64,
}

#[derive(Clone, Copy, Debug)]
pub struct TransferParams {
    pub amount: u64,
}

pub const MAX_SUPPLY_FLAG: u32 = 1;

pub const BEGIN_TS_FLAG: u32 = 2;

pub const END_TS_FLAG: u32 = 4;

pub const PRICE_FLAG: u32 = 8;

impl UpdateStateParams {
    pub open spec fn has_flag(&self, flag: u32) -> bool {
        self.enabled_fields & flag == flag
    }

    fn is_field(&self, flag: u32) -> (r: bool)
        ensures
            r == self.has_flag(flag),
    {
        (self.enabled_fields & flag) == flag
    }

    pub fn is_max_supply(&self) -> (r: bool)
        ensures
            r == self.has_flag(MAX_SUPPLY_FLAG),
    {
        self.is_field(MAX_SUPPLY_FLAG)
    }

    pub fn is_begin_ts(&self) -> (r: bool)
        ensures
            r == self.has_flag(BEGIN_TS_FLAG),
    {
        self.is_field(BEGIN_TS_FLAG)
    }

    pub fn is_end_ts(&self) -> (r: bool)
        ensures
            r == self.has_flag(END_TS_FLAG),
    {
        self.is_field(END_TS_FLAG)
    }

    pub fn is_price(&self) -> (r: bool)
        ensures
            r == self.has_flag(PRICE_FLAG),
    {
        self.is_field(PRICE_FLAG)
    }
}

/// A request. The tag byte that selects each kind is given beside it; the
/// two oldest kinds are still recognised so that they can be refused.
#[derive(Debug)]
pub enum Instruction {
    /// 0
    OldBuy,
    /// 1
    OldWithdraw,
    /// 2
    Withdraw(WithdrawParam),
    /// 3
    ObtainTicket(ObtainTicketParams),
    /// 4
    Buy(BuyParam),
    /// 252
    UpdateState(UpdateStateParams),
    /// 253
    MigrateToV3(MigrateToV3Params),
    /// 254
    AdminWithdraw { lootbox_id: u16, amount: u64 },
    /// 255
    Initialize(InitializeParams),
}

pub open spec fn signature_bytes(s: Signature) -> Seq<u8> {
    seq![s.rec_id] + s.rs@
}

/// The request's bytes: the tag, then the fields in declaration order;
/// integers little-endian, strings and lists prefixed by their length.
pub open spec fn encode_instruction(i: Instruction) -> Seq<u8> {
    match i {
        Instruction::OldBuy => seq![0u8],
        Instruction::OldWithdraw => seq![1u8],
        Instruction::Withdraw(p) => seq![2u8] + le16(p.lootbox_id) + le32(p.expire_at)
            + signature_bytes(p.signature) + seq![p.tickets] + le32(p.amounts@.len() as u32)
            + u64_list_bytes(p.amounts@),
        Instruction::ObtainTicket(p) => seq![3u8] + le16(p.lootbox_id) + seq![p.bump] + le32(p.id)
            + le32(p.expire_at) + signature_bytes(p.signature),
        Instruction::Buy(p) => seq![4u8] + le16(p.lootbox_id) + le32(p.ticket_bumps@.len() as u32)
            + p.ticket_bumps@ + le32(p.ticket_seed),
        Instruction::UpdateState(p) => seq![252u8, p.state_bump] + le16(p.lootbox_id) + le32(
            p.enabled_fields,
        ) + le32(p.max_supply) + le32(p.begin_ts) + le32(p.end_ts) + p.price_ata@ + le64(
            p.price_amount,
        ),
        Instruction::MigrateToV3(p) => seq![253u8, p.state_bump],
        Instruction::AdminWithdraw { lootbox_id, amount } => seq![254u8] + le16(lootbox_id) + le64(
            amount,
        ),
        Instruction::Initialize(p) => seq![255u8] + le16(p.lootbox_id) + seq![p.vault_bump, p.state_bump]
            + le32(p.max_supply) + le32(p.begin_ts) + le32(p.end_ts) + p.signer@ + text_bytes(p.name@)
            + le32(p.prices@.len() as u32) + u64_list_bytes(p.prices@) + text_bytes(p.base_url@),
    }
}

/// The tags that select a request kind.
pub open spec fn known_tag(t: u8) -> bool {
    t <= 4 || t >= 252
}


/// Every length that the encoding prefixes fits its `u32` prefix.
pub open spec fn instruction_encodable(i: Instruction) -> bool {
    match i {
        Instruction::Withdraw(p) => p.amounts@.len() <= u32::MAX,
        Instruction::Buy(p) => p.ticket_bumps@.len() <= u32::MAX,
        Instruction::Initialize(p) => text_fits(p.name@) && text_fits(p.base_url@) && p.prices@.len()
            <= u32::MAX,
        _ => true,
    }
}

proof fn lemma_u64_list_len(xs: Seq<u64>)
    ensures
        u64_list_bytes(xs).len() == 8 * xs.len(),
    decreases xs.len(),
{
    if xs.len() > 0 {
        lemma_u64_list_len(xs.drop_last());
    }
}

proof fn lemma_withdraw_shape(p: WithdrawParam, d: Seq<u8>)
    requires
        encode_instruction(Instruction::Withdraw(p)) == d,
        p.amounts@.len() <= u32::MAX,
    ensures
        d.len() == 77 + 8 * p.amounts@.len(),
        u32_at(d, 73) == p.amounts@.len(),
{
    lemma_u64_list_len(p.amounts@);
    assert(d.subrange(73, 77) =~= le32(p.amounts@.len() as u32));
    lemma_u32_round_trip(d, 73, p.amounts@.len() as u32);
}

proof fn lemma_buy_shape(p: BuyParam, d: Seq<u8>)
    requires
        encode_instruction(Instruction::Buy(p)) == d,
        p.ticket_bumps@.len() <= u32::MAX,
    ensures
        d.len() == 11 + p.ticket_bumps@.len(),
        u32_at(d, 3) == p.ticket_bumps@.len(),
{
    assert(d.subrange(3, 7) =~= le32(p.ticket_bumps@.len() as u32));
    lemma_u32_round_trip(d, 3, p.ticket_bumps@.len() as u32);
}

proof fn lemma_initialize_shape(p: InitializeParams, d: Seq<u8>)
    requires
        encode_instruction(Instruction::Initialize(p)) == d,
        text_fits(p.name@),
        text_fits(p.base_url@),
        p.prices@.len() <= u32::MAX,
    ensures
        ({
            let q1: int = 50 + text_bytes(p.name@).len() as int;
            let q3: int = q1 + 4 + 8 * p.prices@.len() as int;
            &&& d.len() >= 52
            &&& parse_text(d, 50) == Some((p.name@, q1))
            &&& q1 + 4 <= d.len()
            &&& u32_at(d, q1) == p.prices@.len()
            &&& q3 <= d.len()
            &&& parse_text(d, q3) == Some((p.base_url@, d.len() as int))
        }),
{
    let name = text_bytes(p.name@);
    let url = text_bytes(p.base_url@);
    let head = seq![255u8] + le16(p.lootbox_id) + seq![p.vault_bump, p.state_bump] + le32(p.max_supply)
        + le32(p.begin_ts) + le32(p.end_ts) + p.signer@;
    let plen = le32(p.prices@.len() as u32);
    let list = u64_list_bytes(p.prices@);
    lemma_u64_list_len(p.prices@);
    assert(head.len() == 50);
    assert(d == head + name + plen + list + url);
    let q1: int = 50 + name.len() as int;
    assert(d.subrange(50, q1) =~= name);
    lemma_text_round_trip(d, 50, p.name@);
    assert(d.subrange(q1, q1 + 4) =~= plen);
    lemma_u32_round_trip(d, q1, p.prices@.len() as u32);
    let q3: int = q1 + 4 + list.len() as int;
    assert(d.subrange(q3, q3 + url.len() as int) =~= url);
    lemma_text_round_trip(d, q3, p.base_url@);
}


pub open spec fn tag_of(i: Instruction) -> u8 {
    match i {
        Instruction::OldBuy => 0,
        Instruction::OldWithdraw => 1,
        Instruction::Withdraw(_) => 2,
        Instruction::ObtainTicket(_) => 3,
        Instruction::Buy(_) => 4,
        Instruction::UpdateState(_) => 252,
        Instruction::MigrateToV3(_) => 253,
        Instruction::AdminWithdraw { .. } => 254,
        Instruction::Initialize(_) => 255,
    }
}

/// What the bytes of an encodable request show: its tag first, and the
/// lengths its fields fix.
pub open spec fn shape_facts(i: Instruction, d: Seq<u8>) -> bool {
    &&& (d.len() >= 1)
    &&& (d[0] == tag_of(i))
    &&& ((i is OldBuy || i is OldWithdraw) ==> d.len() == 1)
    &&& (i is Withdraw ==> d.len() >= 77 && d.len() == 77 + 8 * u32_at(d, 73))
    &&& (i is ObtainTicket ==> d.len() == 77)
    &&& (i is Buy ==> d.len() >= 11 && d.len() == 11 + u32_at(d, 3))
    &&& (i is UpdateState ==> d.len() == 60)
    &&& (i is MigrateToV3 ==> d.len() == 2)
    &&& (i is AdminWithdraw ==> d.len() == 11)
    &&& (i matches Instruction::Initialize(p) ==> ({
            let q1: int = 50 + text_bytes(p.name@).len() as int;
            let q3: int = q1 + 4 + 8 * p.prices@.len() as int;
            &&& d.len() >= 52
            &&& parse_text(d, 50) == Some((p.name@, q1))
            &&& q1 + 4 <= d.len()
            &&& u32_at(d, q1) == p.prices@.len()
            &&& q3 <= d.len()
            &&& parse_text(d, q3) == Some((p.base_url@, d.len() as int))
        }))
}

proof fn lemma_shape(i: Instruction, d: Seq<u8>)
    requires
        instruction_encodable(i),
        encode_instruction(i) == d,
    ensures
        shape_facts(i, d),
{
    match i {
        Instruction::Withdraw(p) => lemma_withdraw_shape(p, d),
        Instruction::Buy(p) => lemma_buy_shape(p, d),
        Instruction::Initialize(p) => lemma_initialize_shape(p, d),
        _ => {},
    }
}

proof fn lemma_shapes(d: Seq<u8>)
    ensures
        forall|i: Instruction|
            instruction_encodable(i) && #[trigger] encode_instruction(i) == d ==> shape_facts(i, d),
{
    assert forall|i: Instruction|
        instruction_encodable(i) && #[trigger] encode_instruction(i) == d implies shape_facts(i, d) by {
        lemma_shape(i, d);
    }
}

/// No encodable request encodes to `d`.
pub open spec fn no_encoding(d: Seq<u8>) -> bool {
    forall|i: Instruction| instruction_encodable(i) ==> encode_instruction(i) != d
}

fn get_signature(d: &Vec<u8>, p: usize) -> (r: Signature)
    requires
        p + 65 <= d.len(),
    ensures
        signature_bytes(r) == d@.subrange(p as int, p + 65),
{
    let rec_id = d[p];
    let rs = get_sig64(d, p + 1);
    let r = Signature { rec_id, rs };
    assert(signature_bytes(r) =~= d@.subrange(p as int, p + 65));
    r
}

/// Whether `p + n` is within `d`.
fn fits(d: &Vec<u8>, p: usize, n: usize) -> (r: bool)
    ensures
        r == (p + n <= d.len()),
{
    p <= d.len() && d.len() - p >= n
}

impl Instruction {
    /// Decodes a request; every byte must belong to it.
    pub fn unpack(d: &Vec<u8>) -> (r: Result<Instruction, ProcessError>)
        ensures
            r matches Ok(i) ==> encode_instruction(i) == d@ && instruction_encodable(i),
            r is Err ==> r == Err::<Instruction, ProcessError>(ProcessError::InvalidInstructionData),
            r is Err ==> no_encoding(d@),
            d@.len() == 0 || !known_tag(d@[0]) ==> r is Err,
            d@ == seq![0u8] ==> r matches Ok(Instruction::OldBuy),
            d@ == seq![1u8] ==> r matches Ok(Instruction::OldWithdraw),
    {
        let ghost dv = d@;
        if d.len() == 0 {
            proof {
                lemma_shapes(dv);
            }
            return Err(ProcessError::InvalidInstructionData);
        }
        let tag = d[0];
        if tag == 0 {
            if d.len() != 1 {
                proof {
                    lemma_shapes(dv);
                }
                return Err(ProcessError::InvalidInstructionData);
            }
            assert(dv =~= seq![0u8]);
            Ok(Instruction::OldBuy)
        } else if tag == 1 {
            if d.len() != 1 {
                proof {
                    lemma_shapes(dv);
                }
                return Err(ProcessError::InvalidInstructionData);
            }
            assert(dv =~= seq![1u8]);
            Ok(Instruction::OldWithdraw)
        } else if tag == 2 {
            if !fits(d, 0, 77) {
                proof {
                    lemma_shapes(dv);
                }
                return Err(ProcessError::InvalidInstructionData);
            }
            let lootbox_id = get_u16(d, 1);
            let expire_at = get_u32(d, 3);
            let signature = get_signature(d, 7);
            let tickets = d[72];
            let n = get_u32(d, 73) as usize;
            if (d.len() - 77) / 8 < n || d.len() - 77 != 8 * n {
                proof {
                    lemma_shapes(dv);
                }
                return Err(ProcessError::InvalidInstructionData);
            }
            let amounts = get_u64_list(d, 77, n);
            let p = WithdrawParam { lootbox_id, expire_at, signature, tickets, amounts };
            proof {
                lemma_u16_bytes(dv, 1);
                lemma_u32_bytes(dv, 3);
                lemma_u32_bytes(dv, 73);
                assert(encode_instruction(Instruction::Withdraw(p)) =~= dv);
            }
            Ok(Instruction::Withdraw(p))
        } else if tag == 3 {
            if d.len() != 77 {
                proof {
                    lemma_shapes(dv);
                }
                return Err(ProcessError::InvalidInstructionData);
            }
            let p = ObtainTicketParams {
                lootbox_id: get_u16(d, 1),
                bump: d[3],
                id: get_u32(d, 4),
                expire_at: get_u32(d, 8),
                signature: get_signature(d, 12),
            };
            proof {
                lemma_u16_bytes(dv, 1);
                lemma_u32_bytes(dv, 4);
                lemma_u32_bytes(dv, 8);
                assert(encode_instruction(Instruction::ObtainTicket(p)) =~= dv);
            }
            Ok(Instruction::ObtainTicket(p))
        } else if tag == 4 {
            if !fits(d, 1, 6) {
                proof {
                    lemma_shapes(dv);
                }
                return Err(ProcessError::InvalidInstructionData);
            }
            let lootbox_id = get_u16(d, 1);
            let n = get_u32(d, 3) as usize;
            if d.len() - 7 < n || d.len() - 7 - n != 4 {
                proof {
                    lemma_shapes(dv);
                }
                return Err(ProcessError::InvalidInstructionData);
            }
            let ticket_bumps = get_bytes(d, 7, n);
            let ticket_seed = get_u32(d, 7 + n);
            let p = BuyParam { lootbox_id, ticket_bumps, ticket_seed };
            proof {
                lemma_u16_bytes(dv, 1);
                lemma_u32_bytes(dv, 3);
                lemma_u32_bytes(dv, 7 + n);
                assert(encode_instruction(Instruction::Buy(p)) =~= dv);
            }
            Ok(Instruction::Buy(p))
        } else if tag == 252 {
            if d.len() != 60 {
                proof {
                    lemma_shapes(dv);
                }
                return Err(ProcessError::InvalidInstructionData);
            }
            let p = UpdateStateParams {
                state_bump: d[1],
                lootbox_id: get_u16(d, 2),
                enabled_fields: get_u32(d, 4),
                max_supply: get_u32(d, 8),
                begin_ts: get_u32(d, 12),
                end_ts: get_u32(d, 16),
                price_ata: get_key(d, 20),
                price_amount: get_u64(d, 52),
            };
            proof {
                lemma_u16_bytes(dv, 2);
                lemma_u32_bytes(dv, 4);
                lemma_u32_bytes(dv, 8);
                lemma_u32_bytes(dv, 12);
                lemma_u32_bytes(dv, 16);
                lemma_u64_bytes(dv, 52);
                assert(encode_instruction(Instruction::UpdateState(p)) =~= dv);
            }
            Ok(Instruction::UpdateState(p))
        } else if tag == 253 {
            if d.len() != 2 {
                proof {
                    lemma_shapes(dv);
                }
                return Err(ProcessError::InvalidInstructionData);
            }
            let p = MigrateToV3Params { state_bump: d[1] };
            assert(encode_instruction(Instruction::MigrateToV3(p)) =~= dv);
            Ok(Instruction::MigrateToV3(p))
        } else if tag == 254 {
            if d.len() != 11 {
                proof {
                    lemma_shapes(dv);
                }
                return Err(ProcessError::InvalidInstructionData);
            }
            let lootbox_id = get_u16(d, 1);
            let amount = get_u64(d, 3);
            proof {
                lemma_u16_bytes(dv, 1);
                lemma_u64_bytes(dv, 3);
                assert(encode_instruction(Instruction::AdminWithdraw { lootbox_id, amount }) =~= dv);
            }
            Ok(Instruction::AdminWithdraw { lootbox_id, amount })
        } else if tag == 255 {
            Self::unpack_initialize(d)
        } else {
            proof {
                lemma_shapes(dv);
            }
            Err(ProcessError::InvalidInstructionData)
        }
    }

    fn unpack_initialize(d: &Vec<u8>) -> (r: Result<Instruction, ProcessError>)
        requires
            d@.len() > 0,
            d@[0] == 255,
        ensures
            r matches Ok(i) ==> encode_instruction(i) == d@ && instruction_encodable(i),
            r is Err ==> r == Err::<Instruction, ProcessError>(ProcessError::InvalidInstructionData),
            r is Err ==> no_encoding(d@),
    {
        let ghost dv = d@;
        if !fits(d, 0, 52) {
            proof {
                lemma_shapes(dv);
            }
            return Err(ProcessError::InvalidInstructionData);
        }
        let lootbox_id = get_u16(d, 1);
        let vault_bump = d[3];
        let state_bump = d[4];
        let max_supply = get_u32(d, 5);
        let begin_ts = get_u32(d, 9);
        let end_ts = get_u32(d, 13);
        let signer = get_key33(d, 17);
        let (name, pos1) = match get_text(d, 50) {
            Some(x) => x,
            None => {
                proof {
                    lemma_shapes(dv);
                }
                return Err(ProcessError::InvalidInstructionData);
            },
        };
        if !fits(d, pos1, 4) {
            proof {
                lemma_shapes(dv);
            }
            return Err(ProcessError::InvalidInstructionData);
        }
        let n = get_u32(d, pos1) as usize;
        let pos2 = pos1 + 4;
        if (d.len() - pos2) / 8 < n {
            proof {
                lemma_shapes(dv);
            }
            return Err(ProcessError::InvalidInstructionData);
        }
        let prices = get_u64_list(d, pos2, n);
        let pos3 = pos2 + 8 * n;
        let (base_url, pos4) = match get_text(d, pos3) {
            Some(x) => x,
            None => {
                proof {
                    lemma_shapes(dv);
                }
                return Err(ProcessError::InvalidInstructionData);
            },
        };
        if pos4 != d.len() {
            proof {
                lemma_shapes(dv);
            }
            return Err(ProcessError::InvalidInstructionData);
        }
        let p = InitializeParams {
            lootbox_id,
            vault_bump,
            state_bump,
            max_supply,
            begin_ts,
            end_ts,
            signer,
            name,
            prices,
            base_url,
        };
        proof {
            lemma_u16_bytes(dv, 1);
            lemma_u32_bytes(dv, 5);
            lemma_u32_bytes(dv, 9);
            lemma_u32_bytes(dv, 13);
            lemma_u32_bytes(dv, pos1 as int);
            assert(encode_instruction(Instruction::Initialize(p)) =~= dv);
        }
        Ok(Instruction::Initialize(p))
    }

    /// The request kind's name, for logs.
    pub fn name(&self) -> (r: &'static str)
        ensures
            r@ == instruction_name(*self),
    {
        match self {
            Instruction::OldBuy => "OldBuy",
            Instruction::OldWithdraw => "OldWithdraw",
            Instruction::Buy(_) => "Buy",
            Instruction::Withdraw(_) => "Withdraw",
            Instruction::ObtainTicket(_) => "ObtainTicket",
            Instruction::MigrateToV3(_) => "MigrationToV3",
            Instruction::AdminWithdraw { .. } => "AdminWithdraw",
            Instruction::Initialize(_) => "Initialize",
            Instruction::UpdateState(_) => "UpdateState",
        }
    }
}

pub open spec fn instruction_name(i: Instruction) -> Seq<char> {
    match i {
        Instruction::OldBuy => "OldBuy"@,
        Instruction::OldWithdraw => "OldWithdraw"@,
        Instruction::Buy(_) => "Buy"@,
        Instruction::Withdraw(_) => "Withdraw"@,
        Instruction::ObtainTicket(_) => "ObtainTicket"@,
        Instruction::MigrateToV3(_) => "MigrationToV3"@,
        Instruction::AdminWithdraw { .. } => "AdminWithdraw"@,
        Instruction::Initialize(_) => "Initialize"@,
        Instruction::UpdateState(_) => "UpdateState"@,
    }
}

} // verus!
