use vstd::prelude::*;
use crate::address::{
    check_derived, check_program_address, derived, make_state_seeds, program_address, make_vault_seeds, seeds_view, state_seeds,
    vault_seeds, Address,
};
use crate::codec::{
    get_key, get_key33, get_text, get_u16, get_u32, get_u64, holds_at, le16, le32, le64, lemma_u32_bytes,
    lemma_u64_bytes,
    lemma_text_parsed, lemma_text_round_trip, lemma_u16_bytes, lemma_u16_round_trip, lemma_u32_round_trip, lemma_u64_round_trip,
    parse_text, put_bytes, put_text, put_u16_le, put_u32_le, put_u64_le, put_u8, text_bytes,
    text_fits, u16_at, u32_at, u64_at,
};
use crate::account::Account;
use crate::error::{CustomError, ProcessError};

verus! {

/// Schema generations of the campaign record; the stored tag is 1 to 4.
#[derive(Clone, Copy, Debug, PartialEq, Eq, Structural)]
pub enum StateVersion {
    Version1,
    Version2,
    Version3,
    Version4,
}

pub open spec fn version_tag(v: StateVersion) -> u8 {
    match v {
        StateVersion::Version1 => 1,
        StateVersion::Version2 => 2,
        StateVersion::Version3 => 3,
        StateVersion::Version4 => 4,
    }
}

pub open spec fn version_of_tag(t: u8) -> Option<StateVersion> {
    if t == 1 {
        Some(StateVersion::Version1)
    } else if t == 2 {
        Some(StateVersion::Version2)
    } else if t == 3 {
        Some(StateVersion::Version3)
    } else if t == 4 {
        Some(StateVersion::Version4)
    } else {
        None
    }
}

/// Tag of the schema that handlers work on.
pub const CURRENT_VERSION: u8 = 4;

/// Room left beyond the encoded size when a record is allocated.
pub const STATE_SLACK: usize = 1024;

impl StateVersion {
    pub fn tag(&self) -> (r: u8)
        ensures
            r == version_tag(*self),
    {
        match self {
            StateVersion::Version1 => 1,
            StateVersion::Version2 => 2,
            StateVersion::Version3 => 3,
            StateVersion::Version4 => 4,
        }
    }

    pub fn from_tag(t: u8) -> (r: Option<StateVersion>)
        ensures
            r == version_of_tag(t),
    {
        if t == 1 {
            Some(StateVersion::Version1)
        } else if t == 2 {
            Some(StateVersion::Version2)
        } else if t == 3 {
            Some(StateVersion::Version3)
        } else if t == 4 {
            Some(StateVersion::Version4)
        } else {
            None
        }
    }
}

/// One accepted payment: its amount and the account that receives it.
#[derive(Clone, Copy, Debug)]
pub struct Price {
    pub amount: u64,
    pub ata: Address,
}

pub struct PriceModel {
    pub amount: u64,
    pub ata: Seq<u8>,
}

impl View for Price {
    type V = PriceModel;

    open spec fn view(&self) -> PriceModel {
        PriceModel { amount: self.amount, ata: self.ata@ }
    }
}

/// The persisted campaign record.
#[derive(Debug)]
pub struct State {
    pub version: StateVersion,
    pub id: u16,
    pub owner: Address,
    pub vault_bump: u8,
    pub total_supply: u32,
    pub max_supply: u32,
    pub begin_ts: u32,
    pub end_ts: u32,
    pub name: String,
    pub signer: [u8; 33],
    pub prices: Vec<Price>,
    pub base_url: String,
    pub withdraw_counter: u32,
}

pub struct StateModel {
    pub version: StateVersion,
    pub id: u16,
    pub owner: Seq<u8>,
    pub vault_bump: u8,
    pub total_supply: u32,
    pub max_supply: u32,
    pub begin_ts: u32,
    pub end_ts: u32,
    pub name: Seq<char>,
    pub signer: Seq<u8>,
    pub prices: Seq<PriceModel>,
    pub base_url: Seq<char>,
    pub withdraw_counter: u32,
}

impl View for State {
    type V = StateModel;

    open spec fn view(&self) -> StateModel {
        StateModel {
            version: self.version,
            id: self.id,
            owner: self.owner@,
            vault_bump: self.vault_bump,
            total_supply: self.total_supply,
            max_supply: self.max_supply,
            begin_ts: self.begin_ts,
            end_ts: self.end_ts,
            name: self.name@,
            signer: self.signer@,
            prices: self.prices@.map_values(|p: Price| p@),
            base_url: self.base_url@,
            withdraw_counter: self.withdraw_counter,
        }
    }
}

// ---- encoding ----

pub open spec fn price_bytes(p: PriceModel) -> Seq<u8> {
    le64(p.amount) + p.ata
}

/// The prices one after another, 40 bytes each.
pub open spec fn price_list_bytes(ps: Seq<PriceModel>) -> Seq<u8>
    decreases ps.len(),
{
    if ps.len() == 0 {
        Seq::empty()
    } else {
        price_list_bytes(ps.drop_last()) + price_bytes(ps.last())
    }
}

/// The stored price list: its length as a little-endian `u32`, then the prices.
pub open spec fn prices_bytes(ps: Seq<PriceModel>) -> Seq<u8> {
    le32(ps.len() as u32) + price_list_bytes(ps)
}

/// The encoded record. Fields in declaration order; integers little-endian,
/// strings and lists prefixed by their length.
pub open spec fn encode_state(s: StateModel) -> Seq<u8> {
    seq![version_tag(s.version)] + le16(s.id) + s.owner + seq![s.vault_bump] + le32(s.total_supply)
        + le32(s.max_supply) + le32(s.begin_ts) + le32(s.end_ts) + text_bytes(s.name) + s.signer
        + prices_bytes(s.prices) + text_bytes(s.base_url) + le32(s.withdraw_counter)
}

/// A model that the encoding can hold.
pub open spec fn state_encodable(s: StateModel) -> bool {
    &&& s.owner.len() == 32
    &&& s.signer.len() == 33
    &&& text_fits(s.name)
    &&& text_fits(s.base_url)
    &&& s.prices.len() <= u32::MAX
    &&& forall|i: int| 0 <= i < s.prices.len() ==> (#[trigger] s.prices[i]).ata.len() == 32
}

// ---- decoding ----

/// The price stored at `p`.
pub open spec fn price_at(d: Seq<u8>, p: int) -> PriceModel {
    PriceModel { amount: u64_at(d, p), ata: d.subrange(p + 8, p + 40) }
}

/// The stored price list that starts at `p`, and the position after it.
pub open spec fn parse_prices(d: Seq<u8>, p: int) -> Option<(Seq<PriceModel>, int)> {
    if 0 <= p && p + 4 <= d.len() {
        let n = u32_at(d, p) as int;
        if p + 4 + 40 * n <= d.len() {
            Some((Seq::new(n as nat, |i: int| price_at(d, p + 4 + 40 * i)), p + 4 + 40 * n))
        } else {
            None
        }
    } else {
        None
    }
}

/// Bytes before the name: version, id, owner, vault bump and four `u32`s.
pub open spec fn state_head_len() -> int {
    52
}

/// The record that starts at the beginning of `d`, and its encoded length.
/// Bytes after it are ignored.
pub open spec fn parse_state(d: Seq<u8>) -> Option<(StateModel, int)> {
    if d.len() < state_head_len() || version_of_tag(d[0]) is None {
        None
    } else {
        match parse_text(d, state_head_len()) {
            None => None,
            Some((name, pos1)) => if pos1 + 33 > d.len() {
                None
            } else {
                match parse_prices(d, pos1 + 33) {
                    None => None,
                    Some((prices, pos2)) => match parse_text(d, pos2) {
                        None => None,
                        Some((base_url, pos3)) => if pos3 + 4 > d.len() {
                            None
                        } else {
                            Some(
                                (
                                    StateModel {
                                        version: version_of_tag(d[0])->Some_0,
                                        id: u16_at(d, 1),
                                        owner: d.subrange(3, 35),
                                        vault_bump: d[35],
                                        total_supply: u32_at(d, 36),
                                        max_supply: u32_at(d, 40),
                                        begin_ts: u32_at(d, 44),
                                        end_ts: u32_at(d, 48),
                                        name,
                                        signer: d.subrange(pos1, pos1 + 33),
                                        prices,
                                        base_url,
                                        withdraw_counter: u32_at(d, pos3),
                                    },
                                    pos3 + 4,
                                ),
                            )
                        },
                    },
                }
            },
        }
    }
}

// ---- round trip ----

proof fn lemma_holds_split(d: Seq<u8>, p: int, a: Seq<u8>, b: Seq<u8>)
    requires
        holds_at(d, p, a + b),
    ensures
        holds_at(d, p, a),
        holds_at(d, p + a.len(), b),
{
    let whole = d.subrange(p, p + a.len() + b.len());
    assert(whole == a + b);
    assert(d.subrange(p, p + a.len()) =~= whole.subrange(0, a.len() as int));
    assert(whole.subrange(0, a.len() as int) =~= a);
    assert(d.subrange(p + a.len(), p + a.len() + b.len()) =~= whole.subrange(
        a.len() as int,
        (a.len() + b.len()) as int,
    ));
    assert(whole.subrange(a.len() as int, (a.len() + b.len()) as int) =~= b);
}

proof fn lemma_price_list_len(ps: Seq<PriceModel>)
    requires
        forall|i: int| 0 <= i < ps.len() ==> (#[trigger] ps[i]).ata.len() == 32,
    ensures
        price_list_bytes(ps).len() == 40 * ps.len(),
    decreases ps.len(),
{
    if ps.len() > 0 {
        assert(ps.last() == ps[ps.len() - 1]);
        lemma_price_list_len(ps.drop_last());
    }
}

proof fn lemma_price_list_round_trip(d: Seq<u8>, p: int, ps: Seq<PriceModel>)
    requires
        forall|i: int| 0 <= i < ps.len() ==> (#[trigger] ps[i]).ata.len() == 32,
        holds_at(d, p, price_list_bytes(ps)),
    ensures
        forall|i: int| 0 <= i < ps.len() ==> price_at(d, p + 40 * i) == #[trigger] ps[i],
    decreases ps.len(),
{
    if ps.len() > 0 {
        let init = ps.drop_last();
        let last = ps.last();
        assert(last == ps[ps.len() - 1]);
        lemma_price_list_len(init);
        lemma_holds_split(d, p, price_list_bytes(init), price_bytes(last));
        lemma_price_list_round_trip(d, p, init);
        let q = p + 40 * init.len();
        lemma_holds_split(d, q, le64(last.amount), last.ata);
        lemma_u64_round_trip(d, q, last.amount);
        assert(d.subrange(q + 8, q + 40) == last.ata);
        assert forall|i: int| 0 <= i < ps.len() implies price_at(d, p + 40 * i) == #[trigger] ps[i] by {
            if i < init.len() {
                assert(ps[i] == init[i]);
            }
        }
    }
}

proof fn lemma_prices_round_trip(d: Seq<u8>, p: int, ps: Seq<PriceModel>)
    requires
        ps.len() <= u32::MAX,
        forall|i: int| 0 <= i < ps.len() ==> (#[trigger] ps[i]).ata.len() == 32,
        holds_at(d, p, prices_bytes(ps)),
    ensures
        parse_prices(d, p) == Some((ps, p + prices_bytes(ps).len())),
{
    lemma_holds_split(d, p, le32(ps.len() as u32), price_list_bytes(ps));
    lemma_u32_round_trip(d, p, ps.len() as u32);
    lemma_price_list_len(ps);
    lemma_price_list_round_trip(d, p + 4, ps);
    let (got, q) = parse_prices(d, p)->Some_0;
    assert(got =~= ps);
}

/// Where each field of an encoded record stands, and what it reads as there.
proof fn lemma_state_fields(s: StateModel, d: Seq<u8>)
    requires
        state_encodable(s),
        holds_at(d, 0, encode_state(s)),
    ensures
        ({
            let q1: int = 52 + text_bytes(s.name).len() as int;
            let q2: int = q1 + 33 + prices_bytes(s.prices).len() as int;
            let q3: int = q2 + text_bytes(s.base_url).len() as int;
            &&& d.len() >= state_head_len()
            &&& d[0] == version_tag(s.version)
            &&& u16_at(d, 1) == s.id
            &&& d.subrange(3, 35) == s.owner
            &&& d[35] == s.vault_bump
            &&& u32_at(d, 36) == s.total_supply
            &&& u32_at(d, 40) == s.max_supply
            &&& u32_at(d, 44) == s.begin_ts
            &&& u32_at(d, 48) == s.end_ts
            &&& parse_text(d, 52) == Some((s.name, q1 as int))
            &&& q1 + 33 <= d.len()
            &&& d.subrange(q1, q1 + 33) == s.signer
            &&& parse_prices(d, q1 + 33) == Some((s.prices, q2 as int))
            &&& parse_text(d, q2 as int) == Some((s.base_url, q3 as int))
            &&& q3 + 4 <= d.len()
            &&& u32_at(d, q3 as int) == s.withdraw_counter
            &&& encode_state(s).len() == q3 + 4
        }),
{
    let e = encode_state(s);
    let h0 = seq![version_tag(s.version)];
    let h1 = h0 + le16(s.id);
    let h2 = h1 + s.owner;
    let h3 = h2 + seq![s.vault_bump];
    let h4 = h3 + le32(s.total_supply);
    let h5 = h4 + le32(s.max_supply);
    let h6 = h5 + le32(s.begin_ts);
    let h7 = h6 + le32(s.end_ts);
    let h8 = h7 + text_bytes(s.name);
    let h9 = h8 + s.signer;
    let h10 = h9 + prices_bytes(s.prices);
    let h11 = h10 + text_bytes(s.base_url);
    assert(e == h11 + le32(s.withdraw_counter));
    lemma_holds_split(d, 0, h11, le32(s.withdraw_counter));
    lemma_holds_split(d, 0, h10, text_bytes(s.base_url));
    lemma_holds_split(d, 0, h9, prices_bytes(s.prices));
    lemma_holds_split(d, 0, h8, s.signer);
    lemma_holds_split(d, 0, h7, text_bytes(s.name));
    lemma_holds_split(d, 0, h6, le32(s.end_ts));
    lemma_holds_split(d, 0, h5, le32(s.begin_ts));
    lemma_holds_split(d, 0, h4, le32(s.max_supply));
    lemma_holds_split(d, 0, h3, le32(s.total_supply));
    lemma_holds_split(d, 0, h2, seq![s.vault_bump]);
    lemma_holds_split(d, 0, h1, s.owner);
    lemma_holds_split(d, 0, h0, le16(s.id));
    assert(d[0] == h0[0]);
    assert(d[35] == seq![s.vault_bump][0]);
    lemma_u16_round_trip(d, 1, s.id);
    lemma_u32_round_trip(d, 36, s.total_supply);
    lemma_u32_round_trip(d, 40, s.max_supply);
    lemma_u32_round_trip(d, 44, s.begin_ts);
    lemma_u32_round_trip(d, 48, s.end_ts);
    lemma_text_round_trip(d, 52, s.name);
    lemma_prices_round_trip(d, h8.len() as int + 33, s.prices);
    lemma_text_round_trip(d, h10.len() as int, s.base_url);
    lemma_u32_round_trip(d, h11.len() as int, s.withdraw_counter);
}

/// Decoding an encoded record gives back the record and the number of bytes it
/// took, whatever follows it; this holds for price lists of every length.
pub proof fn lemma_state_round_trip(s: StateModel, tail: Seq<u8>)
    requires
        state_encodable(s),
    ensures
        parse_state(encode_state(s) + tail) == Some((s, encode_state(s).len() as int)),
{
    let d = encode_state(s) + tail;
    let e = encode_state(s);
    assert(d.subrange(0, e.len() as int) =~= e);
    lemma_state_fields(s, d);
    assert(version_of_tag(version_tag(s.version)) == Some(s.version));
    let (m, n) = parse_state(d)->Some_0;
    assert(m.owner =~= s.owner);
    assert(m.signer =~= s.signer);
    assert(m == s);
}


// ---- executable encoding ----

pub open spec fn prices_view(ps: Seq<Price>) -> Seq<PriceModel> {
    ps.map_values(|p: Price| p@)
}

fn put_prices(out: &mut Vec<u8>, ps: &Vec<Price>)
    requires
        ps@.len() <= u32::MAX,
    ensures
        final(out)@ == old(out)@ + prices_bytes(prices_view(ps@)),
{
    put_u32_le(out, ps.len() as u32);
    let ghost start = out@;
    let mut i: usize = 0;
    while i < ps.len()
        invariant
            i <= ps@.len(),
            out@ == start + price_list_bytes(prices_view(ps@.subrange(0, i as int))),
        decreases ps@.len() - i,
    {
        let p = ps[i];
        put_u64_le(out, p.amount);
        put_bytes(out, p.ata.as_slice());
        proof {
            let a = prices_view(ps@.subrange(0, i as int));
            let b = prices_view(ps@.subrange(0, i + 1));
            assert(b.drop_last() =~= a);
            assert(b.last() == p@);
        }
        i = i + 1;
        assert(out@ =~= start + price_list_bytes(prices_view(ps@.subrange(0, i as int))));
    }
    assert(ps@.subrange(0, ps@.len() as int) =~= ps@);
    assert(final(out)@ =~= old(out)@ + prices_bytes(prices_view(ps@)));
}

fn get_prices(d: &Vec<u8>, p: usize) -> (r: Option<(Vec<Price>, usize)>)
    ensures
        match r {
            Some((ps, q)) => parse_prices(d@, p as int) == Some((prices_view(ps@), q as int)),
            None => parse_prices(d@, p as int) is None,
        },
{
    if p > d.len() || d.len() - p < 4 {
        return None;
    }
    let n = get_u32(d, p) as usize;
    if n > (d.len() - p - 4) / 40 {
        return None;
    }
    let start = p + 4;
    let mut ps: Vec<Price> = Vec::new();
    let mut i: usize = 0;
    while i < n
        invariant
            i <= n,
            start == p + 4,
            start + 40 * n <= d.len(),
            prices_view(ps@) == Seq::new(i as nat, |j: int| price_at(d@, start + 40 * j)),
        decreases n - i,
    {
        let at = start + 40 * i;
        let amount = get_u64(d, at);
        let ata = get_key(d, at + 8);
        let ghost prev = prices_view(ps@);
        ps.push(Price { amount, ata });
        proof {
            assert(prices_view(ps@) =~= prev.push(price_at(d@, at as int)));
        }
        i = i + 1;
        assert(prices_view(ps@) =~= Seq::new(i as nat, |j: int| price_at(d@, start + 40 * j)));
    }
    Some((ps, start + 40 * n))
}

impl State {
    /// The record's bytes.
    pub fn encode(&self) -> (r: Vec<u8>)
        requires
            state_encodable(self@),
        ensures
            r@ == encode_state(self@),
    {
        let mut out: Vec<u8> = Vec::new();
        put_u8(&mut out, self.version.tag());
        put_u16_le(&mut out, self.id);
        put_bytes(&mut out, self.owner.as_slice());
        put_u8(&mut out, self.vault_bump);
        put_u32_le(&mut out, self.total_supply);
        put_u32_le(&mut out, self.max_supply);
        put_u32_le(&mut out, self.begin_ts);
        put_u32_le(&mut out, self.end_ts);
        put_text(&mut out, &self.name);
        put_bytes(&mut out, self.signer.as_slice());
        put_prices(&mut out, &self.prices);
        put_text(&mut out, &self.base_url);
        put_u32_le(&mut out, self.withdraw_counter);
        assert(out@ =~= encode_state(self@));
        out
    }

    /// Reads the record at the start of `d`; returns it with the number of
    /// bytes it took.
    pub fn decode(d: &Vec<u8>) -> (r: Option<(State, usize)>)
        ensures
            match r {
                Some((s, n)) => parse_state(d@) == Some((s@, n as int)),
                None => parse_state(d@) is None,
            },
    {
        if d.len() < 52 {
            return None;
        }
        let version = match StateVersion::from_tag(d[0]) {
            Some(v) => v,
            None => return None,
        };
        let (name, pos1) = match get_text(d, 52) {
            Some(x) => x,
            None => return None,
        };
        if pos1 > d.len() || d.len() - pos1 < 33 {
            return None;
        }
        let signer = get_key33(d, pos1);
        let (prices, pos2) = match get_prices(d, pos1 + 33) {
            Some(x) => x,
            None => return None,
        };
        let (base_url, pos3) = match get_text(d, pos2) {
            Some(x) => x,
            None => return None,
        };
        if pos3 > d.len() || d.len() - pos3 < 4 {
            return None;
        }
        let s = State {
            version,
            id: get_u16(d, 1),
            owner: get_key(d, 3),
            vault_bump: d[35],
            total_supply: get_u32(d, 36),
            max_supply: get_u32(d, 40),
            begin_ts: get_u32(d, 44),
            end_ts: get_u32(d, 48),
            name,
            signer,
            prices,
            base_url,
            withdraw_counter: get_u32(d, pos3),
        };
        assert(s@ == parse_state(d@)->Some_0.0);
        Some((s, pos3 + 4))
    }
}


// ---- record checks ----

/// A record is initialized when its first byte, the version tag, is not zero.
pub open spec fn state_initialized(d: Seq<u8>) -> bool {
    d.len() > 0 && d[0] != 0
}

/// The first price whose account is `key`.
pub open spec fn price_for(ps: Seq<PriceModel>, key: Seq<u8>) -> Option<u64>
    decreases ps.len(),
{
    if ps.len() == 0 {
        None
    } else if ps[0].ata == key {
        Some(ps[0].amount)
    } else {
        price_for(ps.drop_first(), key)
    }
}

/// `bytes` written over the start of `d`, the rest of `d` kept.
pub open spec fn overwrite(d: Seq<u8>, bytes: Seq<u8>) -> Seq<u8> {
    bytes + d.subrange(bytes.len() as int, d.len() as int)
}

/// What loading a current record from `acc` gives: the errors in the order
/// they are checked, else the record.
pub open spec fn load_error(
    d: Seq<u8>,
    key: Seq<u8>,
    lootbox_id: u16,
    bump: Option<u8>,
    program: Seq<u8>,
) -> Option<ProcessError> {
    if !state_initialized(d) {
        Some(ProcessError::Custom(CustomError::StateNotInitialized))
    } else if d[0] != CURRENT_VERSION {
        Some(ProcessError::Custom(CustomError::StateWrongVersion))
    } else if parse_state(d) is None {
        Some(ProcessError::InvalidAccountData)
    } else {
        let m = parse_state(d)->Some_0.0;
        match derived(state_seeds(m.owner, lootbox_id), bump, program) {
            None => Some(ProcessError::InvalidSeeds),
            Some(a) => if a == key {
                None
            } else {
                Some(ProcessError::Custom(CustomError::WrongState))
            },
        }
    }
}

proof fn lemma_price_list_parsed(d: Seq<u8>, p: int, n: int)
    requires
        0 <= p,
        0 <= n,
        p + 40 * n <= d.len(),
    ensures
        price_list_bytes(Seq::new(n as nat, |i: int| price_at(d, p + 40 * i))) == d.subrange(p, p + 40 * n),
    decreases n,
{
    let ps = Seq::new(n as nat, |i: int| price_at(d, p + 40 * i));
    if n > 0 {
        lemma_price_list_parsed(d, p, n - 1);
        assert(ps.drop_last() =~= Seq::new((n - 1) as nat, |i: int| price_at(d, p + 40 * i)));
        let q = p + 40 * (n - 1);
        lemma_u64_bytes(d, q);
        assert(price_bytes(ps.last()) =~= d.subrange(q, q + 40));
        assert(d.subrange(p, p + 40 * n) =~= d.subrange(p, q) + d.subrange(q, q + 40));
    } else {
        assert(d.subrange(p, p) =~= Seq::<u8>::empty());
    }
}

/// A record that decodes can be encoded, and its encoding is exactly the
/// bytes it was decoded from.
pub proof fn lemma_parsed_state_encodes(d: Seq<u8>)
    requires
        parse_state(d) is Some,
    ensures
        state_encodable(parse_state(d)->Some_0.0),
        encode_state(parse_state(d)->Some_0.0) == d.subrange(0, parse_state(d)->Some_0.1),
{
    let (m, end) = parse_state(d)->Some_0;
    lemma_text_parsed(d, 52);
    let pos1 = parse_text(d, 52)->Some_0.1;
    let pp = pos1 + 33;
    let n = u32_at(d, pp) as int;
    let pos2 = pp + 4 + 40 * n;
    lemma_price_list_parsed(d, pp + 4, n);
    lemma_u32_bytes(d, pp);
    lemma_text_parsed(d, pos2);
    let pos3 = parse_text(d, pos2)->Some_0.1;
    lemma_u32_bytes(d, pos3);
    lemma_u16_bytes(d, 1);
    lemma_u32_bytes(d, 36);
    lemma_u32_bytes(d, 40);
    lemma_u32_bytes(d, 44);
    lemma_u32_bytes(d, 48);
    assert(m.prices.len() == n);
    assert(prices_bytes(m.prices) =~= d.subrange(pp, pos2));
    assert(version_tag(m.version) == d[0]);
    assert(encode_state(m) =~= d.subrange(0, end));
    assert forall|i: int| 0 <= i < m.prices.len() implies (#[trigger] m.prices[i]).ata.len() == 32 by {}
}

impl State {
    /// Whether the stored bytes hold a record.
    pub fn if_initialized(d: &Vec<u8>) -> (r: bool)
        ensures
            r == state_initialized(d@),
    {
        d.len() > 0 && d[0] != 0
    }

    /// The stored version tag.
    pub fn get_version(d: &Vec<u8>) -> (r: u8)
        requires
            d@.len() > 0,
        ensures
            r == d@[0],
    {
        d[0]
    }

    /// The version tag that handlers require.
    pub fn get_last_version() -> (r: u8)
        ensures
            r == CURRENT_VERSION,
    {
        CURRENT_VERSION
    }

    /// Number of bytes the record takes.
    pub fn serialized_len(&self) -> (r: usize)
        requires
            state_encodable(self@),
        ensures
            r == encode_state(self@).len(),
    {
        self.encode().len()
    }

    /// Size to allocate for a record: its encoded size plus room to grow.
    pub fn allocation_size(&self) -> (r: Option<usize>)
        requires
            state_encodable(self@),
        ensures
            match r {
                Some(n) => n == encode_state(self@).len() + STATE_SLACK,
                None => encode_state(self@).len() + STATE_SLACK > usize::MAX,
            },
    {
        self.serialized_len().checked_add(STATE_SLACK)
    }

    /// The stored bytes with this record written over their start; fails when
    /// the record does not fit.
    pub fn save_to(&self, d: &Vec<u8>) -> (r: Result<Vec<u8>, ProcessError>)
        requires
            state_encodable(self@),
        ensures
            encode_state(self@).len() <= d@.len() ==> (r matches Ok(n) && n@ == overwrite(
                d@,
                encode_state(self@),
            )),
            encode_state(self@).len() > d@.len() ==> r == Err::<Vec<u8>, ProcessError>(
                ProcessError::Custom(CustomError::NotEnoughSpace),
            ),
    {
        let bytes = self.encode();
        if bytes.len() > d.len() {
            return Err(ProcessError::Custom(CustomError::NotEnoughSpace));
        }
        let mut out = bytes;
        let mut i: usize = out.len();
        let ghost n = out@.len();
        while i < d.len()
            invariant
                n <= i <= d@.len(),
                out@ == encode_state(self@) + d@.subrange(n as int, i as int),
            decreases d@.len() - i,
        {
            out.push(d[i]);
            i = i + 1;
            assert(out@ =~= encode_state(self@) + d@.subrange(n as int, i as int));
        }
        Ok(out)
    }

    /// Reads a record in any schema generation.
    pub fn load_from(d: &Vec<u8>) -> (r: Result<State, ProcessError>)
        ensures
            match parse_state(d@) {
                Some((m, _)) => r matches Ok(s) && s@ == m,
                None => r == Err::<State, ProcessError>(ProcessError::InvalidAccountData),
            },
    {
        match State::decode(d) {
            Some((s, _)) => Ok(s),
            None => Err(ProcessError::InvalidAccountData),
        }
    }

    /// Loads a current-version record and checks that `acc` is its derived
    /// address for `lootbox_id` (with `bump`, or the canonical bump).
    pub fn verify_and_load(program_id: &Address, acc: &Account, lootbox_id: u16, bump: Option<u8>) -> (r:
        Result<State, ProcessError>)
        ensures
            match load_error(acc.data@, acc.key@, lootbox_id, bump, program_id@) {
                Some(e) => r == Err::<State, ProcessError>(e),
                None => r matches Ok(s) && s@ == parse_state(acc.data@)->Some_0.0,
            },
            r matches Ok(s) ==> s.version == StateVersion::Version4,
    {
        if !State::if_initialized(&acc.data) {
            return Err(ProcessError::Custom(CustomError::StateNotInitialized));
        }
        if State::get_version(&acc.data) != State::get_last_version() {
            return Err(ProcessError::Custom(CustomError::StateWrongVersion));
        }
        let state = State::load_from(&acc.data)?;
        let seeds = make_state_seeds(&state.owner, lootbox_id);
        check_derived(
            &seeds,
            bump,
            program_id,
            &acc.key,
            ProcessError::Custom(CustomError::WrongState),
        )?;
        Ok(state)
    }

    /// The amount to pay to the price account `ata`.
    pub fn find_price(&self, ata: &Address) -> (r: Result<u64, ProcessError>)
        ensures
            match price_for(self@.prices, ata@) {
                Some(a) => r == Ok::<u64, ProcessError>(a),
                None => r == Err::<u64, ProcessError>(
                    ProcessError::Custom(CustomError::WrongPaymentAta),
                ),
            },
    {
        let mut i: usize = 0;
        assert(self@.prices.subrange(0, self@.prices.len() as int) =~= self@.prices);
        while i < self.prices.len()
            invariant
                i <= self.prices@.len(),
                price_for(self@.prices, ata@) == price_for(self@.prices.subrange(i as int, self@.prices.len() as int), ata@),
            decreases self.prices@.len() - i,
        {
            let ghost rest = self@.prices.subrange(i as int, self@.prices.len() as int);
            assert(rest.drop_first() =~= self@.prices.subrange(i + 1, self@.prices.len() as int));
            if crate::address::same_address(&self.prices[i].ata, ata) {
                return Ok(self.prices[i].amount);
            }
            i = i + 1;
        }
        Err(ProcessError::Custom(CustomError::WrongPaymentAta))
    }

    /// How many of `count` requested units can still be issued; fails when
    /// none can.
    pub fn check_and_get_correct_count(&self, count: u8) -> (r: Result<u8, ProcessError>)
        ensures
            self.total_supply >= self.max_supply ==> r == Err::<u8, ProcessError>(
                ProcessError::Custom(CustomError::MaxSupplyReached),
            ),
            self.total_supply < self.max_supply ==> r == Ok::<u8, ProcessError>(
                if count as int <= self.max_supply - self.total_supply {
                    count
                } else {
                    (self.max_supply - self.total_supply) as u8
                },
            ),
    {
        if self.total_supply >= self.max_supply {
            return Err(ProcessError::Custom(CustomError::MaxSupplyReached));
        }
        let left = self.max_supply - self.total_supply;
        if count as u32 <= left {
            Ok(count)
        } else {
            Ok(left as u8)
        }
    }

    /// Accepts `now` inside the inclusive window `[begin_ts, end_ts]`.
    pub fn check_time(&self, now: i64) -> (r: Result<(), ProcessError>)
        ensures
            (self.begin_ts as i64) > now ==> r == Err::<(), ProcessError>(
                ProcessError::Custom(CustomError::TooEarly),
            ),
            (self.begin_ts as i64) <= now && (self.end_ts as i64) < now ==> r == Err::<
                (),
                ProcessError,
            >(ProcessError::Custom(CustomError::TooLate)),
            (self.begin_ts as i64) <= now <= (self.end_ts as i64) ==> r is Ok,
    {
        if (self.begin_ts as i64) > now {
            return Err(ProcessError::Custom(CustomError::TooEarly));
        }
        if (self.end_ts as i64) < now {
            return Err(ProcessError::Custom(CustomError::TooLate));
        }
        Ok(())
    }

    /// Checks that `vault` is the address derived from the complete seed list
    /// `seeds`.
    pub fn check_vault_with_seed(&self, program_id: &Address, vault: &Address, seeds: &Vec<Vec<u8>>) -> (r:
        Result<(), ProcessError>)
        ensures
            match program_address(seeds_view(seeds@), program_id@) {
                None => r == Err::<(), ProcessError>(ProcessError::InvalidSeeds),
                Some(a) => if a == vault@ {
                    r is Ok
                } else {
                    r == Err::<(), ProcessError>(ProcessError::Custom(CustomError::WrongVault))
                },
            },
    {
        check_program_address(seeds, program_id, vault, ProcessError::Custom(CustomError::WrongVault))
    }

    /// Checks that `vault` is the campaign's vault, derived from
    /// `[owner, "vault", vault_bump]`; returns those seeds, which sign for it.
    pub fn check_vault(&self, program_id: &Address, vault: &Address) -> (r: Result<
        Vec<Vec<u8>>,
        ProcessError,
    >)
        ensures
            match derived(vault_seeds(self.owner@), Some(self.vault_bump), program_id@) {
                None => r == Err::<Vec<Vec<u8>>, ProcessError>(ProcessError::InvalidSeeds),
                Some(a) => if a == vault@ {
                    r matches Ok(s) && seeds_view(s@) == vault_seeds(self.owner@).push(
                        seq![self.vault_bump],
                    )
                } else {
                    r == Err::<Vec<Vec<u8>>, ProcessError>(
                        ProcessError::Custom(CustomError::WrongVault),
                    )
                },
            },
    {
        let mut seeds = make_vault_seeds(&self.owner);
        let mut b: Vec<u8> = Vec::new();
        b.push(self.vault_bump);
        seeds.push(b);
        assert(seeds_view(seeds@) =~= vault_seeds(self.owner@).push(seq![self.vault_bump]));
        self.check_vault_with_seed(program_id, vault, &seeds)?;
        Ok(seeds)
    }
}

} // verus!
