use vstd::prelude::*;
use crate::account::Account;
use vstd::slice::slice_subrange;
use vstd::utf8::encode_utf8;
use crate::address::{
    check_derived, copy_seeds, derived, is_token_program, legacy_state_seeds, make_legacy_state_seeds,
    make_state_seeds, make_vault_seeds, same_address, seeds_view, state_seeds, token_program_id,
    vault_seeds, Address,
};
use crate::error::{CustomError, ProcessError};
use crate::instruction::{
    BuyParam, InitializeParams, Instruction, MigrateToV3Params, ObtainTicketParams,
    UpdateStateParams, WithdrawParam, BEGIN_TS_FLAG, END_TS_FLAG, MAX_SUPPLY_FLAG, PRICE_FLAG,
};
use crate::state::{
    encode_state, load_error, overwrite, prices_view, parse_state, price_for, state_encodable,
    state_initialized, Price, PriceModel, State, StateModel, StateVersion,
    STATE_SLACK,
};
use crate::ticket::{close_error, create_error, Ticket, TICKET_LEN};
use crate::voucher::{
    obtain_digest, obtain_message, sha256, verify_signature, voucher_error, withdraw_digest,
    keys_view, withdraw_message,
};

verus! {

/// Work that a handler hands to the host, in the order it is to be done.
/// Any failure there aborts the whole request.
pub enum Action {
    /// Create an account of `space` bytes owned by this program at `address`,
    /// funded by `payer`; `seeds` sign for the derived address.
    CreateAccount { payer: Address, address: Address, space: u64, seeds: Vec<Vec<u8>> },
    /// Replace the account's bytes by `data`.
    Store { address: Address, data: Vec<u8> },
    /// Move `amount` tokens from `source` to `destination` through the token
    /// program `token_program`, on `authority`'s authority; `seeds`, when not
    /// empty, sign for a derived authority.
    TokenTransfer {
        token_program: Address,
        source: Address,
        destination: Address,
        authority: Address,
        amount: u64,
        seeds: Vec<Vec<u8>>,
    },
    /// Create `owner`'s associated token account for `mint` at `address`,
    /// paid by `owner`.
    CreateTokenAccount { token_program: Address, address: Address, owner: Address, mint: Address },
    /// Move the whole balance of `from` to `to` and zero the bytes of `from`.
    Reclaim { from: Address, to: Address },
}

/// What an action says, with byte vectors seen as sequences.
pub enum ActionModel {
    CreateAccount { payer: Address, address: Address, space: u64, seeds: Seq<Seq<u8>> },
    Store { address: Address, data: Seq<u8> },
    TokenTransfer {
        token_program: Address,
        source: Address,
        destination: Address,
        authority: Address,
        amount: u64,
        seeds: Seq<Seq<u8>>,
    },
    CreateTokenAccount { token_program: Address, address: Address, owner: Address, mint: Address },
    Reclaim { from: Address, to: Address },
}

impl View for Action {
    type V = ActionModel;

    open spec fn view(&self) -> ActionModel {
        match self {
            Action::CreateAccount { payer, address, space, seeds } => ActionModel::CreateAccount {
                payer: *payer,
                address: *address,
                space: *space,
                seeds: seeds_view(seeds@),
            },
            Action::Store { address, data } => ActionModel::Store { address: *address, data: data@ },
            Action::TokenTransfer { token_program, source, destination, authority, amount, seeds } =>
                ActionModel::TokenTransfer {
                token_program: *token_program,
                source: *source,
                destination: *destination,
                authority: *authority,
                amount: *amount,
                seeds: seeds_view(seeds@),
            },
            Action::CreateTokenAccount { token_program, address, owner, mint } =>
                ActionModel::CreateTokenAccount {
                token_program: *token_program,
                address: *address,
                owner: *owner,
                mint: *mint,
            },
            Action::Reclaim { from, to } => ActionModel::Reclaim { from: *from, to: *to },
        }
    }
}

pub open spec fn actions_view(acts: Seq<Action>) -> Seq<ActionModel> {
    acts.map_values(|a: Action| a@)
}

/// The record `m` with its version set to the current one.
pub open spec fn migrated(m: StateModel) -> StateModel {
    StateModel { version: StateVersion::Version4, ..m }
}

/// The first failure of a migration before the record is rewritten, in the
/// order the checks run.
pub open spec fn migrate_error(
    admin_signed: bool,
    admin: Seq<u8>,
    state_key: Seq<u8>,
    data: Seq<u8>,
    state_bump: u8,
    program: Seq<u8>,
) -> Option<ProcessError> {
    if !admin_signed {
        Some(ProcessError::Custom(CustomError::WrongSigner))
    } else if derived(legacy_state_seeds(admin), Some(state_bump), program) is None {
        Some(ProcessError::InvalidSeeds)
    } else if derived(legacy_state_seeds(admin), Some(state_bump), program) != Some(state_key) {
        Some(ProcessError::Custom(CustomError::WrongVault))
    } else if !state_initialized(data) {
        Some(ProcessError::Custom(CustomError::StateNotInitialized))
    } else if parse_state(data) is None {
        Some(ProcessError::InvalidAccountData)
    } else if parse_state(data)->Some_0.0.version != StateVersion::Version3 {
        Some(ProcessError::Custom(CustomError::StateWrongVersion))
    } else if parse_state(data)->Some_0.0.owner != admin {
        Some(ProcessError::Custom(CustomError::WrongAdminAccount))
    } else {
        None
    }
}

/// Migration moves a record forward from exactly the version before the
/// current one: a record of any other version (the current one included) is
/// refused, and one that is accepted keeps every field but the version.
pub proof fn lemma_migration_only_from_prior(
    admin: Seq<u8>,
    state_key: Seq<u8>,
    data: Seq<u8>,
    state_bump: u8,
    program: Seq<u8>,
)
    requires
        derived(legacy_state_seeds(admin), Some(state_bump), program) == Some(state_key),
        state_initialized(data),
        parse_state(data) is Some,
    ensures
        parse_state(data)->Some_0.0.version != StateVersion::Version3 ==> migrate_error(
            true,
            admin,
            state_key,
            data,
            state_bump,
            program,
        ) == Some(ProcessError::Custom(CustomError::StateWrongVersion)),
        migrate_error(true, admin, state_key, data, state_bump, program) is None ==> {
            &&& parse_state(data)->Some_0.0.version == StateVersion::Version3
            &&& migrated(parse_state(data)->Some_0.0).version == StateVersion::Version4
        },
{
}

/// Migration leaves every stored byte of the record as it was but the
/// version tag, which becomes the current one.
pub proof fn lemma_migration_keeps_bytes(m: StateModel)
    ensures
        encode_state(migrated(m)) == encode_state(m).update(0, 4u8),
{
    assert(encode_state(migrated(m)) =~= encode_state(m).update(0, 4u8));
}

/// What `migrate_to_v3` gives, as its contract states it.
pub open spec fn migrate_outcome(
    program_id: Address,
    admin: Account,
    state_acc: Account,
    params: MigrateToV3Params,
    r: Result<(State, Vec<Action>), ProcessError>,
) -> bool {
    &&& (match migrate_error(
            admin.is_signer,
            admin.key@,
            state_acc.key@,
            state_acc.data@,
            params.state_bump,
            program_id@,
        ) {
            Some(e) => r matches Err(x) && x == e,
            None => {
                let old_m = parse_state(state_acc.data@)->Some_0.0;
                &&& r is Ok
                &&& r matches Ok((s, acts)) ==> {
                    &&& s@ == migrated(old_m)
                    &&& acts@.len() == 1
                    &&& (acts@[0] matches Action::Store { address, data } && address == state_acc.key
                        && data@ == overwrite(state_acc.data@, encode_state(s@)))
                }
            },
        })
}

/// Rewrites a record of the version before the current one into the current
/// schema. The record lives at the address derived from `[admin, "state",
/// state_bump]`.
pub fn migrate_to_v3(
    program_id: &Address,
    admin: &Account,
    state_acc: &Account,
    params: &MigrateToV3Params,
) -> (r: Result<(State, Vec<Action>), ProcessError>)
    ensures
        migrate_outcome(*program_id, *admin, *state_acc, *params, r),
{
    if !admin.is_signer {
        return Err(ProcessError::Custom(CustomError::WrongSigner));
    }
    let seeds = make_legacy_state_seeds(&admin.key);
    check_derived(
        &seeds,
        Some(params.state_bump),
        program_id,
        &state_acc.key,
        ProcessError::Custom(CustomError::WrongVault),
    )?;
    if !State::if_initialized(&state_acc.data) {
        return Err(ProcessError::Custom(CustomError::StateNotInitialized));
    }
    let old_state = State::load_from(&state_acc.data)?;
    if old_state.version != StateVersion::Version3 {
        return Err(ProcessError::Custom(CustomError::StateWrongVersion));
    }
    if !same_address(&old_state.owner, &admin.key) {
        return Err(ProcessError::Custom(CustomError::WrongAdminAccount));
    }
    let mut state = old_state;
    state.version = StateVersion::Version4;
    proof {
        crate::state::lemma_parsed_state_encodes(state_acc.data@);
        lemma_migration_keeps_bytes(parse_state(state_acc.data@)->Some_0.0);
        assert(state@ == migrated(parse_state(state_acc.data@)->Some_0.0));
    }
    if !state_fits(&state) {
        return Err(ProcessError::Custom(CustomError::NotEnoughSpace));
    }
    let data = state.save_to(&state_acc.data)?;
    let mut acts: Vec<Action> = Vec::new();
    acts.push(Action::Store { address: state_acc.key, data });
    Ok((state, acts))
}

/// Whether the record's encoding can be written at all.
fn state_fits(s: &State) -> (r: bool)
    ensures
        r == state_encodable(s@),
{
    let name_len = s.name.as_str().as_bytes().len();
    let url_len = s.base_url.as_str().as_bytes().len();
    let n = s.prices.len();
    proof {
        assert(name_len == encode_utf8(s.name@).len());
        assert(url_len == encode_utf8(s.base_url@).len());
        assert(s@.prices.len() == n);
        assert(s@.owner.len() == 32);
        assert(s@.signer.len() == 32 + 1);
        assert forall|i: int| 0 <= i < s@.prices.len() implies (#[trigger] s@.prices[i]).ata.len()
            == 32 by {
            assert(s@.prices[i] == s.prices@[i]@);
        }
    }
    name_len <= 0xffff_ffffusize && url_len <= 0xffff_ffffusize && n <= 0xffff_ffffusize
}


/// The first failure of the vault check for record `m`.
pub open spec fn vault_error(m: StateModel, vault: Seq<u8>, program: Seq<u8>) -> Option<ProcessError> {
    match derived(vault_seeds(m.owner), Some(m.vault_bump), program) {
        None => Some(ProcessError::InvalidSeeds),
        Some(a) => if a == vault {
            None
        } else {
            Some(ProcessError::Custom(CustomError::WrongVault))
        },
    }
}

/// The seeds that sign for the vault of record `m`.
pub open spec fn vault_signer_seeds(m: StateModel) -> Seq<Seq<u8>> {
    vault_seeds(m.owner).push(seq![m.vault_bump])
}

/// The record loaded by a handler, once `load_error` is `None`.
pub open spec fn loaded(d: Seq<u8>) -> StateModel {
    parse_state(d)->Some_0.0
}

/// What `admin_withdraw` gives, as its contract states it.
pub open spec fn admin_withdraw_outcome(
    program_id: Address,
    lootbox_id: u16,
    admin: Account,
    state_acc: Account,
    vault: Account,
    source_ata: Account,
    destination_ata: Account,
    spl_program: Account,
    amount: u64,
    r: Result<Vec<Action>, ProcessError>,
) -> bool {
    &&& (!admin.is_signer ==> (r matches Err(e) && e == ProcessError::Custom(CustomError::WrongSigner)))
    &&& (admin.is_signer ==> match load_error(state_acc.data@, state_acc.key@, lootbox_id, None, program_id@) {
            Some(e) => r matches Err(x) && x == e,
            None => {
                let m = loaded(state_acc.data@);
                if m.owner != admin.key@ {
                    r matches Err(x) && x == ProcessError::Custom(CustomError::WrongAdminAccount)
                } else {
                    match vault_error(m, vault.key@, program_id@) {
                        Some(e) => r matches Err(x) && x == e,
                        None => r matches Ok(acts) && acts@.len() == 1 && (acts@[0] matches Action::TokenTransfer {
                            token_program,
                            source,
                            destination,
                            authority,
                            amount: moved,
                            seeds,
                        } && token_program == spl_program.key && source == source_ata.key
                            && destination == destination_ata.key && authority == vault.key
                            && moved == amount && seeds_view(seeds@) == vault_signer_seeds(m)),
                    }
                }
            },
        })
}

/// Moves `amount` tokens out of the vault on the campaign owner's request.
pub fn admin_withdraw(
    program_id: &Address,
    lootbox_id: u16,
    admin: &Account,
    state_acc: &Account,
    vault: &Account,
    source_ata: &Account,
    destination_ata: &Account,
    spl_program: &Account,
    amount: u64,
) -> (r: Result<Vec<Action>, ProcessError>)
    ensures
        admin_withdraw_outcome(*program_id, lootbox_id, *admin, *state_acc, *vault, *source_ata, *destination_ata, *spl_program, amount, r),
{
    if !admin.is_signer {
        return Err(ProcessError::Custom(CustomError::WrongSigner));
    }
    let state = State::verify_and_load(program_id, state_acc, lootbox_id, None)?;
    if !same_address(&state.owner, &admin.key) {
        return Err(ProcessError::Custom(CustomError::WrongAdminAccount));
    }
    let seeds = state.check_vault(program_id, &vault.key)?;
    let mut acts: Vec<Action> = Vec::new();
    acts.push(
        Action::TokenTransfer {
            token_program: spl_program.key,
            source: source_ata.key,
            destination: destination_ata.key,
            authority: vault.key,
            amount,
            seeds,
        },
    );
    Ok(acts)
}

/// `i` is the first price whose account is `key`.
pub open spec fn first_price_at(ps: Seq<PriceModel>, key: Seq<u8>, i: int) -> bool {
    &&& 0 <= i < ps.len()
    &&& ps[i].ata == key
    &&& forall|j: int| 0 <= j < i ==> (#[trigger] ps[j]).ata != key
}

/// The record after an update: each field whose flag is set takes the new
/// value; with the price flag, the first price paid to `price_ata` (at `i`)
/// takes the new amount.
pub open spec fn updated(m: StateModel, p: UpdateStateParams, i: int) -> StateModel {
    StateModel {
        max_supply: if p.has_flag(MAX_SUPPLY_FLAG) { p.max_supply } else { m.max_supply },
        begin_ts: if p.has_flag(BEGIN_TS_FLAG) { p.begin_ts } else { m.begin_ts },
        end_ts: if p.has_flag(END_TS_FLAG) { p.end_ts } else { m.end_ts },
        prices: if p.has_flag(PRICE_FLAG) {
            m.prices.update(i, PriceModel { amount: p.price_amount, ata: m.prices[i].ata })
        } else {
            m.prices
        },
        ..m
    }
}

fn find_price_index(ps: &Vec<Price>, key: &Address) -> (r: Option<usize>)
    ensures
        match r {
            Some(i) => first_price_at(ps@.map_values(|p: Price| p@), key@, i as int),
            None => forall|j: int| 0 <= j < ps@.len() ==> (#[trigger] ps@[j]).ata@ != key@,
        },
{
    let mut i: usize = 0;
    while i < ps.len()
        invariant
            i <= ps@.len(),
            forall|j: int| 0 <= j < i ==> (#[trigger] ps@[j]).ata@ != key@,
        decreases ps@.len() - i,
    {
        if same_address(&ps[i].ata, key) {
            proof {
                let v = ps@.map_values(|p: Price| p@);
                assert forall|j: int| 0 <= j < i implies (#[trigger] v[j]).ata != key@ by {
                    assert(v[j] == ps@[j]@);
                }
            }
            return Some(i);
        }
        i = i + 1;
    }
    None
}

/// What `update_state` gives, as its contract states it.
pub open spec fn update_state_outcome(
    program_id: Address,
    admin: Account,
    state_acc: Account,
    params: UpdateStateParams,
    r: Result<(State, Vec<Action>), ProcessError>,
) -> bool {
    &&& (!admin.is_signer ==> (r matches Err(e) && e == ProcessError::Custom(CustomError::WrongSigner)))
    &&& (admin.is_signer ==> match load_error(
            state_acc.data@,
            state_acc.key@,
            params.lootbox_id,
            Some(params.state_bump),
            program_id@,
        ) {
            Some(e) => r matches Err(x) && x == e,
            None => {
                let m = loaded(state_acc.data@);
                if m.owner != admin.key@ {
                    r matches Err(x) && x == ProcessError::Custom(CustomError::WrongAdminAccount)
                } else if params.has_flag(PRICE_FLAG) && !(exists|i: int| first_price_at(m.prices, params.price_ata@, i)) {
                    r matches Err(x) && x == ProcessError::Custom(CustomError::WrongPaymentAta)
                } else if updated(m, params, 0).total_supply > updated(m, params, 0).max_supply {
                    r matches Err(x) && x == ProcessError::Custom(CustomError::MaxSupplyBelowTotal)
                } else {
                    &&& r matches Ok((s, acts)) ==> {
                        &&& s.total_supply <= s.max_supply
                        &&& (params.has_flag(PRICE_FLAG) ==> exists|i: int|
                            first_price_at(m.prices, params.price_ata@, i) && s@ == updated(m, params, i))
                        &&& (!params.has_flag(PRICE_FLAG) ==> s@ == updated(m, params, 0))
                        &&& acts@.len() == 1
                        &&& (acts@[0] matches Action::Store { address, data } && address == state_acc.key
                            && data@ == overwrite(state_acc.data@, encode_state(s@)))
                    }
                    &&& (forall|i: int|
                        (!params.has_flag(PRICE_FLAG) && i == 0 || first_price_at(m.prices, params.price_ata@, i))
                            && state_encodable(#[trigger] updated(m, params, i))
                            && encode_state(updated(m, params, i)).len() <= state_acc.data@.len()
                            ==> r is Ok)
                }
            },
        })
}

/// Changes the flagged settings of a campaign on its owner's request. The
/// record is found with the given `state_bump`.
pub fn update_state(
    program_id: &Address,
    admin: &Account,
    state_acc: &Account,
    params: &UpdateStateParams,
) -> (r: Result<(State, Vec<Action>), ProcessError>)
    ensures
        update_state_outcome(*program_id, *admin, *state_acc, *params, r),
{
    if !admin.is_signer {
        return Err(ProcessError::Custom(CustomError::WrongSigner));
    }
    let mut state = State::verify_and_load(
        program_id,
        state_acc,
        params.lootbox_id,
        Some(params.state_bump),
    )?;
    if !same_address(&state.owner, &admin.key) {
        return Err(ProcessError::Custom(CustomError::WrongAdminAccount));
    }
    let ghost m = state@;
    let ghost mut at: int = 0;
    if params.is_price() {
        match find_price_index(&state.prices, &params.price_ata) {
            Some(i) => {
                let ata = state.prices[i].ata;
                state.prices.set(i, Price { amount: params.price_amount, ata });
                proof {
                    at = i as int;
                }
            },
            None => {
                proof {
                    assert forall|i: int| !first_price_at(m.prices, params.price_ata@, i) by {
                        if 0 <= i < m.prices.len() {
                            assert(m.prices[i] == state.prices@[i]@);
                        }
                    }
                }
                return Err(ProcessError::Custom(CustomError::WrongPaymentAta));
            },
        }
    }
    if params.is_max_supply() {
        state.max_supply = params.max_supply;
    }
    if params.is_begin_ts() {
        state.begin_ts = params.begin_ts;
    }
    if params.is_end_ts() {
        state.end_ts = params.end_ts;
    }
    assert(state@.prices =~= updated(m, *params, at).prices);
    assert(state@ == updated(m, *params, at));
    if state.total_supply > state.max_supply {
        return Err(ProcessError::Custom(CustomError::MaxSupplyBelowTotal));
    }
    if !state_fits(&state) {
        return Err(ProcessError::Custom(CustomError::NotEnoughSpace));
    }
    let data = state.save_to(&state_acc.data)?;
    let mut acts: Vec<Action> = Vec::new();
    acts.push(Action::Store { address: state_acc.key, data });
    Ok((state, acts))
}


/// How many of `requested` units a campaign in state `m` still issues.
pub open spec fn units_left(m: StateModel, requested: int) -> int {
    if requested <= m.max_supply - m.total_supply {
        requested
    } else {
        m.max_supply - m.total_supply
    }
}

/// The record `m` after `n` more units were issued.
pub open spec fn issued(m: StateModel, n: int) -> StateModel {
    StateModel { total_supply: (m.total_supply + n) as u32, ..m }
}

/// The ticket record written for the `k`-th unit of an issue.
pub open spec fn ticket_record(owner: Address, lootbox_id: u16, issue_index: u32, external_id: u32) -> Ticket {
    Ticket {
        prefix: [65u8, 71, 76, 66],
        version: 0,
        owner,
        lootbox_id,
        issue_index,
        external_id,
    }
}

/// The campaign checks shared by the issuing handlers, in order, after the
/// record has loaded: supply, vault, time window.
pub open spec fn issue_error(m: StateModel, vault: Seq<u8>, program: Seq<u8>, now: i64) -> Option<ProcessError> {
    if m.total_supply >= m.max_supply {
        Some(ProcessError::Custom(CustomError::MaxSupplyReached))
    } else if vault_error(m, vault, program) is Some {
        vault_error(m, vault, program)
    } else if (m.begin_ts as i64) > now {
        Some(ProcessError::Custom(CustomError::TooEarly))
    } else if (m.end_ts as i64) < now {
        Some(ProcessError::Custom(CustomError::TooLate))
    } else {
        None
    }
}

/// The payment checks of a purchase of `count` units, in order.
pub open spec fn payment_error(m: StateModel, payment_ata: Seq<u8>, token_program: Seq<u8>, count: int) -> Option<ProcessError> {
    match price_for(m.prices, payment_ata) {
        None => Some(ProcessError::Custom(CustomError::WrongPaymentAta)),
        Some(price) => if token_program != token_program_id() {
            Some(ProcessError::IncorrectProgramId)
        } else if price * count > u64::MAX || price * count < price {
            Some(ProcessError::Custom(CustomError::WrongPriceOrCount))
        } else {
            None
        },
    }
}

fn issue_checks(state: &State, program_id: &Address, vault: &Address, now: i64) -> (r: Result<(), ProcessError>)
    ensures
        match issue_error(state@, vault@, program_id@, now) {
            Some(e) => r matches Err(x) && x == e,
            None => r is Ok,
        },
{
    state.check_and_get_correct_count(1)?;
    state.check_vault(program_id, vault)?;
    state.check_time(now)?;
    Ok(())
}

fn accept_payment(
    state: &State,
    buyer: &Account,
    buyer_ata: &Account,
    payment_ata: &Account,
    spl_program: &Account,
    count: u8,
) -> (r: Result<Action, ProcessError>)
    ensures
        match payment_error(state@, payment_ata.key@, spl_program.key@, count as int) {
            Some(e) => r matches Err(x) && x == e,
            None => r matches Ok(a) && (a matches Action::TokenTransfer {
                token_program,
                source,
                destination,
                authority,
                amount,
                seeds,
            } && token_program == spl_program.key && source == buyer_ata.key && destination
                == payment_ata.key && authority == buyer.key && amount == price_for(
                state@.prices,
                payment_ata.key@,
            )->Some_0 * count && seeds@.len() == 0),
        },
{
    let price = state.find_price(&payment_ata.key)?;
    if !is_token_program(&spl_program.key) {
        return Err(ProcessError::IncorrectProgramId);
    }
    let total = match price.checked_mul(count as u64) {
        Some(t) => t,
        None => return Err(ProcessError::Custom(CustomError::WrongPriceOrCount)),
    };
    if total < price {
        return Err(ProcessError::Custom(CustomError::WrongPriceOrCount));
    }
    Ok(
        Action::TokenTransfer {
            token_program: spl_program.key,
            source: buyer_ata.key,
            destination: payment_ata.key,
            authority: buyer.key,
            amount: total,
            seeds: Vec::new(),
        },
    )
}

/// The actions that create and fill the ticket account for unit `k`.
pub open spec fn ticket_actions_at(
    acts: Seq<Action>,
    at: int,
    payer: Address,
    ticket_key: Address,
    record: Ticket,
) -> bool {
    &&& acts[at] matches Action::CreateAccount { payer: p, address, space, seeds } && p == payer
        && address == ticket_key && space == TICKET_LEN
    &&& acts[at + 1] matches Action::Store { address, data } && address == ticket_key && data@
        == crate::ticket::encode_ticket(record)
}

/// The first ticket of a purchase that fails its checks, from the `k`-th of
/// `count` on: a missing account, or the first failure of that ticket's issue.
pub open spec fn tickets_error(
    buyer: Seq<u8>,
    tickets: Seq<Account>,
    p: BuyParam,
    program: Seq<u8>,
    k: int,
    count: int,
) -> Option<ProcessError>
    decreases count - k,
{
    if k >= count || k < 0 {
        None
    } else if k >= tickets.len() {
        Some(ProcessError::NotEnoughAccountKeys)
    } else if create_error(
        true,
        buyer,
        tickets[k].key@,
        tickets[k].data@,
        p.lootbox_id,
        p.ticket_seed,
        k as u8,
        Some(p.ticket_bumps@[k]),
        program,
    ) is Some {
        create_error(
            true,
            buyer,
            tickets[k].key@,
            tickets[k].data@,
            p.lootbox_id,
            p.ticket_seed,
            k as u8,
            Some(p.ticket_bumps@[k]),
            program,
        )
    } else {
        tickets_error(buyer, tickets, p, program, k + 1, count)
    }
}

/// What `buy` gives, as its contract states it.
pub open spec fn buy_outcome(
    program_id: Address,
    buyer: Account,
    buyer_ata: Account,
    payment_ata: Account,
    state_acc: Account,
    vault: Account,
    spl_program: Account,
    params: BuyParam,
    tickets: Seq<Account>,
    now: i64,
    r: Result<(State, Vec<Action>), ProcessError>,
) -> bool {
    &&& (!buyer.is_signer ==> (r matches Err(e) && e == ProcessError::Custom(CustomError::WrongSigner)))
    &&& (buyer.is_signer ==> match load_error(state_acc.data@, state_acc.key@, params.lootbox_id, None, program_id@) {
            Some(e) => r matches Err(x) && x == e,
            None => {
                let m = loaded(state_acc.data@);
                let count = units_left(m, params.ticket_bumps@.len() as int);
                if issue_error(m, vault.key@, program_id@, now) is Some {
                    r matches Err(x) && x == issue_error(m, vault.key@, program_id@, now)->Some_0
                } else if params.ticket_bumps@.len() > 255 {
                    r matches Err(x) && x == ProcessError::Custom(CustomError::WrongPriceOrCount)
                } else if payment_error(m, payment_ata.key@, spl_program.key@, count) is Some {
                    r matches Err(x) && x == payment_error(m, payment_ata.key@, spl_program.key@, count)->Some_0
                } else if tickets_error(buyer.key@, tickets, params, program_id@, 0, count) is Some {
                    r matches Err(x) && x == tickets_error(buyer.key@, tickets, params, program_id@, 0, count)->Some_0
                } else if !(state_encodable(issued(m, count)) && encode_state(issued(m, count)).len()
                    <= state_acc.data@.len()) {
                    r matches Err(x) && x == ProcessError::Custom(CustomError::NotEnoughSpace)
                } else {
                    r matches Ok((s, acts)) && {
                        &&& s@ == issued(m, count)
                        &&& s.total_supply <= s.max_supply
                        &&& acts@.len() == 2 * count + 2
                        &&& (acts@[0] matches Action::TokenTransfer { source, destination, authority, amount, .. }
                            && source == buyer_ata.key && destination == payment_ata.key
                            && authority == buyer.key
                            && amount == price_for(m.prices, payment_ata.key@)->Some_0 * count)
                        &&& forall|k: int| 0 <= k < count ==> ticket_actions_at(
                            acts@,
                            1 + 2 * k,
                            buyer.key,
                            #[trigger] tickets[k].key,
                            ticket_record(buyer.key, params.lootbox_id, (m.total_supply + k) as u32, 0),
                        )
                        &&& (acts@[2 * count + 1] matches Action::Store { address, data }
                            && address == state_acc.key
                            && data@ == overwrite(state_acc.data@, encode_state(s@)))
                    }
                }
            },
        })
}

/// Sells up to `ticket_bumps.len()` units, as many as the supply allows:
/// takes the payment for them to `payment_ata` at its listed price, issues a
/// ticket for each into `tickets` in order, and raises the total supply.
pub fn buy(
    program_id: &Address,
    buyer: &Account,
    buyer_ata: &Account,
    payment_ata: &Account,
    state_acc: &Account,
    vault: &Account,
    spl_program: &Account,
    params: &BuyParam,
    tickets: &[Account],
    now: i64,
) -> (r: Result<(State, Vec<Action>), ProcessError>)
    ensures
        buy_outcome(*program_id, *buyer, *buyer_ata, *payment_ata, *state_acc, *vault, *spl_program, *params, tickets@, now, r),
{
    if !buyer.is_signer {
        return Err(ProcessError::Custom(CustomError::WrongSigner));
    }
    let mut state = State::verify_and_load(program_id, state_acc, params.lootbox_id, None)?;
    let ghost m = state@;
    issue_checks(&state, program_id, &vault.key, now)?;
    if params.ticket_bumps.len() > 255 {
        return Err(ProcessError::Custom(CustomError::WrongPriceOrCount));
    }
    let count = state.check_and_get_correct_count(params.ticket_bumps.len() as u8)?;
    let payment = accept_payment(&state, buyer, buyer_ata, payment_ata, spl_program, count)?;
    let mut acts: Vec<Action> = Vec::new();
    acts.push(payment);
    let mut k: u8 = 0;
    while k < count
        invariant
            k <= count,
            load_error(state_acc.data@, state_acc.key@, params.lootbox_id, None, program_id@) is None,
            m == loaded(state_acc.data@),
            params.ticket_bumps@.len() <= 255,
            issue_error(m, vault.key@, program_id@, now) is None,
            payment_error(m, payment_ata.key@, spl_program.key@, count as int) is None,
            count as int == units_left(m, params.ticket_bumps@.len() as int),
            count <= params.ticket_bumps@.len(),
            m.total_supply + count <= m.max_supply,
            state@ == m,
            buyer.is_signer,
            acts@.len() == 1 + 2 * k,
            acts@[0] matches Action::TokenTransfer { source, destination, authority, amount, .. }
                && source == buyer_ata.key && destination == payment_ata.key
                && authority == buyer.key
                && amount == price_for(m.prices, payment_ata.key@)->Some_0 * count,
            forall|j: int| 0 <= j < k ==> ticket_actions_at(
                acts@,
                1 + 2 * j,
                buyer.key,
                #[trigger] tickets@[j].key,
                ticket_record(buyer.key, params.lootbox_id, (m.total_supply + j) as u32, 0),
            ),
            tickets_error(buyer.key@, tickets@, *params, program_id@, 0, count as int)
                == tickets_error(buyer.key@, tickets@, *params, program_id@, k as int, count as int),
            k <= tickets@.len(),
        decreases count - k,
    {
        if k as usize >= tickets.len() {
            return Err(ProcessError::NotEnoughAccountKeys);
        }
        let ticket_acc = &tickets[k as usize];
        let bump = params.ticket_bumps[k as usize];
        let issue = match Ticket::verify_and_create(
            program_id,
            buyer,
            params.lootbox_id,
            params.ticket_seed,
            k,
            state.total_supply + k as u32,
            ticket_acc,
            Some(bump),
            None,
        ) {
            Ok(i) => i,
            Err(e) => {
                proof {
                    let j = k as int;
                    assert(j as u8 == k);
                }
                return Err(e);
            },
        };
        let ghost before = acts@;
        acts.push(
            Action::CreateAccount {
                payer: buyer.key,
                address: ticket_acc.key,
                space: TICKET_LEN as u64,
                seeds: issue.seeds,
            },
        );
        acts.push(Action::Store { address: ticket_acc.key, data: issue.data });
        proof {
            assert(issue.ticket.prefix =~= [65u8, 71, 76, 66]);
            assert(issue.ticket == ticket_record(buyer.key, params.lootbox_id, (m.total_supply + k) as u32, 0));
            assert forall|j: int| 0 <= j < k + 1 implies ticket_actions_at(
                acts@,
                1 + 2 * j,
                buyer.key,
                #[trigger] tickets@[j].key,
                ticket_record(buyer.key, params.lootbox_id, (m.total_supply + j) as u32, 0),
            ) by {
                if j < k {
                    assert(acts@[1 + 2 * j] == before[1 + 2 * j]);
                    assert(acts@[2 + 2 * j] == before[2 + 2 * j]);
                }
            }
        }
        k = k + 1;
    }
    state.total_supply = state.total_supply + count as u32;
    assert(state@ == issued(m, count as int));
    if !state_fits(&state) {
        return Err(ProcessError::Custom(CustomError::NotEnoughSpace));
    }
    let data = state.save_to(&state_acc.data)?;
    acts.push(Action::Store { address: state_acc.key, data });
    Ok((state, acts))
}


/// What `obtain_ticket` gives, as its contract states it.
pub open spec fn obtain_outcome(
    program_id: Address,
    buyer: Account,
    params: ObtainTicketParams,
    state_acc: Account,
    vault: Account,
    ticket_acc: Account,
    now: i64,
    r: Result<(State, Vec<Action>), ProcessError>,
) -> bool {
    &&& (!buyer.is_signer ==> (r matches Err(e) && e == ProcessError::Custom(CustomError::WrongSigner)))
    &&& (buyer.is_signer ==> match load_error(state_acc.data@, state_acc.key@, params.lootbox_id, None, program_id@) {
            Some(e) => r matches Err(x) && x == e,
            None => {
                let m = loaded(state_acc.data@);
                let digest = sha256(obtain_message(vault.key@, buyer.key@, params.id, params.expire_at));
                if issue_error(m, vault.key@, program_id@, now) is Some {
                    r matches Err(x) && x == issue_error(m, vault.key@, program_id@, now)->Some_0
                } else if voucher_error(digest, params.expire_at, params.signature, m.signer, now) is Some {
                    r matches Err(x) && x == ProcessError::Custom(
                        voucher_error(digest, params.expire_at, params.signature, m.signer, now)->Some_0,
                    )
                } else if create_error(
                    true,
                    buyer.key@,
                    ticket_acc.key@,
                    ticket_acc.data@,
                    params.lootbox_id,
                    params.id,
                    0,
                    Some(params.bump),
                    program_id@,
                ) is Some {
                    r matches Err(x) && x == create_error(
                        true,
                        buyer.key@,
                        ticket_acc.key@,
                        ticket_acc.data@,
                        params.lootbox_id,
                        params.id,
                        0,
                        Some(params.bump),
                        program_id@,
                    )->Some_0
                } else {
                    &&& r matches Ok((s, acts)) ==> {
                        &&& s@ == issued(m, 1)
                        &&& s.total_supply <= s.max_supply
                        &&& acts@.len() == 3
                        &&& ticket_actions_at(
                            acts@,
                            0,
                            buyer.key,
                            ticket_acc.key,
                            ticket_record(buyer.key, params.lootbox_id, m.total_supply, params.id),
                        )
                        &&& (acts@[2] matches Action::Store { address, data }
                            && address == state_acc.key
                            && data@ == overwrite(state_acc.data@, encode_state(s@)))
                    }
                    &&& (state_encodable(issued(m, 1)) && encode_state(issued(m, 1)).len()
                        <= state_acc.data@.len() ==> r is Ok)
                }
            },
        })
}

/// Issues the one ticket that a voucher names: the voucher must be signed by
/// the campaign's signer over vault, requester, ticket id and expiry, and not
/// have expired at `now`.
pub fn obtain_ticket(
    program_id: &Address,
    buyer: &Account,
    params: &ObtainTicketParams,
    state_acc: &Account,
    vault: &Account,
    ticket_acc: &Account,
    now: i64,
) -> (r: Result<(State, Vec<Action>), ProcessError>)
    ensures
        obtain_outcome(*program_id, *buyer, *params, *state_acc, *vault, *ticket_acc, now, r),
{
    if !buyer.is_signer {
        return Err(ProcessError::Custom(CustomError::WrongSigner));
    }
    let mut state = State::verify_and_load(program_id, state_acc, params.lootbox_id, None)?;
    let ghost m = state@;
    issue_checks(&state, program_id, &vault.key, now)?;
    let digest = obtain_digest(&vault.key, &buyer.key, params.id, params.expire_at);
    verify_signature(&digest, params.expire_at, &params.signature, &state.signer, now)?;
    let issue = Ticket::verify_and_create(
        program_id,
        buyer,
        params.lootbox_id,
        params.id,
        0,
        state.total_supply,
        ticket_acc,
        Some(params.bump),
        Some(params.id),
    )?;
    let mut acts: Vec<Action> = Vec::new();
    acts.push(
        Action::CreateAccount {
            payer: buyer.key,
            address: ticket_acc.key,
            space: TICKET_LEN as u64,
            seeds: issue.seeds,
        },
    );
    acts.push(Action::Store { address: ticket_acc.key, data: issue.data });
    assert(issue.ticket.prefix =~= [65u8, 71, 76, 66]);
    state.total_supply = state.total_supply + 1;
    assert(state@ == issued(m, 1));
    if !state_fits(&state) {
        return Err(ProcessError::Custom(CustomError::NotEnoughSpace));
    }
    let data = state.save_to(&state_acc.data)?;
    acts.push(Action::Store { address: state_acc.key, data });
    Ok((state, acts))
}


/// The record `m` after `n` more units were redeemed.
pub open spec fn redeemed(m: StateModel, n: int) -> StateModel {
    StateModel { withdraw_counter: (m.withdraw_counter + n) as u32, ..m }
}

pub open spec fn account_keys(accs: Seq<Account>) -> Seq<Seq<u8>> {
    accs.map_values(|a: Account| a.key@)
}

/// The token mints of the payouts: every third account after the tickets.
pub open spec fn payout_mints(rest: Seq<Account>, tickets: int, payouts: int) -> Seq<Seq<u8>> {
    Seq::new(payouts as nat, |j: int| rest[tickets + 3 * j].key@)
}

/// The first failure when redeeming the tickets from the `k`-th of `n` on,
/// with the requester's balance at `balance`: a missing account, the ticket's
/// own failure, or a balance that leaves `u64`.
pub open spec fn burn_error(owner: Seq<u8>, balance: int, rest: Seq<Account>, k: int, n: int) -> Option<
    ProcessError,
>
    decreases n - k,
{
    if k >= n || k < 0 {
        None
    } else if k >= rest.len() {
        Some(ProcessError::NotEnoughAccountKeys)
    } else if close_error(true, owner, rest[k].data@) is Some {
        close_error(true, owner, rest[k].data@)
    } else if balance + rest[k].lamports > u64::MAX {
        Some(ProcessError::ArithmeticOverflow)
    } else {
        burn_error(owner, balance + rest[k].lamports, rest, k + 1, n)
    }
}

/// One reclaim into `owner` for each of the first `n` accounts of `rest`.
pub open spec fn reclaims(rest: Seq<Account>, n: int, owner: Address) -> Seq<ActionModel> {
    Seq::new(n as nat, |k: int| ActionModel::Reclaim { from: rest[k].key, to: owner })
}

/// The actions of the first `n` payouts: for payout `j`, whose accounts start
/// at `from + 3 * j` (mint, source, destination), the creation of the
/// destination when it holds no bytes, then the transfer of `amounts[j]` from
/// the vault, signed with `seeds`.
pub open spec fn payout_actions(
    rest: Seq<Account>,
    from: int,
    amounts: Seq<u64>,
    vault: Address,
    owner: Address,
    token_program: Address,
    seeds: Seq<Seq<u8>>,
    n: int,
) -> Seq<ActionModel>
    decreases n,
{
    if n <= 0 {
        Seq::empty()
    } else {
        let j = n - 1;
        let mint = rest[from + 3 * j];
        let source = rest[from + 3 * j + 1];
        let destination = rest[from + 3 * j + 2];
        payout_actions(rest, from, amounts, vault, owner, token_program, seeds, j) + (if destination.data@.len() == 0 {
            seq![
                ActionModel::CreateTokenAccount {
                    token_program,
                    address: destination.key,
                    owner,
                    mint: mint.key,
                },
            ]
        } else {
            Seq::empty()
        }) + seq![
            ActionModel::TokenTransfer {
                token_program,
                source: source.key,
                destination: destination.key,
                authority: vault,
                amount: amounts[j],
                seeds,
            },
        ]
    }
}

/// Redeems the first `count` accounts of `rest` as tickets held by `owner`;
/// returns their addresses and the actions that reclaim them.
fn burn_tickets(owner: &Account, count: u8, rest: &[Account]) -> (r: Result<
    (Vec<Address>, Vec<Action>),
    ProcessError,
>)
    requires
        owner.is_signer,
    ensures
        match burn_error(owner.key@, owner.lamports as int, rest@, 0, count as int) {
            Some(e) => r matches Err(x) && x == e,
            None => r matches Ok((keys, acts)) && {
                &&& count <= rest@.len()
                &&& keys@.len() == count
                &&& forall|j: int| 0 <= j < count ==> (#[trigger] keys@[j]) == rest@[j].key
                &&& actions_view(acts@) == reclaims(rest@, count as int, owner.key)
            },
        },
{
    let mut acts: Vec<Action> = Vec::new();
    let mut holder = owner.duplicate();
    let mut keys: Vec<Address> = Vec::new();
    let n = count as usize;
    let mut i: usize = 0;
    while i < n
        invariant
            i <= n,
            n == count,
            i <= rest@.len(),
            holder.key == owner.key,
            holder.is_signer,
            burn_error(owner.key@, owner.lamports as int, rest@, 0, n as int) == burn_error(
                owner.key@,
                holder.lamports as int,
                rest@,
                i as int,
                n as int,
            ),
            keys@.len() == i,
            forall|j: int| 0 <= j < i ==> (#[trigger] keys@[j]) == rest@[j].key,
            actions_view(acts@) == reclaims(rest@, i as int, owner.key),
        decreases n - i,
    {
        if i >= rest.len() {
            return Err(ProcessError::NotEnoughAccountKeys);
        }
        let mut ticket_acc = rest[i].duplicate();
        keys.push(ticket_acc.key);
        Ticket::verify_and_close(&mut holder, &mut ticket_acc)?;
        let ghost before = actions_view(acts@);
        acts.push(Action::Reclaim { from: ticket_acc.key, to: owner.key });
        assert(actions_view(acts@) =~= before.push(ActionModel::Reclaim { from: rest@[i as int].key, to: owner.key }));
        i = i + 1;
        assert(actions_view(acts@) =~= reclaims(rest@, i as int, owner.key));
    }
    Ok((keys, acts))
}

/// Pays out each amount from the vault. Payout `j` takes the accounts of
/// `rest` from `from + 3 * j` on: token mint, vault token account, and the
/// requester's token account, which is created first when it is empty.
/// Returns the mints in order and the actions.
fn transfer_tokens(
    owner: &Account,
    amounts: &Vec<u64>,
    rest: &[Account],
    from: usize,
    vault: &Account,
    spl_program: &Account,
    seeds: &Vec<Vec<u8>>,
) -> (r: Result<(Vec<Address>, Vec<Action>), ProcessError>)
    requires
        from <= rest@.len(),
    ensures
        from + 3 * amounts@.len() > rest@.len() ==> (r matches Err(e) && e
            == ProcessError::NotEnoughAccountKeys),
        from + 3 * amounts@.len() <= rest@.len() ==> (r matches Ok((mints, acts)) && {
            &&& crate::voucher::keys_view(mints@) == payout_mints(rest@, from as int, amounts@.len() as int)
            &&& actions_view(acts@) == payout_actions(
                rest@,
                from as int,
                amounts@,
                vault.key,
                owner.key,
                spl_program.key,
                seeds_view(seeds@),
                amounts@.len() as int,
            )
        }),
{
    let mut acts: Vec<Action> = Vec::new();
    let mut mints: Vec<Address> = Vec::new();
    let payouts = amounts.len();
    let mut j: usize = 0;
    while j < payouts
        invariant
            j <= payouts,
            payouts == amounts@.len(),
            from <= rest@.len(),
            mints@.len() == j,
            forall|q: int| 0 <= q < j ==> (#[trigger] mints@[q])@ == rest@[from + 3 * q].key@,
            from + 3 * j <= rest@.len(),
            actions_view(acts@) == payout_actions(
                rest@,
                from as int,
                amounts@,
                vault.key,
                owner.key,
                spl_program.key,
                seeds_view(seeds@),
                j as int,
            ),
        decreases payouts - j,
    {
        if rest.len() - from < 3 || (rest.len() - from - 3) / 3 < j {
            return Err(ProcessError::NotEnoughAccountKeys);
        }
        let base = from + 3 * j;
        let mint = &rest[base];
        let source = &rest[base + 1];
        let destination = &rest[base + 2];
        let ghost before = actions_view(acts@);
        mints.push(mint.key);
        if destination.data.len() == 0 {
            acts.push(
                Action::CreateTokenAccount {
                    token_program: spl_program.key,
                    address: destination.key,
                    owner: owner.key,
                    mint: mint.key,
                },
            );
        }
        acts.push(
            Action::TokenTransfer {
                token_program: spl_program.key,
                source: source.key,
                destination: destination.key,
                authority: vault.key,
                amount: amounts[j],
                seeds: copy_seeds(seeds),
            },
        );
        j = j + 1;
        assert(actions_view(acts@) =~= payout_actions(
            rest@,
            from as int,
            amounts@,
            vault.key,
            owner.key,
            spl_program.key,
            seeds_view(seeds@),
            j as int,
        ));
    }
    assert(crate::voucher::keys_view(mints@) =~= payout_mints(rest@, from as int, payouts as int));
    Ok((mints, acts))
}

/// What a redemption request gives: its failure, in the order the checks run,
/// or the redeemed record and the actions: a reclaim per ticket, the payouts,
/// and the stored record.
pub open spec fn withdraw_outcome(
    program_id: Address,
    owner: Account,
    params: WithdrawParam,
    state_acc: Account,
    vault: Account,
    spl_program: Account,
    rest: Seq<Account>,
    now: i64,
    r: Result<(State, Vec<Action>), ProcessError>,
) -> bool {
    if !owner.is_signer {
        r matches Err(e) && e == ProcessError::Custom(CustomError::WrongSigner)
    } else {
        match load_error(state_acc.data@, state_acc.key@, params.lootbox_id, None, program_id@) {
            Some(e) => r matches Err(x) && x == e,
            None => {
                let m = loaded(state_acc.data@);
                let n = params.tickets as int;
                let payouts = params.amounts@.len() as int;
                let digest = sha256(
                    withdraw_message(
                        account_keys(rest.subrange(0, n)),
                        payout_mints(rest, n, payouts),
                        params.amounts@,
                        vault.key@,
                        owner.key@,
                        params.expire_at,
                    ),
                );
                let burn = burn_error(owner.key@, owner.lamports as int, rest, 0, n);
                if vault_error(m, vault.key@, program_id@) is Some {
                    r matches Err(x) && x == vault_error(m, vault.key@, program_id@)->Some_0
                } else if burn is Some {
                    r matches Err(x) && x == burn->Some_0
                } else if rest.len() < n + 3 * payouts {
                    r matches Err(x) && x == ProcessError::NotEnoughAccountKeys
                } else if voucher_error(digest, params.expire_at, params.signature, m.signer, now) is Some {
                    r matches Err(x) && x == ProcessError::Custom(
                        voucher_error(digest, params.expire_at, params.signature, m.signer, now)->Some_0,
                    )
                } else if m.withdraw_counter + n > u32::MAX {
                    r matches Err(x) && x == ProcessError::ArithmeticOverflow
                } else if !(state_encodable(redeemed(m, n)) && encode_state(redeemed(m, n)).len()
                    <= state_acc.data@.len()) {
                    r matches Err(x) && x == ProcessError::Custom(CustomError::NotEnoughSpace)
                } else {
                    r matches Ok((s, acts)) && {
                        &&& s@ == redeemed(m, n)
                        &&& actions_view(acts@) == reclaims(rest, n, owner.key) + payout_actions(
                            rest,
                            n,
                            params.amounts@,
                            vault.key,
                            owner.key,
                            spl_program.key,
                            vault_signer_seeds(m),
                            payouts,
                        ) + seq![
                            ActionModel::Store {
                                address: state_acc.key,
                                data: overwrite(state_acc.data@, encode_state(redeemed(m, n))),
                            },
                        ]
                    }
                }
            },
        }
    }
}

/// Redeems `params.tickets` tickets, the first accounts of `rest`, and pays
/// out each amount of `params.amounts` from the vault; each payout takes the
/// next three accounts of `rest`: token mint, vault token account, and the
/// requester's token account (created when empty). One voucher, signed by the
/// campaign's signer, binds every ticket, mint and amount with vault,
/// requester and expiry.
#[verifier::rlimit(100)]
pub fn withdraw(
    program_id: &Address,
    owner: &Account,
    params: &WithdrawParam,
    state_acc: &Account,
    vault: &Account,
    spl_program: &Account,
    rest: &[Account],
    now: i64,
) -> (r: Result<(State, Vec<Action>), ProcessError>)
    ensures
        withdraw_outcome(*program_id, *owner, *params, *state_acc, *vault, *spl_program, rest@, now, r),
{
    if !owner.is_signer {
        return Err(ProcessError::Custom(CustomError::WrongSigner));
    }
    let mut state = State::verify_and_load(program_id, state_acc, params.lootbox_id, None)?;
    let ghost m = state@;
    let vault_seeds = state.check_vault(program_id, &vault.key)?;
    let (ticket_keys, mut acts) = burn_tickets(owner, params.tickets, rest)?;
    let (mints, mut payout_acts) = transfer_tokens(
        owner,
        &params.amounts,
        rest,
        params.tickets as usize,
        vault,
        spl_program,
        &vault_seeds,
    )?;
    let ghost burn_part = actions_view(acts@);
    let ghost payout_part = actions_view(payout_acts@);
    acts.append(&mut payout_acts);
    assert(actions_view(acts@) =~= burn_part + payout_part);
    proof {
        assert(crate::voucher::keys_view(ticket_keys@) =~= account_keys(
            rest@.subrange(0, params.tickets as int),
        ));
    }
    let digest = withdraw_digest(
        &ticket_keys,
        &mints,
        &params.amounts,
        &vault.key,
        &owner.key,
        params.expire_at,
    );
    verify_signature(&digest, params.expire_at, &params.signature, &state.signer, now)?;
    state.withdraw_counter = match state.withdraw_counter.checked_add(params.tickets as u32) {
        Some(c) => c,
        None => return Err(ProcessError::ArithmeticOverflow),
    };
    assert(state@ == redeemed(m, params.tickets as int));
    if !state_fits(&state) {
        return Err(ProcessError::Custom(CustomError::NotEnoughSpace));
    }
    let data = state.save_to(&state_acc.data)?;
    let ghost head = actions_view(acts@);
    acts.push(Action::Store { address: state_acc.key, data });
    assert(actions_view(acts@) =~= head.push(acts@.last()@));
    assert(burn_part == reclaims(rest@, params.tickets as int, owner.key));
    assert(seeds_view(vault_seeds@) == vault_signer_seeds(m));
    assert(payout_part == payout_actions(
        rest@,
        params.tickets as int,
        params.amounts@,
        vault.key,
        owner.key,
        spl_program.key,
        vault_signer_seeds(m),
        params.amounts@.len() as int,
    ));
    assert(acts@.last()@ == ActionModel::Store {
        address: state_acc.key,
        data: overwrite(state_acc.data@, encode_state(redeemed(m, params.tickets as int))),
    });
    assert(actions_view(acts@) =~= burn_part + payout_part + seq![
        ActionModel::Store {
            address: state_acc.key,
            data: overwrite(state_acc.data@, encode_state(redeemed(m, params.tickets as int))),
        },
    ]);
    Ok((state, acts))
}


/// The record that Initialize writes: current version, nothing issued yet, the
/// caller as owner, and the i-th price paid to the i-th price account.
pub open spec fn initial_state(admin: Seq<u8>, p: InitializeParams, price_accounts: Seq<Account>) -> StateModel {
    StateModel {
        version: StateVersion::Version4,
        id: p.lootbox_id,
        owner: admin,
        vault_bump: p.vault_bump,
        total_supply: 0,
        max_supply: p.max_supply,
        begin_ts: p.begin_ts,
        end_ts: p.end_ts,
        name: p.name@,
        signer: p.signer@,
        prices: Seq::new(
            p.prices@.len(),
            |i: int| PriceModel { amount: p.prices@[i], ata: price_accounts[i].key@ },
        ),
        base_url: p.base_url@,
        withdraw_counter: 0,
    }
}

/// The first failure of Initialize before the record is built, in the order
/// the checks run.
pub open spec fn initialize_error(
    admin: Account,
    vault: Account,
    state_acc: Account,
    p: InitializeParams,
    price_accounts: Seq<Account>,
    program: Seq<u8>,
) -> Option<ProcessError> {
    if !admin.is_signer {
        Some(ProcessError::Custom(CustomError::WrongSigner))
    } else if vault.is_signer || state_acc.is_signer {
        Some(ProcessError::Custom(CustomError::PdaCannotBeSigner))
    } else if derived(vault_seeds(admin.key@), Some(p.vault_bump), program) != Some(vault.key@) {
        Some(ProcessError::InvalidSeeds)
    } else if derived(state_seeds(admin.key@, p.lootbox_id), Some(p.state_bump), program) != Some(
        state_acc.key@,
    ) {
        Some(ProcessError::InvalidSeeds)
    } else if state_initialized(state_acc.data@) {
        Some(ProcessError::Custom(CustomError::StateAlreadyInitialized))
    } else if price_accounts.len() < p.prices@.len() {
        Some(ProcessError::NotEnoughAccountKeys)
    } else {
        None
    }
}

/// What `initialize` gives, as its contract states it.
pub open spec fn initialize_outcome(
    program_id: Address,
    admin: Account,
    vault: Account,
    state_acc: Account,
    params: InitializeParams,
    price_accounts: Seq<Account>,
    r: Result<(State, Vec<Action>), ProcessError>,
) -> bool {
    &&& (match initialize_error(admin, vault, state_acc, params, price_accounts, program_id@) {
            Some(e) => r matches Err(x) && x == e,
            None => {
                let m = initial_state(admin.key@, params, price_accounts);
                &&& (state_encodable(m) && encode_state(m).len() + STATE_SLACK <= usize::MAX) ==> r is Ok
                &&& r matches Ok((s, acts)) ==> {
                    &&& s@ == m
                    &&& acts@.len() >= 2
                    &&& (vault.data@.len() == 0 && vault.lamports == 0) == (acts@.len() == 3)
                    &&& (acts@.len() == 3 ==> (acts@[0] matches Action::CreateAccount { payer, address, space, .. }
                        && payer == admin.key && address == vault.key && space == 0))
                    &&& (acts@[acts@.len() - 2] matches Action::CreateAccount { payer, address, space, .. }
                        && payer == admin.key && address == state_acc.key
                        && space == encode_state(m).len() + STATE_SLACK)
                    &&& (acts@.last() matches Action::Store { address, data }
                        && address == state_acc.key
                        && data@ == encode_state(m) + Seq::new(STATE_SLACK as nat, |i: int| 0u8))
                }
            },
        })
}

/// Sets up a campaign: creates its vault unless that account already exists,
/// and creates its record, sized for growth, at the address derived from
/// `[admin, "state2", lootbox_id, state_bump]`. The accounts that receive the
/// listed prices follow in `price_accounts`.
pub fn initialize(
    program_id: &Address,
    admin: &Account,
    vault: &Account,
    state_acc: &Account,
    params: &InitializeParams,
    price_accounts: &[Account],
) -> (r: Result<(State, Vec<Action>), ProcessError>)
    ensures
        initialize_outcome(*program_id, *admin, *vault, *state_acc, *params, price_accounts@, r),
{
    if !admin.is_signer {
        return Err(ProcessError::Custom(CustomError::WrongSigner));
    }
    if vault.is_signer || state_acc.is_signer {
        return Err(ProcessError::Custom(CustomError::PdaCannotBeSigner));
    }
    let mut acts: Vec<Action> = Vec::new();
    match create_vault(program_id, admin, vault, params.vault_bump)? {
        Some(a) => acts.push(a),
        None => {},
    }
    let (state, mut state_acts) = create_state(program_id, admin, state_acc, params, price_accounts)?;
    acts.append(&mut state_acts);
    Ok((state, acts))
}

/// Checks that `vault` is derived from `[admin, "vault", vault_bump]`; returns
/// the action that creates it, or none when the account already holds bytes
/// or a balance.
fn create_vault(program_id: &Address, admin: &Account, vault: &Account, vault_bump: u8) -> (r: Result<
    Option<Action>,
    ProcessError,
>)
    ensures
        derived(vault_seeds(admin.key@), Some(vault_bump), program_id@) != Some(vault.key@) ==> (r
            matches Err(e) && e == ProcessError::InvalidSeeds),
        derived(vault_seeds(admin.key@), Some(vault_bump), program_id@) == Some(vault.key@) ==> (r
            matches Ok(a) && ((vault.data@.len() == 0 && vault.lamports == 0) == a is Some) && (a matches Some(x)
            ==> (x matches Action::CreateAccount { payer, address, space, .. } && payer == admin.key
            && address == vault.key && space == 0))),
{
    let mut seeds = make_vault_seeds(&admin.key);
    check_derived(&seeds, Some(vault_bump), program_id, &vault.key, ProcessError::InvalidSeeds)?;
    if vault.data.len() > 0 || vault.lamports > 0 {
        return Ok(None);
    }
    let mut b: Vec<u8> = Vec::new();
    b.push(vault_bump);
    seeds.push(b);
    Ok(Some(Action::CreateAccount { payer: admin.key, address: vault.key, space: 0, seeds }))
}

/// The first failure of the record creation, in the order the checks run.
pub open spec fn create_state_error(
    admin: Account,
    state_acc: Account,
    p: InitializeParams,
    price_accounts: Seq<Account>,
    program: Seq<u8>,
) -> Option<ProcessError> {
    if derived(state_seeds(admin.key@, p.lootbox_id), Some(p.state_bump), program) != Some(
        state_acc.key@,
    ) {
        Some(ProcessError::InvalidSeeds)
    } else if state_initialized(state_acc.data@) {
        Some(ProcessError::Custom(CustomError::StateAlreadyInitialized))
    } else if price_accounts.len() < p.prices@.len() {
        Some(ProcessError::NotEnoughAccountKeys)
    } else {
        None
    }
}

/// Builds the new campaign record and the actions that create its account,
/// sized for growth, and store it.
fn create_state(
    program_id: &Address,
    admin: &Account,
    state_acc: &Account,
    params: &InitializeParams,
    price_accounts: &[Account],
) -> (r: Result<(State, Vec<Action>), ProcessError>)
    ensures
        match create_state_error(*admin, *state_acc, *params, price_accounts@, program_id@) {
            Some(e) => r matches Err(x) && x == e,
            None => {
                let m = initial_state(admin.key@, *params, price_accounts@);
                &&& (state_encodable(m) && encode_state(m).len() + STATE_SLACK <= usize::MAX) ==> r is Ok
                &&& r matches Ok((s, acts)) ==> {
                    &&& s@ == m
                    &&& acts@.len() == 2
                    &&& (acts@[0] matches Action::CreateAccount { payer, address, space, .. }
                        && payer == admin.key && address == state_acc.key
                        && space == encode_state(m).len() + STATE_SLACK)
                    &&& (acts@[1] matches Action::Store { address, data }
                        && address == state_acc.key
                        && data@ == encode_state(m) + Seq::new(STATE_SLACK as nat, |i: int| 0u8))
                }
            },
        },
{
    let mut acts: Vec<Action> = Vec::new();
    let mut s_seeds = make_state_seeds(&admin.key, params.lootbox_id);
    check_derived(&s_seeds, Some(params.state_bump), program_id, &state_acc.key, ProcessError::InvalidSeeds)?;
    let mut sb: Vec<u8> = Vec::new();
    sb.push(params.state_bump);
    s_seeds.push(sb);
    if State::if_initialized(&state_acc.data) {
        return Err(ProcessError::Custom(CustomError::StateAlreadyInitialized));
    }
    if price_accounts.len() < params.prices.len() {
        return Err(ProcessError::NotEnoughAccountKeys);
    }
    let mut prices: Vec<Price> = Vec::with_capacity(params.prices.len());
    let mut i: usize = 0;
    while i < params.prices.len()
        invariant
            i <= params.prices@.len(),
            params.prices@.len() <= price_accounts@.len(),
            prices_view(prices@) == Seq::new(
                i as nat,
                |k: int| PriceModel { amount: params.prices@[k], ata: price_accounts@[k].key@ },
            ),
        decreases params.prices@.len() - i,
    {
        let ghost before = prices@;
        prices.push(Price { amount: params.prices[i], ata: price_accounts[i].key });
        assert(prices_view(prices@) =~= prices_view(before).push(
            PriceModel { amount: params.prices@[i as int], ata: price_accounts@[i as int].key@ },
        ));
        i = i + 1;
        assert(prices_view(prices@) =~= Seq::new(
            i as nat,
            |k: int| PriceModel { amount: params.prices@[k], ata: price_accounts@[k].key@ },
        ));
    }
    let state = State {
        version: StateVersion::Version4,
        id: params.lootbox_id,
        owner: admin.key,
        vault_bump: params.vault_bump,
        total_supply: 0,
        max_supply: params.max_supply,
        begin_ts: params.begin_ts,
        end_ts: params.end_ts,
        name: params.name.clone(),
        signer: params.signer,
        prices,
        base_url: params.base_url.clone(),
        withdraw_counter: 0,
    };
    assert(state@.prices =~= initial_state(admin.key@, *params, price_accounts@).prices);
    assert(state@ == initial_state(admin.key@, *params, price_accounts@));
    if !state_fits(&state) {
        return Err(ProcessError::Custom(CustomError::NotEnoughSpace));
    }
    let space = match state.allocation_size() {
        Some(n) => n,
        None => return Err(ProcessError::ArithmeticOverflow),
    };
    acts.push(Action::CreateAccount { payer: admin.key, address: state_acc.key, space: space as u64, seeds: s_seeds });
    let mut fresh: Vec<u8> = Vec::with_capacity(space);
    let mut k: usize = 0;
    while k < space
        invariant
            k <= space,
            fresh@ == Seq::new(k as nat, |i: int| 0u8),
        decreases space - k,
    {
        fresh.push(0u8);
        k = k + 1;
        assert(fresh@ =~= Seq::new(k as nat, |i: int| 0u8));
    }
    let data = state.save_to(&fresh)?;
    assert(data@ =~= encode_state(state@) + Seq::new(STATE_SLACK as nat, |i: int| 0u8));
    acts.push(Action::Store { address: state_acc.key, data });
    Ok((state, acts))
}

/// How many accounts each request kind lists before its variable part.
pub open spec fn fixed_accounts(i: Instruction) -> nat {
    match i {
        Instruction::OldBuy => 0,
        Instruction::OldWithdraw => 0,
        Instruction::Withdraw(_) => 5,
        Instruction::ObtainTicket(_) => 5,
        Instruction::Buy(_) => 7,
        Instruction::UpdateState(_) => 2,
        Instruction::MigrateToV3(_) => 2,
        Instruction::AdminWithdraw { .. } => 6,
        Instruction::Initialize(_) => 4,
    }
}

/// The handler's result without the record it built.
pub open spec fn acts_of(h: Result<(State, Vec<Action>), ProcessError>) -> Result<Vec<Action>, ProcessError> {
    match h {
        Ok((_, acts)) => Ok(acts),
        Err(e) => Err(e),
    }
}

/// A request whose tag is one of the two withdrawn kinds.
pub open spec fn legacy_request(d: Seq<u8>) -> bool {
    d.len() >= 1 && (d[0] == 0 || d[0] == 1)
}

/// What request `i` gives with `accounts` in their fixed order: missing
/// accounts, or what its handler gives for them.
pub open spec fn dispatch_outcome(
    program_id: Address,
    accounts: Seq<Account>,
    i: Instruction,
    now: i64,
    r: Result<Vec<Action>, ProcessError>,
) -> bool {
    if i is OldBuy || i is OldWithdraw {
        r == Err::<Vec<Action>, ProcessError>(ProcessError::Custom(CustomError::InstructionNotSupported))
    } else if accounts.len() < fixed_accounts(i) {
        r == Err::<Vec<Action>, ProcessError>(ProcessError::NotEnoughAccountKeys)
    } else {
        match i {
            Instruction::Buy(p) => exists|h: Result<(State, Vec<Action>), ProcessError>|
                buy_outcome(
                    program_id,
                    accounts[0],
                    accounts[1],
                    accounts[2],
                    accounts[4],
                    accounts[3],
                    accounts[6],
                    p,
                    accounts.subrange(7, accounts.len() as int),
                    now,
                    h,
                ) && r == acts_of(h),
            Instruction::Withdraw(p) => exists|h: Result<(State, Vec<Action>), ProcessError>|
                withdraw_outcome(
                    program_id,
                    accounts[0],
                    p,
                    accounts[2],
                    accounts[1],
                    accounts[4],
                    accounts.subrange(5, accounts.len() as int),
                    now,
                    h,
                ) && r == acts_of(h),
            Instruction::Initialize(p) => exists|h: Result<(State, Vec<Action>), ProcessError>|
                initialize_outcome(
                    program_id,
                    accounts[0],
                    accounts[1],
                    accounts[2],
                    p,
                    accounts.subrange(4, accounts.len() as int),
                    h,
                ) && r == acts_of(h),
            Instruction::ObtainTicket(p) => exists|h: Result<(State, Vec<Action>), ProcessError>|
                obtain_outcome(program_id, accounts[0], p, accounts[1], accounts[2], accounts[3], now, h)
                    && r == acts_of(h),
            Instruction::MigrateToV3(p) => exists|h: Result<(State, Vec<Action>), ProcessError>|
                migrate_outcome(program_id, accounts[0], accounts[1], p, h) && r == acts_of(h),
            Instruction::UpdateState(p) => exists|h: Result<(State, Vec<Action>), ProcessError>|
                update_state_outcome(program_id, accounts[0], accounts[1], p, h) && r == acts_of(h),
            Instruction::AdminWithdraw { lootbox_id, amount } => admin_withdraw_outcome(
                program_id,
                lootbox_id,
                accounts[0],
                accounts[1],
                accounts[2],
                accounts[3],
                accounts[4],
                accounts[5],
                amount,
                r,
            ),
            _ => false,
        }
    }
}

/// Runs one request: refuses the withdrawn kinds, decodes the rest, takes
/// their accounts in their fixed order and hands them to the handler of their
/// kind. `now` is the host's clock.
/// Account order per kind:
/// Buy: buyer, buyer token account, payment account, vault, record, system
/// program, token program, then one account per ticket.
/// Withdraw: requester, vault, record, system program, token program, then the
/// tickets and the payout triples.
/// Initialize: admin, vault, record, system program, then the price accounts.
/// ObtainTicket: requester, record, vault, ticket, system program.
/// MigrateToV3 and UpdateState: admin, record.
/// AdminWithdraw: admin, record, vault, source, destination, token program.
pub fn process_instruction(
    program_id: &Address,
    accounts: &Vec<Account>,
    instruction_data: &Vec<u8>,
    now: i64,
) -> (r: Result<Vec<Action>, ProcessError>)
    ensures
        legacy_request(instruction_data@) ==> r == Err::<Vec<Action>, ProcessError>(
            ProcessError::Custom(CustomError::InstructionNotSupported),
        ),
        !legacy_request(instruction_data@) && crate::instruction::no_encoding(instruction_data@) ==> r
            == Err::<Vec<Action>, ProcessError>(ProcessError::InvalidInstructionData),
        !legacy_request(instruction_data@) && !crate::instruction::no_encoding(instruction_data@)
            ==> exists|i: Instruction|
            crate::instruction::instruction_encodable(i) && #[trigger] crate::instruction::encode_instruction(i)
                == instruction_data@ && dispatch_outcome(*program_id, accounts@, i, now, r),
{
    if instruction_data.len() >= 1 && (instruction_data[0] == 0 || instruction_data[0] == 1) {
        return Err(ProcessError::Custom(CustomError::InstructionNotSupported));
    }
    let instruction = Instruction::unpack(instruction_data)?;
    let ghost decoded = instruction;
    let need: usize = match &instruction {
        Instruction::OldBuy => 0,
        Instruction::OldWithdraw => 0,
        Instruction::Withdraw(_) => 5,
        Instruction::ObtainTicket(_) => 5,
        Instruction::Buy(_) => 7,
        Instruction::UpdateState(_) => 2,
        Instruction::MigrateToV3(_) => 2,
        Instruction::AdminWithdraw { .. } => 6,
        Instruction::Initialize(_) => 4,
    };
    if need == 0 {
        return Err(ProcessError::Custom(CustomError::InstructionNotSupported));
    }
    if accounts.len() < need {
        return Err(ProcessError::NotEnoughAccountKeys);
    }
    assert(need == fixed_accounts(decoded));
    let r = match instruction {
        Instruction::Buy(params) => {
            let tickets = slice_subrange(accounts.as_slice(), 7, accounts.len());
            let h = buy(
                program_id,
                &accounts[0],
                &accounts[1],
                &accounts[2],
                &accounts[4],
                &accounts[3],
                &accounts[6],
                &params,
                tickets,
                now,
            );
            let ghost hg = h;
            let r = match h {
                Ok((_, acts)) => Ok(acts),
                Err(e) => Err(e),
            };
            assert(r == acts_of(hg));
            r
        },
        Instruction::Withdraw(params) => {
            let rest = slice_subrange(accounts.as_slice(), 5, accounts.len());
            let h = withdraw(
                program_id,
                &accounts[0],
                &params,
                &accounts[2],
                &accounts[1],
                &accounts[4],
                rest,
                now,
            );
            let ghost hg = h;
            let r = match h {
                Ok((_, acts)) => Ok(acts),
                Err(e) => Err(e),
            };
            assert(r == acts_of(hg));
            r
        },
        Instruction::Initialize(params) => {
            let price_accounts = slice_subrange(accounts.as_slice(), 4, accounts.len());
            let h = initialize(
                program_id,
                &accounts[0],
                &accounts[1],
                &accounts[2],
                &params,
                price_accounts,
            );
            let ghost hg = h;
            let r = match h {
                Ok((_, acts)) => Ok(acts),
                Err(e) => Err(e),
            };
            assert(r == acts_of(hg));
            r
        },
        Instruction::ObtainTicket(params) => {
            let h = obtain_ticket(
                program_id,
                &accounts[0],
                &params,
                &accounts[1],
                &accounts[2],
                &accounts[3],
                now,
            );
            let ghost hg = h;
            let r = match h {
                Ok((_, acts)) => Ok(acts),
                Err(e) => Err(e),
            };
            assert(r == acts_of(hg));
            r
        },
        Instruction::MigrateToV3(params) => {
            let h = migrate_to_v3(program_id, &accounts[0], &accounts[1], &params);
            let ghost hg = h;
            let r = match h {
                Ok((_, acts)) => Ok(acts),
                Err(e) => Err(e),
            };
            assert(r == acts_of(hg));
            r
        },
        Instruction::UpdateState(params) => {
            let h = update_state(program_id, &accounts[0], &accounts[1], &params);
            let ghost hg = h;
            let r = match h {
                Ok((_, acts)) => Ok(acts),
                Err(e) => Err(e),
            };
            assert(r == acts_of(hg));
            r
        },
        Instruction::AdminWithdraw { lootbox_id, amount } => {
            admin_withdraw(
                program_id,
                lootbox_id,
                &accounts[0],
                &accounts[1],
                &accounts[2],
                &accounts[3],
                &accounts[4],
                &accounts[5],
                amount,
            )
        },
        Instruction::OldBuy => Err(ProcessError::Custom(CustomError::InstructionNotSupported)),
        Instruction::OldWithdraw => Err(ProcessError::Custom(CustomError::InstructionNotSupported)),
    };
    assert(dispatch_outcome(*program_id, accounts@, decoded, now, r));
    r
}

} // verus!
