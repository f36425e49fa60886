use lootbox::account::Account;
use lootbox::error::{CustomError, ProcessError};
use lootbox::instruction::{
    BuyParam, InitializeParams, Instruction, MigrateToV3Params, ObtainTicketParams, Signature,
    UpdateStateParams, WithdrawParam,
};
use lootbox::processor::{
    admin_withdraw, buy, initialize, migrate_to_v3, obtain_ticket, process_instruction,
    update_state, withdraw, Action,
};
use lootbox::state::{Price, State, StateVersion};
use lootbox::ticket::Ticket;
use solana_program::pubkey::Pubkey;

const PROGRAM: [u8; 32] = [9u8; 32];
const ADMIN: [u8; 32] = [1u8; 32];
const BUYER: [u8; 32] = [4u8; 32];
const PAYMENT: [u8; 32] = [3u8; 32];
const SECRET: [u8; 32] = [0x11u8; 32];

fn pda(seeds: &[&[u8]]) -> ([u8; 32], u8) {
    let (k, b) = Pubkey::find_program_address(seeds, &Pubkey::new_from_array(PROGRAM));
    (k.to_bytes(), b)
}

fn account(key: [u8; 32], is_signer: bool, data: Vec<u8>) -> Account {
    Account { key, is_signer, lamports: 0, data }
}

fn signer_key() -> [u8; 33] {
    let sk = libsecp256k1::SecretKey::parse(&SECRET).unwrap();
    libsecp256k1::PublicKey::from_secret_key(&sk).serialize_compressed()
}

fn sign(digest: [u8; 32]) -> Signature {
    let sk = libsecp256k1::SecretKey::parse(&SECRET).unwrap();
    let (sig, rec) = libsecp256k1::sign(&libsecp256k1::Message::parse(&digest), &sk);
    Signature { rec_id: rec.serialize(), rs: sig.serialize() }
}

fn vault_key() -> [u8; 32] {
    pda(&[&ADMIN, b"vault"]).0
}

fn token_program() -> [u8; 32] {
    spl_token::id().to_bytes()
}

fn stored_data(acts: &[Action], key: [u8; 32]) -> Vec<u8> {
    for a in acts.iter().rev() {
        if let Action::Store { address, data } = a {
            if *address == key {
                return data.clone();
            }
        }
    }
    panic!("no record stored");
}

fn sample_state(prices: Vec<Price>) -> State {
    State {
        version: StateVersion::Version4,
        id: 42,
        owner: [5u8; 32],
        vault_bump: 255,
        total_supply: 0,
        max_supply: 100,
        begin_ts: 1,
        end_ts: 2,
        name: "DLS 1".to_string(),
        signer: [0u8; 33],
        prices,
        base_url: "https://example.com/".to_string(),
        withdraw_counter: 0,
    }
}

/// A campaign initialized with id 1, max supply 10 and the window [100, 200].
fn campaign() -> (Account, Vec<u8>) {
    let (vault, vault_bump) = pda(&[&ADMIN, b"vault"]);
    let (state_key, state_bump) = pda(&[&ADMIN, b"state2", &1u16.to_be_bytes()]);
    let params = InitializeParams {
        lootbox_id: 1,
        vault_bump,
        state_bump,
        max_supply: 10,
        begin_ts: 100,
        end_ts: 200,
        signer: signer_key(),
        name: "Box".to_string(),
        prices: vec![5],
        base_url: "https://x/".to_string(),
    };
    let (s, acts) = initialize(
        &PROGRAM,
        &account(ADMIN, true, vec![]),
        &account(vault, false, vec![]),
        &account(state_key, false, vec![]),
        &params,
        &vec![account(PAYMENT, false, vec![])],
    )
    .unwrap();
    assert_eq!(s.total_supply, 0);
    let data = stored_data(&acts, state_key);
    (account(state_key, false, data.clone()), data)
}

fn ticket_keys(seed: u32, n: u8) -> Vec<([u8; 32], u8)> {
    (0..n)
        .map(|k| pda(&[&BUYER, b"ticket", &1u16.to_be_bytes(), &seed.to_be_bytes(), &[k]]))
        .collect()
}

fn run_buy(state: &Account, seed: u32, n: u8, now: i64) -> Result<(State, Vec<Action>), ProcessError> {
    let keys = ticket_keys(seed, n);
    let tickets: Vec<Account> = keys.iter().map(|(k, _)| account(*k, false, vec![])).collect();
    let params = BuyParam {
        lootbox_id: 1,
        ticket_bumps: keys.iter().map(|(_, b)| *b).collect(),
        ticket_seed: seed,
    };
    buy(
        &PROGRAM,
        &account(BUYER, true, vec![]),
        &account([6u8; 32], false, vec![]),
        &account(PAYMENT, false, vec![]),
        state,
        &account(vault_key(), false, vec![]),
        &account(token_program(), false, vec![]),
        &params,
        &tickets,
        now,
    )
}

#[test]
fn test_save_to() {
    let owner = Pubkey::new_unique();
    println!("Owner: {:?}", owner.to_bytes());
    let signer = [0; 33];
    println!("Signer: {:?}", signer);
    let payment_ata = Pubkey::new_unique();
    println!("Payment: {:?}", payment_ata.to_bytes());

    let state = State {
        version: StateVersion::Version4,
        id: 42,
        owner: owner.to_bytes(),
        total_supply: 0,
        max_supply: 100,
        begin_ts: 1,
        end_ts: 2,
        name: "DLS 1".to_string(),
        signer,
        vault_bump: 255,
        prices: vec![Price { amount: 123, ata: Pubkey::new_unique().to_bytes() }],
        base_url: "https://example.com/".to_string(),
        withdraw_counter: 0,
    };

    let buf = state.encode();

    println!("Result: {:?}", buf);
}

#[test]
fn error_codes_follow_declaration_order() {
    assert_eq!(CustomError::WrongSigner.code(), 4096);
    assert_eq!(CustomError::WrongAdminAccount.code(), 4097);
    assert_eq!(CustomError::SignatureExpired.code(), 4108);
    assert_eq!(CustomError::InstructionNotSupported.code(), 4117);
}

#[test]
fn state_round_trip_without_prices() {
    let s = sample_state(vec![]);
    let mut bytes = s.encode();
    let n = bytes.len();
    bytes.extend_from_slice(&[0u8; 16]);
    let (d, used) = State::decode(&bytes).unwrap();
    assert_eq!(used, n);
    assert_eq!(d.encode(), s.encode());
    assert_eq!(d.prices.len(), 0);
    assert_eq!(d.name, "DLS 1");
}

#[test]
fn state_round_trip_with_prices() {
    let s = sample_state(vec![
        Price { amount: 1, ata: [1u8; 32] },
        Price { amount: u64::MAX, ata: [2u8; 32] },
        Price { amount: 0, ata: [3u8; 32] },
    ]);
    let bytes = s.encode();
    let (d, used) = State::decode(&bytes).unwrap();
    assert_eq!(used, bytes.len());
    assert_eq!(d.prices.len(), 3);
    assert_eq!(d.prices[1].amount, u64::MAX);
    assert_eq!(d.prices[2].ata, [3u8; 32]);
    assert_eq!(d.base_url, "https://example.com/");
}

#[test]
fn state_encoding_is_borsh_layout() {
    let s = sample_state(vec![Price { amount: 123, ata: [7u8; 32] }]);
    let expected = borsh::to_vec(&(
        4u8,
        42u16,
        [5u8; 32],
        255u8,
        0u32,
        100u32,
        1u32,
        2u32,
        "DLS 1".to_string(),
        [0u8; 33],
        vec![(123u64, [7u8; 32])],
        "https://example.com/".to_string(),
        0u32,
    ))
    .unwrap();
    assert_eq!(s.encode(), expected);
}

#[test]
fn decode_rejects_bad_version_and_short_data() {
    let mut bytes = sample_state(vec![]).encode();
    bytes[0] = 9;
    assert!(State::decode(&bytes).is_none());
    assert!(State::decode(&vec![4u8; 10]).is_none());
    assert!(matches!(State::load_from(&vec![0u8; 3]), Err(ProcessError::InvalidAccountData)));
}

#[test]
fn state_checks() {
    let mut s = sample_state(vec![Price { amount: 7, ata: [1u8; 32] }, Price { amount: 9, ata: [1u8; 32] }]);
    assert_eq!(s.find_price(&[1u8; 32]), Ok(7));
    assert_eq!(s.find_price(&[2u8; 32]), Err(ProcessError::Custom(CustomError::WrongPaymentAta)));
    s.begin_ts = 100;
    s.end_ts = 200;
    assert_eq!(s.check_time(99), Err(ProcessError::Custom(CustomError::TooEarly)));
    assert_eq!(s.check_time(100), Ok(()));
    assert_eq!(s.check_time(200), Ok(()));
    assert_eq!(s.check_time(201), Err(ProcessError::Custom(CustomError::TooLate)));
    s.total_supply = 98;
    assert_eq!(s.check_and_get_correct_count(5), Ok(2));
    assert_eq!(s.check_and_get_correct_count(1), Ok(1));
    s.total_supply = 100;
    assert_eq!(s.check_and_get_correct_count(1), Err(ProcessError::Custom(CustomError::MaxSupplyReached)));
    assert!(!State::if_initialized(&vec![]));
    assert!(!State::if_initialized(&vec![0, 1]));
    assert!(State::if_initialized(&vec![4]));
    assert_eq!(State::get_last_version(), 4);
}

#[test]
fn save_to_needs_room() {
    let s = sample_state(vec![]);
    let n = s.serialized_len();
    let out = s.save_to(&vec![0xaa; n + 3]).unwrap();
    assert_eq!(out.len(), n + 3);
    assert_eq!(&out[n..], &[0xaa, 0xaa, 0xaa]);
    assert_eq!(s.save_to(&vec![0; n - 1]), Err(ProcessError::Custom(CustomError::NotEnoughSpace)));
}

#[test]
fn unpack_each_kind() {
    let buy_bytes = borsh::to_vec(&(4u8, 7u16, vec![250u8, 251], 99u32)).unwrap();
    match Instruction::unpack(&buy_bytes).unwrap() {
        Instruction::Buy(p) => {
            assert_eq!(p.lootbox_id, 7);
            assert_eq!(p.ticket_bumps, vec![250, 251]);
            assert_eq!(p.ticket_seed, 99);
        }
        _ => panic!("wrong kind"),
    }
    let admin = borsh::to_vec(&(254u8, 3u16, 500u64)).unwrap();
    assert!(matches!(
        Instruction::unpack(&admin),
        Ok(Instruction::AdminWithdraw { lootbox_id: 3, amount: 500 })
    ));
    let migrate = vec![253u8, 17];
    assert!(matches!(Instruction::unpack(&migrate), Ok(Instruction::MigrateToV3(MigrateToV3Params { state_bump: 17 }))));
    let withdraw_bytes =
        borsh::to_vec(&(2u8, 1u16, 300u32, 1u8, [2u8; 64], 2u8, vec![10u64, 20])).unwrap();
    match Instruction::unpack(&withdraw_bytes).unwrap() {
        Instruction::Withdraw(p) => {
            assert_eq!(p.expire_at, 300);
            assert_eq!(p.signature.rec_id, 1);
            assert_eq!(p.tickets, 2);
            assert_eq!(p.amounts, vec![10, 20]);
        }
        _ => panic!("wrong kind"),
    }
    let obtain = borsh::to_vec(&(3u8, 1u16, 254u8, 12u32, 300u32, 0u8, [1u8; 64])).unwrap();
    match Instruction::unpack(&obtain).unwrap() {
        Instruction::ObtainTicket(p) => {
            assert_eq!(p.bump, 254);
            assert_eq!(p.id, 12);
            assert_eq!(p.expire_at, 300);
        }
        _ => panic!("wrong kind"),
    }
    let update = borsh::to_vec(&(252u8, 9u8, 1u16, 5u32, 10u32, 20u32, 30u32, [4u8; 32], 77u64)).unwrap();
    match Instruction::unpack(&update).unwrap() {
        Instruction::UpdateState(p) => {
            assert!(p.is_max_supply());
            assert!(!p.is_begin_ts());
            assert!(p.is_end_ts());
            assert!(!p.is_price());
            assert_eq!(p.price_amount, 77);
        }
        _ => panic!("wrong kind"),
    }
    let init = borsh::to_vec(&(
        255u8,
        1u16,
        2u8,
        3u8,
        10u32,
        100u32,
        200u32,
        [2u8; 33],
        "Box".to_string(),
        vec![5u64, 6],
        "https://x/".to_string(),
    ))
    .unwrap();
    match Instruction::unpack(&init).unwrap() {
        Instruction::Initialize(p) => {
            assert_eq!(p.name, "Box");
            assert_eq!(p.prices, vec![5, 6]);
            assert_eq!(p.base_url, "https://x/");
            assert_eq!(p.signer, [2u8; 33]);
        }
        _ => panic!("wrong kind"),
    }
}

#[test]
fn unpack_rejects_malformed() {
    assert!(Instruction::unpack(&vec![]).is_err());
    assert!(Instruction::unpack(&vec![5u8]).is_err());
    assert!(Instruction::unpack(&vec![253u8, 1, 0]).is_err());
    assert!(Instruction::unpack(&vec![254u8, 1]).is_err());
    let bad_text = borsh::to_vec(&(
        255u8, 1u16, 2u8, 3u8, 10u32, 100u32, 200u32, [2u8; 33], vec![0xffu8, 0xfe], vec![5u64],
        "u".to_string(),
    ))
    .unwrap();
    assert!(Instruction::unpack(&bad_text).is_err());
}

#[test]
fn instruction_names() {
    assert_eq!(Instruction::unpack(&vec![0u8]).unwrap().name(), "OldBuy");
    assert_eq!(Instruction::unpack(&vec![253u8, 0]).unwrap().name(), "MigrationToV3");
}

#[test]
fn deprecated_kinds_are_refused() {
    assert_eq!(
        process_instruction(&PROGRAM, &vec![], &vec![0u8], 0).err(),
        Some(ProcessError::Custom(CustomError::InstructionNotSupported))
    );
    assert_eq!(
        process_instruction(&PROGRAM, &vec![], &vec![1u8], 0).err(),
        Some(ProcessError::Custom(CustomError::InstructionNotSupported))
    );
    assert_eq!(
        process_instruction(&PROGRAM, &vec![], &vec![253u8, 0], 0).err(),
        Some(ProcessError::NotEnoughAccountKeys)
    );
    assert_eq!(
        process_instruction(&PROGRAM, &vec![], &vec![7u8], 0).err(),
        Some(ProcessError::InvalidInstructionData)
    );
}

#[test]
fn scenario_initialize_then_buy_three() {
    let (state, _) = campaign();
    let (s, acts) = run_buy(&state, 77, 3, 150).unwrap();
    assert_eq!(s.total_supply, 3);
    assert_eq!(acts.len(), 8);
    match &acts[0] {
        Action::TokenTransfer { amount, source, destination, authority, .. } => {
            assert_eq!(*amount, 15);
            assert_eq!(*source, [6u8; 32]);
            assert_eq!(*destination, PAYMENT);
            assert_eq!(*authority, BUYER);
        }
        _ => panic!("payment expected first"),
    }
    for (k, (key, _)) in ticket_keys(77, 3).iter().enumerate() {
        let t = Ticket::load_from(&stored_data(&acts, *key)).unwrap();
        assert_eq!(t.issue_index, k as u32);
        assert_eq!(t.owner, BUYER);
        assert_eq!(t.prefix, *b"AGLB");
    }
    let (saved, _) = State::decode(&stored_data(&acts, state.key)).unwrap();
    assert_eq!(saved.total_supply, 3);
}

#[test]
fn scenario_buy_too_early() {
    let (state, _) = campaign();
    assert_eq!(run_buy(&state, 77, 3, 50).err(), Some(ProcessError::Custom(CustomError::TooEarly)));
    assert_eq!(run_buy(&state, 77, 3, 201).err(), Some(ProcessError::Custom(CustomError::TooLate)));
}

#[test]
fn buy_is_capped_by_supply() {
    let (state, _) = campaign();
    let (s, acts) = run_buy(&state, 1, 12, 150).unwrap();
    assert_eq!(s.total_supply, 10);
    assert_eq!(acts.len(), 22);
    let after = account(state.key, false, stored_data(&acts, state.key));
    assert_eq!(
        run_buy(&after, 2, 1, 150).err(),
        Some(ProcessError::Custom(CustomError::MaxSupplyReached))
    );
}

#[test]
fn buy_with_wrong_token_program() {
    let (state, _) = campaign();
    let keys = ticket_keys(5, 1);
    let r = buy(
        &PROGRAM,
        &account(BUYER, true, vec![]),
        &account([6u8; 32], false, vec![]),
        &account(PAYMENT, false, vec![]),
        &state,
        &account(vault_key(), false, vec![]),
        &account([0u8; 32], false, vec![]),
        &BuyParam { lootbox_id: 1, ticket_bumps: vec![keys[0].1], ticket_seed: 5 },
        &vec![account(keys[0].0, false, vec![])],
        150,
    );
    assert_eq!(r.err(), Some(ProcessError::IncorrectProgramId));
}

#[test]
fn second_buy_on_same_tickets_is_reuse() {
    let (state, _) = campaign();
    let (_, acts) = run_buy(&state, 77, 2, 150).unwrap();
    let after = account(state.key, false, stored_data(&acts, state.key));
    let keys = ticket_keys(77, 2);
    let tickets: Vec<Account> =
        keys.iter().map(|(k, _)| account(*k, false, stored_data(&acts, *k))).collect();
    let r = buy(
        &PROGRAM,
        &account(BUYER, true, vec![]),
        &account([6u8; 32], false, vec![]),
        &account(PAYMENT, false, vec![]),
        &after,
        &account(vault_key(), false, vec![]),
        &account(token_program(), false, vec![]),
        &BuyParam { lootbox_id: 1, ticket_bumps: keys.iter().map(|(_, b)| *b).collect(), ticket_seed: 77 },
        &tickets,
        150,
    );
    assert_eq!(r.err(), Some(ProcessError::Custom(CustomError::TicketAccountAlreadyUsed)));
}

fn obtain_params(id: u32, expire_at: u32, signature: Signature) -> (ObtainTicketParams, [u8; 32]) {
    let (key, bump) = pda(&[&BUYER, b"ticket", &1u16.to_be_bytes(), &id.to_be_bytes(), &[0u8]]);
    (ObtainTicketParams { lootbox_id: 1, bump, id, expire_at, signature }, key)
}

fn obtain_digest_of(id: u32, expire_at: u32) -> [u8; 32] {
    solana_program::hash::hashv(&[&vault_key(), &BUYER, &id.to_be_bytes(), &expire_at.to_be_bytes()])
        .to_bytes()
}

#[test]
fn scenario_obtain_with_expired_voucher() {
    let (state, _) = campaign();
    let (params, key) = obtain_params(12, 100, sign(obtain_digest_of(12, 100)));
    let r = obtain_ticket(
        &PROGRAM,
        &account(BUYER, true, vec![]),
        &params,
        &state,
        &account(vault_key(), false, vec![]),
        &account(key, false, vec![]),
        150,
    );
    assert_eq!(r.err(), Some(ProcessError::Custom(CustomError::SignatureExpired)));
}

#[test]
fn obtain_with_valid_voucher() {
    let (state, _) = campaign();
    let (params, key) = obtain_params(12, 300, sign(obtain_digest_of(12, 300)));
    let (s, acts) = obtain_ticket(
        &PROGRAM,
        &account(BUYER, true, vec![]),
        &params,
        &state,
        &account(vault_key(), false, vec![]),
        &account(key, false, vec![]),
        150,
    )
    .unwrap();
    assert_eq!(s.total_supply, 1);
    let t = Ticket::load_from(&stored_data(&acts, key)).unwrap();
    assert_eq!(t.external_id, 12);
    assert_eq!(t.issue_index, 0);
}

#[test]
fn obtain_with_voucher_for_other_ticket() {
    let (state, _) = campaign();
    let (params, key) = obtain_params(13, 300, sign(obtain_digest_of(12, 300)));
    let r = obtain_ticket(
        &PROGRAM,
        &account(BUYER, true, vec![]),
        &params,
        &state,
        &account(vault_key(), false, vec![]),
        &account(key, false, vec![]),
        150,
    );
    assert!(matches!(
        r.err(),
        Some(ProcessError::Custom(CustomError::WrongSignature))
            | Some(ProcessError::Custom(CustomError::SignatureVerificationFailed))
    ));
}

fn issued_tickets(state: &Account) -> (Account, Vec<Account>) {
    let (_, acts) = run_buy(state, 77, 3, 150).unwrap();
    let after = account(state.key, false, stored_data(&acts, state.key));
    let tickets = ticket_keys(77, 3)
        .iter()
        .map(|(k, _)| Account { key: *k, is_signer: false, lamports: 10, data: stored_data(&acts, *k) })
        .collect();
    (after, tickets)
}

fn withdraw_digest_of(tickets: &[[u8; 32]], expire_at: u32) -> [u8; 32] {
    let mut parts: Vec<&[u8]> = tickets.iter().map(|t| &t[..]).collect();
    let vault = vault_key();
    let e = expire_at.to_be_bytes();
    parts.push(&vault);
    parts.push(&BUYER);
    parts.push(&e);
    solana_program::hash::hashv(&parts).to_bytes()
}

fn run_withdraw(state: &Account, rest: Vec<Account>, sig: Signature) -> Result<(State, Vec<Action>), ProcessError> {
    let params = WithdrawParam {
        lootbox_id: 1,
        expire_at: 300,
        signature: sig,
        tickets: rest.len() as u8,
        amounts: vec![],
    };
    withdraw(
        &PROGRAM,
        &account(BUYER, true, vec![]),
        &params,
        state,
        &account(vault_key(), false, vec![]),
        &account(token_program(), false, vec![]),
        &rest,
        150,
    )
}

#[test]
fn scenario_withdraw_and_substituted_ticket() {
    let (state, tickets) = issued_tickets(&campaign().0);
    let sig = sign(withdraw_digest_of(&[tickets[0].key, tickets[1].key], 300));
    let (s, acts) = run_withdraw(&state, vec![tickets[0].duplicate(), tickets[1].duplicate()], sig).unwrap();
    assert_eq!(s.withdraw_counter, 2);
    assert!(matches!(acts[0], Action::Reclaim { .. }));
    let replay = run_withdraw(&state, vec![tickets[0].duplicate(), tickets[2].duplicate()], sig);
    assert!(matches!(
        replay.err(),
        Some(ProcessError::Custom(CustomError::WrongSignature))
            | Some(ProcessError::Custom(CustomError::SignatureVerificationFailed))
    ));
}

#[test]
fn withdraw_of_foreign_ticket_fails() {
    let (state, tickets) = issued_tickets(&campaign().0);
    let mut foreign = tickets[0].duplicate();
    foreign.data[5] ^= 1;
    let sig = sign(withdraw_digest_of(&[foreign.key], 300));
    assert_eq!(
        run_withdraw(&state, vec![foreign], sig).err(),
        Some(ProcessError::Custom(CustomError::WrongTicketOwner))
    );
}

#[test]
fn close_moves_balance_and_zeroes() {
    let (_, tickets) = issued_tickets(&campaign().0);
    let mut owner = Account { key: BUYER, is_signer: true, lamports: 5, data: vec![] };
    let mut t = tickets[0].duplicate();
    assert_eq!(Ticket::verify_and_close(&mut owner, &mut t), Ok(()));
    assert_eq!(owner.lamports, 15);
    assert_eq!(t.lamports, 0);
    assert!(t.data.iter().all(|b| *b == 0));
    let mut again = t.duplicate();
    assert_eq!(
        Ticket::verify_and_close(&mut owner, &mut again),
        Err(ProcessError::Custom(CustomError::TicketAccountNotExists))
    );
    let mut unsigned = Account { key: BUYER, is_signer: false, lamports: 0, data: vec![] };
    let mut t1 = tickets[1].duplicate();
    assert_eq!(
        Ticket::verify_and_close(&mut unsigned, &mut t1),
        Err(ProcessError::Custom(CustomError::WrongSigner))
    );
}

#[test]
fn scenario_admin_withdraw_by_non_owner() {
    let (state, _) = campaign();
    let r = admin_withdraw(
        &PROGRAM,
        1,
        &account([8u8; 32], true, vec![]),
        &state,
        &account(vault_key(), false, vec![]),
        &account([10u8; 32], false, vec![]),
        &account([11u8; 32], false, vec![]),
        &account(token_program(), false, vec![]),
        40,
    );
    assert_eq!(r.err(), Some(ProcessError::Custom(CustomError::WrongAdminAccount)));
}

#[test]
fn admin_withdraw_by_owner() {
    let (state, _) = campaign();
    let acts = admin_withdraw(
        &PROGRAM,
        1,
        &account(ADMIN, true, vec![]),
        &state,
        &account(vault_key(), false, vec![]),
        &account([10u8; 32], false, vec![]),
        &account([11u8; 32], false, vec![]),
        &account(token_program(), false, vec![]),
        40,
    )
    .unwrap();
    match &acts[0] {
        Action::TokenTransfer { amount, authority, seeds, .. } => {
            assert_eq!(*amount, 40);
            assert_eq!(*authority, vault_key());
            assert_eq!(seeds[1], b"vault".to_vec());
        }
        _ => panic!("transfer expected"),
    }
}

#[test]
fn wrong_vault_is_refused() {
    let (state, _) = campaign();
    let r = admin_withdraw(
        &PROGRAM,
        1,
        &account(ADMIN, true, vec![]),
        &state,
        &account([12u8; 32], false, vec![]),
        &account([10u8; 32], false, vec![]),
        &account([11u8; 32], false, vec![]),
        &account(token_program(), false, vec![]),
        40,
    );
    assert_eq!(r.err(), Some(ProcessError::Custom(CustomError::WrongVault)));
}

#[test]
fn update_state_fields_and_price() {
    let (state, _) = campaign();
    let (_, state_bump) = pda(&[&ADMIN, b"state2", &1u16.to_be_bytes()]);
    let params = UpdateStateParams {
        state_bump,
        lootbox_id: 1,
        enabled_fields: 1 | 8,
        max_supply: 50,
        begin_ts: 1,
        end_ts: 2,
        price_ata: PAYMENT,
        price_amount: 99,
    };
    let (s, _) = update_state(&PROGRAM, &account(ADMIN, true, vec![]), &state, &params).unwrap();
    assert_eq!(s.max_supply, 50);
    assert_eq!(s.begin_ts, 100);
    assert_eq!(s.end_ts, 200);
    assert_eq!(s.prices[0].amount, 99);
    let unknown = UpdateStateParams { price_ata: [13u8; 32], ..params };
    assert_eq!(
        update_state(&PROGRAM, &account(ADMIN, true, vec![]), &state, &unknown).err(),
        Some(ProcessError::Custom(CustomError::WrongPaymentAta))
    );
    assert_eq!(
        update_state(&PROGRAM, &account([8u8; 32], true, vec![]), &state, &params).err(),
        Some(ProcessError::Custom(CustomError::WrongAdminAccount))
    );
}

#[test]
fn migrate_only_from_prior_version() {
    let (legacy, bump) = pda(&[&ADMIN, b"state"]);
    let mut old = sample_state(vec![Price { amount: 3, ata: [1u8; 32] }]);
    old.owner = ADMIN;
    old.version = StateVersion::Version3;
    old.total_supply = 7;
    old.withdraw_counter = 5;
    let mut data = old.encode();
    data.extend_from_slice(&[0u8; 64]);
    let acc = account(legacy, false, data.clone());
    let (s, acts) =
        migrate_to_v3(&PROGRAM, &account(ADMIN, true, vec![]), &acc, &MigrateToV3Params { state_bump: bump }).unwrap();
    assert_eq!(s.version, StateVersion::Version4);
    assert_eq!(s.total_supply, 7);
    assert_eq!(s.withdraw_counter, 5);
    let new_data = stored_data(&acts, legacy);
    assert_eq!(new_data[0], 4);
    assert_eq!(&new_data[1..], &data[1..]);
    let current = account(legacy, false, new_data);
    assert_eq!(
        migrate_to_v3(&PROGRAM, &account(ADMIN, true, vec![]), &current, &MigrateToV3Params { state_bump: bump }).err(),
        Some(ProcessError::Custom(CustomError::StateWrongVersion))
    );
}

#[test]
fn loading_checks_version_and_address() {
    let (state, data) = campaign();
    let mut old = data.clone();
    old[0] = 3;
    assert_eq!(
        State::verify_and_load(&PROGRAM, &account(state.key, false, old), 1, None).err(),
        Some(ProcessError::Custom(CustomError::StateWrongVersion))
    );
    assert_eq!(
        State::verify_and_load(&PROGRAM, &account(state.key, false, vec![0u8; 8]), 1, None).err(),
        Some(ProcessError::Custom(CustomError::StateNotInitialized))
    );
    assert_eq!(
        State::verify_and_load(&PROGRAM, &account(state.key, false, data.clone()), 2, None).err(),
        Some(ProcessError::Custom(CustomError::WrongState))
    );
    assert!(State::verify_and_load(&PROGRAM, &state, 1, None).is_ok());
}

#[test]
fn initialize_twice_is_refused() {
    let (state, data) = campaign();
    let (vault, vault_bump) = pda(&[&ADMIN, b"vault"]);
    let (_, state_bump) = pda(&[&ADMIN, b"state2", &1u16.to_be_bytes()]);
    let params = InitializeParams {
        lootbox_id: 1,
        vault_bump,
        state_bump,
        max_supply: 10,
        begin_ts: 100,
        end_ts: 200,
        signer: signer_key(),
        name: "Box".to_string(),
        prices: vec![],
        base_url: String::new(),
    };
    let r = initialize(
        &PROGRAM,
        &account(ADMIN, true, vec![]),
        &Account { key: vault, is_signer: false, lamports: 1, data: vec![] },
        &account(state.key, false, data),
        &params,
        &vec![],
    );
    assert_eq!(r.err(), Some(ProcessError::Custom(CustomError::StateAlreadyInitialized)));
    let r2 = initialize(
        &PROGRAM,
        &account(ADMIN, true, vec![]),
        &account(vault, true, vec![]),
        &account(state.key, false, vec![]),
        &params,
        &vec![],
    );
    assert_eq!(r2.err(), Some(ProcessError::Custom(CustomError::PdaCannotBeSigner)));
}

#[test]
fn initialize_record_size_has_room() {
    let (state, data) = campaign();
    let (s, _) = State::decode(&data).unwrap();
    assert_eq!(data.len(), s.serialized_len() + 1024);
    assert_eq!(s.owner, ADMIN);
    assert_eq!(s.prices[0].ata, PAYMENT);
    assert_eq!(s.prices[0].amount, 5);
    assert!(State::verify_and_load(&PROGRAM, &state, 1, None).is_ok());
}

#[test]
fn dispatch_runs_admin_withdraw() {
    let (state, _) = campaign();
    let data = borsh::to_vec(&(254u8, 1u16, 40u64)).unwrap();
    let accounts = vec![
        account(ADMIN, true, vec![]),
        state.duplicate(),
        account(vault_key(), false, vec![]),
        account([10u8; 32], false, vec![]),
        account([11u8; 32], false, vec![]),
        account(token_program(), false, vec![]),
    ];
    let acts = process_instruction(&PROGRAM, &accounts, &data, 0).unwrap();
    assert_eq!(acts.len(), 1);
    assert_eq!(
        process_instruction(&PROGRAM, &accounts.iter().take(5).map(|a| a.duplicate()).collect(), &data, 0).err(),
        Some(ProcessError::NotEnoughAccountKeys)
    );
}

#[test]
fn unpack_withdraw_without_payouts() {
    let bytes = borsh::to_vec(&(2u8, 1u16, 300u32, 1u8, [2u8; 64], 3u8, Vec::<u64>::new())).unwrap();
    assert_eq!(bytes.len(), 77);
    match Instruction::unpack(&bytes).unwrap() {
        Instruction::Withdraw(p) => {
            assert_eq!(p.tickets, 3);
            assert!(p.amounts.is_empty());
        }
        _ => panic!("wrong kind"),
    }
}

#[test]
fn ticket_save_and_load() {
    let t = Ticket {
        prefix: *b"AGLB",
        version: 0,
        owner: [2u8; 32],
        lootbox_id: 513,
        issue_index: 70000,
        external_id: 9,
    };
    let out = t.save_to(&vec![0xee; 50]).unwrap();
    assert_eq!(out.len(), 50);
    assert_eq!(&out[47..], &[0xee, 0xee, 0xee]);
    assert!(Ticket::if_initialized(&out));
    let back = Ticket::load_from(&out).unwrap();
    assert_eq!(back.lootbox_id, 513);
    assert_eq!(back.issue_index, 70000);
    assert_eq!(back.owner, [2u8; 32]);
    assert_eq!(
        borsh::to_vec(&(*b"AGLB", 0u8, [2u8; 32], 513u16, 70000u32, 9u32)).unwrap(),
        t.encode()
    );
    assert_eq!(t.save_to(&vec![0; 46]), Err(ProcessError::Custom(CustomError::NotEnoughSpace)));
    assert_eq!(Ticket::get_version(&out), 0);
}

#[test]
fn withdraw_pays_out_from_vault() {
    let (state, tickets) = issued_tickets(&campaign().0);
    let mint = [20u8; 32];
    let mut parts: Vec<&[u8]> = vec![&tickets[0].key[..]];
    let amount = 33u64.to_be_bytes();
    parts.push(&mint);
    parts.push(&amount);
    let vault = vault_key();
    let e = 300u32.to_be_bytes();
    parts.push(&vault);
    parts.push(&BUYER);
    parts.push(&e);
    let sig = sign(solana_program::hash::hashv(&parts).to_bytes());
    let rest = vec![
        tickets[0].duplicate(),
        account(mint, false, vec![]),
        account([21u8; 32], false, vec![1]),
        account([22u8; 32], false, vec![]),
    ];
    let params = WithdrawParam { lootbox_id: 1, expire_at: 300, signature: sig, tickets: 1, amounts: vec![33] };
    let (_, acts) = withdraw(
        &PROGRAM,
        &account(BUYER, true, vec![]),
        &params,
        &state,
        &account(vault, false, vec![]),
        &account(token_program(), false, vec![]),
        &rest,
        150,
    )
    .unwrap();
    assert!(matches!(acts[1], Action::CreateTokenAccount { .. }));
    match &acts[2] {
        Action::TokenTransfer { amount, source, destination, authority, .. } => {
            assert_eq!(*amount, 33);
            assert_eq!(*source, [21u8; 32]);
            assert_eq!(*destination, [22u8; 32]);
            assert_eq!(*authority, vault);
        }
        _ => panic!("transfer expected"),
    }
    let short = vec![tickets[0].duplicate(), account(mint, false, vec![])];
    let r = withdraw(
        &PROGRAM,
        &account(BUYER, true, vec![]),
        &params,
        &state,
        &account(vault, false, vec![]),
        &account(token_program(), false, vec![]),
        &short,
        150,
    );
    assert_eq!(r.err(), Some(ProcessError::NotEnoughAccountKeys));
}

#[test]
fn ticket_at_wrong_address_is_mismatch() {
    let (state, _) = campaign();
    let keys = ticket_keys(77, 1);
    let r = buy(
        &PROGRAM,
        &account(BUYER, true, vec![]),
        &account([6u8; 32], false, vec![]),
        &account(PAYMENT, false, vec![]),
        &state,
        &account(vault_key(), false, vec![]),
        &account(token_program(), false, vec![]),
        &BuyParam { lootbox_id: 1, ticket_bumps: vec![keys[0].1], ticket_seed: 77 },
        &vec![account([30u8; 32], false, vec![])],
        150,
    );
    assert!(matches!(
        r.err(),
        Some(ProcessError::Custom(CustomError::TicketAccountMismatch)) | Some(ProcessError::InvalidSeeds)
    ));
}

#[test]
fn too_many_tickets_in_one_buy() {
    let (state, _) = campaign();
    let r = buy(
        &PROGRAM,
        &account(BUYER, true, vec![]),
        &account([6u8; 32], false, vec![]),
        &account(PAYMENT, false, vec![]),
        &state,
        &account(vault_key(), false, vec![]),
        &account(token_program(), false, vec![]),
        &BuyParam { lootbox_id: 1, ticket_bumps: vec![255u8; 256], ticket_seed: 77 },
        &vec![],
        150,
    );
    assert_eq!(r.err(), Some(ProcessError::Custom(CustomError::WrongPriceOrCount)));
}

#[test]
fn unsigned_buyer_is_refused() {
    let (state, _) = campaign();
    let r = buy(
        &PROGRAM,
        &account(BUYER, false, vec![]),
        &account([6u8; 32], false, vec![]),
        &account(PAYMENT, false, vec![]),
        &state,
        &account(vault_key(), false, vec![]),
        &account(token_program(), false, vec![]),
        &BuyParam { lootbox_id: 1, ticket_bumps: vec![], ticket_seed: 77 },
        &vec![],
        150,
    );
    assert_eq!(r.err(), Some(ProcessError::Custom(CustomError::WrongSigner)));
}

#[test]
fn initialize_with_wrong_state_address() {
    let (vault, vault_bump) = pda(&[&ADMIN, b"vault"]);
    let (_, state_bump) = pda(&[&ADMIN, b"state2", &1u16.to_be_bytes()]);
    let params = InitializeParams {
        lootbox_id: 1,
        vault_bump,
        state_bump,
        max_supply: 10,
        begin_ts: 100,
        end_ts: 200,
        signer: signer_key(),
        name: "Box".to_string(),
        prices: vec![],
        base_url: String::new(),
    };
    let r = initialize(
        &PROGRAM,
        &account(ADMIN, true, vec![]),
        &account(vault, false, vec![]),
        &account([31u8; 32], false, vec![]),
        &params,
        &vec![],
    );
    assert_eq!(r.err(), Some(ProcessError::InvalidSeeds));
    let missing_price_account = InitializeParams { prices: vec![1], ..params };
    let (state_key, _) = pda(&[&ADMIN, b"state2", &1u16.to_be_bytes()]);
    let r2 = initialize(
        &PROGRAM,
        &account(ADMIN, true, vec![]),
        &account(vault, false, vec![]),
        &account(state_key, false, vec![]),
        &missing_price_account,
        &vec![],
    );
    assert_eq!(r2.err(), Some(ProcessError::NotEnoughAccountKeys));
}

#[test]
fn initialize_keeps_existing_vault() {
    let (vault, vault_bump) = pda(&[&ADMIN, b"vault"]);
    let (state_key, state_bump) = pda(&[&ADMIN, b"state2", &2u16.to_be_bytes()]);
    let params = InitializeParams {
        lootbox_id: 2,
        vault_bump,
        state_bump,
        max_supply: 1,
        begin_ts: 0,
        end_ts: 1,
        signer: signer_key(),
        name: String::new(),
        prices: vec![],
        base_url: String::new(),
    };
    let (_, acts) = initialize(
        &PROGRAM,
        &account(ADMIN, true, vec![]),
        &Account { key: vault, is_signer: false, lamports: 7, data: vec![] },
        &account(state_key, false, vec![]),
        &params,
        &vec![],
    )
    .unwrap();
    assert_eq!(acts.len(), 2);
}

#[test]
fn voucher_with_bad_recovery_id() {
    let digest = [5u8; 32];
    let mut sig = sign(digest);
    assert_eq!(lootbox::voucher::verify_signature(&digest, 10, &sig, &signer_key(), 10), Ok(()));
    assert_eq!(
        lootbox::voucher::verify_signature(&digest, 10, &sig, &signer_key(), 11),
        Err(ProcessError::Custom(CustomError::SignatureExpired))
    );
    let mut other = signer_key();
    other[5] ^= 1;
    assert_eq!(
        lootbox::voucher::verify_signature(&digest, 10, &sig, &other, 10),
        Err(ProcessError::Custom(CustomError::WrongSignature))
    );
    sig.rec_id = 9;
    assert_eq!(
        lootbox::voucher::verify_signature(&digest, 10, &sig, &signer_key(), 10),
        Err(ProcessError::Custom(CustomError::SignatureVerificationFailed))
    );
}

#[test]
fn obtain_digest_matches_hash_of_message() {
    let d = lootbox::voucher::obtain_digest(&vault_key(), &BUYER, 12, 300);
    assert_eq!(d, obtain_digest_of(12, 300));
    assert_ne!(d, lootbox::voucher::obtain_digest(&vault_key(), &BUYER, 13, 300));
}

#[test]
fn close_with_overflowing_balance() {
    let (_, tickets) = issued_tickets(&campaign().0);
    let mut owner = Account { key: BUYER, is_signer: true, lamports: u64::MAX, data: vec![] };
    let mut t = tickets[0].duplicate();
    assert_eq!(Ticket::verify_and_close(&mut owner, &mut t), Err(ProcessError::ArithmeticOverflow));
    assert_eq!(owner.lamports, u64::MAX);
    assert_eq!(t.lamports, 10);
}

#[test]
fn derive_address_matches_runtime() {
    let seeds = vec![ADMIN.to_vec(), b"vault".to_vec()];
    let (k, b) = lootbox::address::derive_address(&seeds, None, &PROGRAM).unwrap();
    assert_eq!((k, b), pda(&[&ADMIN, b"vault"]));
    let (k2, b2) = lootbox::address::derive_address(&seeds, Some(b), &PROGRAM).unwrap();
    assert_eq!((k2, b2), (k, b));
    let long = vec![vec![0u8; 40]];
    assert_eq!(lootbox::address::derive_address(&long, Some(1), &PROGRAM), Err(ProcessError::InvalidSeeds));
}

#[test]
fn legacy_tags_refused_whatever_follows() {
    assert_eq!(
        process_instruction(&PROGRAM, &vec![], &vec![0u8, 1, 2, 3], 0).err(),
        Some(ProcessError::Custom(CustomError::InstructionNotSupported))
    );
    assert_eq!(
        process_instruction(&PROGRAM, &vec![], &vec![1u8, 9], 0).err(),
        Some(ProcessError::Custom(CustomError::InstructionNotSupported))
    );
}

#[test]
fn supply_and_time_are_checked_before_batch_size() {
    let (state, _) = campaign();
    let big = |s: &Account, now: i64| {
        buy(
            &PROGRAM,
            &account(BUYER, true, vec![]),
            &account([6u8; 32], false, vec![]),
            &account(PAYMENT, false, vec![]),
            s,
            &account(vault_key(), false, vec![]),
            &account(token_program(), false, vec![]),
            &BuyParam { lootbox_id: 1, ticket_bumps: vec![255u8; 300], ticket_seed: 77 },
            &vec![],
            now,
        )
        .err()
    };
    assert_eq!(big(&state, 50), Some(ProcessError::Custom(CustomError::TooEarly)));
    let (_, acts) = run_buy(&state, 1, 10, 150).unwrap();
    let full = account(state.key, false, stored_data(&acts, state.key));
    assert_eq!(big(&full, 150), Some(ProcessError::Custom(CustomError::MaxSupplyReached)));
    assert_eq!(big(&state, 150), Some(ProcessError::Custom(CustomError::WrongPriceOrCount)));
}

#[test]
fn update_cannot_cap_below_issued() {
    let (state, _) = campaign();
    let (_, acts) = run_buy(&state, 77, 3, 150).unwrap();
    let after = account(state.key, false, stored_data(&acts, state.key));
    let (_, state_bump) = pda(&[&ADMIN, b"state2", &1u16.to_be_bytes()]);
    let params = UpdateStateParams {
        state_bump,
        lootbox_id: 1,
        enabled_fields: 1,
        max_supply: 2,
        begin_ts: 0,
        end_ts: 0,
        price_ata: PAYMENT,
        price_amount: 0,
    };
    assert_eq!(
        update_state(&PROGRAM, &account(ADMIN, true, vec![]), &after, &params).err(),
        Some(ProcessError::Custom(CustomError::MaxSupplyBelowTotal))
    );
    assert_eq!(CustomError::MaxSupplyBelowTotal.code(), 4118);
    let ok = UpdateStateParams { max_supply: 3, ..params };
    let (s, _) = update_state(&PROGRAM, &account(ADMIN, true, vec![]), &after, &ok).unwrap();
    assert_eq!(s.max_supply, 3);
}

#[test]
fn withdraw_expired_voucher() {
    let (state, tickets) = issued_tickets(&campaign().0);
    let params = WithdrawParam {
        lootbox_id: 1,
        expire_at: 100,
        signature: sign(withdraw_digest_of(&[tickets[0].key], 100)),
        tickets: 1,
        amounts: vec![],
    };
    let r = withdraw(
        &PROGRAM,
        &account(BUYER, true, vec![]),
        &params,
        &state,
        &account(vault_key(), false, vec![]),
        &account(token_program(), false, vec![]),
        &vec![tickets[0].duplicate()],
        150,
    );
    assert_eq!(r.err(), Some(ProcessError::Custom(CustomError::SignatureExpired)));
}
