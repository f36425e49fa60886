use vstd::prelude::*;
use crate::address::Address;
use crate::codec::{be32, be64, lemma_be32_injective, lemma_be64_injective, put_bytes, put_u32_be, put_u64_be};
use crate::error::{CustomError, ProcessError};
use crate::instruction::Signature;

verus! {

/// The SHA-256 digest of `data`.
pub uninterp spec fn sha256(data: Seq<u8>) -> Seq<u8>;

/// The uncompressed public key (x then y, 64 bytes) recovered from a
/// signature over a 32-byte digest, if recovery succeeds.
pub uninterp spec fn recovered_key(digest: Seq<u8>, rec_id: u8, rs: Seq<u8>) -> Option<Seq<u8>>;

/// Relies on solana_program::hash::hash: the SHA-256 digest of the bytes.
#[verifier::external_body]
fn digest_of(data: &Vec<u8>) -> (r: [u8; 32])
    ensures
        r@ == sha256(data@),
{
    solana_program::hash::hash(data.as_slice()).to_bytes()
}

/// Relies on solana_program::secp256k1_recover::secp256k1_recover: the key is
/// a function of digest, recovery id and signature; a recovery id above 3 is
/// refused.
#[verifier::external_body]
fn recover_key(digest: &[u8; 32], rec_id: u8, rs: &[u8; 64]) -> (r: Option<[u8; 64]>)
    ensures
        match r {
            Some(k) => recovered_key(digest@, rec_id, rs@) == Some(k@),
            None => recovered_key(digest@, rec_id, rs@) is None,
        },
        rec_id > 3 ==> r is None,
{
    solana_program::secp256k1_recover::secp256k1_recover(digest, rec_id, rs).ok().map(|k| k.to_bytes())
}

/// The 33-byte compressed form of a 64-byte key: `0x02` for an even y, `0x03`
/// for an odd one, then x.
pub open spec fn compressed(xy: Seq<u8>) -> Seq<u8> {
    seq![if xy[63] % 2 == 1 { 3u8 } else { 2u8 }] + xy.subrange(0, 32)
}

/// What verification of a voucher signed over `digest` concludes at time
/// `now`: the first failure, or none.
pub open spec fn voucher_error(
    digest: Seq<u8>,
    expire_at: u32,
    sig: Signature,
    signer: Seq<u8>,
    now: i64,
) -> Option<CustomError> {
    if now > expire_at as i64 {
        Some(CustomError::SignatureExpired)
    } else {
        match recovered_key(digest, sig.rec_id, sig.rs@) {
            None => Some(CustomError::SignatureVerificationFailed),
            Some(k) => if compressed(k) == signer {
                None
            } else {
                Some(CustomError::WrongSignature)
            },
        }
    }
}

fn compress(xy: &[u8; 64]) -> (r: [u8; 33])
    ensures
        r@ == compressed(xy@),
{
    let mut r: [u8; 33] = [0u8; 33];
    r[0] = if xy[63] % 2 == 1 { 3u8 } else { 2u8 };
    let mut i: usize = 0;
    while i < 32
        invariant
            i <= 32,
            r@[0] == compressed(xy@)[0],
            forall|j: int| 0 <= j < i ==> r@[j + 1] == xy@[j],
        decreases 32 - i,
    {
        r[i + 1] = xy[i];
        i = i + 1;
    }
    assert(r@ =~= compressed(xy@));
    r
}

fn same_signer(a: &[u8; 33], b: &[u8; 33]) -> (r: bool)
    ensures
        r == (a@ == b@),
{
    let mut i: usize = 0;
    while i < 33
        invariant
            i <= 33,
            forall|j: int| 0 <= j < i ==> a@[j] == b@[j],
        decreases 33 - i,
    {
        if a[i] != b[i] {
            return false;
        }
        i = i + 1;
    }
    assert(a@ =~= b@);
    true
}

/// Checks a voucher: it must not have expired at `now`, and the key recovered
/// from its signature over `message_hash` must be `signer`.
pub fn verify_signature(
    message_hash: &[u8; 32],
    expire_at: u32,
    signature: &Signature,
    signer: &[u8; 33],
    now: i64,
) -> (r: Result<(), ProcessError>)
    ensures
        match voucher_error(message_hash@, expire_at, *signature, signer@, now) {
            Some(e) => r == Err::<(), ProcessError>(ProcessError::Custom(e)),
            None => r is Ok,
        },
{
    if now > expire_at as i64 {
        return Err(ProcessError::Custom(CustomError::SignatureExpired));
    }
    let xy = match recover_key(message_hash, signature.rec_id, &signature.rs) {
        Some(k) => k,
        None => return Err(ProcessError::Custom(CustomError::SignatureVerificationFailed)),
    };
    let key = compress(&xy);
    if !same_signer(&key, signer) {
        return Err(ProcessError::Custom(CustomError::WrongSignature));
    }
    Ok(())
}

/// An expired voucher is refused whatever its signature: expiry is decided
/// before the signature is looked at.
pub proof fn lemma_expired_voucher_rejected(
    digest: Seq<u8>,
    expire_at: u32,
    sig: Signature,
    signer: Seq<u8>,
    now: i64,
)
    requires
        now > expire_at as i64,
    ensures
        voucher_error(digest, expire_at, sig, signer, now) == Some(CustomError::SignatureExpired),
{
}

// ---- signed messages ----

/// What a single-ticket voucher signs: vault, requester, ticket id and expiry.
pub open spec fn obtain_message(vault: Seq<u8>, requester: Seq<u8>, id: u32, expire_at: u32) -> Seq<
    u8,
> {
    vault + requester + be32(id) + be32(expire_at)
}

/// The redeemed tickets' addresses, one after another.
pub open spec fn tickets_part(tickets: Seq<Seq<u8>>) -> Seq<u8>
    decreases tickets.len(),
{
    if tickets.len() == 0 {
        Seq::empty()
    } else {
        tickets_part(tickets.drop_last()) + tickets.last()
    }
}

/// Each payout's token mint followed by its amount.
pub open spec fn payouts_part(mints: Seq<Seq<u8>>, amounts: Seq<u64>) -> Seq<u8>
    decreases mints.len(),
{
    if mints.len() == 0 || amounts.len() == 0 {
        Seq::empty()
    } else {
        payouts_part(mints.drop_last(), amounts.drop_last()) + mints.last() + be64(amounts.last())
    }
}

/// What a redemption voucher signs: every ticket, every payout, then vault,
/// requester and expiry.
pub open spec fn withdraw_message(
    tickets: Seq<Seq<u8>>,
    mints: Seq<Seq<u8>>,
    amounts: Seq<u64>,
    vault: Seq<u8>,
    requester: Seq<u8>,
    expire_at: u32,
) -> Seq<u8> {
    tickets_part(tickets) + payouts_part(mints, amounts) + vault + requester + be32(expire_at)
}

/// Builds the single-ticket message and returns its digest.
pub fn obtain_digest(vault: &Address, requester: &Address, id: u32, expire_at: u32) -> (r: [u8; 32])
    ensures
        r@ == sha256(obtain_message(vault@, requester@, id, expire_at)),
{
    let mut m: Vec<u8> = Vec::new();
    put_bytes(&mut m, vault.as_slice());
    put_bytes(&mut m, requester.as_slice());
    put_u32_be(&mut m, id);
    put_u32_be(&mut m, expire_at);
    assert(m@ =~= obtain_message(vault@, requester@, id, expire_at));
    digest_of(&m)
}

pub open spec fn keys_view(keys: Seq<Address>) -> Seq<Seq<u8>> {
    keys.map_values(|k: Address| k@)
}

/// Builds the redemption message and returns its digest.
pub fn withdraw_digest(
    tickets: &Vec<Address>,
    mints: &Vec<Address>,
    amounts: &Vec<u64>,
    vault: &Address,
    requester: &Address,
    expire_at: u32,
) -> (r: [u8; 32])
    requires
        mints@.len() == amounts@.len(),
    ensures
        r@ == sha256(
            withdraw_message(
                keys_view(tickets@),
                keys_view(mints@),
                amounts@,
                vault@,
                requester@,
                expire_at,
            ),
        ),
{
    let mut m: Vec<u8> = Vec::new();
    let mut i: usize = 0;
    while i < tickets.len()
        invariant
            i <= tickets@.len(),
            m@ == tickets_part(keys_view(tickets@.subrange(0, i as int))),
        decreases tickets@.len() - i,
    {
        put_bytes(&mut m, tickets[i].as_slice());
        proof {
            let a = keys_view(tickets@.subrange(0, i as int));
            let b = keys_view(tickets@.subrange(0, i + 1));
            assert(b.drop_last() =~= a);
        }
        i = i + 1;
    }
    assert(tickets@.subrange(0, tickets@.len() as int) =~= tickets@);
    let ghost head = m@;
    let mut j: usize = 0;
    while j < mints.len()
        invariant
            j <= mints@.len(),
            mints@.len() == amounts@.len(),
            m@ == head + payouts_part(
                keys_view(mints@.subrange(0, j as int)),
                amounts@.subrange(0, j as int),
            ),
        decreases mints@.len() - j,
    {
        put_bytes(&mut m, mints[j].as_slice());
        put_u64_be(&mut m, amounts[j]);
        proof {
            let a = keys_view(mints@.subrange(0, j as int));
            let b = keys_view(mints@.subrange(0, j + 1));
            assert(b.drop_last() =~= a);
            assert(amounts@.subrange(0, j + 1).drop_last() =~= amounts@.subrange(0, j as int));
        }
        j = j + 1;
        assert(m@ =~= head + payouts_part(
            keys_view(mints@.subrange(0, j as int)),
            amounts@.subrange(0, j as int),
        ));
    }
    assert(mints@.subrange(0, mints@.len() as int) =~= mints@);
    assert(amounts@.subrange(0, amounts@.len() as int) =~= amounts@);
    put_bytes(&mut m, vault.as_slice());
    put_bytes(&mut m, requester.as_slice());
    put_u32_be(&mut m, expire_at);
    assert(m@ =~= withdraw_message(
        keys_view(tickets@),
        keys_view(mints@),
        amounts@,
        vault@,
        requester@,
        expire_at,
    ));
    digest_of(&m)
}

// ---- domain separation ----

proof fn lemma_concat_split(a1: Seq<u8>, b1: Seq<u8>, a2: Seq<u8>, b2: Seq<u8>)
    requires
        a1 + b1 == a2 + b2,
        a1.len() == a2.len(),
    ensures
        a1 == a2,
        b1 == b2,
{
    assert(a1 =~= (a1 + b1).subrange(0, a1.len() as int));
    assert(a2 =~= (a2 + b2).subrange(0, a2.len() as int));
    assert(b1 =~= (a1 + b1).subrange(a1.len() as int, (a1 + b1).len() as int));
    assert(b2 =~= (a2 + b2).subrange(a2.len() as int, (a2 + b2).len() as int));
}

pub open spec fn all_keys(keys: Seq<Seq<u8>>) -> bool {
    forall|i: int| 0 <= i < keys.len() ==> (#[trigger] keys[i]).len() == 32
}

proof fn lemma_tickets_part_len(t: Seq<Seq<u8>>)
    requires
        all_keys(t),
    ensures
        tickets_part(t).len() == 32 * t.len(),
    decreases t.len(),
{
    if t.len() > 0 {
        assert(t.last() == t[t.len() - 1]);
        lemma_tickets_part_len(t.drop_last());
    }
}

proof fn lemma_payouts_part_len(m: Seq<Seq<u8>>, a: Seq<u64>)
    requires
        all_keys(m),
        m.len() == a.len(),
    ensures
        payouts_part(m, a).len() == 40 * m.len(),
    decreases m.len(),
{
    if m.len() > 0 {
        assert(m.last() == m[m.len() - 1]);
        lemma_payouts_part_len(m.drop_last(), a.drop_last());
    }
}

proof fn lemma_tickets_part_injective(t1: Seq<Seq<u8>>, t2: Seq<Seq<u8>>)
    requires
        all_keys(t1),
        all_keys(t2),
        t1.len() == t2.len(),
        tickets_part(t1) == tickets_part(t2),
    ensures
        t1 == t2,
    decreases t1.len(),
{
    if t1.len() > 0 {
        assert(t1.last() == t1[t1.len() - 1]);
        assert(t2.last() == t2[t2.len() - 1]);
        lemma_tickets_part_len(t1.drop_last());
        lemma_tickets_part_len(t2.drop_last());
        lemma_concat_split(tickets_part(t1.drop_last()), t1.last(), tickets_part(t2.drop_last()), t2.last());
        lemma_tickets_part_injective(t1.drop_last(), t2.drop_last());
        assert(t1 =~= t1.drop_last().push(t1.last()));
        assert(t2 =~= t2.drop_last().push(t2.last()));
    }
}

proof fn lemma_payouts_part_injective(m1: Seq<Seq<u8>>, a1: Seq<u64>, m2: Seq<Seq<u8>>, a2: Seq<u64>)
    requires
        all_keys(m1),
        all_keys(m2),
        m1.len() == a1.len(),
        m2.len() == a2.len(),
        m1.len() == m2.len(),
        payouts_part(m1, a1) == payouts_part(m2, a2),
    ensures
        m1 == m2,
        a1 == a2,
    decreases m1.len(),
{
    if m1.len() > 0 {
        assert(m1.last() == m1[m1.len() - 1]);
        assert(m2.last() == m2[m2.len() - 1]);
        lemma_payouts_part_len(m1.drop_last(), a1.drop_last());
        lemma_payouts_part_len(m2.drop_last(), a2.drop_last());
        let part1 = payouts_part(m1.drop_last(), a1.drop_last());
        let part2 = payouts_part(m2.drop_last(), a2.drop_last());
        assert(part1 + m1.last() + be64(a1.last()) == part2 + m2.last() + be64(a2.last()));
        lemma_concat_split(part1 + m1.last(), be64(a1.last()), part2 + m2.last(), be64(a2.last()));
        lemma_concat_split(part1, m1.last(), part2, m2.last());
        lemma_be64_injective(a1.last(), a2.last());
        lemma_payouts_part_injective(m1.drop_last(), a1.drop_last(), m2.drop_last(), a2.drop_last());
        assert(m1 =~= m1.drop_last().push(m1.last()));
        assert(m2 =~= m2.drop_last().push(m2.last()));
        assert(a1 =~= a1.drop_last().push(a1.last()));
        assert(a2 =~= a2.drop_last().push(a2.last()));
    }
}

/// Two redemption requests of the same shape (as many tickets, as many
/// payouts) sign the same message only if every ticket, mint, amount, the
/// vault, the requester and the expiry agree: changing any one of them
/// changes the signed bytes, so a voucher for one request is not a voucher
/// for the other unless the digests collide.
pub proof fn lemma_withdraw_message_separates(
    t1: Seq<Seq<u8>>,
    m1: Seq<Seq<u8>>,
    a1: Seq<u64>,
    v1: Seq<u8>,
    r1: Seq<u8>,
    e1: u32,
    t2: Seq<Seq<u8>>,
    m2: Seq<Seq<u8>>,
    a2: Seq<u64>,
    v2: Seq<u8>,
    r2: Seq<u8>,
    e2: u32,
)
    requires
        all_keys(t1),
        all_keys(t2),
        all_keys(m1),
        all_keys(m2),
        v1.len() == 32 && v2.len() == 32 && r1.len() == 32 && r2.len() == 32,
        m1.len() == a1.len() && m2.len() == a2.len(),
        t1.len() == t2.len(),
        m1.len() == m2.len(),
        withdraw_message(t1, m1, a1, v1, r1, e1) == withdraw_message(t2, m2, a2, v2, r2, e2),
    ensures
        t1 == t2 && m1 == m2 && a1 == a2 && v1 == v2 && r1 == r2 && e1 == e2,
{
    lemma_tickets_part_len(t1);
    lemma_tickets_part_len(t2);
    lemma_payouts_part_len(m1, a1);
    lemma_payouts_part_len(m2, a2);
    let x1 = tickets_part(t1) + payouts_part(m1, a1) + v1 + r1;
    let x2 = tickets_part(t2) + payouts_part(m2, a2) + v2 + r2;
    lemma_concat_split(x1, be32(e1), x2, be32(e2));
    lemma_be32_injective(e1, e2);
    lemma_concat_split(tickets_part(t1) + payouts_part(m1, a1) + v1, r1, tickets_part(t2) + payouts_part(m2, a2) + v2, r2);
    lemma_concat_split(tickets_part(t1) + payouts_part(m1, a1), v1, tickets_part(t2) + payouts_part(m2, a2), v2);
    lemma_concat_split(tickets_part(t1), payouts_part(m1, a1), tickets_part(t2), payouts_part(m2, a2));
    lemma_tickets_part_injective(t1, t2);
    lemma_payouts_part_injective(m1, a1, m2, a2);
}

/// The single-ticket message separates vault, requester, ticket id and expiry
/// in the same way.
pub proof fn lemma_obtain_message_separates(
    v1: Seq<u8>,
    r1: Seq<u8>,
    i1: u32,
    e1: u32,
    v2: Seq<u8>,
    r2: Seq<u8>,
    i2: u32,
    e2: u32,
)
    requires
        v1.len() == 32 && v2.len() == 32 && r1.len() == 32 && r2.len() == 32,
        obtain_message(v1, r1, i1, e1) == obtain_message(v2, r2, i2, e2),
    ensures
        v1 == v2 && r1 == r2 && i1 == i2 && e1 == e2,
{
    lemma_concat_split(v1 + r1 + be32(i1), be32(e1), v2 + r2 + be32(i2), be32(e2));
    lemma_concat_split(v1 + r1, be32(i1), v2 + r2, be32(i2));
    lemma_concat_split(v1, r1, v2, r2);
    lemma_be32_injective(e1, e2);
    lemma_be32_injective(i1, i2);
}

} // verus!
