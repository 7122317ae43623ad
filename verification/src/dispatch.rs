//! What every operation of the pallets shares: who calls it, how it fails, the
//! transfers it asks the currency for, and the identifiers derived by hashing.

use vstd::prelude::*;
use crate::encoding::{
    blake2_256,
    blake_two_256,
    decode_u64_zero_padded,
    encode_u64,
    le_bytes,
    le_value,
    zero_padded,
};

verus! {

/// A 256-bit identifier.
pub type HashId = [u8; 32];

/// Who dispatches an operation.
#[derive(Clone, Copy, Debug, PartialEq, Eq)]
pub enum Origin {
    Root,
    Signed(u64),
    Unsigned,
}

/// How an operation fails: a wrong origin, a refused currency transfer, or an error of
/// the pallet itself.
#[derive(Clone, Copy, Debug, PartialEq, Eq)]
pub enum DispatchError<E> {
    BadOrigin,
    TransferFailed,
    Pallet(E),
}

/// A currency transfer of `amount` from `from` to `to`; `keep_alive` asks that the
/// payer keep at least the existential deposit.
#[derive(Clone, Copy, Debug, PartialEq, Eq)]
pub struct Transfer {
    pub from: u64,
    pub to: u64,
    pub amount: u128,
    pub keep_alive: bool,
}

/// The account of a signed origin.
pub open spec fn signer(origin: Origin) -> Option<u64> {
    match origin {
        Origin::Signed(who) => Some(who),
        _ => None,
    }
}

/// The signing account, or `BadOrigin`.
pub fn ensure_signed<E>(origin: Origin) -> (r: Result<u64, DispatchError<E>>)
    ensures
        match origin {
            Origin::Signed(who) => r == Ok::<u64, DispatchError<E>>(who),
            _ => r == Err::<u64, DispatchError<E>>(DispatchError::BadOrigin),
        },
{
    match origin {
        Origin::Signed(who) => Ok(who),
        _ => Err(DispatchError::BadOrigin),
    }
}

/// Succeeds for the root origin only.
pub fn ensure_root<E>(origin: Origin) -> (r: Result<(), DispatchError<E>>)
    ensures
        match origin {
            Origin::Root => r == Ok::<(), DispatchError<E>>(()),
            _ => r == Err::<(), DispatchError<E>>(DispatchError::BadOrigin),
        },
{
    match origin {
        Origin::Root => Ok(()),
        _ => Err(DispatchError::BadOrigin),
    }
}

/// The seed of a pallet's account: the type tag `modl` followed by the pallet id.
pub open spec fn pallet_seed(pallet_id: Seq<u8>) -> Seq<u8> {
    seq![109u8, 111u8, 100u8, 108u8] + pallet_id
}

/// The account that holds the funds of the pallet with `pallet_id`: its seed read as
/// an account number, the bytes past the account's eight dropped.
pub open spec fn account_of(pallet_id: [u8; 8]) -> u64 {
    le_value(zero_padded(pallet_seed(pallet_id@), 8)) as u64
}

/// The account that holds the funds of the pallet with `pallet_id`.
pub fn pallet_account(pallet_id: [u8; 8]) -> (a: u64)
    ensures
        a as nat == le_value(zero_padded(pallet_seed(pallet_id@), 8)),
        a == account_of(pallet_id),
{
    let mut seed: Vec<u8> = Vec::new();
    seed.push(109u8);
    seed.push(111u8);
    seed.push(100u8);
    seed.push(108u8);
    let mut i: usize = 0;
    while i < 8
        invariant
            0 <= i <= 8,
            seed@ == seq![109u8, 111u8, 100u8, 108u8] + pallet_id@.take(i as int),
        decreases 8 - i,
    {
        seed.push(pallet_id[i]);
        i = i + 1;
        proof {
            assert(pallet_id@.take(i as int) =~= pallet_id@.take(i - 1).push(pallet_id@[i - 1]));
        }
    }
    assert(pallet_id@.take(8) =~= pallet_id@);
    decode_u64_zero_padded(seed.as_slice())
}

/// The identifier that hashing `seed` gives.
pub open spec fn id_of(seed: Seq<u8>) -> HashId {
    choose|h: HashId| h@ == blake2_256(seed)
}

/// The identifier that hashing `seed` gives.
pub fn hash_seed(seed: &Vec<u8>) -> (h: HashId)
    ensures
        h == id_of(seed@),
        h@ == blake2_256(seed@),
{
    let h = blake_two_256(seed.as_slice());
    proof {
        let c = id_of(seed@);
        assert(c@ == blake2_256(seed@));
        assert forall|i: int| 0 <= i < 32 implies c[i] == h[i] by {
            assert(c@[i] == h@[i]);
        }
        assert(c =~= h);
    }
    h
}

/// The bytes of a 256-bit identifier, as the codec writes it: the bytes themselves.
pub fn push_hash(buf: &mut Vec<u8>, h: &HashId)
    ensures
        final(buf)@ == old(buf)@ + h@,
{
    let ghost start = buf@;
    let mut i: usize = 0;
    while i < 32
        invariant
            0 <= i <= 32,
            buf@ == start + h@.take(i as int),
        decreases 32 - i,
    {
        buf.push(h[i]);
        i = i + 1;
        proof {
            assert(h@.take(i as int) =~= h@.take(i - 1).push(h@[i - 1]));
        }
    }
    assert(h@.take(32) =~= h@);
}

/// The seed hashed into an identifier derived from the identifier `id`, an account and a
/// block number: their encodings in order.
pub open spec fn derived_seed(id: HashId, who: u64, now: u64) -> Seq<u8> {
    id@ + le_bytes(who as nat, 8) + le_bytes(now as nat, 8)
}

/// The identifier derived from `id`, account `who` and block `now`.
pub fn derive_id(id: &HashId, who: u64, now: u64) -> (h: HashId)
    ensures
        h == id_of(derived_seed(*id, who, now)),
{
    let mut seed: Vec<u8> = Vec::new();
    push_hash(&mut seed, id);
    let mut part = encode_u64(who);
    seed.append(&mut part);
    let mut part = encode_u64(now);
    seed.append(&mut part);
    proof {
        assert(seed@ =~= derived_seed(*id, who, now));
    }
    hash_seed(&seed)
}

} // verus!
