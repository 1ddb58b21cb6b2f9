use vstd::prelude::*;
use crate::error::Error;
use crate::hash::{hash_from, lemma_hash_ext, H256};

verus! {

/// How a signed message is presented to the signature check.
#[derive(Clone, Copy, Debug, PartialEq, Eq, Structural)]
pub enum SigningType {
    /// The message is hashed again with the chain's signed-message prefix.
    WithPrefix,
    /// The message is checked as it is.
    Raw,
}

/// What an account-lock cell's data holds.
#[derive(Clone, Copy, Debug)]
pub struct LockData {
    /// The lock hash of the cell that must be spent alongside.
    pub owner_lock_hash: H256,
    pub signing_type: SigningType,
    /// The message that the owner signed.
    pub message: H256,
}

/// The signing type that a byte names: 0 for a prefixed message, 1 for a raw one.
pub open spec fn signing_type_of(b: u8) -> Option<SigningType> {
    if b == 0 {
        Some(SigningType::WithPrefix)
    } else if b == 1 {
        Some(SigningType::Raw)
    } else {
        None
    }
}

/// The layout of an account-lock cell's data: the owner lock hash (32 bytes)
/// then the message (32 bytes), signed with prefix; or the owner lock hash, a
/// signing-type byte, then the message. Any other length is refused, as is an
/// unknown signing type.
pub open spec fn lock_data_of(data: Seq<u8>) -> Result<LockData, Error> {
    if data.len() == 64 {
        Ok(
            LockData {
                owner_lock_hash: hash_from(data.subrange(0, 32)),
                signing_type: SigningType::WithPrefix,
                message: hash_from(data.subrange(32, 64)),
            },
        )
    } else if data.len() == 65 {
        match signing_type_of(data[32]) {
            None => Err(Error::Encoding),
            Some(t) => Ok(
                LockData {
                    owner_lock_hash: hash_from(data.subrange(0, 32)),
                    signing_type: t,
                    message: hash_from(data.subrange(33, 65)),
                },
            ),
        }
    } else {
        Err(Error::Encoding)
    }
}

fn hash_at(data: &Vec<u8>, start: usize) -> (r: H256)
    requires
        start + 32 <= data@.len(),
    ensures
        r == hash_from(data@.subrange(start as int, start + 32)),
{
    let mut bytes = [0u8; 32];
    let mut i: usize = 0;
    while i < 32
        invariant
            i <= 32,
            start + 32 <= data.len(),
            bytes@.len() == 32,
            forall|j: int| 0 <= j < i ==> bytes@[j] == data@[start + j],
        decreases 32 - i,
    {
        bytes[i] = data[start + i];
        i = i + 1;
    }
    let r = H256(bytes);
    proof {
        let s = data@.subrange(start as int, start + 32);
        assert(bytes@ =~= s);
        let c = choose|a: [u8; 32]| a@ == data@.subrange(start as int, start + 32);
        assert(c@ == s);
        lemma_hash_ext(H256(c), r);
    }
    r
}

/// Parses an account-lock cell's data.
pub fn parse_data(data: &Vec<u8>) -> (r: Result<LockData, Error>)
    ensures
        r == lock_data_of(data@),
{
    if data.len() != 64 && data.len() != 65 {
        return Err(Error::Encoding);
    }
    let owner_lock_hash = hash_at(data, 0);
    if data.len() == 64 {
        return Ok(LockData { owner_lock_hash, signing_type: SigningType::WithPrefix, message: hash_at(data, 32) });
    }
    let signing_type = if data[32] == 0 {
        SigningType::WithPrefix
    } else if data[32] == 1 {
        SigningType::Raw
    } else {
        return Err(Error::Encoding);
    };
    Ok(LockData { owner_lock_hash, signing_type, message: hash_at(data, 33) })
}

/// The signature that a witness's lock field carries: it must be there and be
/// 65 bytes long.
pub fn signature_from_witness_lock(lock: &Option<Vec<u8>>) -> (r: Result<[u8; 65], Error>)
    ensures
        match lock {
            Some(s) => if s@.len() == 65 {
                r matches Ok(sig) && sig@ == s@
            } else {
                r == Err::<[u8; 65], Error>(Error::WrongSignature)
            },
            None => r == Err::<[u8; 65], Error>(Error::WrongSignature),
        },
{
    let s = match lock {
        Some(s) => s,
        None => {
            return Err(Error::WrongSignature);
        },
    };
    if s.len() != 65 {
        return Err(Error::WrongSignature);
    }
    let mut buf = [0u8; 65];
    let mut i: usize = 0;
    while i < 65
        invariant
            i <= 65,
            s@.len() == 65,
            buf@.len() == 65,
            forall|j: int| 0 <= j < i ==> buf@[j] == s@[j],
        decreases 65 - i,
    {
        buf[i] = s[i];
        i = i + 1;
    }
    assert(buf@ =~= s@);
    Ok(buf)
}

} // verus!
