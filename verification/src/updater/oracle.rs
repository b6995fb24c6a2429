use crate::flaw::Flaw;
use crate::transaction::canonical::canonical;
use crate::transaction::message::OracleMessageSigned;
use crate::transaction::shared::OracleSetting;
use std::str::FromStr;
use vstd::prelude::*;

verus! {

/// The SHA-256 digest of a byte string.
pub uninterp spec fn sha256(data: Seq<u8>) -> Seq<u8>;

/// Whether `signature` is a Schnorr signature of the 32-byte `digest`
/// under the x-only public key `pubkey`, as the `secp256k1` library
/// judges it. Bytes that are no key, no digest or no signature give
/// `false`.
pub uninterp spec fn schnorr_valid(pubkey: Seq<u8>, digest: Seq<u8>, signature: Seq<u8>) -> bool;

/// The locking script that pays to an address, where the text is an
/// address at all.
pub uninterp spec fn script_of_address(address: Seq<char>) -> Option<Seq<u8>>;

/// Calls `bitcoin::hashes::sha256::Hash::hash` and hands back the 32
/// bytes of the digest. The contract names the digest and states its
/// length.
#[verifier::external_body]
pub(crate) fn sha256_digest(data: &Vec<u8>) -> (digest: Vec<u8>)
    ensures
        digest@ == sha256(data@),
        digest@.len() == 32,
{
    let hash = <bitcoin::hashes::sha256::Hash as bitcoin::hashes::Hash>::hash(data.as_slice());
    bitcoin::hashes::Hash::to_byte_array(hash).to_vec()
}

/// Calls `verify_schnorr` of `bitcoin::secp256k1` on the key, the
/// digest and the signature that the three byte strings parse to. Where
/// one of them does not parse, or the verification fails, the result is
/// `false`. The contract only names the result.
#[verifier::external_body]
pub(crate) fn schnorr_verifies(pubkey: &Vec<u8>, digest: &Vec<u8>, signature: &Vec<u8>) -> (ok: bool)
    ensures
        ok == schnorr_valid(pubkey@, digest@, signature@),
{
    let Ok(key) = bitcoin::secp256k1::XOnlyPublicKey::from_slice(pubkey.as_slice()) else {
        return false;
    };
    let Ok(sig) = bitcoin::secp256k1::schnorr::Signature::from_slice(signature.as_slice()) else {
        return false;
    };
    let Ok(msg) = bitcoin::secp256k1::Message::from_digest_slice(digest.as_slice()) else {
        return false;
    };
    bitcoin::secp256k1::Secp256k1::verification_only().verify_schnorr(&sig, &msg, &key).is_ok()
}

/// Parses an address with `bitcoin::Address::from_str` and hands back
/// the bytes of `script_pubkey` of the address, or `None` where the
/// text does not parse. The network of the address is not checked. The
/// contract only names the result.
#[verifier::external_body]
pub(crate) fn address_script(address: &String) -> (script: Option<Vec<u8>>)
    ensures
        match script {
            Some(bytes) => script_of_address(address@) == Some(bytes@),
            None => script_of_address(address@) is None,
        },
{
    match bitcoin::Address::from_str(address.as_str()) {
        Ok(parsed) => Some(parsed.assume_checked().script_pubkey().into_bytes()),
        Err(_) => None,
    }
}

/// Whether an oracle message speaks of the asset that the contract
/// names.
pub open spec fn asset_ids_agree(wanted: Option<String>, given: Option<String>) -> bool {
    match (wanted, given) {
        (None, None) => true,
        (Some(a), Some(b)) => a@ == b@,
        _ => false,
    }
}

/// Whether a message signed at `signed_at` is too old, or too far
/// ahead, at the block `block`.
pub open spec fn stale(block: u64, signed_at: u64, max_staleness: u64) -> bool {
    if block >= signed_at {
        block - signed_at > max_staleness
    } else {
        signed_at - block > max_staleness
    }
}

/// The flaw of an oracle message under the setting of a contract, at a
/// block: it speaks of another asset, it is stale, or its signature
/// does not verify. The signature covers the SHA-256 digest of the
/// canonical encoding of the message.
pub open spec fn oracle_flaw(signed: &OracleMessageSigned, setting: &OracleSetting, block: u64) -> Option<
    Flaw,
> {
    if !asset_ids_agree(setting.asset_id, signed.message.asset_id) {
        Some(Flaw::OracleMintFailed)
    } else if stale(block, signed.message.block_height, setting.max_staleness) {
        Some(Flaw::OracleMintStale)
    } else if !schnorr_valid(
        setting.pubkey@,
        sha256(canonical(signed.message)),
        signed.signature@,
    ) {
        Some(Flaw::OracleMintFailed)
    } else {
        None
    }
}

/// The flaw of an oracle message once its signature has been judged:
/// `verified` is what the verification gave.
pub fn judge_oracle_message(
    signed: &OracleMessageSigned,
    setting: &OracleSetting,
    block: u64,
    verified: bool,
) -> (r: Option<Flaw>)
    ensures
        r == (if !asset_ids_agree(setting.asset_id, signed.message.asset_id) {
            Some(Flaw::OracleMintFailed)
        } else if stale(block, signed.message.block_height, setting.max_staleness) {
            Some(Flaw::OracleMintStale)
        } else if !verified {
            Some(Flaw::OracleMintFailed)
        } else {
            None
        }),
{
    let agree = match (&setting.asset_id, &signed.message.asset_id) {
        (None, None) => true,
        (Some(a), Some(b)) => *a == *b,
        _ => false,
    };
    if !agree {
        return Some(Flaw::OracleMintFailed);
    }
    let height = signed.message.block_height;
    let distance = if block >= height {
        block - height
    } else {
        height - block
    };
    if distance > setting.max_staleness {
        return Some(Flaw::OracleMintStale);
    }
    if !verified {
        return Some(Flaw::OracleMintFailed);
    }
    None
}

/// Checks an oracle message against the setting of a contract.
pub fn validate_oracle_message(signed: &OracleMessageSigned, setting: &OracleSetting, block: u64) -> (r:
    Option<Flaw>)
    ensures
        r == oracle_flaw(signed, setting, block),
{
    let digest = sha256_digest(&signed.message.canonical_bytes());
    let verified = schnorr_verifies(&setting.pubkey, &digest, &signed.signature);
    judge_oracle_message(signed, setting, block, verified)
}

} // verus!
