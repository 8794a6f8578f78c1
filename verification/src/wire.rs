//! The wire form of the transaction that carries one write into the staging buffer.

use crate::planner::{max_chunk_size, outcome_bytes, within, zero_payload};
use solana_sdk::bpf_loader_upgradeable;
use solana_sdk::message::Message;
use solana_sdk::pubkey::Pubkey;
use solana_sdk::transaction::Transaction;
use vstd::prelude::*;

verus! {

/// The serialized, still unsigned transaction that writes `payload` at `offset` into the
/// buffer account `buffer` on behalf of `authority`, who also pays its fee, and that
/// refers to `blockhash`; `None` where no such transaction can be serialized.
pub uninterp spec fn write_transaction_wire(
    buffer: Seq<u8>,
    authority: Seq<u8>,
    blockhash: Seq<u8>,
    offset: u32,
    payload: Seq<u8>,
) -> Option<Seq<u8>>;

/// Builds the loader's write instruction with `solana_sdk::bpf_loader_upgradeable::write`,
/// compiles it into a message paid by `authority` with `Message::new_with_blockhash`, wraps
/// that into a transaction whose signatures are placeholders with
/// `Transaction::new_unsigned`, and serializes it with `bincode::serialize`. Each of these
/// computes on its arguments alone, so the bytes are a function of the five arguments;
/// the contract gives them the name `write_transaction_wire` and claims nothing else.
#[verifier::external_body]
pub(crate) fn encode_write_transaction(
    buffer: &[u8; 32],
    authority: &[u8; 32],
    blockhash: &[u8; 32],
    offset: u32,
    payload: Vec<u8>,
) -> (r: Option<Vec<u8>>)
    ensures
        match r {
            Some(message) => write_transaction_wire(buffer@, authority@, blockhash@, offset, payload@)
                == Some(message@),
            None => write_transaction_wire(buffer@, authority@, blockhash@, offset, payload@)
                is None,
        },
{
    let payer = Pubkey::from(*authority);
    let instruction = bpf_loader_upgradeable::write(&Pubkey::from(*buffer), &payer, offset, payload);
    let message = Message::new_with_blockhash(
        &[instruction],
        Some(&payer),
        &solana_sdk::hash::Hash::new_from_array(*blockhash),
    );
    bincode::serialize(&Transaction::new_unsigned(message)).ok()
}

/// `size` is a payload length at which the write transactions for `buffer`, measured with
/// zero bytes at offset 0, cross `ceiling`: the one of `size` bytes is within it (unless
/// `size` is 0), and the one of a byte more is not (unless `size` is the ceiling).
pub open spec fn is_write_chunk_size(
    buffer: Seq<u8>,
    authority: Seq<u8>,
    blockhash: Seq<u8>,
    ceiling: nat,
    size: nat,
) -> bool {
    &&& size <= ceiling
    &&& size > 0 ==> within(
        write_transaction_wire(buffer, authority, blockhash, 0, zero_payload(size)),
        ceiling,
    )
    &&& size < ceiling ==> !within(
        write_transaction_wire(buffer, authority, blockhash, 0, zero_payload(size + 1)),
        ceiling,
    )
}

/// The largest payload that one write into `buffer` can carry while its serialized
/// transaction stays within `size_ceiling` bytes.
pub fn write_chunk_size(
    buffer: &[u8; 32],
    authority: &[u8; 32],
    blockhash: &[u8; 32],
    size_ceiling: usize,
) -> (r: usize)
    ensures
        is_write_chunk_size(buffer@, authority@, blockhash@, size_ceiling as nat, r as nat),
{
    let builder = |offset: u32, payload: Vec<u8>| -> (outcome: Option<Vec<u8>>)
        ensures
            outcome_bytes(outcome) == write_transaction_wire(
                buffer@,
                authority@,
                blockhash@,
                offset,
                payload@,
            ),
        { encode_write_transaction(buffer, authority, blockhash, offset, payload) };
    max_chunk_size(&builder, size_ceiling)
}

} // verus!
