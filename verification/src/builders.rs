//! Verified transaction builders: each takes plain values — chunks, funding,
//! fee-control parameters, a validity anchor — and hands them to the trusted
//! signing wrappers, keeping the chunk bookkeeping (offsets, counts, order)
//! under verification.

use crate::chunks::{
    chunk_models, chunk_payload, copy_bytes, spec_batch_count, spec_chunk_at, spec_chunks, Chunk,
};
use crate::errors::PipelineError;
use crate::sdk;
use solana_sdk::instruction::Instruction;
use solana_sdk::pubkey::Pubkey;
use solana_sdk::signature::Signature;
use solana_sdk::signer::keypair::Keypair;
use solana_sdk::transaction::Transaction;
use vstd::prelude::*;

verus! {

/// One chunk's signed transaction for the current round: the chunk's offset,
/// the transaction itself, and the content-derived signature that identifies
/// this attempt. The signature changes on every re-signing; the offset never
/// does.
pub struct ChunkTx {
    pub offset: u32,
    pub tx: Transaction,
    pub signature: Signature,
}

/// The two fee-control instructions that prefix a transaction: a
/// compute-unit ceiling and a price per unit.
pub fn get_priority_fees_ixs(unit_limit: u32, unit_price: u64) -> (r: Vec<Instruction>)
    ensures
        r@.len() == 2,
{
    let mut r: Vec<Instruction> = Vec::new();
    r.push(sdk::ix_set_compute_unit_limit(unit_limit));
    r.push(sdk::ix_set_compute_unit_price(unit_price));
    r
}

/// The signed transaction that creates the buffer account, funds it for the
/// payload plus the account's fixed overhead, and assigns the authority.
/// Building and signing always succeed.
pub fn create_buffer_account(
    buffer_account: &Keypair,
    authority: &Keypair,
    lamports: u64,
    program_bytes: &Vec<u8>,
    recent_blockhash: solana_sdk::hash::Hash,
    unit_limit: u32,
    unit_price: u64,
) -> (r: Result<Transaction, PipelineError>)
    ensures
        r is Ok,
{
    match sdk::creation_tx(
        buffer_account,
        authority,
        lamports,
        program_bytes.len(),
        unit_limit,
        unit_price,
        recent_blockhash,
    ) {
        Result::Ok((tx, _sig)) => Result::Ok(tx),
        Result::Err(e) => Result::Err(e),
    }
}

/// Builds one signed write transaction per chunk against the given anchor;
/// building and signing always succeed. Offsets carry over one-to-one and in
/// order: building (or re-building) the transactions of a chunk set never
/// changes which chunk each transaction writes, only the signatures.
pub fn build_chunk_txs(
    chunks: &Vec<Chunk>,
    buffer_address: &Pubkey,
    authority: &Keypair,
    recent_blockhash: solana_sdk::hash::Hash,
    unit_limit: u32,
    unit_price: u64,
) -> (r: Result<Vec<ChunkTx>, PipelineError>)
    ensures
        r is Ok,
        r matches Ok(v) ==> v@.len() == chunks@.len() && (forall|i: int|
            0 <= i < v@.len() ==> (#[trigger] v@[i]).offset == chunks@[i].offset),
{
    let mut out: Vec<ChunkTx> = Vec::new();
    let mut i: usize = 0;
    let n = chunks.len();
    while i < n
        invariant
            n == chunks@.len(),
            out@.len() == i <= n,
            forall|k: int| 0 <= k < i ==> (#[trigger] out@[k]).offset == chunks@[k].offset,
        decreases n - i,
    {
        let offset = chunks[i].offset;
        let bytes = copy_bytes(&chunks[i].bytes);
        match sdk::chunk_tx(
            buffer_address,
            authority,
            offset,
            bytes,
            unit_limit,
            unit_price,
            recent_blockhash,
        ) {
            Result::Ok((tx, signature)) => {
                out.push(ChunkTx { offset, tx, signature });
            },
            Result::Err(e) => {
                return Result::Err(e);
            },
        }
        i = i + 1;
    }
    Result::Ok(out)
}

/// Chunks the payload at `bytes_per_chunk` and builds one signed write
/// transaction per chunk: always exactly `ceil(len / bytes_per_chunk)`
/// transactions — none for an empty payload — the one at index `i` writing at
/// offset `i * bytes_per_chunk`.
pub fn write_data(
    buffer_address: &Pubkey,
    program_bytes: &Vec<u8>,
    authority: &Keypair,
    recent_blockhash: solana_sdk::hash::Hash,
    bytes_per_chunk: u32,
    unit_limit: u32,
    unit_price: u64,
) -> (r: Result<Vec<ChunkTx>, PipelineError>)
    requires
        bytes_per_chunk > 0,
        program_bytes@.len() <= u32::MAX,
    ensures
        r is Ok,
        r matches Ok(v) ==> v@.len() == spec_batch_count(
            program_bytes@.len() as int,
            bytes_per_chunk as int,
        ) && (forall|i: int|
            0 <= i < v@.len() ==> (#[trigger] v@[i]).offset as int == i * (
            bytes_per_chunk as int)),
{
    let chunks = chunk_payload(program_bytes, bytes_per_chunk);
    proof {
        assert forall|i: int| 0 <= i < chunks@.len() implies (#[trigger] chunks@[i]).offset as int
            == i * (bytes_per_chunk as int) by {
            assert(chunk_models(chunks@)[i] == spec_chunk_at(
                program_bytes@,
                bytes_per_chunk as int,
                i,
            ));
        }
    }
    build_chunk_txs(
        &chunks,
        buffer_address,
        authority,
        recent_blockhash,
        unit_limit,
        unit_price,
    )
}

/// The signed one-shot transaction that deploys the program from the buffer
/// account, sized for the payload length. Building and signing always
/// succeed.
pub fn deploy_program(
    authority: &Keypair,
    program_keypair: &Keypair,
    buffer_address: &Pubkey,
    program_bytes: &Vec<u8>,
    program_lamports: u64,
    recent_blockhash: solana_sdk::hash::Hash,
) -> (r: Result<Transaction, PipelineError>)
    ensures
        r is Ok,
{
    match sdk::deploy_tx(
        authority,
        program_keypair,
        buffer_address,
        program_lamports,
        program_bytes.len(),
        recent_blockhash,
    ) {
        Result::Ok((tx, _sig)) => Result::Ok(tx),
        Result::Err(e) => Result::Err(e),
    }
}

/// The signed one-shot transaction that upgrades an already deployed program
/// from the buffer account. Building and signing always succeed.
pub fn upgrade_program(
    program_keypair: &Keypair,
    buffer_address: &Pubkey,
    authority: &Keypair,
    recent_blockhash: solana_sdk::hash::Hash,
) -> (r: Result<Transaction, PipelineError>)
    ensures
        r is Ok,
{
    let program_address = sdk::keypair_pubkey(program_keypair);
    match sdk::upgrade_tx(&program_address, buffer_address, authority, recent_blockhash) {
        Result::Ok((tx, _sig)) => Result::Ok(tx),
        Result::Err(e) => Result::Err(e),
    }
}

/// The signed transaction that hands the buffer account to a new authority.
/// Building and signing always succeed.
pub fn set_new_buffer_auth(
    buffer_address: &Pubkey,
    authority: &Keypair,
    recent_blockhash: solana_sdk::hash::Hash,
    new_authority: &Pubkey,
) -> (r: Result<Transaction, PipelineError>)
    ensures
        r is Ok,
{
    match sdk::set_buffer_authority_tx(buffer_address, authority, new_authority, recent_blockhash)
    {
        Result::Ok((tx, _sig)) => Result::Ok(tx),
        Result::Err(e) => Result::Err(e),
    }
}

} // verus!
