//! The trusted boundary around the ledger SDK: the opaque types a transaction
//! is made of, and the wrappers that build and sign whole transactions from
//! plain values. Each wrapper assembles its instruction list itself, from a
//! handful of fixed instructions, so that the message compiler's account-key
//! limit can never be hit and no call in here panics.

use crate::errors::PipelineError;
use solana_sdk::bpf_loader_upgradeable;
use solana_sdk::compute_budget::ComputeBudgetInstruction;
use solana_sdk::instruction::Instruction;
use solana_sdk::pubkey::Pubkey;
use solana_sdk::signature::Signature;
use solana_sdk::signer::keypair::Keypair;
use solana_sdk::signer::Signer;
use solana_sdk::transaction::Transaction;
use vstd::prelude::*;

verus! {

#[verifier::external_type_specification]
#[verifier::external_body]
pub struct ExPubkey(Pubkey);

#[verifier::external_type_specification]
#[verifier::external_body]
pub struct ExHash(solana_sdk::hash::Hash);

#[verifier::external_type_specification]
#[verifier::external_body]
pub struct ExSignature(Signature);

// Declaring `Signature` makes the verifier process its trait impls, among
// them `TryFrom<&[u8]>`, whose error type must therefore be declared too;
// nothing else names it.
#[verifier::external_type_specification]
#[verifier::external_body]
pub struct ExTryFromSliceError(core::array::TryFromSliceError);

#[verifier::external_type_specification]
#[verifier::external_body]
pub struct ExKeypair(Keypair);

#[verifier::external_type_specification]
#[verifier::external_body]
pub struct ExInstruction(Instruction);

#[verifier::external_type_specification]
#[verifier::external_body]
pub struct ExTransaction(Transaction);

/// Relies on `Signer::pubkey` for `Keypair`: returns the keypair's public
/// identifier and never fails.
#[verifier::external_body]
pub(crate) fn keypair_pubkey(k: &Keypair) -> Pubkey {
    k.pubkey()
}

/// Relies on `ComputeBudgetInstruction::set_compute_unit_limit`: builds the
/// fee-control instruction that caps the compute units of a transaction.
#[verifier::external_body]
pub(crate) fn ix_set_compute_unit_limit(units: u32) -> Instruction {
    ComputeBudgetInstruction::set_compute_unit_limit(units)
}

/// Relies on `ComputeBudgetInstruction::set_compute_unit_price`: builds the
/// fee-control instruction that sets the price per compute unit.
#[verifier::external_body]
pub(crate) fn ix_set_compute_unit_price(micro_lamports: u64) -> Instruction {
    ComputeBudgetInstruction::set_compute_unit_price(micro_lamports)
}

/// Builds and signs the transaction that writes one chunk into the buffer
/// account. Relies on `bpf_loader_upgradeable::write`,
/// `ComputeBudgetInstruction::{set_compute_unit_limit, set_compute_unit_price}`,
/// `Transaction::new_with_payer` (three fixed instructions name at most six
/// distinct account keys, far under the message compiler's limit) and
/// `Transaction::try_sign`. Signing always succeeds: the authority is the fee
/// payer, hence a required signer of the compiled message, and a keypair
/// signer cannot fail to sign; the fee payer's signature is the first one.
#[verifier::external_body]
pub(crate) fn chunk_tx(
    buffer: &Pubkey,
    authority: &Keypair,
    offset: u32,
    bytes: Vec<u8>,
    unit_limit: u32,
    unit_price: u64,
    anchor: solana_sdk::hash::Hash,
) -> (r: Result<(Transaction, Signature), PipelineError>)
    ensures
        r is Ok,
{
    let payer = authority.pubkey();
    let ixs = [
        ComputeBudgetInstruction::set_compute_unit_limit(unit_limit),
        ComputeBudgetInstruction::set_compute_unit_price(unit_price),
        bpf_loader_upgradeable::write(buffer, &payer, offset, bytes),
    ];
    let mut tx = Transaction::new_with_payer(&ixs, Some(&payer));
    if tx.try_sign(&[authority], anchor).is_err() {
        return Err(PipelineError::SigningFailed);
    }
    let sig = tx.signatures[0];
    Ok((tx, sig))
}

/// Builds and signs the transaction that creates and funds the buffer
/// account. Relies on `bpf_loader_upgradeable::create_buffer` (returns its two
/// instructions unconditionally in this version), the two compute-budget
/// constructors, `Transaction::new_with_payer` (at most eight distinct keys)
/// and `Transaction::try_sign`. Signing always succeeds: the authority is the
/// fee payer and the new account is marked a signer by the creation
/// instruction, so both are required signers, and keypair signers cannot fail
/// to sign; the fee payer's signature is the first one.
#[verifier::external_body]
pub(crate) fn creation_tx(
    buffer: &Keypair,
    authority: &Keypair,
    lamports: u64,
    program_len: usize,
    unit_limit: u32,
    unit_price: u64,
    anchor: solana_sdk::hash::Hash,
) -> (r: Result<(Transaction, Signature), PipelineError>)
    ensures
        r is Ok,
{
    let payer = authority.pubkey();
    let mut ixs = vec![
        ComputeBudgetInstruction::set_compute_unit_limit(unit_limit),
        ComputeBudgetInstruction::set_compute_unit_price(unit_price),
    ];
    match bpf_loader_upgradeable::create_buffer(&payer, &buffer.pubkey(), &payer, lamports, program_len) {
        Ok(more) => ixs.extend(more),
        Err(_) => return Err(PipelineError::InstructionBuildFailed),
    }
    let mut tx = Transaction::new_with_payer(&ixs, Some(&payer));
    if tx.try_sign(&[authority, buffer], anchor).is_err() {
        return Err(PipelineError::SigningFailed);
    }
    let sig = tx.signatures[0];
    Ok((tx, sig))
}

/// Builds and signs the one-shot transaction that deploys the program from
/// the buffer account. Relies on
/// `bpf_loader_upgradeable::deploy_with_max_program_len` (returns two
/// instructions unconditionally in this version; its program-data address
/// derivation assumes a bump seed exists, which holds for practical
/// addresses), `Transaction::new_with_payer` (at most ten distinct keys) and
/// `Transaction::try_sign`. Signing always succeeds: the authority is the fee
/// payer and the program account is marked a signer by the creation
/// instruction, and keypair signers cannot fail to sign.
#[verifier::external_body]
pub(crate) fn deploy_tx(
    authority: &Keypair,
    program: &Keypair,
    buffer: &Pubkey,
    program_lamports: u64,
    max_data_len: usize,
    anchor: solana_sdk::hash::Hash,
) -> (r: Result<(Transaction, Signature), PipelineError>)
    ensures
        r is Ok,
{
    let payer = authority.pubkey();
    let built = bpf_loader_upgradeable::deploy_with_max_program_len(
        &payer, &program.pubkey(), buffer, &payer, program_lamports, max_data_len);
    let ixs = match built {
        Ok(v) => v,
        Err(_) => return Err(PipelineError::InstructionBuildFailed),
    };
    let mut tx = Transaction::new_with_payer(&ixs, Some(&payer));
    if tx.try_sign(&[authority, program], anchor).is_err() {
        return Err(PipelineError::SigningFailed);
    }
    let sig = tx.signatures[0];
    Ok((tx, sig))
}

/// Builds and signs the one-shot transaction that upgrades an already
/// deployed program from the buffer account. Relies on
/// `bpf_loader_upgradeable::upgrade` (one instruction; its program-data
/// address derivation assumes a bump seed exists, which holds for practical
/// addresses), `Transaction::new_with_payer` (at most eight distinct keys)
/// and `Transaction::try_sign`. Signing always succeeds: the authority is the
/// fee payer and the only signer the instruction requires, and a keypair
/// signer cannot fail to sign.
#[verifier::external_body]
pub(crate) fn upgrade_tx(
    program: &Pubkey,
    buffer: &Pubkey,
    authority: &Keypair,
    anchor: solana_sdk::hash::Hash,
) -> (r: Result<(Transaction, Signature), PipelineError>)
    ensures
        r is Ok,
{
    let payer = authority.pubkey();
    let ix = bpf_loader_upgradeable::upgrade(program, buffer, &payer, &payer);
    let mut tx = Transaction::new_with_payer(&[ix], Some(&payer));
    if tx.try_sign(&[authority], anchor).is_err() {
        return Err(PipelineError::SigningFailed);
    }
    let sig = tx.signatures[0];
    Ok((tx, sig))
}

/// Builds and signs the transaction that hands the buffer account to a new
/// authority. Relies on `bpf_loader_upgradeable::set_buffer_authority` (one
/// instruction, never fails), `Transaction::new_with_payer` (at most six
/// distinct keys) and `Transaction::try_sign`. Signing always succeeds: the
/// current authority is the fee payer and the only signer the instruction
/// requires, and a keypair signer cannot fail to sign.
#[verifier::external_body]
pub(crate) fn set_buffer_authority_tx(
    buffer: &Pubkey,
    authority: &Keypair,
    new_authority: &Pubkey,
    anchor: solana_sdk::hash::Hash,
) -> (r: Result<(Transaction, Signature), PipelineError>)
    ensures
        r is Ok,
{
    let payer = authority.pubkey();
    let ix = bpf_loader_upgradeable::set_buffer_authority(buffer, &payer, new_authority);
    let mut tx = Transaction::new_with_payer(&[ix], Some(&payer));
    if tx.try_sign(&[authority], anchor).is_err() {
        return Err(PipelineError::SigningFailed);
    }
    let sig = tx.signatures[0];
    Ok((tx, sig))
}

} // verus!
