use lich::builders::{
    create_buffer_account, deploy_program, get_priority_fees_ixs, set_new_buffer_auth,
    upgrade_program, write_data,
};
use solana_sdk::hash::hash;
use solana_sdk::pubkey::Pubkey;
use solana_sdk::signer::keypair::Keypair;

#[test]
fn priority_fee_instructions_target_the_compute_budget_program() {
    let ixs = get_priority_fees_ixs(25000, 550_000);
    assert_eq!(ixs.len(), 2);
    for ix in &ixs {
        assert_eq!(ix.program_id, solana_sdk::compute_budget::id());
        assert!(!ix.data.is_empty());
    }
    assert_ne!(ixs[0].data, ixs[1].data);
}

#[test]
fn creation_transaction_is_fully_signed_and_prefixed() {
    let buffer = Keypair::new();
    let authority = Keypair::new();
    let bytes: Vec<u8> = vec![7; 300];
    let tx = create_buffer_account(&buffer, &authority, 12345, &bytes, hash(&[20]), 25000, 550_000)
        .unwrap();
    // Two fee-control instructions, then the two creation instructions.
    assert_eq!(tx.message.instructions.len(), 4);
    assert!(tx.verify().is_ok());
}

#[test]
fn write_data_builds_one_verified_transaction_per_chunk() {
    let authority = Keypair::new();
    let buffer_address = Pubkey::new_unique();
    let bytes: Vec<u8> = (0..2500).map(|i| (i % 200) as u8).collect();
    let txs = write_data(&buffer_address, &bytes, &authority, hash(&[21]), 1000, 25000, 550_000)
        .unwrap();
    assert_eq!(txs.len(), 3);
    assert_eq!(txs[0].offset, 0);
    assert_eq!(txs[1].offset, 1000);
    assert_eq!(txs[2].offset, 2000);
    for t in &txs {
        assert!(t.tx.verify().is_ok());
        assert_eq!(t.signature, t.tx.signatures[0]);
    }
    // Content-derived identity: distinct chunks, distinct signatures.
    assert_ne!(txs[0].signature, txs[1].signature);
    assert_ne!(txs[1].signature, txs[2].signature);
}

#[test]
fn resigning_against_a_new_anchor_changes_signatures_only() {
    let authority = Keypair::new();
    let buffer_address = Pubkey::new_unique();
    let bytes: Vec<u8> = vec![42; 1500];
    let round1 =
        write_data(&buffer_address, &bytes, &authority, hash(&[22]), 1000, 25000, 550_000).unwrap();
    let round2 =
        write_data(&buffer_address, &bytes, &authority, hash(&[23]), 1000, 25000, 550_000).unwrap();
    assert_eq!(round1.len(), round2.len());
    for (a, b) in round1.iter().zip(round2.iter()) {
        assert_eq!(a.offset, b.offset);
        assert_ne!(a.signature, b.signature);
    }
}

#[test]
fn deploy_transaction_is_fully_signed() {
    let authority = Keypair::new();
    let program = Keypair::new();
    let buffer_address = Pubkey::new_unique();
    let bytes: Vec<u8> = vec![1; 64];
    let tx = deploy_program(&authority, &program, &buffer_address, &bytes, 999, hash(&[24]))
        .unwrap();
    assert!(tx.verify().is_ok());
}

#[test]
fn upgrade_transaction_is_fully_signed() {
    let authority = Keypair::new();
    let program = Keypair::new();
    let buffer_address = Pubkey::new_unique();
    let tx = upgrade_program(&program, &buffer_address, &authority, hash(&[25])).unwrap();
    assert!(tx.verify().is_ok());
    assert_eq!(tx.message.instructions.len(), 1);
}

#[test]
fn set_buffer_authority_transaction_is_fully_signed() {
    let authority = Keypair::new();
    let buffer_address = Pubkey::new_unique();
    let new_authority = Pubkey::new_unique();
    let tx = set_new_buffer_auth(&buffer_address, &authority, hash(&[26]), &new_authority)
        .unwrap();
    assert!(tx.verify().is_ok());
}
