use lich::errors::PipelineError;
use lich::session::{Phase, Progress, UploadConfig, UploadSession, PROGRAM_EXTRA_SPACE};
use lich::status::StatusClass;
use solana_sdk::hash::hash;
use solana_sdk::signer::keypair::Keypair;
use solana_sdk::signer::Signer;

fn config(chunk_size: u32) -> UploadConfig {
    UploadConfig { chunk_size, status_batch_ceiling: 250, unit_limit: 25000, unit_price: 550000 }
}

fn payload(len: usize) -> Vec<u8> {
    (0..len).map(|i| (i % 253) as u8).collect()
}

#[test]
fn empty_payload_fails_immediately() {
    // The fatal path: no session exists, so no network call can ever be made
    // for it.
    let r = UploadSession::new(Vec::new(), config(1000));
    assert!(matches!(r, Err(PipelineError::InvalidPayloadLength)));
}

#[test]
fn zero_funding_is_fatal_before_any_transaction_is_built() {
    let mut s = UploadSession::new(payload(10_000), config(1000)).unwrap();
    assert_eq!(s.phase(), Phase::CreatingAccount);
    let r = s.check_funding(0);
    assert!(matches!(r, Err(PipelineError::ZeroFunding)));
    assert_eq!(s.phase(), Phase::Failed);
}

#[test]
fn required_space_adds_fixed_overhead() {
    let s = UploadSession::new(payload(100), config(10)).unwrap();
    assert_eq!(s.required_space(), 100 + PROGRAM_EXTRA_SPACE);
}

#[test]
fn creation_error_is_fatal_and_never_retried() {
    let mut s = UploadSession::new(payload(100), config(10)).unwrap();
    s.check_funding(1_000_000).unwrap();
    let buffer = Keypair::new();
    let authority = Keypair::new();
    s.build_creation_tx(&buffer, buffer.pubkey(), &authority, hash(&[1])).unwrap();
    assert_eq!(s.phase(), Phase::AwaitingAccountConfirmation);
    let r = s.creation_status(StatusClass::Errored);
    assert!(matches!(r, Err(PipelineError::AccountCreationRejected)));
    assert_eq!(s.phase(), Phase::Failed);
}

#[test]
fn creation_keeps_polling_until_a_safe_level() {
    let mut s = UploadSession::new(payload(100), config(10)).unwrap();
    s.check_funding(1).unwrap();
    let buffer = Keypair::new();
    let authority = Keypair::new();
    s.build_creation_tx(&buffer, buffer.pubkey(), &authority, hash(&[2])).unwrap();
    assert_eq!(s.creation_status(StatusClass::Unknown).unwrap(), false);
    assert_eq!(s.phase(), Phase::AwaitingAccountConfirmation);
    assert_eq!(s.creation_status(StatusClass::Processed).unwrap(), false);
    assert_eq!(s.phase(), Phase::AwaitingAccountConfirmation);
    assert_eq!(s.creation_status(StatusClass::Finalized).unwrap(), true);
    assert_eq!(s.phase(), Phase::PreparingChunks);
}

#[test]
fn abort_fails_the_session() {
    let mut s = UploadSession::new(payload(10), config(10)).unwrap();
    s.abort();
    assert_eq!(s.phase(), Phase::Failed);
}

#[test]
fn all_confirmed_in_one_round_completes() {
    let mut s = UploadSession::new(payload(3000), config(1000)).unwrap();
    s.check_funding(5).unwrap();
    let buffer = Keypair::new();
    let authority = Keypair::new();
    s.build_creation_tx(&buffer, buffer.pubkey(), &authority, hash(&[3])).unwrap();
    s.creation_status(StatusClass::Confirmed).unwrap();
    let n = s.begin_round(&authority, hash(&[4])).unwrap();
    assert_eq!(n, 3);
    for i in 1..=n {
        let ev = s.record_sent();
        assert!(matches!(ev, Progress::Sending { sent, total } if sent == i && total == n));
    }
    assert_eq!(s.phase(), Phase::ConfirmingChunks);
    let batches = s.signature_batches();
    assert_eq!(batches.len(), 1);
    assert_eq!(batches[0].len(), 3);
    let done = s.finish_round(&vec![StatusClass::Confirmed; 3]);
    assert!(matches!(done, Some(Progress::Completed { .. })));
    assert_eq!(s.phase(), Phase::Completed);
    assert_eq!(s.confirmed_count(), 3);
    assert_eq!(s.pending_count(), 0);
    assert_eq!(s.reconstruct_confirmed(), payload(3000));
}

#[test]
fn two_round_retry_scenario() {
    // Ten chunks of one thousand bytes; round one confirms chunks zero
    // through seven and reports eight and nine as errored; round two re-signs
    // and resubmits exactly those two, and completion fires once both land,
    // with the reconstruction equal to the payload.
    let body = payload(10_000);
    let mut s = UploadSession::new(body.clone(), config(1000)).unwrap();
    s.check_funding(1_000_000).unwrap();
    let buffer = Keypair::new();
    let authority = Keypair::new();
    s.build_creation_tx(&buffer, buffer.pubkey(), &authority, hash(&[5])).unwrap();
    s.creation_status(StatusClass::Confirmed).unwrap();

    let n = s.begin_round(&authority, hash(&[6])).unwrap();
    assert_eq!(n, 10);
    let first_round_sig_of_chunk_8 = s.round_tx(8).signatures[0];
    for _ in 0..n {
        s.record_sent();
    }
    let batches = s.signature_batches();
    assert_eq!(batches.len(), 1);
    assert_eq!(batches[0].len(), 10);

    let mut statuses = vec![StatusClass::Confirmed; 8];
    statuses.push(StatusClass::Errored);
    statuses.push(StatusClass::Errored);
    let done = s.finish_round(&statuses);
    assert!(done.is_none());
    assert_eq!(s.phase(), Phase::PreparingChunks);
    assert_eq!(s.pending_count(), 2);
    assert_eq!(s.confirmed_count(), 8);

    // Round two: a fresh anchor re-signs the two leftover chunks; the
    // signature changes even though the chunk content does not.
    let n2 = s.begin_round(&authority, hash(&[7])).unwrap();
    assert_eq!(n2, 2);
    let second_round_sig_of_chunk_8 = s.round_tx(0).signatures[0];
    assert_ne!(first_round_sig_of_chunk_8, second_round_sig_of_chunk_8);
    for _ in 0..n2 {
        s.record_sent();
    }
    let batches2 = s.signature_batches();
    assert_eq!(batches2.len(), 1);
    assert_eq!(batches2[0].len(), 2);

    let done2 = s.finish_round(&vec![StatusClass::Confirmed, StatusClass::Finalized]);
    match done2 {
        Some(Progress::Completed { buffer_account }) => {
            // The terminal event names the account the session was created
            // for, the same identifier the session itself reports.
            assert_eq!(buffer_account, buffer.pubkey());
            assert_eq!(Some(buffer_account), s.buffer_account());
        }
        other => panic!("expected completion, got {other:?}"),
    }
    assert_eq!(s.phase(), Phase::Completed);
    assert_eq!(s.confirmed_count(), 10);
    assert_eq!(s.reconstruct_confirmed(), body);
}

#[test]
fn unknown_and_processed_chunks_stay_pending() {
    let mut s = UploadSession::new(payload(4000), config(1000)).unwrap();
    s.check_funding(9).unwrap();
    let buffer = Keypair::new();
    let authority = Keypair::new();
    s.build_creation_tx(&buffer, buffer.pubkey(), &authority, hash(&[8])).unwrap();
    s.creation_status(StatusClass::Confirmed).unwrap();
    let n = s.begin_round(&authority, hash(&[9])).unwrap();
    assert_eq!(n, 4);
    for _ in 0..n {
        s.record_sent();
    }
    let statuses = vec![
        StatusClass::Unknown,
        StatusClass::Processed,
        StatusClass::Confirmed,
        StatusClass::Errored,
    ];
    let done = s.finish_round(&statuses);
    assert!(done.is_none());
    assert_eq!(s.pending_count(), 3);
    assert_eq!(s.confirmed_count(), 1);
}

#[test]
fn status_batches_respect_the_ceiling_for_many_chunks() {
    // 600 one-byte chunks against a ceiling of 250: three queries, none over.
    let mut cfg = config(1);
    cfg.status_batch_ceiling = 250;
    let mut s = UploadSession::new(payload(600), cfg).unwrap();
    s.check_funding(2).unwrap();
    let buffer = Keypair::new();
    let authority = Keypair::new();
    s.build_creation_tx(&buffer, buffer.pubkey(), &authority, hash(&[10])).unwrap();
    s.creation_status(StatusClass::Confirmed).unwrap();
    let n = s.begin_round(&authority, hash(&[11])).unwrap();
    assert_eq!(n, 600);
    for _ in 0..n {
        s.record_sent();
    }
    let batches = s.signature_batches();
    assert_eq!(batches.len(), 3);
    assert_eq!(batches[0].len(), 250);
    assert_eq!(batches[1].len(), 250);
    assert_eq!(batches[2].len(), 100);
}

#[test]
fn single_chunk_payload_completes_in_one_send() {
    // A payload smaller than the chunk size is one chunk at offset zero.
    let body = payload(10);
    let mut s = UploadSession::new(body.clone(), config(1000)).unwrap();
    s.check_funding(1).unwrap();
    let buffer = Keypair::new();
    let authority = Keypair::new();
    s.build_creation_tx(&buffer, buffer.pubkey(), &authority, hash(&[12])).unwrap();
    s.creation_status(StatusClass::Finalized).unwrap();
    let n = s.begin_round(&authority, hash(&[13])).unwrap();
    assert_eq!(n, 1);
    let ev = s.record_sent();
    assert!(matches!(ev, Progress::Sending { sent: 1, total: 1 }));
    let done = s.finish_round(&vec![StatusClass::Confirmed]);
    assert!(matches!(done, Some(Progress::Completed { .. })));
    assert_eq!(s.reconstruct_confirmed(), body);
}

#[test]
fn default_config_uses_protocol_constants() {
    let cfg = UploadConfig::default();
    assert_eq!(cfg.chunk_size, lich::session::BYTES_PER_CHUNK);
    assert_eq!(cfg.status_batch_ceiling, lich::session::STATUS_BATCH_CEILING);
}
