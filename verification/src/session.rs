//! The retry coordinator: one upload session as a verified state machine.
//! The caller performs the network work — fetching anchors and funding,
//! submitting transactions, querying statuses — and feeds the plain results
//! back in; every decision (validation, partitioning a polled round,
//! re-signing bookkeeping, progress counting, termination) is made and proved
//! here.

use crate::builders::{build_chunk_txs, ChunkTx};
use crate::chunks::{
    chunk_models, chunk_payload, clone_chunk, concat_bytes, copy_bytes, lemma_batch_count_bounds,
    lemma_batch_size_bounds, lemma_chunks_reconstruct, lemma_offset_identifies, spec_batch_at,
    spec_batch_count, spec_chunks, Chunk, ChunkModel,
};
use crate::errors::PipelineError;
use crate::sdk;
use crate::status::{is_retry_eligible, is_terminal_success, retry_eligible, StatusClass};
use solana_sdk::pubkey::Pubkey;
use solana_sdk::signature::Signature;
use solana_sdk::signer::keypair::Keypair;
use solana_sdk::transaction::Transaction;
use vstd::arithmetic::mul::lemma_mul_inequality;
use vstd::prelude::*;

verus! {

broadcast use {
    vstd::seq_lib::to_multiset_build,
    vstd::seq_lib::to_multiset_len,
    vstd::seq_lib::to_multiset_contains,
    vstd::seq_lib::lemma_multiset_commutative,
    vstd::multiset::group_multiset_axioms,
};

/// Default chunk size in bytes: conservatively below the network's hard
/// transaction-size limit, leaving room for the signature and the
/// fee-control instructions.
pub const BYTES_PER_CHUNK: u32 = 1012;

/// Fixed account overhead beyond the payload: the buffer account's metadata.
pub const PROGRAM_EXTRA_SPACE: u64 = 45;

/// Protocol ceiling on how many signatures one status query may carry.
pub const STATUS_BATCH_CEILING: usize = 250;

/// A progress event streamed to the caller: a pure projection of the
/// session's state, emitted while sending and exactly once at completion.
#[derive(Clone, Copy, Debug)]
pub enum Progress {
    Idle,
    Sending { sent: usize, total: usize },
    Completed { buffer_account: Pubkey },
}

/// The caller-configurable parameters of an upload session.
#[derive(Clone, Copy)]
pub struct UploadConfig {
    /// Bytes per chunk; bounded by the network's transaction size.
    pub chunk_size: u32,
    /// Most signatures one status query may carry.
    pub status_batch_ceiling: usize,
    /// Compute-budget ceiling for each transaction.
    pub unit_limit: u32,
    /// Price per compute unit.
    pub unit_price: u64,
}

impl UploadConfig {
    /// A usable configuration: both split sizes are positive.
    pub open spec fn wf(self) -> bool {
        self.chunk_size > 0 && self.status_batch_ceiling > 0
    }
}

impl Default for UploadConfig {
    /// The default configuration: the protocol-derived chunk size and batch
    /// ceiling, and the fee-control defaults.
    fn default() -> (r: UploadConfig)
        ensures
            r.wf(),
            r.chunk_size == BYTES_PER_CHUNK,
            r.status_batch_ceiling == STATUS_BATCH_CEILING,
            r.unit_limit == 25000,
            r.unit_price == 550000,
    {
        UploadConfig {
            chunk_size: BYTES_PER_CHUNK,
            status_batch_ceiling: STATUS_BATCH_CEILING,
            unit_limit: 25000,
            unit_price: 550000,
        }
    }
}

/// The phases of an upload session, in the order a successful session passes
/// through them. `PreparingChunks` is entered before the first send round and
/// again before every retry round, since the pending set must be re-signed
/// against a fresh anchor each time.
#[derive(Clone, Copy, Debug, PartialEq, Eq, Structural)]
pub enum Phase {
    CreatingAccount,
    AwaitingAccountConfirmation,
    PreparingChunks,
    SendingChunks,
    ConfirmingChunks,
    Completed,
    Failed,
}

/// The chunks of a polled round that stay pending: those whose status is not
/// terminal success, in their round order.
pub open spec fn filter_retry(cs: Seq<ChunkModel>, st: Seq<StatusClass>) -> Seq<ChunkModel>
    recommends
        cs.len() == st.len(),
    decreases cs.len(),
{
    if cs.len() == 0 {
        Seq::empty()
    } else {
        let prefix = filter_retry(cs.drop_last(), st.take(cs.len() - 1));
        if is_retry_eligible(st[cs.len() - 1]) {
            prefix.push(cs.last())
        } else {
            prefix
        }
    }
}

/// The chunks of a polled round that were confirmed: those whose status is
/// terminal success, in their round order.
pub open spec fn filter_done(cs: Seq<ChunkModel>, st: Seq<StatusClass>) -> Seq<ChunkModel>
    recommends
        cs.len() == st.len(),
    decreases cs.len(),
{
    if cs.len() == 0 {
        Seq::empty()
    } else {
        let prefix = filter_done(cs.drop_last(), st.take(cs.len() - 1));
        if is_terminal_success(st[cs.len() - 1]) {
            prefix.push(cs.last())
        } else {
            prefix
        }
    }
}

/// Each chunk of a polled round goes to exactly one side: the still-pending
/// and the newly confirmed chunks together are a permutation of the round's
/// chunks — no chunk is lost or duplicated, however the statuses fall.
pub proof fn lemma_filter_partition(cs: Seq<ChunkModel>, st: Seq<StatusClass>)
    requires
        cs.len() == st.len(),
    ensures
        filter_retry(cs, st).to_multiset().add(filter_done(cs, st).to_multiset())
            == cs.to_multiset(),
        filter_retry(cs, st).len() + filter_done(cs, st).len() == cs.len(),
    decreases cs.len(),
{
    if cs.len() == 0 {
        assert(filter_retry(cs, st).to_multiset().add(filter_done(cs, st).to_multiset())
            =~= cs.to_multiset());
    } else {
        let cs0 = cs.drop_last();
        let st0 = st.take(cs.len() - 1);
        lemma_filter_partition(cs0, st0);
        assert(cs =~= cs0.push(cs.last()));
        let fr0 = filter_retry(cs0, st0);
        let fd0 = filter_done(cs0, st0);
        if is_retry_eligible(st[cs.len() - 1]) {
            assert(filter_retry(cs, st) == fr0.push(cs.last()));
            assert(filter_done(cs, st) == fd0);
            assert(fr0.push(cs.last()).to_multiset().add(fd0.to_multiset())
                =~= cs.to_multiset());
        } else {
            assert(filter_retry(cs, st) == fr0);
            assert(filter_done(cs, st) == fd0.push(cs.last()));
            assert(fr0.to_multiset().add(fd0.push(cs.last()).to_multiset())
                =~= cs.to_multiset());
        }
    }
}

/// The chunks still pending after a whole run of rounds: each round's polled
/// statuses applied in order, oldest first.
pub open spec fn pending_after_rounds(
    cs: Seq<ChunkModel>,
    rounds: Seq<Seq<StatusClass>>,
) -> Seq<ChunkModel>
    decreases rounds.len(),
{
    if rounds.len() == 0 {
        cs
    } else {
        pending_after_rounds(filter_retry(cs, rounds.first()), rounds.drop_first())
    }
}

/// Appending one more round to a run polls the chunks the run left pending.
pub proof fn lemma_rounds_snoc(cs: Seq<ChunkModel>, rounds: Seq<Seq<StatusClass>>, st: Seq<
    StatusClass,
>)
    ensures
        pending_after_rounds(cs, rounds.push(st)) == filter_retry(
            pending_after_rounds(cs, rounds),
            st,
        ),
    decreases rounds.len(),
{
    if rounds.len() == 0 {
        assert(rounds.push(st).drop_first() =~= Seq::<Seq<StatusClass>>::empty());
        assert(rounds.push(st).first() == st);
        let f = filter_retry(cs, st);
        assert(pending_after_rounds(cs, rounds.push(st)) == pending_after_rounds(
            f,
            rounds.push(st).drop_first(),
        ));
        assert(pending_after_rounds(f, rounds.push(st).drop_first()) == f);
        assert(pending_after_rounds(cs, rounds) == cs);
    } else {
        assert(rounds.push(st).drop_first() =~= rounds.drop_first().push(st));
        assert(rounds.push(st).first() == rounds.first());
        let f = filter_retry(cs, rounds.first());
        assert(pending_after_rounds(cs, rounds.push(st)) == pending_after_rounds(
            f,
            rounds.drop_first().push(st),
        ));
        lemma_rounds_snoc(f, rounds.drop_first(), st);
        assert(pending_after_rounds(cs, rounds) == pending_after_rounds(f, rounds.drop_first()));
    }
}

/// Once nothing is pending, no later round reopens anything.
pub proof fn lemma_empty_pending_stays_empty(rounds: Seq<Seq<StatusClass>>)
    ensures
        pending_after_rounds(Seq::empty(), rounds) == Seq::<ChunkModel>::empty(),
    decreases rounds.len(),
{
    if rounds.len() > 0 {
        assert(filter_retry(Seq::empty(), rounds.first()) =~= Seq::<ChunkModel>::empty());
        lemma_empty_pending_stays_empty(rounds.drop_first());
    }
}

/// Termination, given an eventually reliable network: if some round reports
/// every chunk then pending as terminal success, that round leaves nothing
/// pending, and every later round still has nothing pending — the session
/// completes in that round and stays complete.
pub proof fn lemma_session_terminates(
    cs: Seq<ChunkModel>,
    rounds: Seq<Seq<StatusClass>>,
    k: int,
)
    requires
        0 <= k < rounds.len(),
        rounds[k].len() == pending_after_rounds(cs, rounds.take(k)).len(),
        forall|i: int| 0 <= i < rounds[k].len() ==> is_terminal_success(#[trigger] rounds[k][i]),
    ensures
        forall|j: int|
            k < j <= rounds.len() ==> pending_after_rounds(cs, #[trigger] rounds.take(j)).len()
                == 0,
{
    let before = pending_after_rounds(cs, rounds.take(k));
    assert(rounds.take(k + 1) =~= rounds.take(k).push(rounds[k]));
    lemma_rounds_snoc(cs, rounds.take(k), rounds[k]);
    lemma_all_confirmed_drains(before, rounds[k]);
    assert(pending_after_rounds(cs, rounds.take(k + 1)) =~= Seq::<ChunkModel>::empty());
    assert forall|j: int| k < j <= rounds.len() implies pending_after_rounds(
        cs,
        #[trigger] rounds.take(j),
    ).len() == 0 by {
        lemma_drained_prefix_extends(cs, rounds, k + 1, j);
    }
}

/// Helper for the termination lemma: a run whose first `k` rounds drained the
/// pending set keeps it drained through any longer prefix.
proof fn lemma_drained_prefix_extends(
    cs: Seq<ChunkModel>,
    rounds: Seq<Seq<StatusClass>>,
    k: int,
    j: int,
)
    requires
        0 <= k <= j <= rounds.len(),
        pending_after_rounds(cs, rounds.take(k)).len() == 0,
    ensures
        pending_after_rounds(cs, rounds.take(j)).len() == 0,
    decreases j - k,
{
    if j > k {
        lemma_drained_prefix_extends(cs, rounds, k, j - 1);
        assert(rounds.take(j) =~= rounds.take(j - 1).push(rounds[j - 1]));
        lemma_rounds_snoc(cs, rounds.take(j - 1), rounds[j - 1]);
        assert(pending_after_rounds(cs, rounds.take(j - 1)) =~= Seq::<ChunkModel>::empty());
        assert(filter_retry(Seq::empty(), rounds[j - 1]) =~= Seq::<ChunkModel>::empty());
    }
}

/// One upload session: created once per payload, alive until it completes or
/// fails. The target account and the payload are fixed for the whole session;
/// write transactions are derived, disposable artifacts rebuilt each round;
/// retry bookkeeping is keyed by chunk offset, never by signature alone.
pub struct UploadSession {
    payload: Vec<u8>,
    config: UploadConfig,
    phase: Phase,
    pending: Vec<Chunk>,
    confirmed: Vec<Chunk>,
    round_txs: Vec<ChunkTx>,
    sent: usize,
    funding: Option<u64>,
    buffer_address: Option<Pubkey>,
}

impl UploadSession {
    /// The session's phase.
    pub closed spec fn spec_phase(self) -> Phase {
        self.phase
    }

    /// The payload being uploaded.
    pub closed spec fn payload_model(self) -> Seq<u8> {
        self.payload@
    }

    /// The chunk size the session splits the payload at.
    pub closed spec fn chunk_size_model(self) -> int {
        self.config.chunk_size as int
    }

    /// The ceiling on signatures per status query.
    pub closed spec fn ceiling_model(self) -> int {
        self.config.status_batch_ceiling as int
    }

    /// The chunks still to be confirmed, in their round order.
    pub closed spec fn pending_model(self) -> Seq<ChunkModel> {
        chunk_models(self.pending@)
    }

    /// The chunks confirmed so far, in the order they were confirmed.
    pub closed spec fn confirmed_model(self) -> Seq<ChunkModel> {
        chunk_models(self.confirmed@)
    }

    /// The offsets of this round's built transactions, in round order.
    pub closed spec fn round_offsets(self) -> Seq<int> {
        self.round_txs@.map_values(|t: ChunkTx| t.offset as int)
    }

    /// The signatures of this round's built transactions, in round order.
    pub closed spec fn round_sigs(self) -> Seq<Signature> {
        self.round_txs@.map_values(|t: ChunkTx| t.signature)
    }

    /// How many of this round's transactions were built.
    pub closed spec fn round_len(self) -> int {
        self.round_txs@.len() as int
    }

    /// How many of this round's transactions were handed out for submission.
    pub closed spec fn spec_sent(self) -> int {
        self.sent as int
    }

    /// The funding the network reported, once checked.
    pub closed spec fn spec_funding(self) -> Option<u64> {
        self.funding
    }

    /// The target account's public identifier, once the creation transaction
    /// was built.
    pub closed spec fn spec_buffer(self) -> Option<Pubkey> {
        self.buffer_address
    }

    /// The full chunking of the session's payload: what the confirmed set
    /// must amount to at completion.
    pub open spec fn all_chunks(self) -> Seq<ChunkModel> {
        spec_chunks(self.payload_model(), self.chunk_size_model())
    }

    /// The session invariant. The central clause: the pending and confirmed
    /// chunks together are always a permutation of the payload's chunking —
    /// every round moves chunks between the two sets and never invents,
    /// drops, or duplicates one.
    pub closed spec fn inv(self) -> bool {
        &&& self.config.wf()
        &&& 0 < self.payload@.len() <= u32::MAX
        &&& chunk_models(self.pending@).to_multiset().add(
            chunk_models(self.confirmed@).to_multiset(),
        ) == self.all_chunks().to_multiset()
        &&& self.pending@.len() + self.confirmed@.len() == self.all_chunks().len()
        &&& (self.phase is SendingChunks || self.phase is ConfirmingChunks) ==> {
            &&& self.round_txs@.len() == self.pending@.len()
            &&& (forall|i: int|
                0 <= i < self.round_txs@.len() ==> (#[trigger] self.round_txs@[i]).offset
                    == self.pending@[i].offset)
            &&& self.buffer_address is Some
            &&& self.funding is Some
        }
        &&& self.phase is SendingChunks ==> self.sent <= self.round_txs@.len()
        &&& self.phase is ConfirmingChunks ==> self.sent == self.round_txs@.len()
        &&& self.phase is PreparingChunks ==> self.pending@.len() > 0 && self.buffer_address
            is Some && self.funding is Some
        &&& self.phase is AwaitingAccountConfirmation ==> self.buffer_address is Some
            && self.funding is Some
        &&& (self.phase is CreatingAccount || self.phase is AwaitingAccountConfirmation)
            ==> self.confirmed@.len() == 0
        &&& self.phase is Completed ==> self.pending@.len() == 0 && self.buffer_address is Some
        &&& (self.funding matches Some(f) ==> f > 0)
    }

    /// Starts a session for a payload. The only validation is the one the
    /// pipeline owes: an empty payload is rejected at once, before any
    /// network request exists to be made. On success the whole payload is
    /// pending and nothing is confirmed.
    pub fn new(payload: Vec<u8>, config: UploadConfig) -> (r: Result<UploadSession, PipelineError>)
        requires
            config.wf(),
            payload@.len() <= u32::MAX,
        ensures
            r is Err <==> payload@.len() == 0,
            r matches Err(e) ==> e is InvalidPayloadLength,
            r matches Ok(s) ==> ({
                &&& s.inv()
                &&& s.spec_phase() is CreatingAccount
                &&& s.payload_model() == payload@
                &&& s.chunk_size_model() == config.chunk_size as int
                &&& s.ceiling_model() == config.status_batch_ceiling as int
                &&& s.pending_model() == s.all_chunks()
                &&& s.confirmed_model() == Seq::<ChunkModel>::empty()
                &&& s.spec_funding() is None
                &&& s.spec_sent() == 0
            }),
    {
        if payload.len() == 0 {
            return Result::Err(PipelineError::InvalidPayloadLength);
        }
        let pending = chunk_payload(&payload, config.chunk_size);
        let s = UploadSession {
            payload,
            config,
            phase: Phase::CreatingAccount,
            pending,
            confirmed: Vec::new(),
            round_txs: Vec::new(),
            sent: 0,
            funding: Option::None,
            buffer_address: Option::None,
        };
        proof {
            assert(s.confirmed_model() =~= Seq::<ChunkModel>::empty());
            assert(s.pending_model().to_multiset().add(s.confirmed_model().to_multiset())
                =~= s.all_chunks().to_multiset());
        }
        Result::Ok(s)
    }

    /// The funding to request from the network: the payload length plus the
    /// account's fixed overhead.
    pub fn required_space(&self) -> (r: u64)
        requires
            self.inv(),
        ensures
            r == self.payload_model().len() + PROGRAM_EXTRA_SPACE,
    {
        (self.payload.len() as u64) + PROGRAM_EXTRA_SPACE
    }

    /// Records the funding the network reported. Zero is an error — a
    /// silently failed query, not a free account — and it is fatal, raised
    /// before any creation transaction is built.
    pub fn check_funding(&mut self, lamports: u64) -> (r: Result<u64, PipelineError>)
        requires
            old(self).inv(),
            old(self).spec_phase() is CreatingAccount,
        ensures
            final(self).inv(),
            same_identity(*old(self), *final(self)),
            final(self).pending_model() == old(self).pending_model(),
            final(self).confirmed_model() == old(self).confirmed_model(),
            r is Ok <==> lamports > 0,
            r matches Ok(f) ==> f == lamports && final(self).spec_funding() == Some(lamports)
                && final(self).spec_phase() is CreatingAccount,
            r matches Err(e) ==> e is ZeroFunding && final(self).spec_phase() is Failed,
    {
        if lamports == 0 {
            self.phase = Phase::Failed;
            Result::Err(PipelineError::ZeroFunding)
        } else {
            self.funding = Option::Some(lamports);
            Result::Ok(lamports)
        }
    }

    /// Aborts the session: the caller saw a fatal condition of its own — a
    /// failed anchor fetch, a transport failure — and no further step will be
    /// taken.
    pub fn abort(&mut self)
        requires
            old(self).inv(),
        ensures
            final(self).inv(),
            same_identity(*old(self), *final(self)),
            final(self).pending_model() == old(self).pending_model(),
            final(self).confirmed_model() == old(self).confirmed_model(),
            final(self).spec_phase() is Failed,
    {
        self.phase = Phase::Failed;
    }

    /// The session's phase, for the caller's control flow.
    pub fn phase(&self) -> (r: Phase)
        ensures
            r == self.spec_phase(),
    {
        self.phase
    }

    /// Builds the signed account-creation transaction from the checked
    /// funding and a fresh validity anchor, and records `buffer_address` — the
    /// created account's public identifier, as the caller read it off the
    /// account's keypair — for the session's lifetime: it is the identifier
    /// the terminal event will carry. Building and signing always succeed.
    pub fn build_creation_tx(
        &mut self,
        buffer_account: &Keypair,
        buffer_address: Pubkey,
        authority: &Keypair,
        recent_blockhash: solana_sdk::hash::Hash,
    ) -> (r: Result<Transaction, PipelineError>)
        requires
            old(self).inv(),
            old(self).spec_phase() is CreatingAccount,
            old(self).spec_funding() is Some,
        ensures
            final(self).inv(),
            same_identity(*old(self), *final(self)),
            final(self).pending_model() == old(self).pending_model(),
            final(self).confirmed_model() == old(self).confirmed_model(),
            final(self).spec_funding() == old(self).spec_funding(),
            r is Ok,
            final(self).spec_phase() is AwaitingAccountConfirmation,
            final(self).spec_buffer() == Some(buffer_address),
    {
        let lamports = self.funding.unwrap();
        match sdk::creation_tx(
            buffer_account,
            authority,
            lamports,
            self.payload.len(),
            self.config.unit_limit,
            self.config.unit_price,
            recent_blockhash,
        ) {
            Result::Ok((tx, _sig)) => {
                self.buffer_address = Option::Some(buffer_address);
                self.phase = Phase::AwaitingAccountConfirmation;
                Result::Ok(tx)
            },
            Result::Err(e) => {
                self.phase = Phase::Failed;
                Result::Err(e)
            },
        }
    }

    /// Advances the creation confirmation from one classified status: an
    /// error on the creation transaction is fatal and never retried; terminal
    /// success moves the session on to its first chunk round; anything else
    /// keeps polling.
    pub fn creation_status(&mut self, class: StatusClass) -> (r: Result<bool, PipelineError>)
        requires
            old(self).inv(),
            old(self).spec_phase() is AwaitingAccountConfirmation,
        ensures
            final(self).inv(),
            same_identity(*old(self), *final(self)),
            final(self).pending_model() == old(self).pending_model(),
            final(self).confirmed_model() == old(self).confirmed_model(),
            final(self).spec_buffer() == old(self).spec_buffer(),
            class is Errored ==> (r matches Err(e) && e is AccountCreationRejected && final(self).spec_phase() is Failed),
            is_terminal_success(class) ==> r == Result::<bool, PipelineError>::Ok(true) && final(self).spec_phase() is PreparingChunks,
            (class is Unknown || class is Processed) ==> r == Result::<bool, PipelineError>::Ok(
                false,
            ) && final(self).spec_phase() is AwaitingAccountConfirmation,
    {
        match class {
            StatusClass::Errored => {
                self.phase = Phase::Failed;
                Result::Err(PipelineError::AccountCreationRejected)
            },
            StatusClass::Confirmed | StatusClass::Finalized => {
                proof {
                    lemma_pending_nonempty(*self);
                }
                self.phase = Phase::PreparingChunks;
                Result::Ok(true)
            },
            StatusClass::Unknown | StatusClass::Processed => Result::Ok(false),
        }
    }

    /// Builds (or, in a retry round, rebuilds) one signed write transaction
    /// per pending chunk against a fresh anchor; building and signing always
    /// succeed. Re-signing never changes the pending chunks themselves — same
    /// offsets, same bytes — only the transactions and their signatures; the
    /// built transactions mirror the pending set one-to-one, in order.
    pub fn begin_round(&mut self, authority: &Keypair, recent_blockhash: solana_sdk::hash::Hash)
        -> (r: Result<usize, PipelineError>)
        requires
            old(self).inv(),
            old(self).spec_phase() is PreparingChunks,
        ensures
            final(self).inv(),
            same_identity(*old(self), *final(self)),
            final(self).pending_model() == old(self).pending_model(),
            final(self).confirmed_model() == old(self).confirmed_model(),
            final(self).spec_buffer() == old(self).spec_buffer(),
            r is Ok,
            r matches Ok(n) ==> ({
                &&& n == old(self).pending_model().len()
                &&& final(self).spec_phase() is SendingChunks
                &&& final(self).spec_sent() == 0
                &&& final(self).round_len() == old(self).pending_model().len()
                &&& final(self).round_offsets() == old(self).pending_model().map_values(
                    |c: ChunkModel| c.offset,
                )
            }),
    {
        let buffer = self.buffer_address.unwrap();
        match build_chunk_txs(
            &self.pending,
            &buffer,
            authority,
            recent_blockhash,
            self.config.unit_limit,
            self.config.unit_price,
        ) {
            Result::Ok(txs) => {
                self.round_txs = txs;
                self.sent = 0;
                self.phase = Phase::SendingChunks;
                proof {
                    assert(self.round_offsets() =~= self.pending_model().map_values(
                        |c: ChunkModel| c.offset,
                    ));
                }
                Result::Ok(self.round_txs.len())
            },
            Result::Err(e) => {
                self.phase = Phase::Failed;
                Result::Err(e)
            },
        }
    }

    /// This round's transaction count.
    pub fn round_tx_count(&self) -> (r: usize)
        ensures
            r == self.round_len(),
    {
        self.round_txs.len()
    }

    /// This round's transaction at position `i`, for the caller to submit.
    pub fn round_tx(&self, i: usize) -> (r: &Transaction)
        requires
            i < self.round_len(),
    {
        &self.round_txs[i].tx
    }

    /// Counts one transaction as handed to its submission task and returns
    /// the progress event to stream: `sent` out of `total` of this round.
    /// When the last one is counted, the round moves on to confirmation.
    pub fn record_sent(&mut self) -> (r: Progress)
        requires
            old(self).inv(),
            old(self).spec_phase() is SendingChunks,
            old(self).spec_sent() < old(self).round_len(),
        ensures
            final(self).inv(),
            same_identity(*old(self), *final(self)),
            final(self).pending_model() == old(self).pending_model(),
            final(self).confirmed_model() == old(self).confirmed_model(),
            final(self).round_offsets() == old(self).round_offsets(),
            final(self).round_sigs() == old(self).round_sigs(),
            final(self).spec_buffer() == old(self).spec_buffer(),
            final(self).spec_sent() == old(self).spec_sent() + 1,
            r == (Progress::Sending {
                sent: (old(self).spec_sent() + 1) as usize,
                total: old(self).round_len() as usize,
            }),
            final(self).spec_sent() == final(self).round_len() ==> final(self).spec_phase()
                is ConfirmingChunks,
            final(self).spec_sent() < final(self).round_len() ==> final(self).spec_phase()
                is SendingChunks,
    {
        let total = self.round_txs.len();
        self.sent = self.sent + 1;
        let ev = Progress::Sending { sent: self.sent, total };
        if self.sent == total {
            self.phase = Phase::ConfirmingChunks;
        }
        ev
    }

    /// The signature batches for this round's status queries: one signature
    /// per pending chunk, in round order, split so that no query carries more
    /// than the protocol ceiling — for any number of pending chunks — and so
    /// that together the batches cover every pending signature.
    pub fn signature_batches(&self) -> (r: Vec<Vec<Signature>>)
        requires
            self.inv(),
            self.spec_phase() is ConfirmingChunks,
        ensures
            0 < self.ceiling_model(),
            self.round_len() == self.pending_model().len(),
            self.round_sigs().len() == self.pending_model().len(),
            r@.len() == spec_batch_count(self.round_len(), self.ceiling_model()),
            forall|i: int|
                0 <= i < r@.len() ==> (#[trigger] r@[i])@ == spec_batch_at(
                    self.round_sigs(),
                    self.ceiling_model(),
                    i,
                ),
            forall|i: int| 0 <= i < r@.len() ==> 0 < (#[trigger] r@[i])@.len()
                <= self.ceiling_model(),
    {
        let n = self.round_txs.len();
        let mut sigs: Vec<Signature> = Vec::new();
        let mut i: usize = 0;
        while i < n
            invariant
                n == self.round_txs@.len(),
                i <= n,
                sigs@ == self.round_sigs().take(i as int),
            decreases n - i,
        {
            sigs.push(self.round_txs[i].signature);
            i = i + 1;
            proof {
                assert(sigs@ =~= self.round_sigs().take(i as int));
            }
        }
        proof {
            assert(sigs@ =~= self.round_sigs());
        }
        let r = crate::chunks::get_vec_with_batched_data(self.config.status_batch_ceiling, &sigs);
        proof {
            assert forall|i: int| 0 <= i < r@.len() implies 0 < (#[trigger] r@[i])@.len()
                <= self.ceiling_model() by {
                lemma_batch_size_bounds(self.round_sigs(), self.ceiling_model(), i);
            }
        }
        r
    }
    /// Ends a round from its polled statuses, given positionally, one per
    /// pending chunk: chunks whose status is terminal success move to the
    /// confirmed set, every other chunk — unknown, merely processed, or
    /// errored — stays pending for the next round, and this round's
    /// transactions are discarded (their stale signatures with them). Returns
    /// the terminal progress event exactly when nothing stays pending; the
    /// session then is complete and takes no further step.
    pub fn finish_round(&mut self, statuses: &Vec<StatusClass>) -> (r: Option<Progress>)
        requires
            old(self).inv(),
            old(self).spec_phase() is ConfirmingChunks,
            statuses@.len() == old(self).pending_model().len(),
        ensures
            final(self).inv(),
            same_identity(*old(self), *final(self)),
            final(self).spec_buffer() == old(self).spec_buffer(),
            final(self).pending_model() == filter_retry(old(self).pending_model(), statuses@),
            final(self).confirmed_model() == old(self).confirmed_model() + filter_done(
                old(self).pending_model(),
                statuses@,
            ),
            r is Some <==> filter_retry(old(self).pending_model(), statuses@).len() == 0,
            r matches Some(p) ==> (p == (Progress::Completed {
                buffer_account: old(self).spec_buffer()->0,
            }) && final(self).spec_phase() is Completed),
            r is None ==> final(self).spec_phase() is PreparingChunks,
    {
        let ghost pm = chunk_models(old(self).pending@);
        let ghost st = statuses@;
        let n = self.pending.len();
        let mut stay: Vec<Chunk> = Vec::new();
        let mut done_v: Vec<Chunk> = Vec::new();
        let mut i: usize = 0;
        while i < n
            invariant
                *self == *old(self),
                n == self.pending@.len(),
                st == statuses@,
                st.len() == n,
                pm == chunk_models(self.pending@),
                i <= n,
                chunk_models(stay@) == filter_retry(pm.take(i as int), st.take(i as int)),
                chunk_models(done_v@) == filter_done(pm.take(i as int), st.take(i as int)),
            decreases n - i,
        {
            let c = clone_chunk(&self.pending[i]);
            let elig = retry_eligible(statuses[i]);
            proof {
                let k = i as int;
                assert(pm.take(k + 1).drop_last() =~= pm.take(k));
                assert(st.take(k + 1).take(k) =~= st.take(k));
                assert(pm.take(k + 1).last() == pm[k]);
                assert(st.take(k + 1)[k] == st[k]);
            }
            if elig {
                stay.push(c);
                proof {
                    assert(chunk_models(stay@) =~= filter_retry(
                        pm.take(i + 1 as int),
                        st.take(i + 1 as int),
                    ));
                }
            } else {
                done_v.push(c);
                proof {
                    assert(chunk_models(done_v@) =~= filter_done(
                        pm.take(i + 1 as int),
                        st.take(i + 1 as int),
                    ));
                }
            }
            i = i + 1;
        }
        proof {
            assert(pm.take(n as int) =~= pm);
            assert(st.take(n as int) =~= st);
        }
        let ghost old_confirmed = chunk_models(self.confirmed@);
        self.pending = stay;
        self.round_txs = Vec::new();
        self.sent = 0;
        self.confirmed.append(&mut done_v);
        proof {
            lemma_filter_partition(pm, st);
            assert(self.confirmed_model() =~= old_confirmed + filter_done(pm, st));
            assert(self.confirmed_model().to_multiset() == old_confirmed.to_multiset().add(
                filter_done(pm, st).to_multiset(),
            ));
            assert(self.pending_model().to_multiset().add(self.confirmed_model().to_multiset())
                =~= self.all_chunks().to_multiset());
        }
        if self.pending.len() == 0 {
            self.phase = Phase::Completed;
            let acct = self.buffer_address.unwrap();
            Option::Some(Progress::Completed { buffer_account: acct })
        } else {
            self.phase = Phase::PreparingChunks;
            Option::None
        }
    }
    /// How many chunks are still pending confirmation.
    pub fn pending_count(&self) -> (r: usize)
        ensures
            r == self.pending_model().len(),
    {
        self.pending.len()
    }

    /// How many chunks have been confirmed so far.
    pub fn confirmed_count(&self) -> (r: usize)
        ensures
            r == self.confirmed_model().len(),
    {
        self.confirmed.len()
    }

    /// The payload's length in bytes.
    pub fn payload_len(&self) -> (r: usize)
        ensures
            r == self.payload_model().len(),
    {
        self.payload.len()
    }

    /// The target account's public identifier, once the creation transaction
    /// was built; the value returned to the caller on success.
    pub fn buffer_account(&self) -> (r: Option<Pubkey>)
        ensures
            r == self.spec_buffer(),
    {
        self.buffer_address
    }

    /// Rebuilds the payload from the confirmed chunk set of a completed
    /// session, by offset order. The result equals the original payload
    /// exactly, however many rounds the chunks took to confirm and in
    /// whatever order they landed.
    pub fn reconstruct_confirmed(&self) -> (r: Vec<u8>)
        requires
            self.inv(),
            self.spec_phase() is Completed,
        ensures
            r@ == self.payload_model(),
    {
        let ghost all = self.all_chunks();
        let ghost c = self.chunk_size_model();
        let ghost cm = chunk_models(self.confirmed@);
        proof {
            assert(self.pending_model() =~= Seq::<ChunkModel>::empty());
            assert(cm.to_multiset() =~= all.to_multiset());
            lemma_batch_count_bounds(self.payload_model().len() as int, c);
            lemma_chunks_reconstruct(self.payload_model(), c);
            // Every chunk of the payload's chunking appears in the confirmed
            // set, and every confirmed chunk is one of the payload's.
            assert forall|kk: int| 0 <= kk < all.len() implies cm.contains(all[kk]) by {
                assert(all.contains(all[kk]));
                assert(all.to_multiset().count(all[kk]) > 0);
            }
            assert forall|j: int| 0 <= j < cm.len() implies all.contains(cm[j]) by {
                assert(cm.contains(cm[j]));
                assert(cm.to_multiset().count(cm[j]) > 0);
            }
        }
        let n = self.confirmed.len();
        proof {
            assert(n as int == all.len());
        }
        let mut out: Vec<u8> = Vec::new();
        let mut k: usize = 0;
        proof {
            assert(all.take(0) =~= Seq::<ChunkModel>::empty());
            assert(out@ =~= concat_bytes(all.take(0)));
        }
        while k < n
            invariant
                self.inv(),
                self.spec_phase() is Completed,
                all == self.all_chunks(),
                c == self.chunk_size_model(),
                cm == chunk_models(self.confirmed@),
                n == self.confirmed@.len(),
                n as int == all.len(),
                forall|kk: int| 0 <= kk < all.len() ==> cm.contains(#[trigger] all[kk]),
                forall|j: int| 0 <= j < cm.len() ==> all.contains(#[trigger] cm[j]),
                k <= n,
                out@ == concat_bytes(all.take(k as int)),
            decreases n - k,
        {
            proof {
                lemma_batch_count_bounds(self.payload_model().len() as int, c);
                assert(k as int * c <= (all.len() - 1) * c) by {
                    lemma_mul_inequality(k as int, all.len() - 1, c);
                }
            }
            let off64: u64 = (k as u64) * (self.config.chunk_size as u64);
            let target: u32 = off64 as u32;
            proof {
                // The chunk at index k is somewhere in the confirmed set.
                assert(all[k as int].offset == k as int * c);
                assert(cm.contains(all[k as int]));
                let witness = choose|i: int| 0 <= i < cm.len() && cm[i] == all[k as int];
                assert(self.confirmed@[witness].offset == target);
            }
            let j = find_by_offset(&self.confirmed, target);
            proof {
                // Whatever chunk the search found carries offset k * c, and a
                // confirmed chunk with that offset can only be the chunking's
                // chunk at index k.
                assert(all.contains(cm[j as int]));
                let k2 = choose|i: int| 0 <= i < all.len() && all[i] == cm[j as int];
                assert(all[k2].offset == k2 * c);
                lemma_offset_identifies(c, k2, k as int);
                assert(cm[j as int] == all[k as int]);
            }
            let mut bytes = copy_bytes(&self.confirmed[j].bytes);
            out.append(&mut bytes);
            k = k + 1;
            proof {
                assert(all.take(k as int).drop_last() =~= all.take(k as int - 1));
                assert(all.take(k as int).last() == all[k as int - 1]);
                assert(out@ =~= concat_bytes(all.take(k as int)));
            }
        }
        proof {
            assert(all.take(n as int) =~= all);
        }
        out
    }
}

/// Finds a chunk with the given offset in a chunk list that is known to hold
/// one, returning its position.
fn find_by_offset(v: &Vec<Chunk>, target: u32) -> (j: usize)
    requires
        exists|i: int| 0 <= i < v@.len() && (#[trigger] v@[i]).offset == target,
    ensures
        j < v@.len(),
        v@[j as int].offset == target,
{
    let n = v.len();
    let mut j: usize = 0;
    while j < n
        invariant
            n == v@.len(),
            j <= n,
            exists|i: int| 0 <= i < v@.len() && (#[trigger] v@[i]).offset == target,
            forall|i: int| 0 <= i < j ==> (#[trigger] v@[i]).offset != target,
        decreases n - j,
    {
        if v[j].offset == target {
            return j;
        }
        j = j + 1;
    }
    proof {
        assert(false);
    }
    0
}

/// A completed session always carries the created account's public
/// identifier: the value the terminal event reported and the caller returns.
pub proof fn lemma_completed_has_account(s: UploadSession)
    requires
        s.inv(),
        s.spec_phase() is Completed,
    ensures
        s.spec_buffer() is Some,
{
}

/// A session whose creation transaction just confirmed still has every chunk
/// pending, and a non-empty payload has at least one chunk.
proof fn lemma_pending_nonempty(s: UploadSession)
    requires
        s.inv(),
        s.confirmed_model().len() == 0,
    ensures
        s.pending_model().len() > 0,
{
    lemma_batch_count_bounds(s.payload_model().len() as int, s.chunk_size_model());
}

/// The session identity: the payload, the chunk size and the batch ceiling
/// are fixed at construction and never change.
pub open spec fn same_identity(a: UploadSession, b: UploadSession) -> bool {
    &&& a.payload_model() == b.payload_model()
    &&& a.chunk_size_model() == b.chunk_size_model()
    &&& a.ceiling_model() == b.ceiling_model()
}

/// Liveness of one round: a poll whose statuses are all terminal success
/// leaves nothing pending, so the round that sees it completes the session.
pub proof fn lemma_all_confirmed_drains(cs: Seq<ChunkModel>, st: Seq<StatusClass>)
    requires
        cs.len() == st.len(),
        forall|i: int| 0 <= i < st.len() ==> is_terminal_success(#[trigger] st[i]),
    ensures
        filter_retry(cs, st).len() == 0,
        filter_done(cs, st) == cs,
    decreases cs.len(),
{
    if cs.len() == 0 {
        assert(filter_done(cs, st) =~= cs);
    } else {
        let cs0 = cs.drop_last();
        let st0 = st.take(cs.len() - 1);
        lemma_all_confirmed_drains(cs0, st0);
        assert(cs =~= cs0.push(cs.last()));
        assert(filter_done(cs, st) =~= cs);
    }
}

} // verus!
