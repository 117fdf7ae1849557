use vstd::prelude::*;

verus! {

/// The pipeline's error taxonomy. Every variant is either fatal (the upload
/// session aborts at once) or transient (only the current polling round is
/// retried); the split is decided here, once, rather than at each call site.
#[derive(Clone, Copy, Debug, PartialEq, Eq, Structural)]
pub enum PipelineError {
    /// The payload is empty; rejected before any network request is issued.
    InvalidPayloadLength,
    /// The minimum-funding query could not be answered by the network.
    FundingQueryFailed,
    /// The network reported a funding requirement of zero, which signals a
    /// silently failed query, not a free account.
    ZeroFunding,
    /// A validity anchor could not be fetched.
    AnchorFetchFailed,
    /// The network reported a transaction-level error on the account-creation
    /// transaction; never retried.
    AccountCreationRejected,
    /// An instruction list for a transaction could not be built.
    InstructionBuildFailed,
    /// A transaction could not be signed by the authority.
    SigningFailed,
    /// A status query failed; the round is polled again.
    StatusQueryFailed,
    /// A lower-level network transport failure.
    RpcTransportError,
}

impl PipelineError {
    /// A fatal error aborts the session; a transient one retries the round.
    /// Only a failed status query is transient.
    pub open spec fn spec_is_fatal(self) -> bool {
        !(self is StatusQueryFailed)
    }

    pub fn is_fatal(&self) -> (r: bool)
        ensures
            r == self.spec_is_fatal(),
    {
        !matches!(self, PipelineError::StatusQueryFailed)
    }
}

} // verus!
