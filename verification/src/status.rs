use vstd::prelude::*;

verus! {

/// A confirmation level the network can report for a transaction that has a
/// status and no error.
#[derive(Clone, Copy, Debug, PartialEq, Eq, Structural)]
pub enum ConfirmationLevel {
    Processed,
    Confirmed,
    Finalized,
}

/// How one signature is classified after a status poll. `Confirmed` and
/// `Finalized` are terminal success; `Errored` is terminal for the creation
/// transaction but retry-eligible for a chunk; `Unknown` and `Processed` are
/// always retry-eligible.
#[derive(Clone, Copy, Debug, PartialEq, Eq, Structural)]
pub enum StatusClass {
    Unknown,
    Processed,
    Confirmed,
    Finalized,
    Errored,
}

/// The classification rule: no status at all, or a status without a
/// confirmation level, is `Unknown`; a status carrying an error field is
/// `Errored`; otherwise the reported level is taken as is.
pub open spec fn spec_classify(
    present: bool,
    has_err: bool,
    level: Option<ConfirmationLevel>,
) -> StatusClass {
    if !present {
        StatusClass::Unknown
    } else if has_err {
        StatusClass::Errored
    } else {
        match level {
            Option::None => StatusClass::Unknown,
            Option::Some(ConfirmationLevel::Processed) => StatusClass::Processed,
            Option::Some(ConfirmationLevel::Confirmed) => StatusClass::Confirmed,
            Option::Some(ConfirmationLevel::Finalized) => StatusClass::Finalized,
        }
    }
}

/// Classify one polled signature from the three facts the network reports:
/// whether a status was present, whether it carried an error, and which
/// confirmation level it carried, if any.
pub fn classify_status(present: bool, has_err: bool, level: Option<ConfirmationLevel>) -> (r:
    StatusClass)
    ensures
        r == spec_classify(present, has_err, level),
{
    if !present {
        StatusClass::Unknown
    } else if has_err {
        StatusClass::Errored
    } else {
        match level {
            Option::None => StatusClass::Unknown,
            Option::Some(ConfirmationLevel::Processed) => StatusClass::Processed,
            Option::Some(ConfirmationLevel::Confirmed) => StatusClass::Confirmed,
            Option::Some(ConfirmationLevel::Finalized) => StatusClass::Finalized,
        }
    }
}

/// Terminal success: the network will not roll the transaction back.
pub open spec fn is_terminal_success(c: StatusClass) -> bool {
    c is Confirmed || c is Finalized
}

/// A chunk whose signature is not terminally successful — still unknown, only
/// processed, or errored — is re-signed and resubmitted in the next round.
pub open spec fn is_retry_eligible(c: StatusClass) -> bool {
    !is_terminal_success(c)
}

/// Whether a classified status leaves its chunk in the retry set.
pub fn retry_eligible(c: StatusClass) -> (r: bool)
    ensures
        r == is_retry_eligible(c),
{
    !matches!(c, StatusClass::Confirmed | StatusClass::Finalized)
}

/// The verdict for a transaction that is confirmed on its own, such as the
/// account-creation transaction: an error is immediately fatal there.
#[derive(Clone, Copy, Debug, PartialEq, Eq, Structural)]
pub enum ConfirmDecision {
    /// No status yet, or only `Processed`: poll again.
    KeepWaiting,
    /// `Confirmed` or `Finalized`: done.
    Landed,
    /// The network reported a transaction-level error: fatal.
    Rejected,
}

/// Decide, from one classified status, whether a singly-tracked transaction
/// has landed, must keep being polled, or was rejected by the network.
pub fn confirm_step(c: StatusClass) -> (r: ConfirmDecision)
    ensures
        r is Landed <==> is_terminal_success(c),
        r is Rejected <==> c is Errored,
        r is KeepWaiting <==> (c is Unknown || c is Processed),
{
    match c {
        StatusClass::Unknown => ConfirmDecision::KeepWaiting,
        StatusClass::Processed => ConfirmDecision::KeepWaiting,
        StatusClass::Confirmed => ConfirmDecision::Landed,
        StatusClass::Finalized => ConfirmDecision::Landed,
        StatusClass::Errored => ConfirmDecision::Rejected,
    }
}

} // verus!
