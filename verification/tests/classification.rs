use lich::errors::PipelineError;
use lich::status::{classify_status, confirm_step, retry_eligible, ConfirmDecision, ConfirmationLevel, StatusClass};

#[test]
fn absent_status_is_unknown() {
    assert_eq!(classify_status(false, false, None), StatusClass::Unknown);
    assert_eq!(classify_status(false, true, Some(ConfirmationLevel::Finalized)), StatusClass::Unknown);
}

#[test]
fn error_field_wins_over_level() {
    assert_eq!(classify_status(true, true, None), StatusClass::Errored);
    assert_eq!(classify_status(true, true, Some(ConfirmationLevel::Confirmed)), StatusClass::Errored);
}

#[test]
fn status_without_level_is_unknown() {
    assert_eq!(classify_status(true, false, None), StatusClass::Unknown);
}

#[test]
fn levels_map_one_to_one() {
    assert_eq!(classify_status(true, false, Some(ConfirmationLevel::Processed)), StatusClass::Processed);
    assert_eq!(classify_status(true, false, Some(ConfirmationLevel::Confirmed)), StatusClass::Confirmed);
    assert_eq!(classify_status(true, false, Some(ConfirmationLevel::Finalized)), StatusClass::Finalized);
}

#[test]
fn only_confirmed_and_finalized_leave_the_retry_set() {
    assert!(retry_eligible(StatusClass::Unknown));
    assert!(retry_eligible(StatusClass::Processed));
    assert!(retry_eligible(StatusClass::Errored));
    assert!(!retry_eligible(StatusClass::Confirmed));
    assert!(!retry_eligible(StatusClass::Finalized));
}

#[test]
fn confirm_step_decides_per_class() {
    assert_eq!(confirm_step(StatusClass::Unknown), ConfirmDecision::KeepWaiting);
    assert_eq!(confirm_step(StatusClass::Processed), ConfirmDecision::KeepWaiting);
    assert_eq!(confirm_step(StatusClass::Confirmed), ConfirmDecision::Landed);
    assert_eq!(confirm_step(StatusClass::Finalized), ConfirmDecision::Landed);
    assert_eq!(confirm_step(StatusClass::Errored), ConfirmDecision::Rejected);
}

#[test]
fn only_a_failed_status_query_is_transient() {
    let fatal = [
        PipelineError::InvalidPayloadLength,
        PipelineError::FundingQueryFailed,
        PipelineError::ZeroFunding,
        PipelineError::AnchorFetchFailed,
        PipelineError::AccountCreationRejected,
        PipelineError::InstructionBuildFailed,
        PipelineError::SigningFailed,
        PipelineError::RpcTransportError,
    ];
    for e in fatal {
        assert!(e.is_fatal(), "{e:?}");
    }
    assert!(!PipelineError::StatusQueryFailed.is_fatal());
}
