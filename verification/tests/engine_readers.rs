use mdk_cli::engine::{
    accepted_welcome, created_message, listed_groups, message_outcome, processed_welcome,
    EngineOutcome, EngineResult,
};
use mdk_core::messages::MessageProcessingResult;
use mdk_core::{Error, GroupId};
use nostr_sdk::{EventBuilder, Keys, Kind};

#[test]
fn engine_error_becomes_a_failure_with_its_text() {
    match message_outcome(Err(Error::GroupNotFound)) {
        EngineOutcome::Failed(reason) => assert_eq!(reason, Error::GroupNotFound.to_string()),
        EngineOutcome::Processed(_) => panic!("an error was read as a result"),
    }
    assert!(!Error::GroupNotFound.to_string().is_empty());
}

#[test]
fn engine_results_keep_their_variant() {
    let group = GroupId::from_slice(&[1, 2, 3]);
    assert!(matches!(
        message_outcome(Ok(MessageProcessingResult::PreviouslyFailed)),
        EngineOutcome::Processed(EngineResult::PreviouslyFailed)
    ));
    assert!(matches!(
        message_outcome(Ok(MessageProcessingResult::Commit { mls_group_id: group.clone() })),
        EngineOutcome::Processed(EngineResult::Commit)
    ));
    assert!(matches!(
        message_outcome(Ok(MessageProcessingResult::Unprocessable { mls_group_id: group.clone() })),
        EngineOutcome::Processed(EngineResult::Unprocessable)
    ));
    assert!(matches!(
        message_outcome(Ok(MessageProcessingResult::PendingProposal {
            mls_group_id: group.clone()
        })),
        EngineOutcome::Processed(EngineResult::PendingProposal)
    ));
    assert!(matches!(
        message_outcome(Ok(MessageProcessingResult::ExternalJoinProposal {
            mls_group_id: group.clone()
        })),
        EngineOutcome::Processed(EngineResult::ExternalJoinProposal)
    ));
    assert!(matches!(
        message_outcome(Ok(MessageProcessingResult::IgnoredProposal {
            mls_group_id: group,
            reason: "unsupported".to_string()
        })),
        EngineOutcome::Processed(EngineResult::IgnoredProposal)
    ));
}

#[test]
fn accepting_succeeds_where_the_engine_did() {
    assert_eq!(accepted_welcome(Ok(())), Ok(()));
    assert_eq!(accepted_welcome(Err(Error::GroupNotFound)), Err(Error::GroupNotFound.to_string()));
}

#[test]
fn created_message_is_handed_on_as_it_is() {
    let signed = EventBuilder::new(Kind::Custom(445), "x").sign_with_keys(&Keys::generate()).unwrap();
    assert_eq!(created_message(Ok(signed.clone())), Ok(signed));
    assert_eq!(created_message(Err(Error::GroupNotFound)), Err(Error::GroupNotFound.to_string()));
}

#[test]
fn listed_groups_follow_the_engine() {
    let listed = listed_groups(Ok(Vec::new())).ok().unwrap();
    assert!(listed.is_empty());
    assert_eq!(listed_groups(Err(Error::GroupNotFound)).err(), Some(Error::GroupNotFound.to_string()));
}

#[test]
fn welcome_that_was_not_processed_gives_the_error() {
    let read = processed_welcome(&[7; 32], Err(Error::InvalidWelcomeMessage));
    assert_eq!(read.err(), Some(Error::InvalidWelcomeMessage.to_string()));
}
