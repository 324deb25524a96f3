use iota_funds::consolidate::{aborts_run, next_stage, run_succeeded, start, KeyEvent, KeyOutcome, KeyStage};
use iota_funds::error::FlowError;
use iota_funds::output::{OutputRecord, UnlockCondition};

fn unlocked(amount: u64) -> OutputRecord {
    OutputRecord { amount, spent: false, booked_at: 1, conditions: vec![UnlockCondition::Address] }
}

#[test]
fn one_output_leads_to_a_single_send() {
    let now = 1_695_000_000;
    let mut s = start();
    s = next_stage(s, &KeyEvent::AddressDerived, now);
    assert_eq!(s, KeyStage::FetchOutputs);
    s = next_stage(s, &KeyEvent::OutputsFetched(vec![unlocked(5_000_000)]), now);
    assert_eq!(s, KeyStage::BuildOutput { amount: 5_000_000 });
    s = next_stage(s, &KeyEvent::OutputBuilt, now);
    assert_eq!(s, KeyStage::Submit { amount: 5_000_000 });
    s = next_stage(s, &KeyEvent::Submitted, now);
    assert_eq!(s, KeyStage::AwaitConfirmation);
    s = next_stage(s, &KeyEvent::Included, now);
    assert_eq!(s, KeyStage::Finished(KeyOutcome::Consolidated));
}

#[test]
fn nothing_spendable_builds_no_transaction() {
    let now = 1_000;
    let locked = OutputRecord {
        amount: 9,
        spent: false,
        booked_at: 1,
        conditions: vec![UnlockCondition::TimeLock(2_000)],
    };
    assert_eq!(
        next_stage(KeyStage::FetchOutputs, &KeyEvent::OutputsFetched(vec![]), now),
        KeyStage::Finished(KeyOutcome::NothingToSend)
    );
    assert_eq!(
        next_stage(KeyStage::FetchOutputs, &KeyEvent::OutputsFetched(vec![locked]), now),
        KeyStage::Finished(KeyOutcome::NothingToSend)
    );
}

#[test]
fn confirmation_timeout_fails_the_key_after_submission() {
    let s = next_stage(KeyStage::Submit { amount: 7 }, &KeyEvent::Submitted, 0);
    assert_eq!(s, KeyStage::AwaitConfirmation);
    let s = next_stage(s, &KeyEvent::RetriesExhausted, 0);
    assert_eq!(s, KeyStage::Finished(KeyOutcome::Failed(FlowError::ConfirmationTimeout)));
    assert!(!aborts_run(FlowError::ConfirmationTimeout));
}

#[test]
fn failures_at_each_stage() {
    assert_eq!(
        next_stage(KeyStage::DeriveAddress, &KeyEvent::KeyMalformed, 0),
        KeyStage::Finished(KeyOutcome::Failed(FlowError::KeyDecode))
    );
    assert_eq!(
        next_stage(KeyStage::FetchOutputs, &KeyEvent::NodeFailed, 0),
        KeyStage::Finished(KeyOutcome::Failed(FlowError::NodeUnavailable))
    );
    assert_eq!(
        next_stage(KeyStage::BuildOutput { amount: 1 }, &KeyEvent::OutputRejected, 0),
        KeyStage::Finished(KeyOutcome::Failed(FlowError::OutputConstruction))
    );
    assert_eq!(
        next_stage(KeyStage::Submit { amount: 1 }, &KeyEvent::SubmissionRejected, 0),
        KeyStage::Finished(KeyOutcome::Failed(FlowError::Submission))
    );
    assert_eq!(
        next_stage(
            KeyStage::FetchOutputs,
            &KeyEvent::OutputsFetched(vec![unlocked(u64::MAX), unlocked(1)]),
            0
        ),
        KeyStage::Finished(KeyOutcome::Failed(FlowError::AmountOverflow))
    );
}

#[test]
fn unrelated_event_keeps_stage() {
    assert_eq!(next_stage(KeyStage::DeriveAddress, &KeyEvent::Included, 0), KeyStage::DeriveAddress);
    let done = KeyStage::Finished(KeyOutcome::Consolidated);
    assert_eq!(next_stage(done, &KeyEvent::AddressDerived, 0), done);
}

#[test]
fn run_policy() {
    assert!(aborts_run(FlowError::KeyDecode));
    assert!(aborts_run(FlowError::NodeUnavailable));
    assert!(aborts_run(FlowError::RateUnavailable));
    assert!(!aborts_run(FlowError::Submission));
    assert!(!aborts_run(FlowError::OutputConstruction));
    assert!(run_succeeded(&vec![KeyOutcome::NothingToSend, KeyOutcome::Consolidated]));
    assert!(!run_succeeded(&vec![
        KeyOutcome::Consolidated,
        KeyOutcome::Failed(FlowError::Submission)
    ]));
    assert!(run_succeeded(&vec![]));
}
