use vstd::prelude::*;

use crate::aggregate::{consolidation_total, spendable_total};
use crate::error::FlowError;
use crate::output::OutputRecord;

verus! {

/// How the work on one key ended.
#[derive(Clone, Copy, Debug, PartialEq, Eq, Structural)]
pub enum KeyOutcome {
    /// The key had nothing spendable; no transaction was built.
    NothingToSend,
    /// All spendable value was sent and the transaction was included.
    Consolidated,
    Failed(FlowError),
}

/// Where the consolidation of one key stands; each stage names the work
/// to do next.
#[derive(Clone, Copy, Debug, PartialEq, Eq, Structural)]
pub enum KeyStage {
    /// Derive the key's first address.
    DeriveAddress,
    /// Look up the address's outputs.
    FetchOutputs,
    /// Build one output of `amount` for the recipient.
    BuildOutput { amount: u64 },
    /// Submit the transaction that moves `amount` into the new output.
    Submit { amount: u64 },
    /// Wait until the submitted transaction is included.
    AwaitConfirmation,
    Finished(KeyOutcome),
}

/// What came of the work that a stage named.
#[derive(Clone, Debug)]
pub enum KeyEvent {
    AddressDerived,
    KeyMalformed,
    /// The address's outputs, with their metadata.
    OutputsFetched(Vec<OutputRecord>),
    NodeFailed,
    OutputBuilt,
    /// The amount is below what the protocol lets an output hold.
    OutputRejected,
    Submitted,
    SubmissionRejected,
    Included,
    /// The transaction was not included within the retry budget.
    RetriesExhausted,
}

/// The stage after `stage` once `event` has come, all decisions made at
/// the reference time `now`. An event that does not answer the stage's
/// work leaves the stage as it is.
pub open spec fn next_stage_of(stage: KeyStage, event: KeyEvent, now: u32) -> KeyStage {
    match (stage, event) {
        (KeyStage::DeriveAddress, KeyEvent::AddressDerived) => KeyStage::FetchOutputs,
        (KeyStage::DeriveAddress, KeyEvent::KeyMalformed) => KeyStage::Finished(
            KeyOutcome::Failed(FlowError::KeyDecode),
        ),
        (KeyStage::DeriveAddress, KeyEvent::NodeFailed) => KeyStage::Finished(
            KeyOutcome::Failed(FlowError::NodeUnavailable),
        ),
        (KeyStage::FetchOutputs, KeyEvent::OutputsFetched(outputs)) => {
            let total = consolidation_total(outputs@, now);
            if total > u64::MAX {
                KeyStage::Finished(KeyOutcome::Failed(FlowError::AmountOverflow))
            } else if total == 0 {
                KeyStage::Finished(KeyOutcome::NothingToSend)
            } else {
                KeyStage::BuildOutput { amount: total as u64 }
            }
        },
        (KeyStage::FetchOutputs, KeyEvent::NodeFailed) => KeyStage::Finished(
            KeyOutcome::Failed(FlowError::NodeUnavailable),
        ),
        (KeyStage::BuildOutput { amount }, KeyEvent::OutputBuilt) => KeyStage::Submit { amount },
        (KeyStage::BuildOutput { .. }, KeyEvent::OutputRejected) => KeyStage::Finished(
            KeyOutcome::Failed(FlowError::OutputConstruction),
        ),
        (KeyStage::Submit { .. }, KeyEvent::Submitted) => KeyStage::AwaitConfirmation,
        (KeyStage::Submit { .. }, KeyEvent::SubmissionRejected) => KeyStage::Finished(
            KeyOutcome::Failed(FlowError::Submission),
        ),
        (KeyStage::AwaitConfirmation, KeyEvent::Included) => KeyStage::Finished(
            KeyOutcome::Consolidated,
        ),
        (KeyStage::AwaitConfirmation, KeyEvent::RetriesExhausted) => KeyStage::Finished(
            KeyOutcome::Failed(FlowError::ConfirmationTimeout),
        ),
        _ => stage,
    }
}

/// The first stage of every key.
pub fn start() -> (r: KeyStage)
    ensures
        r == KeyStage::DeriveAddress,
{
    KeyStage::DeriveAddress
}

/// Advances the consolidation of one key by one event.
pub fn next_stage(stage: KeyStage, event: &KeyEvent, now: u32) -> (r: KeyStage)
    ensures
        r == next_stage_of(stage, *event, now),
{
    match (stage, event) {
        (KeyStage::DeriveAddress, KeyEvent::AddressDerived) => KeyStage::FetchOutputs,
        (KeyStage::DeriveAddress, KeyEvent::KeyMalformed) => KeyStage::Finished(
            KeyOutcome::Failed(FlowError::KeyDecode),
        ),
        (KeyStage::DeriveAddress, KeyEvent::NodeFailed) => KeyStage::Finished(
            KeyOutcome::Failed(FlowError::NodeUnavailable),
        ),
        (KeyStage::FetchOutputs, KeyEvent::OutputsFetched(outputs)) => {
            match spendable_total(outputs, now) {
                None => KeyStage::Finished(KeyOutcome::Failed(FlowError::AmountOverflow)),
                Some(0) => KeyStage::Finished(KeyOutcome::NothingToSend),
                Some(total) => KeyStage::BuildOutput { amount: total },
            }
        },
        (KeyStage::FetchOutputs, KeyEvent::NodeFailed) => KeyStage::Finished(
            KeyOutcome::Failed(FlowError::NodeUnavailable),
        ),
        (KeyStage::BuildOutput { amount }, KeyEvent::OutputBuilt) => KeyStage::Submit { amount },
        (KeyStage::BuildOutput { .. }, KeyEvent::OutputRejected) => KeyStage::Finished(
            KeyOutcome::Failed(FlowError::OutputConstruction),
        ),
        (KeyStage::Submit { .. }, KeyEvent::Submitted) => KeyStage::AwaitConfirmation,
        (KeyStage::Submit { .. }, KeyEvent::SubmissionRejected) => KeyStage::Finished(
            KeyOutcome::Failed(FlowError::Submission),
        ),
        (KeyStage::AwaitConfirmation, KeyEvent::Included) => KeyStage::Finished(
            KeyOutcome::Consolidated,
        ),
        (KeyStage::AwaitConfirmation, KeyEvent::RetriesExhausted) => KeyStage::Finished(
            KeyOutcome::Failed(FlowError::ConfirmationTimeout),
        ),
        _ => stage,
    }
}

/// Whether a failure stops the whole run. Failures of the client or of
/// the key material do; a failure in building, submitting or confirming a
/// key's transaction ends only that key's work.
pub open spec fn aborts_run_spec(e: FlowError) -> bool {
    e is KeyDecode || e is NodeUnavailable || e is AmountOverflow || e is InvalidTimestamp
        || e is RateUnavailable
}

/// Whether a failure stops the whole run (see `aborts_run_spec`).
pub fn aborts_run(e: FlowError) -> (r: bool)
    ensures
        r == aborts_run_spec(e),
{
    match e {
        FlowError::KeyDecode
        | FlowError::NodeUnavailable
        | FlowError::AmountOverflow
        | FlowError::InvalidTimestamp
        | FlowError::RateUnavailable => true,
        FlowError::OutputConstruction
        | FlowError::Submission
        | FlowError::ConfirmationTimeout => false,
    }
}

/// A run succeeds where no key's work failed.
pub fn run_succeeded(outcomes: &Vec<KeyOutcome>) -> (r: bool)
    ensures
        r == forall|i: int| 0 <= i < outcomes@.len() ==> !(outcomes@[i] is Failed),
{
    let mut i: usize = 0;
    while i < outcomes.len()
        invariant
            0 <= i <= outcomes@.len(),
            forall|j: int| 0 <= j < i ==> !(outcomes@[j] is Failed),
        decreases outcomes@.len() - i,
    {
        match outcomes[i] {
            KeyOutcome::Failed(_) => {
                return false;
            },
            _ => {},
        }
        i = i + 1;
    }
    true
}

} // verus!
