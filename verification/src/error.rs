//! What can end a deployment before its program runs.

use crate::chunks::PlanError;
use vstd::prelude::*;

verus! {

/// The steps of a deployment that submit a transaction.
#[derive(Clone, Copy, Debug, PartialEq, Eq, Structural)]
pub enum Step {
    /// Creating and funding the staging buffer.
    CreateBuffer,
    /// Writing one chunk into the staging buffer.
    Write,
    /// Promoting the staging buffer into the program account.
    Finalize,
    /// Calling the deployed program once.
    Invoke,
}

/// Why a submitted transaction was not confirmed.
#[derive(Clone, Copy, Debug, PartialEq, Eq, Structural)]
pub enum Rejection {
    /// No confirmation came within the time the deployer waits for one.
    TimedOut,
    /// The transaction referred to a blockhash that had expired.
    StaleBlockhash,
    /// The payer's balance does not cover what the transaction costs.
    InsufficientFunds,
    /// A signature or an authority was not the one the ledger asked for.
    SignatureMismatch,
    /// Any other refusal.
    Other,
}

/// Why a finalization did not take place.
#[derive(Clone, Copy, Debug, PartialEq, Eq, Structural)]
pub enum FinalizeFault {
    /// Not every planned chunk is confirmed written: `confirmed` of `planned` are.
    IncompleteStaging { confirmed: usize, planned: usize },
    /// The ledger did not confirm the finalize transaction.
    Rejected { cause: Rejection, attempts: u32 },
}

/// Why a deployment ended without a running program.
#[allow(inconsistent_fields)]
#[derive(Clone, Debug, PartialEq, Eq)]
pub enum DeployError {
    /// The image could not be read from where it is kept. Nothing was sent to the ledger.
    LocalIo { message: String },
    /// The image is not bytecode that the runtime would load. Nothing was sent to the
    /// ledger.
    Verification { message: String },
    /// The image cannot be cut into writes. Nothing was sent to the ledger.
    Planning { cause: PlanError },
    /// The payer cannot fund the transaction of `step`; for a write, `offset` and `len`
    /// give the byte range that was in flight.
    Funding { step: Step, offset: u32, len: usize },
    /// The ledger did not confirm the transaction of `step` in the `attempts` submissions
    /// that were made of it; for a write, `offset` and `len` give the byte range that was
    /// in flight.
    NetworkTransient { step: Step, offset: u32, len: usize, attempts: u32, cause: Rejection },
    /// The staged bytes were not promoted into a program account. What is staged stays
    /// staged, and the finalization alone can be tried again.
    Finalization { fault: FinalizeFault },
}

} // verus!
