//! The deployment as a state machine: which transaction comes next, and what follows from
//! the ledger's answer to it. The machine submits nothing itself. It hands out one request
//! at a time and is told how that request ended.

use crate::chunks::{
    chunk_bytes, chunk_payload, lemma_chunk_bounds, plannable, planned_chunks, Chunk,
    ChunkPlan, PlanError,
};
use crate::error::{DeployError, FinalizeFault, Rejection, Step};
use crate::image::{load_image, loader_accepts, VerifiedImage};
use crate::staging::{
    lemma_staged_image_is_complete, program_account_size, program_data_len, stage, staging_capacity,
    PROGRAM_ACCOUNT_LEN,
};
use vstd::prelude::*;

verus! {

/// How a deployment retries and whether it calls the program once it is deployed.
#[derive(Clone, Copy, Debug, PartialEq, Eq, Structural)]
pub struct DeployConfig {
    /// Submissions allowed of one transaction before the deployment gives up; 0 counts as 1.
    pub max_attempts: u32,
    /// Transactions that may refer to one blockhash before a new one is fetched; 0 counts
    /// as 1.
    pub writes_per_blockhash: u32,
    /// Whether the program is called once after it is deployed.
    pub invoke_after_deploy: bool,
}

/// Where a deployment stands.
#[derive(Clone, Copy, Debug, PartialEq, Eq, Structural)]
pub enum Phase {
    /// The transaction that creates the staging buffer is in flight.
    CreatingBuffer,
    /// The write of the next unconfirmed chunk is in flight.
    Writing,
    /// The finalize transaction is in flight.
    Finalizing,
    /// The call of the deployed program is in flight.
    Invoking,
    /// The program is deployed.
    Done,
    /// The deployment gave up; it can be resumed at the step that failed.
    Failed,
}

/// How the request that was handed out last ended.
#[derive(Clone, Copy, Debug, PartialEq, Eq, Structural)]
pub enum Event {
    /// The ledger confirmed the transaction.
    Confirmed,
    /// The ledger did not confirm it.
    Failed(Rejection),
}

/// What the caller is asked to do next. `fresh_blockhash` says that a new blockhash must
/// be fetched before the transaction is signed.
#[derive(Debug, PartialEq, Eq)]
pub enum Action {
    /// Create the staging buffer for `program_len` program bytes, funded for an account
    /// of `capacity` bytes, signed by the payer and the buffer's key.
    CreateBuffer { capacity: usize, program_len: usize, fresh_blockhash: bool },
    /// Write `payload` at `offset` into the staging buffer, signed by the payer.
    Write { offset: u32, payload: Vec<u8>, fresh_blockhash: bool },
    /// Promote the staging buffer into the program account, funded for an account of
    /// `program_account_size` bytes, with room for `content_len` program bytes, signed by
    /// the payer and by the program's own key.
    Finalize { program_account_size: usize, content_len: usize, fresh_blockhash: bool },
    /// Call the deployed program once.
    Invoke { fresh_blockhash: bool },
    /// Nothing is left to do: the program account holds `content_len` bytes and runs.
    Finish { content_len: usize },
    /// The deployment gave up.
    Abort { error: DeployError },
}

/// An `Action`, with its payload as a sequence.
pub enum ActionView {
    CreateBuffer { capacity: nat, program_len: nat, fresh_blockhash: bool },
    Write { offset: u32, payload: Seq<u8>, fresh_blockhash: bool },
    Finalize { program_account_size: nat, content_len: nat, fresh_blockhash: bool },
    Invoke { fresh_blockhash: bool },
    Finish { content_len: nat },
    Abort { error: DeployError },
}

impl View for Action {
    type V = ActionView;

    open spec fn view(&self) -> ActionView {
        match *self {
            Action::CreateBuffer { capacity, program_len, fresh_blockhash } => ActionView::CreateBuffer {
                capacity: capacity as nat,
                program_len: program_len as nat,
                fresh_blockhash,
            },
            Action::Write { offset, payload, fresh_blockhash } => ActionView::Write {
                offset,
                payload: payload@,
                fresh_blockhash,
            },
            Action::Finalize { program_account_size, content_len, fresh_blockhash } => ActionView::Finalize {
                program_account_size: program_account_size as nat,
                content_len: content_len as nat,
                fresh_blockhash,
            },
            Action::Invoke { fresh_blockhash } => ActionView::Invoke { fresh_blockhash },
            Action::Finish { content_len } => ActionView::Finish { content_len: content_len as nat },
            Action::Abort { error } => ActionView::Abort { error },
        }
    }
}

/// The step of a phase that has a transaction in flight.
pub open spec fn step_of(phase: Phase) -> Step {
    match phase {
        Phase::CreatingBuffer => Step::CreateBuffer,
        Phase::Writing => Step::Write,
        Phase::Finalizing => Step::Finalize,
        _ => Step::Invoke,
    }
}

/// Whether a transaction that ended with `cause` is submitted again. A write is retried
/// whatever refused it, unless the payer is out of funds. Creating the buffer and calling
/// the program are retried after a timeout or a stale blockhash. A finalization is
/// retried after a timeout only: every refusal of it is final.
pub open spec fn retryable(phase: Phase, cause: Rejection) -> bool {
    match phase {
        Phase::CreatingBuffer | Phase::Invoking => cause == Rejection::TimedOut || cause
            == Rejection::StaleBlockhash,
        Phase::Writing => cause != Rejection::InsufficientFunds,
        Phase::Finalizing => cause == Rejection::TimedOut,
        _ => false,
    }
}

/// Whether `phase` has a transaction in flight.
pub open spec fn in_flight(phase: Phase) -> bool {
    phase != Phase::Done && phase != Phase::Failed
}

/// A deployment, as contracts speak of it.
pub struct DeploymentView {
    pub image: Seq<u8>,
    pub chunk_size: nat,
    pub max_attempts: nat,
    pub writes_per_blockhash: nat,
    pub invoke_after_deploy: bool,
    pub phase: Phase,
    /// Chunks confirmed written: the first `confirmed` of the plan.
    pub confirmed: nat,
    /// Submissions made of the transaction in flight.
    pub attempts: nat,
    /// Transactions signed with the blockhash in use.
    pub uses: nat,
    /// For a failed deployment, the phase it failed in.
    pub halted_at: Phase,
    /// For a failed deployment, how its last transaction ended.
    pub cause: Rejection,
}

impl DeploymentView {
    /// The planned chunks.
    pub open spec fn chunks(self) -> Seq<Chunk> {
        planned_chunks(self.image.len(), self.chunk_size)
    }

    /// What holds of every deployment: no more chunks are confirmed than are planned,
    /// none is confirmed before the buffer exists, a write is in flight only while chunks
    /// are left, and nothing past the writes is reached before every chunk is confirmed.
    pub open spec fn wf(self) -> bool {
        let active = if self.phase == Phase::Failed {
            self.halted_at
        } else {
            self.phase
        };
        &&& plannable(self.image.len(), self.chunk_size)
        &&& self.chunk_size <= usize::MAX
        &&& self.confirmed <= self.chunks().len()
        &&& 1 <= self.max_attempts <= u32::MAX
        &&& 1 <= self.writes_per_blockhash <= u32::MAX
        &&& self.uses <= u32::MAX
        &&& (self.phase == Phase::Failed ==> in_flight(self.halted_at))
        &&& (in_flight(active) ==> 1 <= self.attempts <= self.max_attempts)
        &&& (active == Phase::CreatingBuffer ==> self.confirmed == 0)
        &&& (active == Phase::Writing ==> self.confirmed < self.chunks().len())
        &&& (active == Phase::Finalizing || active == Phase::Invoking || active == Phase::Done
            ==> self.confirmed == self.chunks().len())
    }

    /// The byte range in flight: that of the next unconfirmed chunk during the writes.
    pub open spec fn range_in_flight(self, phase: Phase) -> Chunk {
        if phase == Phase::Writing {
            self.chunks()[self.confirmed as int]
        } else {
            Chunk { offset: 0, len: 0 }
        }
    }

    /// The error of a deployment that failed.
    pub open spec fn failure(self) -> DeployError {
        let range = self.range_in_flight(self.halted_at);
        if self.halted_at == Phase::Finalizing {
            DeployError::Finalization {
                fault: FinalizeFault::Rejected { cause: self.cause, attempts: self.attempts as u32 },
            }
        } else if self.cause == Rejection::InsufficientFunds {
            DeployError::Funding {
                step: step_of(self.halted_at),
                offset: range.offset,
                len: range.len,
            }
        } else {
            DeployError::NetworkTransient {
                step: step_of(self.halted_at),
                offset: range.offset,
                len: range.len,
                attempts: self.attempts as u32,
                cause: self.cause,
            }
        }
    }

    /// What a deployment in this state asks for.
    pub open spec fn request(self, fresh_blockhash: bool) -> ActionView {
        match self.phase {
            Phase::CreatingBuffer => ActionView::CreateBuffer {
                capacity: program_data_len(self.image.len()),
                program_len: self.image.len(),
                fresh_blockhash,
            },
            Phase::Writing => ActionView::Write {
                offset: self.chunks()[self.confirmed as int].offset,
                payload: chunk_bytes(self.image, self.chunks()[self.confirmed as int]),
                fresh_blockhash,
            },
            Phase::Finalizing => ActionView::Finalize {
                program_account_size: PROGRAM_ACCOUNT_LEN as nat,
                content_len: self.image.len(),
                fresh_blockhash,
            },
            Phase::Invoking => ActionView::Invoke { fresh_blockhash },
            Phase::Done => ActionView::Finish { content_len: self.image.len() },
            Phase::Failed => ActionView::Abort { error: self.failure() },
        }
    }

    /// The state with a transaction of `phase` handed out, and whether it needs a new
    /// blockhash: it does on a retry, when the blockhash in use has aged, and when that
    /// blockhash has served as many transactions as one may.
    pub open spec fn submit(self, phase: Phase, confirmed: nat, attempts: nat, renew: bool) -> (
        DeploymentView,
        bool,
    ) {
        let fresh = renew || self.uses == 0 || self.uses >= self.writes_per_blockhash;
        let uses = if fresh {
            1
        } else {
            self.uses + 1
        };
        (DeploymentView { phase, confirmed, attempts, uses: uses as nat, ..self }, fresh)
    }

    /// The phase that follows a confirmation.
    pub open spec fn phase_after_confirmation(self) -> Phase {
        match self.phase {
            Phase::CreatingBuffer => if self.chunks().len() == 0 {
                Phase::Finalizing
            } else {
                Phase::Writing
            },
            Phase::Writing => if self.confirmed + 1 == self.chunks().len() {
                Phase::Finalizing
            } else {
                Phase::Writing
            },
            Phase::Finalizing => if self.invoke_after_deploy {
                Phase::Invoking
            } else {
                Phase::Done
            },
            _ => Phase::Done,
        }
    }

    /// The state after `event`, and whether the next transaction needs a new blockhash.
    /// A deployment that is done or has failed stays as it is.
    pub open spec fn next(self, event: Event, blockhash_aged: bool) -> (DeploymentView, bool) {
        if !in_flight(self.phase) {
            (self, false)
        } else {
            match event {
                Event::Confirmed => {
                    let confirmed = if self.phase == Phase::Writing {
                        self.confirmed + 1
                    } else {
                        self.confirmed
                    };
                    let phase = self.phase_after_confirmation();
                    if phase == Phase::Done {
                        (DeploymentView { phase, ..self }, false)
                    } else {
                        self.submit(phase, confirmed as nat, 1, blockhash_aged)
                    }
                },
                Event::Failed(cause) => {
                    if retryable(self.phase, cause) && self.attempts < self.max_attempts {
                        self.submit(self.phase, self.confirmed, self.attempts + 1, true)
                    } else {
                        (
                            DeploymentView {
                                phase: Phase::Failed,
                                halted_at: self.phase,
                                cause,
                                ..self
                            },
                            false,
                        )
                    }
                },
            }
        }
    }

    /// The state after a failed deployment is resumed: the step that failed is tried
    /// again, with its attempts counted anew and a new blockhash.
    pub open spec fn resumed(self) -> (DeploymentView, bool) {
        if self.phase == Phase::Failed {
            self.submit(self.halted_at, self.confirmed, 1, true)
        } else {
            (self, false)
        }
    }
}

/// Every step keeps a deployment well formed.
pub proof fn lemma_next_is_well_formed(state: DeploymentView, event: Event, blockhash_aged: bool)
    requires
        state.wf(),
    ensures
        state.next(event, blockhash_aged).0.wf(),
        state.resumed().0.wf(),
        state.next(event, blockhash_aged).0.image == state.image,
        state.next(event, blockhash_aged).0.confirmed >= state.confirmed,
{
}

/// Nothing is lost in silence: the count of confirmed chunks grows only when the ledger
/// confirms a write, and then by one; after a write that was not confirmed, the same
/// chunk is asked for again or the deployment has failed.
pub proof fn lemma_writes_are_never_skipped(state: DeploymentView, event: Event, blockhash_aged: bool)
    requires
        state.wf(),
    ensures
        ({
            let (after, fresh) = state.next(event, blockhash_aged);
            &&& after.confirmed == state.confirmed + 1 <==> state.phase == Phase::Writing && event
                == Event::Confirmed
            &&& after.confirmed != state.confirmed + 1 ==> after.confirmed == state.confirmed
            &&& state.phase == Phase::Writing && event != Event::Confirmed ==> after.phase
                == Phase::Failed || (after.phase == Phase::Writing && fresh && after.request(fresh)
                == (ActionView::Write {
                offset: state.chunks()[state.confirmed as int].offset,
                payload: chunk_bytes(state.image, state.chunks()[state.confirmed as int]),
                fresh_blockhash: true,
            }))
        }),
{
}

/// A finalization is asked for only when every planned chunk is confirmed, and then the
/// staged bytes are the image, whatever the staging buffer held when it was created.
pub proof fn lemma_finalize_follows_complete_staging(state: DeploymentView, initial: Seq<u8>)
    requires
        state.wf(),
        state.phase == Phase::Finalizing || state.phase == Phase::Invoking || state.phase
            == Phase::Done,
        initial.len() == state.image.len(),
    ensures
        state.confirmed == state.chunks().len(),
        stage(initial, state.image, state.chunks(), state.confirmed) == state.image,
{
    lemma_staged_image_is_complete(initial, state.image, state.chunk_size);
}

/// One deployment: the image, its plan and how far the ledger has confirmed it.
#[derive(Debug)]
pub struct Deployment {
    image: VerifiedImage,
    plan: ChunkPlan,
    config: DeployConfig,
    phase: Phase,
    confirmed: usize,
    attempts: u32,
    uses: u32,
    halted_at: Phase,
    cause: Rejection,
}

impl View for Deployment {
    type V = DeploymentView;

    closed spec fn view(&self) -> DeploymentView {
        DeploymentView {
            image: self.image@,
            chunk_size: self.plan.spec_chunk_size(),
            max_attempts: self.config.max_attempts as nat,
            writes_per_blockhash: self.config.writes_per_blockhash as nat,
            invoke_after_deploy: self.config.invoke_after_deploy,
            phase: self.phase,
            confirmed: self.confirmed as nat,
            attempts: self.attempts as nat,
            uses: self.uses as nat,
            halted_at: self.halted_at,
            cause: self.cause,
        }
    }
}

/// The configuration with each zero count raised to 1.
pub open spec fn effective(config: DeployConfig) -> DeployConfig {
    DeployConfig {
        max_attempts: if config.max_attempts == 0 {
            1
        } else {
            config.max_attempts
        },
        writes_per_blockhash: if config.writes_per_blockhash == 0 {
            1
        } else {
            config.writes_per_blockhash
        },
        invoke_after_deploy: config.invoke_after_deploy,
    }
}

/// The state in which a deployment begins: the transaction that creates the buffer is in
/// flight for the first time, with a new blockhash.
pub open spec fn initial_state(image: Seq<u8>, chunk_size: nat, config: DeployConfig) -> DeploymentView {
    DeploymentView {
        image,
        chunk_size,
        max_attempts: effective(config).max_attempts as nat,
        writes_per_blockhash: effective(config).writes_per_blockhash as nat,
        invoke_after_deploy: config.invoke_after_deploy,
        phase: Phase::CreatingBuffer,
        confirmed: 0,
        attempts: 1,
        uses: 1,
        halted_at: Phase::CreatingBuffer,
        cause: Rejection::Other,
    }
}

impl Deployment {
    #[verifier::type_invariant]
    spec fn inv(self) -> bool {
        &&& self@.wf()
        &&& self.plan.spec_image_len() == self.image@.len()
        &&& self.plan@ == self@.chunks()
    }

    /// Begins the deployment of `image`, written `chunk_size` bytes at a time, and asks
    /// for the staging buffer to be created. An image that cannot be cut into writes is
    /// refused before anything is asked of the ledger.
    pub fn begin(image: VerifiedImage, chunk_size: usize, config: DeployConfig) -> (r: Result<
        (Deployment, Action),
        DeployError,
    >)
        ensures
            r is Ok <==> plannable(image@.len(), chunk_size as nat),
            r matches Ok((deployment, action)) ==> deployment@ == initial_state(
                image@,
                chunk_size as nat,
                config,
            ) && deployment@.wf() && action@ == deployment@.request(true),
            r matches Err(e) ==> e == (DeployError::Planning {
                cause: if image@.len() > u32::MAX {
                    PlanError::ImageTooLarge
                } else {
                    PlanError::ZeroChunkSize
                },
            }),
    {
        let plan = match ChunkPlan::new(image.len(), chunk_size) {
            Ok(plan) => plan,
            Err(cause) => {
                return Err(DeployError::Planning { cause });
            },
        };
        let config = DeployConfig {
            max_attempts: if config.max_attempts == 0 {
                1
            } else {
                config.max_attempts
            },
            writes_per_blockhash: if config.writes_per_blockhash == 0 {
                1
            } else {
                config.writes_per_blockhash
            },
            invoke_after_deploy: config.invoke_after_deploy,
        };
        let deployment = Deployment {
            image,
            plan,
            config,
            phase: Phase::CreatingBuffer,
            confirmed: 0,
            attempts: 1,
            uses: 1,
            halted_at: Phase::CreatingBuffer,
            cause: Rejection::Other,
        };
        let action = deployment.request(true);
        Ok((deployment, action))
    }

    /// Where the deployment stands.
    pub fn phase(&self) -> (r: Phase)
        ensures
            r == self@.phase,
            self@.wf(),
    {
        proof {
            use_type_invariant(self);
        }
        self.phase
    }

    /// Number of chunks that are confirmed written.
    pub fn confirmed_chunks(&self) -> (r: usize)
        ensures
            r == self@.confirmed,
    {
        self.confirmed
    }

    /// Number of chunks that the image is written in.
    pub fn planned_chunks(&self) -> (r: usize)
        ensures
            r == self@.chunks().len(),
    {
        proof {
            use_type_invariant(self);
        }
        self.plan.count()
    }

    /// The error of a deployment that failed; `None` while it has not.
    pub fn error(&self) -> (r: Option<DeployError>)
        ensures
            r == (if self@.phase == Phase::Failed {
                Some(self@.failure())
            } else {
                None
            }),
    {
        proof {
            use_type_invariant(self);
        }
        if self.phase == Phase::Failed {
            Some(self.failure())
        } else {
            None
        }
    }

    fn range_in_flight(&self, phase: Phase) -> (r: Chunk)
        requires
            phase == Phase::Writing ==> self@.confirmed < self@.chunks().len(),
        ensures
            r == self@.range_in_flight(phase),
    {
        proof {
            use_type_invariant(self);
        }
        if phase == Phase::Writing {
            match self.plan.chunk(self.confirmed) {
                Some(chunk) => chunk,
                None => Chunk { offset: 0, len: 0 },
            }
        } else {
            Chunk { offset: 0, len: 0 }
        }
    }

    fn failure(&self) -> (r: DeployError)
        requires
            self@.phase == Phase::Failed,
        ensures
            r == self@.failure(),
    {
        proof {
            use_type_invariant(self);
        }
        let range = self.range_in_flight(self.halted_at);
        let step = match self.halted_at {
            Phase::CreatingBuffer => Step::CreateBuffer,
            Phase::Writing => Step::Write,
            Phase::Finalizing => Step::Finalize,
            _ => Step::Invoke,
        };
        if self.halted_at == Phase::Finalizing {
            DeployError::Finalization {
                fault: FinalizeFault::Rejected { cause: self.cause, attempts: self.attempts },
            }
        } else if self.cause == Rejection::InsufficientFunds {
            DeployError::Funding { step, offset: range.offset, len: range.len }
        } else {
            DeployError::NetworkTransient {
                step,
                offset: range.offset,
                len: range.len,
                attempts: self.attempts,
                cause: self.cause,
            }
        }
    }

    /// What the deployment asks for as it stands.
    fn request(&self, fresh_blockhash: bool) -> (r: Action)
        ensures
            r@ == self@.request(fresh_blockhash),
    {
        proof {
            use_type_invariant(self);
        }
        match self.phase {
            Phase::CreatingBuffer => Action::CreateBuffer {
                capacity: staging_capacity(self.image.len()),
                program_len: self.image.len(),
                fresh_blockhash,
            },
            Phase::Writing => {
                proof {
                    lemma_chunk_bounds(
                        self@.image.len(),
                        self@.chunk_size,
                        self.confirmed as nat,
                    );
                }
                let chunk = self.range_in_flight(Phase::Writing);
                let payload = match chunk_payload(self.image.bytes(), chunk) {
                    Some(payload) => payload,
                    None => Vec::new(),
                };
                Action::Write { offset: chunk.offset, payload, fresh_blockhash }
            },
            Phase::Finalizing => Action::Finalize {
                program_account_size: program_account_size(),
                content_len: self.image.len(),
                fresh_blockhash,
            },
            Phase::Invoking => Action::Invoke { fresh_blockhash },
            Phase::Done => Action::Finish { content_len: self.image.len() },
            Phase::Failed => Action::Abort { error: self.failure() },
        }
    }

    fn submit(self, phase: Phase, confirmed: usize, attempts: u32, renew: bool) -> (r: (
        Deployment,
        Action,
    ))
        requires
            self@.submit(phase, confirmed as nat, attempts as nat, renew).0.wf(),
        ensures
            r.0@ == self@.submit(phase, confirmed as nat, attempts as nat, renew).0,
            r.1@ == r.0@.request(self@.submit(phase, confirmed as nat, attempts as nat, renew).1),
            r.0@.wf(),
    {
        proof {
            use_type_invariant(&self);
        }
        let fresh = renew || self.uses == 0 || self.uses >= self.config.writes_per_blockhash;
        let uses: u32 = if fresh {
            1
        } else {
            self.uses + 1
        };
        let next = Deployment {
            image: self.image,
            plan: self.plan,
            config: self.config,
            phase,
            confirmed,
            attempts,
            uses,
            halted_at: self.halted_at,
            cause: self.cause,
        };
        let action = next.request(fresh);
        (next, action)
    }

    /// Takes in how the request that was handed out last ended, and hands out the next
    /// one. `blockhash_aged` tells that the blockhash in use is older than the ledger
    /// accepts, so that the next transaction needs a new one.
    pub fn step(self, event: Event, blockhash_aged: bool) -> (r: (Deployment, Action))
        ensures
            r.0@ == self@.next(event, blockhash_aged).0,
            r.1@ == r.0@.request(self@.next(event, blockhash_aged).1),
            r.0@.wf(),
    {
        proof {
            use_type_invariant(&self);
            lemma_next_is_well_formed(self@, event, blockhash_aged);
        }
        if self.phase == Phase::Done || self.phase == Phase::Failed {
            let action = self.request(false);
            return (self, action);
        }
        match event {
            Event::Confirmed => {
                let total = self.plan.count();
                let confirmed: usize = if self.phase == Phase::Writing {
                    self.confirmed + 1
                } else {
                    self.confirmed
                };
                let phase = match self.phase {
                    Phase::CreatingBuffer => if total == 0 {
                        Phase::Finalizing
                    } else {
                        Phase::Writing
                    },
                    Phase::Writing => if confirmed == total {
                        Phase::Finalizing
                    } else {
                        Phase::Writing
                    },
                    Phase::Finalizing => if self.config.invoke_after_deploy {
                        Phase::Invoking
                    } else {
                        Phase::Done
                    },
                    _ => Phase::Done,
                };
                if phase == Phase::Done {
                    let next = Deployment {
                        image: self.image,
                        plan: self.plan,
                        config: self.config,
                        phase,
                        confirmed: self.confirmed,
                        attempts: self.attempts,
                        uses: self.uses,
                        halted_at: self.halted_at,
                        cause: self.cause,
                    };
                    let action = next.request(false);
                    (next, action)
                } else {
                    self.submit(phase, confirmed, 1, blockhash_aged)
                }
            },
            Event::Failed(cause) => {
                let again = match self.phase {
                    Phase::CreatingBuffer | Phase::Invoking => cause == Rejection::TimedOut
                        || cause == Rejection::StaleBlockhash,
                    Phase::Writing => cause != Rejection::InsufficientFunds,
                    Phase::Finalizing => cause == Rejection::TimedOut,
                    _ => false,
                };
                if again && self.attempts < self.config.max_attempts {
                    let phase = self.phase;
                    let confirmed = self.confirmed;
                    let attempts: u32 = self.attempts + 1;
                    self.submit(phase, confirmed, attempts, true)
                } else {
                    let next = Deployment {
                        image: self.image,
                        plan: self.plan,
                        config: self.config,
                        phase: Phase::Failed,
                        confirmed: self.confirmed,
                        attempts: self.attempts,
                        uses: self.uses,
                        halted_at: self.phase,
                        cause,
                    };
                    let action = next.request(false);
                    (next, action)
                }
            },
        }
    }

    /// Takes a failed deployment up again at the step that failed: what is confirmed
    /// stays confirmed, and only what is left is asked for. A deployment that has not
    /// failed is handed back as it is, with what it asks for.
    pub fn resume(self) -> (r: (Deployment, Action))
        ensures
            r.0@ == self@.resumed().0,
            r.1@ == r.0@.request(self@.resumed().1),
            r.0@.wf(),
    {
        proof {
            use_type_invariant(&self);
            lemma_next_is_well_formed(self@, Event::Confirmed, false);
        }
        if self.phase == Phase::Failed {
            let phase = self.halted_at;
            let confirmed = self.confirmed;
            self.submit(phase, confirmed, 1, true)
        } else {
            let action = self.request(false);
            (self, action)
        }
    }

    /// The finalize request, for a caller that wants to finalize now. It is refused
    /// while a planned chunk is not confirmed: a program is never made of a buffer with
    /// a missing range.
    pub fn finalize(&self) -> (r: Result<Action, DeployError>)
        ensures
            r is Ok <==> self@.confirmed == self@.chunks().len(),
            r matches Ok(action) ==> action@ == (ActionView::Finalize {
                program_account_size: PROGRAM_ACCOUNT_LEN as nat,
                content_len: self@.image.len(),
                fresh_blockhash: true,
            }),
            r matches Err(e) ==> e == (DeployError::Finalization {
                fault: FinalizeFault::IncompleteStaging {
                    confirmed: self@.confirmed as usize,
                    planned: self@.chunks().len() as usize,
                },
            }),
    {
        proof {
            use_type_invariant(self);
        }
        let planned = self.plan.count();
        if self.confirmed < planned {
            Err(
                DeployError::Finalization {
                    fault: FinalizeFault::IncompleteStaging { confirmed: self.confirmed, planned },
                },
            )
        } else {
            Ok(
                Action::Finalize {
                    program_account_size: program_account_size(),
                    content_len: self.image.len(),
                    fresh_blockhash: true,
                },
            )
        }
    }
}

/// Starts a deployment from what reading the image gave: the image is verified, then cut
/// into writes, and only then is the first request handed out. So a request exists only
/// for an image that was read and that the loader accepts; for every other source the
/// result is the error, and nothing was asked of the ledger.
pub fn start(source: Result<Vec<u8>, String>, chunk_size: usize, config: DeployConfig) -> (r: Result<
    (Deployment, Action),
    DeployError,
>)
    ensures
        match source {
            Err(text) => r matches Err(DeployError::LocalIo { message }) && message@ == text@,
            Ok(raw) => if !loader_accepts(raw@) {
                r matches Err(e) && e is Verification
            } else if !plannable(raw@.len(), chunk_size as nat) {
                r == Err::<(Deployment, Action), DeployError>(
                    DeployError::Planning {
                        cause: if raw@.len() > u32::MAX {
                            PlanError::ImageTooLarge
                        } else {
                            PlanError::ZeroChunkSize
                        },
                    },
                )
            } else {
                r matches Ok((deployment, action)) && deployment@ == initial_state(
                    raw@,
                    chunk_size as nat,
                    config,
                ) && deployment@.wf() && action@ == deployment@.request(true)
            },
        },
{
    match load_image(source) {
        Ok(image) => Deployment::begin(image, chunk_size, config),
        Err(error) => Err(error),
    }
}

} // verus!
