use program_deployer::chunks::PlanError;
use program_deployer::error::{DeployError, FinalizeFault, Rejection, Step};
use program_deployer::image::{admit_image, load_image, VerifiedImage};
use program_deployer::pipeline::{start, Action, DeployConfig, Deployment, Event, Phase};
use program_deployer::staging::{ProgramAccount, StagingBuffer};

/// A ledger that lives in memory. It counts what it is asked and fails the transactions
/// whose number, counted from 0 over all transactions, is in `failures`.
struct Ledger {
    buffer: Option<StagingBuffer>,
    account: Option<ProgramAccount>,
    transactions: usize,
    blockhashes: usize,
    invocations: usize,
    writes: Vec<(u32, usize)>,
    failures: Vec<(usize, Rejection)>,
    /// Whether a write that times out still lands.
    lost_confirmations_land: bool,
}

impl Ledger {
    fn new(failures: Vec<(usize, Rejection)>) -> Ledger {
        Ledger {
            buffer: None,
            account: None,
            transactions: 0,
            blockhashes: 0,
            invocations: 0,
            writes: Vec::new(),
            failures,
            lost_confirmations_land: false,
        }
    }

    fn fault(&self) -> Option<Rejection> {
        self.failures.iter().find(|(at, _)| *at == self.transactions).map(|(_, cause)| *cause)
    }

    fn submit(&mut self, action: &Action) -> Event {
        let fault = self.fault();
        self.transactions += 1;
        let fresh = match action {
            Action::CreateBuffer { fresh_blockhash, .. }
            | Action::Write { fresh_blockhash, .. }
            | Action::Finalize { fresh_blockhash, .. }
            | Action::Invoke { fresh_blockhash } => *fresh_blockhash,
            Action::Finish { .. } | Action::Abort { .. } => panic!("nothing to submit"),
        };
        if fresh {
            self.blockhashes += 1;
        }
        assert!(self.blockhashes > 0, "a transaction needs a blockhash");
        if let Some(cause) = fault {
            let lands = self.lost_confirmations_land && cause == Rejection::TimedOut;
            if let (true, Action::Write { offset, payload, .. }) = (lands, action) {
                self.buffer.as_mut().unwrap().write(*offset, payload).unwrap();
            }
            return Event::Failed(cause);
        }
        match action {
            Action::CreateBuffer { program_len, capacity, .. } => {
                assert_eq!(*capacity, program_len + 45);
                assert!(self.buffer.is_none());
                self.buffer = Some(StagingBuffer::create(*program_len));
            }
            Action::Write { offset, payload, .. } => {
                self.writes.push((*offset, payload.len()));
                self.buffer.as_mut().unwrap().write(*offset, payload).unwrap();
            }
            Action::Finalize { program_account_size, content_len, .. } => {
                assert_eq!(*program_account_size, 36);
                let buffer = self.buffer.take().unwrap();
                assert_eq!(buffer.len(), *content_len);
                self.account = Some(ProgramAccount::promote(buffer));
            }
            Action::Invoke { .. } => {
                assert!(self.account.is_some());
                self.invocations += 1;
            }
            Action::Finish { .. } | Action::Abort { .. } => {}
        }
        Event::Confirmed
    }
}

fn image_of(len: usize) -> (Vec<u8>, VerifiedImage) {
    let raw: Vec<u8> = (0..len).map(|i| (i * 13 % 255) as u8).collect();
    let image = admit_image(raw.clone(), Ok(())).unwrap();
    (raw, image)
}

fn config(max_attempts: u32) -> DeployConfig {
    DeployConfig { max_attempts, writes_per_blockhash: 100, invoke_after_deploy: false }
}

/// Runs a deployment against `ledger` until it asks for nothing more.
fn run(deployment: Deployment, first: Action, ledger: &mut Ledger) -> (Deployment, Action) {
    let mut state = deployment;
    let mut action = first;
    for _ in 0..10_000 {
        if matches!(action, Action::Finish { .. } | Action::Abort { .. }) {
            return (state, action);
        }
        let event = ledger.submit(&action);
        let (next, request) = state.step(event, false);
        state = next;
        action = request;
    }
    panic!("the deployment does not end");
}

#[test]
fn ten_kib_image_is_deployed_in_twelve_writes() {
    let (raw, image) = image_of(10240);
    let (deployment, first) = Deployment::begin(image, 900, config(3)).unwrap();
    assert_eq!(deployment.planned_chunks(), 12);
    assert_eq!(
        first,
        Action::CreateBuffer { capacity: 10285, program_len: 10240, fresh_blockhash: true }
    );
    let mut ledger = Ledger::new(vec![]);
    let (end, last) = run(deployment, first, &mut ledger);
    assert_eq!(last, Action::Finish { content_len: 10240 });
    assert_eq!(end.phase(), Phase::Done);
    assert_eq!(end.confirmed_chunks(), 12);
    assert_eq!(end.error(), None);
    assert_eq!(ledger.writes.len(), 12);
    assert_eq!(ledger.writes[0], (0, 900));
    assert_eq!(ledger.writes[11], (9900, 340));
    assert_eq!(ledger.transactions, 14);
    let account = ledger.account.unwrap();
    assert!(account.executable());
    assert_eq!(account.content_len(), 10240);
    assert_eq!(account.content(), &raw);
    assert!(ledger.buffer.is_none());
}

#[test]
fn empty_image_is_finalized_without_a_write() {
    let (_, image) = image_of(0);
    let (deployment, first) = Deployment::begin(image, 900, config(3)).unwrap();
    assert_eq!(
        first,
        Action::CreateBuffer { capacity: 45, program_len: 0, fresh_blockhash: true }
    );
    let (after_create, second) = deployment.step(Event::Confirmed, false);
    assert_eq!(after_create.phase(), Phase::Finalizing);
    assert_eq!(
        second,
        Action::Finalize { program_account_size: 36, content_len: 0, fresh_blockhash: false }
    );
    let (done, last) = after_create.step(Event::Confirmed, false);
    assert_eq!(done.phase(), Phase::Done);
    assert_eq!(last, Action::Finish { content_len: 0 });
}

#[test]
fn empty_image_is_deployed_even_when_no_payload_fits() {
    let (_, image) = image_of(0);
    let (deployment, first) = Deployment::begin(image, 0, config(1)).unwrap();
    let mut ledger = Ledger::new(vec![]);
    let (_, last) = run(deployment, first, &mut ledger);
    assert_eq!(last, Action::Finish { content_len: 0 });
    assert!(ledger.writes.is_empty());
    let account = ledger.account.unwrap();
    assert!(account.executable());
    assert_eq!(account.content_len(), 0);
}

#[test]
fn write_that_times_out_once_gives_the_same_buffer() {
    let (raw, image) = image_of(5000);
    let (smooth, first) = Deployment::begin(image.clone(), 700, config(3)).unwrap();
    let mut calm = Ledger::new(vec![]);
    run(smooth, first, &mut calm);

    for lands in [false, true] {
        let (bumpy, first) = Deployment::begin(image.clone(), 700, config(3)).unwrap();
        // Transaction 0 creates the buffer, so transaction 4 is the write of the fourth chunk.
        let mut storm = Ledger::new(vec![(4, Rejection::TimedOut)]);
        storm.lost_confirmations_land = lands;
        let (end, last) = run(bumpy, first, &mut storm);
        assert_eq!(last, Action::Finish { content_len: 5000 });
        assert_eq!(end.confirmed_chunks(), 8);
        assert_eq!(storm.transactions, calm.transactions + 1);
        assert_eq!(storm.account.as_ref().unwrap().content(), &raw);
        assert_eq!(storm.account, calm.account);
    }
}

#[test]
fn retry_repeats_the_write_with_a_new_blockhash() {
    let (raw, image) = image_of(30);
    let (deployment, _) = Deployment::begin(image, 10, config(3)).unwrap();
    let (writing, first_write) = deployment.step(Event::Confirmed, false);
    assert_eq!(
        first_write,
        Action::Write { offset: 0, payload: raw[0..10].to_vec(), fresh_blockhash: false }
    );
    let (writing, second_write) = writing.step(Event::Confirmed, false);
    assert_eq!(
        second_write,
        Action::Write { offset: 10, payload: raw[10..20].to_vec(), fresh_blockhash: false }
    );
    let (retrying, again) = writing.step(Event::Failed(Rejection::TimedOut), false);
    assert_eq!(retrying.phase(), Phase::Writing);
    assert_eq!(retrying.confirmed_chunks(), 1);
    assert_eq!(
        again,
        Action::Write { offset: 10, payload: raw[10..20].to_vec(), fresh_blockhash: true }
    );
    let (_, third_write) = retrying.step(Event::Confirmed, false);
    assert_eq!(
        third_write,
        Action::Write { offset: 20, payload: raw[20..30].to_vec(), fresh_blockhash: false }
    );
}

#[test]
fn write_that_keeps_failing_ends_the_deployment() {
    let (_, image) = image_of(30);
    let (deployment, first) = Deployment::begin(image, 10, config(3)).unwrap();
    let mut ledger = Ledger::new(vec![
        (2, Rejection::TimedOut),
        (3, Rejection::Other),
        (4, Rejection::StaleBlockhash),
    ]);
    let (end, last) = run(deployment, first, &mut ledger);
    let error = DeployError::NetworkTransient {
        step: Step::Write,
        offset: 10,
        len: 10,
        attempts: 3,
        cause: Rejection::StaleBlockhash,
    };
    assert_eq!(last, Action::Abort { error: error.clone() });
    assert_eq!(end.phase(), Phase::Failed);
    assert_eq!(end.error(), Some(error));
    assert_eq!(end.confirmed_chunks(), 1);
    assert_eq!(ledger.transactions, 5);
    assert!(ledger.account.is_none());
}

#[test]
fn failed_deployment_asks_for_nothing_more() {
    let (_, image) = image_of(30);
    let (deployment, _) = Deployment::begin(image, 10, config(1)).unwrap();
    let (failed, abort) = deployment.step(Event::Failed(Rejection::Other), false);
    assert!(matches!(abort, Action::Abort { .. }));
    let (still, again) = failed.step(Event::Confirmed, true);
    assert_eq!(still.phase(), Phase::Failed);
    assert_eq!(again, abort);
}

#[test]
fn payer_without_funds_ends_the_write_at_once() {
    let (_, image) = image_of(30);
    let (deployment, first) = Deployment::begin(image, 10, config(5)).unwrap();
    let mut ledger = Ledger::new(vec![(3, Rejection::InsufficientFunds)]);
    let (end, last) = run(deployment, first, &mut ledger);
    assert_eq!(
        last,
        Action::Abort { error: DeployError::Funding { step: Step::Write, offset: 20, len: 10 } }
    );
    assert_eq!(end.confirmed_chunks(), 2);
    assert_eq!(ledger.transactions, 4);
}

#[test]
fn buffer_that_is_refused_gets_no_write() {
    for (cause, error) in [
        (
            Rejection::InsufficientFunds,
            DeployError::Funding { step: Step::CreateBuffer, offset: 0, len: 0 },
        ),
        (
            Rejection::Other,
            DeployError::NetworkTransient {
                step: Step::CreateBuffer,
                offset: 0,
                len: 0,
                attempts: 1,
                cause: Rejection::Other,
            },
        ),
    ] {
        let (_, image) = image_of(30);
        let (deployment, first) = Deployment::begin(image, 10, config(5)).unwrap();
        let mut ledger = Ledger::new(vec![(0, cause)]);
        let (_, last) = run(deployment, first, &mut ledger);
        assert_eq!(last, Action::Abort { error });
        assert_eq!(ledger.transactions, 1);
        assert!(ledger.writes.is_empty());
    }
}

#[test]
fn buffer_creation_is_retried_after_a_timeout() {
    let (_, image) = image_of(30);
    let (deployment, first) = Deployment::begin(image, 10, config(2)).unwrap();
    let (retrying, again) = deployment.step(Event::Failed(Rejection::TimedOut), false);
    assert_eq!(retrying.phase(), Phase::CreatingBuffer);
    assert_eq!(again, first);
    let (failed, abort) = retrying.step(Event::Failed(Rejection::TimedOut), false);
    assert_eq!(failed.phase(), Phase::Failed);
    assert_eq!(
        abort,
        Action::Abort {
            error: DeployError::NetworkTransient {
                step: Step::CreateBuffer,
                offset: 0,
                len: 0,
                attempts: 2,
                cause: Rejection::TimedOut,
            }
        }
    );
}

#[test]
fn refused_finalization_is_its_own_error() {
    for cause in [
        Rejection::InsufficientFunds,
        Rejection::SignatureMismatch,
        Rejection::StaleBlockhash,
        Rejection::Other,
    ] {
        let (_, image) = image_of(20);
        let (deployment, first) = Deployment::begin(image, 10, config(4)).unwrap();
        let mut ledger = Ledger::new(vec![(3, cause)]);
        let (end, last) = run(deployment, first, &mut ledger);
        assert_eq!(
            last,
            Action::Abort {
                error: DeployError::Finalization {
                    fault: FinalizeFault::Rejected { cause, attempts: 1 }
                }
            }
        );
        assert_eq!(end.confirmed_chunks(), 2);
        assert_eq!(ledger.transactions, 4);
        assert!(ledger.buffer.is_some());
    }
}

#[test]
fn finalization_is_retried_after_a_timeout_only() {
    let (_, image) = image_of(20);
    let (deployment, first) = Deployment::begin(image, 10, config(2)).unwrap();
    let mut ledger = Ledger::new(vec![(3, Rejection::TimedOut)]);
    let (end, last) = run(deployment, first, &mut ledger);
    assert_eq!(last, Action::Finish { content_len: 20 });
    assert_eq!(end.phase(), Phase::Done);
    assert_eq!(ledger.transactions, 5);
}

#[test]
fn failed_finalization_is_resumed_without_staging_again() {
    let (raw, image) = image_of(20);
    let (deployment, first) = Deployment::begin(image, 10, config(1)).unwrap();
    let mut ledger = Ledger::new(vec![(3, Rejection::InsufficientFunds)]);
    let (failed, _) = run(deployment, first, &mut ledger);
    assert_eq!(failed.phase(), Phase::Failed);
    let (resumed, action) = failed.resume();
    assert_eq!(resumed.phase(), Phase::Finalizing);
    assert_eq!(
        action,
        Action::Finalize { program_account_size: 36, content_len: 20, fresh_blockhash: true }
    );
    let (done, last) = run(resumed, action, &mut ledger);
    assert_eq!(done.phase(), Phase::Done);
    assert_eq!(last, Action::Finish { content_len: 20 });
    assert_eq!(ledger.writes.len(), 2);
    assert_eq!(ledger.account.unwrap().content(), &raw);
}

#[test]
fn failed_write_is_resumed_at_the_chunk_in_flight() {
    let (raw, image) = image_of(50);
    let (deployment, first) = Deployment::begin(image, 10, config(1)).unwrap();
    let mut ledger = Ledger::new(vec![(3, Rejection::TimedOut)]);
    let (failed, _) = run(deployment, first, &mut ledger);
    assert_eq!(failed.confirmed_chunks(), 2);
    let (resumed, action) = failed.resume();
    assert_eq!(
        action,
        Action::Write { offset: 20, payload: raw[20..30].to_vec(), fresh_blockhash: true }
    );
    let (done, _) = run(resumed, action, &mut ledger);
    assert_eq!(done.phase(), Phase::Done);
    assert_eq!(ledger.account.unwrap().content(), &raw);
}

#[test]
fn resume_leaves_a_running_deployment_alone() {
    let (_, image) = image_of(20);
    let (deployment, _) = Deployment::begin(image, 10, config(3)).unwrap();
    let (writing, _) = deployment.step(Event::Confirmed, false);
    let (same, action) = writing.resume();
    assert_eq!(same.phase(), Phase::Writing);
    assert_eq!(same.confirmed_chunks(), 0);
    assert!(matches!(action, Action::Write { offset: 0, fresh_blockhash: false, .. }));
}

#[test]
fn finalize_before_the_last_chunk_is_refused() {
    let (_, image) = image_of(30);
    let (deployment, _) = Deployment::begin(image, 10, config(3)).unwrap();
    assert_eq!(
        deployment.finalize(),
        Err(DeployError::Finalization {
            fault: FinalizeFault::IncompleteStaging { confirmed: 0, planned: 3 }
        })
    );
    let (writing, _) = deployment.step(Event::Confirmed, false);
    let (writing, _) = writing.step(Event::Confirmed, false);
    let (writing, _) = writing.step(Event::Confirmed, false);
    assert_eq!(
        writing.finalize(),
        Err(DeployError::Finalization {
            fault: FinalizeFault::IncompleteStaging { confirmed: 2, planned: 3 }
        })
    );
    let (staged, action) = writing.step(Event::Confirmed, false);
    assert_eq!(staged.phase(), Phase::Finalizing);
    assert_eq!(
        action,
        Action::Finalize { program_account_size: 36, content_len: 30, fresh_blockhash: false }
    );
    assert_eq!(
        staged.finalize(),
        Ok(Action::Finalize { program_account_size: 36, content_len: 30, fresh_blockhash: true })
    );
}

#[test]
fn blockhash_is_renewed_after_its_share_of_transactions() {
    let (_, image) = image_of(100);
    let settings = DeployConfig { max_attempts: 1, writes_per_blockhash: 4, invoke_after_deploy: false };
    let (deployment, first) = Deployment::begin(image, 10, settings).unwrap();
    let mut ledger = Ledger::new(vec![]);
    run(deployment, first, &mut ledger);
    // 12 transactions, four to a blockhash.
    assert_eq!(ledger.transactions, 12);
    assert_eq!(ledger.blockhashes, 3);
}

#[test]
fn aged_blockhash_is_renewed_for_the_next_transaction() {
    let (_, image) = image_of(30);
    let (deployment, _) = Deployment::begin(image, 10, config(1)).unwrap();
    let (writing, first_write) = deployment.step(Event::Confirmed, true);
    assert!(matches!(first_write, Action::Write { fresh_blockhash: true, .. }));
    let (_, second_write) = writing.step(Event::Confirmed, false);
    assert!(matches!(second_write, Action::Write { fresh_blockhash: false, .. }));
}

#[test]
fn zero_counts_in_the_configuration_count_as_one() {
    let (_, image) = image_of(30);
    let settings = DeployConfig { max_attempts: 0, writes_per_blockhash: 0, invoke_after_deploy: false };
    let (deployment, _) = Deployment::begin(image, 10, settings).unwrap();
    let (writing, first_write) = deployment.step(Event::Confirmed, false);
    assert!(matches!(first_write, Action::Write { fresh_blockhash: true, .. }));
    let (failed, abort) = writing.step(Event::Failed(Rejection::TimedOut), false);
    assert_eq!(failed.phase(), Phase::Failed);
    assert!(matches!(
        abort,
        Action::Abort { error: DeployError::NetworkTransient { attempts: 1, .. } }
    ));
}

#[test]
fn deployed_program_is_called_when_asked_for() {
    let (_, image) = image_of(20);
    let settings = DeployConfig { max_attempts: 2, writes_per_blockhash: 100, invoke_after_deploy: true };
    let (deployment, first) = Deployment::begin(image, 10, settings).unwrap();
    let mut ledger = Ledger::new(vec![(4, Rejection::StaleBlockhash)]);
    let (end, last) = run(deployment, first, &mut ledger);
    assert_eq!(last, Action::Finish { content_len: 20 });
    assert_eq!(end.phase(), Phase::Done);
    assert_eq!(ledger.invocations, 1);
    assert_eq!(ledger.transactions, 6);
}

#[test]
fn failed_call_reports_the_invoke_step() {
    let (_, image) = image_of(20);
    let settings = DeployConfig { max_attempts: 2, writes_per_blockhash: 100, invoke_after_deploy: true };
    let (deployment, first) = Deployment::begin(image, 10, settings).unwrap();
    let mut ledger = Ledger::new(vec![(4, Rejection::Other)]);
    let (_, last) = run(deployment, first, &mut ledger);
    assert_eq!(
        last,
        Action::Abort {
            error: DeployError::NetworkTransient {
                step: Step::Invoke,
                offset: 0,
                len: 0,
                attempts: 1,
                cause: Rejection::Other,
            }
        }
    );
    assert!(ledger.account.is_some());
}

#[test]
fn image_that_cannot_be_planned_is_refused_before_the_ledger() {
    let (_, image) = image_of(10);
    assert_eq!(
        Deployment::begin(image, 0, config(3)).unwrap_err(),
        DeployError::Planning { cause: PlanError::ZeroChunkSize }
    );
}

#[test]
fn image_that_fails_verification_reaches_no_ledger() {
    let mut ledger = Ledger::new(vec![]);
    let outcome = load_image(Ok(vec![0x7f, b'E', b'L', b'F', 0, 0, 0, 0]))
        .and_then(|image| Deployment::begin(image, 900, config(3)))
        .map(|(deployment, first)| run(deployment, first, &mut ledger));
    assert!(matches!(outcome, Err(DeployError::Verification { .. })));
    assert_eq!(ledger.transactions, 0);
    assert_eq!(ledger.blockhashes, 0);
    assert!(ledger.buffer.is_none());
}

#[test]
fn image_that_cannot_be_read_reaches_no_ledger() {
    let mut ledger = Ledger::new(vec![]);
    let outcome = load_image(Err(String::from("Unable to read program file: denied")))
        .and_then(|image| Deployment::begin(image, 900, config(3)))
        .map(|(deployment, first)| run(deployment, first, &mut ledger));
    assert!(matches!(outcome, Err(DeployError::LocalIo { .. })));
    assert_eq!(ledger.transactions, 0);
}

#[test]
fn start_hands_out_a_request_for_a_verified_image_only() {
    assert!(matches!(
        start(Err(String::from("gone")), 900, config(3)),
        Err(DeployError::LocalIo { .. })
    ));
    assert!(matches!(
        start(Ok(vec![1, 2, 3]), 900, config(3)),
        Err(DeployError::Verification { .. })
    ));
    assert!(matches!(
        start(Ok(Vec::new()), 900, config(3)),
        Err(DeployError::Verification { .. })
    ));
}
