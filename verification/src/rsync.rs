//! The transfer gate: one lease for all bulk transfers, and the command line
//! of the copy tool.
//!
//! A transfer is planned here and run elsewhere. Whoever runs it hands back
//! how the copy tool ended, and [`RsyncExecutor::transfer_result`] says what
//! that means.

use tokio::sync::{Semaphore, SemaphorePermit, TryAcquireError};
use vstd::prelude::*;

use crate::config::DaemonConfig;
use crate::text::{decimal, decimal_text, texts};

verus! {

/// A counting semaphore of the tokio runtime.
#[verifier::external_type_specification]
#[verifier::external_body]
pub struct ExSemaphore(Semaphore);

/// A permit taken from a [`Semaphore`]; dropping it gives the permit back.
#[verifier::external_type_specification]
#[verifier::external_body]
pub struct ExSemaphorePermit<'a>(SemaphorePermit<'a>);

/// Why a permit was not granted at once.
#[verifier::external_type_specification]
pub struct ExTryAcquireError(TryAcquireError);

/// The number of permits that a semaphore was made with.
pub uninterp spec fn permits_made(gate: Semaphore) -> usize;

/// `tokio::sync::Semaphore::new`, which panics above `usize::MAX >> 3`
/// permits. The semaphore it returns was made with the number of permits
/// that was asked for; nothing is claimed of how many of them are free later.
pub assume_specification[ Semaphore::new ](permits: usize) -> (gate: Semaphore)
    requires
        permits <= usize::MAX / 8,
    ensures
        permits_made(gate) == permits,
;

/// `tokio::sync::Semaphore::try_acquire`. Whether a permit is granted depends
/// on who else holds one, so nothing is claimed of the result.
pub assume_specification<'a>[ Semaphore::try_acquire ](gate: &'a Semaphore) -> Result<
    SemaphorePermit<'a>,
    TryAcquireError,
>;

/// The line that `shell_words::join` makes of a sequence of words: each word
/// quoted as a shell needs it, the words separated by single spaces.
pub uninterp spec fn shell_joined(words: Seq<Seq<char>>) -> Seq<char>;

/// Joins words into one shell line with `shell_words::join`. The contract
/// gives the line its name: it is a function of the words alone.
#[verifier::external_body]
pub(crate) fn join_words(words: &Vec<String>) -> (line: String)
    ensures
        line@ == shell_joined(texts(words@)),
{
    shell_words::join(words)
}

/// Why a transfer did not take place or did not succeed.
#[derive(Debug)]
pub enum RsyncTransmitterError {
    /// The lease has been withdrawn for good.
    SemaphoreClosed,
    /// The copy tool failed for the destination `dest`.
    RsyncFailed { dest: String, reason: String },
    /// Another transfer batch holds the lease.
    OverlappingTransfer,
}

/// The text of a [`RsyncTransmitterError`].
pub open spec fn transmitter_error_text(error: RsyncTransmitterError) -> Seq<char> {
    match error {
        RsyncTransmitterError::SemaphoreClosed => "semaphore closed"@,
        RsyncTransmitterError::RsyncFailed { dest, reason } => "Rsync command failed for "@ + dest@
            + ": "@ + reason@,
        RsyncTransmitterError::OverlappingTransfer => "Another transfer job is already in progress"@,
    }
}

impl RsyncTransmitterError {
    /// The error as a line of text.
    pub fn message(&self) -> (text: String)
        ensures
            text@ == transmitter_error_text(*self),
    {
        match self {
            RsyncTransmitterError::SemaphoreClosed => String::from_str("semaphore closed"),
            RsyncTransmitterError::RsyncFailed { dest, reason } => {
                let mut text = String::from_str("Rsync command failed for ");
                text.append(dest.as_str());
                text.append(": ");
                text.append(reason.as_str());
                text
            },
            RsyncTransmitterError::OverlappingTransfer => String::from_str(
                "Another transfer job is already in progress",
            ),
        }
    }
}

/// How the copy tool is called: where, with which key, how fast, and whether
/// at all.
#[derive(Debug)]
pub struct RsyncExecutor {
    ssh_host: String,
    ssh_key_path: String,
    speed_limit: Option<u32>,
    dry_run: bool,
}

/// The mathematical value of a [`RsyncExecutor`].
pub ghost struct RsyncExecutorView {
    pub ssh_host: Seq<char>,
    pub ssh_key_path: Seq<char>,
    pub speed_limit: Option<u32>,
    pub dry_run: bool,
}

impl View for RsyncExecutor {
    type V = RsyncExecutorView;

    closed spec fn view(&self) -> RsyncExecutorView {
        RsyncExecutorView {
            ssh_host: self.ssh_host@,
            ssh_key_path: self.ssh_key_path@,
            speed_limit: self.speed_limit,
            dry_run: self.dry_run,
        }
    }
}

/// The words of the remote shell: ssh with the given key, never asking about
/// host keys and never prompting.
pub open spec fn remote_shell_words(ssh_key_path: Seq<char>) -> Seq<Seq<char>> {
    seq![
        "ssh"@,
        "-i"@,
        ssh_key_path,
        "-o"@,
        "StrictHostKeyChecking=no"@,
        "-o"@,
        "BatchMode=yes"@,
    ]
}

/// The options that make the copy a mirror: delete what the source lacks,
/// keep partial files, descend into directories, and pass names unsplit.
pub open spec fn mirror_options() -> Seq<Seq<char>> {
    seq!["--delete"@, "--partial"@, "--recursive"@, "-s"@]
}

/// The options of the bandwidth ceiling, if there is one.
pub open spec fn bandwidth_options(speed_limit: Option<u32>) -> Seq<Seq<char>> {
    match speed_limit {
        Some(limit) => seq!["--bwlimit"@, decimal_text(limit as nat)],
        None => Seq::empty(),
    }
}

/// The source of a copy: a path on a host.
pub open spec fn remote_source(host: Seq<char>, path: Seq<char>) -> Seq<char> {
    host + ":"@ + path
}

/// The arguments of the copy tool for one transfer, given the line of the
/// remote shell.
pub open spec fn transfer_arguments(
    executor: RsyncExecutorView,
    remote_shell: Seq<char>,
    source: Seq<char>,
    dest: Seq<char>,
) -> Seq<Seq<char>> {
    mirror_options() + bandwidth_options(executor.speed_limit) + seq!["--rsh"@, remote_shell]
        + seq![remote_source(executor.ssh_host, source), dest]
}

/// What is to be done for one transfer.
#[derive(Debug)]
pub enum TransferPlan {
    /// Nothing is run; the transfer counts as done.
    Skip,
    /// The copy tool is run with these arguments.
    Run(Vec<String>),
}

/// How a run of the copy tool ended.
#[derive(Debug)]
pub enum CommandOutcome {
    /// The tool could not be started; the text says why.
    NotStarted(String),
    /// The tool ran and ended with this status and this standard error.
    Exited { success: bool, status: String, stderr: String },
}

/// The reason given when the copy tool could not be started.
pub open spec fn not_started_reason(cause: Seq<char>) -> Seq<char> {
    "failed to execute rsync command: "@ + cause
}

/// The reason given when the copy tool ended in failure.
pub open spec fn failed_reason(status: Seq<char>, stderr: Seq<char>) -> Seq<char> {
    "rsync exited with code "@ + status + ": "@ + stderr
}

/// Whether `error` reports a failed copy to `dest` with this reason.
pub open spec fn is_copy_failure(
    error: RsyncTransmitterError,
    dest: Seq<char>,
    reason: Seq<char>,
) -> bool {
    error matches RsyncTransmitterError::RsyncFailed { dest: d, reason: r } && d@ == dest && r@
        == reason
}

impl RsyncExecutor {
    /// The executor that the configuration asks for.
    pub fn from_config(config: &DaemonConfig) -> (executor: RsyncExecutor)
        ensures
            executor@ == (RsyncExecutorView {
                ssh_host: config.seedbox_ssh_host@,
                ssh_key_path: config.seedbox_ssh_key@,
                speed_limit: config.rsync_speed_limit,
                dry_run: config.no_transfer,
            }),
    {
        RsyncExecutor {
            ssh_host: config.seedbox_ssh_host.clone(),
            ssh_key_path: config.seedbox_ssh_key.clone(),
            speed_limit: config.rsync_speed_limit,
            dry_run: config.no_transfer,
        }
    }

    /// Whether transfers are only planned and never run.
    pub fn dry_run(&self) -> (dry_run: bool)
        ensures
            dry_run == self@.dry_run,
    {
        self.dry_run
    }

    /// The words of the remote shell.
    pub fn remote_shell(&self) -> (words: Vec<String>)
        ensures
            texts(words@) == remote_shell_words(self@.ssh_key_path),
    {
        let mut words: Vec<String> = Vec::new();
        words.push(String::from_str("ssh"));
        words.push(String::from_str("-i"));
        words.push(self.ssh_key_path.clone());
        words.push(String::from_str("-o"));
        words.push(String::from_str("StrictHostKeyChecking=no"));
        words.push(String::from_str("-o"));
        words.push(String::from_str("BatchMode=yes"));
        assert(texts(words@) =~= remote_shell_words(self@.ssh_key_path));
        words
    }

    /// The arguments of the copy tool for a transfer from `source` on the
    /// seed host to `dest`, given the line of the remote shell.
    pub fn arguments(&self, remote_shell: String, source: &str, dest: &str) -> (arguments: Vec<
        String,
    >)
        ensures
            texts(arguments@) == transfer_arguments(self@, remote_shell@, source@, dest@),
    {
        let mut arguments: Vec<String> = Vec::new();
        arguments.push(String::from_str("--delete"));
        arguments.push(String::from_str("--partial"));
        arguments.push(String::from_str("--recursive"));
        arguments.push(String::from_str("-s"));
        match self.speed_limit {
            Some(limit) => {
                arguments.push(String::from_str("--bwlimit"));
                arguments.push(decimal(limit));
            },
            None => {},
        }
        arguments.push(String::from_str("--rsh"));
        arguments.push(remote_shell);
        let mut from = self.ssh_host.clone();
        from.append(":");
        from.append(source);
        arguments.push(from);
        arguments.push(String::from_str(dest));
        assert(texts(arguments@) =~= transfer_arguments(self@, remote_shell@, source@, dest@));
        arguments
    }

    /// Plans the transfer from `source` on the seed host to `dest`: nothing
    /// in a dry run, else one run of the copy tool as a mirror, through the
    /// remote shell.
    pub fn plan_transfer(&self, source: &str, dest: &str) -> (plan: TransferPlan)
        ensures
            match plan {
                TransferPlan::Skip => self@.dry_run,
                TransferPlan::Run(arguments) => !self@.dry_run && texts(arguments@)
                    == transfer_arguments(
                    self@,
                    shell_joined(remote_shell_words(self@.ssh_key_path)),
                    source@,
                    dest@,
                ),
            },
    {
        if self.dry_run {
            TransferPlan::Skip
        } else {
            let words = self.remote_shell();
            let line = join_words(&words);
            TransferPlan::Run(self.arguments(line, source, dest))
        }
    }

    /// What the end of the copy tool means for the transfer to `dest`: success
    /// if the tool ran and succeeded, else a failure that carries the
    /// destination and the reason.
    pub fn transfer_result(dest: &str, outcome: CommandOutcome) -> (result: Result<
        (),
        RsyncTransmitterError,
    >)
        ensures
            match outcome {
                CommandOutcome::NotStarted(cause) => result.is_err() && is_copy_failure(
                    result.unwrap_err(),
                    dest@,
                    not_started_reason(cause@),
                ),
                CommandOutcome::Exited { success, status, stderr } => if success {
                    result.is_ok()
                } else {
                    result.is_err() && is_copy_failure(
                        result.unwrap_err(),
                        dest@,
                        failed_reason(status@, stderr@),
                    )
                },
            },
    {
        match outcome {
            CommandOutcome::NotStarted(cause) => {
                let mut reason = String::from_str("failed to execute rsync command: ");
                reason.append(cause.as_str());
                Err(RsyncTransmitterError::RsyncFailed { dest: String::from_str(dest), reason })
            },
            CommandOutcome::Exited { success, status, stderr } => {
                if success {
                    Ok(())
                } else {
                    let mut reason = String::from_str("rsync exited with code ");
                    reason.append(status.as_str());
                    reason.append(": ");
                    reason.append(stderr.as_str());
                    Err(RsyncTransmitterError::RsyncFailed { dest: String::from_str(dest), reason })
                }
            },
        }
    }
}


/// Serialises all transfers behind one lease.
///
/// The lease is a semaphore with a single permit. Whoever wants to transfer
/// asks for a session; while one session lives, no other is granted.
pub struct RsyncTransmitter {
    executor: RsyncExecutor,
    gate: Semaphore,
}

/// The lease, held. The lease is given back when the session is dropped,
/// however the work under it ended.
pub struct RsyncTransferSession<'a> {
    _permit: SemaphorePermit<'a>,
    executor: &'a RsyncExecutor,
}

/// Whether `result` is what a lease request with this outcome comes to: a
/// session on `executor` if a permit was granted, `SemaphoreClosed` if the
/// semaphore is closed, `OverlappingTransfer` if the permit is taken.
pub open spec fn session_answers(
    result: Result<RsyncTransferSession<'_>, RsyncTransmitterError>,
    granted: bool,
    refusal: Option<TryAcquireError>,
    executor: RsyncExecutorView,
) -> bool {
    if granted {
        result matches Ok(session) && session@ == executor
    } else {
        match refusal {
            Some(TryAcquireError::Closed) => result matches Err(
                RsyncTransmitterError::SemaphoreClosed,
            ),
            Some(TryAcquireError::NoPermits) => result matches Err(
                RsyncTransmitterError::OverlappingTransfer,
            ),
            None => false,
        }
    }
}

/// The refusal in the outcome of a lease request, if it was refused.
pub open spec fn refusal_of(outcome: Result<SemaphorePermit<'_>, TryAcquireError>) -> Option<
    TryAcquireError,
> {
    match outcome {
        Ok(_) => None,
        Err(refusal) => Some(refusal),
    }
}

impl<'a> View for RsyncTransferSession<'a> {
    type V = RsyncExecutorView;

    closed spec fn view(&self) -> RsyncExecutorView {
        self.executor@
    }
}

impl View for RsyncTransmitter {
    type V = RsyncExecutorView;

    closed spec fn view(&self) -> RsyncExecutorView {
        self.executor@
    }
}

impl RsyncTransmitter {
    /// A transmitter with the executor that the configuration asks for and
    /// a lease of its own, made with a single permit.
    pub fn from_config(config: &DaemonConfig) -> (transmitter: RsyncTransmitter)
        ensures
            transmitter@ == (RsyncExecutorView {
                ssh_host: config.seedbox_ssh_host@,
                ssh_key_path: config.seedbox_ssh_key@,
                speed_limit: config.rsync_speed_limit,
                dry_run: config.no_transfer,
            }),
            permits_made(transmitter.lease()) == 1,
    {
        RsyncTransmitter { executor: RsyncExecutor::from_config(config), gate: Semaphore::new(1) }
    }

    /// The executor that sessions of this transmitter plan with.
    pub fn executor(&self) -> (executor: &RsyncExecutor)
        ensures
            executor@ == self@,
    {
        &self.executor
    }

    /// The semaphore behind the lease, for a caller that is willing to wait
    /// for a permit.
    pub fn gate(&self) -> (gate: &Semaphore)
        ensures
            *gate == self.lease(),
    {
        &self.gate
    }

    /// The semaphore that this transmitter keeps its lease in: the one that
    /// `try_session` asks for its permit.
    pub closed spec fn lease(&self) -> Semaphore {
        self.gate
    }

    /// The answer to a lease request, given how the semaphore answered.
    pub fn session_from<'a>(
        &'a self,
        outcome: Result<SemaphorePermit<'a>, TryAcquireError>,
    ) -> (result: Result<RsyncTransferSession<'a>, RsyncTransmitterError>)
        ensures
            session_answers(result, outcome.is_ok(), refusal_of(outcome), self@),
    {
        match outcome {
            Ok(permit) => Ok(RsyncTransferSession { _permit: permit, executor: &self.executor }),
            Err(TryAcquireError::Closed) => Err(RsyncTransmitterError::SemaphoreClosed),
            Err(TryAcquireError::NoPermits) => Err(RsyncTransmitterError::OverlappingTransfer),
        }
    }

    /// Asks for the lease without waiting. The semaphore decides: the answer
    /// is a session if it grants its permit, `OverlappingTransfer` if the
    /// permit is taken, `SemaphoreClosed` if it is closed. It is never a
    /// failed copy.
    pub fn try_session(&self) -> (result: Result<RsyncTransferSession<'_>, RsyncTransmitterError>)
        ensures
            match result {
                Ok(session) => session@ == self@,
                Err(RsyncTransmitterError::SemaphoreClosed) => true,
                Err(RsyncTransmitterError::OverlappingTransfer) => true,
                Err(RsyncTransmitterError::RsyncFailed { .. }) => false,
            },
    {
        let outcome = self.gate.try_acquire();
        self.session_from(outcome)
    }
}

impl<'a> RsyncTransferSession<'a> {
    /// The executor that this session plans with.
    pub fn executor(&self) -> (executor: &RsyncExecutor)
        ensures
            executor@ == self@,
    {
        self.executor
    }

    /// Plans the transfer from `source` on the seed host to `dest` under this
    /// lease.
    pub fn plan_transfer(&self, source: &str, dest: &str) -> (plan: TransferPlan)
        ensures
            match plan {
                TransferPlan::Skip => self@.dry_run,
                TransferPlan::Run(arguments) => !self@.dry_run && texts(arguments@)
                    == transfer_arguments(
                    self@,
                    shell_joined(remote_shell_words(self@.ssh_key_path)),
                    source@,
                    dest@,
                ),
            },
    {
        self.executor.plan_transfer(source, dest)
    }
}

} // verus!
