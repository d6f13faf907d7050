//! The decisions of the daemon: what a poll of the seed host does to the task
//! table, how a transfer batch proceeds, and how the main loop answers what
//! happens around it.
//!
//! Nothing here waits, listens or runs a program. The program that embeds the
//! daemon does, and reports back; each function says what follows.

use vstd::prelude::*;

use crate::bot::{BotCommand, TelegramBotError};
use crate::config::DaemonConfig;
use crate::error::AniplerError;
use crate::qbit::{
    all_complete, first_incomplete, missing_field, query_torrents, report_views, reports_missing,
    selection, RemoteTorrent, RemoteTorrentView,
};
use crate::rsync::{
    is_copy_failure, failed_reason, not_started_reason, remote_shell_words, shell_joined,
    transfer_arguments, transmitter_error_text, CommandOutcome, RsyncExecutor, RsyncExecutorView,
    RsyncTransferSession, RsyncTransmitter, RsyncTransmitterError, TransferPlan,
};
use crate::storage::{
    artifact_path, has_status, lists_ready_torrents, marked_ready, storage_error_text, upsert_all,
    StorageManager, StorageManagerError, TaskStatus, TaskTable,
};
use crate::storage_laws::lemma_update_touches_only_offered;
use crate::task::{task_views, TorrentTaskInfo, TorrentTaskInfoView};
use crate::text::texts;

verus! {

/// Why a job of the daemon failed.
#[derive(Debug)]
pub enum AniplerDaemonError {
    /// The seed host answered with something that cannot be used.
    InvalidQBitApiResponse(String),
    /// The lease was not granted, or the copy tool failed.
    RsyncTransfer(RsyncTransmitterError),
    /// The backing store failed.
    Storage(StorageManagerError),
}

/// The text of an [`AniplerDaemonError`].
pub open spec fn daemon_error_text(error: AniplerDaemonError) -> Seq<char> {
    match error {
        AniplerDaemonError::InvalidQBitApiResponse(detail) =>
            "QBit API responded with an invalid response: "@ + detail@,
        AniplerDaemonError::RsyncTransfer(cause) => "rsync transfer failed: "@
            + transmitter_error_text(cause),
        AniplerDaemonError::Storage(cause) => "Storage manager error: "@ + storage_error_text(cause),
    }
}

impl AniplerDaemonError {
    /// The error as a line of text.
    pub fn message(&self) -> (text: String)
        ensures
            text@ == daemon_error_text(*self),
    {
        match self {
            AniplerDaemonError::InvalidQBitApiResponse(detail) => {
                let mut text = String::from_str("QBit API responded with an invalid response: ");
                text.append(detail.as_str());
                text
            },
            AniplerDaemonError::RsyncTransfer(cause) => {
                let mut text = String::from_str("rsync transfer failed: ");
                let inner = cause.message();
                text.append(inner.as_str());
                text
            },
            AniplerDaemonError::Storage(cause) => {
                let mut text = String::from_str("Storage manager error: ");
                let inner = cause.message();
                text.append(inner.as_str());
                text
            },
        }
    }
}

/// The watermark after it was asked for at the time `now`.
pub open spec fn settled_watermark(stored: Option<i64>, now: i64) -> i64 {
    match stored {
        Some(date) => date,
        None => now,
    }
}

/// Brings the task table up to date with what the seed host reports.
///
/// The watermark is the stored one, or `now` if none was stored, and is
/// stored from then on. If every report has all its fields, the items that
/// were added at or after the watermark are offered to the table, in the
/// order of the reports. If one lacks a field, the table is left as it was and
/// the error names the first missing field of the first such report.
pub fn update_status(store: &mut StorageManager, reports: &[RemoteTorrent], now: i64) -> (result:
    Result<(), AniplerError>)
    requires
        old(store).wf(),
    ensures
        final(store).wf(),
        final(store)@.watermark == Some(settled_watermark(old(store)@.watermark, now)),
        final(store)@.storage_path == old(store)@.storage_path,
        match result {
            Ok(()) => all_complete(report_views(reports@)) && final(store)@.tasks == upsert_all(
                old(store)@.tasks,
                selection(
                    report_views(reports@),
                    settled_watermark(old(store)@.watermark, now),
                ),
            ),
            Err(error) => final(store)@.tasks == old(store)@.tasks && exists|index: int|
                first_incomplete(report_views(reports@), index) && reports_missing(
                    error,
                    missing_field(#[trigger] report_views(reports@)[index]).unwrap(),
                ),
        },
{
    let earliest_import_date = store.earliest_import_date(now);
    match query_torrents(reports, earliest_import_date) {
        Ok(torrents) => {
            store.update_torrent_info(torrents.as_slice());
            Ok(())
        },
        Err(error) => Err(error),
    }
}

/// Whether every report of `hash` in `reports` says that the item was added
/// before the watermark.
pub open spec fn stale_in(reports: Seq<RemoteTorrentView>, hash: Seq<char>, watermark: i64) -> bool {
    forall|i: int|
        0 <= i < reports.len() && (#[trigger] reports[i]).hash == Some(hash)
            ==> reports[i].added_on.unwrap() < watermark
}

/// The table after a sequence of polls under one watermark, first to last.
pub open spec fn after_polls(
    table: TaskTable,
    polls: Seq<Seq<RemoteTorrentView>>,
    watermark: i64,
) -> TaskTable
    decreases polls.len(),
{
    if polls.len() == 0 {
        table
    } else {
        upsert_all(
            after_polls(table, polls.drop_last(), watermark),
            selection(polls.last(), watermark),
        )
    }
}

/// An item that was added before the watermark is not tracked by a poll: if
/// every report of a hash carries a time before the watermark, the poll
/// leaves the table without that hash if it was without it, and leaves its
/// record as it was otherwise.
pub proof fn lemma_stale_item_never_tracked(
    table: TaskTable,
    reports: Seq<RemoteTorrentView>,
    watermark: i64,
    hash: Seq<char>,
)
    requires
        all_complete(reports),
        stale_in(reports, hash, watermark),
    ensures
        upsert_all(table, selection(reports, watermark)).contains_key(hash) == table.contains_key(
            hash,
        ),
        table.contains_key(hash) ==> upsert_all(table, selection(reports, watermark))[hash]
            == table[hash],
{
    crate::qbit::lemma_selection_respects_watermark(reports, watermark, hash);
    lemma_update_touches_only_offered(table, selection(reports, watermark), hash);
}

/// An item that was added before the watermark is never tracked, however
/// often it is reported: no sequence of polls in which every report of the
/// hash carries a time before the watermark brings the hash into the table.
pub proof fn lemma_stale_item_never_tracked_by_any_poll(
    table: TaskTable,
    polls: Seq<Seq<RemoteTorrentView>>,
    watermark: i64,
    hash: Seq<char>,
)
    requires
        forall|p: int|
            0 <= p < polls.len() ==> all_complete(#[trigger] polls[p]) && stale_in(
                polls[p],
                hash,
                watermark,
            ),
    ensures
        after_polls(table, polls, watermark).contains_key(hash) == table.contains_key(hash),
        table.contains_key(hash) ==> after_polls(table, polls, watermark)[hash] == table[hash],
    decreases polls.len(),
{
    if polls.len() > 0 {
        let earlier = polls.drop_last();
        assert forall|p: int| 0 <= p < earlier.len() implies all_complete(#[trigger] earlier[p])
            && stale_in(earlier[p], hash, watermark) by {
            assert(earlier[p] == polls[p]);
        }
        lemma_stale_item_never_tracked_by_any_poll(table, earlier, watermark, hash);
        assert(polls.last() == polls[polls.len() - 1]);
        lemma_stale_item_never_tracked(
            after_polls(table, earlier, watermark),
            polls.last(),
            watermark,
            hash,
        );
    }
}

/// A job that the daemon runs.
#[derive(Debug, Clone, Copy, PartialEq, Eq, Structural)]
pub enum Job {
    /// Poll the seed host and bring the task table up to date.
    Pull,
    /// Move what is ready at the seed host to the relay.
    Transfer,
    /// Tell the operator what is ready.
    Report,
}

/// How a transfer job ended, as the log puts it.
#[derive(Debug, Clone, Copy, PartialEq, Eq, Structural)]
pub enum JobReport {
    /// The batch ran to its end.
    Completed,
    /// Another batch held the lease; nothing was done, and nothing is wrong.
    SkippedOverlap,
    /// The batch failed.
    Failed,
}

/// How the end of a transfer job is reported.
pub open spec fn transfer_report(result: Result<(), AniplerDaemonError>) -> JobReport {
    match result {
        Ok(()) => JobReport::Completed,
        Err(AniplerDaemonError::RsyncTransfer(RsyncTransmitterError::OverlappingTransfer)) =>
            JobReport::SkippedOverlap,
        Err(_) => JobReport::Failed,
    }
}

/// Says how the end of a transfer job is reported: a batch that found the
/// lease taken was skipped, which is no failure.
pub fn run_transfer_job(result: &Result<(), AniplerDaemonError>) -> (report: JobReport)
    ensures
        report == transfer_report(*result),
{
    match result {
        Ok(()) => JobReport::Completed,
        Err(AniplerDaemonError::RsyncTransfer(RsyncTransmitterError::OverlappingTransfer)) =>
            JobReport::SkippedOverlap,
        Err(_) => JobReport::Failed,
    }
}

/// The job that a command of the operator starts.
pub open spec fn commanded_job(command: BotCommand) -> Job {
    match command {
        BotCommand::PullJob => Job::Pull,
        BotCommand::TransferJob => Job::Transfer,
        BotCommand::ReportAvailable => Job::Report,
    }
}

/// The job that a command of the operator starts. It is the job that the
/// scheduler starts under the same name, so both go the same way.
pub fn handle_command(command: BotCommand) -> (job: Job)
    ensures
        job == commanded_job(command),
{
    match command {
        BotCommand::PullJob => Job::Pull,
        BotCommand::TransferJob => Job::Transfer,
        BotCommand::ReportAvailable => Job::Report,
    }
}

/// One entry of the schedule: a job and the cron expression that says when.
#[derive(Debug)]
pub struct ScheduledJob {
    pub cron: String,
    pub job: Job,
}

/// The recurring jobs: the poll of the seed host on its schedule, then the
/// transfer batch on its own.
pub fn run_jobs(config: &DaemonConfig) -> (schedule: Vec<ScheduledJob>)
    ensures
        schedule.len() == 2,
        schedule[0].cron == config.pull_cron,
        schedule[0].job == Job::Pull,
        schedule[1].cron == config.transfer_cron,
        schedule[1].job == Job::Transfer,
{
    let mut schedule: Vec<ScheduledJob> = Vec::new();
    schedule.push(ScheduledJob { cron: config.pull_cron.clone(), job: Job::Pull });
    schedule.push(ScheduledJob { cron: config.transfer_cron.clone(), job: Job::Transfer });
    schedule
}

/// How the handoff service ended.
#[derive(Debug)]
pub enum ApiExit {
    /// It drained and stopped, as it does after the cancellation signal.
    Graceful,
    /// It stopped with an error of its own.
    ServerError(String),
    /// Its task could not be joined.
    JoinError(String),
}

/// What the main loop is woken by.
#[derive(Debug)]
pub enum DaemonEvent {
    /// The operating system asks the process to stop.
    Interrupt,
    /// The operator sent a command.
    Command(BotCommand),
    /// The command channel gave an error instead of a command.
    CommandFailed(TelegramBotError),
    /// The handoff service ended.
    ApiExited(ApiExit),
}

/// What the main loop does next.
#[derive(Debug, Clone, Copy, PartialEq, Eq, Structural)]
pub enum LoopAction {
    /// Start the job on a task of its own and go on waiting.
    Spawn(Job),
    /// Go on waiting.
    Continue,
    /// Leave the loop and shut down.
    Shutdown,
    /// The handoff service reported a graceful stop although nobody asked it
    /// to stop. This cannot happen; the program gives up.
    Unreachable,
}

/// What the main loop knows of the shutdown so far.
#[derive(Debug, Clone, Copy, PartialEq, Eq, Structural)]
pub struct LoopState {
    /// Whether the cancellation signal was raised.
    pub cancelled: bool,
    /// Whether the handoff service has ended.
    pub api_exited: bool,
}

/// The state of the main loop after an event.
pub open spec fn state_after(state: LoopState, event: DaemonEvent) -> LoopState {
    match event {
        DaemonEvent::Interrupt => LoopState { cancelled: true, ..state },
        DaemonEvent::Command(_) => state,
        DaemonEvent::CommandFailed(TelegramBotError::ChannelClosed) => LoopState {
            cancelled: true,
            ..state
        },
        DaemonEvent::CommandFailed(_) => state,
        DaemonEvent::ApiExited(_) => LoopState { api_exited: true, ..state },
    }
}

/// What the main loop does after an event.
pub open spec fn action_after(event: DaemonEvent) -> LoopAction {
    match event {
        DaemonEvent::Interrupt => LoopAction::Shutdown,
        DaemonEvent::Command(command) => LoopAction::Spawn(commanded_job(command)),
        DaemonEvent::CommandFailed(TelegramBotError::ChannelClosed) => LoopAction::Shutdown,
        DaemonEvent::CommandFailed(_) => LoopAction::Continue,
        DaemonEvent::ApiExited(ApiExit::Graceful) => LoopAction::Unreachable,
        DaemonEvent::ApiExited(_) => LoopAction::Shutdown,
    }
}

/// A step of the shutdown.
#[derive(Debug, Clone, Copy, PartialEq, Eq, Structural)]
pub enum ShutdownStep {
    /// Raise the cancellation signal.
    Cancel,
    /// Wait for the handoff service to drain and end.
    AwaitApi,
    /// Wait for the scheduler to end.
    AwaitScheduler,
    /// Stop the command channel and wait for its task.
    StopBot,
}

/// The steps of the shutdown, in order: the signal first, the handoff service
/// next unless it has ended already, then the scheduler, and the command
/// channel last.
pub open spec fn shutdown_steps(state: LoopState) -> Seq<ShutdownStep> {
    if state.api_exited {
        seq![ShutdownStep::Cancel, ShutdownStep::AwaitScheduler, ShutdownStep::StopBot]
    } else {
        seq![
            ShutdownStep::Cancel,
            ShutdownStep::AwaitApi,
            ShutdownStep::AwaitScheduler,
            ShutdownStep::StopBot,
        ]
    }
}

impl LoopState {
    /// The state in which the main loop starts.
    pub fn new() -> (state: LoopState)
        ensures
            state == (LoopState { cancelled: false, api_exited: false }),
    {
        LoopState { cancelled: false, api_exited: false }
    }

    /// Takes one event and says what the main loop does next.
    ///
    /// An interrupt and a closed command channel raise the cancellation
    /// signal and end the loop. A command starts its job. Any other error of
    /// the command channel is passed over. The end of the handoff service ends
    /// the loop.
    pub fn on_event(&mut self, event: &DaemonEvent) -> (action: LoopAction)
        ensures
            *final(self) == state_after(*old(self), *event),
            action == action_after(*event),
    {
        match event {
            DaemonEvent::Interrupt => {
                self.cancelled = true;
                LoopAction::Shutdown
            },
            DaemonEvent::Command(command) => LoopAction::Spawn(handle_command(*command)),
            DaemonEvent::CommandFailed(TelegramBotError::ChannelClosed) => {
                self.cancelled = true;
                LoopAction::Shutdown
            },
            DaemonEvent::CommandFailed(_) => LoopAction::Continue,
            DaemonEvent::ApiExited(exit) => {
                self.api_exited = true;
                match exit {
                    ApiExit::Graceful => LoopAction::Unreachable,
                    _ => LoopAction::Shutdown,
                }
            },
        }
    }

    /// The steps of the shutdown after the loop has ended. The cancellation
    /// signal is raised in any case; raising it again changes nothing.
    pub fn shutdown(&mut self) -> (steps: Vec<ShutdownStep>)
        ensures
            steps@ == shutdown_steps(*old(self)),
            final(self).cancelled,
            final(self).api_exited == old(self).api_exited,
    {
        let mut steps: Vec<ShutdownStep> = Vec::new();
        steps.push(ShutdownStep::Cancel);
        self.cancelled = true;
        if !self.api_exited {
            steps.push(ShutdownStep::AwaitApi);
        }
        steps.push(ShutdownStep::AwaitScheduler);
        steps.push(ShutdownStep::StopBot);
        assert(steps@ =~= shutdown_steps(*old(self)));
        steps
    }
}

/// Raising the cancellation signal twice is the same as raising it once, and
/// the signal, once raised, stays raised whatever happens.
pub proof fn lemma_cancellation_settles(state: LoopState, event: DaemonEvent, other: DaemonEvent)
    ensures
        state_after(state_after(state, DaemonEvent::Interrupt), DaemonEvent::Interrupt)
            == state_after(state, DaemonEvent::Interrupt),
        state.cancelled ==> state_after(state, event).cancelled,
        state.api_exited ==> state_after(state, event).api_exited,
        state_after(state_after(state, event), other).cancelled == state_after(
            state_after(state, other),
            event,
        ).cancelled,
{
}

/// In every shutdown the signal is raised first, the command channel is
/// stopped last, and the handoff service is waited for exactly when it has
/// not ended yet.
pub proof fn lemma_shutdown_order(state: LoopState)
    ensures
        shutdown_steps(state).first() == ShutdownStep::Cancel,
        shutdown_steps(state).last() == ShutdownStep::StopBot,
        shutdown_steps(state).contains(ShutdownStep::AwaitApi) <==> !state.api_exited,
        shutdown_steps(state).contains(ShutdownStep::AwaitScheduler),
{
    let steps = shutdown_steps(state);
    if state.api_exited {
        assert(steps[1] == ShutdownStep::AwaitScheduler);
    } else {
        assert(steps[1] == ShutdownStep::AwaitApi);
        assert(steps[2] == ShutdownStep::AwaitScheduler);
    }
}


/// A transfer batch under way: the lease, the items that were ready when the
/// batch began, and how far it has come.
pub struct TransferRun<'a> {
    session: RsyncTransferSession<'a>,
    queue: Vec<TorrentTaskInfo>,
    next: usize,
    transferred: usize,
}

/// One item of a batch, ready to be carried out: make sure that `dest`
/// exists, then follow `plan`.
#[derive(Debug)]
pub struct TransferStep {
    pub hash: String,
    pub name: String,
    pub source: String,
    pub dest: String,
    pub plan: TransferPlan,
}

impl TransferStep {
    /// The arguments with which the copy tool is to be run for this step, if
    /// it is to be run at all: it is run when the destination could be
    /// prepared and the plan is a run, and then with the arguments of the
    /// plan.
    pub fn command(&self, prepared: &Result<(), String>) -> (arguments: Option<&Vec<String>>)
        ensures
            arguments.is_some() == (prepared.is_ok() && self.plan is Run),
            arguments matches Some(a) ==> self.plan == TransferPlan::Run(*a),
    {
        match prepared {
            Ok(_) => match &self.plan {
                TransferPlan::Run(arguments) => Some(arguments),
                TransferPlan::Skip => None,
            },
            Err(_) => None,
        }
    }
}

/// Whether `plan` is the plan of `executor` for a transfer from `source` to
/// `dest`: nothing in a dry run, else the copy tool with its arguments.
pub open spec fn plan_for(
    plan: TransferPlan,
    executor: RsyncExecutorView,
    source: Seq<char>,
    dest: Seq<char>,
) -> bool {
    match plan {
        TransferPlan::Skip => executor.dry_run,
        TransferPlan::Run(arguments) => !executor.dry_run && texts(arguments@)
            == transfer_arguments(
            executor,
            shell_joined(remote_shell_words(executor.ssh_key_path)),
            source,
            dest,
        ),
    }
}

/// Whether `result` is what carrying out a step came to, given whether the
/// destination could be prepared and how the copy tool ended, if it was run.
pub open spec fn step_result_is(
    result: Result<(), AniplerDaemonError>,
    prepared: Result<(), String>,
    dest: Seq<char>,
    command: Option<CommandOutcome>,
) -> bool {
    match prepared {
        Err(cause) => result matches Err(
            AniplerDaemonError::Storage(StorageManagerError::Io(text)),
        ) && text == cause,
        Ok(()) => match command {
            None => result.is_ok(),
            Some(CommandOutcome::NotStarted(cause)) => result matches Err(
                AniplerDaemonError::RsyncTransfer(error),
            ) && is_copy_failure(error, dest, not_started_reason(cause@)),
            Some(CommandOutcome::Exited { success, status, stderr }) => if success {
                result.is_ok()
            } else {
                result matches Err(AniplerDaemonError::RsyncTransfer(error)) && is_copy_failure(
                    error,
                    dest,
                    failed_reason(status@, stderr@),
                )
            },
        },
    }
}

/// What carrying out a step came to. A destination that could not be
/// prepared is a failure of the store; after that the copy tool decides, and
/// a step in which it was not to be run has succeeded.
pub fn step_result(prepared: Result<(), String>, dest: &str, command: Option<CommandOutcome>) -> (result:
    Result<(), AniplerDaemonError>)
    ensures
        step_result_is(result, prepared, dest@, command),
{
    match prepared {
        Err(cause) => Err(AniplerDaemonError::Storage(StorageManagerError::Io(cause))),
        Ok(()) => match command {
            None => Ok(()),
            Some(outcome) => match RsyncExecutor::transfer_result(dest, outcome) {
                Ok(()) => Ok(()),
                Err(error) => Err(AniplerDaemonError::RsyncTransfer(error)),
            },
        },
    }
}

impl<'a> TransferRun<'a> {
    /// The batch is well formed: it has not run past its end.
    pub closed spec fn wf(&self) -> bool {
        self.next <= self.queue.len() && self.transferred <= self.next
    }

    /// The items that are still to be transferred, next first.
    pub closed spec fn pending(&self) -> Seq<TorrentTaskInfoView> {
        task_views(self.queue@).skip(self.next as int)
    }

    /// The number of items transferred so far.
    pub closed spec fn done(&self) -> nat {
        self.transferred as nat
    }

    /// The executor that the batch plans with.
    pub closed spec fn executor(&self) -> RsyncExecutorView {
        self.session@
    }

    /// Begins a batch with the answer to the lease request. Without the
    /// lease there is no batch, and the refusal is handed on. With it, the
    /// batch holds the tasks that are ready for transfer, each once.
    pub fn begin(
        session: Result<RsyncTransferSession<'a>, RsyncTransmitterError>,
        store: &StorageManager,
    ) -> (result: Result<TransferRun<'a>, AniplerDaemonError>)
        requires
            store.wf(),
        ensures
            match session {
                Ok(lease) => result matches Ok(run) && run.wf() && run.executor() == lease@
                    && run.done() == 0 && lists_ready_torrents(store@.tasks, run.pending()),
                Err(refusal) => result matches Err(AniplerDaemonError::RsyncTransfer(cause))
                    && cause == refusal,
            },
    {
        match session {
            Ok(lease) => {
                let queue = store.list_ready_torrents();
                let run = TransferRun { session: lease, queue, next: 0, transferred: 0 };
                assert(run.pending() =~= task_views(run.queue@));
                Ok(run)
            },
            Err(refusal) => Err(AniplerDaemonError::RsyncTransfer(refusal)),
        }
    }

    /// Asks for the lease without waiting and begins a batch. Where another
    /// batch holds the lease the answer is `OverlappingTransfer`; the task
    /// table is only read.
    pub fn start(transmitter: &'a RsyncTransmitter, store: &StorageManager) -> (result: Result<
        TransferRun<'a>,
        AniplerDaemonError,
    >)
        requires
            store.wf(),
        ensures
            match result {
                Ok(run) => run.wf() && run.executor() == transmitter@ && run.done() == 0
                    && lists_ready_torrents(store@.tasks, run.pending()),
                Err(AniplerDaemonError::RsyncTransfer(RsyncTransmitterError::SemaphoreClosed)) => true,
                Err(
                    AniplerDaemonError::RsyncTransfer(RsyncTransmitterError::OverlappingTransfer),
                ) => true,
                Err(_) => false,
            },
    {
        TransferRun::begin(transmitter.try_session(), store)
    }

    /// The number of items that are still to be transferred.
    pub fn remaining(&self) -> (count: usize)
        requires
            self.wf(),
        ensures
            count == self.pending().len(),
    {
        self.queue.len() - self.next
    }

    /// The number of items transferred so far.
    pub fn transferred(&self) -> (count: usize)
        ensures
            count == self.done(),
    {
        self.transferred
    }

    /// The next item of the batch, with the place where it is staged at the
    /// relay and the plan of its transfer; `None` when the batch is through.
    pub fn next_step(&self, store: &StorageManager) -> (step: Option<TransferStep>)
        requires
            self.wf(),
        ensures
            step.is_none() == (self.pending().len() == 0),
            step matches Some(s) ==> {
                &&& s.hash@ == self.pending()[0].hash
                &&& s.name@ == self.pending()[0].name
                &&& s.source@ == self.pending()[0].content_path
                &&& s.dest@ == artifact_path(store@.storage_path, s.hash@)
                &&& plan_for(s.plan, self.executor(), s.source@, s.dest@)
            },
    {
        if self.next >= self.queue.len() {
            return None;
        }
        let item = &self.queue[self.next];
        proof {
            assert(self.pending()[0] == item@);
        }
        let dest = store.artifact_storage_path(item.hash.as_str());
        let plan = self.session.plan_transfer(item.content_path.as_str(), dest.as_str());
        Some(
            TransferStep {
                hash: item.hash.clone(),
                name: item.name.clone(),
                source: item.content_path.clone(),
                dest,
                plan,
            },
        )
    }

    /// Takes what carrying out the next item came to.
    ///
    /// After a success the item is done: unless this is a dry run, its task
    /// becomes ready for handoff. After a failure the batch is over: the items
    /// that were still to come are dropped, what was done before stays done,
    /// and the failure is handed on. When the batch was through already,
    /// nothing changes.
    pub fn complete_step(&mut self, store: &mut StorageManager, outcome: Result<(), AniplerDaemonError>) -> (result:
        Result<(), AniplerDaemonError>)
        requires
            old(self).wf(),
            old(store).wf(),
        ensures
            final(self).wf(),
            final(store).wf(),
            result == outcome,
            final(self).executor() == old(self).executor(),
            final(store)@.watermark == old(store)@.watermark,
            final(store)@.storage_path == old(store)@.storage_path,
            old(self).pending().len() == 0 ==> {
                &&& final(self).pending() == old(self).pending()
                &&& final(self).done() == old(self).done()
                &&& final(store)@.tasks == old(store)@.tasks
            },
            old(self).pending().len() > 0 && outcome.is_ok() ==> {
                &&& final(self).pending() == old(self).pending().drop_first()
                &&& final(self).done() == old(self).done() + 1
                &&& final(store)@.tasks == if old(self).executor().dry_run {
                    old(store)@.tasks
                } else {
                    marked_ready(old(store)@.tasks, old(self).pending()[0].hash)
                }
            },
            old(self).pending().len() > 0 && outcome.is_err() ==> {
                &&& final(self).pending().len() == 0
                &&& final(self).done() == old(self).done()
                &&& final(store)@.tasks == old(store)@.tasks
            },
    {
        if self.next >= self.queue.len() {
            return outcome;
        }
        if outcome.is_ok() {
            proof {
                assert(self.pending()[0] == self.queue[self.next as int]@);
            }
            if !self.session.executor().dry_run() {
                store.mark_artifact_ready(self.queue[self.next].hash.as_str());
            }
            self.next = self.next + 1;
            self.transferred = self.transferred + 1;
            assert(self.pending() =~= old(self).pending().drop_first());
        } else {
            self.next = self.queue.len();
        }
        outcome
    }

    /// Ends the batch and gives the lease back. The result is the number of
    /// items that were transferred.
    pub fn finish(self) -> (count: usize)
        ensures
            count == self.done(),
    {
        self.transferred
    }
}

/// The table after the tasks `hashes` were marked as present at the relay,
/// one after the other.
pub open spec fn marked_all(table: TaskTable, hashes: Seq<Seq<char>>) -> TaskTable
    decreases hashes.len(),
{
    if hashes.len() == 0 {
        table
    } else {
        marked_ready(marked_all(table, hashes.drop_last()), hashes.last())
    }
}

/// A batch that stops after its first `done` items leaves exactly those ready
/// for handoff. The items it did not reach are still ready for transfer, so
/// the next batch takes them up; no other task is touched.
pub proof fn lemma_partial_batch(table: TaskTable, hashes: Seq<Seq<char>>, done: int, hash: Seq<char>)
    requires
        0 <= done <= hashes.len(),
        forall|i: int, j: int| 0 <= i < j < hashes.len() ==> hashes[i] != hashes[j],
        forall|i: int| 0 <= i < hashes.len() ==> has_status(table, hashes[i], TaskStatus::TorrentReady),
    ensures
        forall|i: int|
            0 <= i < done ==> has_status(
                marked_all(table, hashes.take(done)),
                #[trigger] hashes[i],
                TaskStatus::ArtifactReady,
            ),
        forall|i: int|
            done <= i < hashes.len() ==> has_status(
                marked_all(table, hashes.take(done)),
                #[trigger] hashes[i],
                TaskStatus::TorrentReady,
            ),
        !hashes.take(done).contains(hash) ==> {
            &&& marked_all(table, hashes.take(done)).contains_key(hash) == table.contains_key(hash)
            &&& table.contains_key(hash) ==> marked_all(table, hashes.take(done))[hash]
                == table[hash]
        },
    decreases done,
{
    if done > 0 {
        let front = hashes.take(done - 1);
        let now = hashes.take(done);
        assert(now.drop_last() =~= front);
        assert(now.last() == hashes[done - 1]);
        lemma_partial_batch(table, hashes, done - 1, hash);
        lemma_partial_batch(table, hashes, done - 1, hashes[done - 1]);
        let before = marked_all(table, front);
        assert(has_status(before, hashes[done - 1], TaskStatus::TorrentReady));
        assert forall|i: int| 0 <= i < done implies has_status(
            marked_all(table, now),
            #[trigger] hashes[i],
            TaskStatus::ArtifactReady,
        ) by {
            if i < done - 1 {
                assert(has_status(before, hashes[i], TaskStatus::ArtifactReady));
            }
        }
        assert forall|i: int| done <= i < hashes.len() implies has_status(
            marked_all(table, now),
            #[trigger] hashes[i],
            TaskStatus::TorrentReady,
        ) by {
            assert(has_status(before, hashes[i], TaskStatus::TorrentReady));
        }
        if !now.contains(hash) {
            assert(hash != hashes[done - 1]) by {
                assert(now[done - 1] == hashes[done - 1]);
            }
            assert(!front.contains(hash)) by {
                if front.contains(hash) {
                    let k = choose|k: int| 0 <= k < front.len() && front[k] == hash;
                    assert(now[k] == hash);
                }
            }
        }
    } else {
        assert(hashes.take(0) =~= Seq::<Seq<char>>::empty());
    }
}

} // verus!
