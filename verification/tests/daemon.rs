use anipler::api::{confirm_artifact, list_artifacts, reclaimed, response_status, ApiError, ApiState};
use anipler::bot::{BotCommand, TelegramBotError};
use anipler::config::{DaemonArgs, DaemonConfig, DaemonEnv};
use anipler::daemon::{
    handle_command, run_jobs, run_transfer_job, step_result, update_status, AniplerDaemonError,
    ApiExit, DaemonEvent, Job, JobReport, LoopAction, LoopState, ShutdownStep, TransferRun,
};
use anipler::error::AniplerError;
use anipler::qbit::RemoteTorrent;
use anipler::rsync::{CommandOutcome, RsyncTransmitter, RsyncTransmitterError, TransferPlan};
use anipler::storage::{StorageManager, StorageManagerError, TaskStatus};

fn config(no_transfer: bool) -> DaemonConfig {
    DaemonConfig::from_env(
        &DaemonArgs { no_transfer, stateless: true },
        DaemonEnv {
            qbit_url: "http://seed:8080".to_string(),
            qbit_username: "user".to_string(),
            qbit_password: "pass".to_string(),
            storage_path: "relay".to_string(),
            seedbox_ssh_host: "seed".to_string(),
            seedbox_ssh_key: "/keys/id".to_string(),
            rsync_speed_limit: None,
            telegram_bot_token: "token".to_string(),
            telegram_chat_id: 7,
            api_addr: None,
            api_key: "secret".to_string(),
        },
    )
}

fn report(hash: &str, complete: bool, added_on: i64) -> RemoteTorrent {
    RemoteTorrent {
        hash: Some(hash.to_string()),
        complete: Some(complete),
        content_path: Some(format!("path/{}", hash)),
        name: Some(format!("name of {}", hash)),
        added_on: Some(added_on),
    }
}

fn relay_path(hash: &str) -> String {
    std::path::Path::new("relay")
        .join("artifacts")
        .join(hash)
        .to_string_lossy()
        .into_owned()
}

fn exited(success: bool) -> CommandOutcome {
    CommandOutcome::Exited {
        success,
        status: if success { "exit status: 0".to_string() } else { "exit status: 12".to_string() },
        stderr: "broken pipe".to_string(),
    }
}

fn statuses(store: &StorageManager, hashes: &[&str]) -> Vec<Option<TaskStatus>> {
    hashes.iter().map(|hash| store.status_of(hash)).collect()
}

#[test]
fn end_to_end() {
    let config = config(false);
    let transmitter = RsyncTransmitter::from_config(&config);
    let state = ApiState { api_key: config.api_key.clone() };
    let mut store = StorageManager::new(config.storage_path.clone());

    assert!(update_status(&mut store, &[report("H1", false, 1_000)], 1_000).is_ok());
    assert_eq!(store.status_of("H1"), Some(TaskStatus::Tracking));
    assert!(update_status(&mut store, &[report("H1", true, 1_000)], 2_000).is_ok());
    assert_eq!(store.status_of("H1"), Some(TaskStatus::TorrentReady));

    let mut run = TransferRun::start(&transmitter, &store).unwrap();
    assert_eq!(run.remaining(), 1);
    let step = run.next_step(&store).unwrap();
    assert_eq!(step.hash, "H1");
    assert_eq!(step.name, "name of H1");
    assert_eq!(step.source, "path/H1");
    assert_eq!(step.dest, relay_path("H1"));
    match &step.plan {
        TransferPlan::Run(arguments) => {
            assert_eq!(arguments[arguments.len() - 2], "seed:path/H1");
            assert_eq!(arguments[arguments.len() - 1], relay_path("H1"));
        }
        TransferPlan::Skip => panic!("expected a run"),
    }
    let outcome = step_result(Ok(()), &step.dest, Some(exited(true)));
    assert!(run.complete_step(&mut store, outcome).is_ok());
    assert!(run.next_step(&store).is_none());
    assert_eq!(run.finish(), 1);
    assert_eq!(store.status_of("H1"), Some(TaskStatus::ArtifactReady));

    let listed = list_artifacts(&state, Some("Bearer secret"), &store).unwrap();
    assert_eq!(listed.len(), 1);
    assert_eq!(listed[0].hash, "H1");
    assert_eq!(listed[0].name, "name of H1");
    assert_eq!(listed[0].path, relay_path("H1"));

    let confirmed = confirm_artifact(&state, Some("Bearer secret"), &mut store, "H1");
    assert_eq!(response_status(&confirmed), 200);
    assert_eq!(confirmed.unwrap(), relay_path("H1"));
    assert!(matches!(reclaimed(Ok(())), Ok(200)));
    assert_eq!(store.status_of("H1"), Some(TaskStatus::Archived));

    let again = confirm_artifact(&state, Some("Bearer secret"), &mut store, "H1");
    assert!(matches!(again, Err(ApiError::AlreadyArchived)));
    assert_eq!(response_status(&again), 409);
    assert!(list_artifacts(&state, Some("Bearer secret"), &store).unwrap().is_empty());
}

#[test]
fn overlapping_batch_is_skipped_and_touches_nothing() {
    let config = config(false);
    let transmitter = RsyncTransmitter::from_config(&config);
    let mut store = StorageManager::new(config.storage_path.clone());
    update_status(&mut store, &[report("H1", true, 5), report("H2", true, 5)], 0).unwrap();

    let first = TransferRun::start(&transmitter, &store).unwrap();
    let second = TransferRun::start(&transmitter, &store);
    let result = match second {
        Ok(_) => panic!("the second batch must not get the lease"),
        Err(error) => Err(error),
    };
    assert!(matches!(
        result,
        Err(AniplerDaemonError::RsyncTransfer(RsyncTransmitterError::OverlappingTransfer))
    ));
    assert_eq!(run_transfer_job(&result), JobReport::SkippedOverlap);
    assert_eq!(
        statuses(&store, &["H1", "H2"]),
        vec![Some(TaskStatus::TorrentReady), Some(TaskStatus::TorrentReady)]
    );
    assert_eq!(first.remaining(), 2);
    drop(first);
    assert!(TransferRun::start(&transmitter, &store).is_ok());
}

#[test]
fn failed_transfer_aborts_the_rest_and_keeps_what_was_done() {
    let config = config(false);
    let transmitter = RsyncTransmitter::from_config(&config);
    let mut store = StorageManager::new(config.storage_path.clone());
    update_status(
        &mut store,
        &[report("H1", true, 5), report("H2", true, 5), report("H3", true, 5)],
        0,
    )
    .unwrap();

    let mut run = TransferRun::start(&transmitter, &store).unwrap();
    let step = run.next_step(&store).unwrap();
    assert_eq!(step.hash, "H1");
    let ok = step_result(Ok(()), &step.dest, Some(exited(true)));
    assert!(run.complete_step(&mut store, ok).is_ok());
    let step = run.next_step(&store).unwrap();
    assert_eq!(step.hash, "H2");
    let failed = step_result(Ok(()), &step.dest, Some(exited(false)));
    let result = run.complete_step(&mut store, failed);
    match &result {
        Err(AniplerDaemonError::RsyncTransfer(RsyncTransmitterError::RsyncFailed { dest, reason })) => {
            assert_eq!(dest, &relay_path("H2"));
            assert_eq!(reason, "rsync exited with code exit status: 12: broken pipe");
        }
        other => panic!("unexpected result: {:?}", other),
    }
    assert_eq!(run_transfer_job(&result), JobReport::Failed);
    assert!(run.next_step(&store).is_none());
    assert_eq!(run.remaining(), 0);
    assert_eq!(run.transferred(), 1);
    assert_eq!(run.finish(), 1);
    assert_eq!(
        statuses(&store, &["H1", "H2", "H3"]),
        vec![
            Some(TaskStatus::ArtifactReady),
            Some(TaskStatus::TorrentReady),
            Some(TaskStatus::TorrentReady)
        ]
    );

    let mut retry = TransferRun::start(&transmitter, &store).unwrap();
    assert_eq!(retry.remaining(), 2);
    assert_eq!(retry.next_step(&store).unwrap().hash, "H2");
    assert!(retry.complete_step(&mut store, Ok(())).is_ok());
    assert_eq!(retry.next_step(&store).unwrap().hash, "H3");
    assert!(retry.complete_step(&mut store, Ok(())).is_ok());
    assert!(retry.next_step(&store).is_none());
    assert_eq!(retry.finish(), 2);
    assert_eq!(
        statuses(&store, &["H1", "H2", "H3"]),
        vec![
            Some(TaskStatus::ArtifactReady),
            Some(TaskStatus::ArtifactReady),
            Some(TaskStatus::ArtifactReady)
        ]
    );
}

#[test]
fn dry_run_plans_nothing_and_marks_nothing() {
    let config = config(true);
    let transmitter = RsyncTransmitter::from_config(&config);
    let mut store = StorageManager::new(config.storage_path.clone());
    update_status(&mut store, &[report("H1", true, 5)], 0).unwrap();
    let mut run = TransferRun::start(&transmitter, &store).unwrap();
    let step = run.next_step(&store).unwrap();
    assert!(matches!(step.plan, TransferPlan::Skip));
    assert_eq!(step.dest, relay_path("H1"));
    let outcome = step_result(Ok(()), &step.dest, None);
    assert!(run.complete_step(&mut store, outcome).is_ok());
    assert!(run.next_step(&store).is_none());
    assert_eq!(run.finish(), 1);
    assert_eq!(store.status_of("H1"), Some(TaskStatus::TorrentReady));
}

#[test]
fn batch_with_nothing_ready_is_through_at_once() {
    let config = config(false);
    let transmitter = RsyncTransmitter::from_config(&config);
    let mut store = StorageManager::new(config.storage_path.clone());
    update_status(&mut store, &[report("H1", false, 5)], 0).unwrap();
    let mut run = TransferRun::start(&transmitter, &store).unwrap();
    assert_eq!(run.remaining(), 0);
    assert!(run.next_step(&store).is_none());
    assert!(run.complete_step(&mut store, Ok(())).is_ok());
    assert_eq!(run.transferred(), 0);
    assert_eq!(store.status_of("H1"), Some(TaskStatus::Tracking));
    let result: Result<(), AniplerDaemonError> = Ok(());
    drop(run);
    assert_eq!(run_transfer_job(&result), JobReport::Completed);
}

#[test]
fn unprepared_destination_is_a_storage_failure() {
    let result = step_result(Err("permission denied".to_string()), "d", Some(exited(true)));
    match &result {
        Err(AniplerDaemonError::Storage(StorageManagerError::Io(text))) => {
            assert_eq!(text, "permission denied");
        }
        other => panic!("unexpected result: {:?}", other),
    }
    assert_eq!(
        result.unwrap_err().message(),
        "Storage manager error: I/O error: permission denied"
    );
    let not_started = step_result(Ok(()), "d", Some(CommandOutcome::NotStarted("gone".into())));
    assert_eq!(
        not_started.unwrap_err().message(),
        "rsync transfer failed: Rsync command failed for d: failed to execute rsync command: gone"
    );
    assert_eq!(
        AniplerDaemonError::InvalidQBitApiResponse("x".into()).message(),
        "QBit API responded with an invalid response: x"
    );
}

#[test]
fn poll_sets_the_watermark_once_and_filters_by_it() {
    let mut store = StorageManager::new("relay".to_string());
    update_status(&mut store, &[report("old", true, 999), report("new", true, 1_000)], 1_000)
        .unwrap();
    assert_eq!(store.status_of("old"), None);
    assert_eq!(store.status_of("new"), Some(TaskStatus::TorrentReady));
    for now in [0, 500, 5_000] {
        update_status(&mut store, &[report("old", true, 999), report("older", false, 1)], now)
            .unwrap();
        assert_eq!(store.status_of("old"), None);
        assert_eq!(store.status_of("older"), None);
        assert_eq!(store.earliest_import_date(now), 1_000);
    }
    assert_eq!(store.task_count(), 1);
}

#[test]
fn poll_with_an_incomplete_report_changes_no_task() {
    let mut store = StorageManager::new("relay".to_string());
    let mut broken = report("H2", true, 10);
    broken.name = None;
    let result = update_status(&mut store, &[report("H1", true, 10), broken], 5);
    match result {
        Err(AniplerError::InvalidApiResponse(text)) => {
            assert_eq!(text, "Missing field name in torrent info");
        }
        other => panic!("unexpected result: {:?}", other),
    }
    assert_eq!(store.task_count(), 0);
    assert_eq!(store.earliest_import_date(99), 5);
}

#[test]
fn commands_start_the_jobs_of_the_scheduler() {
    assert_eq!(handle_command(BotCommand::PullJob), Job::Pull);
    assert_eq!(handle_command(BotCommand::TransferJob), Job::Transfer);
    assert_eq!(handle_command(BotCommand::ReportAvailable), Job::Report);
    let schedule = run_jobs(&config(false));
    assert_eq!(schedule.len(), 2);
    assert_eq!(schedule[0].cron, "0 0 0/30 * * *");
    assert_eq!(schedule[0].job, Job::Pull);
    assert_eq!(schedule[1].cron, "0 0 * * * *");
    assert_eq!(schedule[1].job, Job::Transfer);
}

#[test]
fn main_loop_answers_events() {
    let mut state = LoopState::new();
    assert_eq!(
        state.on_event(&DaemonEvent::Command(BotCommand::TransferJob)),
        LoopAction::Spawn(Job::Transfer)
    );
    assert_eq!(
        state.on_event(&DaemonEvent::CommandFailed(TelegramBotError::NotRunning)),
        LoopAction::Continue
    );
    assert_eq!(
        state.on_event(&DaemonEvent::CommandFailed(TelegramBotError::ShutdownFailed("x".into()))),
        LoopAction::Continue
    );
    assert_eq!(state, LoopState { cancelled: false, api_exited: false });
    assert_eq!(state.on_event(&DaemonEvent::Interrupt), LoopAction::Shutdown);
    assert_eq!(state, LoopState { cancelled: true, api_exited: false });
    assert_eq!(state.on_event(&DaemonEvent::Interrupt), LoopAction::Shutdown);
    assert_eq!(state, LoopState { cancelled: true, api_exited: false });
}

#[test]
fn closed_command_channel_shuts_down() {
    let mut state = LoopState::new();
    assert_eq!(
        state.on_event(&DaemonEvent::CommandFailed(TelegramBotError::ChannelClosed)),
        LoopAction::Shutdown
    );
    assert!(state.cancelled);
    assert_eq!(
        state.shutdown(),
        vec![
            ShutdownStep::Cancel,
            ShutdownStep::AwaitApi,
            ShutdownStep::AwaitScheduler,
            ShutdownStep::StopBot
        ]
    );
}

#[test]
fn end_of_the_handoff_service_shuts_down_without_waiting_for_it() {
    let mut state = LoopState::new();
    assert_eq!(
        state.on_event(&DaemonEvent::ApiExited(ApiExit::ServerError("bind".into()))),
        LoopAction::Shutdown
    );
    assert!(state.api_exited);
    assert!(!state.cancelled);
    assert_eq!(
        state.shutdown(),
        vec![ShutdownStep::Cancel, ShutdownStep::AwaitScheduler, ShutdownStep::StopBot]
    );
    assert!(state.cancelled);
    let mut state = LoopState::new();
    assert_eq!(
        state.on_event(&DaemonEvent::ApiExited(ApiExit::JoinError("panic".into()))),
        LoopAction::Shutdown
    );
    let mut state = LoopState::new();
    assert_eq!(
        state.on_event(&DaemonEvent::ApiExited(ApiExit::Graceful)),
        LoopAction::Unreachable
    );
}

#[test]
fn batch_without_the_lease_hands_the_refusal_on() {
    let store = StorageManager::new("relay".to_string());
    for (refusal, expected) in [
        (RsyncTransmitterError::SemaphoreClosed, "rsync transfer failed: semaphore closed"),
        (
            RsyncTransmitterError::OverlappingTransfer,
            "rsync transfer failed: Another transfer job is already in progress",
        ),
    ] {
        match TransferRun::begin(Err(refusal), &store) {
            Ok(_) => panic!("a batch began without the lease"),
            Err(error) => assert_eq!(error.message(), expected),
        }
    }
    let closed: Result<(), AniplerDaemonError> =
        Err(AniplerDaemonError::RsyncTransfer(RsyncTransmitterError::SemaphoreClosed));
    assert_eq!(run_transfer_job(&closed), JobReport::Failed);
}

#[test]
fn copy_tool_runs_only_for_a_prepared_run() {
    let live = config(false);
    let transmitter = RsyncTransmitter::from_config(&live);
    let mut store = StorageManager::new(live.storage_path.clone());
    update_status(&mut store, &[report("H1", true, 5)], 0).unwrap();
    let run = TransferRun::start(&transmitter, &store).unwrap();
    let step = run.next_step(&store).unwrap();
    let planned = match &step.plan {
        TransferPlan::Run(arguments) => arguments.clone(),
        TransferPlan::Skip => panic!("expected a run"),
    };
    assert_eq!(step.command(&Ok(())), Some(&planned));
    assert_eq!(step.command(&Err("permission denied".to_string())), None);
    drop(run);

    let dry = config(true);
    let transmitter = RsyncTransmitter::from_config(&dry);
    let run = TransferRun::start(&transmitter, &store).unwrap();
    let step = run.next_step(&store).unwrap();
    assert_eq!(step.command(&Ok(())), None);
    assert_eq!(step.command(&Err("permission denied".to_string())), None);
}
