//! Settings of the daemon and of the puller, as plain values.

use vstd::prelude::*;

verus! {

/// What the command line says to the daemon.
#[derive(Debug, Clone, Copy)]
pub struct DaemonArgs {
    /// Plan transfers but run none, and leave every status as it is.
    pub no_transfer: bool,
    /// Keep the task table in memory only.
    pub stateless: bool,
}

/// What the environment says to the daemon. The address of the handoff
/// service and the bandwidth ceiling may be left out.
#[derive(Debug)]
pub struct DaemonEnv {
    pub qbit_url: String,
    pub qbit_username: String,
    pub qbit_password: String,
    pub storage_path: String,
    pub seedbox_ssh_host: String,
    pub seedbox_ssh_key: String,
    pub rsync_speed_limit: Option<u32>,
    pub telegram_bot_token: String,
    pub telegram_chat_id: i64,
    pub api_addr: Option<String>,
    pub api_key: String,
}

/// Everything the daemon is configured with.
#[derive(Debug)]
pub struct DaemonConfig {
    pub pull_cron: String,
    pub qbit_url: String,
    pub qbit_username: String,
    pub qbit_password: String,
    pub no_transfer: bool,
    pub stateless: bool,
    pub storage_path: String,
    pub transfer_cron: String,
    pub seedbox_ssh_host: String,
    pub seedbox_ssh_key: String,
    pub rsync_speed_limit: Option<u32>,
    pub telegram_bot_token: String,
    pub telegram_chat_id: i64,
    pub api_addr: String,
    pub api_key: String,
}

/// When the seed host is polled: the hours from 0 in steps of 30, which is
/// once a day at midnight.
pub open spec fn pull_schedule() -> Seq<char> {
    "0 0 0/30 * * *"@
}

/// When a transfer batch is started: every hour, on the hour.
pub open spec fn transfer_schedule() -> Seq<char> {
    "0 0 * * * *"@
}

/// Where the handoff service listens unless told otherwise.
pub open spec fn default_api_addr() -> Seq<char> {
    "0.0.0.0:8080"@
}

impl DaemonConfig {
    /// Puts the configuration together from the command line and the
    /// environment. The two schedules are fixed; the handoff service listens
    /// on the default address unless the environment names one.
    pub fn from_env(args: &DaemonArgs, env: DaemonEnv) -> (config: DaemonConfig)
        ensures
            config.pull_cron@ == pull_schedule(),
            config.transfer_cron@ == transfer_schedule(),
            config.no_transfer == args.no_transfer,
            config.stateless == args.stateless,
            config.qbit_url == env.qbit_url,
            config.qbit_username == env.qbit_username,
            config.qbit_password == env.qbit_password,
            config.storage_path == env.storage_path,
            config.seedbox_ssh_host == env.seedbox_ssh_host,
            config.seedbox_ssh_key == env.seedbox_ssh_key,
            config.rsync_speed_limit == env.rsync_speed_limit,
            config.telegram_bot_token == env.telegram_bot_token,
            config.telegram_chat_id == env.telegram_chat_id,
            config.api_key == env.api_key,
            config.api_addr@ == match env.api_addr {
                Some(addr) => addr@,
                None => default_api_addr(),
            },
    {
        let api_addr = match env.api_addr {
            Some(addr) => addr,
            None => String::from_str("0.0.0.0:8080"),
        };
        DaemonConfig {
            pull_cron: String::from_str("0 0 0/30 * * *"),
            qbit_url: env.qbit_url,
            qbit_username: env.qbit_username,
            qbit_password: env.qbit_password,
            no_transfer: args.no_transfer,
            stateless: args.stateless,
            storage_path: env.storage_path,
            transfer_cron: String::from_str("0 0 * * * *"),
            seedbox_ssh_host: env.seedbox_ssh_host,
            seedbox_ssh_key: env.seedbox_ssh_key,
            rsync_speed_limit: env.rsync_speed_limit,
            telegram_bot_token: env.telegram_bot_token,
            telegram_chat_id: env.telegram_chat_id,
            api_addr,
            api_key: env.api_key,
        }
    }
}

/// What the configuration file says to the puller.
#[derive(Debug)]
pub struct PullerConfig {
    pub api_url: String,
    pub api_key: String,
    pub ssh_host: String,
    pub destination: String,
}

/// What the command line says to the puller.
#[derive(Debug)]
pub struct Args {
    /// The configuration file to read.
    pub config: Option<String>,
    /// How much to log.
    pub log_level: Option<String>,
}

} // verus!
