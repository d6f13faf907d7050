//! The handoff protocol, seen from the puller: the list of artifacts is
//! fetched once and worked off from its end, one artifact at a time, until it
//! is empty or something fails.

use vstd::prelude::*;

use crate::config::PullerConfig;
use crate::storage::{join_path, path_joined};
use crate::rsync::{join_words, mirror_options, remote_source, shell_joined, CommandOutcome};
use crate::task::{artifact_views, ArtifactInfo, ArtifactInfoView};
use crate::text::texts;

verus! {

/// The address that `url::Url::join` gives for a reference read against a
/// base address, as text; or, where the base is no absolute address or the
/// reference cannot be read against it, what the parser says of it.
pub uninterp spec fn url_joined(base: Seq<char>, reference: Seq<char>) -> Result<
    Seq<char>,
    Seq<char>,
>;

/// The texts in the result of a joined address.
pub open spec fn joined_texts(result: Result<String, String>) -> Result<Seq<char>, Seq<char>> {
    match result {
        Ok(address) => Ok(address@),
        Err(cause) => Err(cause@),
    }
}

/// Reads `base` with `url::Url::parse` and resolves `reference` against it
/// with `url::Url::join`. The contract gives the result its name: it is a
/// function of the two texts.
#[verifier::external_body]
fn join_url(base: &str, reference: &str) -> (result: Result<String, String>)
    ensures
        joined_texts(result) == url_joined(base@, reference@),
{
    match url::Url::parse(base) {
        Ok(parsed) => match parsed.join(reference) {
            Ok(joined) => Ok(String::from(joined)),
            Err(error) => Err(error.to_string()),
        },
        Err(error) => Err(error.to_string()),
    }
}

/// The path under which the service lists the artifacts.
pub open spec fn list_path() -> Seq<char> {
    "/api/artifacts"@
}

/// The path under which the service takes the confirmation for `hash`.
pub open spec fn confirm_path(hash: Seq<char>) -> Seq<char> {
    "/api/artifacts/"@ + hash + "/confirm"@
}

/// What is said of an address that cannot be made.
pub open spec fn invalid_url_text(cause: Seq<char>) -> Seq<char> {
    "Invalid URL: "@ + cause
}

/// What is said of an answer that is no success.
pub open spec fn server_error_text(body: Seq<char>) -> Seq<char> {
    "Server error: "@ + body
}

/// What is said when the copy tool could not be started.
pub open spec fn pull_not_started_text(cause: Seq<char>) -> Seq<char> {
    "Failed to execute rsync command: "@ + cause
}

/// What is said when the copy tool ended in failure.
pub open spec fn pull_failed_text(stderr: Seq<char>) -> Seq<char> {
    "rsync failed: "@ + stderr
}

/// The words of the puller's remote shell: ssh, never asking about host keys
/// and never prompting.
pub open spec fn pull_shell_words() -> Seq<Seq<char>> {
    seq!["ssh"@, "-o"@, "StrictHostKeyChecking=no"@, "-o"@, "BatchMode=yes"@]
}

/// The arguments of the copy tool for pulling `path` from `host` into
/// `destination`, given the line of the remote shell.
pub open spec fn pull_arguments(
    remote_shell: Seq<char>,
    host: Seq<char>,
    path: Seq<char>,
    destination: Seq<char>,
) -> Seq<Seq<char>> {
    mirror_options() + seq!["--rsh"@, remote_shell] + seq![remote_source(host, path), destination]
}

/// The mathematical value of an [`AniplerPuller`].
pub ghost struct PullerView {
    pub artifacts: Seq<ArtifactInfoView>,
    pub auth_header: Seq<char>,
    pub base_url: Seq<char>,
    pub destination: Seq<char>,
    pub ssh_host: Seq<char>,
}

/// The puller: what it was configured with and the artifacts it still has
/// to pull.
#[derive(Debug)]
pub struct AniplerPuller {
    artifacts: Vec<ArtifactInfo>,
    auth_header: String,
    base_url: String,
    destination: String,
    ssh_host: String,
}

impl View for AniplerPuller {
    type V = PullerView;

    closed spec fn view(&self) -> PullerView {
        PullerView {
            artifacts: artifact_views(self.artifacts@),
            auth_header: self.auth_header@,
            base_url: self.base_url@,
            destination: self.destination@,
            ssh_host: self.ssh_host@,
        }
    }
}

/// One artifact to pull: the copy tool is run with `arguments`.
#[derive(Debug)]
pub struct PullStep {
    pub hash: String,
    pub name: String,
    pub arguments: Vec<String>,
}

/// How the work on the list goes on after an attempt to pull.
#[derive(Debug, Clone, Copy, PartialEq, Eq, Structural)]
pub enum PullerVerdict {
    /// An artifact was pulled; go on with the next.
    Continue,
    /// The list is empty; the work is done.
    Finished,
    /// Something failed; the rest of the list is left alone.
    Aborted,
}

/// Prefixes `text` with `prefix`.
fn prefixed(prefix: &str, text: &str) -> (line: String)
    ensures
        line@ == prefix@ + text@,
{
    let mut line = String::from_str(prefix);
    line.append(text);
    line
}

impl AniplerPuller {
    /// The puller that the configuration asks for, with nothing to pull yet.
    pub fn from_config(config: PullerConfig) -> (puller: AniplerPuller)
        ensures
            puller@ == (PullerView {
                artifacts: Seq::empty(),
                auth_header: crate::api::bearer(config.api_key@),
                base_url: config.api_url@,
                destination: config.destination@,
                ssh_host: config.ssh_host@,
            }),
    {
        let puller = AniplerPuller {
            artifacts: Vec::new(),
            auth_header: prefixed("Bearer ", config.api_key.as_str()),
            base_url: config.api_url,
            destination: config.destination,
            ssh_host: config.ssh_host,
        };
        assert(artifact_views(puller.artifacts@) =~= Seq::empty());
        puller
    }

    /// The value of the authorization header of every request.
    pub fn auth_header(&self) -> (header: &str)
        ensures
            header@ == self@.auth_header,
    {
        self.auth_header.as_str()
    }

    /// The number of artifacts that are still to be pulled.
    pub fn remaining(&self) -> (count: usize)
        ensures
            count == self@.artifacts.len(),
    {
        self.artifacts.len()
    }

    /// The address of a path of the service, given what joining the path to
    /// the base address came to.
    pub fn address(joined: Result<String, String>) -> (result: Result<String, String>)
        ensures
            match joined {
                Ok(address) => result == Ok::<String, String>(address),
                Err(cause) => result matches Err(text) && text@ == invalid_url_text(cause@),
            },
    {
        match joined {
            Ok(address) => Ok(address),
            Err(cause) => Err(prefixed("Invalid URL: ", cause.as_str())),
        }
    }

    /// The address from which the list of artifacts is fetched.
    pub fn list_url(&self) -> (result: Result<String, String>)
        ensures
            match url_joined(self@.base_url, list_path()) {
                Ok(address) => result matches Ok(text) && text@ == address,
                Err(cause) => result matches Err(text) && text@ == invalid_url_text(cause),
            },
    {
        Self::address(join_url(self.base_url.as_str(), "/api/artifacts"))
    }

    /// The address to which the receipt of `hash` is confirmed.
    pub fn confirm_url(&self, hash: &str) -> (result: Result<String, String>)
        ensures
            match url_joined(self@.base_url, confirm_path(hash@)) {
                Ok(address) => result matches Ok(text) && text@ == address,
                Err(cause) => result matches Err(text) && text@ == invalid_url_text(cause),
            },
    {
        let mut path = String::from_str("/api/artifacts/");
        path.append(hash);
        path.append("/confirm");
        Self::address(join_url(self.base_url.as_str(), path.as_str()))
    }

    /// Takes the answer to the request for the list. An answer with status
    /// 200 replaces the list of what is to be pulled, and the result is its
    /// length. Any other answer leaves the list alone and is an error that
    /// carries the body.
    pub fn fetch_artifacts_list(&mut self, status: u16, artifacts: Vec<ArtifactInfo>, body: &str) -> (result:
        Result<usize, String>)
        ensures
            final(self)@.auth_header == old(self)@.auth_header,
            final(self)@.base_url == old(self)@.base_url,
            final(self)@.destination == old(self)@.destination,
            final(self)@.ssh_host == old(self)@.ssh_host,
            status == 200 ==> final(self)@.artifacts == artifact_views(artifacts@) && result
                == Ok::<usize, String>(artifacts.len()),
            status != 200 ==> final(self)@.artifacts == old(self)@.artifacts && result.is_err()
                && result.unwrap_err()@ == server_error_text(body@),
    {
        if status == 200 {
            let count = artifacts.len();
            self.artifacts = artifacts;
            Ok(count)
        } else {
            Err(prefixed("Server error: ", body))
        }
    }

    /// Reads the answer to a confirmation: with status 200 the artifact is
    /// newly archived, with status 409 it was archived before, and any other
    /// answer is an error that carries the body.
    pub fn confirm(status: u16, body: &str) -> (result: Result<bool, String>)
        ensures
            status == 200 ==> result == Ok::<bool, String>(true),
            status == 409 ==> result == Ok::<bool, String>(false),
            status != 200 && status != 409 ==> result.is_err() && result.unwrap_err()@
                == server_error_text(body@),
    {
        if status == 200 {
            Ok(true)
        } else if status == 409 {
            Ok(false)
        } else {
            Err(prefixed("Server error: ", body))
        }
    }

    /// The arguments of the copy tool for pulling `path`, given the line of
    /// the remote shell.
    pub fn arguments(&self, remote_shell: String, path: &str) -> (arguments: Vec<String>)
        ensures
            texts(arguments@) == pull_arguments(
                remote_shell@,
                self@.ssh_host,
                path@,
                self@.destination,
            ),
    {
        let mut arguments: Vec<String> = Vec::new();
        arguments.push(String::from_str("--delete"));
        arguments.push(String::from_str("--partial"));
        arguments.push(String::from_str("--recursive"));
        arguments.push(String::from_str("-s"));
        arguments.push(String::from_str("--rsh"));
        arguments.push(remote_shell);
        let mut from = self.ssh_host.clone();
        from.append(":");
        from.append(path);
        arguments.push(from);
        arguments.push(self.destination.clone());
        assert(texts(arguments@) =~= pull_arguments(
            remote_shell@,
            self@.ssh_host,
            path@,
            self@.destination,
        ));
        arguments
    }

    /// The artifact to pull next, which is the last of the list, with the
    /// arguments of the copy tool; `None` when the list is empty.
    pub fn next_transfer(&self) -> (step: Option<PullStep>)
        ensures
            step.is_none() == (self@.artifacts.len() == 0),
            step matches Some(s) ==> {
                &&& s.hash@ == self@.artifacts.last().hash
                &&& s.name@ == self@.artifacts.last().name
                &&& texts(s.arguments@) == pull_arguments(
                    shell_joined(pull_shell_words()),
                    self@.ssh_host,
                    self@.artifacts.last().path,
                    self@.destination,
                )
            },
    {
        if self.artifacts.len() == 0 {
            return None;
        }
        let artifact = &self.artifacts[self.artifacts.len() - 1];
        proof {
            assert(self@.artifacts.last() == artifact@);
        }
        let mut words: Vec<String> = Vec::new();
        words.push(String::from_str("ssh"));
        words.push(String::from_str("-o"));
        words.push(String::from_str("StrictHostKeyChecking=no"));
        words.push(String::from_str("-o"));
        words.push(String::from_str("BatchMode=yes"));
        assert(texts(words@) =~= pull_shell_words());
        let line = join_words(&words);
        Some(
            PullStep {
                hash: artifact.hash.clone(),
                name: artifact.name.clone(),
                arguments: self.arguments(line, artifact.path.as_str()),
            },
        )
    }

    /// Takes how the copy tool ended for the last artifact of the list.
    ///
    /// With an empty list nothing was to be pulled and the result is `None`.
    /// After a success the artifact leaves the list, and the result is its
    /// hash, which is to be confirmed next. After a failure the list stays as
    /// it is and the result is the error.
    pub fn transfer_next(&mut self, outcome: CommandOutcome) -> (result: Result<
        Option<String>,
        String,
    >)
        ensures
            final(self)@.auth_header == old(self)@.auth_header,
            final(self)@.base_url == old(self)@.base_url,
            final(self)@.destination == old(self)@.destination,
            final(self)@.ssh_host == old(self)@.ssh_host,
            old(self)@.artifacts.len() == 0 ==> {
                &&& result == Ok::<Option<String>, String>(None)
                &&& final(self)@.artifacts == old(self)@.artifacts
            },
            old(self)@.artifacts.len() > 0 ==> match outcome {
                CommandOutcome::NotStarted(cause) => {
                    &&& final(self)@.artifacts == old(self)@.artifacts
                    &&& result.is_err()
                    &&& result.unwrap_err()@ == pull_not_started_text(cause@)
                },
                CommandOutcome::Exited { success, status, stderr } => if success {
                    &&& final(self)@.artifacts == old(self)@.artifacts.drop_last()
                    &&& result.is_ok()
                    &&& result.unwrap().is_some()
                    &&& result.unwrap().unwrap()@ == old(self)@.artifacts.last().hash
                } else {
                    &&& final(self)@.artifacts == old(self)@.artifacts
                    &&& result.is_err()
                    &&& result.unwrap_err()@ == pull_failed_text(stderr@)
                },
            },
    {
        if self.artifacts.len() == 0 {
            return Ok(None);
        }
        match outcome {
            CommandOutcome::NotStarted(cause) => Err(
                prefixed("Failed to execute rsync command: ", cause.as_str()),
            ),
            CommandOutcome::Exited { success, status, stderr } => {
                if success {
                    let ghost listed = self.artifacts@;
                    let artifact = self.artifacts.pop().unwrap();
                    proof {
                        assert(artifact_views(listed).last() == artifact@);
                        assert(artifact_views(self.artifacts@) =~= artifact_views(
                            listed,
                        ).drop_last());
                    }
                    Ok(Some(artifact.hash))
                } else {
                    Err(prefixed("rsync failed: ", stderr.as_str()))
                }
            },
        }
    }

    /// How the work on the list goes on after an attempt to pull and to
    /// confirm: on after a pull, done with an empty list, over at the first
    /// error.
    pub fn verdict<T>(result: &Result<Option<T>, String>) -> (verdict: PullerVerdict)
        ensures
            verdict == match *result {
                Ok(Some(_)) => PullerVerdict::Continue,
                Ok(None) => PullerVerdict::Finished,
                Err(_) => PullerVerdict::Aborted,
            },
    {
        match result {
            Ok(Some(_)) => PullerVerdict::Continue,
            Ok(None) => PullerVerdict::Finished,
            Err(_) => PullerVerdict::Aborted,
        }
    }
}

/// The path of the puller's configuration below the directory that holds
/// the user's configuration.
pub open spec fn config_file() -> Seq<char> {
    "anipler/puller.toml"@
}

/// What is said when the user has no configuration directory.
pub open spec fn no_config_dir_text() -> Seq<char> {
    "Failed to get config directory"@
}

/// Where the puller looks for its configuration unless told otherwise:
/// below the user's configuration directory, if the user has one.
pub fn default_config_path(config_dir: Option<&str>) -> (result: Result<String, String>)
    ensures
        match config_dir {
            Some(dir) => result matches Ok(path) && path@ == path_joined(dir@, config_file()),
            None => result matches Err(text) && text@ == no_config_dir_text(),
        },
{
    match config_dir {
        Some(dir) => Ok(join_path(dir, "anipler/puller.toml")),
        None => Err(String::from_str("Failed to get config directory")),
    }
}

} // verus!
