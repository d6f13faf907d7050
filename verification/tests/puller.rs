use anipler::config::PullerConfig;
use anipler::puller::{default_config_path, AniplerPuller, PullerVerdict};
use anipler::rsync::CommandOutcome;
use anipler::task::ArtifactInfo;

fn puller(base: &str) -> AniplerPuller {
    AniplerPuller::from_config(PullerConfig {
        api_url: base.to_string(),
        api_key: "secret".to_string(),
        ssh_host: "relay".to_string(),
        destination: "/data/in".to_string(),
    })
}

fn artifact(hash: &str) -> ArtifactInfo {
    ArtifactInfo {
        hash: hash.to_string(),
        name: format!("name of {}", hash),
        path: format!("/srv/artifacts/{}", hash),
    }
}

fn success() -> CommandOutcome {
    CommandOutcome::Exited { success: true, status: "exit status: 0".into(), stderr: String::new() }
}

#[test]
fn header_carries_the_key() {
    assert_eq!(puller("http://relay:8080").auth_header(), "Bearer secret");
}

#[test]
fn addresses_are_resolved_against_the_base() {
    let client = puller("http://relay:8080/base/");
    assert_eq!(client.list_url().unwrap(), "http://relay:8080/api/artifacts");
    assert_eq!(
        client.confirm_url("H1").unwrap(),
        "http://relay:8080/api/artifacts/H1/confirm"
    );
    assert_eq!(
        client.confirm_url("a b").unwrap(),
        "http://relay:8080/api/artifacts/a%20b/confirm"
    );
    let plain = puller("https://relay.example");
    assert_eq!(plain.list_url().unwrap(), "https://relay.example/api/artifacts");
}

#[test]
fn invalid_base_is_reported() {
    let client = puller("not an address");
    let error = client.list_url().unwrap_err();
    assert!(error.starts_with("Invalid URL: "));
    assert!(error.len() > "Invalid URL: ".len());
    assert_eq!(error, format!("Invalid URL: {}", url::Url::parse("not an address").unwrap_err()));
    assert!(client.confirm_url("H1").is_err());
}

#[test]
fn list_is_taken_from_a_successful_answer_only() {
    let mut client = puller("http://relay:8080");
    assert_eq!(client.fetch_artifacts_list(200, vec![artifact("H1"), artifact("H2")], ""), Ok(2));
    assert_eq!(client.remaining(), 2);
    assert_eq!(
        client.fetch_artifacts_list(401, vec![artifact("H9")], "Unauthorized"),
        Err("Server error: Unauthorized".to_string())
    );
    assert_eq!(client.remaining(), 2);
    assert_eq!(client.next_transfer().unwrap().hash, "H2");
    assert_eq!(client.fetch_artifacts_list(200, Vec::new(), ""), Ok(0));
    assert_eq!(client.remaining(), 0);
}

#[test]
fn artifacts_are_pulled_last_first() {
    let mut client = puller("http://relay:8080");
    client
        .fetch_artifacts_list(200, vec![artifact("H1"), artifact("H2"), artifact("H3")], "")
        .unwrap();
    let mut order = Vec::new();
    while let Some(step) = client.next_transfer() {
        assert_eq!(step.name, format!("name of {}", step.hash));
        let confirmed = client.transfer_next(success()).unwrap();
        assert_eq!(confirmed.as_deref(), Some(step.hash.as_str()));
        order.push(step.hash);
    }
    assert_eq!(order, vec!["H3", "H2", "H1"]);
    assert_eq!(client.transfer_next(success()), Ok(None));
}

#[test]
fn pull_arguments_are_a_mirror_through_the_remote_shell() {
    let mut client = puller("http://relay:8080");
    client.fetch_artifacts_list(200, vec![artifact("H1")], "").unwrap();
    let step = client.next_transfer().unwrap();
    assert_eq!(
        step.arguments,
        vec![
            "--delete",
            "--partial",
            "--recursive",
            "-s",
            "--rsh",
            "ssh -o 'StrictHostKeyChecking=no' -o 'BatchMode=yes'",
            "relay:/srv/artifacts/H1",
            "/data/in",
        ]
    );
}

#[test]
fn failed_pull_keeps_the_artifact_in_the_list() {
    let mut client = puller("http://relay:8080");
    client.fetch_artifacts_list(200, vec![artifact("H1"), artifact("H2")], "").unwrap();
    let failed = CommandOutcome::Exited {
        success: false,
        status: "exit status: 255".into(),
        stderr: "connection refused".into(),
    };
    let result = client.transfer_next(failed);
    assert_eq!(result, Err("rsync failed: connection refused".to_string()));
    assert_eq!(AniplerPuller::verdict(&result), PullerVerdict::Aborted);
    assert_eq!(client.remaining(), 2);
    let result = client.transfer_next(CommandOutcome::NotStarted("not found".into()));
    assert_eq!(result, Err("Failed to execute rsync command: not found".to_string()));
    assert_eq!(client.remaining(), 2);
    assert_eq!(client.next_transfer().unwrap().hash, "H2");
}

#[test]
fn confirmation_answers() {
    assert_eq!(AniplerPuller::confirm(200, ""), Ok(true));
    assert_eq!(AniplerPuller::confirm(409, "Artifact already archived"), Ok(false));
    assert_eq!(
        AniplerPuller::confirm(404, "Artifact not found"),
        Err("Server error: Artifact not found".to_string())
    );
    assert_eq!(AniplerPuller::confirm(500, "x"), Err("Server error: x".to_string()));
    assert_eq!(AniplerPuller::confirm(201, ""), Err("Server error: ".to_string()));
}

#[test]
fn verdicts_of_the_loop() {
    let pulled: Result<Option<String>, String> = Ok(Some("H1".to_string()));
    let empty: Result<Option<String>, String> = Ok(None);
    let failed: Result<Option<String>, String> = Err("x".to_string());
    assert_eq!(AniplerPuller::verdict(&pulled), PullerVerdict::Continue);
    assert_eq!(AniplerPuller::verdict(&empty), PullerVerdict::Finished);
    assert_eq!(AniplerPuller::verdict(&failed), PullerVerdict::Aborted);
}

#[test]
fn default_configuration_path() {
    let expected = std::path::Path::new("/home/u/.config")
        .join("anipler/puller.toml")
        .to_string_lossy()
        .into_owned();
    assert_eq!(default_config_path(Some("/home/u/.config")), Ok(expected));
    assert_ne!(
        default_config_path(Some("/home/u/.config")),
        Ok("/home/u/.config".to_string())
    );
    assert_eq!(
        default_config_path(None),
        Err("Failed to get config directory".to_string())
    );
}
