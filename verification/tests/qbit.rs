use anipler::error::AniplerError;
use anipler::qbit::{query_torrents, read_report, RemoteTorrent};
use anipler::task::TorrentStatus;

fn report(hash: &str, complete: bool, added_on: i64) -> RemoteTorrent {
    RemoteTorrent {
        hash: Some(hash.to_string()),
        complete: Some(complete),
        content_path: Some(format!("path/{}", hash)),
        name: Some(format!("name of {}", hash)),
        added_on: Some(added_on),
    }
}

fn invalid_text(result: Result<Vec<anipler::task::TorrentTaskInfo>, AniplerError>) -> String {
    match result {
        Err(AniplerError::InvalidApiResponse(text)) => text,
        other => panic!("expected an invalid response, got {:?}", other),
    }
}

#[test]
fn complete_reports_are_described() {
    let (info, added_on) = read_report(&report("H1", false, 7)).unwrap();
    assert_eq!(info.hash, "H1");
    assert_eq!(info.status, TorrentStatus::Downloading);
    assert_eq!(info.content_path, "path/H1");
    assert_eq!(info.name, "name of H1");
    assert_eq!(added_on, 7);
    let (info, _) = read_report(&report("H2", true, 7)).unwrap();
    assert_eq!(info.status, TorrentStatus::Seeding);
}

#[test]
fn selection_keeps_order_and_drops_items_before_the_watermark() {
    let items = [
        report("H1", false, 100),
        report("H2", true, 99),
        report("H3", true, 101),
        report("H4", false, 0),
    ];
    let torrents = query_torrents(&items, 100).unwrap();
    let hashes: Vec<&str> = torrents.iter().map(|t| t.hash.as_str()).collect();
    assert_eq!(hashes, vec!["H1", "H3"]);
    assert_eq!(torrents[0].status, TorrentStatus::Downloading);
    assert_eq!(torrents[1].status, TorrentStatus::Seeding);
}

#[test]
fn item_added_at_the_watermark_is_tracked() {
    let torrents = query_torrents(&[report("H1", true, 100)], 100).unwrap();
    assert_eq!(torrents.len(), 1);
    let torrents = query_torrents(&[report("H1", true, 99)], 100).unwrap();
    assert!(torrents.is_empty());
}

#[test]
fn empty_answer_selects_nothing() {
    assert!(query_torrents(&[], 0).unwrap().is_empty());
}

#[test]
fn missing_fields_are_named_in_reading_order() {
    let mut item = report("H1", true, 100);
    item.added_on = None;
    assert_eq!(
        invalid_text(query_torrents(&[report("H0", true, 100), item], 0)),
        "Missing field added_on in torrent info"
    );
    let mut item = report("H1", true, 100);
    item.name = None;
    item.added_on = None;
    assert_eq!(
        invalid_text(query_torrents(std::slice::from_ref(&item), 0)),
        "Missing field name in torrent info"
    );
    item.content_path = None;
    assert_eq!(
        invalid_text(query_torrents(std::slice::from_ref(&item), 0)),
        "Missing field content_path in torrent info"
    );
    item.complete = None;
    assert_eq!(
        invalid_text(query_torrents(std::slice::from_ref(&item), 0)),
        "Missing field progress in torrent info"
    );
    item.hash = None;
    assert_eq!(
        invalid_text(query_torrents(std::slice::from_ref(&item), 0)),
        "Missing field hash in torrent info"
    );
}

#[test]
fn first_incomplete_report_decides_the_error() {
    let mut first = report("H1", true, 100);
    first.name = None;
    let mut second = report("H2", true, 100);
    second.hash = None;
    assert_eq!(
        invalid_text(query_torrents(&[report("H0", true, 1), first, second], 0)),
        "Missing field name in torrent info"
    );
}

#[test]
fn incomplete_report_before_the_watermark_is_still_an_error() {
    let mut stale = report("H1", true, 1);
    stale.content_path = None;
    assert_eq!(
        invalid_text(query_torrents(&[stale], 100)),
        "Missing field content_path in torrent info"
    );
}

#[test]
fn anipler_error_messages() {
    assert_eq!(
        AniplerError::InvalidApiResponse("x".into()).message(),
        "API responded with an invalid response: x"
    );
    assert_eq!(
        AniplerError::RsyncFailed { dest: "d".into(), reason: "r".into() }.message(),
        "Rsync command failed for d: r"
    );
    assert_eq!(
        AniplerError::OverlappingTransferJob.message(),
        "Another transfer job is already in progress"
    );
}
