//! Selecting, from what the seed host reports, the items to track.
//!
//! The seed host leaves fields out at will. A report with a missing field
//! makes the whole answer unusable. Of the complete reports, those of items
//! that were added before the watermark are dropped for good.

use vstd::prelude::*;

use crate::error::AniplerError;
use crate::task::{task_views, TorrentStatus, TorrentTaskInfo, TorrentTaskInfoView};

verus! {

/// One item as the seed host reports it. A field that the host left out is
/// `None`. `complete` says whether the reported progress has reached the
/// whole; `added_on` counts seconds since the epoch.
#[derive(Debug)]
pub struct RemoteTorrent {
    pub hash: Option<String>,
    pub complete: Option<bool>,
    pub content_path: Option<String>,
    pub name: Option<String>,
    pub added_on: Option<i64>,
}

/// The mathematical value of a [`RemoteTorrent`].
pub ghost struct RemoteTorrentView {
    pub hash: Option<Seq<char>>,
    pub complete: Option<bool>,
    pub content_path: Option<Seq<char>>,
    pub name: Option<Seq<char>>,
    pub added_on: Option<i64>,
}

/// The text of an optional string.
pub open spec fn text_of(field: Option<String>) -> Option<Seq<char>> {
    match field {
        Some(text) => Some(text@),
        None => None,
    }
}

impl View for RemoteTorrent {
    type V = RemoteTorrentView;

    open spec fn view(&self) -> RemoteTorrentView {
        RemoteTorrentView {
            hash: text_of(self.hash),
            complete: self.complete,
            content_path: text_of(self.content_path),
            name: text_of(self.name),
            added_on: self.added_on,
        }
    }
}

/// The values of a sequence of reports.
pub open spec fn report_views(items: Seq<RemoteTorrent>) -> Seq<RemoteTorrentView> {
    items.map_values(|item: RemoteTorrent| item@)
}

/// The first field that a report lacks, in the order in which the fields are
/// read: hash, progress, content path, name, time of addition.
pub open spec fn missing_field(item: RemoteTorrentView) -> Option<Seq<char>> {
    if item.hash.is_none() {
        Some("hash"@)
    } else if item.complete.is_none() {
        Some("progress"@)
    } else if item.content_path.is_none() {
        Some("content_path"@)
    } else if item.name.is_none() {
        Some("name"@)
    } else if item.added_on.is_none() {
        Some("added_on"@)
    } else {
        None
    }
}

/// What is said of a report that lacks `field`.
pub open spec fn missing_field_text(field: Seq<char>) -> Seq<char> {
    "Missing field "@ + field + " in torrent info"@
}

/// The status that a report's progress stands for.
pub open spec fn reported_status(complete: bool) -> TorrentStatus {
    if complete {
        TorrentStatus::Seeding
    } else {
        TorrentStatus::Downloading
    }
}

/// The item that a complete report describes.
pub open spec fn described(item: RemoteTorrentView) -> TorrentTaskInfoView {
    TorrentTaskInfoView {
        hash: item.hash.unwrap(),
        status: reported_status(item.complete.unwrap()),
        content_path: item.content_path.unwrap(),
        name: item.name.unwrap(),
    }
}

/// Whether a complete report is of an item that was added at or after the
/// watermark.
pub open spec fn eligible(item: RemoteTorrentView, watermark: i64) -> bool {
    item.added_on.unwrap() >= watermark
}

/// The items to track among `items`, in the order of the reports: those that
/// are eligible under the watermark.
pub open spec fn selection(items: Seq<RemoteTorrentView>, watermark: i64) -> Seq<
    TorrentTaskInfoView,
>
    decreases items.len(),
{
    if items.len() == 0 {
        Seq::empty()
    } else {
        let before = selection(items.drop_last(), watermark);
        if eligible(items.last(), watermark) {
            before.push(described(items.last()))
        } else {
            before
        }
    }
}

/// Whether every report in `items` has all its fields.
pub open spec fn all_complete(items: Seq<RemoteTorrentView>) -> bool {
    forall|i: int| 0 <= i < items.len() ==> missing_field(#[trigger] items[i]).is_none()
}

/// Whether `index` is the first report in `items` that lacks a field.
pub open spec fn first_incomplete(items: Seq<RemoteTorrentView>, index: int) -> bool {
    &&& 0 <= index < items.len()
    &&& missing_field(items[index]).is_some()
    &&& forall|i: int| 0 <= i < index ==> missing_field(#[trigger] items[i]).is_none()
}

/// Whether `error` says that a report lacks `field`.
pub open spec fn reports_missing(error: AniplerError, field: Seq<char>) -> bool {
    error matches AniplerError::InvalidApiResponse(text) && text@ == missing_field_text(field)
}

/// The error for a report that lacks `field`.
fn missing(field: &str) -> (error: AniplerError)
    ensures
        reports_missing(error, field@),
{
    let mut text = String::from_str("Missing field ");
    text.append(field);
    text.append(" in torrent info");
    AniplerError::InvalidApiResponse(text)
}

/// Reads one report: the item it describes and the time of its addition, or
/// the error that names the first field it lacks.
pub fn read_report(item: &RemoteTorrent) -> (result: Result<(TorrentTaskInfo, i64), AniplerError>)
    ensures
        match result {
            Ok((info, added_on)) => missing_field(item@).is_none() && info@ == described(item@)
                && item@.added_on == Some(added_on),
            Err(error) => missing_field(item@).is_some() && reports_missing(
                error,
                missing_field(item@).unwrap(),
            ),
        },
{
    let hash = match &item.hash {
        Some(hash) => hash.clone(),
        None => {
            return Err(missing("hash"));
        },
    };
    let status = match item.complete {
        Some(true) => TorrentStatus::Seeding,
        Some(false) => TorrentStatus::Downloading,
        None => {
            return Err(missing("progress"));
        },
    };
    let content_path = match &item.content_path {
        Some(path) => path.clone(),
        None => {
            return Err(missing("content_path"));
        },
    };
    let name = match &item.name {
        Some(name) => name.clone(),
        None => {
            return Err(missing("name"));
        },
    };
    let added_on = match item.added_on {
        Some(added_on) => added_on,
        None => {
            return Err(missing("added_on"));
        },
    };
    Ok((TorrentTaskInfo { hash, status, content_path, name }, added_on))
}

/// Selects the items to track from the reports of the seed host.
///
/// If every report has all its fields, the result is the items that were
/// added at or after `earliest_import_date`, in the order of the reports. If
/// not, the result is the error for the first report that lacks a field, and
/// names the first field that it lacks.
pub fn query_torrents(items: &[RemoteTorrent], earliest_import_date: i64) -> (result: Result<
    Vec<TorrentTaskInfo>,
    AniplerError,
>)
    ensures
        match result {
            Ok(torrents) => all_complete(report_views(items@)) && task_views(torrents@)
                == selection(report_views(items@), earliest_import_date),
            Err(error) => exists|index: int|
                first_incomplete(report_views(items@), index) && reports_missing(
                    error,
                    missing_field(#[trigger] report_views(items@)[index]).unwrap(),
                ),
        },
{
    let ghost reports = report_views(items@);
    let mut torrents: Vec<TorrentTaskInfo> = Vec::new();
    let mut i: usize = 0;
    while i < items.len()
        invariant
            i <= items.len(),
            reports == report_views(items@),
            forall|k: int| 0 <= k < i ==> missing_field(#[trigger] reports[k]).is_none(),
            task_views(torrents@) == selection(reports.take(i as int), earliest_import_date),
        decreases items.len() - i,
    {
        proof {
            assert(reports.take(i + 1).drop_last() =~= reports.take(i as int));
            assert(reports.take(i + 1).last() == items[i as int]@);
        }
        match read_report(&items[i]) {
            Ok((info, added_on)) => {
                if added_on >= earliest_import_date {
                    let ghost listed = torrents@;
                    torrents.push(info);
                    proof {
                        assert(task_views(torrents@) =~= task_views(listed).push(info@));
                    }
                }
            },
            Err(error) => {
                proof {
                    assert(first_incomplete(reports, i as int));
                }
                return Err(error);
            },
        }
        i += 1;
    }
    proof {
        assert(reports.take(i as int) =~= reports);
    }
    Ok(torrents)
}

/// An item that was added before the watermark is not selected, whatever
/// else is reported with it.
pub proof fn lemma_selection_respects_watermark(
    items: Seq<RemoteTorrentView>,
    watermark: i64,
    hash: Seq<char>,
)
    requires
        all_complete(items),
        forall|i: int|
            0 <= i < items.len() && (#[trigger] items[i]).hash == Some(hash)
                ==> items[i].added_on.unwrap() < watermark,
    ensures
        forall|j: int|
            0 <= j < selection(items, watermark).len() ==> (#[trigger] selection(
                items,
                watermark,
            )[j]).hash != hash,
    decreases items.len(),
{
    if items.len() > 0 {
        let front = items.drop_last();
        assert forall|i: int| 0 <= i < front.len() implies missing_field(
            #[trigger] front[i],
        ).is_none() by {
            assert(front[i] == items[i]);
        }
        assert forall|i: int| 0 <= i < front.len() && (#[trigger] front[i]).hash == Some(
            hash,
        ) implies front[i].added_on.unwrap() < watermark by {
            assert(front[i] == items[i]);
        }
        lemma_selection_respects_watermark(front, watermark, hash);
        assert(items.last() == items[items.len() - 1]);
    }
}

/// Whether some report in `items` that is eligible under the watermark
/// describes `item`.
pub open spec fn selected_from(
    items: Seq<RemoteTorrentView>,
    watermark: i64,
    item: TorrentTaskInfoView,
) -> bool {
    exists|i: int|
        0 <= i < items.len() && eligible(#[trigger] items[i], watermark) && item == described(
            items[i],
        )
}

/// Every selected item is described by a report that is eligible under the
/// watermark.
pub proof fn lemma_selection_sound(items: Seq<RemoteTorrentView>, watermark: i64)
    ensures
        forall|j: int|
            0 <= j < selection(items, watermark).len() ==> selected_from(
                items,
                watermark,
                #[trigger] selection(items, watermark)[j],
            ),
    decreases items.len(),
{
    if items.len() > 0 {
        let front = items.drop_last();
        lemma_selection_sound(front, watermark);
        let chosen = selection(items, watermark);
        assert forall|j: int| 0 <= j < chosen.len() implies selected_from(
            items,
            watermark,
            #[trigger] chosen[j],
        ) by {
            if j < selection(front, watermark).len() {
                assert(selected_from(front, watermark, selection(front, watermark)[j]));
                let i = choose|i: int|
                    0 <= i < front.len() && eligible(#[trigger] front[i], watermark) && chosen[j]
                        == described(front[i]);
                assert(items[i] == front[i]);
            } else {
                assert(items[items.len() - 1] == items.last());
            }
        }
    }
}

} // verus!
