//! Plain records exchanged between the seed host, the task table and the
//! handoff protocol.

use vstd::prelude::*;

verus! {

/// What the seed host reports about an item's progress.
#[derive(Debug, Clone, Copy, PartialEq, Eq, Structural)]
pub enum TorrentStatus {
    /// The item is still incomplete at the seed host.
    Downloading,
    /// The item is complete at the seed host.
    Seeding,
}

/// One item as discovered at the seed host.
#[derive(Debug)]
pub struct TorrentTaskInfo {
    pub hash: String,
    pub status: TorrentStatus,
    pub content_path: String,
    pub name: String,
}

/// The mathematical value of a [`TorrentTaskInfo`].
pub ghost struct TorrentTaskInfoView {
    pub hash: Seq<char>,
    pub status: TorrentStatus,
    pub content_path: Seq<char>,
    pub name: Seq<char>,
}

impl View for TorrentTaskInfo {
    type V = TorrentTaskInfoView;

    open spec fn view(&self) -> TorrentTaskInfoView {
        TorrentTaskInfoView {
            hash: self.hash@,
            status: self.status,
            content_path: self.content_path@,
            name: self.name@,
        }
    }
}

/// The consumer-visible projection of a task that waits at the relay.
#[derive(Debug)]
pub struct ArtifactInfo {
    pub hash: String,
    pub name: String,
    pub path: String,
}

/// The mathematical value of an [`ArtifactInfo`].
pub ghost struct ArtifactInfoView {
    pub hash: Seq<char>,
    pub name: Seq<char>,
    pub path: Seq<char>,
}

impl View for ArtifactInfo {
    type V = ArtifactInfoView;

    open spec fn view(&self) -> ArtifactInfoView {
        ArtifactInfoView { hash: self.hash@, name: self.name@, path: self.path@ }
    }
}

/// The values of a sequence of discovered items.
pub open spec fn task_views(items: Seq<TorrentTaskInfo>) -> Seq<TorrentTaskInfoView> {
    items.map_values(|t: TorrentTaskInfo| t@)
}

/// The values of a sequence of artifacts.
pub open spec fn artifact_views(items: Seq<ArtifactInfo>) -> Seq<ArtifactInfoView> {
    items.map_values(|a: ArtifactInfo| a@)
}

} // verus!
