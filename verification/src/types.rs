//! What a download is.

use vstd::prelude::*;

use crate::text::{self, copy_texts};

verus! {

/// How a download is carried out.
#[derive(Debug, Clone, Copy, PartialEq, Eq, Structural)]
pub enum DownloadKind {
    Http,
    Torrent,
    Youtube,
}

/// How far a download has come.
#[derive(Debug, PartialEq, Eq)]
pub enum DownloadStatus {
    Queued,
    Downloading,
    Paused,
    Completed,
    Error(String),
}

/// What a status says, with its text as characters.
#[verifier::ext_equal]
pub enum StatusView {
    Queued,
    Downloading,
    Paused,
    Completed,
    Error(Seq<char>),
}

impl View for DownloadStatus {
    type V = StatusView;

    open spec fn view(&self) -> StatusView {
        match self {
            DownloadStatus::Queued => StatusView::Queued,
            DownloadStatus::Downloading => StatusView::Downloading,
            DownloadStatus::Paused => StatusView::Paused,
            DownloadStatus::Completed => StatusView::Completed,
            DownloadStatus::Error(message) => StatusView::Error(message@),
        }
    }
}

impl Clone for DownloadStatus {
    fn clone(&self) -> (r: Self)
        ensures
            r@ == self@,
    {
        match self {
            DownloadStatus::Queued => DownloadStatus::Queued,
            DownloadStatus::Downloading => DownloadStatus::Downloading,
            DownloadStatus::Paused => DownloadStatus::Paused,
            DownloadStatus::Completed => DownloadStatus::Completed,
            DownloadStatus::Error(message) => DownloadStatus::Error(message.clone()),
        }
    }
}

impl DownloadStatus {
    /// Whether bytes are being fetched.
    pub fn is_downloading(&self) -> (r: bool)
        ensures
            r == (self@ == StatusView::Downloading),
    {
        match self {
            DownloadStatus::Downloading => true,
            _ => false,
        }
    }

    /// Whether the download can be taken up again: it is paused or has failed.
    pub fn is_resumable(&self) -> (r: bool)
        ensures
            r == (self@ == StatusView::Paused || self@ is Error),
    {
        match self {
            DownloadStatus::Paused => true,
            DownloadStatus::Error(_) => true,
            _ => false,
        }
    }
}

/// A stretch of a file that one connection fetches: the bytes `start` to `end`, both
/// of them in the stretch, of which the first `downloaded` are there.
#[derive(Debug, Clone, Copy, PartialEq, Eq)]
pub struct PartInfo {
    pub index: usize,
    pub start: u64,
    pub end: u64,
    pub downloaded: u64,
    pub active: bool,
}

/// What is known of a torrent.
#[derive(Debug, PartialEq, Eq)]
pub struct TorrentInfo {
    pub info_hash: String,
    pub seeds: usize,
    pub peers: usize,
    pub total_pieces: usize,
    pub finished_pieces: usize,
}

/// What is known of a torrent, with its text as characters.
#[verifier::ext_equal]
pub struct TorrentView {
    pub info_hash: Seq<char>,
    pub seeds: usize,
    pub peers: usize,
    pub total_pieces: usize,
    pub finished_pieces: usize,
}

impl View for TorrentInfo {
    type V = TorrentView;

    open spec fn view(&self) -> TorrentView {
        TorrentView {
            info_hash: self.info_hash@,
            seeds: self.seeds,
            peers: self.peers,
            total_pieces: self.total_pieces,
            finished_pieces: self.finished_pieces,
        }
    }
}

impl Clone for TorrentInfo {
    fn clone(&self) -> (r: Self)
        ensures
            r@ == self@,
    {
        TorrentInfo {
            info_hash: self.info_hash.clone(),
            seeds: self.seeds,
            peers: self.peers,
            total_pieces: self.total_pieces,
            finished_pieces: self.finished_pieces,
        }
    }
}

/// One download.
#[derive(Debug, PartialEq, Eq)]
pub struct DownloadTask {
    pub id: String,
    pub name: String,
    pub uri: String,
    pub kind: DownloadKind,
    pub status: DownloadStatus,
    pub total_bytes: Option<u64>,
    pub downloaded_bytes: u64,
    pub uploaded_bytes: u64,
    pub download_speed: u64,
    pub upload_speed: u64,
    pub eta_seconds: Option<u64>,
    pub output_path: String,
    pub created_at: u64,
    pub parts: Vec<PartInfo>,
    pub torrent_info: Option<TorrentInfo>,
    /// The files that the download has written, where `output_path` is the directory they are in.
    pub files: Vec<String>,
}

/// One download, with its texts as characters.
#[verifier::ext_equal]
pub struct TaskView {
    pub id: Seq<char>,
    pub name: Seq<char>,
    pub uri: Seq<char>,
    pub kind: DownloadKind,
    pub status: StatusView,
    pub total_bytes: Option<u64>,
    pub downloaded_bytes: u64,
    pub uploaded_bytes: u64,
    pub download_speed: u64,
    pub upload_speed: u64,
    pub eta_seconds: Option<u64>,
    pub output_path: Seq<char>,
    pub created_at: u64,
    pub parts: Seq<PartInfo>,
    pub torrent_info: Option<TorrentView>,
    pub files: Seq<Seq<char>>,
}

impl View for DownloadTask {
    type V = TaskView;

    open spec fn view(&self) -> TaskView {
        TaskView {
            id: self.id@,
            name: self.name@,
            uri: self.uri@,
            kind: self.kind,
            status: self.status@,
            total_bytes: self.total_bytes,
            downloaded_bytes: self.downloaded_bytes,
            uploaded_bytes: self.uploaded_bytes,
            download_speed: self.download_speed,
            upload_speed: self.upload_speed,
            eta_seconds: self.eta_seconds,
            output_path: self.output_path@,
            created_at: self.created_at,
            parts: self.parts@,
            torrent_info: match self.torrent_info {
                Some(info) => Some(info@),
                None => None,
            },
            files: text::texts(self.files@),
        }
    }
}

/// A copy of the parts of a download.
pub fn copy_parts(parts: &Vec<PartInfo>) -> (r: Vec<PartInfo>)
    ensures
        r@ == parts@,
{
    let r = parts.clone();
    assert(r@ =~= parts@);
    r
}

impl Clone for DownloadTask {
    fn clone(&self) -> (r: Self)
        ensures
            r@ == self@,
    {
        DownloadTask {
            id: self.id.clone(),
            name: self.name.clone(),
            uri: self.uri.clone(),
            kind: self.kind,
            status: self.status.clone(),
            total_bytes: self.total_bytes,
            downloaded_bytes: self.downloaded_bytes,
            uploaded_bytes: self.uploaded_bytes,
            download_speed: self.download_speed,
            upload_speed: self.upload_speed,
            eta_seconds: self.eta_seconds,
            output_path: self.output_path.clone(),
            created_at: self.created_at,
            parts: copy_parts(&self.parts),
            torrent_info: match &self.torrent_info {
                Some(info) => Some(info.clone()),
                None => None,
            },
            files: copy_texts(&self.files),
        }
    }
}

/// All downloads at one moment.
#[derive(Debug, Clone, PartialEq, Eq)]
pub struct DaemonStatus {
    pub active_downloads: usize,
    pub total_download_speed: u64,
    pub total_upload_speed: u64,
    pub downloads: Vec<DownloadTask>,
}

/// All downloads at one moment, with their texts as characters.
#[verifier::ext_equal]
pub struct DaemonView {
    pub active_downloads: usize,
    pub total_download_speed: u64,
    pub total_upload_speed: u64,
    pub downloads: Seq<TaskView>,
}

/// The downloads of a list, with their texts as characters.
pub open spec fn task_views(tasks: Seq<DownloadTask>) -> Seq<TaskView> {
    tasks.map_values(|t: DownloadTask| t@)
}

impl View for DaemonStatus {
    type V = DaemonView;

    open spec fn view(&self) -> DaemonView {
        DaemonView {
            active_downloads: self.active_downloads,
            total_download_speed: self.total_download_speed,
            total_upload_speed: self.total_upload_speed,
            downloads: task_views(self.downloads@),
        }
    }
}

} // verus!
