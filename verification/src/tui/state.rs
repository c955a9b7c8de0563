//! What the user interface knows: transfers, log entries, and questions to
//! the user; what it is told, and what it asks for.

use crate::client::{DownloadControl, DownloadProgress, DownloadResult, Measure, RemoteShareInfo};
use crate::server::ServerEvent;
use crate::shares::SharedItem;
use crate::table::HasKey;
use crate::time::Timestamp;
use std::path::PathBuf;
use vstd::prelude::*;

verus! {

/// The panel that takes the keys.
#[derive(Debug, Clone, Copy, PartialEq, Eq, Structural)]
pub enum Focus {
    PeerList,
    PeerFiles,
    MyShares,
    Transfers,
}

impl Focus {
    /// The next panel.
    pub open spec fn next_spec(self) -> Focus {
        match self {
            Focus::PeerList => Focus::PeerFiles,
            Focus::PeerFiles => Focus::MyShares,
            Focus::MyShares => Focus::Transfers,
            Focus::Transfers => Focus::PeerList,
        }
    }

    /// The panel before.
    pub open spec fn previous_spec(self) -> Focus {
        match self {
            Focus::PeerList => Focus::Transfers,
            Focus::PeerFiles => Focus::PeerList,
            Focus::MyShares => Focus::PeerFiles,
            Focus::Transfers => Focus::MyShares,
        }
    }

    /// The next panel.
    pub fn next(self) -> (r: Focus)
        ensures
            r == self.next_spec(),
    {
        match self {
            Focus::PeerList => Focus::PeerFiles,
            Focus::PeerFiles => Focus::MyShares,
            Focus::MyShares => Focus::Transfers,
            Focus::Transfers => Focus::PeerList,
        }
    }

    /// The panel before.
    pub fn previous(self) -> (r: Focus)
        ensures
            r == self.previous_spec(),
    {
        match self {
            Focus::PeerList => Focus::Transfers,
            Focus::PeerFiles => Focus::PeerList,
            Focus::MyShares => Focus::PeerFiles,
            Focus::Transfers => Focus::MyShares,
        }
    }
}

/// Going to the next panel and back changes nothing, and four times next is a
/// full round.
pub proof fn law_panels_go_round(f: Focus)
    ensures
        f.next_spec().previous_spec() == f,
        f.previous_spec().next_spec() == f,
        f.next_spec().next_spec().next_spec().next_spec() == f,
{
}

/// What a log entry is about.
#[derive(Debug, Clone, Copy, PartialEq, Eq, Structural)]
pub enum LogKind {
    Info,
    Success,
    Warning,
    Download,
}

/// An entry of the log.
#[derive(Debug)]
pub struct LogEntry {
    pub timestamp: Timestamp,
    pub message: String,
    pub kind: LogKind,
}

/// A log entry in mathematical terms.
pub struct LogEntryView {
    pub timestamp: Timestamp,
    pub message: Seq<char>,
    pub kind: LogKind,
}

impl View for LogEntry {
    type V = LogEntryView;

    open spec fn view(&self) -> LogEntryView {
        LogEntryView {
            timestamp: self.timestamp,
            message: self.message@,
            kind: self.kind,
        }
    }
}

/// A download as the user sees it.
#[derive(Debug)]
pub struct DownloadState {
    pub id: String,
    pub name: String,
    pub bytes_done: u64,
    pub total: u64,
    pub speed_bps: Measure,
    pub done: bool,
    pub cancelled: bool,
    pub retrying: bool,
    pub paused: bool,
    pub done_at: Option<u64>,
    pub eta_seconds: Measure,
    pub last_activity: u64,
    /// What the download was last told to do. None once it is told nothing more.
    pub pause_tx: Option<DownloadControl>,
}

/// A download as the user sees it, in mathematical terms.
pub struct DownloadStateView {
    pub id: Seq<char>,
    pub name: Seq<char>,
    pub bytes_done: u64,
    pub total: u64,
    pub speed_bps: Measure,
    pub done: bool,
    pub cancelled: bool,
    pub retrying: bool,
    pub paused: bool,
    pub done_at: Option<u64>,
    pub eta_seconds: Measure,
    pub last_activity: u64,
    pub pause_tx: Option<DownloadControl>,
}

impl View for DownloadState {
    type V = DownloadStateView;

    open spec fn view(&self) -> DownloadStateView {
        DownloadStateView {
            id: self.id@,
            name: self.name@,
            bytes_done: self.bytes_done,
            total: self.total,
            speed_bps: self.speed_bps,
            done: self.done,
            cancelled: self.cancelled,
            retrying: self.retrying,
            paused: self.paused,
            done_at: self.done_at,
            eta_seconds: self.eta_seconds,
            last_activity: self.last_activity,
            pause_tx: self.pause_tx,
        }
    }
}

impl HasKey for DownloadStateView {
    open spec fn key(self) -> Seq<char> {
        self.id
    }
}

/// A file that is sent to a peer, as the user sees it.
#[derive(Debug)]
pub struct UploadState {
    pub id: String,
    pub name: String,
    pub bytes_sent: u64,
    pub total: u64,
    pub speed_bps: Measure,
    pub done: bool,
    pub cancelled: bool,
    pub done_at: Option<u64>,
    pub last_bytes: u64,
    pub last_tick: u64,
    pub eta_seconds: Measure,
    pub smoothed_speed: Measure,
    pub last_display_update: u64,
}

/// An upload as the user sees it, in mathematical terms.
pub struct UploadStateView {
    pub id: Seq<char>,
    pub name: Seq<char>,
    pub bytes_sent: u64,
    pub total: u64,
    pub speed_bps: Measure,
    pub done: bool,
    pub cancelled: bool,
    pub done_at: Option<u64>,
    pub last_bytes: u64,
    pub last_tick: u64,
    pub eta_seconds: Measure,
    pub smoothed_speed: Measure,
    pub last_display_update: u64,
}

impl View for UploadState {
    type V = UploadStateView;

    open spec fn view(&self) -> UploadStateView {
        UploadStateView {
            id: self.id@,
            name: self.name@,
            bytes_sent: self.bytes_sent,
            total: self.total,
            speed_bps: self.speed_bps,
            done: self.done,
            cancelled: self.cancelled,
            done_at: self.done_at,
            last_bytes: self.last_bytes,
            last_tick: self.last_tick,
            eta_seconds: self.eta_seconds,
            smoothed_speed: self.smoothed_speed,
            last_display_update: self.last_display_update,
        }
    }
}

impl HasKey for UploadStateView {
    open spec fn key(self) -> Seq<char> {
        self.id
    }
}

/// A file that a browser sends, as the user sees it.
#[derive(Debug)]
pub struct WebUploadState {
    pub transfer_id: String,
    pub name: String,
    pub bytes_received: u64,
    /// 0 where the browser did not say.
    pub total: u64,
    pub speed_bps: Measure,
    pub smoothed_speed: Measure,
    pub eta_seconds: Measure,
    pub done: bool,
    pub failed: bool,
    pub done_at: Option<u64>,
    pub last_bytes: u64,
    pub last_tick: u64,
    pub last_display_update: u64,
    pub by_addr: String,
}

/// A browser's upload as the user sees it, in mathematical terms.
pub struct WebUploadStateView {
    pub transfer_id: Seq<char>,
    pub name: Seq<char>,
    pub bytes_received: u64,
    pub total: u64,
    pub speed_bps: Measure,
    pub smoothed_speed: Measure,
    pub eta_seconds: Measure,
    pub done: bool,
    pub failed: bool,
    pub done_at: Option<u64>,
    pub last_bytes: u64,
    pub last_tick: u64,
    pub last_display_update: u64,
    pub by_addr: Seq<char>,
}

impl View for WebUploadState {
    type V = WebUploadStateView;

    open spec fn view(&self) -> WebUploadStateView {
        WebUploadStateView {
            transfer_id: self.transfer_id@,
            name: self.name@,
            bytes_received: self.bytes_received,
            total: self.total,
            speed_bps: self.speed_bps,
            smoothed_speed: self.smoothed_speed,
            eta_seconds: self.eta_seconds,
            done: self.done,
            failed: self.failed,
            done_at: self.done_at,
            last_bytes: self.last_bytes,
            last_tick: self.last_tick,
            last_display_update: self.last_display_update,
            by_addr: self.by_addr@,
        }
    }
}

impl HasKey for WebUploadStateView {
    open spec fn key(self) -> Seq<char> {
        self.transfer_id
    }
}

/// The question whether a folder is to be zipped.
#[derive(Debug)]
pub struct ZipConfirmRequest {
    pub path: PathBuf,
    pub folder_name: String,
    pub file_count: usize,
    pub total_size: u64,
    pub would_zip: bool,
}

/// The question in mathematical terms.
pub struct ZipConfirmRequestView {
    pub path: PathBuf,
    pub folder_name: Seq<char>,
    pub file_count: usize,
    pub total_size: u64,
    pub would_zip: bool,
}

impl View for ZipConfirmRequest {
    type V = ZipConfirmRequestView;

    open spec fn view(&self) -> ZipConfirmRequestView {
        ZipConfirmRequestView {
            path: self.path,
            folder_name: self.folder_name@,
            file_count: self.file_count,
            total_size: self.total_size,
            would_zip: self.would_zip,
        }
    }
}

/// Something that the user interface is told.
#[derive(Debug)]
pub enum AppEvent {
    Tick,
    PeerFilesLoaded(Vec<RemoteShareInfo>),
    DownloadProgress { id: String, progress: DownloadProgress },
    DownloadDone { id: String, result: DownloadResult },
    DownloadError { id: String, error: String },
    DownloadRetrying { id: String, attempt: u32 },
    ServerEvent(ServerEvent),
    AddShare(PathBuf),
    ZipConfirmNeeded(ZipConfirmRequest),
    ZipConfirmResult(PathBuf, bool),
    ShareAdded(SharedItem),
    ShareError(String),
    /// A folder is being zipped: so many of its files are done.
    ZipProgress { folder: String, done: usize, total: usize },
    /// The address that the user typed, in the form in which addresses are
    /// written, or that it is none.
    AddressResolved { text: String, port: u16, addr: Option<String> },
    /// The speed of an upload, and how long it will take.
    SpeedEstimated { upload: UploadKind, id: String, smoothed: Measure, eta: Measure },
}

/// The two kinds of uploads.
#[derive(Debug, Clone, Copy, PartialEq, Eq, Structural)]
pub enum UploadKind {
    /// To a peer.
    Peer,
    /// From a browser.
    Web,
}

/// What is known of the speed of an upload: the bytes that went by in the last
/// nanoseconds, the speed so far, and how far the upload is.
#[derive(Debug, Clone, Copy, PartialEq, Eq, Structural)]
pub struct SpeedSample {
    pub bytes: u64,
    pub nanos: u64,
    pub smoothed: Measure,
    pub total: u64,
    pub done: u64,
}

/// Something that the user interface asks for.
#[derive(Debug)]
pub enum Effect {
    /// Ask a peer for its files.
    FetchPeerFiles { base_url: String },
    /// Begin a download.
    StartDownload { base_url: String, id: String, name: String, dir: PathBuf },
    /// Tell a download what to do.
    SetControl { id: String, control: DownloadControl },
    /// Tell a download nothing more.
    CloseControl { id: String },
    /// Report the user's answer to the question whether to zip a folder.
    AnswerZip { path: PathBuf, zip: bool },
    /// Report a path that the user typed.
    AddPath { text: String },
    /// Share what a path leads to, after asking the user where it is a folder.
    SharePath { path: PathBuf },
    /// Share a folder, zipped or not.
    ShareWithChoice { path: PathBuf, zip: bool },
    /// Find out whether a text is an address.
    ResolveAddress { text: String, port: u16 },
    /// Delete an archive.
    DeleteFile { path: PathBuf },
    /// Bring the index of shares up to date.
    FlushIndex,
    /// Estimate the speed of an upload.
    Estimate { upload: UploadKind, id: String, sample: SpeedSample },
}

/// A request in mathematical terms.
pub enum EffectView {
    FetchPeerFiles { base_url: Seq<char> },
    StartDownload { base_url: Seq<char>, id: Seq<char>, name: Seq<char>, dir: PathBuf },
    SetControl { id: Seq<char>, control: DownloadControl },
    CloseControl { id: Seq<char> },
    AnswerZip { path: PathBuf, zip: bool },
    AddPath { text: Seq<char> },
    SharePath { path: PathBuf },
    ShareWithChoice { path: PathBuf, zip: bool },
    ResolveAddress { text: Seq<char>, port: u16 },
    DeleteFile { path: PathBuf },
    FlushIndex,
    Estimate { upload: UploadKind, id: Seq<char>, sample: SpeedSample },
}

impl View for Effect {
    type V = EffectView;

    open spec fn view(&self) -> EffectView {
        match *self {
            Effect::FetchPeerFiles { base_url } => EffectView::FetchPeerFiles {
                base_url: base_url@,
            },
            Effect::StartDownload { base_url, id, name, dir } => EffectView::StartDownload {
                base_url: base_url@,
                id: id@,
                name: name@,
                dir,
            },
            Effect::SetControl { id, control } => EffectView::SetControl { id: id@, control },
            Effect::CloseControl { id } => EffectView::CloseControl { id: id@ },
            Effect::AnswerZip { path, zip } => EffectView::AnswerZip { path, zip },
            Effect::AddPath { text } => EffectView::AddPath { text: text@ },
            Effect::SharePath { path } => EffectView::SharePath { path },
            Effect::ShareWithChoice { path, zip } => EffectView::ShareWithChoice { path, zip },
            Effect::ResolveAddress { text, port } => EffectView::ResolveAddress {
                text: text@,
                port,
            },
            Effect::DeleteFile { path } => EffectView::DeleteFile { path },
            Effect::FlushIndex => EffectView::FlushIndex,
            Effect::Estimate { upload, id, sample } => EffectView::Estimate {
                upload,
                id: id@,
                sample,
            },
        }
    }
}

}
