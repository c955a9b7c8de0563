//! What this host answers: lists of its shares, files and parts of files,
//! uploads, and the events that it reports along the way.

use crate::shares::{
    available_items, available_of, counted, dated, newest_first, size_text, RegistryView, ShareKind,
    ShareRegistry, SharedItem, SharedItemView,
};
use crate::table::{lists, HasKey};
use crate::text::{
    before, decimal, decimal_text, first_match, number_in, opt_view, parse_decimal, strip_prefix,
    text_before, to_chars, views,
};
use crate::time::{rfc3339, rfc3339_text, Timestamp};
use std::path::PathBuf;
use vstd::prelude::*;

verus! {

// ---------------------------------------------------------------------------
// Events
// ---------------------------------------------------------------------------

/// Something that happened while this host answered.
#[derive(Debug)]
pub enum ServerEvent {
    Downloaded { item_name: String, by_addr: String },
    Uploaded { item_name: String, by_addr: String },
    UploadProgress { item_id: String, bytes_sent: u64, total: u64 },
    UploadDone { item_id: String },
    Deleted { item_name: String },
    /// A browser has begun to send a file.
    WebUploadStarted { transfer_id: String, filename: String, total: u64, by_addr: String },
    /// A browser has sent more of a file.
    WebUploadProgress { transfer_id: String, bytes_received: u64, total: u64 },
    /// The file of a browser was stored and is shared.
    WebUploadFinished { transfer_id: String },
    /// The file of a browser could not be taken in.
    WebUploadFailed { transfer_id: String },
}

/// An event in mathematical terms.
pub enum ServerEventView {
    Downloaded { item_name: Seq<char>, by_addr: Seq<char> },
    Uploaded { item_name: Seq<char>, by_addr: Seq<char> },
    UploadProgress { item_id: Seq<char>, bytes_sent: u64, total: u64 },
    UploadDone { item_id: Seq<char> },
    Deleted { item_name: Seq<char> },
    WebUploadStarted {
        transfer_id: Seq<char>,
        filename: Seq<char>,
        total: u64,
        by_addr: Seq<char>,
    },
    WebUploadProgress { transfer_id: Seq<char>, bytes_received: u64, total: u64 },
    WebUploadFinished { transfer_id: Seq<char> },
    WebUploadFailed { transfer_id: Seq<char> },
}

impl View for ServerEvent {
    type V = ServerEventView;

    open spec fn view(&self) -> ServerEventView {
        match *self {
            ServerEvent::Downloaded { item_name, by_addr } => ServerEventView::Downloaded {
                item_name: item_name@,
                by_addr: by_addr@,
            },
            ServerEvent::Uploaded { item_name, by_addr } => ServerEventView::Uploaded {
                item_name: item_name@,
                by_addr: by_addr@,
            },
            ServerEvent::UploadProgress { item_id, bytes_sent, total } => {
                ServerEventView::UploadProgress { item_id: item_id@, bytes_sent, total }
            },
            ServerEvent::UploadDone { item_id } => ServerEventView::UploadDone {
                item_id: item_id@,
            },
            ServerEvent::Deleted { item_name } => ServerEventView::Deleted {
                item_name: item_name@,
            },
            ServerEvent::WebUploadStarted { transfer_id, filename, total, by_addr } => {
                ServerEventView::WebUploadStarted {
                    transfer_id: transfer_id@,
                    filename: filename@,
                    total,
                    by_addr: by_addr@,
                }
            },
            ServerEvent::WebUploadProgress { transfer_id, bytes_received, total } => {
                ServerEventView::WebUploadProgress {
                    transfer_id: transfer_id@,
                    bytes_received,
                    total,
                }
            },
            ServerEvent::WebUploadFinished { transfer_id } => {
                ServerEventView::WebUploadFinished { transfer_id: transfer_id@ }
            },
            ServerEvent::WebUploadFailed { transfer_id } => ServerEventView::WebUploadFailed {
                transfer_id: transfer_id@,
            },
        }
    }
}

impl Clone for ServerEvent {
    fn clone(&self) -> (r: ServerEvent)
        ensures
            r@ == self@,
    {
        match self {
            ServerEvent::Downloaded { item_name, by_addr } => ServerEvent::Downloaded {
                item_name: item_name.clone(),
                by_addr: by_addr.clone(),
            },
            ServerEvent::Uploaded { item_name, by_addr } => ServerEvent::Uploaded {
                item_name: item_name.clone(),
                by_addr: by_addr.clone(),
            },
            ServerEvent::UploadProgress { item_id, bytes_sent, total } => {
                ServerEvent::UploadProgress {
                    item_id: item_id.clone(),
                    bytes_sent: *bytes_sent,
                    total: *total,
                }
            },
            ServerEvent::UploadDone { item_id } => ServerEvent::UploadDone {
                item_id: item_id.clone(),
            },
            ServerEvent::Deleted { item_name } => ServerEvent::Deleted {
                item_name: item_name.clone(),
            },
            ServerEvent::WebUploadStarted { transfer_id, filename, total, by_addr } => {
                ServerEvent::WebUploadStarted {
                    transfer_id: transfer_id.clone(),
                    filename: filename.clone(),
                    total: *total,
                    by_addr: by_addr.clone(),
                }
            },
            ServerEvent::WebUploadProgress { transfer_id, bytes_received, total } => {
                ServerEvent::WebUploadProgress {
                    transfer_id: transfer_id.clone(),
                    bytes_received: *bytes_received,
                    total: *total,
                }
            },
            ServerEvent::WebUploadFinished { transfer_id } => ServerEvent::WebUploadFinished {
                transfer_id: transfer_id.clone(),
            },
            ServerEvent::WebUploadFailed { transfer_id } => ServerEvent::WebUploadFailed {
                transfer_id: transfer_id.clone(),
            },
        }
    }
}

// ---------------------------------------------------------------------------
// The list of shares
// ---------------------------------------------------------------------------

/// A share as this host lists it.
#[derive(Debug)]
pub struct ShareInfo {
    pub id: String,
    pub name: String,
    pub kind: String,
    pub size: u64,
    pub size_human: String,
    pub checksum: String,
    pub added_at: String,
    pub download_count: u32,
    pub available: bool,
}

/// A listed share in mathematical terms.
pub struct ShareInfoView {
    pub id: Seq<char>,
    pub name: Seq<char>,
    pub kind: Seq<char>,
    pub size: u64,
    pub size_human: Seq<char>,
    pub checksum: Seq<char>,
    pub added_at: Seq<char>,
    pub download_count: u32,
    pub available: bool,
}

impl View for ShareInfo {
    type V = ShareInfoView;

    open spec fn view(&self) -> ShareInfoView {
        ShareInfoView {
            id: self.id@,
            name: self.name@,
            kind: self.kind@,
            size: self.size,
            size_human: self.size_human@,
            checksum: self.checksum@,
            added_at: self.added_at@,
            download_count: self.download_count,
            available: self.available,
        }
    }
}

/// The word for a kind of share.
pub open spec fn kind_text(kind: ShareKind) -> Seq<char> {
    match kind {
        ShareKind::File => "file"@,
        ShareKind::Folder => "folder"@,
        ShareKind::ZippedFolder => "zipped_folder"@,
    }
}

/// How a share is listed at `now`.
pub open spec fn info_of(item: SharedItemView, now: Timestamp) -> ShareInfoView {
    ShareInfoView {
        id: item.id,
        name: item.name,
        kind: kind_text(item.kind),
        size: item.size,
        size_human: size_text(item.size as nat),
        checksum: item.checksum,
        added_at: rfc3339_text(item.added_at.secs as int, item.added_at.nanos as int),
        download_count: item.download_count,
        available: item.available_at(now),
    }
}

impl ShareInfo {
    /// How a share is listed at `now`.
    pub fn at(item: &SharedItem, now: &Timestamp) -> (r: ShareInfo)
        requires
            item@.added_at.wf(),
        ensures
            r@ == info_of(item@, *now),
    {
        let kind = match item.kind {
            ShareKind::File => "file",
            ShareKind::Folder => "folder",
            ShareKind::ZippedFolder => "zipped_folder",
        };
        ShareInfo {
            id: item.id.clone(),
            name: item.name.clone(),
            kind: kind.to_owned(),
            size: item.size,
            size_human: item.size_human(),
            checksum: item.checksum.clone(),
            added_at: rfc3339(&item.added_at),
            download_count: item.download_count,
            available: item.is_available_at(now),
        }
    }
}

/// The list of shares that this host gives.
#[derive(Debug)]
pub struct ListResponse {
    pub username: String,
    pub items: Vec<ShareInfo>,
}

/// How shares are listed at `now`.
pub open spec fn infos_of(items: Seq<SharedItemView>, now: Timestamp) -> Seq<ShareInfoView> {
    items.map_values(|i: SharedItemView| info_of(i, now))
}

/// The list of the shares that may be downloaded at `now`, in the order of the
/// registry: those that were added last come first.
pub fn list_shares(shares: &ShareRegistry, username: &str, now: &Timestamp) -> (r: ListResponse)
    requires
        shares.wf(),
    ensures
        r.username@ == username@,
        views(r.items@) == infos_of(available_of(shares.listed(), *now), *now),
        lists(available_of(shares.listed(), *now), available_items(shares@.items, *now)),
        newest_first(available_of(shares.listed(), *now)),
{
    broadcast use crate::text::group_views;

    let available = shares.list_available_at(now);
    let ghost s = views(available@);
    let mut items: Vec<ShareInfo> = Vec::new();
    let mut i: usize = 0;
    while i < available.len()
        invariant
            i <= available@.len(),
            s == views(available@),
            lists(s, available_items(shares@.items, *now)),
            dated(shares@.items),
            views(items@) =~= infos_of(s, *now).take(i as int),
        decreases available@.len() - i,
    {
        proof {
            let k = s[i as int].key();
            assert(available_items(shares@.items, *now).dom().contains(s[i as int].key()));
            assert(shares@.items.dom().contains(k));
        }
        items.push(ShareInfo::at(&available[i], now));
        i += 1;
        assert(infos_of(s, *now).take(i as int) =~= infos_of(s, *now).take(i - 1).push(
            info_of(s[i - 1], *now),
        ));
    }
    assert(infos_of(s, *now).take(i as int) =~= infos_of(s, *now));
    ListResponse { username: username.to_owned(), items }
}

// ---------------------------------------------------------------------------
// Refusals
// ---------------------------------------------------------------------------

/// Why a request is refused.
#[derive(Debug, Clone, Copy, PartialEq, Eq, Structural)]
pub enum Refusal {
    /// There is no such share.
    NotFound,
    /// The share may no longer be downloaded.
    Gone,
    /// The share is a folder, and is downloaded file by file.
    IsFolder,
    /// The share is no folder that is shared file by file.
    NotFolder,
    /// The folder has no such file.
    NoSuchFile,
    /// The file cannot be opened.
    Unreadable,
    /// The file cannot be read from where it was asked for.
    SeekFailed,
}

impl Refusal {
    /// The status with which a request is refused.
    pub open spec fn status_spec(self) -> u16 {
        match self {
            Refusal::NotFound => 404,
            Refusal::Gone => 410,
            Refusal::IsFolder => 400,
            Refusal::NotFolder => 400,
            Refusal::NoSuchFile => 404,
            Refusal::Unreadable => 500,
            Refusal::SeekFailed => 416,
        }
    }

    /// The status with which a request is refused.
    pub fn status(&self) -> (r: u16)
        ensures
            r == self.status_spec(),
    {
        match self {
            Refusal::NotFound => 404,
            Refusal::Gone => 410,
            Refusal::IsFolder => 400,
            Refusal::NotFolder => 400,
            Refusal::NoSuchFile => 404,
            Refusal::Unreadable => 500,
            Refusal::SeekFailed => 416,
        }
    }

    /// What is said where a request is refused.
    pub open spec fn text_spec(self) -> Seq<char> {
        match self {
            Refusal::NotFound => "Share not found"@,
            Refusal::Gone => "Share is no longer available"@,
            Refusal::IsFolder => FOLDER_HINT@,
            Refusal::NotFolder => "This share is not a raw folder; use /download/{id} instead"@,
            Refusal::NoSuchFile => "File not found in folder"@,
            Refusal::Unreadable => "Failed to open file"@,
            Refusal::SeekFailed => "Seek failed"@,
        }
    }

    /// What is said where a request is refused.
    pub fn text(&self) -> (r: &'static str)
        ensures
            r@ == self.text_spec(),
    {
        match self {
            Refusal::NotFound => "Share not found",
            Refusal::Gone => "Share is no longer available",
            Refusal::IsFolder => FOLDER_HINT,
            Refusal::NotFolder => "This share is not a raw folder; use /download/{id} instead",
            Refusal::NoSuchFile => "File not found in folder",
            Refusal::Unreadable => "Failed to open file",
            Refusal::SeekFailed => "Seek failed",
        }
    }
}

/// What is said where a folder is asked for as if it were a file.
pub const FOLDER_HINT: &'static str = "This share is a folder \u{2014} fetch /shares/{id}/manifest and download each file via /download/{id}/file?path=<relative_path> instead of /download/{id}";

// ---------------------------------------------------------------------------
// Ranges
// ---------------------------------------------------------------------------

/// The byte from which a `Range` header asks for a file.
pub open spec fn range_start_of(header: Option<Seq<char>>) -> Option<u64> {
    match header {
        None => None,
        Some(h) => if "bytes="@.is_prefix_of(h) {
            match number_in(before(h.skip("bytes="@.len() as int), '-'), u64::MAX as int) {
                Some(n) => Some(n as u64),
                None => None,
            }
        } else {
            None
        },
    }
}

/// The byte from which a `Range` header asks for a file.
pub fn range_start(header: &Option<String>) -> (r: Option<u64>)
    ensures
        r == range_start_of(opt_view(*header)),
{
    match header {
        None => None,
        Some(h) => match strip_prefix(h.as_str(), "bytes=") {
            None => None,
            Some(rest) => {
                let first = text_before(rest.as_str(), '-');
                parse_decimal(first.as_str(), u64::MAX)
            },
        },
    }
}

/// Which part of a file is sent.
#[derive(Debug, Clone, Copy, PartialEq, Eq, Structural)]
pub enum StreamPlan {
    /// The whole of it.
    Whole { length: u64 },
    /// From a byte on.
    Partial { start: u64, length: u64 },
    /// None: the file ends before.
    Unsatisfiable,
}

/// Which part of a file of `total` bytes is sent to someone who asks for it
/// from `start` on, or for all of it.
pub open spec fn plan_of(total: u64, start: Option<u64>) -> StreamPlan {
    match start {
        None => StreamPlan::Whole { length: total },
        Some(s) => if s < total {
            StreamPlan::Partial { start: s, length: (total - s) as u64 }
        } else {
            StreamPlan::Unsatisfiable
        },
    }
}

/// Which part of a file of `total` bytes is sent.
pub fn plan_stream(total: u64, start: Option<u64>) -> (r: StreamPlan)
    ensures
        r == plan_of(total, start),
{
    match start {
        None => StreamPlan::Whole { length: total },
        Some(s) => if s < total {
            StreamPlan::Partial { start: s, length: total - s }
        } else {
            StreamPlan::Unsatisfiable
        },
    }
}

/// A file that is to be sent: its path and size, the share that it belongs
/// to, and what is said of it.
#[derive(Debug)]
pub struct FileToSend {
    pub path: PathBuf,
    pub total: u64,
    pub item_id: String,
    pub checksum: String,
    pub content_type: String,
    pub filename: String,
}

/// A file to be sent in mathematical terms.
pub struct FileToSendView {
    pub path: PathBuf,
    pub total: u64,
    pub item_id: Seq<char>,
    pub checksum: Seq<char>,
    pub content_type: Seq<char>,
    pub filename: Seq<char>,
}

impl View for FileToSend {
    type V = FileToSendView;

    open spec fn view(&self) -> FileToSendView {
        FileToSendView {
            path: self.path,
            total: self.total,
            item_id: self.item_id@,
            checksum: self.checksum@,
            content_type: self.content_type@,
            filename: self.filename@,
        }
    }
}

/// The head of a response: its status, and its headers in order.
#[derive(Debug)]
pub struct ResponseHead {
    pub status: u16,
    pub headers: Vec<(String, String)>,
}

/// Headers in mathematical terms.
pub open spec fn header_views(h: Seq<(String, String)>) -> Seq<(Seq<char>, Seq<char>)> {
    h.map_values(|p: (String, String)| (p.0@, p.1@))
}

/// The header that names the file.
pub open spec fn disposition_text(filename: Seq<char>) -> Seq<char> {
    "attachment; filename=\""@ + filename + "\""@
}

/// The header that says which part of the file is sent.
pub open spec fn content_range_text(start: u64, total: u64) -> Seq<char> {
    "bytes "@ + decimal_text(start as nat) + "-"@ + decimal_text((total - 1) as nat) + "/"@
        + decimal_text(total as nat)
}

/// The header that says that the file ends before the part that was asked for.
pub open spec fn unsatisfied_text(total: u64) -> Seq<char> {
    "bytes */"@ + decimal_text(total as nat)
}

/// The headers that come with a file or a part of one. A file whose checksum is
/// not known comes without that header.
pub open spec fn file_headers(f: FileToSendView, length: u64) -> Seq<(Seq<char>, Seq<char>)> {
    let headers = seq![
        ("content-type"@, f.content_type),
        ("content-disposition"@, disposition_text(f.filename)),
        ("content-length"@, decimal_text(length as nat)),
        ("accept-ranges"@, "bytes"@),
    ];
    if f.checksum.len() > 0 {
        headers.push(("x-checksum-sha256"@, f.checksum))
    } else {
        headers
    }
}

/// The status and headers of the response that sends a file as planned.
pub open spec fn head_for(f: FileToSendView, plan: StreamPlan) -> (
    u16,
    Seq<(Seq<char>, Seq<char>)>,
) {
    match plan {
        StreamPlan::Whole { length } => (200, file_headers(f, length)),
        StreamPlan::Partial { start, length } => (
            206,
            file_headers(f, length).push(
                ("content-range"@, content_range_text(start, f.total)),
            ),
        ),
        StreamPlan::Unsatisfiable => (
            416,
            seq![("content-range"@, unsatisfied_text(f.total))],
        ),
    }
}

fn file_header_list(f: &FileToSend, length: u64) -> (r: Vec<(String, String)>)
    ensures
        header_views(r@) == file_headers(f@, length),
{
    let mut disposition = "attachment; filename=\"".to_owned();
    disposition.append(f.filename.as_str());
    disposition.append("\"");
    let mut headers: Vec<(String, String)> = Vec::new();
    headers.push(("content-type".to_owned(), f.content_type.clone()));
    headers.push(("content-disposition".to_owned(), disposition));
    headers.push(("content-length".to_owned(), decimal(length)));
    headers.push(("accept-ranges".to_owned(), "bytes".to_owned()));
    if to_chars(f.checksum.as_str()).len() > 0 {
        headers.push(("x-checksum-sha256".to_owned(), f.checksum.clone()));
    }
    assert(header_views(headers@) =~= file_headers(f@, length));
    headers
}

/// The head of the response that sends a file, from `start` on or all of it.
pub fn stream_head(f: &FileToSend, start: Option<u64>) -> (r: ResponseHead)
    ensures
        (r.status, header_views(r.headers@)) == head_for(f@, plan_of(f@.total, start)),
{
    let plan = plan_stream(f.total, start);
    match plan {
        StreamPlan::Whole { length } => ResponseHead {
            status: 200,
            headers: file_header_list(f, length),
        },
        StreamPlan::Partial { start, length } => {
            let mut headers = file_header_list(f, length);
            let mut range = "bytes ".to_owned();
            range.append(decimal(start).as_str());
            range.append("-");
            range.append(decimal(f.total - 1).as_str());
            range.append("/");
            range.append(decimal(f.total).as_str());
            let ghost list = headers@;
            headers.push(("content-range".to_owned(), range));
            assert(header_views(headers@) =~= header_views(list).push(
                ("content-range"@, range@),
            ));
            ResponseHead { status: 206, headers }
        },
        StreamPlan::Unsatisfiable => {
            let mut range = "bytes */".to_owned();
            range.append(decimal(f.total).as_str());
            let mut headers: Vec<(String, String)> = Vec::new();
            headers.push(("content-range".to_owned(), range));
            assert(header_views(headers@) =~= seq![("content-range"@, range@)]);
            ResponseHead { status: 416, headers }
        },
    }
}

// ---------------------------------------------------------------------------
// Downloads
// ---------------------------------------------------------------------------

/// The media type of files with an extension.
pub uninterp spec fn media_type(extension: Seq<char>) -> Seq<char>;

/// `mime_guess::from_ext` with `MimeGuess::first_or_octet_stream`: the media
/// type that goes by the extension, and `application/octet-stream` for files
/// without one.
#[verifier::external_body]
fn guess_media_type(extension: &str) -> (r: String)
    ensures
        r@ == media_type(extension@),
        extension@.len() == 0 ==> r@ == "application/octet-stream"@,
{
    mime_guess::from_ext(extension).first_or_octet_stream().to_string()
}

/// The share with an id, where it may be downloaded at `now`.
pub open spec fn lookup(m: Map<Seq<char>, SharedItemView>, id: Seq<char>, now: Timestamp) -> Result<
    SharedItemView,
    Refusal,
> {
    if !m.dom().contains(id) {
        Err(Refusal::NotFound)
    } else if !m[id].available_at(now) {
        Err(Refusal::Gone)
    } else {
        Ok(m[id])
    }
}

/// The result of a lookup in mathematical terms.
pub open spec fn result_view<T: View>(r: Result<T, Refusal>) -> Result<T::V, Refusal> {
    match r {
        Ok(v) => Ok(v@),
        Err(e) => Err(e),
    }
}

/// The share with an id, where it may be downloaded at `now`.
pub fn find_available(shares: &ShareRegistry, id: &str, now: &Timestamp) -> (r: Result<
    SharedItem,
    Refusal,
>)
    requires
        shares.wf(),
    ensures
        result_view(r) == lookup(shares@.items, id@, *now),
{
    match shares.get(id) {
        None => Err(Refusal::NotFound),
        Some(item) => if item.is_available_at(now) {
            Ok(item)
        } else {
            Err(Refusal::Gone)
        },
    }
}

/// The file that is sent for a share that is no folder. `extension` is that
/// of its path.
pub open spec fn file_of(item: SharedItemView, extension: Seq<char>) -> FileToSendView {
    FileToSendView {
        path: item.path,
        total: item.size,
        item_id: item.id,
        checksum: item.checksum,
        content_type: if item.kind == ShareKind::ZippedFolder {
            "application/zip"@
        } else {
            media_type(extension)
        },
        filename: if item.kind == ShareKind::ZippedFolder {
            item.name + ".zip"@
        } else {
            item.name
        },
    }
}

/// What is sent to someone who asks for a share, if anything.
pub open spec fn download_of(
    m: Map<Seq<char>, SharedItemView>,
    id: Seq<char>,
    extension: Seq<char>,
    now: Timestamp,
) -> Result<FileToSendView, Refusal> {
    match lookup(m, id, now) {
        Err(e) => Err(e),
        Ok(item) => if item.kind == ShareKind::Folder {
            Err(Refusal::IsFolder)
        } else {
            Ok(file_of(item, extension))
        },
    }
}

/// The registry after someone at `by_addr` asked for a share, from `start` on or
/// for all of it, and the event that is reported.
pub open spec fn served(
    reg: RegistryView,
    id: Seq<char>,
    start: Option<u64>,
    by_addr: Seq<char>,
    now: Timestamp,
) -> (RegistryView, Option<ServerEventView>) {
    if lookup(reg.items, id, now) is Ok && start is None {
        (
            RegistryView {
                items: reg.items.insert(id, counted(reg.items[id])),
                dirty: true,
                ..reg
            },
            Some(ServerEventView::Downloaded { item_name: reg.items[id].name, by_addr }),
        )
    } else {
        (reg, None)
    }
}

/// Answers someone who asks for a share, from `start` on or for all of it.
/// Asking for a share that is there counts as a download and is reported,
/// unless it goes on with an earlier one.
pub fn download_file(
    shares: &mut ShareRegistry,
    id: &str,
    start: Option<u64>,
    by_addr: String,
    extension: &str,
    now: &Timestamp,
) -> (r: (Result<FileToSend, Refusal>, Option<ServerEvent>))
    requires
        old(shares).wf(),
        old(shares).countable(id@),
    ensures
        final(shares).wf(),
        result_view(r.0) == download_of(old(shares)@.items, id@, extension@, *now),
        (final(shares)@, opt_view(r.1)) == served(old(shares)@, id@, start, by_addr@, *now),
        lookup(old(shares)@.items, id@, *now) is Ok && start is None ==> {
            let item = old(shares)@.items[id@];
            &&& final(shares)@ == (RegistryView {
                items: old(shares)@.items.insert(id@, counted(item)),
                dirty: true,
                ..old(shares)@
            })
            &&& opt_view(r.1) == Some(
                ServerEventView::Downloaded { item_name: item.name, by_addr: by_addr@ },
            )
        },
        lookup(old(shares)@.items, id@, *now) is Err || start is Some ==> final(shares)@ == old(
            shares,
        )@ && r.1 is None,
{
    let item = match find_available(shares, id, now) {
        Ok(item) => item,
        Err(e) => {
            return (Err(e), None);
        },
    };
    let mut event: Option<ServerEvent> = None;
    if start.is_none() {
        shares.increment_downloads(id);
        event = Some(ServerEvent::Downloaded { item_name: item.name.clone(), by_addr });
    }
    if matches!(item.kind, ShareKind::Folder) {
        return (Err(Refusal::IsFolder), event);
    }
    let content_type: String;
    let mut filename = item.name;
    if matches!(item.kind, ShareKind::ZippedFolder) {
        content_type = "application/zip".to_owned();
        filename.append(".zip");
    } else {
        content_type = guess_media_type(extension);
    }
    (
        Ok(
            FileToSend {
                path: item.path,
                total: item.size,
                item_id: item.id,
                checksum: item.checksum,
                content_type,
                filename,
            },
        ),
        event,
    )
}

/// The folder that is shared file by file under an id.
pub open spec fn folder_lookup(
    m: Map<Seq<char>, SharedItemView>,
    id: Seq<char>,
    now: Timestamp,
) -> Result<SharedItemView, Refusal> {
    match lookup(m, id, now) {
        Err(e) => Err(e),
        Ok(item) => if item.kind == ShareKind::Folder {
            Ok(item)
        } else {
            Err(Refusal::NotFolder)
        },
    }
}

/// Answers someone who asks which files a folder has: with the share, whose
/// folder is then to be walked, or with a refusal.
pub fn folder_manifest(shares: &ShareRegistry, id: &str, now: &Timestamp) -> (r: Result<
    SharedItem,
    Refusal,
>)
    requires
        shares.wf(),
    ensures
        result_view(r) == folder_lookup(shares@.items, id@, *now),
{
    match find_available(shares, id, now) {
        Err(e) => Err(e),
        Ok(item) => if matches!(item.kind, ShareKind::Folder) {
            Ok(item)
        } else {
            Err(Refusal::NotFolder)
        },
    }
}

/// A file of a folder as it was found on disk: its path, its size, its name,
/// and its extension.
#[derive(Debug)]
pub struct FolderMember {
    pub path: PathBuf,
    pub size: u64,
    pub file_name: Option<String>,
    pub extension: String,
}

/// The file of a folder that is sent. Its checksum is not known beforehand.
pub open spec fn member_file(item: SharedItemView, m: FolderMember) -> FileToSendView {
    FileToSendView {
        path: m.path,
        total: m.size,
        item_id: item.id,
        checksum: ""@,
        content_type: media_type(m.extension@),
        filename: match m.file_name {
            Some(n) => n@,
            None => "file"@,
        },
    }
}

/// Answers someone who asks for a file of a folder, from `start` on or for
/// all of it. It is reported unless it goes on with an earlier download.
pub fn download_folder_file(
    item: &SharedItem,
    rel_path: &str,
    member: Option<FolderMember>,
    start: Option<u64>,
    by_addr: String,
) -> (r: (Result<FileToSend, Refusal>, Option<ServerEvent>))
    ensures
        result_view(r.0) == (match member {
            Some(m) => Ok(member_file(item@, m)),
            None => Err(Refusal::NoSuchFile),
        }),
        opt_view(r.1) == (if member is Some && start is None {
            Some(
                ServerEventView::Downloaded {
                    item_name: item@.name + "/"@ + rel_path@,
                    by_addr: by_addr@,
                },
            )
        } else {
            None
        }),
{
    let m = match member {
        Some(m) => m,
        None => {
            return (Err(Refusal::NoSuchFile), None);
        },
    };
    let mut event: Option<ServerEvent> = None;
    if start.is_none() {
        let mut item_name = item.name.clone();
        item_name.append("/");
        item_name.append(rel_path);
        event = Some(ServerEvent::Downloaded { item_name, by_addr });
    }
    let content_type = guess_media_type(m.extension.as_str());
    let filename = match m.file_name {
        Some(n) => n,
        None => "file".to_owned(),
    };
    (
        Ok(
            FileToSend {
                path: m.path,
                total: m.size,
                item_id: item.id.clone(),
                checksum: "".to_owned(),
                content_type,
                filename,
            },
        ),
        event,
    )
}

/// The bytes between two reports of how much of a file was sent.
pub const SEND_REPORT_BYTES: u64 = 65_536;

/// Counts the bytes of a file that were sent.
#[derive(Debug)]
pub struct ProgressMeter {
    pub item_id: String,
    pub bytes_sent: u64,
    pub total: u64,
    pub last_report: u64,
}

impl ProgressMeter {
    /// Whether no more bytes were reported than were sent.
    pub open spec fn wf(self) -> bool {
        self.last_report <= self.bytes_sent
    }

    /// A count that begins with the bytes before `start`.
    pub fn new(item_id: String, total: u64, start: u64) -> (r: ProgressMeter)
        ensures
            r.wf(),
            r.item_id@ == item_id@,
            r.bytes_sent == start,
            r.total == total,
            r.last_report == start,
    {
        ProgressMeter { item_id, bytes_sent: start, total, last_report: start }
    }

    /// Whether the count is reported after `n` more bytes: when enough of
    /// them came, and when the file is complete.
    pub open spec fn reports(self, n: int) -> bool {
        self.bytes_sent + n - self.last_report >= SEND_REPORT_BYTES || self.bytes_sent + n
            == self.total
    }

    /// Counts `n` more bytes, and reports them or not.
    pub fn sent(&mut self, n: u64) -> (r: Option<ServerEvent>)
        requires
            old(self).wf(),
            old(self).bytes_sent + n <= u64::MAX,
        ensures
            final(self).wf(),
            final(self).item_id@ == old(self).item_id@,
            final(self).total == old(self).total,
            final(self).bytes_sent == old(self).bytes_sent + n,
            final(self).last_report == (if old(self).reports(n as int) {
                final(self).bytes_sent
            } else {
                old(self).last_report
            }),
            opt_view(r) == (if old(self).reports(n as int) {
                Some(
                    ServerEventView::UploadProgress {
                        item_id: old(self).item_id@,
                        bytes_sent: (old(self).bytes_sent + n) as u64,
                        total: old(self).total,
                    },
                )
            } else {
                None
            }),
    {
        self.bytes_sent = self.bytes_sent + n;
        if self.bytes_sent - self.last_report >= SEND_REPORT_BYTES || self.bytes_sent
            == self.total {
            self.last_report = self.bytes_sent;
            Some(
                ServerEvent::UploadProgress {
                    item_id: self.item_id.clone(),
                    bytes_sent: self.bytes_sent,
                    total: self.total,
                },
            )
        } else {
            None
        }
    }

    /// Reports that nothing more is sent.
    pub fn done(&self) -> (r: ServerEvent)
        ensures
            r@ == (ServerEventView::UploadDone { item_id: self.item_id@ }),
    {
        ServerEvent::UploadDone { item_id: self.item_id.clone() }
    }
}

// ---------------------------------------------------------------------------
// Deleting
// ---------------------------------------------------------------------------

/// What became of a request to delete a share: the event to be reported and
/// the archive to be deleted.
#[derive(Debug)]
pub struct Deletion {
    pub event: ServerEvent,
    pub archive: Option<PathBuf>,
}

/// Takes a share out of the registry on request.
pub fn delete_share(shares: &mut ShareRegistry, id: &str) -> (r: Result<Deletion, Refusal>)
    requires
        old(shares).wf(),
    ensures
        final(shares).wf(),
        final(shares)@ == (RegistryView {
            items: old(shares)@.items.remove(id@),
            dirty: old(shares)@.dirty || old(shares)@.items.dom().contains(id@),
            ..old(shares)@
        }),
        final(shares)@ == old(shares)@.releasing(id@),
        match r {
            Ok(d) => {
                &&& old(shares)@.items.dom().contains(id@)
                &&& d.event@ == (ServerEventView::Deleted {
                    item_name: old(shares)@.items[id@].name,
                })
                &&& d.archive == old(shares)@.items[id@].archive()
            },
            Err(e) => e == Refusal::NotFound && !old(shares)@.items.dom().contains(id@),
        },
{
    match shares.remove(id) {
        Some(item) => {
            let archive = item.archive_to_delete();
            Ok(Deletion { event: ServerEvent::Deleted { item_name: item.name }, archive })
        },
        None => Err(Refusal::NotFound),
    }
}

// ---------------------------------------------------------------------------
// Laws
// ---------------------------------------------------------------------------

/// The part of a file that is sent is the rest of it from where it was asked
/// for, and is refused exactly where there is no rest.
pub proof fn law_rest_of_the_file_is_sent(total: u64, start: Option<u64>)
    ensures
        match plan_of(total, start) {
            StreamPlan::Whole { length } => start is None && length == total,
            StreamPlan::Partial { start: s, length } => start == Some(s) && s + length == total
                && length > 0,
            StreamPlan::Unsatisfiable => start is Some && start->0 >= total,
        },
{
}

/// A file whose checksum is not known, such as one of a folder, is sent without
/// the header that names it, and every other file is sent with it.
pub proof fn law_checksum_header_comes_with_a_checksum(f: FileToSendView, plan: StreamPlan)
    requires
        !(plan is Unsatisfiable),
    ensures
        (exists|i: int|
            0 <= i < head_for(f, plan).1.len() && (#[trigger] head_for(f, plan).1[i]).0
                == "x-checksum-sha256"@) <==> f.checksum.len() > 0,
        forall|i: int|
            0 <= i < head_for(f, plan).1.len() && (#[trigger] head_for(f, plan).1[i]).0
                == "x-checksum-sha256"@ ==> head_for(f, plan).1[i].1 == f.checksum,
{
    reveal_strlit("x-checksum-sha256");
    reveal_strlit("content-type");
    reveal_strlit("content-disposition");
    reveal_strlit("content-length");
    reveal_strlit("accept-ranges");
    reveal_strlit("content-range");
    assert("x-checksum-sha256"@[0] == 'x');
    assert("content-type"@[0] == 'c');
    assert("content-disposition"@[0] == 'c');
    assert("content-length"@[0] == 'c');
    assert("accept-ranges"@[0] == 'a');
    assert("content-range"@[0] == 'c');
    let headers = head_for(f, plan).1;
    assert forall|i: int| 0 <= i < headers.len() implies ((#[trigger] headers[i]).0
        == "x-checksum-sha256"@) == (i == 4 && f.checksum.len() > 0) by {
        assert(headers[i].0[0] == 'x' <==> i == 4 && f.checksum.len() > 0);
    }
    if f.checksum.len() > 0 {
        assert(headers[4] == ("x-checksum-sha256"@, f.checksum));
    }
}

/// A host understands from where another host wants the rest of a file.
pub proof fn law_range_is_understood(from: u64)
    ensures
        range_start_of(Some(crate::client::range_text(from as nat))) == Some(from),
{
    let h = crate::client::range_text(from as nat);
    let d = decimal_text(from as nat);
    let rest = h.skip("bytes="@.len() as int);
    reveal_strlit("-");
    assert(h.take("bytes="@.len() as int) =~= "bytes="@);
    assert(rest =~= d + seq!['-'] + Seq::<char>::empty());
    crate::text::law_decimal_is_digits(from as nat);
    assert forall|i: int| 0 <= i < d.len() implies d[i] != '-' by {
        assert(crate::text::is_digit(d[i]));
    }
    crate::text::lemma_before_joined(d, '-', Seq::<char>::empty());
    crate::text::law_decimal_round_trip(from as nat, u64::MAX as int);
}

/// A host understands how large the file is whose rest it is sent.
pub proof fn law_total_is_understood(start: u64, total: u64)
    ensures
        crate::client::ranged_total(Some(content_range_text(start, total))) == total,
{
    let d = decimal_text(total as nat);
    let front = "bytes "@ + decimal_text(start as nat) + "-"@ + decimal_text((total - 1) as nat);
    reveal_strlit("/");
    assert(content_range_text(start, total) =~= front + seq!['/'] + d);
    crate::text::law_decimal_is_digits(total as nat);
    assert forall|i: int| 0 <= i < d.len() implies d[i] != '/' by {
        assert(crate::text::is_digit(d[i]));
    }
    crate::text::lemma_after_last_joined(front, '/', d);
    crate::text::law_decimal_round_trip(total as nat, u64::MAX as int);
}

/// Going on with a download that another host has the beginning of sends it
/// exactly what it lacks: it asks for the rest, gets the rest, and learns the
/// size of the whole.
pub proof fn law_resuming_sends_what_is_missing(kept: u64, total: u64)
    requires
        0 < kept < total,
    ensures
        ({
            let start = range_start_of(Some(crate::client::range_text(kept as nat)));
            &&& plan_of(total, start) == (StreamPlan::Partial {
                start: kept,
                length: (total - kept) as u64,
            })
            &&& crate::client::ranged_total(Some(content_range_text(kept, total))) == total
        }),
{
    law_range_is_understood(kept);
    law_total_is_understood(kept, total);
}

/// A share that may not be downloaded is never sent, counted or reported.
pub proof fn law_unavailable_shares_are_refused(
    m: Map<Seq<char>, SharedItemView>,
    id: Seq<char>,
    extension: Seq<char>,
    now: Timestamp,
)
    requires
        !(m.dom().contains(id) && m[id].available_at(now)),
    ensures
        lookup(m, id, now) is Err,
        download_of(m, id, extension, now) is Err,
        folder_lookup(m, id, now) is Err,
{
}

/// Every share that may be downloaded can be had in one of the two ways: as
/// one file, or file by file.
pub proof fn law_available_shares_are_sent(
    m: Map<Seq<char>, SharedItemView>,
    id: Seq<char>,
    extension: Seq<char>,
    now: Timestamp,
)
    requires
        m.dom().contains(id),
        m[id].available_at(now),
    ensures
        download_of(m, id, extension, now) is Ok <==> folder_lookup(m, id, now) is Err,
        download_of(m, id, extension, now) is Ok ==> download_of(m, id, extension, now)->Ok_0.path
            == m[id].path && download_of(m, id, extension, now)->Ok_0.checksum == m[id].checksum,
{
}

/// A host understands under which name it is sent a file, unless the name
/// holds the word that comes before it or begins or ends with a quote.
pub proof fn law_filename_is_understood(filename: Seq<char>)
    requires
        first_match(filename, "filename="@) is None,
        filename.len() > 0 ==> filename[0] != '"' && filename.last() != '"',
    ensures
        crate::client::disposition_name(Some(disposition_text(filename))) == Some(filename),
{
    let d = disposition_text(filename);
    let p = "filename="@;
    let quoted = seq!['"'] + filename + seq!['"'];
    reveal_strlit("filename=");
    reveal_strlit("attachment; filename=\"");
    reveal_strlit("\"");
    assert(d.skip(21) =~= quoted);
    assert forall|j: int| 0 <= j < 12 implies !p.is_prefix_of(#[trigger] d.skip(j)) by {
        if p.is_prefix_of(d.skip(j)) {
            assert(d.skip(j)[0] == p[0]);
            assert(d[j] == 'f');
        }
    }
    assert(p.is_prefix_of(d.skip(12))) by {
        assert(d.skip(12).take(9) =~= p);
    }
    crate::text::lemma_first_match_is(d, p, 12);
    assert forall|j: int| 0 <= j <= quoted.len() implies !p.is_prefix_of(
        #[trigger] quoted.skip(j),
    ) by {
        if p.is_prefix_of(quoted.skip(j)) {
            let rest = quoted.skip(j);
            assert(rest.len() >= 9);
            assert(rest[0] == p[0]);
            assert(rest[8] == p[8]);
            assert(quoted[j] == 'f');
            assert(quoted[j + 8] == '=');
            assert(1 <= j && j + 9 <= quoted.len() - 1);
            assert(filename.skip(j - 1).take(9) =~= p) by {
                assert forall|k: int| 0 <= k < 9 implies filename.skip(j - 1).take(9)[k] == p[k] by {
                    assert(rest[k] == p[k]);
                    assert(quoted[j + k] == filename[j - 1 + k]);
                }
            }
            assert(p.is_prefix_of(filename.skip(j - 1)));
            lemma_has_match(filename, p, j - 1);
        }
    }
    crate::text::lemma_first_match_none(quoted, p);
    crate::text::lemma_trim_wrapped(filename, '"');
}

proof fn lemma_has_match(s: Seq<char>, p: Seq<char>, i: int)
    requires
        0 <= i <= s.len(),
        p.is_prefix_of(s.skip(i)),
    ensures
        first_match(s, p) is Some,
    decreases i,
{
    if i == 0 {
        assert(s.skip(0) =~= s);
    } else {
        assert(s.skip(1).skip(i - 1) =~= s.skip(i));
        lemma_has_match(s.skip(1), p, i - 1);
    }
}

/// Whether a share may be downloaded is a matter of its end and its limit only:
/// the end has not passed, and fewer downloads were counted than are allowed.
/// Under its id such a share is found as it is; another is refused as gone, and
/// an id without a share as not found.
pub proof fn law_lookup_follows_end_and_limit(
    m: Map<Seq<char>, SharedItemView>,
    id: Seq<char>,
    now: Timestamp,
)
    ensures
        !m.dom().contains(id) ==> lookup(m, id, now) is Err && lookup(m, id, now)->Err_0.status_spec()
            == 404,
        m.dom().contains(id) ==> {
            let item = m[id];
            let running = item.expires_at is None || now.secs < item.expires_at->0.secs || (now.secs
                == item.expires_at->0.secs && now.nanos <= item.expires_at->0.nanos);
            let left = item.download_limit is None || item.download_count
                < item.download_limit->0;
            &&& running && left ==> lookup(m, id, now) is Ok && lookup(m, id, now)->Ok_0 == m[id]
            &&& !(running && left) ==> lookup(m, id, now) is Err && lookup(
                m,
                id,
                now,
            )->Err_0.status_spec() == 410
        },
{
}

/// Every share that may be downloaded and is no folder is sent as what it is:
/// the file at its path, all of its bytes, under its id and with its checksum.
/// An archive goes by the name of its folder with `.zip` behind it and as a zip
/// file, and a file by its own name.
pub proof fn law_sent_file_is_the_share(
    m: Map<Seq<char>, SharedItemView>,
    id: Seq<char>,
    extension: Seq<char>,
    now: Timestamp,
)
    requires
        lookup(m, id, now) is Ok,
        m[id].kind != ShareKind::Folder,
    ensures
        download_of(m, id, extension, now) is Ok,
        ({
            let item = m[id];
            let f = download_of(m, id, extension, now)->Ok_0;
            &&& f.path == item.path
            &&& f.total == item.size
            &&& f.item_id == item.id
            &&& f.checksum == item.checksum
            &&& item.kind == ShareKind::ZippedFolder ==> f.filename == item.name + ".zip"@
                && f.content_type == "application/zip"@
            &&& item.kind == ShareKind::File ==> f.filename == item.name && f.content_type
                == media_type(extension)
        }),
{
}

/// A folder that is shared file by file is not sent as one file, which is said
/// with 400; it is what is found where files of it are asked for, and only a
/// folder is.
pub proof fn law_folders_are_had_by_file(
    m: Map<Seq<char>, SharedItemView>,
    id: Seq<char>,
    extension: Seq<char>,
    now: Timestamp,
)
    requires
        lookup(m, id, now) is Ok,
    ensures
        m[id].kind == ShareKind::Folder ==> {
            &&& download_of(m, id, extension, now) is Err
            &&& download_of(m, id, extension, now)->Err_0.status_spec() == 400
            &&& folder_lookup(m, id, now) is Ok
            &&& folder_lookup(m, id, now)->Ok_0 == m[id]
        },
        m[id].kind != ShareKind::Folder ==> {
            &&& folder_lookup(m, id, now) is Err
            &&& folder_lookup(m, id, now)->Err_0.status_spec() == 400
        },
{
}

/// A refusal to find or to hand out a share is the same whichever way it is
/// asked for.
pub proof fn law_refusals_agree(
    m: Map<Seq<char>, SharedItemView>,
    id: Seq<char>,
    extension: Seq<char>,
    now: Timestamp,
)
    requires
        lookup(m, id, now) is Err,
    ensures
        download_of(m, id, extension, now) is Err,
        download_of(m, id, extension, now)->Err_0 == lookup(m, id, now)->Err_0,
        folder_lookup(m, id, now) is Err,
        folder_lookup(m, id, now)->Err_0 == lookup(m, id, now)->Err_0,
{
}

/// What is missing is refused with 404, what is gone with 410, what is asked for
/// in the wrong way with 400, what cannot be read with 500, and what cannot be
/// read from there with 416.
pub proof fn law_refusals_have_their_status(r: Refusal)
    ensures
        r.status_spec() == 404 <==> r is NotFound || r is NoSuchFile,
        r.status_spec() == 410 <==> r is Gone,
        r.status_spec() == 400 <==> r is IsFolder || r is NotFolder,
        r.status_spec() == 500 <==> r is Unreadable,
        r.status_spec() == 416 <==> r is SeekFailed,
{
}

/// A file that is asked for whole is sent whole: with 200, and with a length
/// that is its size. Its type and name are said, and that parts of it can be
/// had.
pub proof fn law_whole_files_are_sent_whole(f: FileToSendView)
    ensures
        ({
            let (status, headers) = head_for(f, plan_of(f.total, None));
            &&& status == 200
            &&& headers.contains(("content-length"@, decimal_text(f.total as nat)))
            &&& headers.contains(("content-type"@, f.content_type))
            &&& headers.contains(
                ("content-disposition"@, "attachment; filename=\""@ + f.filename + "\""@),
            )
            &&& headers.contains(("accept-ranges"@, "bytes"@))
            &&& headers.len() == (if f.checksum.len() > 0 {
                5int
            } else {
                4
            })
        }),
{
    let headers = head_for(f, plan_of(f.total, None)).1;
    assert(headers[0] == ("content-type"@, f.content_type));
    assert(headers[1] == ("content-disposition"@, disposition_text(f.filename)));
    assert(headers[2] == ("content-length"@, decimal_text(f.total as nat)));
    assert(headers[3] == ("accept-ranges"@, "bytes"@));
}

/// A file that is asked for from a byte on that it has is sent from there to
/// its end: with 206, with the number of bytes that are left, and with the range
/// that they are. From its end on there is nothing, which is said with 416 and
/// the size.
pub proof fn law_rest_is_sent_from_there(f: FileToSendView, start: u64)
    ensures
        start < f.total ==> {
            let (status, headers) = head_for(f, plan_of(f.total, Some(start)));
            &&& status == 206
            &&& headers.contains(("content-length"@, decimal_text((f.total - start) as nat)))
            &&& headers.contains(("content-type"@, f.content_type))
            &&& headers.contains(
                ("content-disposition"@, "attachment; filename=\""@ + f.filename + "\""@),
            )
            &&& headers.last() == (
                "content-range"@,
                "bytes "@ + decimal_text(start as nat) + "-"@ + decimal_text((f.total - 1) as nat)
                    + "/"@ + decimal_text(f.total as nat),
            )
        },
        start >= f.total ==> head_for(f, plan_of(f.total, Some(start))) == (
            416u16,
            seq![("content-range"@, "bytes */"@ + decimal_text(f.total as nat))],
        ),
{
    let headers = head_for(f, plan_of(f.total, Some(start))).1;
    if start < f.total {
        assert(headers[0] == ("content-type"@, f.content_type));
        assert(headers[1] == ("content-disposition"@, disposition_text(f.filename)));
        assert(headers[2] == ("content-length"@, decimal_text((f.total - start) as nat)));
    }
}

/// From where a file is wanted stands between `bytes=` and the first hyphen.
/// Without such a header, or with anything but a number there, the whole file is
/// wanted.
pub proof fn law_range_is_read(header: Seq<char>, from: u64, rest: Seq<char>)
    ensures
        range_start_of(None) is None,
        header == "bytes="@ + decimal_text(from as nat) + "-"@ + rest ==> range_start_of(Some(header))
            == Some(from),
        !"bytes="@.is_prefix_of(header) ==> range_start_of(Some(header)) is None,
        header == "bytes=-"@ + rest ==> range_start_of(Some(header)) is None,
{
    reveal_strlit("bytes=");
    reveal_strlit("-");
    reveal_strlit("bytes=-");
    if header == "bytes="@ + decimal_text(from as nat) + "-"@ + rest {
        let d = decimal_text(from as nat);
        assert(header.take(6) =~= "bytes="@);
        assert(header.skip(6) =~= d + seq!['-'] + rest);
        crate::text::law_decimal_is_digits(from as nat);
        assert forall|i: int| 0 <= i < d.len() implies d[i] != '-' by {
            assert(crate::text::is_digit(d[i]));
        }
        crate::text::lemma_before_joined(d, '-', rest);
        crate::text::law_decimal_round_trip(from as nat, u64::MAX as int);
    }
    if header == "bytes=-"@ + rest {
        assert(header.skip(6) =~= Seq::<char>::empty() + seq!['-'] + rest);
        crate::text::lemma_before_joined(Seq::<char>::empty(), '-', rest);
    }
}

/// A share is listed as what it is: its id, name, size, checksum and count of
/// downloads are those of the share, its kind is named by one of three words,
/// and it is called available exactly where it can be had.
pub proof fn law_lists_tell_the_shares(items: Seq<SharedItemView>, now: Timestamp)
    ensures
        infos_of(items, now).len() == items.len(),
        forall|i: int|
            0 <= i < items.len() ==> {
                let told = #[trigger] infos_of(items, now)[i];
                &&& told.id == items[i].id
                &&& told.name == items[i].name
                &&& told.size == items[i].size
                &&& told.size_human == size_text(items[i].size as nat)
                &&& told.checksum == items[i].checksum
                &&& told.download_count == items[i].download_count
                &&& told.added_at == rfc3339_text(
                    items[i].added_at.secs as int,
                    items[i].added_at.nanos as int,
                )
                &&& items[i].kind == ShareKind::File ==> told.kind == "file"@
                &&& items[i].kind == ShareKind::Folder ==> told.kind == "folder"@
                &&& items[i].kind == ShareKind::ZippedFolder ==> told.kind == "zipped_folder"@
                &&& told.available <==> lookup(map![items[i].id => items[i]], items[i].id, now) is Ok
            },
{
}

/// A file of a folder is sent as it was found on disk: all of its bytes, under
/// its own name, as part of the folder's share, and without a checksum.
pub proof fn law_folder_files_are_sent_as_found(item: SharedItemView, found: FolderMember)
    ensures
        ({
            let f = member_file(item, found);
            &&& f.path == found.path
            &&& f.total == found.size
            &&& f.item_id == item.id
            &&& f.checksum.len() == 0
            &&& f.content_type == media_type(found.extension@)
            &&& found.file_name is Some ==> f.filename == found.file_name->0@
        }),
{
    reveal_strlit("");
}

/// What was sent of a file is reported when 65536 bytes more than the last time
/// were sent, and when all of it was.
pub proof fn law_sending_is_reported(meter: ProgressMeter, n: u64)
    requires
        meter.wf(),
    ensures
        meter.reports(n as int) <==> meter.bytes_sent + n >= meter.last_report + 65536
            || meter.bytes_sent + n == meter.total,
{
}

/// Asking for a share that may be downloaded, from its start, counts as one
/// download of it, is reported with its name and who asked, and calls for the
/// index to be written; nothing else of the registry changes. Going on with an
/// earlier download, or asking for what cannot be had, changes and reports
/// nothing.
pub proof fn law_downloads_are_counted_once(
    reg: RegistryView,
    id: Seq<char>,
    start: Option<u64>,
    by_addr: Seq<char>,
    now: Timestamp,
    other: Seq<char>,
)
    requires
        reg.items.dom().contains(id),
        reg.items[id].download_count < u32::MAX,
        other != id,
    ensures
        ({
            let (after, event) = served(reg, id, start, by_addr, now);
            let asked = reg.items[id].available_at(now) && start is None;
            &&& asked ==> {
                &&& after.items[id] == (SharedItemView {
                    download_count: (reg.items[id].download_count + 1) as u32,
                    ..reg.items[id]
                })
                &&& after.items.dom() == reg.items.dom()
                &&& after.items[other] == reg.items[other]
                &&& after.dirty
                &&& after.index_path == reg.index_path && after.zip_cache_dir == reg.zip_cache_dir
                &&& event == Some(
                    ServerEventView::Downloaded { item_name: reg.items[id].name, by_addr },
                )
            }
            &&& !asked ==> after == reg && event is None
        }),
        served(reg, other, start, by_addr, now).0.items[id] == reg.items[id],
        !reg.items.dom().contains(other) ==> served(reg, other, start, by_addr, now) == (
            reg,
            None::<ServerEventView>,
        ),
{
    assert(reg.items.insert(id, counted(reg.items[id])).dom() =~= reg.items.dom());
}

/// A share with a limit can be had from its start as often as the limit says, and
/// the download that reaches it makes the share unavailable to everyone.
pub proof fn law_the_last_download_closes_the_share(
    reg: RegistryView,
    id: Seq<char>,
    by_addr: Seq<char>,
    extension: Seq<char>,
    now: Timestamp,
    later: Timestamp,
)
    requires
        reg.items.dom().contains(id),
        reg.items[id].available_at(now),
        reg.items[id].download_limit == Some((reg.items[id].download_count + 1) as u32),
        reg.items[id].download_count < u32::MAX,
    ensures
        ({
            let after = served(reg, id, None, by_addr, now).0;
            &&& lookup(after.items, id, later) is Err
            &&& lookup(after.items, id, later)->Err_0.status_spec() == 410
            &&& download_of(after.items, id, extension, later) is Err
        }),
{
}

}
