//! Downloads from other hosts: what is asked of a host, and the steps of a
//! download that survives broken connections.

use crate::checksum::{checksum_text, Checksum};
use crate::text::{
    after_last, decimal, decimal_text, lowercase, number_in, opt_view, parse_decimal, same,
    segment_after, starts_with, text_after_last, text_segment_after, trim_char, trimmed_of,
};
use crate::time::{elapsed_millis, millis_between};
use std::path::PathBuf;
use vstd::arithmetic::power2::pow2;
use vstd::prelude::*;

verus! {

// ---------------------------------------------------------------------------
// Requests
// ---------------------------------------------------------------------------

/// A share as another host lists it.
#[derive(Debug)]
pub struct RemoteShareInfo {
    pub id: String,
    pub name: String,
    pub kind: String,
    pub size: u64,
    pub size_human: String,
    pub available: bool,
}

/// A share of another host in mathematical terms.
pub struct RemoteShareView {
    pub id: Seq<char>,
    pub name: Seq<char>,
    pub kind: Seq<char>,
    pub size: u64,
    pub size_human: Seq<char>,
    pub available: bool,
}

impl View for RemoteShareInfo {
    type V = RemoteShareView;

    open spec fn view(&self) -> RemoteShareView {
        RemoteShareView {
            id: self.id@,
            name: self.name@,
            kind: self.kind@,
            size: self.size,
            size_human: self.size_human@,
            available: self.available,
        }
    }
}

impl Clone for RemoteShareInfo {
    fn clone(&self) -> (r: RemoteShareInfo)
        ensures
            r@ == self@,
    {
        RemoteShareInfo {
            id: self.id.clone(),
            name: self.name.clone(),
            kind: self.kind.clone(),
            size: self.size,
            size_human: self.size_human.clone(),
            available: self.available,
        }
    }
}

/// The list of shares that another host gives.
#[derive(Debug)]
pub struct ListResponse {
    pub items: Vec<RemoteShareInfo>,
}

/// The seconds after which a request for a list is given up.
pub const LIST_TIMEOUT_SECS: u64 = 5;

/// The URL of a host's list of shares.
pub fn shares_url(base: &str) -> (r: String)
    ensures
        r@ == base@ + "/shares"@,
{
    let mut out = base.to_owned();
    out.append("/shares");
    out
}

/// The URL of a share.
pub fn download_url(base: &str, id: &str) -> (r: String)
    ensures
        r@ == base@ + "/download/"@ + id@,
{
    let mut out = base.to_owned();
    out.append("/download/");
    out.append(id);
    out
}

/// The name of the file that keeps what was received of a share so far.
pub fn partial_name(id: &str) -> (r: String)
    ensures
        r@ == ".dl_tmp_"@ + id@,
{
    let mut out = ".dl_tmp_".to_owned();
    out.append(id);
    out
}

/// The header that asks for a file from a byte on.
pub open spec fn range_text(from: nat) -> Seq<char> {
    "bytes="@ + decimal_text(from) + "-"@
}

/// The header that asks for a file from a byte on.
pub fn range_header(from: u64) -> (r: String)
    ensures
        r@ == range_text(from as nat),
{
    let mut out = "bytes=".to_owned();
    out.append(decimal(from).as_str());
    out.append("-");
    out
}

// ---------------------------------------------------------------------------
// Responses
// ---------------------------------------------------------------------------

/// What the head of a response says: its status, by number and in words, and
/// the headers that are of interest.
#[derive(Debug)]
pub struct ResponseHead {
    pub status: u16,
    pub status_text: String,
    pub checksum: Option<String>,
    pub content_range: Option<String>,
    pub content_length: Option<u64>,
    pub disposition: Option<String>,
}

/// The size of the whole file that a `Content-Range` header gives, or 0.
pub open spec fn ranged_total(content_range: Option<Seq<char>>) -> u64 {
    match content_range {
        None => 0,
        Some(r) => match number_in(after_last(r, '/'), u64::MAX as int) {
            Some(n) => n as u64,
            None => 0,
        },
    }
}

/// The size of the whole file that the head of a response gives, or 0.
pub open spec fn head_total(h: ResponseHead) -> u64 {
    if h.status == 206 {
        ranged_total(opt_view(h.content_range))
    } else {
        match h.content_length {
            Some(n) => n,
            None => 0,
        }
    }
}

/// The name of the file that a `Content-Disposition` header gives.
pub open spec fn disposition_name(disposition: Option<Seq<char>>) -> Option<Seq<char>> {
    match disposition {
        None => None,
        Some(d) => match segment_after(d, "filename="@) {
            Some(f) => Some(trimmed_of(f, '"')),
            None => None,
        },
    }
}

/// The size of the whole file that the head of a response gives, or 0.
pub fn total_of_head(h: &ResponseHead) -> (r: u64)
    ensures
        r == head_total(*h),
{
    if h.status == 206 {
        match &h.content_range {
            None => 0,
            Some(r) => {
                let last = text_after_last(r.as_str(), '/');
                match parse_decimal(last.as_str(), u64::MAX) {
                    Some(n) => n,
                    None => 0,
                }
            },
        }
    } else {
        match h.content_length {
            Some(n) => n,
            None => 0,
        }
    }
}

/// The name of the file that a `Content-Disposition` header gives.
pub fn name_in_disposition(disposition: &Option<String>) -> (r: Option<String>)
    ensures
        opt_view(r) == disposition_name(opt_view(*disposition)),
{
    match disposition {
        None => None,
        Some(d) => match text_segment_after(d.as_str(), "filename=") {
            Some(f) => Some(trim_char(f.as_str(), '"')),
            None => None,
        },
    }
}

/// Whether the bytes of a file are those that its host announced. The
/// fingerprint of a folder is not a checksum of what was received, so it is
/// let pass.
pub open spec fn verdict(expected: Option<Seq<char>>, received: Seq<u8>) -> Option<bool> {
    match expected {
        None => None,
        Some(e) => Some("dir:"@.is_prefix_of(e) || checksum_text(received) == e),
    }
}

/// Whether the bytes of a file are those that its host announced.
pub fn check_received(expected: &Option<String>, received: Checksum) -> (r: Option<bool>)
    ensures
        r == verdict(opt_view(*expected), received@),
{
    match expected {
        None => None,
        Some(e) => {
            let actual = received.finish();
            Some(starts_with(e.as_str(), "dir:") || same(actual.as_str(), e.as_str()))
        },
    }
}

// ---------------------------------------------------------------------------
// The steps of a download
// ---------------------------------------------------------------------------

/// What the user wants a download to do.
#[derive(Debug, Clone, Copy, PartialEq, Eq, Structural)]
pub enum DownloadControl {
    Running,
    Paused,
    Cancelled,
}

/// A measured quantity: the bits of a double-precision number, which the
/// library hands on and never calculates with. All bits zero is zero.
#[derive(Debug, Clone, Copy, PartialEq, Eq, Structural)]
pub struct Measure {
    pub bits: u64,
}

/// How far a download is: its speed in bytes per second, and the seconds that
/// it will still take.
#[derive(Debug, Clone, Copy, PartialEq, Eq, Structural)]
pub struct DownloadProgress {
    pub bytes_downloaded: u64,
    pub total_bytes: u64,
    pub speed_bps: Measure,
    pub eta_seconds: Measure,
}

/// What became of a download.
#[derive(Debug)]
pub struct DownloadResult {
    pub path: PathBuf,
    /// None where the host announced no checksum.
    pub checksum_ok: Option<bool>,
    /// Whether the user gave the download up.
    pub cancelled: bool,
}

/// How often a download is taken up again before it is given up.
pub const MAX_RETRIES: u32 = 5;

/// The milliseconds before the first time that a download is taken up again.
pub const RETRY_BASE_MS: u64 = 500;

/// The most milliseconds before a download is taken up again.
pub const RETRY_MAX_MS: u64 = 16_000;

/// The milliseconds between two reports of a download's progress.
pub const REPORT_INTERVAL_MS: u64 = 500;

/// The milliseconds before a download is taken up again for the `attempt`-th
/// time: twice as many each time, up to a limit.
pub open spec fn backoff(attempt: u32) -> int {
    let wait = RETRY_BASE_MS * pow2((attempt - 1) as nat);
    if wait < RETRY_MAX_MS {
        wait
    } else {
        RETRY_MAX_MS as int
    }
}

fn backoff_millis(attempt: u32) -> (r: u64)
    requires
        1 <= attempt <= MAX_RETRIES,
    ensures
        r == backoff(attempt),
{
    proof {
        vstd::arithmetic::power2::lemma2_to64();
    }
    let mut wait: u64 = RETRY_BASE_MS;
    let mut k: u32 = 1;
    while k < attempt
        invariant
            1 <= k <= attempt <= MAX_RETRIES,
            wait == RETRY_BASE_MS * pow2((k - 1) as nat),
            wait <= 500 * 16,
            pow2(0) == 1,
            pow2(1) == 2,
            pow2(2) == 4,
            pow2(3) == 8,
            pow2(4) == 16,
        decreases attempt - k,
    {
        assert(k == 1 || k == 2 || k == 3 || k == 4);
        wait = wait * 2;
        k += 1;
    }
    if wait < RETRY_MAX_MS {
        wait
    } else {
        RETRY_MAX_MS
    }
}

/// What a download waits for.
#[derive(Debug, Clone, Copy, PartialEq, Eq, Structural)]
pub enum Phase {
    /// The size of what was kept from earlier.
    Measuring,
    /// The head of the response.
    Requesting,
    /// What was kept from earlier.
    Opening,
    /// The next piece of the file.
    Receiving,
    /// What the user wants by now.
    Checking,
    /// That the user lets the download go on, or gives it up.
    Holding,
    /// The time to take the download up again.
    Waiting,
    /// That the file is moved to its place, with the verdict on its bytes.
    Moving { checksum_ok: Option<bool> },
    /// Nothing more.
    Ended,
}

/// What a download is told.
#[derive(Debug)]
pub enum DownloadInput {
    /// How many bytes were kept from earlier.
    PartialSize(u64),
    /// The request could not be sent, and why.
    SendFailed(String),
    /// The head of the response.
    Responded(ResponseHead),
    /// The bytes that were kept from earlier, and the time.
    Opened(Vec<u8>, u64),
    /// The next piece of the file, which was written behind the others, and
    /// the time.
    Chunk(Vec<u8>, u64),
    /// The next piece could not be received or written, and why.
    StreamFailed(String),
    /// There is no next piece.
    StreamEnded,
    /// What the user wants, and the time.
    Control(DownloadControl, u64),
    /// The user can no longer be asked.
    ControlClosed,
    /// The time to wait is over.
    Waited,
    /// The file was moved to its place.
    Moved,
}

/// What a download asks for next.
#[derive(Debug)]
pub enum DownloadAction {
    /// Tell how many bytes were kept from earlier.
    MeasurePartial,
    /// Send the request, with this `Range` header.
    SendRequest { range: Option<String> },
    /// Open what was kept from earlier, after deleting it or not.
    OpenPartial { discard: bool },
    /// Receive and write the next piece.
    Receive,
    /// Take a sample of the speed: this many bytes came in this many
    /// nanoseconds. Report it or not, then tell what the user wants.
    Sample { bytes: u64, nanos: u64, downloaded: u64, total: u64, report: bool },
    /// Tell when the user wants something else.
    AwaitControl,
    /// Tell the user for which time the download is taken up again, and wait.
    Wait { millis: u64, attempt: u32 },
    /// Move what was received to this name.
    MoveToPlace { name: String },
    /// Delete what was received: the user gave the download up.
    Abandon,
    /// Delete what was received: the download failed.
    Fail { message: String },
    /// The download is complete.
    Done { checksum_ok: Option<bool> },
}

/// A request for the next step in mathematical terms.
pub enum ActionView {
    MeasurePartial,
    SendRequest { range: Option<Seq<char>> },
    OpenPartial { discard: bool },
    Receive,
    Sample { bytes: int, nanos: int, downloaded: int, total: int, report: bool },
    AwaitControl,
    Wait { millis: int, attempt: u32 },
    MoveToPlace { name: Seq<char> },
    Abandon,
    Fail { message: Seq<char> },
    Done { checksum_ok: Option<bool> },
}

impl View for DownloadAction {
    type V = ActionView;

    open spec fn view(&self) -> ActionView {
        match *self {
            DownloadAction::MeasurePartial => ActionView::MeasurePartial,
            DownloadAction::SendRequest { range } => ActionView::SendRequest {
                range: opt_view(range),
            },
            DownloadAction::OpenPartial { discard } => ActionView::OpenPartial { discard },
            DownloadAction::Receive => ActionView::Receive,
            DownloadAction::Sample { bytes, nanos, downloaded, total, report } => {
                ActionView::Sample {
                    bytes: bytes as int,
                    nanos: nanos as int,
                    downloaded: downloaded as int,
                    total: total as int,
                    report,
                }
            },
            DownloadAction::AwaitControl => ActionView::AwaitControl,
            DownloadAction::Wait { millis, attempt } => ActionView::Wait {
                millis: millis as int,
                attempt,
            },
            DownloadAction::MoveToPlace { name } => ActionView::MoveToPlace { name: name@ },
            DownloadAction::Abandon => ActionView::Abandon,
            DownloadAction::Fail { message } => ActionView::Fail { message: message@ },
            DownloadAction::Done { checksum_ok } => ActionView::Done { checksum_ok },
        }
    }
}

/// A download under way.
pub struct DownloadTask {
    share_name: String,
    phase: Phase,
    attempt: u32,
    total: u64,
    expected: Option<String>,
    file_name: Option<String>,
    received: Checksum,
    downloaded: u64,
    last_bytes: u64,
    last_time: u64,
    last_report: u64,
}

/// A download in mathematical terms: what it waits for, how often it was taken
/// up again, what the host said of the file, the bytes of the file so far, and
/// since when the speed is measured.
#[verifier::ext_equal]
pub struct DownloadView {
    pub share_name: Seq<char>,
    pub phase: Phase,
    pub attempt: u32,
    pub total: u64,
    pub expected: Option<Seq<char>>,
    pub file_name: Option<Seq<char>>,
    pub received: Seq<u8>,
    pub last_bytes: u64,
    pub last_time: u64,
    pub last_report: u64,
}

impl View for DownloadTask {
    type V = DownloadView;

    closed spec fn view(&self) -> DownloadView {
        DownloadView {
            share_name: self.share_name@,
            phase: self.phase,
            attempt: self.attempt,
            total: self.total,
            expected: opt_view(self.expected),
            file_name: opt_view(self.file_name),
            received: self.received@,
            last_bytes: self.last_bytes,
            last_time: self.last_time,
            last_report: self.last_report,
        }
    }
}

impl DownloadView {
    /// Whether the download was not taken up too often, and measures its speed
    /// from a byte that it has.
    pub open spec fn wf(self) -> bool {
        &&& self.attempt <= MAX_RETRIES
        &&& self.received.len() <= u64::MAX
        &&& self.last_bytes <= self.received.len()
    }

    /// Whether the download can be told `input` now.
    pub open spec fn accepts(self, input: DownloadInput) -> bool {
        match (self.phase, input) {
            (Phase::Measuring, DownloadInput::PartialSize(_)) => true,
            (Phase::Requesting, DownloadInput::SendFailed(_)) => true,
            (Phase::Requesting, DownloadInput::Responded(_)) => true,
            (Phase::Opening, DownloadInput::Opened(..)) => true,
            (Phase::Receiving, DownloadInput::Chunk(data, _)) => self.received.len() + data@.len()
                <= u64::MAX,
            (Phase::Receiving, DownloadInput::StreamFailed(_)) => true,
            (Phase::Receiving, DownloadInput::StreamEnded) => true,
            (Phase::Checking, DownloadInput::Control(..)) => true,
            (Phase::Holding, DownloadInput::Control(..)) => true,
            (Phase::Holding, DownloadInput::ControlClosed) => true,
            (Phase::Waiting, DownloadInput::Waited) => true,
            (Phase::Moving { .. }, DownloadInput::Moved) => true,
            _ => false,
        }
    }

    /// The name under which the file is kept in the end.
    pub open spec fn place(self) -> Seq<char> {
        match self.file_name {
            Some(n) => n,
            None => self.share_name,
        }
    }

    /// After the download broke off for `reason`: it is taken up again after a
    /// while, or has failed where that was done too often.
    pub open spec fn broken(self, reason: Seq<char>) -> (DownloadView, ActionView) {
        if self.attempt >= MAX_RETRIES {
            (
                DownloadView { phase: Phase::Ended, ..self },
                ActionView::Fail {
                    message: "Download failed after "@ + decimal_text(MAX_RETRIES as nat)
                        + " retries: "@ + reason,
                },
            )
        } else {
            let attempt = (self.attempt + 1) as u32;
            (
                DownloadView { phase: Phase::Waiting, attempt, ..self },
                ActionView::Wait { millis: backoff(attempt), attempt },
            )
        }
    }

    /// What the download knows of the file after the head of a response. What
    /// an earlier response said stands.
    pub open spec fn informed(self, h: ResponseHead) -> DownloadView {
        DownloadView {
            expected: match self.expected {
                Some(e) => Some(e),
                None => match h.checksum {
                    Some(c) => Some(lowercase(c@)),
                    None => None,
                },
            },
            total: if self.total == 0 {
                head_total(h)
            } else {
                self.total
            },
            file_name: match self.file_name {
                Some(n) => Some(n),
                None => match disposition_name(opt_view(h.disposition)) {
                    Some(n) => Some(n),
                    None => Some(self.share_name),
                },
            },
            ..self
        }
    }

    /// After the head of a response: with 200 the file comes from its start,
    /// with 206 from where it broke off, with 416 there is no more of it.
    pub open spec fn responded(self, h: ResponseHead) -> (DownloadView, ActionView) {
        if h.status == 200 || h.status == 206 {
            (
                DownloadView { phase: Phase::Opening, ..self.informed(h) },
                ActionView::OpenPartial { discard: h.status == 200 },
            )
        } else if h.status == 416 {
            (
                DownloadView { phase: Phase::Moving { checksum_ok: None }, ..self },
                ActionView::MoveToPlace { name: self.place() },
            )
        } else {
            (
                DownloadView { phase: Phase::Ended, ..self },
                ActionView::Fail { message: "Server returned "@ + h.status_text@ },
            )
        }
    }

    /// After the next piece of the file.
    pub open spec fn grown(self, data: Seq<u8>, now: u64) -> (DownloadView, ActionView) {
        let received = self.received + data;
        let report = elapsed_millis(now, self.last_report) >= REPORT_INTERVAL_MS;
        let sample = ActionView::Sample {
            bytes: received.len() - self.last_bytes,
            nanos: if now >= self.last_time {
                now - self.last_time
            } else {
                0
            },
            downloaded: received.len() as int,
            total: self.total as int,
            report,
        };
        let grown = DownloadView { phase: Phase::Checking, received, ..self };
        if report {
            (
                DownloadView {
                    last_bytes: received.len() as u64,
                    last_time: now,
                    last_report: now,
                    ..grown
                },
                sample,
            )
        } else {
            (grown, sample)
        }
    }

    /// After the last piece of the file: complete, where the host gave no size
    /// or all of it is there, and else broken off.
    pub open spec fn ended(self) -> (DownloadView, ActionView) {
        if self.total == 0 || self.received.len() >= self.total {
            (
                DownloadView {
                    phase: Phase::Moving { checksum_ok: verdict(self.expected, self.received) },
                    received: Seq::empty(),
                    last_bytes: 0,
                    ..self
                },
                ActionView::MoveToPlace { name: self.place() },
            )
        } else {
            self.broken("Incomplete download"@)
        }
    }

    /// After the user was asked.
    pub open spec fn controlled(self, c: DownloadControl, now: u64) -> (DownloadView, ActionView) {
        match c {
            DownloadControl::Cancelled => (
                DownloadView { phase: Phase::Ended, ..self },
                ActionView::Abandon,
            ),
            DownloadControl::Paused => (
                DownloadView { phase: Phase::Holding, ..self },
                ActionView::AwaitControl,
            ),
            DownloadControl::Running => if self.phase is Holding {
                (
                    DownloadView {
                        phase: Phase::Receiving,
                        last_bytes: self.received.len() as u64,
                        last_time: now,
                        last_report: now,
                        ..self
                    },
                    ActionView::Receive,
                )
            } else {
                (DownloadView { phase: Phase::Receiving, ..self }, ActionView::Receive)
            },
        }
    }

    /// The download after it was told `input`, and what it asks for next.
    pub open spec fn after(self, input: DownloadInput) -> (DownloadView, ActionView) {
        match input {
            DownloadInput::PartialSize(n) => (
                DownloadView { phase: Phase::Requesting, ..self },
                ActionView::SendRequest {
                    range: if n > 0 {
                        Some(range_text(n as nat))
                    } else {
                        None
                    },
                },
            ),
            DownloadInput::SendFailed(reason) => self.broken(reason@),
            DownloadInput::Responded(h) => self.responded(h),
            DownloadInput::Opened(existing, now) => (
                DownloadView {
                    phase: Phase::Receiving,
                    received: existing@,
                    last_bytes: existing@.len() as u64,
                    last_time: now,
                    last_report: now,
                    ..self
                },
                ActionView::Receive,
            ),
            DownloadInput::Chunk(data, now) => self.grown(data@, now),
            DownloadInput::StreamFailed(reason) => self.broken(reason@),
            DownloadInput::StreamEnded => self.ended(),
            DownloadInput::Control(c, now) => self.controlled(c, now),
            DownloadInput::ControlClosed => (
                DownloadView { phase: Phase::Ended, ..self },
                ActionView::Abandon,
            ),
            DownloadInput::Waited => (
                DownloadView { phase: Phase::Measuring, ..self },
                ActionView::MeasurePartial,
            ),
            DownloadInput::Moved => (
                DownloadView { phase: Phase::Ended, ..self },
                ActionView::Done { checksum_ok: self.phase->checksum_ok },
            ),
        }
    }
}

/// A download of the share with this name of which nothing is known yet.
pub open spec fn fresh_download(share_name: Seq<char>) -> DownloadView {
    DownloadView {
        share_name,
        phase: Phase::Measuring,
        attempt: 0,
        total: 0,
        expected: None,
        file_name: None,
        received: Seq::empty(),
        last_bytes: 0,
        last_time: 0,
        last_report: 0,
    }
}

impl DownloadTask {
    /// Whether the download counts the bytes that it has, was not taken up too
    /// often, and measures its speed from a byte that it has.
    pub closed spec fn wf(&self) -> bool {
        self@.wf() && self.downloaded == self.received@.len()
    }

    /// A download of the share with this name, which begins by asking how much
    /// of it was kept from earlier.
    pub fn new(share_name: String) -> (r: (DownloadTask, DownloadAction))
        ensures
            r.0.wf(),
            r.0@ == (DownloadView {
                share_name: share_name@,
                phase: Phase::Measuring,
                attempt: 0,
                total: 0,
                expected: None,
                file_name: None,
                received: Seq::empty(),
                last_bytes: 0,
                last_time: 0,
                last_report: 0,
            }),
            r.0@ == fresh_download(share_name@),
            r.1@ == ActionView::MeasurePartial,
    {
        (
            DownloadTask {
                share_name,
                phase: Phase::Measuring,
                attempt: 0,
                total: 0,
                expected: None,
                file_name: None,
                received: Checksum::new(),
                downloaded: 0,
                last_bytes: 0,
                last_time: 0,
                last_report: 0,
            },
            DownloadAction::MeasurePartial,
        )
    }

    /// What the download waits for.
    pub fn phase(&self) -> (r: Phase)
        ensures
            r == self@.phase,
    {
        self.phase
    }

    /// How many bytes of the file there are.
    pub fn downloaded(&self) -> (r: u64)
        requires
            self.wf(),
        ensures
            r == self@.received.len(),
    {
        self.downloaded
    }

    fn place(&self) -> (r: String)
        ensures
            r@ == self@.place(),
    {
        match &self.file_name {
            Some(n) => n.clone(),
            None => self.share_name.clone(),
        }
    }

    fn broken(&mut self, reason: &str) -> (r: DownloadAction)
        requires
            old(self).wf(),
        ensures
            final(self).wf(),
            (final(self)@, r@) == old(self)@.broken(reason@),
    {
        if self.attempt >= MAX_RETRIES {
            self.phase = Phase::Ended;
            let mut message = "Download failed after ".to_owned();
            message.append(decimal(MAX_RETRIES as u64).as_str());
            message.append(" retries: ");
            message.append(reason);
            return DownloadAction::Fail { message };
        }
        self.attempt = self.attempt + 1;
        self.phase = Phase::Waiting;
        DownloadAction::Wait { millis: backoff_millis(self.attempt), attempt: self.attempt }
    }

    fn inform(&mut self, h: &ResponseHead)
        requires
            old(self).wf(),
        ensures
            final(self).wf(),
            final(self)@ == old(self)@.informed(*h),
    {
        if self.expected.is_none() {
            if let Some(c) = &h.checksum {
                self.expected = Some(c.as_str().to_lowercase());
            }
        }
        if self.total == 0 {
            self.total = total_of_head(h);
        }
        if self.file_name.is_none() {
            let name = match name_in_disposition(&h.disposition) {
                Some(n) => n,
                None => self.share_name.clone(),
            };
            self.file_name = Some(name);
        }
    }

    fn respond(&mut self, h: &ResponseHead) -> (r: DownloadAction)
        requires
            old(self).wf(),
        ensures
            final(self).wf(),
            (final(self)@, r@) == old(self)@.responded(*h),
    {
        if h.status == 200 || h.status == 206 {
            self.inform(h);
            self.phase = Phase::Opening;
            DownloadAction::OpenPartial { discard: h.status == 200 }
        } else if h.status == 416 {
            self.phase = Phase::Moving { checksum_ok: None };
            DownloadAction::MoveToPlace { name: self.place() }
        } else {
            self.phase = Phase::Ended;
            let mut message = "Server returned ".to_owned();
            message.append(h.status_text.as_str());
            DownloadAction::Fail { message }
        }
    }

    fn open(&mut self, existing: &Vec<u8>, now: u64) -> (r: DownloadAction)
        requires
            old(self).wf(),
            old(self)@.phase is Opening,
        ensures
            final(self).wf(),
            final(self)@ == (DownloadView {
                phase: Phase::Receiving,
                received: existing@,
                last_bytes: existing@.len() as u64,
                last_time: now,
                last_report: now,
                ..old(self)@
            }),
            r@ == ActionView::Receive,
    {
        let mut received = Checksum::new();
        received.update(existing.as_slice());
        assert(received@ =~= existing@);
        self.received = received;
        self.downloaded = existing.len() as u64;
        self.last_bytes = self.downloaded;
        self.last_time = now;
        self.last_report = now;
        self.phase = Phase::Receiving;
        DownloadAction::Receive
    }

    fn grow(&mut self, data: &Vec<u8>, now: u64) -> (r: DownloadAction)
        requires
            old(self).wf(),
            old(self)@.received.len() + data@.len() <= u64::MAX,
        ensures
            final(self).wf(),
            (final(self)@, r@) == old(self)@.grown(data@, now),
    {
        self.received.update(data.as_slice());
        self.downloaded = self.downloaded + data.len() as u64;
        let report = millis_between(now, self.last_report) >= REPORT_INTERVAL_MS;
        let action = DownloadAction::Sample {
            bytes: self.downloaded - self.last_bytes,
            nanos: if now >= self.last_time {
                now - self.last_time
            } else {
                0
            },
            downloaded: self.downloaded,
            total: self.total,
            report,
        };
        if report {
            self.last_bytes = self.downloaded;
            self.last_time = now;
            self.last_report = now;
        }
        self.phase = Phase::Checking;
        action
    }

    fn end(&mut self) -> (r: DownloadAction)
        requires
            old(self).wf(),
        ensures
            final(self).wf(),
            (final(self)@, r@) == old(self)@.ended(),
    {
        if self.total == 0 || self.downloaded >= self.total {
            let mut received = Checksum::new();
            std::mem::swap(&mut received, &mut self.received);
            self.downloaded = 0;
            self.last_bytes = 0;
            let checksum_ok = check_received(&self.expected, received);
            self.phase = Phase::Moving { checksum_ok };
            DownloadAction::MoveToPlace { name: self.place() }
        } else {
            self.broken("Incomplete download")
        }
    }

    fn control(&mut self, c: DownloadControl, now: u64) -> (r: DownloadAction)
        requires
            old(self).wf(),
        ensures
            final(self).wf(),
            (final(self)@, r@) == old(self)@.controlled(c, now),
    {
        match c {
            DownloadControl::Cancelled => {
                self.phase = Phase::Ended;
                DownloadAction::Abandon
            },
            DownloadControl::Paused => {
                self.phase = Phase::Holding;
                DownloadAction::AwaitControl
            },
            DownloadControl::Running => {
                if matches!(self.phase, Phase::Holding) {
                    self.last_bytes = self.downloaded;
                    self.last_time = now;
                    self.last_report = now;
                }
                self.phase = Phase::Receiving;
                DownloadAction::Receive
            },
        }
    }

    /// Tells the download what it waits for, and what it asks for next.
    pub fn step(&mut self, input: DownloadInput) -> (r: DownloadAction)
        requires
            old(self).wf(),
            old(self)@.accepts(input),
        ensures
            final(self).wf(),
            (final(self)@, r@) == old(self)@.after(input),
    {
        match input {
            DownloadInput::PartialSize(n) => {
                self.phase = Phase::Requesting;
                DownloadAction::SendRequest {
                    range: if n > 0 {
                        Some(range_header(n))
                    } else {
                        None
                    },
                }
            },
            DownloadInput::SendFailed(reason) => self.broken(reason.as_str()),
            DownloadInput::Responded(h) => self.respond(&h),
            DownloadInput::Opened(existing, now) => self.open(&existing, now),
            DownloadInput::Chunk(data, now) => self.grow(&data, now),
            DownloadInput::StreamFailed(reason) => self.broken(reason.as_str()),
            DownloadInput::StreamEnded => self.end(),
            DownloadInput::Control(c, now) => self.control(c, now),
            DownloadInput::ControlClosed => {
                self.phase = Phase::Ended;
                DownloadAction::Abandon
            },
            DownloadInput::Waited => {
                self.phase = Phase::Measuring;
                DownloadAction::MeasurePartial
            },
            DownloadInput::Moved => {
                let checksum_ok = match self.phase {
                    Phase::Moving { checksum_ok } => checksum_ok,
                    _ => None,
                };
                self.phase = Phase::Ended;
                DownloadAction::Done { checksum_ok }
            },
        }
    }
}

// ---------------------------------------------------------------------------
// Laws
// ---------------------------------------------------------------------------

/// However a download goes, it is taken up again at most `MAX_RETRIES` times,
/// and each time that it is, it waits, counts one more, and tells the user the
/// count.
pub proof fn law_retries_are_bounded(t: DownloadView, input: DownloadInput)
    requires
        t.wf(),
        t.accepts(input),
    ensures
        t.after(input).0.wf(),
        t.attempt <= t.after(input).0.attempt <= MAX_RETRIES,
        t.after(input).0.attempt != t.attempt <==> t.after(input).1 is Wait,
        t.after(input).1 is Wait ==> t.after(input).0.attempt == t.attempt + 1
            && t.after(input).1->millis == backoff(t.after(input).0.attempt)
            && t.after(input).1->attempt == t.after(input).0.attempt,
{
    if let DownloadInput::Opened(kept, _) = input {
        assert(kept.len() <= u64::MAX);
    }
}

/// The times to wait are half a second, one, two, four and eight seconds.
pub proof fn law_backoff_doubles()
    ensures
        backoff(1) == 500,
        backoff(2) == 1000,
        backoff(3) == 2000,
        backoff(4) == 4000,
        backoff(5) == 8000,
        forall|attempt: u32| 1 <= attempt <= MAX_RETRIES ==> #[trigger] backoff(attempt)
            <= RETRY_MAX_MS,
{
    vstd::arithmetic::power2::lemma2_to64();
}

/// A file is moved to its place only when all of it is there: the host said so
/// when asked for more of it, or its last piece came and it has the size that
/// the host gave, if it gave one.
pub proof fn law_only_complete_files_are_kept(t: DownloadView, input: DownloadInput)
    requires
        t.accepts(input),
        t.after(input).1 is MoveToPlace,
    ensures
        (input is StreamEnded && (t.total == 0 || t.received.len() >= t.total)) || (
        input is Responded && input->Responded_0.status == 416),
{
}

/// A download ends well only after its file was moved to its place, and with
/// the verdict that was reached on its bytes.
pub proof fn law_done_follows_the_move(t: DownloadView, input: DownloadInput)
    requires
        t.accepts(input),
        t.after(input).1 is Done,
    ensures
        t.phase is Moving,
        t.after(input).1->Done_checksum_ok == t.phase->checksum_ok,
        t.after(input).0.phase is Ended,
{
}

/// A download that the user gives up deletes what it received and ends, also
/// while it is paused, and also when the user can no longer be asked.
pub proof fn law_cancelling_abandons(t: DownloadView, now: u64)
    requires
        t.phase is Checking || t.phase is Holding,
    ensures
        t.after(DownloadInput::Control(DownloadControl::Cancelled, now)).1 is Abandon,
        t.after(DownloadInput::Control(DownloadControl::Cancelled, now)).0.phase is Ended,
        t.after(DownloadInput::ControlClosed).1 is Abandon,
        t.after(DownloadInput::ControlClosed).0.phase is Ended,
{
}

/// Pausing and going on changes nothing of the file.
pub proof fn law_pausing_keeps_the_file(t: DownloadView, paused_at: u64, now: u64)
    requires
        t.phase is Checking,
    ensures
        ({
            let held = t.after(DownloadInput::Control(DownloadControl::Paused, paused_at)).0;
            let again = held.after(DownloadInput::Control(DownloadControl::Paused, now)).0;
            let resumed = held.after(DownloadInput::Control(DownloadControl::Running, now)).0;
            &&& held.phase is Holding
            &&& again == held
            &&& resumed.phase is Receiving
            &&& resumed.received == t.received
            &&& resumed.attempt == t.attempt
            &&& resumed.total == t.total
        }),
{
}

/// A download that has ended is told nothing more.
pub proof fn law_ended_is_final(t: DownloadView, input: DownloadInput)
    requires
        t.phase is Ended,
    ensures
        !t.accepts(input),
{
}

/// Until it has ended, a download can always be told something, and what it
/// asks for says what: it never gets stuck.
pub proof fn law_every_action_has_its_answer(t: DownloadView, input: DownloadInput)
    requires
        t.wf(),
        t.accepts(input),
    ensures
        ({
            let (u, a) = t.after(input);
            match u.phase {
                Phase::Measuring => a is MeasurePartial,
                Phase::Requesting => a is SendRequest,
                Phase::Opening => a is OpenPartial,
                Phase::Receiving => a is Receive,
                Phase::Checking => a is Sample,
                Phase::Holding => a is AwaitControl,
                Phase::Waiting => a is Wait,
                Phase::Moving { .. } => a is MoveToPlace,
                Phase::Ended => a is Abandon || a is Fail || a is Done,
            }
        }),
{
}

/// What was kept from earlier is asked for no second time: the request names
/// the first byte that is missing, if anything was kept.
pub proof fn law_resuming_asks_for_the_rest(t: DownloadView, kept: u64)
    ensures
        t.after(DownloadInput::PartialSize(kept)).1 == (ActionView::SendRequest {
            range: if kept > 0 {
                Some(range_text(kept as nat))
            } else {
                None
            },
        }),
{
}

/// The pieces of a file, one behind the other.
pub open spec fn joined(pieces: Seq<(Vec<u8>, u64)>) -> Seq<u8>
    decreases pieces.len(),
{
    if pieces.len() == 0 {
        Seq::empty()
    } else {
        joined(pieces.drop_last()) + pieces.last().0@
    }
}

/// A download after the pieces came, while the user let it run.
pub open spec fn fed(t: DownloadView, pieces: Seq<(Vec<u8>, u64)>) -> DownloadView
    decreases pieces.len(),
{
    if pieces.len() == 0 {
        t
    } else {
        let (data, now) = pieces.last();
        fed(t, pieces.drop_last()).after(DownloadInput::Chunk(data, now)).0.after(
            DownloadInput::Control(DownloadControl::Running, now),
        ).0
    }
}

/// The checksum covers the whole file: what was kept from earlier, and then
/// every piece, in the order in which they came.
pub proof fn law_checksum_covers_the_file(
    t: DownloadView,
    kept: Vec<u8>,
    opened_at: u64,
    pieces: Seq<(Vec<u8>, u64)>,
)
    requires
        t.phase is Opening,
    ensures
        ({
            let opened = t.after(DownloadInput::Opened(kept, opened_at)).0;
            let full = fed(opened, pieces);
            let bytes = kept@ + joined(pieces);
            &&& full.received == bytes
            &&& full.expected == t.expected
            &&& (t.total == 0 || bytes.len() >= t.total) ==> full.after(
                DownloadInput::StreamEnded,
            ).0.phase == (Phase::Moving { checksum_ok: verdict(t.expected, bytes) })
        }),
{
    let opened = t.after(DownloadInput::Opened(kept, opened_at)).0;
    lemma_fed(opened, pieces);
}

proof fn lemma_fed(t: DownloadView, pieces: Seq<(Vec<u8>, u64)>)
    ensures
        fed(t, pieces).received == t.received + joined(pieces),
        fed(t, pieces).expected == t.expected,
        fed(t, pieces).total == t.total,
    decreases pieces.len(),
{
    if pieces.len() == 0 {
        assert(t.received + joined(pieces) =~= t.received);
    } else {
        lemma_fed(t, pieces.drop_last());
        assert(t.received + joined(pieces) =~= (t.received + joined(pieces.drop_last()))
            + pieces.last().0@);
    }
}

/// The fingerprint of a folder is never taken for a wrong checksum.
pub proof fn law_fingerprints_are_let_pass(fingerprint: Seq<char>, received: Seq<u8>)
    requires
        "dir:"@.is_prefix_of(fingerprint),
    ensures
        verdict(Some(fingerprint), received) == Some(true),
{
}

/// A file that arrives as it was sent is found right.
pub proof fn law_intact_files_pass(received: Seq<u8>)
    ensures
        verdict(Some(checksum_text(received)), received) == Some(true),
{
}

/// A download that breaks off before all that was announced is there, whether
/// the request failed, the stream failed, or the stream ended too early, is
/// taken up again: five times, after half a second, one, two, four and eight
/// seconds. It keeps what it received and what it knows of the file. Only the
/// sixth break makes it fail.
pub proof fn law_broken_downloads_are_taken_up_again(t: DownloadView, input: DownloadInput)
    requires
        t.wf(),
        t.accepts(input),
        input is SendFailed || input is StreamFailed || (input is StreamEnded && t.total != 0
            && t.received.len() < t.total),
    ensures
        t.attempt < 5 ==> {
            let (u, a) = t.after(input);
            &&& a is Wait
            &&& a->Wait_attempt == t.attempt + 1
            &&& a->millis == (if t.attempt == 0 {
                500int
            } else if t.attempt == 1 {
                1000
            } else if t.attempt == 2 {
                2000
            } else if t.attempt == 3 {
                4000
            } else {
                8000
            })
            &&& u.phase is Waiting
            &&& u.attempt == t.attempt + 1
            &&& u.received == t.received
            &&& u.total == t.total
            &&& u.expected == t.expected
            &&& u.file_name == t.file_name
            &&& u.share_name == t.share_name
        },
        t.attempt >= 5 ==> t.after(input).1 is Fail && t.after(input).0.phase is Ended,
{
    vstd::arithmetic::power2::lemma2_to64();
}

/// A download fails, and what was received is deleted, only where the host
/// answers with a status that is none of 200, 206 and 416, or where the download
/// breaks off after it was taken up again five times. It is abandoned only
/// where the user gave it up or can no longer be asked.
pub proof fn law_failing_has_a_cause(t: DownloadView, input: DownloadInput)
    requires
        t.wf(),
        t.accepts(input),
    ensures
        t.after(input).1 is Fail <==> {
            ||| input is Responded && input->Responded_0.status != 200
                && input->Responded_0.status != 206 && input->Responded_0.status != 416
            ||| t.attempt >= 5 && (input is SendFailed || input is StreamFailed)
            ||| t.attempt >= 5 && input is StreamEnded && t.total != 0 && t.received.len()
                < t.total
        },
        t.after(input).1 is Abandon <==> {
            ||| input is ControlClosed
            ||| input is Control && input->Control_0 == DownloadControl::Cancelled
        },
{
}

/// The words with which a download fails name the cause: what the host
/// answered, or why the last of the five retries broke off.
pub proof fn law_failing_says_why(t: DownloadView, input: DownloadInput)
    requires
        t.accepts(input),
        t.after(input).1 is Fail,
    ensures
        ({
            let said = t.after(input).1->message;
            match input {
                DownloadInput::Responded(h) => said == "Server returned "@ + h.status_text@,
                DownloadInput::SendFailed(e) => said == "Download failed after 5 retries: "@ + e@,
                DownloadInput::StreamFailed(e) => said == "Download failed after 5 retries: "@ + e@,
                _ => said == "Download failed after 5 retries: Incomplete download"@,
            }
        }),
{
    reveal_strlit("Download failed after 5 retries: Incomplete download");
    reveal_strlit("Download failed after 5 retries: ");
    reveal_strlit("Download failed after ");
    reveal_strlit(" retries: ");
    reveal_strlit("Incomplete download");
    assert(decimal_text(5) =~= seq!['5']);
    assert("Download failed after "@ + seq!['5'] + " retries: "@
        =~= "Download failed after 5 retries: "@);
    assert("Download failed after 5 retries: "@ + "Incomplete download"@
        =~= "Download failed after 5 retries: Incomplete download"@);
}

/// When the last piece came and nothing is missing, the file is moved to its
/// place under the name that the host gave, or else the name of the share.
/// Nothing is said of its bytes where no checksum is known; else the file is
/// found right exactly where its SHA-256 checksum is the one announced, or where
/// that is the fingerprint of a folder.
pub proof fn law_complete_downloads_are_judged(t: DownloadView)
    requires
        t.phase is Receiving,
        t.total == 0 || t.received.len() >= t.total,
    ensures
        ({
            let (u, a) = t.after(DownloadInput::StreamEnded);
            &&& a is MoveToPlace
            &&& t.file_name is Some ==> a->name == t.file_name->0
            &&& t.file_name is None ==> a->name == t.share_name
            &&& u.phase is Moving
            &&& t.expected is None ==> u.phase->checksum_ok is None
            &&& t.expected is Some ==> u.phase->checksum_ok == Some(
                t.expected->0 == crate::checksum::hex_text(crate::checksum::sha256(t.received))
                    || (t.expected->0.len() >= 4 && t.expected->0.take(4) == seq![
                    'd',
                    'i',
                    'r',
                    ':',
                ]),
            )
            &&& u.after(DownloadInput::Moved).1 == (ActionView::Done {
                checksum_ok: u.phase->checksum_ok,
            })
        }),
{
    reveal_strlit("dir:");
    assert("dir:"@ =~= seq!['d', 'i', 'r', ':']);
    if t.expected is Some {
        let e = t.expected->0;
        assert("dir:"@.is_prefix_of(e) <==> (e.len() >= 4 && e.take(4) == "dir:"@));
    }
}

/// The answer of the host decides how a download goes on: 200 sends the file
/// from its start, so what was kept is dropped; 206 sends the rest, so it is
/// kept; 416 says that nothing is missing, so the file is moved to its place.
/// Neither what was received nor the count of retries changes.
pub proof fn law_answers_are_followed(t: DownloadView, h: ResponseHead)
    ensures
        ({
            let (u, a) = t.after(DownloadInput::Responded(h));
            &&& h.status == 200 ==> a == (ActionView::OpenPartial { discard: true })
                && u.phase is Opening
            &&& h.status == 206 ==> a == (ActionView::OpenPartial { discard: false })
                && u.phase is Opening
            &&& h.status == 416 ==> a is MoveToPlace && u.phase is Moving
                && u.phase->checksum_ok is None
            &&& h.status == 416 && t.file_name is Some ==> a->name == t.file_name->0
            &&& h.status == 416 && t.file_name is None ==> a->name == t.share_name
            &&& u.received == t.received
            &&& u.attempt == t.attempt
            &&& u.share_name == t.share_name
        }),
{
}

/// What the first answer with 200 or 206 says of the file is remembered, and
/// what a later one says does not change it: the checksum in lower case, the
/// size, and the name, which is that of the share where none is given. With 200
/// the size is the length of the answer.
pub proof fn law_first_answer_stands(t: DownloadView, h: ResponseHead)
    requires
        h.status == 200 || h.status == 206,
    ensures
        ({
            let u = t.after(DownloadInput::Responded(h)).0;
            &&& t.expected is Some ==> u.expected == t.expected
            &&& t.expected is None && h.checksum is Some ==> u.expected == Some(
                lowercase(h.checksum->0@),
            )
            &&& t.expected is None && h.checksum is None ==> u.expected is None
            &&& t.total != 0 ==> u.total == t.total
            &&& t.total == 0 && h.status == 200 && h.content_length is Some ==> u.total
                == h.content_length->0
            &&& t.total == 0 && h.status == 200 && h.content_length is None ==> u.total == 0
            &&& t.total == 0 && h.status == 206 && h.content_range is None ==> u.total == 0
            &&& t.file_name is Some ==> u.file_name == t.file_name
            &&& t.file_name is None && h.disposition is None ==> u.file_name == Some(t.share_name)
        }),
{
}

/// Every piece that arrives is put behind what was received, and its size is
/// measured against the last report. How far the download is is reported at
/// most every half second.
pub proof fn law_every_piece_counts(t: DownloadView, data: Vec<u8>, now: u64)
    requires
        t.wf(),
        t.accepts(DownloadInput::Chunk(data, now)),
    ensures
        ({
            let (u, a) = t.after(DownloadInput::Chunk(data, now));
            &&& u.received == t.received + data@
            &&& u.phase is Checking
            &&& u.total == t.total && u.expected == t.expected && u.attempt == t.attempt
                && u.file_name == t.file_name
            &&& a is Sample
            &&& a->downloaded == t.received.len() + data@.len()
            &&& a->total == t.total
            &&& a->bytes == t.received.len() + data@.len() - t.last_bytes
            &&& now >= t.last_time ==> a->nanos == now - t.last_time
            &&& a->report <==> now - t.last_report >= 500_000_000
            &&& a->report ==> u.last_bytes == u.received.len() && u.last_time == now
                && u.last_report == now
            &&& !a->report ==> u.last_bytes == t.last_bytes && u.last_time == t.last_time
                && u.last_report == t.last_report
        }),
{
}

/// Taking a download up again begins as the first time did: it asks how much
/// was kept, asks the host for what is missing, and goes on behind what was
/// kept. The number of retries and what is known of the file stay.
pub proof fn law_taking_up_again_begins_anew(t: DownloadView, kept: u64)
    requires
        t.phase is Waiting,
    ensures
        ({
            let (u, a) = t.after(DownloadInput::Waited);
            let (v, b) = u.after(DownloadInput::PartialSize(kept));
            &&& a is MeasurePartial
            &&& u == (DownloadView { phase: Phase::Measuring, ..t })
            &&& v == (DownloadView { phase: Phase::Requesting, ..t })
            &&& kept == 0 ==> b == (ActionView::SendRequest { range: None })
            &&& kept > 0 ==> b == (ActionView::SendRequest {
                range: Some("bytes="@ + decimal_text(kept as nat) + "-"@),
            })
        }),
{
}

/// Opening what was kept makes exactly it the beginning of the file, and while
/// the user lets the download run, it asks for the next piece.
pub proof fn law_receiving_goes_on(t: DownloadView, kept: Vec<u8>, now: u64)
    ensures
        t.after(DownloadInput::Opened(kept, now)).1 is Receive,
        t.after(DownloadInput::Opened(kept, now)).0.received == kept@,
        t.after(DownloadInput::Opened(kept, now)).0.phase is Receiving,
        t.after(DownloadInput::Control(DownloadControl::Running, now)).1 is Receive,
        t.after(DownloadInput::Control(DownloadControl::Running, now)).0.received == t.received,
        t.after(DownloadInput::Control(DownloadControl::Running, now)).0.phase is Receiving,
        t.after(DownloadInput::Control(DownloadControl::Paused, now)).1 is AwaitControl,
        t.after(DownloadInput::Control(DownloadControl::Paused, now)).0.received == t.received,
{
}

/// A file that is not what its host announced is found wrong, and where nothing
/// was announced nothing is said.
pub proof fn law_damaged_files_are_found(expected: Seq<char>, received: Seq<u8>)
    requires
        !"dir:"@.is_prefix_of(expected),
        expected != crate::checksum::hex_text(crate::checksum::sha256(received)),
    ensures
        verdict(Some(expected), received) == Some(false),
        verdict(None, received) is None,
{
}

/// A download that waits for something takes every answer to it: whatever a
/// host, the disk or the user can reply is understood.
pub proof fn law_every_reply_is_taken(
    t: DownloadView,
    n: u64,
    reason: String,
    head: ResponseHead,
    data: Vec<u8>,
    control: DownloadControl,
)
    ensures
        t.phase is Measuring ==> t.accepts(DownloadInput::PartialSize(n)),
        t.phase is Requesting ==> t.accepts(DownloadInput::SendFailed(reason)) && t.accepts(
            DownloadInput::Responded(head),
        ),
        t.phase is Opening ==> t.accepts(DownloadInput::Opened(data, n)),
        t.phase is Receiving ==> t.accepts(DownloadInput::StreamFailed(reason)) && t.accepts(
            DownloadInput::StreamEnded,
        ),
        t.phase is Receiving && t.received.len() + data@.len() <= u64::MAX ==> t.accepts(
            DownloadInput::Chunk(data, n),
        ),
        t.phase is Checking || t.phase is Holding ==> t.accepts(DownloadInput::Control(control, n)),
        t.phase is Holding ==> t.accepts(DownloadInput::ControlClosed),
        t.phase is Waiting ==> t.accepts(DownloadInput::Waited),
        t.phase is Moving ==> t.accepts(DownloadInput::Moved),
{
}

/// A host that sends the rest of a file says behind the last slash of its
/// `Content-Range` how large the whole is, and a download that did not know
/// takes that for the size, whatever stands before the slash.
pub proof fn law_range_tells_the_size(t: DownloadView, h: ResponseHead, front: Seq<char>, total: u64)
    requires
        t.total == 0,
        h.status == 206,
        opt_view(h.content_range) == Some(front + "/"@ + decimal_text(total as nat)),
    ensures
        t.after(DownloadInput::Responded(h)).0.total == total,
{
    let d = decimal_text(total as nat);
    reveal_strlit("/");
    assert("/"@ =~= seq!['/']);
    crate::text::law_decimal_is_digits(total as nat);
    assert forall|i: int| 0 <= i < d.len() implies d[i] != '/' by {
        assert(crate::text::is_digit(d[i]));
    }
    crate::text::lemma_after_last_joined(front, '/', d);
    crate::text::law_decimal_round_trip(total as nat, u64::MAX as int);
}

/// A download begins with nothing received and all five retries before it; of
/// what was kept from an earlier time it asks for the rest only, and without any
/// it asks for the whole file.
pub proof fn law_downloads_begin_afresh(share_name: Seq<char>, kept: u64)
    ensures
        ({
            let t = fresh_download(share_name);
            &&& t.wf()
            &&& t.share_name == share_name
            &&& t.attempt == 0
            &&& t.received.len() == 0
            &&& t.total == 0 && t.expected is None && t.file_name is None
            &&& t.accepts(DownloadInput::PartialSize(kept))
            &&& kept == 0 ==> t.after(DownloadInput::PartialSize(kept)).1
                == (ActionView::SendRequest { range: None })
            &&& kept > 0 ==> t.after(DownloadInput::PartialSize(kept)).1
                == (ActionView::SendRequest {
                range: Some("bytes="@ + decimal_text(kept as nat) + "-"@),
            })
        }),
{
}

}
