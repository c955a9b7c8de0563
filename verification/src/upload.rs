//! Files that browsers send: their names, and the steps in which they are
//! taken in.

use crate::server::{ServerEvent, ServerEventView};
use crate::shares::{is_id_char, random_id, size_text, SharedItem, ID_LENGTH};
use crate::text::{after_last, from_chars, number_in, opt_view, parse_decimal, to_chars, views};
use std::path::Path;
use vstd::prelude::*;

verus! {

// ---------------------------------------------------------------------------
// File names
// ---------------------------------------------------------------------------

/// Whether a character may not stand in the name of a file.
pub open spec fn is_forbidden(c: char) -> bool {
    c == '/' || c == '\\' || c == ':' || c == '*' || c == '?' || c == '"' || c == '<' || c == '>'
        || c == '|' || c == '\0'
}

/// A name with an underscore in the place of each forbidden character.
pub open spec fn cleaned(name: Seq<char>) -> Seq<char> {
    name.map_values(
        |c: char|
            if is_forbidden(c) {
                '_'
            } else {
                c
            },
    )
}

/// Whether a text is the name of a file on every system: without anything that
/// separates folders, and neither this folder nor the one above it.
pub open spec fn plain_name(name: Seq<char>) -> bool {
    &&& name.len() > 0
    &&& name != "."@
    &&& name != ".."@
    &&& forall|i: int|
        0 <= i < name.len() ==> (#[trigger] name[i]) != '/' && name[i] != '\\' && name[i] != ':'
}

/// Whether a text is a path that every system reads alike, as folders with
/// slashes between them: it has no character by which one system alone
/// separates folders or names a drive, and does not begin with two slashes.
pub open spec fn portable_path(path: Seq<char>) -> bool {
    &&& !path.contains('\\')
    &&& !path.contains(':')
    &&& !(path.len() > 1 && path[0] == '/' && path[1] == '/')
}

/// The last part of a path with slashes between its parts. Slashes at the end,
/// and parts that are this folder, say nothing; what ends in the folder above
/// names nothing.
pub open spec fn final_part(path: Seq<char>) -> Option<Seq<char>>
    decreases path.len(),
{
    let part = after_last(path, '/');
    if path.len() == 0 || part == ".."@ {
        None
    } else if part.len() == 0 || part == "."@ {
        final_part(path.drop_last())
    } else {
        Some(part)
    }
}

/// `Path::file_name`: the last part of a path, which is part of its text. It is
/// the name of something: neither empty, nor this folder, nor the one above. Of
/// a path that every system reads alike, it is the last part between slashes.
/// What else separates the parts of a path is the system's own, so no more is
/// said of other paths.
#[verifier::external_body]
fn last_part(path: &str) -> (r: Option<String>)
    ensures
        portable_path(path@) ==> opt_view(r) == final_part(path@),
        r is Some ==> r->0@.len() > 0 && r->0@ != "."@ && r->0@ != ".."@,
        r is Some ==> exists|i: int|
            0 <= i && i + r->0@.len() <= path@.len() && r->0@ == #[trigger] path@.subrange(
                i,
                i + r->0@.len(),
            ),
{
    Path::new(path).file_name().map(|n| n.to_string_lossy().to_string())
}

/// The name under which a file is stored whose path ends in `base`.
pub open spec fn stored_name(base: Option<Seq<char>>) -> Seq<char> {
    match base {
        Some(b) => cleaned(b),
        None => cleaned("upload"@),
    }
}

/// The name under which a file is stored whose path ends in `base`.
pub fn clean_name(base: Option<String>) -> (r: String)
    ensures
        r@ == stored_name(opt_view(base)),
        forall|i: int| 0 <= i < r@.len() ==> !is_forbidden(#[trigger] r@[i]),
{
    let name = match base {
        Some(b) => b,
        None => "upload".to_owned(),
    };
    let chars = to_chars(name.as_str());
    let mut out: Vec<char> = Vec::new();
    let mut i: usize = 0;
    while i < chars.len()
        invariant
            i <= chars@.len(),
            chars@ == name@,
            out@ =~= cleaned(name@).take(i as int),
        decreases chars@.len() - i,
    {
        let c = chars[i];
        if c == '/' || c == '\\' || c == ':' || c == '*' || c == '?' || c == '"' || c == '<' || c
            == '>' || c == '|' || c == '\0' {
            out.push('_');
        } else {
            out.push(c);
        }
        i += 1;
    }
    assert(cleaned(name@).take(i as int) =~= cleaned(name@));
    from_chars(&out)
}

/// Whether a text names nothing in particular: it is empty, this folder, the
/// root, or the folder above.
pub open spec fn names_nothing(name: Seq<char>) -> bool {
    name == ""@ || name == "."@ || name == "/"@ || name == ".."@
}

/// Whether a file can be stored under a name directly in a folder: it is the
/// name of a file, and cleaning changes nothing of it.
pub open spec fn storable(name: Seq<char>) -> bool {
    plain_name(name) && cleaned(name) == name
}

/// What stands for a name that is not one of the two folders, without forbidden
/// characters, can be stored.
proof fn lemma_cleaned_is_storable(base: Seq<char>)
    requires
        base.len() > 0,
        base != "."@,
        base != ".."@,
    ensures
        storable(cleaned(base)),
{
    law_cleaning_is_idempotent(base);
    reveal_strlit(".");
    reveal_strlit("..");
    let c = cleaned(base);
    if c == "."@ {
        assert(c[0] == '.');
        assert(base =~= "."@);
    }
    if c == ".."@ {
        assert(c[0] == '.' && c[1] == '.');
        assert(base =~= ".."@);
    }
}

/// A text without slashes is all behind the last of them.
proof fn lemma_after_no_slash(s: Seq<char>)
    requires
        !s.contains('/'),
    ensures
        after_last(s, '/') == s,
    decreases s.len(),
{
    if s.len() > 0 {
        let front = s.drop_last();
        assert(s[s.len() - 1] == s.last());
        assert forall|i: int| 0 <= i < front.len() implies front[i] != '/' by {
            assert(s[i] == front[i]);
        }
        lemma_after_no_slash(front);
        assert(front.push(s.last()) =~= s);
    } else {
        assert(after_last(s, '/') =~= s);
    }
}

/// A text that is the name of a file is its own last part.
proof fn lemma_plain_name_is_final(name: Seq<char>)
    requires
        plain_name(name),
    ensures
        portable_path(name),
        final_part(name) == Some(name),
{
    lemma_after_no_slash(name);
}

/// What names nothing has no last part.
proof fn lemma_nothing_is_final(name: Seq<char>)
    requires
        names_nothing(name),
    ensures
        portable_path(name),
        final_part(name) is None,
{
    reveal_strlit("");
    reveal_strlit(".");
    reveal_strlit("/");
    reveal_strlit("..");
    reveal_with_fuel(final_part, 2);
    if name != "/"@ {
        lemma_after_no_slash(name);
    }
}

/// The name under which a file is stored that a browser calls `name`: without
/// the folders before it, and without forbidden characters. A file whose name
/// says nothing is stored as `upload`.
pub fn sanitize_filename(name: &str) -> (r: String)
    ensures
        plain_name(name@) ==> r@ == cleaned(name@),
        portable_path(name@) ==> r@ == stored_name(final_part(name@)),
        names_nothing(name@) ==> r@ == "upload"@,
        r@ == "upload"@ || exists|i: int|
            0 <= i && i + r@.len() <= name@.len() && r@ == cleaned(
                #[trigger] name@.subrange(i, i + r@.len()),
            ),
        r@.len() > 0,
        r@ != "."@,
        r@ != ".."@,
        forall|i: int| 0 <= i < r@.len() ==> !is_forbidden(#[trigger] r@[i]),
        storable(r@),
{
    let base = last_part(name);
    proof {
        reveal_strlit("upload");
        reveal_strlit(".");
        reveal_strlit("..");
        assert(cleaned("upload"@) =~= "upload"@);
        if plain_name(name@) {
            lemma_plain_name_is_final(name@);
        }
        if names_nothing(name@) {
            lemma_nothing_is_final(name@);
        }
        match opt_view(base) {
            Some(b) => lemma_cleaned_is_storable(b),
            None => lemma_cleaned_is_storable("upload"@),
        }
    }
    clean_name(base)
}

/// The name under which the file of a form's field is stored. Fields without a
/// file are passed over.
pub fn accept_field(file_name: Option<&str>) -> (r: Option<String>)
    ensures
        r is Some <==> file_name is Some && file_name->0@.len() > 0,
        r is Some && plain_name(file_name->0@) ==> r->0@ == cleaned(file_name->0@),
        r is Some && portable_path(file_name->0@) ==> r->0@ == stored_name(
            final_part(file_name->0@),
        ),
        r is Some && names_nothing(file_name->0@) ==> r->0@ == "upload"@,
        r is Some ==> r->0@ == "upload"@ || exists|i: int|
            0 <= i && i + r->0@.len() <= file_name->0@.len() && r->0@ == cleaned(
                #[trigger] file_name->0@.subrange(i, i + r->0@.len()),
            ),
        r is Some ==> r->0@.len() > 0 && r->0@ != "."@ && r->0@ != ".."@ && storable(r->0@),
        r is Some ==> forall|i: int| 0 <= i < r->0@.len() ==> !is_forbidden(#[trigger] r->0@[i]),
{
    match file_name {
        None => None,
        Some(n) => {
            if to_chars(n).len() > 0 {
                Some(sanitize_filename(n))
            } else {
                None
            }
        },
    }
}

/// The name of the file that keeps what was received of an upload so far.
pub fn upload_temp_name(filename: &str) -> (r: String)
    ensures
        r@ == ".upload_tmp_"@ + filename@,
{
    let mut out = ".upload_tmp_".to_owned();
    out.append(filename);
    out
}

/// The size that a `Content-Length` header gives, or 0.
pub open spec fn announced_size(header: Option<Seq<char>>) -> u64 {
    match header {
        None => 0,
        Some(h) => match number_in(h, u64::MAX as int) {
            Some(n) => n as u64,
            None => 0,
        },
    }
}

/// The size that a `Content-Length` header gives, or 0.
pub fn content_length(header: &Option<String>) -> (r: u64)
    ensures
        r == announced_size(opt_view(*header)),
{
    match header {
        None => 0,
        Some(h) => match parse_decimal(h.as_str(), u64::MAX) {
            Some(n) => n,
            None => 0,
        },
    }
}

// ---------------------------------------------------------------------------
// The steps of an upload
// ---------------------------------------------------------------------------

/// The answer to an upload.
#[derive(Debug)]
pub struct UploadResponse {
    pub ok: bool,
    pub name: String,
    pub id: String,
    pub size_human: String,
    pub error: Option<String>,
}

/// An answer in mathematical terms.
pub struct UploadResponseView {
    pub ok: bool,
    pub name: Seq<char>,
    pub id: Seq<char>,
    pub size_human: Seq<char>,
    pub error: Option<Seq<char>>,
}

impl View for UploadResponse {
    type V = UploadResponseView;

    open spec fn view(&self) -> UploadResponseView {
        UploadResponseView {
            ok: self.ok,
            name: self.name@,
            id: self.id@,
            size_human: self.size_human@,
            error: opt_view(self.error),
        }
    }
}

/// The answer to an upload that failed.
pub open spec fn failure(name: Seq<char>, error: Seq<char>) -> UploadResponseView {
    UploadResponseView { ok: false, name, id: ""@, size_human: ""@, error: Some(error) }
}

/// The answer to a form without a file.
pub fn no_file_response() -> (r: UploadResponse)
    ensures
        r@ == failure(""@, "No file field found in request"@),
{
    failed("".to_owned(), "No file field found in request".to_owned())
}

fn failed(name: String, error: String) -> (r: UploadResponse)
    ensures
        r@ == failure(name@, error@),
{
    UploadResponse {
        ok: false,
        name,
        id: "".to_owned(),
        size_human: "".to_owned(),
        error: Some(error),
    }
}

/// The bytes between two reports of how much of a file was received.
pub const RECEIVE_REPORT_BYTES: u64 = 262_144;

/// What an upload waits for.
#[derive(Debug, Clone, Copy, PartialEq, Eq, Structural)]
pub enum UploadPhase {
    /// That the folder for the file is there.
    Preparing,
    /// That the file for what is received is there.
    Creating,
    /// The next piece.
    Receiving,
    /// That the file is moved to its place.
    Moving,
    /// That the file is shared.
    Registering,
    /// Nothing more.
    Ended,
}

/// What an upload is told.
#[derive(Debug)]
pub enum UploadInput {
    DirReady,
    DirFailed(String),
    Created,
    CreateFailed(String),
    /// A piece of this many bytes was received and written.
    Chunk(u64),
    WriteFailed(String),
    ReadFailed(String),
    StreamEnded,
    Moved,
    MoveFailed(String),
    Registered(SharedItem),
    RegisterFailed(String),
}

/// What an upload asks for next.
#[derive(Debug)]
pub enum UploadAction {
    /// Create the file for what is received.
    CreateTemp,
    /// Report the event, if there is one, and receive and write the next piece.
    Receive { event: Option<ServerEvent> },
    /// Move the file to its place.
    MoveTemp,
    /// Share the file.
    Register,
    /// Delete what was received or not, report the events, and answer.
    Reply { delete_temp: bool, events: Vec<ServerEvent>, response: UploadResponse },
}

/// A request for the next step in mathematical terms.
#[verifier::ext_equal]
pub enum UploadActionView {
    CreateTemp,
    Receive { event: Option<ServerEventView> },
    MoveTemp,
    Register,
    Reply { delete_temp: bool, events: Seq<ServerEventView>, response: UploadResponseView },
}

impl View for UploadAction {
    type V = UploadActionView;

    open spec fn view(&self) -> UploadActionView {
        match *self {
            UploadAction::CreateTemp => UploadActionView::CreateTemp,
            UploadAction::Receive { event } => UploadActionView::Receive { event: opt_view(event) },
            UploadAction::MoveTemp => UploadActionView::MoveTemp,
            UploadAction::Register => UploadActionView::Register,
            UploadAction::Reply { delete_temp, events, response } => UploadActionView::Reply {
                delete_temp,
                events: views(events@),
                response: response@,
            },
        }
    }
}

/// An upload under way.
#[derive(Debug)]
pub struct UploadTask {
    pub transfer_id: String,
    pub filename: String,
    pub by_addr: String,
    pub total: u64,
    pub received: u64,
    pub last_report: u64,
    pub phase: UploadPhase,
}

/// An upload in mathematical terms.
#[verifier::ext_equal]
pub struct UploadView {
    pub transfer_id: Seq<char>,
    pub filename: Seq<char>,
    pub by_addr: Seq<char>,
    pub total: u64,
    pub received: u64,
    pub last_report: u64,
    pub phase: UploadPhase,
}

impl View for UploadTask {
    type V = UploadView;

    open spec fn view(&self) -> UploadView {
        UploadView {
            transfer_id: self.transfer_id@,
            filename: self.filename@,
            by_addr: self.by_addr@,
            total: self.total,
            received: self.received,
            last_report: self.last_report,
            phase: self.phase,
        }
    }
}

impl UploadView {
    /// Whether no more bytes were reported than were received.
    pub open spec fn wf(self) -> bool {
        self.last_report <= self.received
    }

    /// Whether the upload can be told `input` now.
    pub open spec fn accepts(self, input: UploadInput) -> bool {
        match (self.phase, input) {
            (UploadPhase::Preparing, UploadInput::DirReady) => true,
            (UploadPhase::Preparing, UploadInput::DirFailed(_)) => true,
            (UploadPhase::Creating, UploadInput::Created) => true,
            (UploadPhase::Creating, UploadInput::CreateFailed(_)) => true,
            (UploadPhase::Receiving, UploadInput::Chunk(n)) => self.received + n <= u64::MAX,
            (UploadPhase::Receiving, UploadInput::WriteFailed(_)) => true,
            (UploadPhase::Receiving, UploadInput::ReadFailed(_)) => true,
            (UploadPhase::Receiving, UploadInput::StreamEnded) => true,
            (UploadPhase::Moving, UploadInput::Moved) => true,
            (UploadPhase::Moving, UploadInput::MoveFailed(_)) => true,
            (UploadPhase::Registering, UploadInput::Registered(_)) => true,
            (UploadPhase::Registering, UploadInput::RegisterFailed(_)) => true,
            _ => false,
        }
    }

    /// After the upload failed for this reason.
    pub open spec fn failing(self, delete_temp: bool, error: Seq<char>) -> (
        UploadView,
        UploadActionView,
    ) {
        (
            UploadView { phase: UploadPhase::Ended, ..self },
            UploadActionView::Reply {
                delete_temp,
                events: seq![ServerEventView::WebUploadFailed { transfer_id: self.transfer_id }],
                response: failure(self.filename, error),
            },
        )
    }

    /// After a piece of `n` bytes. How much was received is reported when
    /// enough came since the last time.
    pub open spec fn grown(self, n: u64) -> (UploadView, UploadActionView) {
        let received = (self.received + n) as u64;
        if received - self.last_report >= RECEIVE_REPORT_BYTES {
            (
                UploadView { received, last_report: received, ..self },
                UploadActionView::Receive {
                    event: Some(
                        ServerEventView::WebUploadProgress {
                            transfer_id: self.transfer_id,
                            bytes_received: received,
                            total: self.total,
                        },
                    ),
                },
            )
        } else {
            (UploadView { received, ..self }, UploadActionView::Receive { event: None })
        }
    }

    /// After the file was shared.
    pub open spec fn finished(self, item: SharedItem) -> (UploadView, UploadActionView) {
        (
            UploadView { phase: UploadPhase::Ended, ..self },
            UploadActionView::Reply {
                delete_temp: false,
                events: seq![
                    ServerEventView::WebUploadFinished { transfer_id: self.transfer_id },
                    ServerEventView::Uploaded { item_name: item@.name, by_addr: self.by_addr },
                ],
                response: UploadResponseView {
                    ok: true,
                    name: item@.name,
                    id: item@.id,
                    size_human: size_text(item@.size as nat),
                    error: None,
                },
            },
        )
    }

    /// The upload after it was told `input`, and what it asks for next.
    pub open spec fn after(self, input: UploadInput) -> (UploadView, UploadActionView) {
        match input {
            UploadInput::DirReady => (
                UploadView { phase: UploadPhase::Creating, ..self },
                UploadActionView::CreateTemp,
            ),
            UploadInput::DirFailed(e) => self.failing(false, "Failed to create upload dir: "@ + e@),
            UploadInput::Created => (
                UploadView { phase: UploadPhase::Receiving, ..self },
                UploadActionView::Receive { event: None },
            ),
            UploadInput::CreateFailed(e) => self.failing(
                false,
                "Failed to create temp file: "@ + e@,
            ),
            UploadInput::Chunk(n) => self.grown(n),
            UploadInput::WriteFailed(e) => self.failing(true, "Write error: "@ + e@),
            UploadInput::ReadFailed(e) => self.failing(true, "Read error: "@ + e@),
            UploadInput::StreamEnded => (
                UploadView { phase: UploadPhase::Moving, ..self },
                UploadActionView::MoveTemp,
            ),
            UploadInput::Moved => (
                UploadView { phase: UploadPhase::Registering, ..self },
                UploadActionView::Register,
            ),
            UploadInput::MoveFailed(e) => self.failing(true, "Failed to move file: "@ + e@),
            UploadInput::Registered(item) => self.finished(item),
            UploadInput::RegisterFailed(e) => self.failing(false, e@),
        }
    }
}

/// An upload of which nothing was received yet.
pub open spec fn fresh_upload(
    transfer_id: Seq<char>,
    filename: Seq<char>,
    by_addr: Seq<char>,
    total: u64,
) -> UploadView {
    UploadView {
        transfer_id,
        filename,
        by_addr,
        total,
        received: 0,
        last_report: 0,
        phase: UploadPhase::Preparing,
    }
}

impl UploadTask {
    /// An upload with a given id, and the event that reports it. It begins by
    /// asking that the folder for the file be there.
    pub fn start_as(transfer_id: String, filename: String, by_addr: String, total: u64) -> (r: (
        UploadTask,
        ServerEvent,
    ))
        ensures
            r.0@ == (UploadView {
                transfer_id: transfer_id@,
                filename: filename@,
                by_addr: by_addr@,
                total,
                received: 0,
                last_report: 0,
                phase: UploadPhase::Preparing,
            }),
            r.0@ == fresh_upload(transfer_id@, filename@, by_addr@, total),
            r.0@.wf(),
            r.1@ == (ServerEventView::WebUploadStarted {
                transfer_id: transfer_id@,
                filename: filename@,
                total,
                by_addr: by_addr@,
            }),
    {
        let event = ServerEvent::WebUploadStarted {
            transfer_id: transfer_id.clone(),
            filename: filename.clone(),
            total,
            by_addr: by_addr.clone(),
        };
        (
            UploadTask {
                transfer_id,
                filename,
                by_addr,
                total,
                received: 0,
                last_report: 0,
                phase: UploadPhase::Preparing,
            },
            event,
        )
    }

    /// An upload with a random id, and the event that reports it.
    pub fn start(filename: String, by_addr: String, total: u64) -> (r: (UploadTask, ServerEvent))
        ensures
            r.0@ == (UploadView {
                transfer_id: r.0@.transfer_id,
                filename: filename@,
                by_addr: by_addr@,
                total,
                received: 0,
                last_report: 0,
                phase: UploadPhase::Preparing,
            }),
            r.0@ == fresh_upload(r.0@.transfer_id, filename@, by_addr@, total),
            r.0@.wf(),
            r.0@.transfer_id.len() == ID_LENGTH,
            forall|i: int| 0 <= i < ID_LENGTH ==> is_id_char(#[trigger] r.0@.transfer_id[i]),
            r.1@ == (ServerEventView::WebUploadStarted {
                transfer_id: r.0@.transfer_id,
                filename: filename@,
                total,
                by_addr: by_addr@,
            }),
    {
        UploadTask::start_as(random_id(ID_LENGTH), filename, by_addr, total)
    }

    fn fail(&mut self, delete_temp: bool, prefix: &str, reason: &str) -> (r: UploadAction)
        requires
            old(self)@.wf(),
        ensures
            final(self)@.wf(),
            (final(self)@, r@) == old(self)@.failing(delete_temp, prefix@ + reason@),
    {
        self.phase = UploadPhase::Ended;
        let mut error = prefix.to_owned();
        error.append(reason);
        let mut events: Vec<ServerEvent> = Vec::new();
        events.push(ServerEvent::WebUploadFailed { transfer_id: self.transfer_id.clone() });
        let response = failed(self.filename.clone(), error);
        assert(views(events@) =~= seq![
            ServerEventView::WebUploadFailed { transfer_id: self.transfer_id@ },
        ]);
        UploadAction::Reply { delete_temp, events, response }
    }

    fn grow(&mut self, n: u64) -> (r: UploadAction)
        requires
            old(self)@.wf(),
            old(self)@.received + n <= u64::MAX,
        ensures
            final(self)@.wf(),
            (final(self)@, r@) == old(self)@.grown(n),
    {
        self.received = self.received + n;
        if self.received - self.last_report >= RECEIVE_REPORT_BYTES {
            self.last_report = self.received;
            UploadAction::Receive {
                event: Some(
                    ServerEvent::WebUploadProgress {
                        transfer_id: self.transfer_id.clone(),
                        bytes_received: self.received,
                        total: self.total,
                    },
                ),
            }
        } else {
            UploadAction::Receive { event: None }
        }
    }

    fn finish(&mut self, item: &SharedItem) -> (r: UploadAction)
        requires
            old(self)@.wf(),
        ensures
            final(self)@.wf(),
            (final(self)@, r@) == old(self)@.finished(*item),
    {
        self.phase = UploadPhase::Ended;
        let mut events: Vec<ServerEvent> = Vec::new();
        events.push(ServerEvent::WebUploadFinished { transfer_id: self.transfer_id.clone() });
        events.push(
            ServerEvent::Uploaded { item_name: item.name.clone(), by_addr: self.by_addr.clone() },
        );
        assert(views(events@) =~= seq![
            ServerEventView::WebUploadFinished { transfer_id: self.transfer_id@ },
            ServerEventView::Uploaded { item_name: item@.name, by_addr: self.by_addr@ },
        ]);
        UploadAction::Reply {
            delete_temp: false,
            events,
            response: UploadResponse {
                ok: true,
                name: item.name.clone(),
                id: item.id.clone(),
                size_human: item.size_human(),
                error: None,
            },
        }
    }

    /// Tells the upload what it waits for, and what it asks for next.
    pub fn step(&mut self, input: UploadInput) -> (r: UploadAction)
        requires
            old(self)@.wf(),
            old(self)@.accepts(input),
        ensures
            final(self)@.wf(),
            (final(self)@, r@) == old(self)@.after(input),
    {
        match input {
            UploadInput::DirReady => {
                self.phase = UploadPhase::Creating;
                UploadAction::CreateTemp
            },
            UploadInput::DirFailed(e) => self.fail(
                false,
                "Failed to create upload dir: ",
                e.as_str(),
            ),
            UploadInput::Created => {
                self.phase = UploadPhase::Receiving;
                UploadAction::Receive { event: None }
            },
            UploadInput::CreateFailed(e) => self.fail(
                false,
                "Failed to create temp file: ",
                e.as_str(),
            ),
            UploadInput::Chunk(n) => self.grow(n),
            UploadInput::WriteFailed(e) => self.fail(true, "Write error: ", e.as_str()),
            UploadInput::ReadFailed(e) => self.fail(true, "Read error: ", e.as_str()),
            UploadInput::StreamEnded => {
                self.phase = UploadPhase::Moving;
                UploadAction::MoveTemp
            },
            UploadInput::Moved => {
                self.phase = UploadPhase::Registering;
                UploadAction::Register
            },
            UploadInput::MoveFailed(e) => self.fail(true, "Failed to move file: ", e.as_str()),
            UploadInput::Registered(item) => self.finish(&item),
            UploadInput::RegisterFailed(e) => {
                proof {
                    reveal_strlit("");
                    assert(""@ + e@ =~= e@);
                }
                self.fail(false, "", e.as_str())
            },
        }
    }
}

// ---------------------------------------------------------------------------
// Laws
// ---------------------------------------------------------------------------

/// Whether an upload ended well or badly, it is answered once, the answer says
/// how it ended, and the same is reported; after that it is told nothing more.
pub proof fn law_uploads_end_once(t: UploadView, input: UploadInput)
    requires
        t.wf(),
        t.accepts(input),
    ensures
        t.after(input).0.wf(),
        t.after(input).0.phase is Ended <==> t.after(input).1 is Reply,
        t.after(input).1 is Reply ==> {
            let a = t.after(input).1;
            &&& a->response.ok <==> input is Registered
            &&& a->response.ok <==> a->response.error is None
            &&& a->response.ok <==> a->events[0] == (ServerEventView::WebUploadFinished {
                transfer_id: t.transfer_id,
            })
            &&& !a->response.ok <==> a->events[0] == (ServerEventView::WebUploadFailed {
                transfer_id: t.transfer_id,
            })
            &&& forall|i: UploadInput| !t.after(input).0.accepts(i)
        },
{
}

/// An upload that fails while its file is received or moved leaves nothing of
/// it behind.
pub proof fn law_failed_uploads_are_deleted(t: UploadView, input: UploadInput)
    requires
        t.accepts(input),
        t.phase is Receiving || t.phase is Moving,
        t.after(input).1 is Reply,
    ensures
        t.after(input).1->delete_temp,
        !t.after(input).1->response.ok,
{
}

/// A name that a file can be stored under is the name under which it is stored.
pub proof fn law_stored_names_stay(name: Seq<char>)
    requires
        storable(name),
    ensures
        portable_path(name),
        stored_name(final_part(name)) == name,
        forall|i: int| 0 <= i < name.len() ==> !is_forbidden(#[trigger] name[i]),
{
    lemma_plain_name_is_final(name);
    law_cleaning_is_idempotent(name);
}

/// The name under which a file is stored is never changed by storing it under
/// that name again.
pub proof fn law_cleaning_is_idempotent(name: Seq<char>)
    ensures
        cleaned(cleaned(name)) == cleaned(name),
        cleaned(name).len() == name.len(),
        forall|i: int| 0 <= i < name.len() ==> !is_forbidden(#[trigger] cleaned(name)[i]),
{
    assert(cleaned(cleaned(name)) =~= cleaned(name));
}

/// Exactly ten characters are replaced in a name, each by an underscore; every
/// other stays where it is. Without a name the file is stored as `upload`.
pub proof fn law_only_ten_characters_are_replaced(base: Seq<char>)
    ensures
        stored_name(Some(base)).len() == base.len(),
        forall|i: int|
            0 <= i < base.len() ==> #[trigger] stored_name(Some(base))[i] == (if base[i] == '/'
                || base[i] == '\\' || base[i] == ':' || base[i] == '*' || base[i] == '?' || base[i]
                == '"' || base[i] == '<' || base[i] == '>' || base[i] == '|' || base[i] == '\0' {
                '_'
            } else {
                base[i]
            }),
        stored_name(None) == "upload"@,
{
    reveal_strlit("upload");
    assert(cleaned("upload"@) =~= "upload"@);
}

/// A name of letters, digits, dots, spaces, hyphens and underscores, that is not
/// one of the two folders, is stored unchanged; so is any other name with none
/// of the ten characters.
pub proof fn law_ordinary_names_are_kept(name: Seq<char>)
    requires
        name.len() > 0,
        name != "."@,
        name != ".."@,
        forall|i: int|
            0 <= i < name.len() ==> (#[trigger] name[i]) != '/' && name[i] != '\\' && name[i] != ':'
                && name[i] != '*' && name[i] != '?' && name[i] != '"' && name[i] != '<' && name[i]
                != '>' && name[i] != '|' && name[i] != '\0',
    ensures
        portable_path(name),
        final_part(name) == Some(name),
        stored_name(final_part(name)) == name,
        storable(name),
{
    lemma_plain_name_is_final(name);
    law_only_ten_characters_are_replaced(name);
    assert(cleaned(name) =~= name);
}

/// The folders before a name do not matter: what is stored goes by the part
/// behind the last slash, also where slashes follow.
pub proof fn law_folders_before_a_name_go(folders: Seq<char>, base: Seq<char>)
    requires
        base.len() > 0,
        base != "."@,
        base != ".."@,
        !base.contains('/'),
    ensures
        final_part(folders + seq!['/'] + base) == Some(base),
        final_part(folders + seq!['/'] + base + seq!['/']) == Some(base),
        final_part(folders + seq!['/'] + base + seq!['/', '.']) == Some(base),
        final_part(folders + seq!['/', '.', '.']) is None,
{
    let path = folders + seq!['/'] + base;
    crate::text::lemma_after_last_joined(folders, '/', base);
    reveal_with_fuel(final_part, 3);
    reveal_strlit(".");
    reveal_strlit("..");
    let with_slash = path + seq!['/'];
    assert(with_slash.drop_last() =~= path);
    assert(after_last(with_slash, '/').len() == 0);
    let with_dot = path + seq!['/', '.'];
    assert(with_dot.drop_last() =~= with_slash);
    assert(with_dot =~= path + seq!['/'] + seq!['.']);
    crate::text::lemma_after_last_joined(path, '/', seq!['.']);
    assert(seq!['.'] =~= "."@);
    let above = folders + seq!['/', '.', '.'];
    assert(above =~= folders + seq!['/'] + seq!['.', '.']);
    crate::text::lemma_after_last_joined(folders, '/', seq!['.', '.']);
    assert(seq!['.', '.'] =~= ".."@);
}

/// An upload that nothing goes wrong with runs through all of its steps: the
/// file for it is made, its pieces are received, it is moved to its place, it is
/// shared, and the answer tells the share.
pub proof fn law_uploads_run_through(t: UploadView, n: u64, item: SharedItem)
    ensures
        t.after(UploadInput::DirReady).1 is CreateTemp,
        t.after(UploadInput::DirReady).0 == (UploadView { phase: UploadPhase::Creating, ..t }),
        t.after(UploadInput::Created).1 == (UploadActionView::Receive { event: None }),
        t.after(UploadInput::Created).0 == (UploadView { phase: UploadPhase::Receiving, ..t }),
        t.after(UploadInput::StreamEnded).1 is MoveTemp,
        t.after(UploadInput::StreamEnded).0 == (UploadView { phase: UploadPhase::Moving, ..t }),
        t.after(UploadInput::Moved).1 is Register,
        t.after(UploadInput::Moved).0 == (UploadView { phase: UploadPhase::Registering, ..t }),
        ({
            let a = t.after(UploadInput::Registered(item)).1;
            &&& a is Reply
            &&& !a->delete_temp
            &&& a->response.ok
            &&& a->response.name == item.name@
            &&& a->response.id == item.id@
            &&& a->response.size_human == size_text(item.size as nat)
            &&& a->response.error is None
            &&& a->events == seq![
                ServerEventView::WebUploadFinished { transfer_id: t.transfer_id },
                ServerEventView::Uploaded { item_name: item.name@, by_addr: t.by_addr },
            ]
        }),
{
}

/// Every piece that a browser sends is counted, and how much came is reported
/// each time that 262144 bytes more have come.
pub proof fn law_every_received_piece_counts(t: UploadView, n: u64)
    requires
        t.wf(),
        t.accepts(UploadInput::Chunk(n)),
    ensures
        ({
            let (u, a) = t.after(UploadInput::Chunk(n));
            &&& u.received == t.received + n
            &&& u.phase == t.phase
            &&& u.filename == t.filename && u.total == t.total && u.transfer_id == t.transfer_id
                && u.by_addr == t.by_addr
            &&& t.received + n < t.last_report + 262144 ==> a == (UploadActionView::Receive {
                event: None,
            }) && u.last_report == t.last_report
            &&& t.received + n >= t.last_report + 262144 ==> a == (UploadActionView::Receive {
                event: Some(
                    ServerEventView::WebUploadProgress {
                        transfer_id: t.transfer_id,
                        bytes_received: (t.received + n) as u64,
                        total: t.total,
                    },
                ),
            }) && u.last_report == t.received + n
        }),
{
}

/// An upload that fails is answered with the name of the file and the reason,
/// and reported as failed. Only what was begun to be received is deleted: there
/// is nothing before, and a file that is in its place stays.
pub proof fn law_failed_uploads_are_told(t: UploadView, reason: String)
    ensures
        ({
            let told = |input: UploadInput, words: Seq<char>, delete: bool|
                {
                    let (u, a) = t.after(input);
                    &&& u.phase is Ended
                    &&& a is Reply
                    &&& a->delete_temp == delete
                    &&& !a->response.ok
                    &&& a->response.name == t.filename
                    &&& a->response.id.len() == 0
                    &&& a->response.error == Some(words)
                    &&& a->events == seq![
                        ServerEventView::WebUploadFailed { transfer_id: t.transfer_id },
                    ]
                };
            let r = reason@;
            &&& told(UploadInput::DirFailed(reason), "Failed to create upload dir: "@ + r, false)
            &&& told(UploadInput::CreateFailed(reason), "Failed to create temp file: "@ + r, false)
            &&& told(UploadInput::WriteFailed(reason), "Write error: "@ + r, true)
            &&& told(UploadInput::ReadFailed(reason), "Read error: "@ + r, true)
            &&& told(UploadInput::MoveFailed(reason), "Failed to move file: "@ + r, true)
            &&& told(UploadInput::RegisterFailed(reason), r, false)
        }),
{
    reveal_strlit("");
}

/// An upload that waits for something takes every answer to it.
pub proof fn law_every_upload_reply_is_taken(
    t: UploadView,
    n: u64,
    reason: String,
    item: SharedItem,
)
    ensures
        t.phase is Preparing ==> t.accepts(UploadInput::DirReady) && t.accepts(
            UploadInput::DirFailed(reason),
        ),
        t.phase is Creating ==> t.accepts(UploadInput::Created) && t.accepts(
            UploadInput::CreateFailed(reason),
        ),
        t.phase is Receiving ==> t.accepts(UploadInput::WriteFailed(reason)) && t.accepts(
            UploadInput::ReadFailed(reason),
        ) && t.accepts(UploadInput::StreamEnded),
        t.phase is Receiving && t.received + n <= u64::MAX ==> t.accepts(UploadInput::Chunk(n)),
        t.phase is Moving ==> t.accepts(UploadInput::Moved) && t.accepts(
            UploadInput::MoveFailed(reason),
        ),
        t.phase is Registering ==> t.accepts(UploadInput::Registered(item)) && t.accepts(
            UploadInput::RegisterFailed(reason),
        ),
{
}

/// The size of an upload is the one that its header gives; where there is none,
/// or it is no number, it is not known and counts as nothing.
pub proof fn law_announced_size_is_read(header: Seq<char>, size: u64)
    ensures
        announced_size(None) == 0,
        announced_size(Some(crate::text::decimal_text(size as nat))) == size,
        (exists|i: int| 0 <= i < header.len() && !('0' <= #[trigger] header[i] && header[i] <= '9')
            && header[i] != '+') ==> announced_size(Some(header)) == 0,
        header.len() == 0 ==> announced_size(Some(header)) == 0,
{
    crate::text::law_decimal_round_trip(size as nat, u64::MAX as int);
    if exists|i: int|
        0 <= i < header.len() && !('0' <= #[trigger] header[i] && header[i] <= '9') && header[i]
            != '+' {
        let i = choose|i: int|
            0 <= i < header.len() && !('0' <= #[trigger] header[i] && header[i] <= '9')
                && header[i] != '+';
        let body = crate::text::unsigned_part(header);
        if header[0] == '+' {
            assert(body[i - 1] == header[i]);
            assert(!crate::text::is_digit(body[i - 1]));
        } else {
            assert(!crate::text::is_digit(body[i]));
        }
    }
}

/// An upload begins with nothing received, under the name and from the address
/// that it was begun with.
pub proof fn law_uploads_begin_afresh(
    transfer_id: Seq<char>,
    filename: Seq<char>,
    by_addr: Seq<char>,
    total: u64,
)
    ensures
        ({
            let t = fresh_upload(transfer_id, filename, by_addr, total);
            &&& t.wf()
            &&& t.transfer_id == transfer_id && t.filename == filename && t.by_addr == by_addr
                && t.total == total
            &&& t.received == 0 && t.last_report == 0
            &&& t.accepts(UploadInput::DirReady)
        }),
{
}

}
