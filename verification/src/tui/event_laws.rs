//! What events do to what the user sees, and what the passing of time does.

use crate::client::{DownloadProgress, DownloadResult, Measure};
use crate::discovery::PeerView;
use crate::paths::path_text;
use crate::server::ServerEvent;
use crate::shares::size_text;
use crate::table::{lemma_is_first_keyed, lemma_none_keyed, HasKey};
use crate::text::{decimal_text, opt_view, repeated, views};
use crate::time::Clock;
use crate::tui::app::{
    aged_download, aged_downloads, aged_upload, aged_uploads, aged_web_upload, aged_web_uploads,
    aging_closings, zip_progress_text, AppView,
};
use crate::tui::key_laws::{law_notes_are_kept_in_order, with_note};
use crate::tui::state::{
    AppEvent, DownloadStateView, EffectView, Focus, LogKind, UploadKind, UploadStateView,
    WebUploadStateView,
};
use vstd::prelude::*;

verus! {

/// Whether a transfer stands at `i` in a list and is the first with its key.
pub open spec fn is_first<V: HasKey>(s: Seq<V>, i: int, k: Seq<char>) -> bool {
    &&& 0 <= i < s.len()
    &&& s[i].key() == k
    &&& forall|j: int| 0 <= j < i ==> (#[trigger] s[j]).key() != k
}

/// The files of a peer are shown as they come, and the peer is no longer waited
/// for.
pub proof fn law_files_are_shown(
    a: AppView,
    peers: Seq<PeerView>,
    files: Vec<crate::client::RemoteShareInfo>,
    clock: Clock,
)
    ensures
        a.event(peers, AppEvent::PeerFilesLoaded(files), clock) == (
            AppView { peer_files: views(files@), peer_files_loading: false, ..a },
            Seq::<EffectView>::empty(),
        ),
{
}

/// How far a download is is shown of that download and of no other: its bytes,
/// its size, its speed and the time that it still takes. It moves again.
pub proof fn law_progress_is_shown(
    a: AppView,
    peers: Seq<PeerView>,
    id: String,
    p: DownloadProgress,
    i: int,
    clock: Clock,
)
    requires
        is_first(a.active_downloads, i, id@),
    ensures
        a.event(peers, AppEvent::DownloadProgress { id, progress: p }, clock) == (
            AppView {
                active_downloads: a.active_downloads.update(
                    i,
                    DownloadStateView {
                        bytes_done: p.bytes_downloaded,
                        total: p.total_bytes,
                        speed_bps: p.speed_bps,
                        eta_seconds: p.eta_seconds,
                        retrying: false,
                        last_activity: clock.mono,
                        ..a.active_downloads[i]
                    },
                ),
                ..a
            },
            Seq::<EffectView>::empty(),
        ),
{
    lemma_is_first_keyed(a.active_downloads, id@, i);
}

/// A download that is taken up again is shown as such, counts as moving, and is
/// noted with the number of the retry out of five.
pub proof fn law_retries_are_shown(
    a: AppView,
    peers: Seq<PeerView>,
    id: String,
    attempt: u32,
    i: int,
    clock: Clock,
)
    requires
        a.log.len() <= 200,
        is_first(a.active_downloads, i, id@),
    ensures
        ({
            let d = a.active_downloads[i];
            let (b, effects) = a.event(peers, AppEvent::DownloadRetrying { id, attempt }, clock);
            &&& effects.len() == 0
            &&& b.active_downloads == a.active_downloads.update(
                i,
                DownloadStateView { retrying: true, last_activity: clock.mono, ..d },
            )
            &&& with_note(
                b,
                "Connection lost, retrying '"@ + d.name + "' (attempt "@ + decimal_text(
                    attempt as nat,
                ) + "/"@ + decimal_text(5) + ")..."@,
                LogKind::Warning,
                clock,
            )
        }),
{
    lemma_is_first_keyed(a.active_downloads, id@, i);
    let d = a.active_downloads[i];
    let changed = AppView {
        active_downloads: a.active_downloads.update(i, crate::tui::app::retried(d, clock.mono)),
        ..a
    };
    law_notes_are_kept_in_order(
        changed,
        "Connection lost, retrying '"@ + d.name + "' (attempt "@ + decimal_text(attempt as nat)
            + "/"@ + decimal_text(5) + ")..."@,
        LogKind::Warning,
        clock,
    );
}

/// A download that ended well is shown as complete, with all of its bytes, and
/// told nothing more. Where its file lies is noted, with the verdict on its
/// checksum; a wrong checksum is noted as a warning, and everything else as a
/// success.
pub proof fn law_finished_downloads_are_shown(
    a: AppView,
    peers: Seq<PeerView>,
    id: String,
    r: DownloadResult,
    i: int,
    clock: Clock,
)
    requires
        a.log.len() <= 200,
        is_first(a.active_downloads, i, id@),
        !a.active_downloads[i].cancelled,
    ensures
        ({
            let d = a.active_downloads[i];
            let (b, effects) = a.event(peers, AppEvent::DownloadDone { id, result: r }, clock);
            let e = b.active_downloads[i];
            let told = "✓ Downloaded '"@ + d.name + "' → "@ + path_text(r.path);
            &&& b.active_downloads == a.active_downloads.update(i, e)
            &&& e == (DownloadStateView {
                done: true,
                pause_tx: None,
                done_at: Some(clock.mono),
                total: e.total,
                bytes_done: e.total,
                ..d
            })
            &&& d.total > 0 ==> e.total == d.total
            &&& d.total == 0 ==> e.total == 1
            &&& d.pause_tx is Some ==> effects == seq![EffectView::CloseControl { id: d.id }]
            &&& d.pause_tx is None ==> effects.len() == 0
            &&& r.checksum_ok == Some(true) ==> with_note(
                b,
                told + " ✓ checksum ok"@,
                LogKind::Success,
                clock,
            )
            &&& r.checksum_ok == Some(false) ==> with_note(
                b,
                told + " ⚠ checksum MISMATCH"@,
                LogKind::Warning,
                clock,
            )
            &&& r.checksum_ok is None ==> with_note(b, told, LogKind::Success, clock)
        }),
{
    lemma_is_first_keyed(a.active_downloads, id@, i);
    let d = a.active_downloads[i];
    let told = "✓ Downloaded '"@ + d.name + "' → "@ + path_text(r.path);
    let changed = AppView {
        active_downloads: a.active_downloads.update(i, crate::tui::app::completed(d, clock.mono)),
        ..a
    };
    reveal_strlit("");
    assert(told + ""@ =~= told);
    law_notes_are_kept_in_order(
        changed,
        told + crate::tui::app::verdict_note(r.checksum_ok),
        if r.checksum_ok == Some(false) {
            LogKind::Warning
        } else {
            LogKind::Success
        },
        clock,
    );
}

/// A download that failed is shown no longer, the others are shown as before,
/// and why it failed is noted.
pub proof fn law_failed_downloads_are_noted(
    a: AppView,
    peers: Seq<PeerView>,
    id: String,
    error: String,
    i: int,
    clock: Clock,
)
    requires
        a.log.len() <= 200,
        is_first(a.active_downloads, i, id@),
    ensures
        ({
            let d = a.active_downloads[i];
            let (b, effects) = a.event(peers, AppEvent::DownloadError { id, error }, clock);
            &&& b.active_downloads == a.active_downloads.filter(|x: DownloadStateView| x.id != id@)
            &&& with_note(
                b,
                "✗ Download '"@ + d.name + "' failed: "@ + error@,
                LogKind::Warning,
                clock,
            )
        }),
{
    lemma_is_first_keyed(a.active_downloads, id@, i);
    let d = a.active_downloads[i];
    lemma_without_is_filter(a.active_downloads, id@);
    law_notes_are_kept_in_order(
        a,
        "✗ Download '"@ + d.name + "' failed: "@ + error@,
        LogKind::Warning,
        clock,
    );
}

proof fn lemma_without_is_filter(s: Seq<DownloadStateView>, id: Seq<char>)
    ensures
        crate::table::without(s, id) == s.filter(|x: DownloadStateView| x.id != id),
    decreases s.len(),
{
    reveal(Seq::filter);
    if s.len() > 0 {
        lemma_without_is_filter(s.drop_last(), id);
    }
}

/// What is told of a download that is not shown changes nothing.
pub proof fn law_unknown_downloads_are_ignored(
    a: AppView,
    peers: Seq<PeerView>,
    id: String,
    p: DownloadProgress,
    r: DownloadResult,
    attempt: u32,
    clock: Clock,
)
    requires
        forall|j: int| 0 <= j < a.active_downloads.len() ==> (#[trigger] a.active_downloads[j]).id
            != id@,
    ensures
        a.event(peers, AppEvent::DownloadProgress { id, progress: p }, clock) == (
            a,
            Seq::<EffectView>::empty(),
        ),
        a.event(peers, AppEvent::DownloadDone { id, result: r }, clock) == (
            a,
            Seq::<EffectView>::empty(),
        ),
        a.event(peers, AppEvent::DownloadRetrying { id, attempt }, clock) == (
            a,
            Seq::<EffectView>::empty(),
        ),
{
    assert forall|j: int| 0 <= j < a.active_downloads.len() implies (
    #[trigger] a.active_downloads[j]).key() != id@ by {
        assert(a.active_downloads[j].id != id@);
    }
    lemma_none_keyed(a.active_downloads, id@);
}

/// What is to be shared is handed on: a path, and a folder with the answer to the
/// question whether to zip it. The question itself is shown as it is asked.
pub proof fn law_sharing_is_handed_on(
    a: AppView,
    peers: Seq<PeerView>,
    path: std::path::PathBuf,
    zip: bool,
    request: crate::tui::state::ZipConfirmRequest,
    clock: Clock,
)
    ensures
        a.event(peers, AppEvent::AddShare(path), clock) == (
            a,
            seq![EffectView::SharePath { path }],
        ),
        a.event(peers, AppEvent::ZipConfirmResult(path, zip), clock) == (
            a,
            seq![EffectView::ShareWithChoice { path, zip }],
        ),
        ({
            let (b, effects) = a.event(peers, AppEvent::ZipConfirmNeeded(request), clock);
            let q = b.zip_confirm->0;
            &&& effects.len() == 0
            &&& b == (AppView { zip_confirm: b.zip_confirm, ..a })
            &&& b.zip_confirm is Some
            &&& q.path == request.path && q.folder_name == request.folder_name@ && q.file_count
                == request.file_count && q.total_size == request.total_size && q.would_zip
                == request.would_zip
        }),
{
}

/// What was shared is noted with its name and size, and what could not be shared
/// with the reason; the next folder that is zipped gets an entry of its own.
pub proof fn law_sharing_is_noted(
    a: AppView,
    peers: Seq<PeerView>,
    item: crate::shares::SharedItem,
    error: String,
    clock: Clock,
)
    requires
        a.log.len() <= 200,
    ensures
        ({
            let (b, effects) = a.event(peers, AppEvent::ShareAdded(item), clock);
            &&& effects.len() == 0
            &&& b.zip_progress_log_idx is None
            &&& b == (AppView { log: b.log, zip_progress_log_idx: None, ..a })
            &&& with_note(
                b,
                "✓ Shared '"@ + item.name@ + "' ("@ + size_text(item.size as nat) + ")"@,
                LogKind::Success,
                clock,
            )
        }),
        ({
            let (b, effects) = a.event(peers, AppEvent::ShareError(error), clock);
            &&& effects.len() == 0
            &&& b == (AppView { log: b.log, zip_progress_log_idx: None, ..a })
            &&& with_note(b, "✗ Share failed: "@ + error@, LogKind::Warning, clock)
        }),
{
    let fresh = AppView { zip_progress_log_idx: None, ..a };
    law_notes_are_kept_in_order(
        fresh,
        "✓ Shared '"@ + item.name@ + "' ("@ + size_text(item.size as nat) + ")"@,
        LogKind::Success,
        clock,
    );
    law_notes_are_kept_in_order(fresh, "✗ Share failed: "@ + error@, LogKind::Warning, clock);
}

/// How far a folder is zipped is told by a bar of twenty places, filled as far as
/// the files are done, by the two numbers, and by the percentage.
pub proof fn law_zip_bar_tells_how_far(folder: Seq<char>, done: nat, total: nat)
    requires
        0 < total,
        done <= total,
    ensures
        exists|filled: nat|
            {
                &&& filled <= 20
                &&& filled * total <= 20 * done < (filled + 1) * total
                &&& zip_progress_text(folder, done, total) == "📦 Zipping '"@ + folder + "' ["@
                    + #[trigger] repeated('█', filled) + repeated('░', (20 - filled) as nat)
                    + "] "@ + decimal_text(done) + "/"@ + decimal_text(total) + " files ("@
                    + decimal_text(crate::cli::percent(done, total)) + "%)"@
            },
{
    let filled = crate::tui::app::bar_filled(done, total);
    vstd::arithmetic::div_mod::lemma_fundamental_div_mod((20 * done) as int, total as int);
    assert(filled * total <= 20 * done < (filled + 1) * total) by (nonlinear_arith)
        requires
            filled == (20 * done) / total,
            20 * done == total * filled + (20 * done) % total,
            0 <= (20 * done) % total < total,
    ;
    assert(filled <= 20) by (nonlinear_arith)
        requires
            filled * total <= 20 * done,
            done <= total,
            0 < total,
    ;
    let _ = repeated('█', filled);
}

/// An address that the user typed and that is one becomes a peer entered by hand,
/// and that is noted; of any other text the user is warned, and no peer changes.
pub proof fn law_typed_addresses_become_peers(
    a: AppView,
    peers: Seq<PeerView>,
    text: String,
    port: u16,
    addr: Option<String>,
    clock: Clock,
)
    requires
        a.log.len() <= 200,
    ensures
        ({
            let (b, effects) = a.event(
                peers,
                AppEvent::AddressResolved { text, port, addr },
                clock,
            );
            &&& effects.len() == 0
            &&& b.shares == a.shares
            &&& addr is Some ==> {
                let name = addr->0@ + ":"@ + decimal_text(port as nat);
                &&& b.peers == a.peers.insert(
                    name,
                    PeerView {
                        username: name,
                        addr: addr->0@,
                        port,
                        share_count: 0,
                        last_seen: clock.wall,
                        manual: true,
                    },
                )
                &&& with_note(b, "Added manual peer "@ + name, LogKind::Info, clock)
            }
            &&& addr is None ==> b.peers == a.peers && with_note(
                b,
                "Invalid IP address: "@ + text@,
                LogKind::Warning,
                clock,
            )
        }),
{
    match opt_view(addr) {
        Some(x) => {
            let name = x + ":"@ + decimal_text(port as nat);
            law_notes_are_kept_in_order(
                AppView {
                    peers: a.peers.insert(
                        name,
                        crate::discovery::entered(x, port, clock.wall),
                    ),
                    ..a
                },
                "Added manual peer "@ + name,
                LogKind::Info,
                clock,
            );
        },
        None => law_notes_are_kept_in_order(
            a,
            "Invalid IP address: "@ + text@,
            LogKind::Warning,
            clock,
        ),
    }
}

/// Someone who downloads, sends or deletes something on this host is noted with
/// what it was and where they are.
pub proof fn law_visitors_are_noted(
    a: AppView,
    peers: Seq<PeerView>,
    name: String,
    by: String,
    clock: Clock,
)
    requires
        a.log.len() <= 200,
    ensures
        ({
            let (b, effects) = a.event(
                peers,
                AppEvent::ServerEvent(ServerEvent::Downloaded { item_name: name, by_addr: by }),
                clock,
            );
            &&& effects.len() == 0
            &&& with_note(
                b,
                "⬇ '"@ + name@ + "' downloaded by "@ + by@,
                LogKind::Download,
                clock,
            )
        }),
        ({
            let (b, effects) = a.event(
                peers,
                AppEvent::ServerEvent(ServerEvent::Deleted { item_name: name }),
                clock,
            );
            &&& effects.len() == 0
            &&& with_note(b, "🗑 '"@ + name@ + "' deleted via web UI"@, LogKind::Warning, clock)
        }),
        ({
            let (b, effects) = a.event(
                peers,
                AppEvent::ServerEvent(ServerEvent::Uploaded { item_name: name, by_addr: by }),
                clock,
            );
            &&& effects.len() == 0
            &&& with_note(b, "⬆ '"@ + name@ + "' uploaded by "@ + by@, LogKind::Success, clock)
        }),
{
    law_notes_are_kept_in_order(
        a,
        "⬇ '"@ + name@ + "' downloaded by "@ + by@,
        LogKind::Download,
        clock,
    );
    law_notes_are_kept_in_order(
        a,
        "🗑 '"@ + name@ + "' deleted via web UI"@,
        LogKind::Warning,
        clock,
    );
    law_notes_are_kept_in_order(
        a,
        "⬆ '"@ + name@ + "' uploaded by "@ + by@,
        LogKind::Success,
        clock,
    );
}

/// What is sent to a peer is shown from the first report on, under the name of
/// the share, or its id where it is no longer shared.
pub proof fn law_new_uploads_are_shown(
    a: AppView,
    peers: Seq<PeerView>,
    item_id: String,
    bytes_sent: u64,
    total: u64,
    clock: Clock,
)
    requires
        forall|j: int| 0 <= j < a.active_uploads.len() ==> (#[trigger] a.active_uploads[j]).id
            != item_id@,
    ensures
        ({
            let (b, effects) = a.event(
                peers,
                AppEvent::ServerEvent(ServerEvent::UploadProgress { item_id, bytes_sent, total }),
                clock,
            );
            let u = b.active_uploads.last();
            &&& effects.len() == 0
            &&& b == (AppView { active_uploads: a.active_uploads.push(u), ..a })
            &&& u.id == item_id@ && u.bytes_sent == bytes_sent && u.total == total
            &&& a.shares.items.dom().contains(item_id@) ==> u.name
                == a.shares.items[item_id@].name
            &&& !a.shares.items.dom().contains(item_id@) ==> u.name == item_id@
            &&& u.done <==> total > 0 && bytes_sent >= total
            &&& u.done_at == (if u.done {
                Some(clock.mono)
            } else {
                None
            })
            &&& !u.cancelled
            &&& u.last_bytes == bytes_sent && u.last_tick == clock.mono
        }),
{
    assert forall|j: int| 0 <= j < a.active_uploads.len() implies (
    #[trigger] a.active_uploads[j]).key() != item_id@ by {
        assert(a.active_uploads[j].id != item_id@);
    }
    lemma_none_keyed(a.active_uploads, item_id@);
}

/// Further reports of what is sent to a peer change that upload and no other: how
/// much was sent, and that it is complete once all was. The speed is estimated
/// from what went by since the last report.
pub proof fn law_uploads_are_followed(
    a: AppView,
    peers: Seq<PeerView>,
    item_id: String,
    bytes_sent: u64,
    total: u64,
    i: int,
    clock: Clock,
)
    requires
        is_first(a.active_uploads, i, item_id@),
    ensures
        ({
            let u = a.active_uploads[i];
            let (b, effects) = a.event(
                peers,
                AppEvent::ServerEvent(ServerEvent::UploadProgress { item_id, bytes_sent, total }),
                clock,
            );
            let v = b.active_uploads[i];
            &&& b == (AppView { active_uploads: a.active_uploads.update(i, v), ..a })
            &&& v.id == u.id && v.name == u.name && v.cancelled == u.cancelled
            &&& v.bytes_sent == bytes_sent && v.total == total && v.last_bytes == bytes_sent
                && v.last_tick == clock.mono
            &&& v.done <==> u.done || (total > 0 && bytes_sent >= total)
            &&& v.done_at == (if v.done && !u.done {
                Some(clock.mono)
            } else {
                u.done_at
            })
            &&& effects.len() == 1
            &&& effects[0] is Estimate
            &&& effects[0]->upload == UploadKind::Peer && effects[0]->Estimate_id == item_id@
            &&& effects[0]->sample.done == bytes_sent && effects[0]->sample.total == total
            &&& effects[0]->sample.smoothed == u.smoothed_speed
            &&& bytes_sent >= u.last_bytes ==> effects[0]->sample.bytes == bytes_sent
                - u.last_bytes
            &&& clock.mono >= u.last_tick ==> effects[0]->sample.nanos == clock.mono - u.last_tick
        }),
{
    lemma_is_first_keyed(a.active_uploads, item_id@, i);
}

/// An upload to a peer that is reported as done is shown with all of its bytes.
pub proof fn law_done_uploads_are_shown(
    a: AppView,
    peers: Seq<PeerView>,
    item_id: String,
    i: int,
    clock: Clock,
)
    requires
        is_first(a.active_uploads, i, item_id@),
    ensures
        a.event(
            peers,
            AppEvent::ServerEvent(ServerEvent::UploadDone { item_id }),
            clock,
        ) == (
            AppView {
                active_uploads: a.active_uploads.update(
                    i,
                    UploadStateView {
                        done: true,
                        done_at: Some(clock.mono),
                        bytes_sent: a.active_uploads[i].total,
                        ..a.active_uploads[i]
                    },
                ),
                ..a
            },
            Seq::<EffectView>::empty(),
        ),
{
    lemma_is_first_keyed(a.active_uploads, item_id@, i);
}

/// A file that a browser begins to send is shown from nothing, with its name, its
/// size and where it comes from, and noted.
pub proof fn law_browser_uploads_begin(
    a: AppView,
    peers: Seq<PeerView>,
    transfer_id: String,
    filename: String,
    total: u64,
    by_addr: String,
    clock: Clock,
)
    requires
        a.log.len() <= 200,
    ensures
        ({
            let (b, effects) = a.event(
                peers,
                AppEvent::ServerEvent(
                    ServerEvent::WebUploadStarted { transfer_id, filename, total, by_addr },
                ),
                clock,
            );
            let w = b.web_uploads.last();
            &&& effects.len() == 0
            &&& b.web_uploads == a.web_uploads.push(w)
            &&& w.transfer_id == transfer_id@ && w.name == filename@ && w.total == total
                && w.by_addr == by_addr@
            &&& w.bytes_received == 0 && !w.done && !w.failed && w.done_at is None && w.last_bytes
                == 0 && w.last_tick == clock.mono
            &&& with_note(
                b,
                "⬆ '"@ + filename@ + "' upload started from "@ + by_addr@,
                LogKind::Info,
                clock,
            )
        }),
{
    law_notes_are_kept_in_order(
        a,
        "⬆ '"@ + filename@ + "' upload started from "@ + by_addr@,
        LogKind::Info,
        clock,
    );
}

/// Reports of what a browser sends change that upload and no other: how much was
/// received, and how much there is where that becomes known.
pub proof fn law_browser_uploads_are_followed(
    a: AppView,
    peers: Seq<PeerView>,
    transfer_id: String,
    bytes_received: u64,
    total: u64,
    i: int,
    clock: Clock,
)
    requires
        is_first(a.web_uploads, i, transfer_id@),
    ensures
        ({
            let w = a.web_uploads[i];
            let known = if total > 0 {
                total
            } else {
                w.total
            };
            let (b, effects) = a.event(
                peers,
                AppEvent::ServerEvent(
                    ServerEvent::WebUploadProgress { transfer_id, bytes_received, total },
                ),
                clock,
            );
            &&& b == (AppView {
                web_uploads: a.web_uploads.update(
                    i,
                    WebUploadStateView {
                        bytes_received,
                        total: known,
                        last_bytes: bytes_received,
                        last_tick: clock.mono,
                        ..w
                    },
                ),
                ..a
            })
            &&& effects.len() == 1
            &&& effects[0] is Estimate
            &&& effects[0]->upload == UploadKind::Web && effects[0]->Estimate_id == transfer_id@
            &&& effects[0]->sample.done == bytes_received && effects[0]->sample.total == known
            &&& bytes_received >= w.last_bytes ==> effects[0]->sample.bytes == bytes_received
                - w.last_bytes
            &&& clock.mono >= w.last_tick ==> effects[0]->sample.nanos == clock.mono - w.last_tick
        }),
{
    lemma_is_first_keyed(a.web_uploads, transfer_id@, i);
}

/// A browser's upload that ended is shown as it ended, and noted: complete with
/// all of its bytes, or failed.
pub proof fn law_browser_uploads_end(
    a: AppView,
    peers: Seq<PeerView>,
    transfer_id: String,
    i: int,
    clock: Clock,
)
    requires
        a.log.len() <= 200,
        is_first(a.web_uploads, i, transfer_id@),
    ensures
        ({
            let w = a.web_uploads[i];
            let (b, effects) = a.event(
                peers,
                AppEvent::ServerEvent(ServerEvent::WebUploadFinished { transfer_id }),
                clock,
            );
            let v = b.web_uploads[i];
            &&& effects.len() == 0
            &&& b.web_uploads == a.web_uploads.update(i, v)
            &&& v == (WebUploadStateView {
                done: true,
                done_at: Some(clock.mono),
                bytes_received: v.bytes_received,
                ..w
            })
            &&& w.total > 0 ==> v.bytes_received == w.total
            &&& w.total == 0 ==> v.bytes_received == w.bytes_received
            &&& with_note(
                b,
                "✔ '"@ + w.name + "' received from "@ + w.by_addr + " via web UI"@,
                LogKind::Success,
                clock,
            )
        }),
        ({
            let w = a.web_uploads[i];
            let (b, effects) = a.event(
                peers,
                AppEvent::ServerEvent(ServerEvent::WebUploadFailed { transfer_id }),
                clock,
            );
            &&& effects.len() == 0
            &&& b.web_uploads == a.web_uploads.update(
                i,
                WebUploadStateView { failed: true, done_at: Some(clock.mono), ..w },
            )
            &&& with_note(
                b,
                "✗ '"@ + w.name + "' upload from "@ + w.by_addr + " failed"@,
                LogKind::Warning,
                clock,
            )
        }),
{
    lemma_is_first_keyed(a.web_uploads, transfer_id@, i);
    let w = a.web_uploads[i];
    law_notes_are_kept_in_order(
        AppView {
            web_uploads: a.web_uploads.update(i, crate::tui::app::web_completed(w, clock.mono)),
            ..a
        },
        "✔ '"@ + w.name + "' received from "@ + w.by_addr + " via web UI"@,
        LogKind::Success,
        clock,
    );
    law_notes_are_kept_in_order(
        AppView {
            web_uploads: a.web_uploads.update(i, crate::tui::app::web_failed(w, clock.mono)),
            ..a
        },
        "✗ '"@ + w.name + "' upload from "@ + w.by_addr + " failed"@,
        LogKind::Warning,
        clock,
    );
}

/// An estimated speed is remembered at once, and shown, with the time that is
/// left, at most every half second.
pub proof fn law_speeds_are_shown_now_and_then(
    a: AppView,
    peers: Seq<PeerView>,
    id: String,
    smoothed: Measure,
    eta: Measure,
    i: int,
    clock: Clock,
)
    ensures
        is_first(a.active_uploads, i, id@) ==> {
            let u = a.active_uploads[i];
            let due = clock.mono - u.last_display_update >= 500_000_000;
            a.event(
                peers,
                AppEvent::SpeedEstimated { upload: UploadKind::Peer, id, smoothed, eta },
                clock,
            ) == (
                AppView {
                    active_uploads: a.active_uploads.update(
                        i,
                        UploadStateView {
                            smoothed_speed: smoothed,
                            speed_bps: if due {
                                smoothed
                            } else {
                                u.speed_bps
                            },
                            eta_seconds: if due {
                                eta
                            } else {
                                u.eta_seconds
                            },
                            last_display_update: if due {
                                clock.mono
                            } else {
                                u.last_display_update
                            },
                            ..u
                        },
                    ),
                    ..a
                },
                Seq::<EffectView>::empty(),
            )
        },
        is_first(a.web_uploads, i, id@) ==> {
            let w = a.web_uploads[i];
            let due = clock.mono - w.last_display_update >= 500_000_000;
            a.event(
                peers,
                AppEvent::SpeedEstimated { upload: UploadKind::Web, id, smoothed, eta },
                clock,
            ) == (
                AppView {
                    web_uploads: a.web_uploads.update(
                        i,
                        WebUploadStateView {
                            smoothed_speed: smoothed,
                            speed_bps: if due {
                                smoothed
                            } else {
                                w.speed_bps
                            },
                            eta_seconds: if due {
                                eta
                            } else {
                                w.eta_seconds
                            },
                            last_display_update: if due {
                                clock.mono
                            } else {
                                w.last_display_update
                            },
                            ..w
                        },
                    ),
                    ..a
                },
                Seq::<EffectView>::empty(),
            )
        },
{
    if is_first(a.active_uploads, i, id@) {
        lemma_is_first_keyed(a.active_uploads, id@, i);
    }
    if is_first(a.web_uploads, i, id@) {
        lemma_is_first_keyed(a.web_uploads, id@, i);
    }
}

/// Whether a transfer that ended at this time, if it has, is still to be seen: for
/// less than three seconds.
pub open spec fn seen_at(done_at: Option<u64>, now: u64) -> bool {
    done_at is None || now - done_at->0 < 3_000_000_000
}

/// As time passes, a download that has not moved for ten seconds is given up,
/// unless it is paused or has ended, and no other changes. Those that ended three
/// seconds ago are no longer shown; the rest stays in its order.
pub proof fn law_downloads_age(a: AppView, peers: Seq<PeerView>, clock: Clock)
    ensures
        a.event(peers, AppEvent::Tick, clock).0.active_downloads == a.active_downloads.map_values(
            |d: DownloadStateView|
                if !d.done && !d.cancelled && !d.paused && clock.mono - d.last_activity
                    >= 10_000_000_000 {
                    DownloadStateView {
                        cancelled: true,
                        pause_tx: None,
                        done_at: Some(clock.mono),
                        ..d
                    }
                } else {
                    d
                },
        ).filter(|d: DownloadStateView| seen_at(d.done_at, clock.mono)),
{
    lemma_downloads_age(a.active_downloads, clock.mono);
}

proof fn lemma_downloads_age(s: Seq<DownloadStateView>, now: u64)
    ensures
        aged_downloads(s, now) == s.map_values(
            |d: DownloadStateView|
                if !d.done && !d.cancelled && !d.paused && now - d.last_activity
                    >= 10_000_000_000 {
                    DownloadStateView { cancelled: true, pause_tx: None, done_at: Some(now), ..d }
                } else {
                    d
                },
        ).filter(|d: DownloadStateView| seen_at(d.done_at, now)),
    decreases s.len(),
{
    let f = |d: DownloadStateView|
        if !d.done && !d.cancelled && !d.paused && now - d.last_activity >= 10_000_000_000 {
            DownloadStateView { cancelled: true, pause_tx: None, done_at: Some(now), ..d }
        } else {
            d
        };
    let p = |d: DownloadStateView| seen_at(d.done_at, now);
    reveal(Seq::filter);
    if s.len() > 0 {
        lemma_downloads_age(s.drop_last(), now);
        assert(s.map_values(f).drop_last() =~= s.drop_last().map_values(f));
        assert(s.map_values(f).last() == f(s.last()));
        assert(f(s.last()) == aged_download(s.last(), now));
        assert(p(f(s.last())) == crate::tui::app::is_visible(f(s.last()).done_at, now));
    }
    assert(aged_downloads(s, now) =~= s.map_values(f).filter(p));
}

/// As time passes, an upload that has not moved for ten seconds is given up, one
/// of which all was sent is complete, and those that ended three seconds ago are
/// no longer shown; the rest stays in its order.
pub proof fn law_uploads_age(a: AppView, peers: Seq<PeerView>, clock: Clock)
    ensures
        a.event(peers, AppEvent::Tick, clock).0.active_uploads == a.active_uploads.map_values(
            |u: UploadStateView|
                {
                    let stale = !u.done && !u.cancelled && clock.mono - u.last_tick
                        >= 10_000_000_000;
                    let full = !u.done && u.total > 0 && u.bytes_sent >= u.total;
                    UploadStateView {
                        cancelled: u.cancelled || stale,
                        done: u.done || full,
                        done_at: if stale || full {
                            Some(clock.mono)
                        } else {
                            u.done_at
                        },
                        ..u
                    }
                },
        ).filter(|u: UploadStateView| seen_at(u.done_at, clock.mono)),
{
    lemma_uploads_age(a.active_uploads, clock.mono);
}

proof fn lemma_uploads_age(s: Seq<UploadStateView>, now: u64)
    ensures
        aged_uploads(s, now) == s.map_values(
            |u: UploadStateView|
                {
                    let stale = !u.done && !u.cancelled && now - u.last_tick >= 10_000_000_000;
                    let full = !u.done && u.total > 0 && u.bytes_sent >= u.total;
                    UploadStateView {
                        cancelled: u.cancelled || stale,
                        done: u.done || full,
                        done_at: if stale || full {
                            Some(now)
                        } else {
                            u.done_at
                        },
                        ..u
                    }
                },
        ).filter(|u: UploadStateView| seen_at(u.done_at, now)),
    decreases s.len(),
{
    let f = |u: UploadStateView|
        {
            let stale = !u.done && !u.cancelled && now - u.last_tick >= 10_000_000_000;
            let full = !u.done && u.total > 0 && u.bytes_sent >= u.total;
            UploadStateView {
                cancelled: u.cancelled || stale,
                done: u.done || full,
                done_at: if stale || full {
                    Some(now)
                } else {
                    u.done_at
                },
                ..u
            }
        };
    let p = |u: UploadStateView| seen_at(u.done_at, now);
    reveal(Seq::filter);
    if s.len() > 0 {
        lemma_uploads_age(s.drop_last(), now);
        assert(s.map_values(f).drop_last() =~= s.drop_last().map_values(f));
        assert(s.map_values(f).last() == f(s.last()));
        assert(f(s.last()) == aged_upload(s.last(), now));
        assert(p(f(s.last())) == crate::tui::app::is_visible(f(s.last()).done_at, now));
    }
    assert(aged_uploads(s, now) =~= s.map_values(f).filter(p));
}

/// As time passes, a browser's upload that has not moved for ten seconds has
/// failed, and those that ended three seconds ago are no longer shown; the rest
/// stays in its order.
pub proof fn law_browser_uploads_age(a: AppView, peers: Seq<PeerView>, clock: Clock)
    ensures
        a.event(peers, AppEvent::Tick, clock).0.web_uploads == a.web_uploads.map_values(
            |w: WebUploadStateView|
                if !w.done && !w.failed && clock.mono - w.last_tick >= 10_000_000_000 {
                    WebUploadStateView { failed: true, done_at: Some(clock.mono), ..w }
                } else {
                    w
                },
        ).filter(|w: WebUploadStateView| seen_at(w.done_at, clock.mono)),
{
    lemma_browser_uploads_age(a.web_uploads, clock.mono);
}

proof fn lemma_browser_uploads_age(s: Seq<WebUploadStateView>, now: u64)
    ensures
        aged_web_uploads(s, now) == s.map_values(
            |w: WebUploadStateView|
                if !w.done && !w.failed && now - w.last_tick >= 10_000_000_000 {
                    WebUploadStateView { failed: true, done_at: Some(now), ..w }
                } else {
                    w
                },
        ).filter(|w: WebUploadStateView| seen_at(w.done_at, now)),
    decreases s.len(),
{
    let f = |w: WebUploadStateView|
        if !w.done && !w.failed && now - w.last_tick >= 10_000_000_000 {
            WebUploadStateView { failed: true, done_at: Some(now), ..w }
        } else {
            w
        };
    let p = |w: WebUploadStateView| seen_at(w.done_at, now);
    reveal(Seq::filter);
    if s.len() > 0 {
        lemma_browser_uploads_age(s.drop_last(), now);
        assert(s.map_values(f).drop_last() =~= s.drop_last().map_values(f));
        assert(s.map_values(f).last() == f(s.last()));
        assert(f(s.last()) == aged_web_upload(s.last(), now));
        assert(p(f(s.last())) == crate::tui::app::is_visible(f(s.last()).done_at, now));
    }
    assert(aged_web_uploads(s, now) =~= s.map_values(f).filter(p));
}

/// While the files of a peer are looked at, the peer is asked for them again every
/// three seconds, unless it has not answered yet.
pub proof fn law_files_are_asked_for_again(a: AppView, peers: Seq<PeerView>, clock: Clock)
    ensures
        ({
            let (b, effects) = a.event(peers, AppEvent::Tick, clock);
            let due = a.focus == Focus::PeerFiles && clock.mono - a.last_peer_refresh
                >= 3_000_000_000 && !a.peer_files_loading && a.peer_list_state < peers.len();
            let p = peers[a.peer_list_state as int];
            &&& due ==> {
                &&& b.last_peer_refresh == clock.mono
                &&& b.peer_files_loading
                &&& effects.len() > 0
                &&& effects[0] == (EffectView::FetchPeerFiles {
                    base_url: "https://"@ + p.addr + ":"@ + decimal_text(p.port as nat),
                })
            }
            &&& !due ==> {
                &&& b.last_peer_refresh == a.last_peer_refresh
                &&& b.peer_files_loading == a.peer_files_loading
                &&& b.peer_files == a.peer_files
                &&& forall|i: int|
                    0 <= i < effects.len() ==> !((#[trigger] effects[i]) is FetchPeerFiles)
            }
            &&& b.log == a.log
            &&& b.shares == a.shares
            &&& b.peers == a.peers
        }),
{
    lemma_closings(a.active_downloads, clock.mono);
}

proof fn lemma_closings(s: Seq<DownloadStateView>, now: u64)
    ensures
        forall|i: int|
            0 <= i < aging_closings(s, now).len() ==> (#[trigger] aging_closings(
                s,
                now,
            )[i]) is CloseControl,
    decreases s.len(),
{
    if s.len() > 0 {
        lemma_closings(s.drop_last(), now);
    }
}

/// How far a folder is zipped can be shown whenever no more files are done than
/// there are.
pub proof fn law_zip_progress_can_be_shown(folder: String, done: usize, total: usize)
    requires
        done <= total,
        done * 100 <= usize::MAX,
    ensures
        crate::tui::app::is_showable(AppEvent::ZipProgress { folder, done, total }),
{
    if total > 0 {
        law_zip_bar_tells_how_far(folder@, done as nat, total as nat);
        vstd::arithmetic::div_mod::lemma_fundamental_div_mod((20 * done) as int, total as int);
        let filled = crate::tui::app::bar_filled(done as nat, total as nat);
        assert(filled <= 20) by (nonlinear_arith)
            requires
                20 * done == total * filled + (20 * done) % (total as int),
                0 <= (20 * done) % (total as int) < total,
                done <= total,
                0 < total,
        ;
    }
}

/// A file that was sent to this host completes the first upload of its name that
/// is still shown as running, and no other.
pub proof fn law_received_files_complete_their_upload(
    a: AppView,
    peers: Seq<PeerView>,
    name: String,
    by: String,
    i: int,
    clock: Clock,
)
    requires
        0 <= i < a.active_uploads.len(),
        a.active_uploads[i].name == name@ && !a.active_uploads[i].done,
        forall|j: int|
            0 <= j < i ==> (#[trigger] a.active_uploads[j]).name != name@
                || a.active_uploads[j].done,
    ensures
        a.event(
            peers,
            AppEvent::ServerEvent(ServerEvent::Uploaded { item_name: name, by_addr: by }),
            clock,
        ).0.active_uploads == a.active_uploads.update(
            i,
            UploadStateView {
                done: true,
                done_at: Some(clock.mono),
                bytes_sent: a.active_uploads[i].total,
                ..a.active_uploads[i]
            },
        ),
{
    lemma_first_unfinished_is(a.active_uploads, name@, i);
}

proof fn lemma_first_unfinished_is(s: Seq<UploadStateView>, name: Seq<char>, i: int)
    requires
        forall|j: int| 0 <= j < i && j < s.len() ==> (#[trigger] s[j]).name != name || s[j].done,
        0 <= i,
        i < s.len() ==> s[i].name == name && !s[i].done,
    ensures
        crate::tui::app::first_unfinished(s, name) == (if i < s.len() {
            Some(i)
        } else {
            None
        }),
    decreases s.len(),
{
    if s.len() > 0 {
        let t = s.drop_last();
        assert forall|j: int| 0 <= j < i && j < t.len() implies (#[trigger] t[j]).name != name
            || t[j].done by {
            assert(s[j] == t[j]);
        }
        assert(s.last() == s[s.len() - 1]);
        lemma_first_unfinished_is(t, name, i);
    }
}

/// Exactly the downloads that can still be told something are told that nothing
/// more follows, when they fail.
pub proof fn law_failed_downloads_are_let_go(
    a: AppView,
    peers: Seq<PeerView>,
    id: String,
    error: String,
    clock: Clock,
)
    ensures
        a.event(peers, AppEvent::DownloadError { id, error }, clock).1 == a.active_downloads.filter(
            |d: DownloadStateView| d.id == id@ && d.pause_tx is Some,
        ).map_values(|d: DownloadStateView| EffectView::CloseControl { id: d.id }),
{
    lemma_closing_keyed(a.active_downloads, id@);
}

proof fn lemma_closing_keyed(s: Seq<DownloadStateView>, id: Seq<char>)
    ensures
        crate::tui::app::closing_keyed(s, id) == s.filter(
            |d: DownloadStateView| d.id == id && d.pause_tx is Some,
        ).map_values(|d: DownloadStateView| EffectView::CloseControl { id: d.id }),
    decreases s.len(),
{
    let p = |d: DownloadStateView| d.id == id && d.pause_tx is Some;
    let f = |d: DownloadStateView| EffectView::CloseControl { id: d.id };
    reveal(Seq::filter);
    if s.len() > 0 {
        lemma_closing_keyed(s.drop_last(), id);
        let rest = s.drop_last().filter(p);
        assert(rest.push(s.last()).map_values(f) =~= rest.map_values(f).push(f(s.last())));
    }
    assert(crate::tui::app::closing_keyed(s, id) =~= s.filter(p).map_values(f));
}

}
