//! What holds of the user interface as a whole.

use crate::client::{DownloadControl, DownloadResult};
use crate::discovery::PeerView;
use crate::shares::{ShareKind, SharedItemView};
use crate::table::{first_keyed, lemma_first_keyed, lemma_without_is_part, without};
use crate::time::{elapsed_secs, Clock};
use crate::tui::app::{
    aged_download, aged_downloads, aged_upload, aged_uploads, aged_web_upload, aged_web_uploads,
    at, completed, given_up, is_downloading, is_visible, pause_toggled, progressed, retried,
    zip_progress_text, AppView, LOG_LIMIT, STALE_SECS,
};
use crate::tui::input::Key;
use crate::tui::state::{
    AppEvent, DownloadStateView, EffectView, Focus, LogEntryView, LogKind, UploadStateView,
    WebUploadStateView,
};
use vstd::prelude::*;

verus! {

/// The log never grows beyond its limit, and what was noted last stands last.
pub proof fn law_log_keeps_the_latest(
    a: AppView,
    message: Seq<char>,
    kind: LogKind,
    clock: Clock,
)
    requires
        a.wf(),
    ensures
        a.noted(message, kind, clock).wf(),
        a.noted(message, kind, clock).log.len() <= LOG_LIMIT,
        a.noted(message, kind, clock).log.last().message == message,
        a.log.len() < LOG_LIMIT ==> a.noted(message, kind, clock).log.drop_last() == a.log,
        a.log.len() == LOG_LIMIT ==> a.noted(message, kind, clock).log.drop_last() == a.log.skip(1),
{
    let e = a.noted(message, kind, clock).log.last();
    if a.log.len() < LOG_LIMIT {
        assert(a.noted(message, kind, clock).log.drop_last() =~= a.log);
    } else {
        assert(a.noted(message, kind, clock).log.drop_last() =~= a.log.skip(1));
    }
}

/// A download that was given up does not become complete when its file
/// arrives after all.
pub proof fn law_cancelled_downloads_stay_cancelled(
    a: AppView,
    id: Seq<char>,
    result: DownloadResult,
    clock: Clock,
)
    requires
        first_keyed(a.active_downloads, id) is Some,
        a.active_downloads[first_keyed(a.active_downloads, id)->0].cancelled,
    ensures
        a.download_done(id, result, clock) == (a, Seq::<EffectView>::empty()),
{
}

/// A paused download is never given up for not moving.
pub proof fn law_paused_downloads_are_kept(d: DownloadStateView, now: u64)
    requires
        d.paused,
    ensures
        aged_download(d, now) == d,
{
}

/// A download that does not move for too long is given up: it is told nothing
/// more, and shown as given up for a while.
pub proof fn law_stale_downloads_are_given_up(d: DownloadStateView, now: u64)
    requires
        !d.done,
        !d.cancelled,
        !d.paused,
        elapsed_secs(now, d.last_activity) >= STALE_SECS,
    ensures
        aged_download(d, now) == given_up(d, now),
        aged_download(d, now).cancelled,
        aged_download(d, now).pause_tx is None,
        is_visible(aged_download(d, now).done_at, now),
{
}

/// As time passes, exactly those transfers disappear that have ended long
/// enough ago.
pub proof fn law_ended_transfers_disappear(a: AppView, peers: Seq<PeerView>, now: u64)
    ensures
        ({
            let b = a.ticked(peers, now).0;
            &&& forall|i: int|
                0 <= i < b.active_downloads.len() ==> is_visible(
                    (#[trigger] b.active_downloads[i]).done_at,
                    now,
                )
            &&& forall|i: int|
                0 <= i < b.active_uploads.len() ==> is_visible(
                    (#[trigger] b.active_uploads[i]).done_at,
                    now,
                )
            &&& forall|i: int|
                0 <= i < b.web_uploads.len() ==> is_visible(
                    (#[trigger] b.web_uploads[i]).done_at,
                    now,
                )
            &&& forall|i: int|
                #![trigger a.active_downloads[i]]
                0 <= i < a.active_downloads.len() && is_visible(
                    aged_download(a.active_downloads[i], now).done_at,
                    now,
                ) ==> b.active_downloads.contains(aged_download(a.active_downloads[i], now))
            &&& forall|i: int|
                #![trigger a.active_uploads[i]]
                0 <= i < a.active_uploads.len() && is_visible(
                    aged_upload(a.active_uploads[i], now).done_at,
                    now,
                ) ==> b.active_uploads.contains(aged_upload(a.active_uploads[i], now))
            &&& forall|i: int|
                #![trigger a.web_uploads[i]]
                0 <= i < a.web_uploads.len() && is_visible(
                    aged_web_upload(a.web_uploads[i], now).done_at,
                    now,
                ) ==> b.web_uploads.contains(aged_web_upload(a.web_uploads[i], now))
        }),
{
    lemma_aged_downloads(a.active_downloads, now);
    lemma_aged_uploads(a.active_uploads, now);
    lemma_aged_web_uploads(a.web_uploads, now);
}

proof fn lemma_push_contains<T>(s: Seq<T>, x: T, y: T)
    requires
        s.contains(y) || x == y,
    ensures
        s.push(x).contains(y),
{
    if s.contains(y) {
        let i = choose|i: int| 0 <= i < s.len() && s[i] == y;
        assert(s.push(x)[i] == y);
    } else {
        assert(s.push(x)[s.len() as int] == y);
    }
}

proof fn lemma_aged_downloads(s: Seq<DownloadStateView>, now: u64)
    ensures
        forall|i: int|
            0 <= i < aged_downloads(s, now).len() ==> is_visible(
                (#[trigger] aged_downloads(s, now)[i]).done_at,
                now,
            ),
        forall|i: int|
            #![trigger s[i]]
            0 <= i < s.len() && is_visible(aged_download(s[i], now).done_at, now)
                ==> aged_downloads(s, now).contains(aged_download(s[i], now)),
    decreases s.len(),
{
    if s.len() > 0 {
        let t = s.drop_last();
        let x = aged_download(s.last(), now);
        lemma_aged_downloads(t, now);
        assert forall|i: int|
            #![trigger s[i]]
            0 <= i < s.len() && is_visible(
                aged_download(s[i], now).done_at,
                now,
            ) implies aged_downloads(s, now).contains(aged_download(s[i], now)) by {
            if i < t.len() {
                assert(t[i] == s[i]);
            }
            if is_visible(x.done_at, now) {
                lemma_push_contains(aged_downloads(t, now), x, aged_download(s[i], now));
            }
        }
    }
}

proof fn lemma_aged_uploads(s: Seq<UploadStateView>, now: u64)
    ensures
        forall|i: int|
            0 <= i < aged_uploads(s, now).len() ==> is_visible(
                (#[trigger] aged_uploads(s, now)[i]).done_at,
                now,
            ),
        forall|i: int|
            #![trigger s[i]]
            0 <= i < s.len() && is_visible(aged_upload(s[i], now).done_at, now) ==> aged_uploads(
                s,
                now,
            ).contains(aged_upload(s[i], now)),
    decreases s.len(),
{
    if s.len() > 0 {
        let t = s.drop_last();
        let x = aged_upload(s.last(), now);
        lemma_aged_uploads(t, now);
        assert forall|i: int|
            #![trigger s[i]]
            0 <= i < s.len() && is_visible(
                aged_upload(s[i], now).done_at,
                now,
            ) implies aged_uploads(s, now).contains(aged_upload(s[i], now)) by {
            if i < t.len() {
                assert(t[i] == s[i]);
            }
            if is_visible(x.done_at, now) {
                lemma_push_contains(aged_uploads(t, now), x, aged_upload(s[i], now));
            }
        }
    }
}

proof fn lemma_aged_web_uploads(s: Seq<WebUploadStateView>, now: u64)
    ensures
        forall|i: int|
            0 <= i < aged_web_uploads(s, now).len() ==> is_visible(
                (#[trigger] aged_web_uploads(s, now)[i]).done_at,
                now,
            ),
        forall|i: int|
            #![trigger s[i]]
            0 <= i < s.len() && is_visible(aged_web_upload(s[i], now).done_at, now)
                ==> aged_web_uploads(s, now).contains(aged_web_upload(s[i], now)),
    decreases s.len(),
{
    if s.len() > 0 {
        let t = s.drop_last();
        let x = aged_web_upload(s.last(), now);
        lemma_aged_web_uploads(t, now);
        assert forall|i: int|
            #![trigger s[i]]
            0 <= i < s.len() && is_visible(
                aged_web_upload(s[i], now).done_at,
                now,
            ) implies aged_web_uploads(s, now).contains(aged_web_upload(s[i], now)) by {
            if i < t.len() {
                assert(t[i] == s[i]);
            }
            if is_visible(x.done_at, now) {
                lemma_push_contains(aged_web_uploads(t, now), x, aged_web_upload(s[i], now));
            }
        }
    }
}

/// As time passes, the place that is selected among the downloads stays one
/// of them.
pub proof fn law_cursor_stays_in_the_list(a: AppView, peers: Seq<PeerView>, now: u64)
    requires
        a.wf(),
        a.ticked(peers, now).0.active_downloads.len() > 0,
        a.ticked(peers, now).0.active_downloads.len() <= usize::MAX,
    ensures
        a.ticked(peers, now).0.transfer_cursor < a.ticked(peers, now).0.active_downloads.len(),
{
}

/// Pausing a download and letting it go on tells it both, and leaves it as it
/// was but for the time of its last activity.
pub proof fn law_pausing_is_undone(d: DownloadStateView, now: u64, later: u64)
    requires
        !d.paused,
        d.pause_tx == Some(DownloadControl::Running),
    ensures
        pause_toggled(d, now).paused,
        pause_toggled(d, now).pause_tx == Some(DownloadControl::Paused),
        pause_toggled(pause_toggled(d, now), later) == (DownloadStateView {
            last_activity: later,
            ..d
        }),
{
}

/// Giving a download up tells it so, and then nothing more. What is complete
/// or already given up cannot be given up.
pub proof fn law_cancelling_tells_the_download(a: AppView, clock: Clock)
    requires
        a.wf(),
        0 < a.active_downloads.len() <= usize::MAX,
    ensures
        ({
            let d = a.active_downloads[a.clamped_cursor() as int];
            let (b, effects) = a.cancelling(clock);
            &&& d.done || d.cancelled ==> b.active_downloads == a.active_downloads
                && effects.len() == 0
            &&& !d.done && !d.cancelled ==> b.active_downloads[a.clamped_cursor() as int]
                == given_up(d, clock.mono)
            &&& !d.done && !d.cancelled && d.pause_tx is Some ==> effects == seq![
                EffectView::SetControl { id: d.id, control: DownloadControl::Cancelled },
                EffectView::CloseControl { id: d.id },
            ]
        }),
{
}

/// A file is downloaded once at a time. Where no peer and no file that can be
/// had is selected, nothing happens; while the file is being downloaded, the
/// user is warned; and else exactly one download of it begins, from nothing.
pub proof fn law_no_share_is_downloaded_twice(a: AppView, peers: Seq<PeerView>, clock: Clock)
    ensures
        ({
            let f = at(a.peer_files, a.peer_files_state);
            let (b, effects) = a.downloading(peers, clock);
            let had = at(peers, a.peer_list_state) is Some && f is Some && f->0.available;
            &&& !had ==> b == a && effects.len() == 0
            &&& had && is_downloading(a.active_downloads, f->0.id) ==> {
                &&& b.active_downloads == a.active_downloads
                &&& effects.len() == 0
                &&& b.log.last().kind == LogKind::Warning
            }
            &&& had && !is_downloading(a.active_downloads, f->0.id) ==> {
                let d = b.active_downloads.last();
                &&& b.active_downloads.drop_last() == a.active_downloads
                &&& d.id == f->0.id && d.name == f->0.name && d.total == f->0.size
                &&& d.bytes_done == 0 && !d.done && !d.cancelled && !d.paused
                &&& effects.len() == 1
            }
        }),
        single_downloads(a.active_downloads) ==> single_downloads(
            a.downloading(peers, clock).0.active_downloads,
        ),
{
    let b = a.downloading(peers, clock).0;
    if let Some(f) = at(a.peer_files, a.peer_files_state) {
        if at(peers, a.peer_list_state) is Some && f.available && !is_downloading(
            a.active_downloads,
            f.id,
        ) {
            assert(b.active_downloads.drop_last() =~= a.active_downloads);
        }
    }
}

/// Whether no share has two downloads that have not ended well.
pub open spec fn single_downloads(s: Seq<DownloadStateView>) -> bool {
    forall|i: int, j: int|
        0 <= i < j < s.len() ==> !(#[trigger] s[i].id == #[trigger] s[j].id && !s[i].done
            && !s[j].done)
}

proof fn lemma_single_update(s: Seq<DownloadStateView>, i: int, d: DownloadStateView)
    requires
        single_downloads(s),
        0 <= i < s.len(),
        d.id == s[i].id,
        s[i].done ==> d.done,
    ensures
        single_downloads(s.update(i, d)),
{
    let t = s.update(i, d);
    assert forall|a: int, b: int| 0 <= a < b < t.len() implies !(#[trigger] t[a].id
        == #[trigger] t[b].id && !t[a].done && !t[b].done) by {
        assert(!(s[a].id == s[b].id && !s[a].done && !s[b].done));
    }
}

proof fn lemma_single_without(s: Seq<DownloadStateView>, k: Seq<char>)
    requires
        single_downloads(s),
    ensures
        single_downloads(without(s, k)),
    decreases s.len(),
{
    if s.len() > 0 {
        let t = s.drop_last();
        assert forall|a: int, b: int| 0 <= a < b < t.len() implies !(#[trigger] t[a].id
            == #[trigger] t[b].id && !t[a].done && !t[b].done) by {
            assert(!(s[a].id == s[b].id && !s[a].done && !s[b].done));
        }
        lemma_single_without(t, k);
        lemma_without_is_part(t, k);
        let w = without(s, k);
        assert forall|a: int, b: int| 0 <= a < b < w.len() implies !(#[trigger] w[a].id
            == #[trigger] w[b].id && !w[a].done && !w[b].done) by {
            let u = without(t, k);
            assert(w[a] == u[a]);
            if b < u.len() {
                assert(w[b] == u[b]);
            } else {
                let j = choose|j: int| 0 <= j < t.len() && #[trigger] t[j] == u[a];
                assert(w[b] == s[s.len() - 1]);
                assert(!(s[j].id == s[s.len() - 1].id && !s[j].done && !s[s.len() - 1].done));
            }
        }
    }
}

proof fn lemma_aged_is_part(s: Seq<DownloadStateView>, now: u64)
    ensures
        forall|i: int|
            0 <= i < aged_downloads(s, now).len() ==> exists|j: int|
                0 <= j < s.len() && aged_download(#[trigger] s[j], now)
                    == #[trigger] aged_downloads(s, now)[i],
    decreases s.len(),
{
    if s.len() > 0 {
        let t = s.drop_last();
        lemma_aged_is_part(t, now);
        let u = aged_downloads(t, now);
        let w = aged_downloads(s, now);
        assert forall|i: int| 0 <= i < w.len() implies exists|j: int|
            0 <= j < s.len() && aged_download(#[trigger] s[j], now) == #[trigger] w[i] by {
            if i < u.len() {
                assert(w[i] == u[i]);
                let j = choose|j: int|
                    0 <= j < t.len() && aged_download(#[trigger] t[j], now) == u[i];
                assert(aged_download(s[j], now) == w[i]);
            } else {
                assert(aged_download(s[s.len() - 1], now) == w[i]);
            }
        }
    }
}

proof fn lemma_single_aged(s: Seq<DownloadStateView>, now: u64)
    requires
        single_downloads(s),
    ensures
        single_downloads(aged_downloads(s, now)),
    decreases s.len(),
{
    if s.len() > 0 {
        let t = s.drop_last();
        assert forall|a: int, b: int| 0 <= a < b < t.len() implies !(#[trigger] t[a].id
            == #[trigger] t[b].id && !t[a].done && !t[b].done) by {
            assert(!(s[a].id == s[b].id && !s[a].done && !s[b].done));
        }
        lemma_single_aged(t, now);
        lemma_aged_is_part(t, now);
        let u = aged_downloads(t, now);
        let w = aged_downloads(s, now);
        assert forall|a: int, b: int| 0 <= a < b < w.len() implies !(#[trigger] w[a].id
            == #[trigger] w[b].id && !w[a].done && !w[b].done) by {
            assert(w[a] == u[a]);
            if b < u.len() {
                assert(w[b] == u[b]);
            } else {
                let j = choose|j: int|
                    0 <= j < t.len() && aged_download(#[trigger] t[j], now) == u[a];
                assert(w[b] == aged_download(s[s.len() - 1], now));
                assert(!(s[j].id == s[s.len() - 1].id && !s[j].done && !s[s.len() - 1].done));
            }
        }
    }
}

/// Whatever key the user presses, no share ever has two downloads that have not
/// ended well.
pub proof fn law_keys_keep_downloads_single(
    a: AppView,
    peers: Seq<PeerView>,
    shares: Seq<SharedItemView>,
    key: Key,
    clock: Clock,
)
    requires
        single_downloads(a.active_downloads),
        a.active_downloads.len() <= usize::MAX,
    ensures
        single_downloads(a.key(peers, shares, key, clock).0.active_downloads),
{
    law_no_share_is_downloaded_twice(a, peers, clock);
    let s = a.active_downloads;
    if s.len() > 0 {
        let i = a.clamped_cursor() as int;
        lemma_single_update(s, i, pause_toggled(s[i], clock.mono));
        lemma_single_update(s, i, given_up(s[i], clock.mono));
    }
}

/// Whatever happens, no share ever has two downloads that have not ended well.
pub proof fn law_events_keep_downloads_single(
    a: AppView,
    peers: Seq<PeerView>,
    event: AppEvent,
    clock: Clock,
)
    requires
        single_downloads(a.active_downloads),
    ensures
        single_downloads(a.event(peers, event, clock).0.active_downloads),
{
    let s = a.active_downloads;
    match event {
        AppEvent::Tick => {
            lemma_single_aged(s, clock.mono);
        },
        AppEvent::DownloadProgress { id, progress } => {
            lemma_first_keyed(s, id@);
            if let Some(i) = first_keyed(s, id@) {
                lemma_single_update(s, i, progressed(s[i], progress, clock.mono));
            }
        },
        AppEvent::DownloadDone { id, .. } => {
            lemma_first_keyed(s, id@);
            if let Some(i) = first_keyed(s, id@) {
                lemma_single_update(s, i, completed(s[i], clock.mono));
            }
        },
        AppEvent::DownloadError { id, .. } => {
            lemma_single_without(s, id@);
        },
        AppEvent::DownloadRetrying { id, .. } => {
            lemma_first_keyed(s, id@);
            if let Some(i) = first_keyed(s, id@) {
                lemma_single_update(s, i, retried(s[i], clock.mono));
            }
        },
        _ => {},
    }
}

/// How far a folder is zipped is shown in one entry of the log, however often
/// it changes.
pub proof fn law_zipping_takes_one_entry(
    a: AppView,
    folder: Seq<char>,
    done: nat,
    further: nat,
    total: nat,
    clock: Clock,
    later: Clock,
)
    requires
        a.wf(),
        a.zip_progress_log_idx is None,
    ensures
        ({
            let b = a.zip_progress(folder, done, total, clock).0;
            let c = b.zip_progress(folder, further, total, later).0;
            &&& c.log.len() == b.log.len()
            &&& c.log.drop_last() == b.log.drop_last()
            &&& c.zip_progress_log_idx == b.zip_progress_log_idx
        }),
{
    let b = a.zip_progress(folder, done, total, clock).0;
    let c = b.zip_progress(folder, further, total, later).0;
    assert(c.log.drop_last() =~= b.log.drop_last());
}

/// The entry that shows how far a folder is zipped is followed when other things
/// are noted: it is found again where it stands then, what was noted meanwhile
/// is left alone, and it is given up only when it falls out of the log.
pub proof fn law_zip_entry_is_followed(
    a: AppView,
    message: Seq<char>,
    kind: LogKind,
    folder: Seq<char>,
    done: nat,
    total: nat,
    clock: Clock,
    later: Clock,
)
    requires
        a.wf(),
        a.zip_progress_log_idx is Some,
        a.zip_progress_log_idx->0 < a.log.len(),
    ensures
        ({
            let i = a.zip_progress_log_idx->0;
            let b = a.noted(message, kind, clock);
            let c = b.zip_progress(folder, done, total, later).0;
            &&& b.zip_progress_log_idx is None <==> a.log.len() == LOG_LIMIT && i == 0
            &&& b.zip_progress_log_idx matches Some(j) ==> {
                &&& j < b.log.len() - 1
                &&& b.log[j as int] == a.log[i as int]
                &&& c.log == b.log.update(
                    j as int,
                    LogEntryView {
                        message: zip_progress_text(folder, done, total),
                        timestamp: later.wall,
                        ..a.log[i as int]
                    },
                )
                &&& c.log.last() == b.log.last()
            }
            &&& b.log.last().message == message
        }),
{
    let b = a.noted(message, kind, clock);
    if a.log.len() == LOG_LIMIT {
        let i = a.zip_progress_log_idx->0;
        if i > 0 {
            assert(b.log[i - 1] == a.log[i as int]);
        }
    }
}

/// Taking a share out deletes nothing but the archive that was made for it:
/// the files of the user are never touched.
pub proof fn law_unsharing_deletes_only_archives(
    a: AppView,
    shares: Seq<SharedItemView>,
    clock: Clock,
)
    ensures
        forall|i: int|
            0 <= i < a.unsharing(shares, clock).1.len() ==> ((
            #[trigger] a.unsharing(shares, clock).1[i]) is DeleteFile ==> at(
                shares,
                a.my_shares_state,
            ) is Some && at(shares, a.my_shares_state)->0.kind == ShareKind::ZippedFolder),
{
}

/// What the user types into a dialog changes nothing but the text of it.
pub proof fn law_typing_stays_in_the_dialog(
    a: AppView,
    peers: Seq<PeerView>,
    shares: Seq<SharedItemView>,
    c: char,
    clock: Clock,
)
    requires
        !a.show_qr,
        a.zip_confirm is None,
        a.manual_path_input is Some,
    ensures
        a.key(peers, shares, Key::Char(c), clock) == (
            AppView { manual_path_input: Some(a.manual_path_input->0.push(c)), ..a },
            Seq::<EffectView>::empty(),
        ),
{
}

/// The two dialogs open in their panels: a path is typed where the shares are,
/// and an address everywhere else.
pub proof fn law_dialogs_open_in_their_panels(
    a: AppView,
    peers: Seq<PeerView>,
    shares: Seq<SharedItemView>,
    clock: Clock,
)
    requires
        !a.show_qr,
        a.zip_confirm is None,
        a.manual_path_input is None,
        a.manual_ip_input is None,
    ensures
        ({
            let b = a.key(peers, shares, Key::Char('m'), clock).0;
            &&& b.manual_path_input is Some <==> a.focus == Focus::MyShares
            &&& b.manual_ip_input is Some <==> a.focus != Focus::MyShares
        }),
{
}

/// Only peers that were entered by hand are taken out by the user.
pub proof fn law_only_manual_peers_are_removed(
    a: AppView,
    peers: Seq<PeerView>,
    key: Key,
    clock: Clock,
)
    requires
        a.peer_list_key(peers, key, clock).0.peers != a.peers,
    ensures
        at(peers, a.peer_list_state) is Some,
        at(peers, a.peer_list_state)->0.manual,
{
}

}
