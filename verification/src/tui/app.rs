//! The state of the user interface, and how it changes with keys and events.

use crate::client::{DownloadControl, DownloadProgress, DownloadResult, Measure, RemoteShareInfo,
    RemoteShareView,
};
use crate::config::{Config, ConfigView, DEFAULT_PORT};
use crate::discovery::{endpoint, endpoint_text, entered, Peer, PeerRegistry, PeerView};
use crate::paths::{display_path, path_text};
use crate::server::ServerEvent;
use crate::shares::{
    size_text, RegistryView, ShareRegistry, SharedItem, SharedItemView,
};
use crate::table::{
    first_keyed, lemma_all_held, lemma_held_without, lemma_is_first_keyed, lemma_none_keyed,
    lemma_placed_again, lists, placed, still_held, without, HasKey,
};
use crate::text::{
    after_last, before, count_char, count_of, decimal, decimal_text, number_in, opt_view,
    parse_decimal, repeat_char, repeated, same, text_after_last, text_before, views,
};
use crate::time::{elapsed_millis, elapsed_secs, millis_between, secs_between, Clock};
use crate::tui::input::{Key, Typing};
use crate::tui::state::{
    AppEvent, DownloadState, DownloadStateView, Effect, EffectView, Focus, LogEntry, LogEntryView,
    LogKind, SpeedSample, UploadKind, UploadState, UploadStateView, WebUploadState,
    WebUploadStateView, ZipConfirmRequest, ZipConfirmRequestView,
};
use crate::tui::theme::{theme, theme_at, SpeedUnit, THEME_COUNT};
use vstd::prelude::*;

verus! {

// ---------------------------------------------------------------------------
// The state
// ---------------------------------------------------------------------------

/// How many entries the log keeps.
pub const LOG_LIMIT: usize = 200;

/// The seconds after which a transfer that does not move is given up.
pub const STALE_SECS: u64 = 10;

/// The seconds for which a transfer that has ended is still shown.
pub const VISIBLE_SECS: u64 = 3;

/// The seconds between two requests for the files of a peer that is looked at.
pub const REFRESH_SECS: u64 = 3;

/// The milliseconds between two changes of the speed that is shown.
pub const DISPLAY_INTERVAL_MS: u64 = 500;

/// The state of the user interface.
pub struct App {
    pub config: Config,
    pub peers: PeerRegistry,
    pub shares: ShareRegistry,
    pub focus: Focus,
    pub peer_list_state: usize,
    pub peer_files: Vec<RemoteShareInfo>,
    pub peer_files_state: usize,
    pub peer_files_loading: bool,
    pub my_shares_state: usize,
    pub log: Vec<LogEntry>,
    pub active_downloads: Vec<DownloadState>,
    pub active_uploads: Vec<UploadState>,
    pub web_uploads: Vec<WebUploadState>,
    pub transfer_cursor: usize,
    pub show_help: bool,
    pub show_qr: bool,
    pub manual_ip_input: Option<String>,
    pub manual_path_input: Option<String>,
    pub zip_confirm: Option<ZipConfirmRequest>,
    /// The place of the log entry that shows how far a folder is zipped.
    pub zip_progress_log_idx: Option<usize>,
    pub speed_unit: SpeedUnit,
    pub theme_idx: usize,
    pub last_peer_refresh: u64,
}

/// The state of the user interface in mathematical terms.
#[verifier::ext_equal]
pub struct AppView {
    pub config: ConfigView,
    pub peers: Map<Seq<char>, PeerView>,
    pub shares: RegistryView,
    pub focus: Focus,
    pub peer_list_state: usize,
    pub peer_files: Seq<RemoteShareView>,
    pub peer_files_state: usize,
    pub peer_files_loading: bool,
    pub my_shares_state: usize,
    pub log: Seq<LogEntryView>,
    pub active_downloads: Seq<DownloadStateView>,
    pub active_uploads: Seq<UploadStateView>,
    pub web_uploads: Seq<WebUploadStateView>,
    pub transfer_cursor: usize,
    pub show_help: bool,
    pub show_qr: bool,
    pub manual_ip_input: Option<Seq<char>>,
    pub manual_path_input: Option<Seq<char>>,
    pub zip_confirm: Option<ZipConfirmRequestView>,
    pub zip_progress_log_idx: Option<usize>,
    pub speed_unit: SpeedUnit,
    pub theme_idx: usize,
    pub last_peer_refresh: u64,
}

impl View for App {
    type V = AppView;

    open spec fn view(&self) -> AppView {
        AppView {
            config: self.config@,
            peers: self.peers@,
            shares: self.shares@,
            focus: self.focus,
            peer_list_state: self.peer_list_state,
            peer_files: views(self.peer_files@),
            peer_files_state: self.peer_files_state,
            peer_files_loading: self.peer_files_loading,
            my_shares_state: self.my_shares_state,
            log: views(self.log@),
            active_downloads: views(self.active_downloads@),
            active_uploads: views(self.active_uploads@),
            web_uploads: views(self.web_uploads@),
            transfer_cursor: self.transfer_cursor,
            show_help: self.show_help,
            show_qr: self.show_qr,
            manual_ip_input: opt_view(self.manual_ip_input),
            manual_path_input: opt_view(self.manual_path_input),
            zip_confirm: opt_view(self.zip_confirm),
            zip_progress_log_idx: self.zip_progress_log_idx,
            speed_unit: self.speed_unit,
            theme_idx: self.theme_idx,
            last_peer_refresh: self.last_peer_refresh,
        }
    }
}

/// The state and the requests after a step.
pub type Step = (AppView, Seq<EffectView>);

/// The log after an entry was added: it keeps the last entries.
pub open spec fn logged(log: Seq<LogEntryView>, entry: LogEntryView) -> Seq<LogEntryView> {
    if log.len() >= LOG_LIMIT {
        log.push(entry).remove(0)
    } else {
        log.push(entry)
    }
}

/// What stands at a place of a list, if the list is that long.
pub open spec fn at<T>(s: Seq<T>, i: usize) -> Option<T> {
    if i < s.len() {
        Some(s[i as int])
    } else {
        None
    }
}

/// The place above, or the first.
pub open spec fn up(i: usize) -> usize {
    if i > 0 {
        (i - 1) as usize
    } else {
        0
    }
}

/// The place below in a list of `n`, or the first after the last.
pub open spec fn down_around(i: usize, n: nat) -> usize {
    ((i + 1) % (n as int)) as usize
}

impl AppView {
    /// Whether the log is not too long, the theme is one of the themes, and
    /// there is a place below each that is selected.
    pub open spec fn wf(self) -> bool {
        &&& self.log.len() <= LOG_LIMIT
        &&& self.theme_idx < THEME_COUNT
        &&& self.peer_list_state < usize::MAX
        &&& self.peer_files_state < usize::MAX
        &&& self.my_shares_state < usize::MAX
        &&& self.transfer_cursor < usize::MAX
    }

    /// Where the entry that shows how far a folder is zipped stands after
    /// something was noted: it moves up with the others when the oldest entry
    /// falls out, and may be that one.
    pub open spec fn zip_entry_after_noting(self) -> Option<usize> {
        if self.log.len() >= LOG_LIMIT {
            match self.zip_progress_log_idx {
                Some(i) if i > 0 => Some((i - 1) as usize),
                _ => None,
            }
        } else {
            self.zip_progress_log_idx
        }
    }

    /// The state after something was noted in the log.
    pub open spec fn noted(self, message: Seq<char>, kind: LogKind, clock: Clock) -> AppView {
        AppView {
            log: logged(self.log, LogEntryView { timestamp: clock.wall, message, kind }),
            zip_progress_log_idx: self.zip_entry_after_noting(),
            ..self
        }
    }

    /// The state after the files of the selected peer were asked for.
    pub open spec fn loading(self, peers: Seq<PeerView>) -> Step {
        match at(peers, self.peer_list_state) {
            Some(p) => (
                AppView {
                    peer_files_loading: true,
                    peer_files: Seq::empty(),
                    peer_files_state: 0,
                    ..self
                },
                seq![EffectView::FetchPeerFiles { base_url: p.base_url() }],
            ),
            None => (self, Seq::empty()),
        }
    }
}

impl App {
    /// Whether the registries and the rest of the state are sound.
    pub open spec fn wf(&self) -> bool {
        self.peers.wf() && self.shares.wf() && self@.wf()
    }

    /// The state at the start.
    pub fn new(config: Config, peers: PeerRegistry, shares: ShareRegistry, clock: &Clock) -> (r:
        App)
        requires
            peers.wf(),
            shares.wf(),
        ensures
            r.wf(),
            r.peers == peers,
            r.shares == shares,
            r@ == (AppView {
                config: config@,
                peers: peers@,
                shares: shares@,
                focus: Focus::PeerList,
                peer_list_state: 0,
                peer_files: Seq::empty(),
                peer_files_state: 0,
                peer_files_loading: false,
                my_shares_state: 0,
                log: Seq::empty(),
                active_downloads: Seq::empty(),
                active_uploads: Seq::empty(),
                web_uploads: Seq::empty(),
                transfer_cursor: 0,
                show_help: false,
                show_qr: false,
                manual_ip_input: None,
                manual_path_input: None,
                zip_confirm: None,
                zip_progress_log_idx: None,
                speed_unit: if config@.speed_unit_bits {
                    SpeedUnit::Bits
                } else {
                    SpeedUnit::Bytes
                },
                theme_idx: if config@.theme_idx < THEME_COUNT {
                    config@.theme_idx
                } else {
                    (THEME_COUNT - 1) as usize
                },
                last_peer_refresh: clock.mono,
            }),
    {
        let speed_unit = if config.speed_unit_bits {
            SpeedUnit::Bits
        } else {
            SpeedUnit::Bytes
        };
        let theme_idx = if config.theme_idx < THEME_COUNT {
            config.theme_idx
        } else {
            THEME_COUNT - 1
        };
        App {
            config,
            peers,
            shares,
            focus: Focus::PeerList,
            peer_list_state: 0,
            peer_files: Vec::new(),
            peer_files_state: 0,
            peer_files_loading: false,
            my_shares_state: 0,
            log: Vec::new(),
            active_downloads: Vec::new(),
            active_uploads: Vec::new(),
            web_uploads: Vec::new(),
            transfer_cursor: 0,
            show_help: false,
            show_qr: false,
            manual_ip_input: None,
            manual_path_input: None,
            zip_confirm: None,
            zip_progress_log_idx: None,
            speed_unit,
            theme_idx,
            last_peer_refresh: clock.mono,
        }
    }

    /// Notes something in the log.
    pub fn log(&mut self, message: String, kind: LogKind, clock: &Clock)
        requires
            old(self).wf(),
        ensures
            final(self).wf(),
            final(self).peers == old(self).peers,
            final(self).shares == old(self).shares,
            final(self)@ == old(self)@.noted(message@, kind, *clock),
    {
        broadcast use crate::text::group_views;

        self.log.push(LogEntry { timestamp: clock.wall, message, kind });
        if self.log.len() > LOG_LIMIT {
            let _ = self.log.remove(0);
            self.zip_progress_log_idx = match self.zip_progress_log_idx {
                Some(i) if i > 0 => Some(i - 1),
                _ => None,
            };
        }
    }

    /// Every peer that is known.
    pub fn peer_list(&self) -> (r: Vec<Peer>)
        requires
            self.wf(),
        ensures
            views(r@) == self.peers.listed(),
    {
        self.peers.list()
    }

    /// The peer that is selected.
    pub fn selected_peer(&self) -> (r: Option<Peer>)
        requires
            self.wf(),
        ensures
            opt_view(r) == at(self.peers.listed(), self.peer_list_state),
    {
        let peers = self.peer_list();
        if self.peer_list_state < peers.len() {
            assert(views(peers@)[self.peer_list_state as int] == peers@[self.peer_list_state as int]@);
            Some(peers[self.peer_list_state].clone())
        } else {
            None
        }
    }

    /// The shares of this host.
    pub fn my_shares(&self) -> (r: Vec<SharedItem>)
        requires
            self.wf(),
        ensures
            views(r@) == self.shares.listed(),
    {
        self.shares.list()
    }

    fn load_peer_files(&mut self) -> (r: Vec<Effect>)
        requires
            old(self).wf(),
        ensures
            final(self).wf(),
            final(self).peers == old(self).peers,
            final(self).shares == old(self).shares,
            (final(self)@, views(r@)) == old(self)@.loading(old(self).peers.listed()),
    {
        broadcast use crate::text::group_views;

        let mut effects: Vec<Effect> = Vec::new();
        if let Some(peer) = self.selected_peer() {
            self.peer_files_loading = true;
            self.peer_files = Vec::new();
            self.peer_files_state = 0;
            effects.push(Effect::FetchPeerFiles { base_url: peer.http_base() });
            assert(views(effects@) =~= seq![EffectView::FetchPeerFiles { base_url: peer@.base_url() }]);
        }
        effects
    }
}

// ---------------------------------------------------------------------------
// Keys
// ---------------------------------------------------------------------------

/// Whether a key goes down in a list.
pub open spec fn is_down(key: Key) -> bool {
    key == Key::Down || key == Key::Char('j')
}

/// Whether a key goes up in a list.
pub open spec fn is_up(key: Key) -> bool {
    key == Key::Up || key == Key::Char('k')
}

/// Whether a key takes something out of a list.
pub open spec fn is_remove(key: Key) -> bool {
    key == Key::Delete || key == Key::Char('x')
}

/// Whether a share with this id is being downloaded.
pub open spec fn is_downloading(s: Seq<DownloadStateView>, id: Seq<char>) -> bool {
    exists|i: int| 0 <= i < s.len() && (#[trigger] s[i]).id == id && !s[i].done
}

/// A download of a file that begins now.
pub open spec fn new_download(f: RemoteShareView, now: u64) -> DownloadStateView {
    DownloadStateView {
        id: f.id,
        name: f.name,
        bytes_done: 0,
        total: f.size,
        speed_bps: Measure { bits: 0 },
        done: false,
        cancelled: false,
        retrying: false,
        paused: false,
        done_at: None,
        eta_seconds: Measure { bits: 0 },
        last_activity: now,
        pause_tx: Some(DownloadControl::Running),
    }
}

/// The address and the port in a text that the user typed as `address` or
/// `address:port`. A port that is none is the default one.
pub open spec fn typed_address(text: Seq<char>) -> (Seq<char>, u16) {
    if count_of(text, ':') == 1 {
        (
            before(text, ':'),
            match number_in(after_last(text, ':'), u16::MAX as int) {
                Some(p) => p as u16,
                None => DEFAULT_PORT,
            },
        )
    } else {
        (text, DEFAULT_PORT)
    }
}

/// A download that the user pauses, or lets go on. The time in which it did
/// not move does not count against it.
pub open spec fn pause_toggled(d: DownloadStateView, now: u64) -> DownloadStateView {
    DownloadStateView {
        paused: !d.paused,
        last_activity: if d.paused {
            now
        } else {
            d.last_activity
        },
        pause_tx: if d.pause_tx is Some {
            Some(
                if d.paused {
                    DownloadControl::Running
                } else {
                    DownloadControl::Paused
                },
            )
        } else {
            None
        },
        ..d
    }
}

/// A download that was given up.
pub open spec fn given_up(d: DownloadStateView, now: u64) -> DownloadStateView {
    DownloadStateView { cancelled: true, pause_tx: None, done_at: Some(now), ..d }
}

impl AppView {
    /// The place among the downloads that is selected, no further than the
    /// last.
    pub open spec fn clamped_cursor(self) -> usize {
        if self.transfer_cursor < self.active_downloads.len() {
            self.transfer_cursor
        } else {
            (self.active_downloads.len() - 1) as usize
        }
    }

    /// After a key in the list of peers.
    pub open spec fn peer_list_key(self, peers: Seq<PeerView>, key: Key, clock: Clock) -> Step {
        if is_down(key) {
            if peers.len() > 0 {
                AppView {
                    peer_list_state: down_around(self.peer_list_state, peers.len()),
                    ..self
                }.loading(peers)
            } else {
                (self, Seq::empty())
            }
        } else if is_up(key) {
            if peers.len() > 0 {
                AppView { peer_list_state: up(self.peer_list_state), ..self }.loading(peers)
            } else {
                (self, Seq::empty())
            }
        } else if key == Key::Enter || key == Key::Right {
            AppView { focus: Focus::PeerFiles, ..self }.loading(peers)
        } else if is_remove(key) {
            match at(peers, self.peer_list_state) {
                Some(p) => if p.manual {
                    (
                        AppView {
                            peers: self.peers.remove(p.key()),
                            peer_list_state: up(self.peer_list_state),
                            peer_files: Seq::empty(),
                            ..self
                        }.noted(
                            "Removed manual peer "@ + endpoint_text(p.addr, p.port),
                            LogKind::Info,
                            clock,
                        ),
                        Seq::empty(),
                    )
                } else {
                    (
                        self.noted(
                            "Only manually added peers can be removed"@,
                            LogKind::Warning,
                            clock,
                        ),
                        Seq::empty(),
                    )
                },
                None => (self, Seq::empty()),
            }
        } else {
            (self, Seq::empty())
        }
    }

    /// After the selected file was asked for.
    pub open spec fn downloading(self, peers: Seq<PeerView>, clock: Clock) -> Step {
        match (at(peers, self.peer_list_state), at(self.peer_files, self.peer_files_state)) {
            (Some(p), Some(f)) => if !f.available {
                (self, Seq::empty())
            } else if is_downloading(self.active_downloads, f.id) {
                (
                    self.noted(
                        "'"@ + f.name + "' is already downloading"@,
                        LogKind::Warning,
                        clock,
                    ),
                    Seq::empty(),
                )
            } else {
                (
                    AppView {
                        active_downloads: self.active_downloads.push(new_download(f, clock.mono)),
                        ..self
                    }.noted("Downloading '"@ + f.name + "'…"@, LogKind::Info, clock),
                    seq![
                        EffectView::StartDownload {
                            base_url: p.base_url(),
                            id: f.id,
                            name: f.name,
                            dir: self.config.download_dir,
                        },
                    ],
                )
            },
            _ => (self, Seq::empty()),
        }
    }

    /// After a key in the list of a peer's files.
    pub open spec fn peer_files_key(self, peers: Seq<PeerView>, key: Key, clock: Clock) -> Step {
        if is_down(key) {
            if self.peer_files.len() > 0 {
                (
                    AppView {
                        peer_files_state: down_around(self.peer_files_state, self.peer_files.len()),
                        ..self
                    },
                    Seq::empty(),
                )
            } else {
                (self, Seq::empty())
            }
        } else if is_up(key) {
            (AppView { peer_files_state: up(self.peer_files_state), ..self }, Seq::empty())
        } else if key == Key::Enter || key == Key::Char('d') {
            self.downloading(peers, clock)
        } else if key == Key::Left {
            (AppView { focus: Focus::PeerList, ..self }, Seq::empty())
        } else {
            (self, Seq::empty())
        }
    }

    /// After the selected share was taken out.
    pub open spec fn unsharing(self, shares: Seq<SharedItemView>, clock: Clock) -> Step {
        match at(shares, self.my_shares_state) {
            Some(item) => (
                AppView {
                    shares: RegistryView {
                        items: self.shares.items.remove(item.id),
                        dirty: true,
                        ..self.shares
                    },
                    my_shares_state: up(self.my_shares_state),
                    ..self
                }.noted("Removed '"@ + item.name + "' from shares"@, LogKind::Info, clock),
                match item.archive() {
                    Some(path) => seq![EffectView::DeleteFile { path }, EffectView::FlushIndex],
                    None => seq![EffectView::FlushIndex],
                },
            ),
            None => (self, Seq::empty()),
        }
    }

    /// After a key in the list of shares.
    pub open spec fn my_shares_key(
        self,
        shares: Seq<SharedItemView>,
        key: Key,
        clock: Clock,
    ) -> Step {
        if is_down(key) {
            if shares.len() > 0 {
                (
                    AppView {
                        my_shares_state: down_around(self.my_shares_state, shares.len()),
                        ..self
                    },
                    Seq::empty(),
                )
            } else {
                (self, Seq::empty())
            }
        } else if is_up(key) {
            (AppView { my_shares_state: up(self.my_shares_state), ..self }, Seq::empty())
        } else if is_remove(key) {
            self.unsharing(shares, clock)
        } else {
            (self, Seq::empty())
        }
    }

    /// After the selected download was paused or let go on.
    pub open spec fn pausing(self, clock: Clock) -> Step {
        let here = AppView { transfer_cursor: self.clamped_cursor(), ..self };
        let i = here.transfer_cursor as int;
        let d = here.active_downloads[i];
        if d.done || d.cancelled {
            (here, Seq::empty())
        } else {
            let e = pause_toggled(d, clock.mono);
            (
                AppView {
                    active_downloads: here.active_downloads.update(i, e),
                    ..here
                }.noted(
                    (if e.paused {
                        "⏸ Paused '"@
                    } else {
                        "▶ Resumed '"@
                    }) + d.name + "'"@,
                    LogKind::Info,
                    clock,
                ),
                match e.pause_tx {
                    Some(control) => seq![EffectView::SetControl { id: d.id, control }],
                    None => Seq::empty(),
                },
            )
        }
    }

    /// After the selected download was given up.
    pub open spec fn cancelling(self, clock: Clock) -> Step {
        let here = AppView { transfer_cursor: self.clamped_cursor(), ..self };
        let i = here.transfer_cursor as int;
        let d = here.active_downloads[i];
        if d.done || d.cancelled {
            (here, Seq::empty())
        } else {
            (
                AppView {
                    active_downloads: here.active_downloads.update(i, given_up(d, clock.mono)),
                    ..here
                }.noted("✖ Cancelled '"@ + d.name + "'"@, LogKind::Warning, clock),
                if d.pause_tx is Some {
                    seq![
                        EffectView::SetControl { id: d.id, control: DownloadControl::Cancelled },
                        EffectView::CloseControl { id: d.id },
                    ]
                } else {
                    Seq::empty()
                },
            )
        }
    }

    /// After a key in the list of transfers.
    pub open spec fn transfers_key(self, key: Key, clock: Clock) -> Step {
        if self.active_downloads.len() == 0 {
            (self, Seq::empty())
        } else if is_up(key) {
            (AppView { transfer_cursor: up(self.transfer_cursor), ..self }, Seq::empty())
        } else if is_down(key) {
            if self.transfer_cursor + 1 < self.active_downloads.len() {
                (
                    AppView { transfer_cursor: (self.transfer_cursor + 1) as usize, ..self },
                    Seq::empty(),
                )
            } else {
                (self, Seq::empty())
            }
        } else if key == Key::Char('p') || key == Key::Char(' ') {
            self.pausing(clock)
        } else if key == Key::Char('c') || key == Key::Delete {
            self.cancelling(clock)
        } else {
            (self, Seq::empty())
        }
    }

    /// After a key while the QR code is shown.
    pub open spec fn qr_key(self, key: Key) -> AppView {
        if key == Key::Esc || key == Key::Char('r') || key == Key::Char('q') {
            AppView { show_qr: false, ..self }
        } else {
            self
        }
    }

    /// After a key while the user is asked whether a folder is to be zipped.
    pub open spec fn zip_key(self, key: Key) -> Step {
        let path = self.zip_confirm->0.path;
        let answered = AppView { zip_confirm: None, ..self };
        if key == Key::Char('y') || key == Key::Char('Y') {
            (answered, seq![EffectView::AnswerZip { path, zip: true }])
        } else if key == Key::Char('n') || key == Key::Char('N') {
            (answered, seq![EffectView::AnswerZip { path, zip: false }])
        } else if key == Key::Esc {
            (answered, Seq::empty())
        } else {
            (self, Seq::empty())
        }
    }

    /// A text after a key that types it.
    pub open spec fn edited(text: Seq<char>, key: Key) -> Seq<char> {
        match key {
            Key::Char(c) => text.push(c),
            Key::Backspace => if text.len() > 0 {
                text.drop_last()
            } else {
                text
            },
            _ => text,
        }
    }

    /// After a key while the user types a path.
    pub open spec fn path_key(self, key: Key) -> Step {
        let text = self.manual_path_input->0;
        if key == Key::Enter {
            (
                AppView { manual_path_input: None, ..self },
                seq![EffectView::AddPath { text }],
            )
        } else if key == Key::Esc {
            (AppView { manual_path_input: None, ..self }, Seq::empty())
        } else {
            (
                AppView { manual_path_input: Some(AppView::edited(text, key)), ..self },
                Seq::empty(),
            )
        }
    }

    /// After a key while the user types an address.
    pub open spec fn ip_key(self, key: Key) -> Step {
        let text = self.manual_ip_input->0;
        if key == Key::Enter {
            let (address, port) = typed_address(text);
            (
                AppView { manual_ip_input: None, ..self },
                seq![EffectView::ResolveAddress { text: address, port }],
            )
        } else if key == Key::Esc {
            (AppView { manual_ip_input: None, ..self }, Seq::empty())
        } else {
            (
                AppView { manual_ip_input: Some(AppView::edited(text, key)), ..self },
                Seq::empty(),
            )
        }
    }

    /// After a key in the panel that takes the keys.
    pub open spec fn panel_key(
        self,
        peers: Seq<PeerView>,
        shares: Seq<SharedItemView>,
        key: Key,
        clock: Clock,
    ) -> Step {
        match self.focus {
            Focus::PeerList => self.peer_list_key(peers, key, clock),
            Focus::PeerFiles => self.peer_files_key(peers, key, clock),
            Focus::MyShares => self.my_shares_key(shares, key, clock),
            Focus::Transfers => self.transfers_key(key, clock),
        }
    }

    /// The next theme.
    pub open spec fn next_theme(self) -> usize {
        ((self.theme_idx + 1) % (THEME_COUNT as int)) as usize
    }

    /// The text that the user types. A path is typed only while nothing lies
    /// over it.
    pub open spec fn typing(self) -> Typing {
        if self.manual_path_input is Some && !self.show_qr && self.zip_confirm is None {
            Typing::Path
        } else if self.manual_ip_input is Some {
            Typing::Address
        } else {
            Typing::Nothing
        }
    }

    /// After a key. What lies over the panels takes it first: the QR code, the
    /// question whether to zip, a text that the user types. `peers` and
    /// `shares` are the lists as they are shown.
    pub open spec fn key(
        self,
        peers: Seq<PeerView>,
        shares: Seq<SharedItemView>,
        key: Key,
        clock: Clock,
    ) -> Step {
        if self.show_qr {
            (self.qr_key(key), Seq::empty())
        } else if self.zip_confirm is Some {
            self.zip_key(key)
        } else if self.manual_path_input is Some {
            self.path_key(key)
        } else if self.manual_ip_input is Some {
            self.ip_key(key)
        } else {
            match key {
                Key::Tab => (AppView { focus: self.focus.next_spec(), ..self }, Seq::empty()),
                Key::BackTab => (
                    AppView { focus: self.focus.previous_spec(), ..self },
                    Seq::empty(),
                ),
                Key::Char(c) => if c == '?' || c == 'h' {
                    (AppView { show_help: !self.show_help, ..self }, Seq::empty())
                } else if c == 'r' {
                    (AppView { show_qr: true, show_help: false, ..self }, Seq::empty())
                } else if c == 'u' {
                    (AppView { speed_unit: self.speed_unit.toggled(), ..self }, Seq::empty())
                } else if c == 't' {
                    (
                        AppView { theme_idx: self.next_theme(), ..self }.noted(
                            "Theme: "@ + theme_at(self.next_theme() as int).name,
                            LogKind::Info,
                            clock,
                        ),
                        Seq::empty(),
                    )
                } else if c == 'm' {
                    if self.focus == Focus::MyShares {
                        (
                            AppView { manual_path_input: Some(Seq::empty()), ..self },
                            Seq::empty(),
                        )
                    } else {
                        (AppView { manual_ip_input: Some(Seq::empty()), ..self }, Seq::empty())
                    }
                } else {
                    self.panel_key(peers, shares, key, clock)
                },
                _ => self.panel_key(peers, shares, key, clock),
            }
        }
    }
}

fn goes_down(key: &Key) -> (r: bool)
    ensures
        r == is_down(*key),
{
    matches!(key, Key::Down | Key::Char('j'))
}

fn goes_up(key: &Key) -> (r: bool)
    ensures
        r == is_up(*key),
{
    matches!(key, Key::Up | Key::Char('k'))
}

fn removes(key: &Key) -> (r: bool)
    ensures
        r == is_remove(*key),
{
    matches!(key, Key::Delete | Key::Char('x'))
}

/// `before`, a name, and `behind`.
fn around(before: &str, name: &str, behind: &str) -> (r: String)
    ensures
        r@ == before@ + name@ + behind@,
{
    let mut out = before.to_owned();
    out.append(name);
    out.append(behind);
    out
}

/// The address and the port in a text that the user typed.
pub fn split_typed_address(text: &str) -> (r: (String, u16))
    ensures
        (r.0@, r.1) == typed_address(text@),
{
    if count_char(text, ':') == 1 {
        let last = text_after_last(text, ':');
        let port: u16 = match parse_decimal(last.as_str(), u16::MAX as u64) {
            Some(p) => p as u16,
            None => DEFAULT_PORT,
        };
        (text_before(text, ':'), port)
    } else {
        (text.to_owned(), DEFAULT_PORT)
    }
}

fn edit(text: &mut String, key: &Key)
    ensures
        final(text)@ == AppView::edited(old(text)@, *key),
{
    match key {
        Key::Char(c) => {
            text.push(*c);
        },
        Key::Backspace => {
            let _ = text.pop();
        },
        _ => {},
    }
}

impl App {
    /// What is listed is what the registries hold.
    proof fn lemma_lists(&self)
        requires
            self.wf(),
        ensures
            lists(self.peers.listed(), self@.peers),
            still_held(self.peers.listed(), self@.peers) == self.peers.listed(),
            still_held(self.shares.listed(), self@.shares.items) == self.shares.listed(),
            forall|k: Seq<char>| #[trigger]
                still_held(self.peers.listed(), self@.peers.remove(k)) == without(
                    self.peers.listed(),
                    k,
                ),
            forall|k: Seq<char>| #[trigger]
                still_held(self.shares.listed(), self@.shares.items.remove(k)) == without(
                    self.shares.listed(),
                    k,
                ),
    {
        let p = self.peers.listed();
        let s = self.shares.listed();
        self.peers.lemma_listed_is_held();
        self.shares.lemma_listed_is_held();
        assert forall|i: int| 0 <= i < p.len() implies self@.peers.dom().contains(
            (#[trigger] p[i]).key(),
        ) by {
            assert(self.peers@.dom().contains(p[i].key()));
        }
        assert forall|i: int| 0 <= i < s.len() implies self@.shares.items.dom().contains(
            (#[trigger] s[i]).key(),
        ) by {
            assert(self.shares@.items.dom().contains(s[i].key()));
        }
        lemma_all_held(p, self@.peers);
        lemma_all_held(s, self@.shares.items);
        assert forall|k: Seq<char>| #[trigger] still_held(p, self@.peers.remove(k)) == without(
            p,
            k,
        ) by {
            lemma_held_without(p, self@.peers, k);
        }
        assert forall|k: Seq<char>| #[trigger] still_held(s, self@.shares.items.remove(k))
            == without(s, k) by {
            lemma_held_without(s, self@.shares.items, k);
        }
    }

    fn handle_peer_list_key(&mut self, key: &Key, clock: &Clock) -> (r: Vec<Effect>)
        requires
            old(self).wf(),
        ensures
            final(self).wf(),
            final(self).shares == old(self).shares,
            final(self).peers.listed() == still_held(old(self).peers.listed(), final(self)@.peers),
            (final(self)@, views(r@)) == old(self)@.peer_list_key(
                old(self).peers.listed(),
                *key,
                *clock,
            ),
    {
        broadcast use crate::text::group_views;

        proof {
            self.lemma_lists();
        }
        let peers = self.peer_list();
        if goes_down(key) {
            if peers.len() > 0 {
                self.peer_list_state = (self.peer_list_state + 1) % peers.len();
                return self.load_peer_files();
            }
        } else if goes_up(key) {
            if peers.len() > 0 {
                self.peer_list_state = if self.peer_list_state > 0 {
                    self.peer_list_state - 1
                } else {
                    0
                };
                return self.load_peer_files();
            }
        } else if matches!(key, Key::Enter | Key::Right) {
            self.focus = Focus::PeerFiles;
            return self.load_peer_files();
        } else if removes(key) {
            if let Some(peer) = self.selected_peer() {
                if peer.manual {
                    self.peers.remove_manual(peer.addr.as_str(), peer.port);
                    if self.peer_list_state > 0 {
                        self.peer_list_state = self.peer_list_state - 1;
                    }
                    self.peer_files = Vec::new();
                    let mut message = "Removed manual peer ".to_owned();
                    message.append(endpoint(peer.addr.as_str(), peer.port).as_str());
                    self.log(message, LogKind::Info, clock);
                } else {
                    self.log(
                        "Only manually added peers can be removed".to_owned(),
                        LogKind::Warning,
                        clock,
                    );
                }
            }
        }
        Vec::new()
    }

    /// Whether a share with this id is being downloaded.
    pub fn is_already_downloading(&self, id: &str) -> (r: bool)
        ensures
            r == is_downloading(self@.active_downloads, id@),
    {
        let ghost s = views(self.active_downloads@);
        let mut i: usize = 0;
        while i < self.active_downloads.len()
            invariant
                i <= self.active_downloads@.len(),
                s == views(self.active_downloads@),
                forall|j: int| 0 <= j < i ==> !((#[trigger] s[j]).id == id@ && !s[j].done),
            decreases self.active_downloads@.len() - i,
        {
            let d = &self.active_downloads[i];
            assert(s[i as int] == d@);
            if same(d.id.as_str(), id) && !d.done {
                return true;
            }
            i += 1;
        }
        false
    }

    /// Begins to download the selected file of the selected peer.
    pub fn download_selected(&mut self, clock: &Clock) -> (r: Vec<Effect>)
        requires
            old(self).wf(),
        ensures
            final(self).wf(),
            final(self).peers == old(self).peers,
            final(self).shares == old(self).shares,
            (final(self)@, views(r@)) == old(self)@.downloading(old(self).peers.listed(), *clock),
    {
        broadcast use crate::text::group_views;

        let mut effects: Vec<Effect> = Vec::new();
        let peer = match self.selected_peer() {
            Some(p) => p,
            None => {
                return effects;
            },
        };
        if self.peer_files_state >= self.peer_files.len() {
            return effects;
        }
        let file = self.peer_files[self.peer_files_state].clone();
        assert(file@ == self@.peer_files[self.peer_files_state as int]);
        if !file.available {
            return effects;
        }
        if self.is_already_downloading(file.id.as_str()) {
            self.log(
                around("'", file.name.as_str(), "' is already downloading"),
                LogKind::Warning,
                clock,
            );
            return effects;
        }
        self.active_downloads.push(
            DownloadState {
                id: file.id.clone(),
                name: file.name.clone(),
                bytes_done: 0,
                total: file.size,
                speed_bps: Measure { bits: 0 },
                done: false,
                cancelled: false,
                retrying: false,
                paused: false,
                done_at: None,
                eta_seconds: Measure { bits: 0 },
                last_activity: clock.mono,
                pause_tx: Some(DownloadControl::Running),
            },
        );
        self.log(around("Downloading '", file.name.as_str(), "'…"), LogKind::Info, clock);
        effects.push(
            Effect::StartDownload {
                base_url: peer.http_base(),
                id: file.id.clone(),
                name: file.name.clone(),
                dir: self.config.download_dir.clone(),
            },
        );
        proof {
            assert(views(effects@) =~= old(self)@.downloading(
                old(self).peers.listed(),
                *clock,
            ).1);
        }
        effects
    }

    fn handle_peer_files_key(&mut self, key: &Key, clock: &Clock) -> (r: Vec<Effect>)
        requires
            old(self).wf(),
        ensures
            final(self).wf(),
            final(self).peers == old(self).peers,
            final(self).shares == old(self).shares,
            (final(self)@, views(r@)) == old(self)@.peer_files_key(
                old(self).peers.listed(),
                *key,
                *clock,
            ),
    {
        broadcast use crate::text::group_views;

        if goes_down(key) {
            if self.peer_files.len() > 0 {
                self.peer_files_state = (self.peer_files_state + 1) % self.peer_files.len();
            }
        } else if goes_up(key) {
            self.peer_files_state = if self.peer_files_state > 0 {
                self.peer_files_state - 1
            } else {
                0
            };
        } else if matches!(key, Key::Enter | Key::Char('d')) {
            return self.download_selected(clock);
        } else if matches!(key, Key::Left) {
            self.focus = Focus::PeerList;
        }
        Vec::new()
    }

    fn unshare_selected(&mut self, clock: &Clock) -> (r: Vec<Effect>)
        requires
            old(self).wf(),
        ensures
            final(self).wf(),
            final(self).peers == old(self).peers,
            final(self).shares.listed() == still_held(
                old(self).shares.listed(),
                final(self)@.shares.items,
            ),
            (final(self)@, views(r@)) == old(self)@.unsharing(
                old(self).shares.listed(),
                *clock,
            ),
    {
        broadcast use crate::text::group_views;

        proof {
            self.lemma_lists();
        }
        let mut effects: Vec<Effect> = Vec::new();
        let shares = self.my_shares();
        if self.my_shares_state >= shares.len() {
            return effects;
        }
        let item = shares[self.my_shares_state].clone();
        proof {
            self.shares.lemma_listed_is_held();
            let s = self.shares.listed();
            let i = self.my_shares_state as int;
            assert(s[i] == item@);
            assert(self.shares@.items.dom().contains(s[i].key()));
        }
        self.shares.remove(item.id.as_str());
        if self.my_shares_state > 0 {
            self.my_shares_state = self.my_shares_state - 1;
        }
        self.log(
            around("Removed '", item.name.as_str(), "' from shares"),
            LogKind::Info,
            clock,
        );
        if let Some(path) = item.archive_to_delete() {
            effects.push(Effect::DeleteFile { path });
        }
        effects.push(Effect::FlushIndex);
        proof {
            assert(views(effects@) =~= old(self)@.unsharing(old(self).shares.listed(), *clock).1);
        }
        effects
    }

    fn handle_my_shares_key(&mut self, key: &Key, clock: &Clock) -> (r: Vec<Effect>)
        requires
            old(self).wf(),
        ensures
            final(self).wf(),
            final(self).peers == old(self).peers,
            final(self).shares.listed() == still_held(
                old(self).shares.listed(),
                final(self)@.shares.items,
            ),
            (final(self)@, views(r@)) == old(self)@.my_shares_key(
                old(self).shares.listed(),
                *key,
                *clock,
            ),
    {
        broadcast use crate::text::group_views;

        proof {
            self.lemma_lists();
        }
        let shares = self.my_shares();
        if goes_down(key) {
            if shares.len() > 0 {
                self.my_shares_state = (self.my_shares_state + 1) % shares.len();
            }
        } else if goes_up(key) {
            self.my_shares_state = if self.my_shares_state > 0 {
                self.my_shares_state - 1
            } else {
                0
            };
        } else if removes(key) {
            return self.unshare_selected(clock);
        }
        Vec::new()
    }

    fn pause_selected(&mut self, clock: &Clock) -> (r: Vec<Effect>)
        requires
            old(self).wf(),
            old(self)@.active_downloads.len() > 0,
        ensures
            final(self).wf(),
            final(self).peers == old(self).peers,
            final(self).shares == old(self).shares,
            (final(self)@, views(r@)) == old(self)@.pausing(*clock),
    {
        broadcast use crate::text::group_views;

        let mut effects: Vec<Effect> = Vec::new();
        let n = self.active_downloads.len();
        if self.transfer_cursor >= n {
            self.transfer_cursor = n - 1;
        }
        let i = self.transfer_cursor;
        if self.active_downloads[i].done || self.active_downloads[i].cancelled {
            return effects;
        }
        let ghost d = self.active_downloads@[i as int]@;
        let paused = !self.active_downloads[i].paused;
        let control = if paused {
            DownloadControl::Paused
        } else {
            DownloadControl::Running
        };
        let dl = &mut self.active_downloads[i];
        dl.paused = paused;
        if !paused {
            dl.last_activity = clock.mono;
        }
        let told = dl.pause_tx.is_some();
        if told {
            dl.pause_tx = Some(control);
        }
        let name = dl.name.clone();
        let id = dl.id.clone();
        if told {
            effects.push(Effect::SetControl { id, control });
        }
        let verb = if paused {
            "⏸ Paused '"
        } else {
            "▶ Resumed '"
        };
        self.log(around(verb, name.as_str(), "'"), LogKind::Info, clock);
        proof {
            assert(views(effects@) =~= old(self)@.pausing(*clock).1);
        }
        effects
    }

    fn cancel_selected(&mut self, clock: &Clock) -> (r: Vec<Effect>)
        requires
            old(self).wf(),
            old(self)@.active_downloads.len() > 0,
        ensures
            final(self).wf(),
            final(self).peers == old(self).peers,
            final(self).shares == old(self).shares,
            (final(self)@, views(r@)) == old(self)@.cancelling(*clock),
    {
        broadcast use crate::text::group_views;

        let mut effects: Vec<Effect> = Vec::new();
        let n = self.active_downloads.len();
        if self.transfer_cursor >= n {
            self.transfer_cursor = n - 1;
        }
        let i = self.transfer_cursor;
        if self.active_downloads[i].done || self.active_downloads[i].cancelled {
            return effects;
        }
        let dl = &mut self.active_downloads[i];
        let told = dl.pause_tx.is_some();
        dl.pause_tx = None;
        dl.cancelled = true;
        dl.done_at = Some(clock.mono);
        let name = dl.name.clone();
        let id = dl.id.clone();
        if told {
            effects.push(
                Effect::SetControl { id: id.clone(), control: DownloadControl::Cancelled },
            );
            effects.push(Effect::CloseControl { id });
        }
        self.log(around("✖ Cancelled '", name.as_str(), "'"), LogKind::Warning, clock);
        proof {
            assert(views(effects@) =~= old(self)@.cancelling(*clock).1);
        }
        effects
    }

    fn handle_transfers_key(&mut self, key: &Key, clock: &Clock) -> (r: Vec<Effect>)
        requires
            old(self).wf(),
        ensures
            final(self).wf(),
            final(self).peers == old(self).peers,
            final(self).shares == old(self).shares,
            (final(self)@, views(r@)) == old(self)@.transfers_key(*key, *clock),
    {
        broadcast use crate::text::group_views;

        let n = self.active_downloads.len();
        if n == 0 {
            return Vec::new();
        }
        if goes_up(key) {
            if self.transfer_cursor > 0 {
                self.transfer_cursor = self.transfer_cursor - 1;
            }
        } else if goes_down(key) {
            if self.transfer_cursor + 1 < n {
                self.transfer_cursor = self.transfer_cursor + 1;
            }
        } else if matches!(key, Key::Char('p') | Key::Char(' ')) {
            return self.pause_selected(clock);
        } else if matches!(key, Key::Char('c') | Key::Delete) {
            return self.cancel_selected(clock);
        }
        Vec::new()
    }

    fn handle_zip_key(&mut self, key: &Key) -> (r: Vec<Effect>)
        requires
            old(self).wf(),
            old(self).zip_confirm is Some,
        ensures
            final(self).wf(),
            final(self).peers == old(self).peers,
            final(self).shares == old(self).shares,
            (final(self)@, views(r@)) == old(self)@.zip_key(*key),
    {
        broadcast use crate::text::group_views;

        let mut effects: Vec<Effect> = Vec::new();
        let path = match &self.zip_confirm {
            Some(req) => req.path.clone(),
            None => {
                return effects;
            },
        };
        if matches!(key, Key::Char('y') | Key::Char('Y')) {
            self.zip_confirm = None;
            effects.push(Effect::AnswerZip { path, zip: true });
        } else if matches!(key, Key::Char('n') | Key::Char('N')) {
            self.zip_confirm = None;
            effects.push(Effect::AnswerZip { path, zip: false });
        } else if matches!(key, Key::Esc) {
            self.zip_confirm = None;
        }
        proof {
            assert(views(effects@) =~= old(self)@.zip_key(*key).1);
        }
        effects
    }

    fn handle_path_key(&mut self, key: &Key) -> (r: Vec<Effect>)
        requires
            old(self).wf(),
            old(self).manual_path_input is Some,
        ensures
            final(self).wf(),
            final(self).peers == old(self).peers,
            final(self).shares == old(self).shares,
            (final(self)@, views(r@)) == old(self)@.path_key(*key),
    {
        broadcast use crate::text::group_views;

        let mut effects: Vec<Effect> = Vec::new();
        let mut text = match self.manual_path_input.take() {
            Some(t) => t,
            None => {
                return effects;
            },
        };
        if matches!(key, Key::Enter) {
            effects.push(Effect::AddPath { text });
        } else if !matches!(key, Key::Esc) {
            edit(&mut text, key);
            self.manual_path_input = Some(text);
        }
        proof {
            assert(views(effects@) =~= old(self)@.path_key(*key).1);
        }
        effects
    }

    fn handle_ip_key(&mut self, key: &Key) -> (r: Vec<Effect>)
        requires
            old(self).wf(),
            old(self).manual_ip_input is Some,
        ensures
            final(self).wf(),
            final(self).peers == old(self).peers,
            final(self).shares == old(self).shares,
            (final(self)@, views(r@)) == old(self)@.ip_key(*key),
    {
        broadcast use crate::text::group_views;

        let mut effects: Vec<Effect> = Vec::new();
        let mut text = match self.manual_ip_input.take() {
            Some(t) => t,
            None => {
                return effects;
            },
        };
        if matches!(key, Key::Enter) {
            let (address, port) = split_typed_address(text.as_str());
            effects.push(Effect::ResolveAddress { text: address, port });
        } else if !matches!(key, Key::Esc) {
            edit(&mut text, key);
            self.manual_ip_input = Some(text);
        }
        proof {
            assert(views(effects@) =~= old(self)@.ip_key(*key).1);
        }
        effects
    }

    fn handle_panel_key(&mut self, key: &Key, clock: &Clock) -> (r: Vec<Effect>)
        requires
            old(self).wf(),
        ensures
            final(self).wf(),
            final(self).peers.listed() == still_held(old(self).peers.listed(), final(self)@.peers),
            final(self).shares.listed() == still_held(
                old(self).shares.listed(),
                final(self)@.shares.items,
            ),
            (final(self)@, views(r@)) == old(self)@.panel_key(
                old(self).peers.listed(),
                old(self).shares.listed(),
                *key,
                *clock,
            ),
    {
        proof {
            self.lemma_lists();
        }
        match self.focus {
            Focus::PeerList => self.handle_peer_list_key(key, clock),
            Focus::PeerFiles => self.handle_peer_files_key(key, clock),
            Focus::MyShares => self.handle_my_shares_key(key, clock),
            Focus::Transfers => self.handle_transfers_key(key, clock),
        }
    }

    /// The text that the user types.
    pub fn typing(&self) -> (r: Typing)
        ensures
            r == self@.typing(),
    {
        if self.manual_path_input.is_some() && !self.show_qr && self.zip_confirm.is_none() {
            Typing::Path
        } else if self.manual_ip_input.is_some() {
            Typing::Address
        } else {
            Typing::Nothing
        }
    }

    /// Takes a key.
    pub fn handle_key(&mut self, key: Key, clock: &Clock) -> (r: Vec<Effect>)
        requires
            old(self).wf(),
        ensures
            final(self).wf(),
            final(self).peers.listed() == still_held(old(self).peers.listed(), final(self)@.peers),
            final(self).shares.listed() == still_held(
                old(self).shares.listed(),
                final(self)@.shares.items,
            ),
            final(self)@.peers == old(self)@.peers ==> final(self).peers.listed() == old(
                self,
            ).peers.listed(),
            final(self)@.shares.items == old(self)@.shares.items ==> final(self).shares.listed()
                == old(self).shares.listed(),
            (final(self)@, views(r@)) == old(self)@.key(
                old(self).peers.listed(),
                old(self).shares.listed(),
                key,
                *clock,
            ),
    {
        broadcast use crate::text::group_views;

        proof {
            self.lemma_lists();
        }
        if self.show_qr {
            if matches!(key, Key::Esc | Key::Char('r') | Key::Char('q')) {
                self.show_qr = false;
            }
            return Vec::new();
        }
        if self.zip_confirm.is_some() {
            return self.handle_zip_key(&key);
        }
        if self.manual_path_input.is_some() {
            return self.handle_path_key(&key);
        }
        if self.manual_ip_input.is_some() {
            return self.handle_ip_key(&key);
        }
        match key {
            Key::Tab => {
                self.focus = self.focus.next();
            },
            Key::BackTab => {
                self.focus = self.focus.previous();
            },
            Key::Char(c) => {
                if c == '?' || c == 'h' {
                    self.show_help = !self.show_help;
                } else if c == 'r' {
                    self.show_qr = true;
                    self.show_help = false;
                } else if c == 'u' {
                    self.speed_unit = self.speed_unit.toggle();
                } else if c == 't' {
                    self.theme_idx = (self.theme_idx + 1) % THEME_COUNT;
                    let mut message = "Theme: ".to_owned();
                    message.append(theme(self.theme_idx).name);
                    self.log(message, LogKind::Info, clock);
                } else if c == 'm' {
                    if matches!(self.focus, Focus::MyShares) {
                        self.manual_path_input = Some(String::new());
                    } else {
                        self.manual_ip_input = Some(String::new());
                    }
                } else {
                    return self.handle_panel_key(&key, clock);
                }
            },
            _ => {
                return self.handle_panel_key(&key, clock);
            },
        }
        Vec::new()
    }
}

// ---------------------------------------------------------------------------
// Downloads
// ---------------------------------------------------------------------------

/// A download that is taken up again.
pub open spec fn retried(d: DownloadStateView, now: u64) -> DownloadStateView {
    DownloadStateView { retrying: true, last_activity: now, ..d }
}

/// A download that has come further.
pub open spec fn progressed(d: DownloadStateView, p: DownloadProgress, now: u64) -> DownloadStateView {
    DownloadStateView {
        bytes_done: p.bytes_downloaded,
        total: p.total_bytes,
        speed_bps: p.speed_bps,
        eta_seconds: p.eta_seconds,
        retrying: false,
        last_activity: now,
        ..d
    }
}

/// A download that is complete, and is shown as such also where its size was
/// never known.
pub open spec fn completed(d: DownloadStateView, now: u64) -> DownloadStateView {
    let total = if d.total == 0 {
        1
    } else {
        d.total
    };
    DownloadStateView { done: true, pause_tx: None, done_at: Some(now), total, bytes_done: total, ..d }
}

/// What is noted of a verdict on the bytes of a file.
pub open spec fn verdict_note(checksum_ok: Option<bool>) -> Seq<char> {
    match checksum_ok {
        Some(true) => " ✓ checksum ok"@,
        Some(false) => " ⚠ checksum MISMATCH"@,
        None => ""@,
    }
}

/// The requests that follow when a download is told nothing more.
pub open spec fn closing(d: DownloadStateView) -> Seq<EffectView> {
    if d.pause_tx is Some {
        seq![EffectView::CloseControl { id: d.id }]
    } else {
        Seq::empty()
    }
}

/// The requests that follow when the downloads with an id are no longer shown.
pub open spec fn closing_keyed(s: Seq<DownloadStateView>, id: Seq<char>) -> Seq<EffectView>
    decreases s.len(),
{
    if s.len() == 0 {
        Seq::empty()
    } else if s.last().id == id {
        closing_keyed(s.drop_last(), id) + closing(s.last())
    } else {
        closing_keyed(s.drop_last(), id)
    }
}

impl AppView {
    /// After a download with this id is taken up again.
    pub open spec fn download_retrying(self, id: Seq<char>, attempt: u32, clock: Clock) -> Step {
        match first_keyed(self.active_downloads, id) {
            Some(i) => {
                let d = self.active_downloads[i];
                (
                    AppView {
                        active_downloads: self.active_downloads.update(i, retried(d, clock.mono)),
                        ..self
                    }.noted(
                        "Connection lost, retrying '"@ + d.name + "' (attempt "@ + decimal_text(
                            attempt as nat,
                        ) + "/"@ + decimal_text(crate::client::MAX_RETRIES as nat) + ")..."@,
                        LogKind::Warning,
                        clock,
                    ),
                    Seq::empty(),
                )
            },
            None => (self, Seq::empty()),
        }
    }

    /// After a download with this id has come further.
    pub open spec fn download_progress(
        self,
        id: Seq<char>,
        p: DownloadProgress,
        clock: Clock,
    ) -> Step {
        match first_keyed(self.active_downloads, id) {
            Some(i) => (
                AppView {
                    active_downloads: self.active_downloads.update(
                        i,
                        progressed(self.active_downloads[i], p, clock.mono),
                    ),
                    ..self
                },
                Seq::empty(),
            ),
            None => (self, Seq::empty()),
        }
    }

    /// After a download with this id has ended well. One that was given up
    /// before stays so.
    pub open spec fn download_done(self, id: Seq<char>, r: DownloadResult, clock: Clock) -> Step {
        match first_keyed(self.active_downloads, id) {
            Some(i) => {
                let d = self.active_downloads[i];
                if d.cancelled {
                    (self, Seq::empty())
                } else {
                    (
                        AppView {
                            active_downloads: self.active_downloads.update(
                                i,
                                completed(d, clock.mono),
                            ),
                            ..self
                        }.noted(
                            "✓ Downloaded '"@ + d.name + "' → "@ + path_text(r.path)
                                + verdict_note(r.checksum_ok),
                            if r.checksum_ok == Some(false) {
                                LogKind::Warning
                            } else {
                                LogKind::Success
                            },
                            clock,
                        ),
                        closing(d),
                    )
                }
            },
            None => (self, Seq::empty()),
        }
    }

    /// After a download with this id has failed: it is no longer shown.
    pub open spec fn download_error(self, id: Seq<char>, error: Seq<char>, clock: Clock) -> Step {
        let noted = match first_keyed(self.active_downloads, id) {
            Some(i) => self.noted(
                "✗ Download '"@ + self.active_downloads[i].name + "' failed: "@ + error,
                LogKind::Warning,
                clock,
            ),
            None => self,
        };
        (
            AppView { active_downloads: without(self.active_downloads, id), ..noted },
            closing_keyed(self.active_downloads, id),
        )
    }
}

impl App {
    fn find_download(&self, id: &str) -> (r: Option<usize>)
        ensures
            match r {
                Some(i) => i < self.active_downloads@.len() && first_keyed(
                    self@.active_downloads,
                    id@,
                ) == Some(i as int),
                None => first_keyed(self@.active_downloads, id@) is None,
            },
    {
        let ghost s = views(self.active_downloads@);
        let mut i: usize = 0;
        while i < self.active_downloads.len()
            invariant
                i <= self.active_downloads@.len(),
                s == views(self.active_downloads@),
                forall|j: int| 0 <= j < i ==> (#[trigger] s[j]).key() != id@,
            decreases self.active_downloads@.len() - i,
        {
            assert(s[i as int] == self.active_downloads@[i as int]@);
            if same(self.active_downloads[i].id.as_str(), id) {
                proof {
                    lemma_is_first_keyed(s, id@, i as int);
                }
                return Some(i);
            }
            i += 1;
        }
        proof {
            lemma_none_keyed(s, id@);
        }
        None
    }

    fn on_download_retrying(&mut self, id: &str, attempt: u32, clock: &Clock) -> (r: Vec<Effect>)
        requires
            old(self).wf(),
        ensures
            final(self).wf(),
            final(self).peers == old(self).peers,
            final(self).shares == old(self).shares,
            (final(self)@, views(r@)) == old(self)@.download_retrying(id@, attempt, *clock),
    {
        broadcast use crate::text::group_views;

        if let Some(i) = self.find_download(id) {
            let dl = &mut self.active_downloads[i];
            dl.retrying = true;
            dl.last_activity = clock.mono;
            let mut message = "Connection lost, retrying '".to_owned();
            message.append(dl.name.as_str());
            message.append("' (attempt ");
            message.append(decimal(attempt as u64).as_str());
            message.append("/");
            message.append(decimal(crate::client::MAX_RETRIES as u64).as_str());
            message.append(")...");
            self.log(message, LogKind::Warning, clock);
        }
        Vec::new()
    }

    fn on_download_progress(&mut self, id: &str, p: &DownloadProgress, clock: &Clock) -> (r: Vec<
        Effect,
    >)
        requires
            old(self).wf(),
        ensures
            final(self).wf(),
            final(self).peers == old(self).peers,
            final(self).shares == old(self).shares,
            (final(self)@, views(r@)) == old(self)@.download_progress(id@, *p, *clock),
    {
        broadcast use crate::text::group_views;

        if let Some(i) = self.find_download(id) {
            let dl = &mut self.active_downloads[i];
            dl.bytes_done = p.bytes_downloaded;
            dl.total = p.total_bytes;
            dl.speed_bps = p.speed_bps;
            dl.eta_seconds = p.eta_seconds;
            dl.retrying = false;
            dl.last_activity = clock.mono;
        }
        Vec::new()
    }

    fn on_download_done(&mut self, id: &str, result: &DownloadResult, clock: &Clock) -> (r: Vec<
        Effect,
    >)
        requires
            old(self).wf(),
        ensures
            final(self).wf(),
            final(self).peers == old(self).peers,
            final(self).shares == old(self).shares,
            (final(self)@, views(r@)) == old(self)@.download_done(id@, *result, *clock),
    {
        broadcast use crate::text::group_views;

        let mut effects: Vec<Effect> = Vec::new();
        if let Some(i) = self.find_download(id) {
            if self.active_downloads[i].cancelled {
                return effects;
            }
            let dl = &mut self.active_downloads[i];
            let told = dl.pause_tx.is_some();
            dl.done = true;
            dl.pause_tx = None;
            dl.done_at = Some(clock.mono);
            if dl.total == 0 {
                dl.total = 1;
            }
            dl.bytes_done = dl.total;
            let note = match result.checksum_ok {
                Some(true) => " ✓ checksum ok",
                Some(false) => " ⚠ checksum MISMATCH",
                None => "",
            };
            let mut message = "✓ Downloaded '".to_owned();
            message.append(dl.name.as_str());
            message.append("' → ");
            message.append(display_path(&result.path).as_str());
            message.append(note);
            let kind = match result.checksum_ok {
                Some(false) => LogKind::Warning,
                _ => LogKind::Success,
            };
            if told {
                effects.push(Effect::CloseControl { id: dl.id.clone() });
            }
            self.log(message, kind, clock);
            proof {
                assert(views(effects@) =~= old(self)@.download_done(id@, *result, *clock).1);
            }
        }
        effects
    }

    fn drop_downloads(&mut self, id: &str) -> (r: Vec<Effect>)
        requires
            old(self).wf(),
        ensures
            final(self).wf(),
            final(self).peers == old(self).peers,
            final(self).shares == old(self).shares,
            final(self)@ == (AppView {
                active_downloads: without(old(self)@.active_downloads, id@),
                ..old(self)@
            }),
            views(r@) == closing_keyed(old(self)@.active_downloads, id@),
    {
        broadcast use crate::text::group_views;

        let ghost s = views(self.active_downloads@);
        let ghost whole = self@;
        let mut effects: Vec<Effect> = Vec::new();
        let mut i: usize = 0;
        let ghost mut j: int = 0;
        assert(s.take(0) =~= Seq::<DownloadStateView>::empty());
        assert(s.skip(0) =~= s);
        while i < self.active_downloads.len()
            invariant
                0 <= j <= s.len(),
                i == without(s.take(j), id@).len(),
                views(self.active_downloads@) =~= without(s.take(j), id@) + s.skip(j),
                views(effects@) =~= closing_keyed(s.take(j), id@),
                self.wf(),
                self.peers == old(self).peers,
                self.shares == old(self).shares,
                self@ == (AppView { active_downloads: self@.active_downloads, ..whole }),
            decreases self.active_downloads@.len() - i,
        {
            let ghost before = views(self.active_downloads@);
            proof {
                assert(before[i as int] == s.skip(j)[0]);
                assert(s.take(j + 1).drop_last() =~= s.take(j));
                assert(self.active_downloads@[i as int]@ == s[j]);
                assert(s.skip(j) =~= seq![s[j]] + s.skip(j + 1));
            }
            if same(self.active_downloads[i].id.as_str(), id) {
                if self.active_downloads[i].pause_tx.is_some() {
                    effects.push(
                        Effect::CloseControl { id: self.active_downloads[i].id.clone() },
                    );
                }
                let _ = self.active_downloads.remove(i);
                assert(views(self.active_downloads@) =~= before.remove(i as int));
            } else {
                i += 1;
            }
            proof {
                j = j + 1;
            }
        }
        proof {
            assert(s.skip(j).len() == 0);
            assert(s.take(j) =~= s);
        }
        effects
    }

    fn on_download_error(&mut self, id: &str, error: &str, clock: &Clock) -> (r: Vec<Effect>)
        requires
            old(self).wf(),
        ensures
            final(self).wf(),
            final(self).peers == old(self).peers,
            final(self).shares == old(self).shares,
            (final(self)@, views(r@)) == old(self)@.download_error(id@, error@, *clock),
    {
        broadcast use crate::text::group_views;

        if let Some(i) = self.find_download(id) {
            let mut message = "✗ Download '".to_owned();
            message.append(self.active_downloads[i].name.as_str());
            message.append("' failed: ");
            message.append(error);
            self.log(message, LogKind::Warning, clock);
        }
        self.drop_downloads(id)
    }
}

// ---------------------------------------------------------------------------
// Uploads
// ---------------------------------------------------------------------------

/// `a - b`, or 0 where `b` is larger.
pub open spec fn less(a: u64, b: u64) -> u64 {
    if a >= b {
        (a - b) as u64
    } else {
        0
    }
}

fn less_by(a: u64, b: u64) -> (r: u64)
    ensures
        r == less(a, b),
{
    if a >= b {
        a - b
    } else {
        0
    }
}

/// An upload that is first heard of when so much of it was sent.
pub open spec fn new_upload(
    id: Seq<char>,
    name: Seq<char>,
    bytes_sent: u64,
    total: u64,
    now: u64,
) -> UploadStateView {
    let done = total > 0 && bytes_sent >= total;
    UploadStateView {
        id,
        name,
        bytes_sent,
        total,
        speed_bps: Measure { bits: 0 },
        done,
        cancelled: false,
        done_at: if done {
            Some(now)
        } else {
            None
        },
        last_bytes: bytes_sent,
        last_tick: now,
        eta_seconds: Measure { bits: 0 },
        smoothed_speed: Measure { bits: 0 },
        last_display_update: now,
    }
}

/// An upload of which so much was sent.
pub open spec fn sent(u: UploadStateView, bytes_sent: u64, total: u64, now: u64) -> UploadStateView {
    let finishes = total > 0 && bytes_sent >= total && !u.done;
    UploadStateView {
        last_bytes: bytes_sent,
        last_tick: now,
        bytes_sent,
        total,
        done: u.done || finishes,
        done_at: if finishes {
            Some(now)
        } else {
            u.done_at
        },
        ..u
    }
}

/// An upload that is complete.
pub open spec fn upload_completed(u: UploadStateView, now: u64) -> UploadStateView {
    UploadStateView { done: true, done_at: Some(now), bytes_sent: u.total, ..u }
}

/// What is known of the speed of an upload of which so much was sent.
pub open spec fn upload_sample(u: UploadStateView, bytes_sent: u64, total: u64, now: u64) -> SpeedSample {
    SpeedSample {
        bytes: less(bytes_sent, u.last_bytes),
        nanos: less(now, u.last_tick),
        smoothed: u.smoothed_speed,
        total,
        done: bytes_sent,
    }
}

/// An upload whose speed was estimated. What is shown changes only now and
/// then.
pub open spec fn upload_estimated(u: UploadStateView, smoothed: Measure, eta: Measure, now: u64) -> UploadStateView {
    if elapsed_millis(now, u.last_display_update) >= DISPLAY_INTERVAL_MS {
        UploadStateView {
            smoothed_speed: smoothed,
            speed_bps: smoothed,
            eta_seconds: eta,
            last_display_update: now,
            ..u
        }
    } else {
        UploadStateView { smoothed_speed: smoothed, ..u }
    }
}

/// The place of the first upload of this name that is not complete.
pub open spec fn first_unfinished(s: Seq<UploadStateView>, name: Seq<char>) -> Option<int>
    decreases s.len(),
{
    if s.len() == 0 {
        None
    } else {
        match first_unfinished(s.drop_last(), name) {
            Some(i) => Some(i),
            None => if s.last().name == name && !s.last().done {
                Some(s.len() - 1)
            } else {
                None
            },
        }
    }
}

proof fn lemma_first_unfinished(s: Seq<UploadStateView>, name: Seq<char>, n: int)
    requires
        0 <= n <= s.len(),
        first_unfinished(s.take(n), name) is Some,
    ensures
        first_unfinished(s, name) == first_unfinished(s.take(n), name),
    decreases s.len(),
{
    if n == s.len() {
        assert(s.take(n) =~= s);
    } else {
        assert(s.drop_last().take(n) =~= s.take(n));
        lemma_first_unfinished(s.drop_last(), name, n);
    }
}

/// A browser's upload that has just begun.
pub open spec fn new_web_upload(
    transfer_id: Seq<char>,
    name: Seq<char>,
    total: u64,
    by_addr: Seq<char>,
    now: u64,
) -> WebUploadStateView {
    WebUploadStateView {
        transfer_id,
        name,
        bytes_received: 0,
        total,
        speed_bps: Measure { bits: 0 },
        smoothed_speed: Measure { bits: 0 },
        eta_seconds: Measure { bits: 0 },
        done: false,
        failed: false,
        done_at: None,
        last_bytes: 0,
        last_tick: now,
        last_display_update: now,
        by_addr,
    }
}

/// A browser's upload of which so much was received.
pub open spec fn received(
    w: WebUploadStateView,
    bytes_received: u64,
    total: u64,
    now: u64,
) -> WebUploadStateView {
    WebUploadStateView {
        last_bytes: bytes_received,
        last_tick: now,
        bytes_received,
        total: if total > 0 {
            total
        } else {
            w.total
        },
        ..w
    }
}

/// What is known of the speed of a browser's upload of which so much was
/// received.
pub open spec fn web_sample(
    w: WebUploadStateView,
    bytes_received: u64,
    total: u64,
    now: u64,
) -> SpeedSample {
    SpeedSample {
        bytes: less(bytes_received, w.last_bytes),
        nanos: less(now, w.last_tick),
        smoothed: w.smoothed_speed,
        total: if total > 0 {
            total
        } else {
            w.total
        },
        done: bytes_received,
    }
}

/// A browser's upload whose speed was estimated.
pub open spec fn web_estimated(
    w: WebUploadStateView,
    smoothed: Measure,
    eta: Measure,
    now: u64,
) -> WebUploadStateView {
    if elapsed_millis(now, w.last_display_update) >= DISPLAY_INTERVAL_MS {
        WebUploadStateView {
            smoothed_speed: smoothed,
            speed_bps: smoothed,
            eta_seconds: eta,
            last_display_update: now,
            ..w
        }
    } else {
        WebUploadStateView { smoothed_speed: smoothed, ..w }
    }
}

/// A browser's upload that is complete.
pub open spec fn web_completed(w: WebUploadStateView, now: u64) -> WebUploadStateView {
    WebUploadStateView {
        done: true,
        done_at: Some(now),
        bytes_received: if w.total > 0 {
            w.total
        } else {
            w.bytes_received
        },
        ..w
    }
}

/// A browser's upload that has failed.
pub open spec fn web_failed(w: WebUploadStateView, now: u64) -> WebUploadStateView {
    WebUploadStateView { failed: true, done_at: Some(now), ..w }
}

impl AppView {
    /// The name of a share, or its id where it is no longer shared.
    pub open spec fn share_name(self, id: Seq<char>) -> Seq<char> {
        if self.shares.items.dom().contains(id) {
            self.shares.items[id].name
        } else {
            id
        }
    }

    /// After so much of a share was sent to a peer.
    pub open spec fn upload_progress(
        self,
        id: Seq<char>,
        bytes_sent: u64,
        total: u64,
        clock: Clock,
    ) -> Step {
        match first_keyed(self.active_uploads, id) {
            Some(i) => {
                let u = self.active_uploads[i];
                (
                    AppView {
                        active_uploads: self.active_uploads.update(
                            i,
                            sent(u, bytes_sent, total, clock.mono),
                        ),
                        ..self
                    },
                    seq![
                        EffectView::Estimate {
                            upload: UploadKind::Peer,
                            id,
                            sample: upload_sample(u, bytes_sent, total, clock.mono),
                        },
                    ],
                )
            },
            None => (
                AppView {
                    active_uploads: self.active_uploads.push(
                        new_upload(id, self.share_name(id), bytes_sent, total, clock.mono),
                    ),
                    ..self
                },
                Seq::empty(),
            ),
        }
    }

    /// After all of a share was sent to a peer.
    pub open spec fn upload_done(self, id: Seq<char>, clock: Clock) -> Step {
        match first_keyed(self.active_uploads, id) {
            Some(i) => (
                AppView {
                    active_uploads: self.active_uploads.update(
                        i,
                        upload_completed(self.active_uploads[i], clock.mono),
                    ),
                    ..self
                },
                Seq::empty(),
            ),
            None => (self, Seq::empty()),
        }
    }

    /// After someone has sent a file to this host.
    pub open spec fn uploaded(self, name: Seq<char>, by_addr: Seq<char>, clock: Clock) -> Step {
        let noted = self.noted(
            "⬆ '"@ + name + "' uploaded by "@ + by_addr,
            LogKind::Success,
            clock,
        );
        match first_unfinished(self.active_uploads, name) {
            Some(i) => (
                AppView {
                    active_uploads: self.active_uploads.update(
                        i,
                        upload_completed(self.active_uploads[i], clock.mono),
                    ),
                    ..noted
                },
                Seq::empty(),
            ),
            None => (noted, Seq::empty()),
        }
    }

    /// After a browser has begun to send a file.
    pub open spec fn web_started(
        self,
        transfer_id: Seq<char>,
        filename: Seq<char>,
        total: u64,
        by_addr: Seq<char>,
        clock: Clock,
    ) -> Step {
        let noted = self.noted(
            "⬆ '"@ + filename + "' upload started from "@ + by_addr,
            LogKind::Info,
            clock,
        );
        (
            AppView {
                web_uploads: self.web_uploads.push(
                    new_web_upload(transfer_id, filename, total, by_addr, clock.mono),
                ),
                ..noted
            },
            Seq::empty(),
        )
    }

    /// After so much of a browser's file was received.
    pub open spec fn web_progress(
        self,
        transfer_id: Seq<char>,
        bytes_received: u64,
        total: u64,
        clock: Clock,
    ) -> Step {
        match first_keyed(self.web_uploads, transfer_id) {
            Some(i) => {
                let w = self.web_uploads[i];
                (
                    AppView {
                        web_uploads: self.web_uploads.update(
                            i,
                            received(w, bytes_received, total, clock.mono),
                        ),
                        ..self
                    },
                    seq![
                        EffectView::Estimate {
                            upload: UploadKind::Web,
                            id: transfer_id,
                            sample: web_sample(w, bytes_received, total, clock.mono),
                        },
                    ],
                )
            },
            None => (self, Seq::empty()),
        }
    }

    /// After a browser's file was stored.
    pub open spec fn web_finished(self, transfer_id: Seq<char>, clock: Clock) -> Step {
        match first_keyed(self.web_uploads, transfer_id) {
            Some(i) => {
                let w = self.web_uploads[i];
                (
                    AppView {
                        web_uploads: self.web_uploads.update(i, web_completed(w, clock.mono)),
                        ..self
                    }.noted(
                        "✔ '"@ + w.name + "' received from "@ + w.by_addr + " via web UI"@,
                        LogKind::Success,
                        clock,
                    ),
                    Seq::empty(),
                )
            },
            None => (self, Seq::empty()),
        }
    }

    /// After a browser's file could not be taken in.
    pub open spec fn web_failing(self, transfer_id: Seq<char>, clock: Clock) -> Step {
        match first_keyed(self.web_uploads, transfer_id) {
            Some(i) => {
                let w = self.web_uploads[i];
                (
                    AppView {
                        web_uploads: self.web_uploads.update(i, web_failed(w, clock.mono)),
                        ..self
                    }.noted(
                        "✗ '"@ + w.name + "' upload from "@ + w.by_addr + " failed"@,
                        LogKind::Warning,
                        clock,
                    ),
                    Seq::empty(),
                )
            },
            None => (self, Seq::empty()),
        }
    }

    /// After the speed of an upload was estimated.
    pub open spec fn estimated(
        self,
        upload: UploadKind,
        id: Seq<char>,
        smoothed: Measure,
        eta: Measure,
        clock: Clock,
    ) -> Step {
        match upload {
            UploadKind::Peer => match first_keyed(self.active_uploads, id) {
                Some(i) => (
                    AppView {
                        active_uploads: self.active_uploads.update(
                            i,
                            upload_estimated(self.active_uploads[i], smoothed, eta, clock.mono),
                        ),
                        ..self
                    },
                    Seq::empty(),
                ),
                None => (self, Seq::empty()),
            },
            UploadKind::Web => match first_keyed(self.web_uploads, id) {
                Some(i) => (
                    AppView {
                        web_uploads: self.web_uploads.update(
                            i,
                            web_estimated(self.web_uploads[i], smoothed, eta, clock.mono),
                        ),
                        ..self
                    },
                    Seq::empty(),
                ),
                None => (self, Seq::empty()),
            },
        }
    }

    /// After something happened while this host answered.
    pub open spec fn server_event(self, event: ServerEvent, clock: Clock) -> Step {
        match event {
            ServerEvent::Downloaded { item_name, by_addr } => (
                self.noted(
                    "⬇ '"@ + item_name@ + "' downloaded by "@ + by_addr@,
                    LogKind::Download,
                    clock,
                ),
                Seq::empty(),
            ),
            ServerEvent::Uploaded { item_name, by_addr } => self.uploaded(
                item_name@,
                by_addr@,
                clock,
            ),
            ServerEvent::UploadProgress { item_id, bytes_sent, total } => self.upload_progress(
                item_id@,
                bytes_sent,
                total,
                clock,
            ),
            ServerEvent::UploadDone { item_id } => self.upload_done(item_id@, clock),
            ServerEvent::Deleted { item_name } => (
                self.noted(
                    "🗑 '"@ + item_name@ + "' deleted via web UI"@,
                    LogKind::Warning,
                    clock,
                ),
                Seq::empty(),
            ),
            ServerEvent::WebUploadStarted { transfer_id, filename, total, by_addr } => {
                self.web_started(transfer_id@, filename@, total, by_addr@, clock)
            },
            ServerEvent::WebUploadProgress { transfer_id, bytes_received, total } => {
                self.web_progress(transfer_id@, bytes_received, total, clock)
            },
            ServerEvent::WebUploadFinished { transfer_id } => self.web_finished(
                transfer_id@,
                clock,
            ),
            ServerEvent::WebUploadFailed { transfer_id } => self.web_failing(transfer_id@, clock),
        }
    }
}

impl App {
    fn find_upload(&self, id: &str) -> (r: Option<usize>)
        ensures
            match r {
                Some(i) => i < self.active_uploads@.len() && first_keyed(
                    self@.active_uploads,
                    id@,
                ) == Some(i as int),
                None => first_keyed(self@.active_uploads, id@) is None,
            },
    {
        let ghost s = views(self.active_uploads@);
        let mut i: usize = 0;
        while i < self.active_uploads.len()
            invariant
                i <= self.active_uploads@.len(),
                s == views(self.active_uploads@),
                forall|j: int| 0 <= j < i ==> (#[trigger] s[j]).key() != id@,
            decreases self.active_uploads@.len() - i,
        {
            assert(s[i as int] == self.active_uploads@[i as int]@);
            if same(self.active_uploads[i].id.as_str(), id) {
                proof {
                    lemma_is_first_keyed(s, id@, i as int);
                }
                return Some(i);
            }
            i += 1;
        }
        proof {
            lemma_none_keyed(s, id@);
        }
        None
    }

    fn find_unfinished(&self, name: &str) -> (r: Option<usize>)
        ensures
            match r {
                Some(i) => i < self.active_uploads@.len() && first_unfinished(
                    self@.active_uploads,
                    name@,
                ) == Some(i as int),
                None => first_unfinished(self@.active_uploads, name@) is None,
            },
    {
        let ghost s = views(self.active_uploads@);
        let mut i: usize = 0;
        while i < self.active_uploads.len()
            invariant
                i <= self.active_uploads@.len(),
                s == views(self.active_uploads@),
                first_unfinished(s.take(i as int), name@) is None,
            decreases self.active_uploads@.len() - i,
        {
            let u = &self.active_uploads[i];
            proof {
                assert(s[i as int] == u@);
                assert(s.take(i + 1).drop_last() =~= s.take(i as int));
            }
            if same(u.name.as_str(), name) && !u.done {
                proof {
                    lemma_first_unfinished(s, name@, i + 1);
                }
                return Some(i);
            }
            i += 1;
        }
        assert(s.take(i as int) =~= s);
        None
    }

    fn find_web_upload(&self, id: &str) -> (r: Option<usize>)
        ensures
            match r {
                Some(i) => i < self.web_uploads@.len() && first_keyed(self@.web_uploads, id@)
                    == Some(i as int),
                None => first_keyed(self@.web_uploads, id@) is None,
            },
    {
        let ghost s = views(self.web_uploads@);
        let mut i: usize = 0;
        while i < self.web_uploads.len()
            invariant
                i <= self.web_uploads@.len(),
                s == views(self.web_uploads@),
                forall|j: int| 0 <= j < i ==> (#[trigger] s[j]).key() != id@,
            decreases self.web_uploads@.len() - i,
        {
            assert(s[i as int] == self.web_uploads@[i as int]@);
            if same(self.web_uploads[i].transfer_id.as_str(), id) {
                proof {
                    lemma_is_first_keyed(s, id@, i as int);
                }
                return Some(i);
            }
            i += 1;
        }
        proof {
            lemma_none_keyed(s, id@);
        }
        None
    }

    fn on_upload_progress(&mut self, id: String, bytes_sent: u64, total: u64, clock: &Clock) -> (r:
        Vec<Effect>)
        requires
            old(self).wf(),
        ensures
            final(self).wf(),
            final(self).peers == old(self).peers,
            final(self).shares == old(self).shares,
            (final(self)@, views(r@)) == old(self)@.upload_progress(
                id@,
                bytes_sent,
                total,
                *clock,
            ),
    {
        broadcast use crate::text::group_views;

        let mut effects: Vec<Effect> = Vec::new();
        let now = clock.mono;
        match self.find_upload(id.as_str()) {
            Some(i) => {
                let ul = &mut self.active_uploads[i];
                let sample = SpeedSample {
                    bytes: less_by(bytes_sent, ul.last_bytes),
                    nanos: less_by(now, ul.last_tick),
                    smoothed: ul.smoothed_speed,
                    total,
                    done: bytes_sent,
                };
                ul.last_bytes = bytes_sent;
                ul.last_tick = now;
                ul.bytes_sent = bytes_sent;
                ul.total = total;
                if total > 0 && bytes_sent >= total && !ul.done {
                    ul.done = true;
                    ul.done_at = Some(now);
                }
                effects.push(Effect::Estimate { upload: UploadKind::Peer, id, sample });
            },
            None => {
                let name = match self.shares.get(id.as_str()) {
                    Some(item) => item.name,
                    None => id.clone(),
                };
                let done = total > 0 && bytes_sent >= total;
                self.active_uploads.push(
                    UploadState {
                        id,
                        name,
                        bytes_sent,
                        total,
                        speed_bps: Measure { bits: 0 },
                        done,
                        cancelled: false,
                        done_at: if done {
                            Some(now)
                        } else {
                            None
                        },
                        last_bytes: bytes_sent,
                        last_tick: now,
                        eta_seconds: Measure { bits: 0 },
                        smoothed_speed: Measure { bits: 0 },
                        last_display_update: now,
                    },
                );
            },
        }
        proof {
            assert(views(effects@) =~= old(self)@.upload_progress(
                id@,
                bytes_sent,
                total,
                *clock,
            ).1);
        }
        effects
    }

    fn on_upload_done(&mut self, id: &str, clock: &Clock)
        requires
            old(self).wf(),
        ensures
            final(self).wf(),
            final(self).peers == old(self).peers,
            final(self).shares == old(self).shares,
            final(self)@ == old(self)@.upload_done(id@, *clock).0,
    {
        broadcast use crate::text::group_views;

        if let Some(i) = self.find_upload(id) {
            let ul = &mut self.active_uploads[i];
            ul.done = true;
            ul.done_at = Some(clock.mono);
            ul.bytes_sent = ul.total;
        }
    }

    fn on_uploaded(&mut self, name: &str, by_addr: &str, clock: &Clock)
        requires
            old(self).wf(),
        ensures
            final(self).wf(),
            final(self).peers == old(self).peers,
            final(self).shares == old(self).shares,
            final(self)@ == old(self)@.uploaded(name@, by_addr@, *clock).0,
    {
        broadcast use crate::text::group_views;

        let mut message = around("⬆ '", name, "' uploaded by ");
        message.append(by_addr);
        self.log(message, LogKind::Success, clock);
        if let Some(i) = self.find_unfinished(name) {
            let ul = &mut self.active_uploads[i];
            ul.done = true;
            ul.done_at = Some(clock.mono);
            ul.bytes_sent = ul.total;
        }
    }

    fn on_web_started(
        &mut self,
        transfer_id: String,
        filename: String,
        total: u64,
        by_addr: String,
        clock: &Clock,
    )
        requires
            old(self).wf(),
        ensures
            final(self).wf(),
            final(self).peers == old(self).peers,
            final(self).shares == old(self).shares,
            final(self)@ == old(self)@.web_started(
                transfer_id@,
                filename@,
                total,
                by_addr@,
                *clock,
            ).0,
    {
        broadcast use crate::text::group_views;

        let mut message = around("⬆ '", filename.as_str(), "' upload started from ");
        message.append(by_addr.as_str());
        self.log(message, LogKind::Info, clock);
        self.web_uploads.push(
            WebUploadState {
                transfer_id,
                name: filename,
                bytes_received: 0,
                total,
                speed_bps: Measure { bits: 0 },
                smoothed_speed: Measure { bits: 0 },
                eta_seconds: Measure { bits: 0 },
                done: false,
                failed: false,
                done_at: None,
                last_bytes: 0,
                last_tick: clock.mono,
                last_display_update: clock.mono,
                by_addr,
            },
        );
    }

    fn on_web_progress(&mut self, id: String, bytes_received: u64, total: u64, clock: &Clock) -> (r:
        Vec<Effect>)
        requires
            old(self).wf(),
        ensures
            final(self).wf(),
            final(self).peers == old(self).peers,
            final(self).shares == old(self).shares,
            (final(self)@, views(r@)) == old(self)@.web_progress(
                id@,
                bytes_received,
                total,
                *clock,
            ),
    {
        broadcast use crate::text::group_views;

        let mut effects: Vec<Effect> = Vec::new();
        let now = clock.mono;
        if let Some(i) = self.find_web_upload(id.as_str()) {
            let wu = &mut self.web_uploads[i];
            let bytes = less_by(bytes_received, wu.last_bytes);
            let nanos = less_by(now, wu.last_tick);
            wu.last_bytes = bytes_received;
            wu.last_tick = now;
            wu.bytes_received = bytes_received;
            if total > 0 {
                wu.total = total;
            }
            let sample = SpeedSample {
                bytes,
                nanos,
                smoothed: wu.smoothed_speed,
                total: wu.total,
                done: bytes_received,
            };
            effects.push(Effect::Estimate { upload: UploadKind::Web, id, sample });
        }
        proof {
            assert(views(effects@) =~= old(self)@.web_progress(
                id@,
                bytes_received,
                total,
                *clock,
            ).1);
        }
        effects
    }

    fn on_web_finished(&mut self, id: &str, clock: &Clock)
        requires
            old(self).wf(),
        ensures
            final(self).wf(),
            final(self).peers == old(self).peers,
            final(self).shares == old(self).shares,
            final(self)@ == old(self)@.web_finished(id@, *clock).0,
    {
        broadcast use crate::text::group_views;

        if let Some(i) = self.find_web_upload(id) {
            let wu = &mut self.web_uploads[i];
            wu.done = true;
            wu.done_at = Some(clock.mono);
            if wu.total > 0 {
                wu.bytes_received = wu.total;
            }
            let mut message = around("✔ '", wu.name.as_str(), "' received from ");
            message.append(wu.by_addr.as_str());
            message.append(" via web UI");
            self.log(message, LogKind::Success, clock);
        }
    }

    fn on_web_failed(&mut self, id: &str, clock: &Clock)
        requires
            old(self).wf(),
        ensures
            final(self).wf(),
            final(self).peers == old(self).peers,
            final(self).shares == old(self).shares,
            final(self)@ == old(self)@.web_failing(id@, *clock).0,
    {
        broadcast use crate::text::group_views;

        if let Some(i) = self.find_web_upload(id) {
            let wu = &mut self.web_uploads[i];
            wu.failed = true;
            wu.done_at = Some(clock.mono);
            let mut message = around("✗ '", wu.name.as_str(), "' upload from ");
            message.append(wu.by_addr.as_str());
            message.append(" failed");
            self.log(message, LogKind::Warning, clock);
        }
    }

    fn on_estimated(
        &mut self,
        upload: UploadKind,
        id: &str,
        smoothed: Measure,
        eta: Measure,
        clock: &Clock,
    )
        requires
            old(self).wf(),
        ensures
            final(self).wf(),
            final(self).peers == old(self).peers,
            final(self).shares == old(self).shares,
            final(self)@ == old(self)@.estimated(upload, id@, smoothed, eta, *clock).0,
    {
        broadcast use crate::text::group_views;

        let now = clock.mono;
        match upload {
            UploadKind::Peer => {
                if let Some(i) = self.find_upload(id) {
                    let ul = &mut self.active_uploads[i];
                    ul.smoothed_speed = smoothed;
                    if millis_between(now, ul.last_display_update) >= DISPLAY_INTERVAL_MS {
                        ul.speed_bps = smoothed;
                        ul.eta_seconds = eta;
                        ul.last_display_update = now;
                    }
                }
            },
            UploadKind::Web => {
                if let Some(i) = self.find_web_upload(id) {
                    let wu = &mut self.web_uploads[i];
                    wu.smoothed_speed = smoothed;
                    if millis_between(now, wu.last_display_update) >= DISPLAY_INTERVAL_MS {
                        wu.speed_bps = smoothed;
                        wu.eta_seconds = eta;
                        wu.last_display_update = now;
                    }
                }
            },
        }
    }

    fn on_server_event(&mut self, event: ServerEvent, clock: &Clock) -> (r: Vec<Effect>)
        requires
            old(self).wf(),
        ensures
            final(self).wf(),
            final(self).peers == old(self).peers,
            final(self).shares == old(self).shares,
            (final(self)@, views(r@)) == old(self)@.server_event(event, *clock),
    {
        broadcast use crate::text::group_views;

        match event {
            ServerEvent::Downloaded { item_name, by_addr } => {
                let mut message = around("⬇ '", item_name.as_str(), "' downloaded by ");
                message.append(by_addr.as_str());
                self.log(message, LogKind::Download, clock);
            },
            ServerEvent::Uploaded { item_name, by_addr } => {
                self.on_uploaded(item_name.as_str(), by_addr.as_str(), clock);
            },
            ServerEvent::UploadProgress { item_id, bytes_sent, total } => {
                return self.on_upload_progress(item_id, bytes_sent, total, clock);
            },
            ServerEvent::UploadDone { item_id } => {
                self.on_upload_done(item_id.as_str(), clock);
            },
            ServerEvent::Deleted { item_name } => {
                self.log(
                    around("🗑 '", item_name.as_str(), "' deleted via web UI"),
                    LogKind::Warning,
                    clock,
                );
            },
            ServerEvent::WebUploadStarted { transfer_id, filename, total, by_addr } => {
                self.on_web_started(transfer_id, filename, total, by_addr, clock);
            },
            ServerEvent::WebUploadProgress { transfer_id, bytes_received, total } => {
                return self.on_web_progress(transfer_id, bytes_received, total, clock);
            },
            ServerEvent::WebUploadFinished { transfer_id } => {
                self.on_web_finished(transfer_id.as_str(), clock);
            },
            ServerEvent::WebUploadFailed { transfer_id } => {
                self.on_web_failed(transfer_id.as_str(), clock);
            },
        }
        Vec::new()
    }
}

// ---------------------------------------------------------------------------
// The passing of time
// ---------------------------------------------------------------------------

/// Whether a transfer is still shown at `now`: one that has ended is shown for
/// a short while.
pub open spec fn is_visible(done_at: Option<u64>, now: u64) -> bool {
    match done_at {
        None => true,
        Some(t) => elapsed_secs(now, t) < VISIBLE_SECS,
    }
}

fn still_visible(done_at: Option<u64>, now: u64) -> (r: bool)
    ensures
        r == is_visible(done_at, now),
{
    match done_at {
        None => true,
        Some(t) => secs_between(now, t) < VISIBLE_SECS,
    }
}

/// A download at `now`: one that does not move for too long is given up, but
/// not while it is paused.
pub open spec fn aged_download(d: DownloadStateView, now: u64) -> DownloadStateView {
    if !d.done && !d.cancelled && !d.paused && elapsed_secs(now, d.last_activity) >= STALE_SECS {
        given_up(d, now)
    } else {
        d
    }
}

/// An upload at `now`: one that does not move for too long is given up, and
/// one of which all was sent is complete.
pub open spec fn aged_upload(u: UploadStateView, now: u64) -> UploadStateView {
    let v = if !u.done && !u.cancelled && elapsed_secs(now, u.last_tick) >= STALE_SECS {
        UploadStateView { cancelled: true, done_at: Some(now), ..u }
    } else {
        u
    };
    if !v.done && v.total > 0 && v.bytes_sent >= v.total {
        UploadStateView { done: true, done_at: Some(now), ..v }
    } else {
        v
    }
}

/// A browser's upload at `now`: one that does not move for too long has
/// failed.
pub open spec fn aged_web_upload(w: WebUploadStateView, now: u64) -> WebUploadStateView {
    if !w.done && !w.failed && elapsed_secs(now, w.last_tick) >= STALE_SECS {
        web_failed(w, now)
    } else {
        w
    }
}

/// The downloads that are shown at `now`.
pub open spec fn aged_downloads(s: Seq<DownloadStateView>, now: u64) -> Seq<DownloadStateView>
    decreases s.len(),
{
    if s.len() == 0 {
        Seq::empty()
    } else {
        let rest = aged_downloads(s.drop_last(), now);
        let d = aged_download(s.last(), now);
        if is_visible(d.done_at, now) {
            rest.push(d)
        } else {
            rest
        }
    }
}

/// The requests for downloads that are told nothing more, because they were
/// given up or are no longer shown.
pub open spec fn aging_closings(s: Seq<DownloadStateView>, now: u64) -> Seq<EffectView>
    decreases s.len(),
{
    if s.len() == 0 {
        Seq::empty()
    } else {
        let rest = aging_closings(s.drop_last(), now);
        let d = aged_download(s.last(), now);
        if s.last().pause_tx is Some && (d.pause_tx is None || !is_visible(d.done_at, now)) {
            rest.push(EffectView::CloseControl { id: s.last().id })
        } else {
            rest
        }
    }
}

/// The uploads that are shown at `now`.
pub open spec fn aged_uploads(s: Seq<UploadStateView>, now: u64) -> Seq<UploadStateView>
    decreases s.len(),
{
    if s.len() == 0 {
        Seq::empty()
    } else {
        let rest = aged_uploads(s.drop_last(), now);
        let u = aged_upload(s.last(), now);
        if is_visible(u.done_at, now) {
            rest.push(u)
        } else {
            rest
        }
    }
}

/// The browsers' uploads that are shown at `now`.
pub open spec fn aged_web_uploads(s: Seq<WebUploadStateView>, now: u64) -> Seq<WebUploadStateView>
    decreases s.len(),
{
    if s.len() == 0 {
        Seq::empty()
    } else {
        let rest = aged_web_uploads(s.drop_last(), now);
        let w = aged_web_upload(s.last(), now);
        if is_visible(w.done_at, now) {
            rest.push(w)
        } else {
            rest
        }
    }
}

impl AppView {
    /// Whether the files of the selected peer are to be asked for again.
    pub open spec fn refreshes(self, peers: Seq<PeerView>, now: u64) -> bool {
        self.focus == Focus::PeerFiles && elapsed_secs(now, self.last_peer_refresh) >= REFRESH_SECS
            && !self.peer_files_loading && at(peers, self.peer_list_state) is Some
    }

    /// After some time: the files of the peer that is looked at are asked for
    /// again, transfers that do not move are given up, and those that have
    /// ended are no longer shown.
    pub open spec fn ticked(self, peers: Seq<PeerView>, now: u64) -> Step {
        let (a, fetch) = if self.refreshes(peers, now) {
            self.loading(peers)
        } else {
            (self, Seq::empty())
        };
        let downloads = aged_downloads(self.active_downloads, now);
        (
            AppView {
                active_downloads: downloads,
                active_uploads: aged_uploads(self.active_uploads, now),
                web_uploads: aged_web_uploads(self.web_uploads, now),
                transfer_cursor: if downloads.len() > 0 && self.transfer_cursor >= downloads.len() {
                    (downloads.len() - 1) as usize
                } else {
                    self.transfer_cursor
                },
                last_peer_refresh: if self.refreshes(peers, now) {
                    now
                } else {
                    self.last_peer_refresh
                },
                ..a
            },
            fetch + aging_closings(self.active_downloads, now),
        )
    }
}

fn age_downloads(v: &mut Vec<DownloadState>, now: u64) -> (r: Vec<Effect>)
    ensures
        views(final(v)@) == aged_downloads(views(old(v)@), now),
        views(r@) == aging_closings(views(old(v)@), now),
{
    broadcast use crate::text::group_views;

    let ghost s = views(v@);
    let mut effects: Vec<Effect> = Vec::new();
    let mut i: usize = 0;
    let ghost mut j: int = 0;
    assert(s.take(0) =~= Seq::<DownloadStateView>::empty());
    assert(s.skip(0) =~= s);
    while i < v.len()
        invariant
            0 <= j <= s.len(),
            i == aged_downloads(s.take(j), now).len(),
            views(v@) =~= aged_downloads(s.take(j), now) + s.skip(j),
            views(effects@) =~= aging_closings(s.take(j), now),
        decreases v@.len() - i,
    {
        let ghost before = views(v@);
        proof {
            assert(before[i as int] == s.skip(j)[0]);
            assert(s.take(j + 1).drop_last() =~= s.take(j));
            assert(v@[i as int]@ == s[j]);
            assert(s.skip(j) =~= seq![s[j]] + s.skip(j + 1));
        }
        let told = v[i].pause_tx.is_some();
        if !v[i].done && !v[i].cancelled && !v[i].paused && secs_between(now, v[i].last_activity)
            >= STALE_SECS {
            let d = &mut v[i];
            d.cancelled = true;
            d.pause_tx = None;
            d.done_at = Some(now);
        }
        let ghost middle = views(v@);
        assert(middle =~= before.update(i as int, aged_download(s[j], now)));
        let visible = still_visible(v[i].done_at, now);
        if told && (v[i].pause_tx.is_none() || !visible) {
            effects.push(Effect::CloseControl { id: v[i].id.clone() });
        }
        if visible {
            i += 1;
        } else {
            let _ = v.remove(i);
            assert(views(v@) =~= middle.remove(i as int));
        }
        proof {
            j = j + 1;
        }
    }
    proof {
        assert(s.skip(j).len() == 0);
        assert(s.take(j) =~= s);
    }
    effects
}

fn age_uploads(v: &mut Vec<UploadState>, now: u64)
    ensures
        views(final(v)@) == aged_uploads(views(old(v)@), now),
{
    broadcast use crate::text::group_views;

    let ghost s = views(v@);
    let mut i: usize = 0;
    let ghost mut j: int = 0;
    assert(s.take(0) =~= Seq::<UploadStateView>::empty());
    assert(s.skip(0) =~= s);
    while i < v.len()
        invariant
            0 <= j <= s.len(),
            i == aged_uploads(s.take(j), now).len(),
            views(v@) =~= aged_uploads(s.take(j), now) + s.skip(j),
        decreases v@.len() - i,
    {
        let ghost before = views(v@);
        proof {
            assert(before[i as int] == s.skip(j)[0]);
            assert(s.take(j + 1).drop_last() =~= s.take(j));
            assert(v@[i as int]@ == s[j]);
            assert(s.skip(j) =~= seq![s[j]] + s.skip(j + 1));
        }
        let u = &mut v[i];
        if !u.done && !u.cancelled && secs_between(now, u.last_tick) >= STALE_SECS {
            u.cancelled = true;
            u.done_at = Some(now);
        }
        if !u.done && u.total > 0 && u.bytes_sent >= u.total {
            u.done = true;
            u.done_at = Some(now);
        }
        let ghost middle = views(v@);
        assert(middle =~= before.update(i as int, aged_upload(s[j], now)));
        if still_visible(v[i].done_at, now) {
            i += 1;
        } else {
            let _ = v.remove(i);
            assert(views(v@) =~= middle.remove(i as int));
        }
        proof {
            j = j + 1;
        }
    }
    proof {
        assert(s.skip(j).len() == 0);
        assert(s.take(j) =~= s);
    }
}

fn age_web_uploads(v: &mut Vec<WebUploadState>, now: u64)
    ensures
        views(final(v)@) == aged_web_uploads(views(old(v)@), now),
{
    broadcast use crate::text::group_views;

    let ghost s = views(v@);
    let mut i: usize = 0;
    let ghost mut j: int = 0;
    assert(s.take(0) =~= Seq::<WebUploadStateView>::empty());
    assert(s.skip(0) =~= s);
    while i < v.len()
        invariant
            0 <= j <= s.len(),
            i == aged_web_uploads(s.take(j), now).len(),
            views(v@) =~= aged_web_uploads(s.take(j), now) + s.skip(j),
        decreases v@.len() - i,
    {
        let ghost before = views(v@);
        proof {
            assert(before[i as int] == s.skip(j)[0]);
            assert(s.take(j + 1).drop_last() =~= s.take(j));
            assert(v@[i as int]@ == s[j]);
            assert(s.skip(j) =~= seq![s[j]] + s.skip(j + 1));
        }
        let w = &mut v[i];
        if !w.done && !w.failed && secs_between(now, w.last_tick) >= STALE_SECS {
            w.failed = true;
            w.done_at = Some(now);
        }
        let ghost middle = views(v@);
        assert(middle =~= before.update(i as int, aged_web_upload(s[j], now)));
        if still_visible(v[i].done_at, now) {
            i += 1;
        } else {
            let _ = v.remove(i);
            assert(views(v@) =~= middle.remove(i as int));
        }
        proof {
            j = j + 1;
        }
    }
    proof {
        assert(s.skip(j).len() == 0);
        assert(s.take(j) =~= s);
    }
}

impl App {
    fn on_tick(&mut self, clock: &Clock) -> (r: Vec<Effect>)
        requires
            old(self).wf(),
        ensures
            final(self).wf(),
            final(self).peers == old(self).peers,
            final(self).shares == old(self).shares,
            (final(self)@, views(r@)) == old(self)@.ticked(
                old(self).peers.listed(),
                clock.mono,
            ),
    {
        broadcast use crate::text::group_views;

        let now = clock.mono;
        let mut effects: Vec<Effect> = Vec::new();
        if matches!(self.focus, Focus::PeerFiles) && secs_between(now, self.last_peer_refresh)
            >= REFRESH_SECS && !self.peer_files_loading && self.selected_peer().is_some() {
            effects = self.load_peer_files();
            self.last_peer_refresh = now;
        }
        let ghost fetch = views(effects@);
        let mut closings = age_downloads(&mut self.active_downloads, now);
        let ghost closed = views(closings@);
        effects.append(&mut closings);
        assert(views(effects@) =~= fetch + closed);
        let n = self.active_downloads.len();
        if n > 0 && self.transfer_cursor >= n {
            self.transfer_cursor = n - 1;
        }
        age_uploads(&mut self.active_uploads, now);
        age_web_uploads(&mut self.web_uploads, now);
        effects
    }
}

// ---------------------------------------------------------------------------
// Sharing and peers
// ---------------------------------------------------------------------------

/// How many characters the bar has that shows how far a folder is zipped.
pub const BAR_WIDTH: usize = 20;

/// How much of the bar is filled when so many of the files are done.
pub open spec fn bar_filled(done: nat, total: nat) -> nat {
    if total == 0 {
        0
    } else {
        BAR_WIDTH as nat * done / total
    }
}

/// What is noted while a folder is zipped.
pub open spec fn zip_progress_text(folder: Seq<char>, done: nat, total: nat) -> Seq<char> {
    let filled = bar_filled(done, total);
    "📦 Zipping '"@ + folder + "' ["@ + repeated('█', filled) + repeated(
        '░',
        (BAR_WIDTH - filled) as nat,
    ) + "] "@ + decimal_text(done) + "/"@ + decimal_text(total) + " files ("@ + decimal_text(
        crate::cli::percent(done, total),
    ) + "%)"@
}

fn zip_progress_message(folder: &str, done: usize, total: usize) -> (r: String)
    requires
        done * 100 <= usize::MAX,
        bar_filled(done as nat, total as nat) <= BAR_WIDTH,
    ensures
        r@ == zip_progress_text(folder@, done as nat, total as nat),
{
    let filled: usize = if total == 0 {
        0
    } else {
        BAR_WIDTH * done / total
    };
    let mut out = around("📦 Zipping '", folder, "' [");
    out.append(repeat_char('█', filled).as_str());
    out.append(repeat_char('░', BAR_WIDTH - filled).as_str());
    out.append("] ");
    out.append(decimal(done as u64).as_str());
    out.append("/");
    out.append(decimal(total as u64).as_str());
    out.append(" files (");
    out.append(decimal(crate::cli::percent_done(done, total) as u64).as_str());
    out.append("%)");
    out
}

impl AppView {
    /// After more of a folder was zipped: the entry of the log that shows it
    /// changes, or is made.
    pub open spec fn zip_progress(
        self,
        folder: Seq<char>,
        done: nat,
        total: nat,
        clock: Clock,
    ) -> Step {
        let message = zip_progress_text(folder, done, total);
        match self.zip_progress_log_idx {
            Some(idx) if idx < self.log.len() => (
                AppView {
                    log: self.log.update(
                        idx as int,
                        LogEntryView { message, timestamp: clock.wall, ..self.log[idx as int] },
                    ),
                    ..self
                },
                Seq::empty(),
            ),
            _ => {
                let noted = self.noted(message, LogKind::Info, clock);
                (
                    AppView { zip_progress_log_idx: Some((noted.log.len() - 1) as usize), ..noted },
                    Seq::empty(),
                )
            },
        }
    }

    /// After the address that the user typed was looked at.
    pub open spec fn address_resolved(
        self,
        text: Seq<char>,
        port: u16,
        addr: Option<Seq<char>>,
        clock: Clock,
    ) -> Step {
        match addr {
            Some(a) => (
                AppView {
                    peers: self.peers.insert(endpoint_text(a, port), entered(a, port, clock.wall)),
                    ..self
                }.noted("Added manual peer "@ + endpoint_text(a, port), LogKind::Info, clock),
                Seq::empty(),
            ),
            None => (
                self.noted("Invalid IP address: "@ + text, LogKind::Warning, clock),
                Seq::empty(),
            ),
        }
    }

    /// After an event. `peers` is the list of peers as it is shown.
    pub open spec fn event(self, peers: Seq<PeerView>, event: AppEvent, clock: Clock) -> Step {
        match event {
            AppEvent::Tick => self.ticked(peers, clock.mono),
            AppEvent::PeerFilesLoaded(files) => (
                AppView { peer_files: views(files@), peer_files_loading: false, ..self },
                Seq::empty(),
            ),
            AppEvent::DownloadProgress { id, progress } => self.download_progress(
                id@,
                progress,
                clock,
            ),
            AppEvent::DownloadDone { id, result } => self.download_done(id@, result, clock),
            AppEvent::DownloadError { id, error } => self.download_error(id@, error@, clock),
            AppEvent::DownloadRetrying { id, attempt } => self.download_retrying(
                id@,
                attempt,
                clock,
            ),
            AppEvent::ServerEvent(e) => self.server_event(e, clock),
            AppEvent::AddShare(path) => (self, seq![EffectView::SharePath { path }]),
            AppEvent::ZipConfirmNeeded(req) => (
                AppView { zip_confirm: Some(req@), ..self },
                Seq::empty(),
            ),
            AppEvent::ZipConfirmResult(path, zip) => (
                self,
                seq![EffectView::ShareWithChoice { path, zip }],
            ),
            AppEvent::ShareAdded(item) => (
                AppView { zip_progress_log_idx: None, ..self }.noted(
                    "✓ Shared '"@ + item@.name + "' ("@ + size_text(item@.size as nat) + ")"@,
                    LogKind::Success,
                    clock,
                ),
                Seq::empty(),
            ),
            AppEvent::ShareError(e) => (
                AppView { zip_progress_log_idx: None, ..self }.noted(
                    "✗ Share failed: "@ + e@,
                    LogKind::Warning,
                    clock,
                ),
                Seq::empty(),
            ),
            AppEvent::ZipProgress { folder, done, total } => self.zip_progress(
                folder@,
                done as nat,
                total as nat,
                clock,
            ),
            AppEvent::AddressResolved { text, port, addr } => self.address_resolved(
                text@,
                port,
                opt_view(addr),
                clock,
            ),
            AppEvent::SpeedEstimated { upload, id, smoothed, eta } => self.estimated(
                upload,
                id@,
                smoothed,
                eta,
                clock,
            ),
        }
    }
}

/// The list of peers after an event: a peer whose address the user typed is put
/// into it, and nothing else changes.
pub open spec fn peers_after(peers: Seq<PeerView>, event: AppEvent, clock: Clock) -> Seq<PeerView> {
    match event {
        AppEvent::AddressResolved { port, addr: Some(a), .. } => placed(
            peers,
            entered(a@, port, clock.wall),
        ),
        _ => peers,
    }
}

/// Whether an event can be shown: no more files of a folder are zipped than
/// the bar has room for.
pub open spec fn is_showable(event: AppEvent) -> bool {
    match event {
        AppEvent::ZipProgress { done, total, .. } => done * 100 <= usize::MAX && bar_filled(
            done as nat,
            total as nat,
        ) <= BAR_WIDTH,
        _ => true,
    }
}

impl App {
    fn on_zip_progress(&mut self, folder: &str, done: usize, total: usize, clock: &Clock)
        requires
            old(self).wf(),
            done * 100 <= usize::MAX,
            bar_filled(done as nat, total as nat) <= BAR_WIDTH,
        ensures
            final(self).wf(),
            final(self).peers == old(self).peers,
            final(self).shares == old(self).shares,
            final(self)@ == old(self)@.zip_progress(folder@, done as nat, total as nat, *clock).0,
    {
        broadcast use crate::text::group_views;

        let message = zip_progress_message(folder, done, total);
        if let Some(idx) = self.zip_progress_log_idx {
            if idx < self.log.len() {
                let entry = &mut self.log[idx];
                entry.message = message;
                entry.timestamp = clock.wall;
                return;
            }
        }
        self.log(message, LogKind::Info, clock);
        self.zip_progress_log_idx = Some(self.log.len() - 1);
    }

    fn on_address_resolved(
        &mut self,
        text: &str,
        port: u16,
        addr: Option<String>,
        clock: &Clock,
    )
        requires
            old(self).wf(),
        ensures
            final(self).wf(),
            final(self).shares == old(self).shares,
            final(self).peers.listed() == match addr {
                Some(a) => placed(old(self).peers.listed(), entered(a@, port, clock.wall)),
                None => old(self).peers.listed(),
            },
            final(self)@ == old(self)@.address_resolved(text@, port, opt_view(addr), *clock).0,
    {
        broadcast use crate::text::group_views;

        match addr {
            Some(a) => {
                let mut message = "Added manual peer ".to_owned();
                message.append(endpoint(a.as_str(), port).as_str());
                self.peers.add_manual_at(a, port, &clock.wall);
                self.log(message, LogKind::Info, clock);
            },
            None => {
                let mut message = "Invalid IP address: ".to_owned();
                message.append(text);
                self.log(message, LogKind::Warning, clock);
            },
        }
    }

    /// Takes an event.
    pub fn handle_event(&mut self, event: AppEvent, clock: &Clock) -> (r: Vec<Effect>)
        requires
            old(self).wf(),
            is_showable(event),
        ensures
            final(self).wf(),
            final(self).shares == old(self).shares,
            final(self).peers.listed() == peers_after(old(self).peers.listed(), event, *clock),
            final(self)@.peers == old(self)@.peers ==> final(self).peers.listed() == old(
                self,
            ).peers.listed(),
            final(self)@.shares.items == old(self)@.shares.items ==> final(self).shares.listed()
                == old(self).shares.listed(),
            (final(self)@, views(r@)) == old(self)@.event(
                old(self).peers.listed(),
                event,
                *clock,
            ),
    {
        broadcast use crate::text::group_views;

        proof {
            self.lemma_lists();
        }
        let mut effects: Vec<Effect> = Vec::new();
        match event {
            AppEvent::Tick => {
                return self.on_tick(clock);
            },
            AppEvent::PeerFilesLoaded(files) => {
                self.peer_files = files;
                self.peer_files_loading = false;
            },
            AppEvent::DownloadProgress { id, progress } => {
                return self.on_download_progress(id.as_str(), &progress, clock);
            },
            AppEvent::DownloadDone { id, result } => {
                return self.on_download_done(id.as_str(), &result, clock);
            },
            AppEvent::DownloadError { id, error } => {
                return self.on_download_error(id.as_str(), error.as_str(), clock);
            },
            AppEvent::DownloadRetrying { id, attempt } => {
                return self.on_download_retrying(id.as_str(), attempt, clock);
            },
            AppEvent::ServerEvent(e) => {
                return self.on_server_event(e, clock);
            },
            AppEvent::AddShare(path) => {
                effects.push(Effect::SharePath { path });
                assert(views(effects@) =~= seq![EffectView::SharePath { path }]);
            },
            AppEvent::ZipConfirmNeeded(req) => {
                self.zip_confirm = Some(req);
            },
            AppEvent::ZipConfirmResult(path, zip) => {
                effects.push(Effect::ShareWithChoice { path, zip });
                assert(views(effects@) =~= seq![EffectView::ShareWithChoice { path, zip }]);
            },
            AppEvent::ShareAdded(item) => {
                self.zip_progress_log_idx = None;
                let mut message = around("✓ Shared '", item.name.as_str(), "' (");
                message.append(item.size_human().as_str());
                message.append(")");
                self.log(message, LogKind::Success, clock);
            },
            AppEvent::ShareError(e) => {
                self.zip_progress_log_idx = None;
                let mut message = "✗ Share failed: ".to_owned();
                message.append(e.as_str());
                self.log(message, LogKind::Warning, clock);
            },
            AppEvent::ZipProgress { folder, done, total } => {
                self.on_zip_progress(folder.as_str(), done, total, clock);
            },
            AppEvent::AddressResolved { text, port, addr } => {
                proof {
                    if let Some(a) = opt_view(addr) {
                        let x = entered(a, port, clock.wall);
                        let m = self@.peers;
                        if m.insert(x.key(), x) == m {
                            assert(m.insert(x.key(), x)[x.key()] == x);
                            assert(m.insert(x.key(), x).dom().contains(x.key()));
                            lemma_placed_again(self.peers.listed(), m, x);
                        }
                    }
                }
                self.on_address_resolved(text.as_str(), port, addr, clock);
            },
            AppEvent::SpeedEstimated { upload, id, smoothed, eta } => {
                self.on_estimated(upload, id.as_str(), smoothed, eta, clock);
            },
        }
        effects
    }
}

}
