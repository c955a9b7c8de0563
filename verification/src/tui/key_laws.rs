//! What the keys do, panel by panel and dialog by dialog.

use crate::client::DownloadControl;
use crate::discovery::PeerView;
use crate::shares::{RegistryView, ShareKind, SharedItemView};
use crate::text::decimal_text;
use crate::time::Clock;
use crate::tui::app::{typed_address, AppView};
use crate::tui::input::Key;
use crate::tui::state::{DownloadStateView, EffectView, Focus, LogKind};
use crate::tui::theme::{theme_at, SpeedUnit};
use vstd::prelude::*;

verus! {

/// Whether nothing lies over the panels, so that they take the keys.
pub open spec fn panels_are_free(a: AppView) -> bool {
    !a.show_qr && a.zip_confirm is None && a.manual_path_input is None && a.manual_ip_input is None
}

/// A state that differs from `a` in its log only by one more entry at the end.
pub open spec fn with_note(b: AppView, message: Seq<char>, kind: LogKind, clock: Clock) -> bool {
    &&& b.log.len() > 0
    &&& b.log.last().message == message
    &&& b.log.last().kind == kind
    &&& b.log.last().timestamp == clock.wall
}

proof fn lemma_noted(a: AppView, message: Seq<char>, kind: LogKind, clock: Clock)
    ensures
        with_note(a.noted(message, kind, clock), message, kind, clock),
        a.noted(message, kind, clock) == (AppView {
            log: a.noted(message, kind, clock).log,
            zip_progress_log_idx: a.noted(message, kind, clock).zip_progress_log_idx,
            ..a
        }),
{
    let log = a.noted(message, kind, clock).log;
    let e = log.last();
    assert(log[log.len() - 1] == e);
}

proof fn lemma_down_around(i: usize, n: nat)
    requires
        i < n <= usize::MAX,
    ensures
        crate::tui::app::down_around(i, n) == (if i + 1 == n {
            0int
        } else {
            i + 1
        }),
{
    if i + 1 == n {
        vstd::arithmetic::div_mod::lemma_mod_self_0(n as int);
    } else {
        vstd::arithmetic::div_mod::lemma_small_mod((i + 1) as nat, n);
    }
}

/// What is noted is put behind the other entries of the log with the time of day;
/// of more than two hundred the oldest goes.
pub proof fn law_notes_are_kept_in_order(
    a: AppView,
    message: Seq<char>,
    kind: LogKind,
    clock: Clock,
)
    requires
        a.log.len() <= 200,
    ensures
        ({
            let b = a.noted(message, kind, clock);
            &&& with_note(b, message, kind, clock)
            &&& a.log.len() < 200 ==> b.log.len() == a.log.len() + 1 && b.log.drop_last() == a.log
            &&& a.log.len() == 200 ==> b.log.len() == 200 && b.log.drop_last() == a.log.skip(1)
        }),
{
    let b = a.noted(message, kind, clock);
    lemma_noted(a, message, kind, clock);
    if a.log.len() < 200 {
        assert(b.log.drop_last() =~= a.log);
    } else {
        assert(b.log.drop_last() =~= a.log.skip(1));
    }
}

/// The keys that are the same in every panel: Tab and Shift+Tab go to the next
/// panel and the one before, `?` and `h` show and hide the help, `r` shows the QR
/// code, `u` changes the unit of speeds, and `t` goes to the next of the five
/// themes and notes its name. Each changes nothing else and asks for nothing.
pub proof fn law_keys_of_every_panel(
    a: AppView,
    peers: Seq<PeerView>,
    shares: Seq<SharedItemView>,
    clock: Clock,
)
    requires
        panels_are_free(a),
        a.theme_idx < 5,
    ensures
        ({
            let order = seq![Focus::PeerList, Focus::PeerFiles, Focus::MyShares, Focus::Transfers];
            let none = Seq::<EffectView>::empty();
            &&& forall|i: int|
                0 <= i < 4 && a.focus == #[trigger] order[i] ==> a.key(
                    peers,
                    shares,
                    Key::Tab,
                    clock,
                ) == (AppView { focus: order[(i + 1) % 4], ..a }, none) && a.key(
                    peers,
                    shares,
                    Key::BackTab,
                    clock,
                ) == (AppView { focus: order[(i + 3) % 4], ..a }, none)
            &&& a.key(peers, shares, Key::Char('?'), clock) == (
                AppView { show_help: !a.show_help, ..a },
                none,
            )
            &&& a.key(peers, shares, Key::Char('h'), clock) == (
                AppView { show_help: !a.show_help, ..a },
                none,
            )
            &&& a.key(peers, shares, Key::Char('r'), clock) == (
                AppView { show_qr: true, show_help: false, ..a },
                none,
            )
            &&& a.speed_unit is Bytes ==> a.key(peers, shares, Key::Char('u'), clock) == (
                AppView { speed_unit: SpeedUnit::Bits, ..a },
                none,
            )
            &&& a.speed_unit is Bits ==> a.key(peers, shares, Key::Char('u'), clock) == (
                AppView { speed_unit: SpeedUnit::Bytes, ..a },
                none,
            )
            &&& {
                let (b, effects) = a.key(peers, shares, Key::Char('t'), clock);
                &&& b.theme_idx == (if a.theme_idx == 4 {
                    0int
                } else {
                    a.theme_idx + 1
                })
                &&& with_note(b, "Theme: "@ + theme_at(b.theme_idx as int).name, LogKind::Info, clock)
                &&& b == (AppView {
                    theme_idx: b.theme_idx,
                    log: b.log,
                    zip_progress_log_idx: b.zip_progress_log_idx,
                    ..a
                })
                &&& effects == none
            }
        }),
{
    let order = seq![Focus::PeerList, Focus::PeerFiles, Focus::MyShares, Focus::Transfers];
    assert(order[0] == Focus::PeerList && order[1] == Focus::PeerFiles && order[2]
        == Focus::MyShares && order[3] == Focus::Transfers);
    lemma_noted(
        AppView { theme_idx: a.next_theme(), ..a },
        "Theme: "@ + theme_at(a.next_theme() as int).name,
        LogKind::Info,
        clock,
    );
}

/// While the QR code is shown, Esc, `r` and `q` hide it, and every other key does
/// nothing.
pub proof fn law_keys_over_the_qr_code(
    a: AppView,
    peers: Seq<PeerView>,
    shares: Seq<SharedItemView>,
    key: Key,
    clock: Clock,
)
    requires
        a.show_qr,
    ensures
        a.key(peers, shares, key, clock) == (
            if key == Key::Esc || key == Key::Char('r') || key == Key::Char('q') {
                AppView { show_qr: false, ..a }
            } else {
                a
            },
            Seq::<EffectView>::empty(),
        ),
{
}

/// The question whether a folder is to be zipped is answered with `y` or `n`, in
/// either case of letter, and taken back with Esc; the answer goes out with the
/// path of the folder, and every other key does nothing.
pub proof fn law_zip_question_is_answered(
    a: AppView,
    peers: Seq<PeerView>,
    shares: Seq<SharedItemView>,
    key: Key,
    clock: Clock,
)
    requires
        !a.show_qr,
        a.zip_confirm is Some,
    ensures
        ({
            let (b, effects) = a.key(peers, shares, key, clock);
            let yes = key == Key::Char('y') || key == Key::Char('Y');
            let no = key == Key::Char('n') || key == Key::Char('N');
            &&& yes || no ==> effects == seq![
                EffectView::AnswerZip { path: a.zip_confirm->0.path, zip: yes },
            ]
            &&& !yes && !no ==> effects.len() == 0
            &&& yes || no || key == Key::Esc ==> b == (AppView { zip_confirm: None, ..a })
            &&& !(yes || no || key == Key::Esc) ==> b == a
        }),
{
}

/// A path that the user types grows by each character, loses the last with
/// Backspace, is handed over with Enter, and is dropped with Esc. Both close the
/// dialog, and nothing else changes.
pub proof fn law_paths_are_typed(
    a: AppView,
    peers: Seq<PeerView>,
    shares: Seq<SharedItemView>,
    c: char,
    clock: Clock,
)
    requires
        !a.show_qr,
        a.zip_confirm is None,
        a.manual_path_input is Some,
    ensures
        ({
            let text = a.manual_path_input->0;
            let none = Seq::<EffectView>::empty();
            &&& a.key(peers, shares, Key::Char(c), clock) == (
                AppView { manual_path_input: Some(text.push(c)), ..a },
                none,
            )
            &&& text.len() > 0 ==> a.key(peers, shares, Key::Backspace, clock) == (
                AppView { manual_path_input: Some(text.take(text.len() - 1)), ..a },
                none,
            )
            &&& text.len() == 0 ==> a.key(peers, shares, Key::Backspace, clock) == (a, none)
            &&& a.key(peers, shares, Key::Enter, clock) == (
                AppView { manual_path_input: None, ..a },
                seq![EffectView::AddPath { text }],
            )
            &&& a.key(peers, shares, Key::Esc, clock) == (
                AppView { manual_path_input: None, ..a },
                none,
            )
        }),
{
    let text = a.manual_path_input->0;
    if text.len() > 0 {
        assert(text.drop_last() =~= text.take(text.len() - 1));
    }
}

/// An address that the user types grows by each character, loses the last with
/// Backspace, is looked up with Enter, and is dropped with Esc. Both close the
/// dialog, and nothing else changes.
pub proof fn law_addresses_are_typed(
    a: AppView,
    peers: Seq<PeerView>,
    shares: Seq<SharedItemView>,
    c: char,
    clock: Clock,
)
    requires
        !a.show_qr,
        a.zip_confirm is None,
        a.manual_path_input is None,
        a.manual_ip_input is Some,
    ensures
        ({
            let text = a.manual_ip_input->0;
            let none = Seq::<EffectView>::empty();
            &&& a.key(peers, shares, Key::Char(c), clock) == (
                AppView { manual_ip_input: Some(text.push(c)), ..a },
                none,
            )
            &&& text.len() > 0 ==> a.key(peers, shares, Key::Backspace, clock) == (
                AppView { manual_ip_input: Some(text.take(text.len() - 1)), ..a },
                none,
            )
            &&& text.len() == 0 ==> a.key(peers, shares, Key::Backspace, clock) == (a, none)
            &&& a.key(peers, shares, Key::Enter, clock) == (
                AppView { manual_ip_input: None, ..a },
                seq![
                    EffectView::ResolveAddress {
                        text: typed_address(text).0,
                        port: typed_address(text).1,
                    },
                ],
            )
            &&& a.key(peers, shares, Key::Esc, clock) == (
                AppView { manual_ip_input: None, ..a },
                none,
            )
        }),
{
    let text = a.manual_ip_input->0;
    if text.len() > 0 {
        assert(text.drop_last() =~= text.take(text.len() - 1));
    }
}

proof fn lemma_count_none(s: Seq<char>, c: char)
    requires
        !s.contains(c),
    ensures
        crate::text::count_of(s, c) == 0,
    decreases s.len(),
{
    if s.len() > 0 {
        assert(s.contains(s.last()));
        let t = s.drop_last();
        assert(!t.contains(c)) by {
            if t.contains(c) {
                let i = choose|i: int| 0 <= i < t.len() && t[i] == c;
                assert(s[i] == c);
            }
        }
        lemma_count_none(t, c);
    }
}

proof fn lemma_count_joined(a: Seq<char>, b: Seq<char>, c: char)
    ensures
        crate::text::count_of(a + b, c) == crate::text::count_of(a, c) + crate::text::count_of(b, c),
    decreases b.len(),
{
    if b.len() == 0 {
        assert(a + b =~= a);
    } else {
        assert((a + b).drop_last() =~= a + b.drop_last());
        assert((a + b).last() == b.last());
        lemma_count_joined(a, b.drop_last(), c);
    }
}

/// An address that is typed with a port has that port, and without one the usual
/// port 7777; so it has where what stands behind the colon is no port. A text
/// with more than one colon is an address as it stands.
pub proof fn law_typed_port_is_taken(address: Seq<char>, port: u16, rest: Seq<char>)
    requires
        !address.contains(':'),
        !rest.contains(':'),
    ensures
        typed_address(address) == (address, 7777u16),
        typed_address(address + seq![':'] + decimal_text(port as nat)) == (address, port),
        (exists|i: int| 0 <= i < rest.len() && !('0' <= #[trigger] rest[i] && rest[i] <= '9')
            && rest[i] != '+') ==> typed_address(address + seq![':'] + rest) == (address, 7777u16),
        typed_address(address + seq![':'] + rest + seq![':']) == (
            address + seq![':'] + rest + seq![':'],
            7777u16,
        ),
{
    let d = decimal_text(port as nat);
    let one = seq![':'];
    assert(one.drop_last() =~= Seq::<char>::empty());
    assert(one.last() == ':');
    assert(crate::text::count_of(one.drop_last(), ':') == 0);
    assert(crate::text::count_of(one, ':') == 1);
    crate::text::law_decimal_is_digits(port as nat);
    assert(!d.contains(':')) by {
        if d.contains(':') {
            let i = choose|i: int| 0 <= i < d.len() && d[i] == ':';
            assert(crate::text::is_digit(d[i]));
        }
    }
    lemma_count_none(address, ':');
    lemma_count_none(d, ':');
    lemma_count_none(rest, ':');
    lemma_count_joined(address, one, ':');
    lemma_count_joined(address + one, d, ':');
    lemma_count_joined(address + one, rest, ':');
    lemma_count_joined(address + one + rest, one, ':');
    crate::text::law_parts_of_a_text(address, ':', d);
    crate::text::law_parts_of_a_text(address, ':', rest);
    crate::text::law_decimal_round_trip(port as nat, u16::MAX as int);
    if exists|i: int|
        0 <= i < rest.len() && !('0' <= #[trigger] rest[i] && rest[i] <= '9') && rest[i] != '+' {
        let i = choose|i: int|
            0 <= i < rest.len() && !('0' <= #[trigger] rest[i] && rest[i] <= '9') && rest[i] != '+';
        let body = crate::text::unsigned_part(rest);
        if rest[0] == '+' {
            assert(body[i - 1] == rest[i]);
            assert(!crate::text::is_digit(body[i - 1]));
        } else {
            assert(!crate::text::is_digit(body[i]));
        }
    }
}

/// In the list of peers, Down and `j` go to the next peer, from the last to the
/// first; Up and `k` to the one before, and from the first nowhere; Enter and
/// Right go to its files. Each asks the peer that is then selected for its files,
/// and shows none until they are there.
pub proof fn law_keys_in_the_list_of_peers(
    a: AppView,
    peers: Seq<PeerView>,
    shares: Seq<SharedItemView>,
    key: Key,
    clock: Clock,
)
    requires
        panels_are_free(a),
        a.focus == Focus::PeerList,
        0 < peers.len() <= usize::MAX,
        a.peer_list_state < peers.len(),
    ensures
        ({
            let (b, effects) = a.key(peers, shares, key, clock);
            let down = key == Key::Down || key == Key::Char('j');
            let up = key == Key::Up || key == Key::Char('k');
            let open = key == Key::Enter || key == Key::Right;
            let place = if down {
                if a.peer_list_state + 1 == peers.len() {
                    0int
                } else {
                    a.peer_list_state + 1
                }
            } else if up && a.peer_list_state > 0 {
                a.peer_list_state - 1
            } else {
                a.peer_list_state as int
            };
            let p = peers[place];
            &&& down || up || open ==> {
                &&& b.peer_list_state == place
                &&& b.focus == (if open {
                    Focus::PeerFiles
                } else {
                    Focus::PeerList
                })
                &&& b.peer_files_loading
                &&& b.peer_files.len() == 0
                &&& b.peer_files_state == 0
                &&& effects == seq![
                    EffectView::FetchPeerFiles {
                        base_url: "https://"@ + p.addr + ":"@ + decimal_text(p.port as nat),
                    },
                ]
                &&& b == (AppView {
                    peer_list_state: b.peer_list_state,
                    focus: b.focus,
                    peer_files_loading: true,
                    peer_files: b.peer_files,
                    peer_files_state: 0,
                    ..a
                })
            }
        }),
{
    lemma_down_around(a.peer_list_state, peers.len());
}

/// In the list of peers, Delete and `x` take the selected peer out where it was
/// entered by hand, and note it; of any other the user is warned, and it stays.
pub proof fn law_manual_peers_can_be_removed(
    a: AppView,
    peers: Seq<PeerView>,
    shares: Seq<SharedItemView>,
    key: Key,
    clock: Clock,
)
    requires
        panels_are_free(a),
        a.focus == Focus::PeerList,
        a.peer_list_state < peers.len(),
        key == Key::Delete || key == Key::Char('x'),
    ensures
        ({
            let p = peers[a.peer_list_state as int];
            let name = p.addr + ":"@ + decimal_text(p.port as nat);
            let (b, effects) = a.key(peers, shares, key, clock);
            &&& effects.len() == 0
            &&& p.manual ==> {
                &&& b.peers == a.peers.remove(name)
                &&& b.peer_files.len() == 0
                &&& a.peer_list_state > 0 ==> b.peer_list_state == a.peer_list_state - 1
                &&& a.peer_list_state == 0 ==> b.peer_list_state == 0
                &&& with_note(b, "Removed manual peer "@ + name, LogKind::Info, clock)
            }
            &&& !p.manual ==> {
                &&& b.peers == a.peers
                &&& b.peer_list_state == a.peer_list_state
                &&& b.peer_files == a.peer_files
                &&& with_note(
                    b,
                    "Only manually added peers can be removed"@,
                    LogKind::Warning,
                    clock,
                )
            }
            &&& b.shares == a.shares
            &&& b.active_downloads == a.active_downloads
        }),
{
    let p = peers[a.peer_list_state as int];
    let name = p.addr + ":"@ + decimal_text(p.port as nat);
    lemma_noted(
        AppView {
            peers: a.peers.remove(name),
            peer_list_state: crate::tui::app::up(a.peer_list_state),
            peer_files: Seq::empty(),
            ..a
        },
        "Removed manual peer "@ + name,
        LogKind::Info,
        clock,
    );
    lemma_noted(a, "Only manually added peers can be removed"@, LogKind::Warning, clock);
}

/// In the list of a peer's files, Down and `j` go to the next file, from the last
/// to the first; Up and `k` to the one before, and from the first nowhere; Left
/// goes back to the peers. None of them asks for anything or changes anything
/// else.
pub proof fn law_keys_in_the_list_of_files(
    a: AppView,
    peers: Seq<PeerView>,
    shares: Seq<SharedItemView>,
    key: Key,
    clock: Clock,
)
    requires
        panels_are_free(a),
        a.focus == Focus::PeerFiles,
        0 < a.peer_files.len() <= usize::MAX,
        a.peer_files_state < a.peer_files.len(),
    ensures
        ({
            let (b, effects) = a.key(peers, shares, key, clock);
            let down = key == Key::Down || key == Key::Char('j');
            let up = key == Key::Up || key == Key::Char('k');
            &&& down || up || key == Key::Left ==> effects.len() == 0
            &&& down ==> b.peer_files_state == (if a.peer_files_state + 1 == a.peer_files.len() {
                0int
            } else {
                a.peer_files_state + 1
            })
            &&& up && a.peer_files_state > 0 ==> b.peer_files_state == a.peer_files_state - 1
            &&& up && a.peer_files_state == 0 ==> b == a
            &&& down || up ==> b == (AppView { peer_files_state: b.peer_files_state, ..a })
            &&& key == Key::Left ==> b == (AppView { focus: Focus::PeerList, ..a })
        }),
{
    lemma_down_around(a.peer_files_state, a.peer_files.len());
}

/// In the list of a peer's files, Enter and `d` download the selected file where
/// it can be had and is not being downloaded already: from that peer, under its
/// id and name, into the folder for downloads. It is shown from then on, from
/// nothing, and noted. Where it is being downloaded the user is warned, and where
/// it cannot be had nothing happens.
pub proof fn law_files_are_downloaded_on_request(
    a: AppView,
    peers: Seq<PeerView>,
    shares: Seq<SharedItemView>,
    key: Key,
    clock: Clock,
)
    requires
        panels_are_free(a),
        a.focus == Focus::PeerFiles,
        a.peer_list_state < peers.len(),
        a.peer_files_state < a.peer_files.len(),
        key == Key::Enter || key == Key::Char('d'),
    ensures
        ({
            let p = peers[a.peer_list_state as int];
            let f = a.peer_files[a.peer_files_state as int];
            let (b, effects) = a.key(peers, shares, key, clock);
            let running = exists|i: int|
                0 <= i < a.active_downloads.len() && (#[trigger] a.active_downloads[i]).id == f.id
                    && !a.active_downloads[i].done;
            &&& !f.available ==> b == a && effects.len() == 0
            &&& f.available && running ==> {
                &&& effects.len() == 0
                &&& b.active_downloads == a.active_downloads
                &&& with_note(
                    b,
                    "'"@ + f.name + "' is already downloading"@,
                    LogKind::Warning,
                    clock,
                )
            }
            &&& f.available && !running ==> {
                let d = b.active_downloads.last();
                &&& effects == seq![
                    EffectView::StartDownload {
                        base_url: "https://"@ + p.addr + ":"@ + decimal_text(p.port as nat),
                        id: f.id,
                        name: f.name,
                        dir: a.config.download_dir,
                    },
                ]
                &&& b.active_downloads.len() == a.active_downloads.len() + 1
                &&& b.active_downloads.drop_last() == a.active_downloads
                &&& d.id == f.id && d.name == f.name && d.total == f.size && d.bytes_done == 0
                &&& !d.done && !d.cancelled && !d.retrying && !d.paused && d.done_at is None
                &&& d.pause_tx == Some(DownloadControl::Running)
                &&& d.last_activity == clock.mono
                &&& with_note(b, "Downloading '"@ + f.name + "'…"@, LogKind::Info, clock)
            }
        }),
{
    let f = a.peer_files[a.peer_files_state as int];
    lemma_noted(a, "'"@ + f.name + "' is already downloading"@, LogKind::Warning, clock);
    let started = AppView {
        active_downloads: a.active_downloads.push(
            crate::tui::app::new_download(f, clock.mono),
        ),
        ..a
    };
    lemma_noted(started, "Downloading '"@ + f.name + "'…"@, LogKind::Info, clock);
    assert(started.active_downloads.drop_last() =~= a.active_downloads);
}

/// In the list of shares, Down and `j` go to the next share, from the last to the
/// first, and Up and `k` to the one before, and from the first nowhere; nothing
/// else changes.
pub proof fn law_keys_in_the_list_of_shares(
    a: AppView,
    peers: Seq<PeerView>,
    shares: Seq<SharedItemView>,
    key: Key,
    clock: Clock,
)
    requires
        panels_are_free(a),
        a.focus == Focus::MyShares,
        0 < shares.len() <= usize::MAX,
        a.my_shares_state < shares.len(),
    ensures
        ({
            let (b, effects) = a.key(peers, shares, key, clock);
            let down = key == Key::Down || key == Key::Char('j');
            let up = key == Key::Up || key == Key::Char('k');
            &&& down || up ==> effects.len() == 0 && b == (AppView {
                my_shares_state: b.my_shares_state,
                ..a
            })
            &&& down ==> b.my_shares_state == (if a.my_shares_state + 1 == shares.len() {
                0int
            } else {
                a.my_shares_state + 1
            })
            &&& up && a.my_shares_state > 0 ==> b.my_shares_state == a.my_shares_state - 1
            &&& up && a.my_shares_state == 0 ==> b == a
        }),
{
    lemma_down_around(a.my_shares_state, shares.len());
}

/// In the list of shares, Delete and `x` take exactly the selected share out, note
/// it, and have the index brought up to date; an archive that was made for the
/// share is deleted, and no other file.
pub proof fn law_shares_are_removed_on_request(
    a: AppView,
    peers: Seq<PeerView>,
    shares: Seq<SharedItemView>,
    key: Key,
    clock: Clock,
)
    requires
        panels_are_free(a),
        a.focus == Focus::MyShares,
        a.my_shares_state < shares.len(),
        key == Key::Delete || key == Key::Char('x'),
    ensures
        ({
            let item = shares[a.my_shares_state as int];
            let (b, effects) = a.key(peers, shares, key, clock);
            &&& b.shares == (RegistryView {
                items: a.shares.items.remove(item.id),
                dirty: true,
                ..a.shares
            })
            &&& item.kind == ShareKind::ZippedFolder ==> effects == seq![
                EffectView::DeleteFile { path: item.path },
                EffectView::FlushIndex,
            ]
            &&& item.kind != ShareKind::ZippedFolder ==> effects == seq![EffectView::FlushIndex]
            &&& a.my_shares_state > 0 ==> b.my_shares_state == a.my_shares_state - 1
            &&& a.my_shares_state == 0 ==> b.my_shares_state == 0
            &&& with_note(b, "Removed '"@ + item.name + "' from shares"@, LogKind::Info, clock)
            &&& b.peers == a.peers
            &&& b.active_downloads == a.active_downloads
        }),
{
    let item = shares[a.my_shares_state as int];
    lemma_noted(
        AppView {
            shares: RegistryView {
                items: a.shares.items.remove(item.id),
                dirty: true,
                ..a.shares
            },
            my_shares_state: crate::tui::app::up(a.my_shares_state),
            ..a
        },
        "Removed '"@ + item.name + "' from shares"@,
        LogKind::Info,
        clock,
    );
}

/// In the list of transfers, Down and `j` go to the next download and Up and `k`
/// to the one before, and neither goes beyond the ends; nothing else changes.
pub proof fn law_keys_in_the_list_of_transfers(
    a: AppView,
    peers: Seq<PeerView>,
    shares: Seq<SharedItemView>,
    key: Key,
    clock: Clock,
)
    requires
        panels_are_free(a),
        a.focus == Focus::Transfers,
        0 < a.active_downloads.len() <= usize::MAX,
        a.transfer_cursor < a.active_downloads.len(),
    ensures
        ({
            let (b, effects) = a.key(peers, shares, key, clock);
            let down = key == Key::Down || key == Key::Char('j');
            let up = key == Key::Up || key == Key::Char('k');
            &&& down || up ==> effects.len() == 0 && b == (AppView {
                transfer_cursor: b.transfer_cursor,
                ..a
            })
            &&& down && a.transfer_cursor + 1 < a.active_downloads.len() ==> b.transfer_cursor
                == a.transfer_cursor + 1
            &&& down && a.transfer_cursor + 1 == a.active_downloads.len() ==> b == a
            &&& up && a.transfer_cursor > 0 ==> b.transfer_cursor == a.transfer_cursor - 1
            &&& up && a.transfer_cursor == 0 ==> b == a
        }),
{
}

/// In the list of transfers, `p` and the space bar pause the selected download or
/// let it go on, tell it so, and note it; one that has ended is left alone. No
/// other download changes.
pub proof fn law_downloads_are_paused_on_request(
    a: AppView,
    peers: Seq<PeerView>,
    shares: Seq<SharedItemView>,
    key: Key,
    clock: Clock,
)
    requires
        panels_are_free(a),
        a.focus == Focus::Transfers,
        a.transfer_cursor < a.active_downloads.len() <= usize::MAX,
        key == Key::Char('p') || key == Key::Char(' '),
    ensures
        ({
            let i = a.transfer_cursor as int;
            let d = a.active_downloads[i];
            let (b, effects) = a.key(peers, shares, key, clock);
            let wanted = if d.paused {
                DownloadControl::Running
            } else {
                DownloadControl::Paused
            };
            &&& d.done || d.cancelled ==> b == a && effects.len() == 0
            &&& !d.done && !d.cancelled ==> {
                let e = b.active_downloads[i];
                &&& b.active_downloads == a.active_downloads.update(i, e)
                &&& e.paused == !d.paused
                &&& e == (DownloadStateView {
                    paused: e.paused,
                    last_activity: e.last_activity,
                    pause_tx: e.pause_tx,
                    ..d
                })
                &&& d.paused ==> e.last_activity == clock.mono
                &&& !d.paused ==> e.last_activity == d.last_activity
                &&& d.pause_tx is Some ==> e.pause_tx == Some(wanted) && effects == seq![
                    EffectView::SetControl { id: d.id, control: wanted },
                ]
                &&& d.pause_tx is None ==> effects.len() == 0
                &&& with_note(
                    b,
                    (if d.paused {
                        "▶ Resumed '"@
                    } else {
                        "⏸ Paused '"@
                    }) + d.name + "'"@,
                    LogKind::Info,
                    clock,
                )
            }
        }),
{
    let i = a.transfer_cursor as int;
    let d = a.active_downloads[i];
    let here = AppView { transfer_cursor: a.clamped_cursor(), ..a };
    assert(here == a);
    let e = crate::tui::app::pause_toggled(d, clock.mono);
    let changed = AppView { active_downloads: a.active_downloads.update(i, e), ..a };
    lemma_noted(
        changed,
        (if e.paused {
            "⏸ Paused '"@
        } else {
            "▶ Resumed '"@
        }) + d.name + "'"@,
        LogKind::Info,
        clock,
    );
}

/// In the list of transfers, `c` and Delete give the selected download up: it is
/// told to stop and then nothing more, it is shown as given up from now on, and
/// that is noted. One that has ended is left alone. No other download changes.
pub proof fn law_downloads_are_given_up_on_request(
    a: AppView,
    peers: Seq<PeerView>,
    shares: Seq<SharedItemView>,
    key: Key,
    clock: Clock,
)
    requires
        panels_are_free(a),
        a.focus == Focus::Transfers,
        a.transfer_cursor < a.active_downloads.len() <= usize::MAX,
        key == Key::Char('c') || key == Key::Delete,
    ensures
        ({
            let i = a.transfer_cursor as int;
            let d = a.active_downloads[i];
            let (b, effects) = a.key(peers, shares, key, clock);
            &&& d.done || d.cancelled ==> b == a && effects.len() == 0
            &&& !d.done && !d.cancelled ==> {
                &&& b.active_downloads == a.active_downloads.update(
                    i,
                    DownloadStateView {
                        cancelled: true,
                        pause_tx: None,
                        done_at: Some(clock.mono),
                        ..d
                    },
                )
                &&& d.pause_tx is Some ==> effects == seq![
                    EffectView::SetControl { id: d.id, control: DownloadControl::Cancelled },
                    EffectView::CloseControl { id: d.id },
                ]
                &&& d.pause_tx is None ==> effects.len() == 0
                &&& with_note(b, "✖ Cancelled '"@ + d.name + "'"@, LogKind::Warning, clock)
            }
        }),
{
    let i = a.transfer_cursor as int;
    let d = a.active_downloads[i];
    let here = AppView { transfer_cursor: a.clamped_cursor(), ..a };
    assert(here == a);
    let changed = AppView {
        active_downloads: a.active_downloads.update(
            i,
            crate::tui::app::given_up(d, clock.mono),
        ),
        ..a
    };
    lemma_noted(changed, "✖ Cancelled '"@ + d.name + "'"@, LogKind::Warning, clock);
}

/// Keys that mean nothing in a panel do nothing there.
pub proof fn law_other_keys_do_nothing(
    a: AppView,
    peers: Seq<PeerView>,
    shares: Seq<SharedItemView>,
    clock: Clock,
)
    requires
        panels_are_free(a),
    ensures
        a.key(peers, shares, Key::Other, clock) == (a, Seq::<EffectView>::empty()),
        a.key(peers, shares, Key::Esc, clock) == (a, Seq::<EffectView>::empty()),
        a.key(peers, shares, Key::Backspace, clock) == (a, Seq::<EffectView>::empty()),
{
}

/// What the user types is known from the dialog that takes the keys: a path while
/// its dialog is open and nothing lies over it, an address while the other dialog
/// is, and else nothing.
pub proof fn law_typing_is_known(a: AppView)
    ensures
        a.typing() is Path <==> a.manual_path_input is Some && !a.show_qr && a.zip_confirm is None,
        a.manual_path_input is None && a.manual_ip_input is Some ==> a.typing() is Address,
        a.manual_path_input is None && a.manual_ip_input is None ==> a.typing() is Nothing,
{
}

/// Where the list of transfers has become shorter than the place that is selected
/// in it, its last download is the one that is paused or given up.
pub proof fn law_last_transfer_stands_for_those_gone(
    a: AppView,
    peers: Seq<PeerView>,
    shares: Seq<SharedItemView>,
    key: Key,
    clock: Clock,
)
    requires
        panels_are_free(a),
        a.focus == Focus::Transfers,
        0 < a.active_downloads.len() <= a.transfer_cursor,
        key == Key::Char('p') || key == Key::Char(' ') || key == Key::Char('c') || key
            == Key::Delete,
    ensures
        a.key(peers, shares, key, clock) == (AppView {
            transfer_cursor: (a.active_downloads.len() - 1) as usize,
            ..a
        }).key(peers, shares, key, clock),
{
    let last = AppView { transfer_cursor: (a.active_downloads.len() - 1) as usize, ..a };
    assert(a.clamped_cursor() == last.transfer_cursor);
    assert(last.clamped_cursor() == last.transfer_cursor);
    assert(AppView { transfer_cursor: a.clamped_cursor(), ..a } == AppView {
        transfer_cursor: last.clamped_cursor(),
        ..last
    });
}

/// With no transfers, the keys of the list of transfers do nothing; with no peer,
/// file or share, neither do those of the other lists.
pub proof fn law_keys_in_empty_lists_do_nothing(
    a: AppView,
    peers: Seq<PeerView>,
    shares: Seq<SharedItemView>,
    key: Key,
    clock: Clock,
)
    requires
        panels_are_free(a),
        key == Key::Down || key == Key::Char('j') || key == Key::Delete || key == Key::Char('x')
            || key == Key::Char('d') || key == Key::Char('p') || key == Key::Char('c'),
    ensures
        a.focus == Focus::PeerList && peers.len() == 0 ==> a.key(peers, shares, key, clock) == (
            a,
            Seq::<EffectView>::empty(),
        ),
        a.focus == Focus::PeerFiles && a.peer_files.len() == 0 ==> a.key(peers, shares, key, clock)
            == (a, Seq::<EffectView>::empty()),
        a.focus == Focus::MyShares && shares.len() == 0 ==> a.key(peers, shares, key, clock) == (
            a,
            Seq::<EffectView>::empty(),
        ),
        a.focus == Focus::Transfers && a.active_downloads.len() == 0 ==> a.key(
            peers,
            shares,
            key,
            clock,
        ) == (a, Seq::<EffectView>::empty()),
{
}

}
