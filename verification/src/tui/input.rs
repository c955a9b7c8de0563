//! Keys, and paths that are dropped onto the terminal and arrive as keys.

use crate::text::{
    has_bytes, text_bytes, to_chars, trim, trim_char, trimmed, trimmed_of, from_chars,
};
use crate::time::{elapsed_millis, millis_between};
use vstd::prelude::*;

verus! {

/// A key that was pressed.
#[derive(Debug, Clone, Copy, PartialEq, Eq, Structural)]
pub enum Key {
    Char(char),
    Backspace,
    Enter,
    Esc,
    Tab,
    BackTab,
    Up,
    Down,
    Left,
    Right,
    Delete,
    Other,
}

// ---------------------------------------------------------------------------
// Paths
// ---------------------------------------------------------------------------

/// Whether every character of a text stands in it twice in a row.
pub open spec fn is_doubled(s: Seq<char>) -> bool {
    &&& s.len() >= 4
    &&& s.len() % 2 == 0
    &&& forall|i: int| 0 <= i < s.len() / 2 ==> #[trigger] s[2 * i] == s[2 * i + 1]
}

/// A text without the doubling that some terminals add to dropped paths.
pub open spec fn deduplicated(s: Seq<char>) -> Seq<char> {
    if is_doubled(s) {
        Seq::new(s.len() / 2, |i: int| s[2 * i])
    } else {
        s
    }
}

/// A text without the doubling that some terminals add to dropped paths.
pub fn deduplicate_path(s: &str) -> (r: String)
    ensures
        r@ == deduplicated(s@),
{
    let chars = to_chars(s);
    let n = chars.len();
    if n < 4 || n % 2 != 0 {
        return s.to_owned();
    }
    let mut half: Vec<char> = Vec::new();
    let mut i: usize = 0;
    while i < n / 2
        invariant
            i <= n / 2,
            n == chars@.len(),
            chars@ == s@,
            n % 2 == 0,
            n >= 4,
            half@ =~= Seq::new(i as nat, |j: int| s@[2 * j]),
            forall|j: int| 0 <= j < i ==> #[trigger] s@[2 * j] == s@[2 * j + 1],
        decreases n / 2 - i,
    {
        if chars[2 * i] != chars[2 * i + 1] {
            assert(s@[2 * (i as int)] != s@[2 * (i as int) + 1]);
            return s.to_owned();
        }
        half.push(chars[2 * i]);
        i += 1;
    }
    assert(is_doubled(s@));
    assert(half@ =~= deduplicated(s@));
    from_chars(&half)
}

/// A text without white space and quotes around it.
pub open spec fn unquoted(s: Seq<char>) -> Seq<char> {
    trimmed_of(trimmed_of(trimmed(s), '"'), '\'')
}

fn unquote(s: &str) -> (r: String)
    ensures
        r@ == unquoted(s@),
{
    let t = trim(s);
    let u = trim_char(t.as_str(), '"');
    trim_char(u.as_str(), '\'')
}

/// Whether a text is a path that names all of its folders: it begins with a
/// slash or a backslash, or a colon follows its first character.
pub open spec fn path_like(s: Seq<char>) -> bool {
    let t = unquoted(s);
    ||| t.len() > 0 && (t[0] == '/' || t[0] == '\\')
    ||| t.len() > 1 && t[1] == ':' && text_bytes(t) >= 3
}

/// Whether a text is a path that names all of its folders.
pub fn looks_like_path(s: &str) -> (r: bool)
    ensures
        r == path_like(s@),
{
    let t = unquote(s);
    let long = has_bytes(t.as_str(), 3);
    let chars = to_chars(t.as_str());
    (chars.len() > 0 && (chars[0] == '/' || chars[0] == '\\')) || (chars.len() > 1 && chars[1]
        == ':' && long)
}

/// The path that a dropped or pasted text stands for.
pub open spec fn dropped_path(raw: Seq<char>) -> Seq<char> {
    deduplicated(unquoted(raw))
}

/// The path that a dropped or pasted text stands for.
pub fn clean_dropped(raw: &str) -> (r: String)
    ensures
        r@ == dropped_path(raw@),
{
    let t = unquote(raw);
    deduplicate_path(t.as_str())
}

/// What is said of a path that leads nowhere.
pub fn not_found_message(path: &str) -> (r: String)
    ensures
        r@ == "Path not found: "@ + path@,
{
    let mut out = "Path not found: ".to_owned();
    out.append(path);
    out
}

// ---------------------------------------------------------------------------
// Bursts of keys
// ---------------------------------------------------------------------------

/// The milliseconds after the last key of a burst in which another may follow.
pub const PATH_DEBOUNCE_MS: u64 = 30;

/// Keys that may be the beginning of a dropped path, the time of the last of
/// them, and whether they are known to be one.
#[derive(Debug)]
pub struct PathBurst {
    pub buf: String,
    pub last_key: Option<u64>,
    pub accumulating: bool,
}

/// A burst in mathematical terms.
pub struct BurstView {
    pub buf: Seq<char>,
    pub last_key: Option<u64>,
    pub accumulating: bool,
}

impl View for PathBurst {
    type V = BurstView;

    open spec fn view(&self) -> BurstView {
        BurstView {
            buf: self.buf@,
            last_key: self.last_key,
            accumulating: self.accumulating,
        }
    }
}

/// The text that a user types.
#[derive(Debug, Clone, Copy, PartialEq, Eq, Structural)]
pub enum Typing {
    Nothing,
    Address,
    Path,
}

/// What is to be done with keys.
#[derive(Debug)]
pub enum Route {
    /// Nothing.
    Ignore,
    /// Leave the program.
    Quit,
    /// Hand the key to the user interface.
    Press(Key),
    /// Share the path that this text stands for.
    Share(String),
}

/// What is to be done in mathematical terms.
pub enum RouteView {
    Ignore,
    Quit,
    Press(Key),
    Share(Seq<char>),
}

impl View for Route {
    type V = RouteView;

    open spec fn view(&self) -> RouteView {
        match *self {
            Route::Ignore => RouteView::Ignore,
            Route::Quit => RouteView::Quit,
            Route::Press(k) => RouteView::Press(k),
            Route::Share(s) => RouteView::Share(s@),
        }
    }
}

/// No burst.
pub open spec fn no_burst() -> BurstView {
    BurstView { buf: Seq::empty(), last_key: None, accumulating: false }
}

impl BurstView {
    /// Whether the last key lies so far back at `now` that no more will follow.
    pub open spec fn over(self, now: u64) -> bool {
        self.buf.len() > 0 && self.last_key is Some && elapsed_millis(now, self.last_key->0)
            >= PATH_DEBOUNCE_MS
    }

    /// After some time: a burst that is over is a path, or a single key, or
    /// nothing.
    pub open spec fn flushed(self, now: u64) -> (BurstView, RouteView) {
        if self.over(now) {
            (
                no_burst(),
                if path_like(deduplicated(self.buf)) {
                    RouteView::Share(self.buf)
                } else if text_bytes(self.buf) == 1 {
                    RouteView::Press(Key::Char(self.buf[0]))
                } else {
                    RouteView::Ignore
                },
            )
        } else {
            (self, RouteView::Ignore)
        }
    }

    /// Whether a key ends the program: `q`, unless it is part of a path that
    /// arrives or that the user types, and `c` with the control key always.
    pub open spec fn quits(self, key: Key, control: bool, typing: Typing) -> bool {
        (key == Key::Char('c') && control) || (key == Key::Char('q') && !self.accumulating
            && self.buf.len() == 0 && typing != Typing::Path)
    }

    /// The burst with the knowledge whether it is a path.
    pub open spec fn recognised(self) -> BurstView {
        BurstView {
            accumulating: self.accumulating || (text_bytes(self.buf) >= 2 && (path_like(
                deduplicated(self.buf),
            ) || path_like(self.buf))),
            ..self
        }
    }

    /// After a key that does not end the program. A slash or backslash begins
    /// a burst unless the user types a text; further characters go on with it,
    /// Enter shares it, and Esc drops it.
    pub open spec fn pressed(self, key: Key, typing: Typing, now: u64) -> (BurstView, RouteView) {
        match key {
            Key::Char(c) => if self.accumulating || self.buf.len() > 0 || ((c == '/' || c == '\\')
                && typing == Typing::Nothing) {
                (
                    BurstView {
                        buf: self.buf.push(c),
                        last_key: Some(now),
                        ..self
                    }.recognised(),
                    RouteView::Ignore,
                )
            } else {
                (self, RouteView::Press(key))
            },
            Key::Enter => if self.buf.len() > 0 {
                (no_burst(), RouteView::Share(self.buf))
            } else {
                (self, RouteView::Press(key))
            },
            Key::Esc => if self.buf.len() > 0 {
                (no_burst(), RouteView::Ignore)
            } else {
                (self, RouteView::Press(key))
            },
            _ => if self.buf.len() > 0 {
                (self.recognised(), RouteView::Ignore)
            } else {
                (self, RouteView::Press(key))
            },
        }
    }
}

impl PathBurst {
    /// No burst.
    pub fn new() -> (r: PathBurst)
        ensures
            r@ == no_burst(),
    {
        PathBurst { buf: String::new(), last_key: None, accumulating: false }
    }

    fn is_empty(&self) -> (r: bool)
        ensures
            r == (self@.buf.len() == 0),
    {
        to_chars(self.buf.as_str()).len() == 0
    }

    fn clear(&mut self)
        ensures
            final(self)@ == no_burst(),
    {
        self.buf = String::new();
        self.last_key = None;
        self.accumulating = false;
    }

    fn take(&mut self) -> (r: String)
        ensures
            final(self)@ == no_burst(),
            r@ == old(self)@.buf,
    {
        let mut raw = String::new();
        std::mem::swap(&mut raw, &mut self.buf);
        self.clear();
        raw
    }

    fn is_over(&self, now: u64) -> (r: bool)
        ensures
            r == self@.over(now),
    {
        match self.last_key {
            None => false,
            Some(t) => millis_between(now, t) >= PATH_DEBOUNCE_MS && !self.is_empty(),
        }
    }

    /// Decides what a burst was that is over.
    pub fn flush(&mut self, now: u64) -> (r: Route)
        ensures
            (final(self)@, r@) == old(self)@.flushed(now),
    {
        if !self.is_over(now) {
            return Route::Ignore;
        }
        let raw = self.take();
        let deduped = deduplicate_path(raw.as_str());
        if looks_like_path(deduped.as_str()) {
            Route::Share(raw)
        } else if has_bytes(raw.as_str(), 1) && !has_bytes(raw.as_str(), 2) {
            let chars = to_chars(raw.as_str());
            Route::Press(Key::Char(chars[0]))
        } else {
            Route::Ignore
        }
    }

    fn recognise(&mut self)
        ensures
            final(self)@ == old(self)@.recognised(),
    {
        if has_bytes(self.buf.as_str(), 2) {
            let deduped = deduplicate_path(self.buf.as_str());
            if looks_like_path(deduped.as_str()) || looks_like_path(self.buf.as_str()) {
                self.accumulating = true;
            }
        }
    }

    /// Decides what is to be done with a key.
    pub fn press(&mut self, key: Key, control: bool, typing: Typing, now: u64) -> (r: Route)
        ensures
            old(self)@.quits(key, control, typing) ==> r@ is Quit && final(self)@ == old(self)@,
            !old(self)@.quits(key, control, typing) ==> (final(self)@, r@) == old(self)@.pressed(
                key,
                typing,
                now,
            ),
    {
        if let Key::Char(c) = key {
            if (c == 'c' && control) || (c == 'q' && !self.accumulating && self.is_empty()
                && typing != Typing::Path) {
                return Route::Quit;
            }
        }
        match key {
            Key::Char(c) => {
                if self.accumulating || !self.is_empty() || ((c == '/' || c == '\\') && typing
                    == Typing::Nothing) {
                    self.buf.push(c);
                    self.last_key = Some(now);
                    self.recognise();
                    Route::Ignore
                } else {
                    Route::Press(key)
                }
            },
            Key::Enter => {
                if self.is_empty() {
                    Route::Press(key)
                } else {
                    Route::Share(self.take())
                }
            },
            Key::Esc => {
                if self.is_empty() {
                    Route::Press(key)
                } else {
                    self.clear();
                    Route::Ignore
                }
            },
            _ => {
                if self.is_empty() {
                    Route::Press(key)
                } else {
                    self.recognise();
                    Route::Ignore
                }
            },
        }
    }

    /// Takes a pasted text, which goes before anything that was typed.
    pub fn paste(&mut self, text: String) -> (r: Route)
        ensures
            final(self)@ == no_burst(),
            r@ == RouteView::Share(text@),
    {
        self.clear();
        Route::Share(text)
    }

    /// Drops a burst that is over and did not become a path.
    pub fn settle(&mut self, now: u64)
        ensures
            final(self)@ == (if old(self)@.over(now) && !old(self)@.accumulating {
                no_burst()
            } else {
                old(self)@
            }),
    {
        if !self.accumulating && self.is_over(now) {
            self.clear();
        }
    }
}

// ---------------------------------------------------------------------------
// Laws
// ---------------------------------------------------------------------------

/// A text with every character doubled.
pub open spec fn doubled(s: Seq<char>) -> Seq<char> {
    Seq::new(2 * s.len(), |i: int| s[i / 2])
}

/// A path that a terminal doubled is found again.
pub proof fn law_doubling_is_undone(s: Seq<char>)
    requires
        s.len() >= 2,
    ensures
        deduplicated(doubled(s)) == s,
{
    let d = doubled(s);
    assert forall|i: int| 0 <= i < d.len() / 2 implies #[trigger] d[2 * i] == d[2 * i + 1] by {
        assert((2 * i) / 2 == i);
        assert((2 * i + 1) / 2 == i);
    }
    assert(is_doubled(d));
    assert forall|i: int| 0 <= i < s.len() implies d[2 * i] == s[i] by {
        assert((2 * i) / 2 == i);
    }
    assert(deduplicated(d) =~= s);
}

/// The burst after these characters were pressed one after the other.
pub open spec fn typed(b: BurstView, chars: Seq<char>, now: u64) -> BurstView
    decreases chars.len(),
{
    if chars.len() == 0 {
        b
    } else {
        typed(b, chars.drop_last(), now).pressed(Key::Char(chars.last()), Typing::Nothing, now).0
    }
}

/// A path that is dropped onto the terminal arrives whole: the slash that it
/// begins with and all that follows is kept, and shared when no more follows.
pub proof fn law_dropped_path_is_shared(path: Seq<char>, now: u64, later: u64)
    requires
        path.len() > 0,
        path[0] == '/' || path[0] == '\\',
        path_like(deduplicated(path)),
        elapsed_millis(later, now) >= PATH_DEBOUNCE_MS,
    ensures
        typed(no_burst(), path, now).buf == path,
        typed(no_burst(), path, now).flushed(later) == (no_burst(), RouteView::Share(path)),
        forall|i: int|
            0 <= i < path.len() ==> !(#[trigger] typed(no_burst(), path.take(i), now)).quits(
                Key::Char(path[i]),
                false,
                Typing::Nothing,
            ),
{
    lemma_typed(path, now);
    assert forall|i: int| 0 <= i < path.len() implies !(#[trigger] typed(
        no_burst(),
        path.take(i),
        now,
    )).quits(Key::Char(path[i]), false, Typing::Nothing) by {
        if i > 0 {
            assert(path.take(i)[0] == path[0]);
            lemma_typed(path.take(i), now);
        }
    }
}

proof fn lemma_typed(path: Seq<char>, now: u64)
    requires
        path.len() > 0,
        path[0] == '/' || path[0] == '\\',
    ensures
        typed(no_burst(), path, now).buf == path,
        typed(no_burst(), path, now).last_key == Some(now),
    decreases path.len(),
{
    let front = path.drop_last();
    assert(front.push(path.last()) =~= path);
    if front.len() == 0 {
        assert(typed(no_burst(), front, now) == no_burst());
    } else {
        assert(front[0] == path[0]);
        lemma_typed(front, now);
    }
}

/// While a path arrives, none of its characters but `c` with the control key
/// ends the program.
pub proof fn law_paths_do_not_quit(b: BurstView, c: char, typing: Typing)
    requires
        b.accumulating || b.buf.len() > 0,
    ensures
        !b.quits(Key::Char(c), false, typing),
{
}

/// A user who types a path can type every character, and one who types an
/// address every character but `q`, which ends the program.
pub proof fn law_typing_reaches_the_dialog(c: char, now: u64)
    ensures
        !no_burst().quits(Key::Char(c), false, Typing::Path),
        no_burst().quits(Key::Char(c), false, Typing::Address) <==> c == 'q',
        forall|typing: Typing|
            typing != Typing::Nothing ==> #[trigger] no_burst().pressed(Key::Char(c), typing, now)
                == (no_burst(), RouteView::Press(Key::Char(c))),
{
}

/// A text is shortened exactly where it has at least four characters and each
/// stands twice in a row; then every other is left. Any other text stays.
pub proof fn law_only_doubled_texts_are_shortened(s: Seq<char>)
    ensures
        s.len() >= 4 && s.len() % 2 == 0 && (forall|i: int|
            0 <= i < s.len() / 2 ==> #[trigger] s[2 * i] == s[2 * i + 1]) ==> deduplicated(s).len()
            * 2 == s.len() && doubled(deduplicated(s)) == s,
        s.len() < 4 || s.len() % 2 != 0 ==> deduplicated(s) == s,
        (exists|i: int| 0 <= i < s.len() / 2 && #[trigger] s[2 * i] != s[2 * i + 1]) ==> deduplicated(
            s,
        ) == s,
{
    if is_doubled(s) {
        let d = deduplicated(s);
        assert(doubled(d) =~= s) by {
            assert forall|j: int| 0 <= j < s.len() implies doubled(d)[j] == s[j] by {
                let i = j / 2;
                assert(d[i] == s[2 * i]);
                assert(s[2 * i] == s[2 * i + 1]);
                assert(j == 2 * i || j == 2 * i + 1);
            }
        }
    }
}

/// A text whose ends are neither white space nor quotes is taken as it stands,
/// and so it is where it comes in quotes.
pub proof fn law_quotes_around_a_path_go(p: Seq<char>)
    requires
        p.len() > 0,
        !crate::text::is_white_space(p[0]) && p[0] != '"' && p[0] != '\'',
        !crate::text::is_white_space(p.last()) && p.last() != '"' && p.last() != '\'',
        !crate::text::is_white_space('"'),
        !crate::text::is_white_space('\''),
    ensures
        unquoted(p) == p,
        unquoted(seq!['"'] + p + seq!['"']) == p,
        unquoted(seq!['\''] + p + seq!['\'']) == p,
{
    let double = seq!['"'] + p + seq!['"'];
    let single = seq!['\''] + p + seq!['\''];
    lemma_untrimmed(p, None);
    lemma_untrimmed(p, Some('"'));
    lemma_untrimmed(p, Some('\''));
    lemma_untrimmed(double, None);
    lemma_untrimmed(single, None);
    lemma_untrimmed(single, Some('"'));
    crate::text::lemma_trim_wrapped(p, '"');
    crate::text::lemma_trim_wrapped(p, '\'');
}

proof fn lemma_untrimmed(s: Seq<char>, which: Option<char>)
    requires
        s.len() > 0,
        !crate::text::is_trimmed(s[0], which),
        !crate::text::is_trimmed(s.last(), which),
    ensures
        crate::text::trim_both(s, which) == s,
{
}

/// What is taken for a path begins, within white space and quotes, with a slash or
/// a backslash, or is a letter or other character with a colon behind it and
/// something more; nothing else is.
pub proof fn law_paths_are_recognised(s: Seq<char>)
    ensures
        ({
            let t = unquoted(s);
            path_like(s) <==> {
                ||| t.len() >= 1 && t[0] == '/'
                ||| t.len() >= 1 && t[0] == '\\'
                ||| t.len() >= 2 && t[1] == ':' && vstd::utf8::encode_utf8(t).len() >= 3
            }
        }),
{
    crate::text::law_text_bytes_are_utf8(unquoted(s));
}

/// A dropped or pasted path is shared as it stands, without quotes and white
/// space around it and without doubling.
pub proof fn law_dropped_paths_are_read(raw: Seq<char>)
    ensures
        dropped_path(raw) == deduplicated(unquoted(raw)),
        dropped_path(raw).len() <= raw.len(),
{
    crate::text::law_trimming_takes_both_ends(raw, None);
    let a = trimmed(raw);
    crate::text::law_trimming_takes_both_ends(a, Some('"'));
    let b = trimmed_of(a, '"');
    crate::text::law_trimming_takes_both_ends(b, Some('\''));
}

/// Keys after the beginning of a path go on with it: Enter shares what came so
/// far, Esc drops it, characters are put behind it, and other keys do nothing.
/// Without such a beginning, every key but a slash or backslash goes to the user
/// interface.
pub proof fn law_keys_go_on_with_a_path(b: BurstView, c: char, key: Key, typing: Typing, now: u64)
    ensures
        b.buf.len() > 0 ==> {
            &&& b.pressed(Key::Enter, typing, now) == (no_burst(), RouteView::Share(b.buf))
            &&& b.pressed(Key::Esc, typing, now) == (no_burst(), RouteView::Ignore)
            &&& b.pressed(Key::Char(c), typing, now).0.buf == b.buf.push(c)
            &&& b.pressed(Key::Char(c), typing, now).0.last_key == Some(now)
            &&& b.pressed(Key::Char(c), typing, now).1 is Ignore
            &&& !(key is Char || key is Enter || key is Esc) ==> b.pressed(key, typing, now).0.buf
                == b.buf && b.pressed(key, typing, now).1 is Ignore
        },
        b == no_burst() && !(typing is Nothing && (key == Key::Char('/') || key == Key::Char('\\')))
            ==> b.pressed(key, typing, now) == (b, RouteView::Press(key)),
        b == no_burst() && typing is Nothing && (c == '/' || c == '\\') ==> b.pressed(
            Key::Char(c),
            typing,
            now,
        ).0.buf == seq![c] && b.pressed(Key::Char(c), typing, now).1 is Ignore,
        no_burst().buf.len() == 0 && no_burst().last_key is None && !no_burst().accumulating,
{
    assert(Seq::<char>::empty().push(c) =~= seq![c]);
}

/// `q` ends the program where no path arrives and none is typed, and `c` with the
/// control key always does; no other key does.
pub proof fn law_keys_that_quit(b: BurstView, key: Key, control: bool, typing: Typing)
    ensures
        b.quits(key, control, typing) <==> (key == Key::Char('c') && control) || (key == Key::Char(
            'q',
        ) && !b.accumulating && b.buf.len() == 0 && !(typing is Path)),
{
}

/// Keys that came as a burst are decided on thirty milliseconds after the last of
/// them, and not before: a path is shared, a single key goes to the user
/// interface, and anything else is dropped.
pub proof fn law_bursts_are_decided(b: BurstView, now: u64)
    requires
        b.buf.len() > 0,
        b.last_key is Some,
    ensures
        now - b.last_key->0 < 30_000_000 ==> b.flushed(now) == (b, RouteView::Ignore),
        now - b.last_key->0 >= 30_000_000 ==> {
            &&& b.flushed(now).0 == no_burst()
            &&& path_like(deduplicated(b.buf)) ==> b.flushed(now).1 == RouteView::Share(b.buf)
            &&& !path_like(deduplicated(b.buf)) && vstd::utf8::encode_utf8(b.buf).len() == 1
                ==> b.flushed(now).1 == RouteView::Press(Key::Char(b.buf[0]))
            &&& !path_like(deduplicated(b.buf)) && vstd::utf8::encode_utf8(b.buf).len() != 1
                ==> b.flushed(now).1 is Ignore
        },
{
    crate::text::law_text_bytes_are_utf8(b.buf);
}

/// Keys that arrive are known to be a path as soon as two bytes of them look like
/// one, doubled or not, and stay known as one.
pub proof fn law_arriving_paths_are_known(b: BurstView, c: char, typing: Typing, now: u64)
    requires
        b.buf.len() > 0,
    ensures
        ({
            let n = b.pressed(Key::Char(c), typing, now).0;
            let text = b.buf.push(c);
            n.accumulating <==> b.accumulating || (vstd::utf8::encode_utf8(text).len() >= 2 && (
            path_like(text) || path_like(deduplicated(text))))
        }),
{
    crate::text::law_text_bytes_are_utf8(b.buf.push(c));
}

}
