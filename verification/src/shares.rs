//! The shares of this host: what each offers, and the registry of them all.

use crate::folder::{
    analyse_folder, compute_folder_checksum, file_count, folder_fingerprint, folder_size,
    manifest_of, max_depth, should_zip, total_size, worth_zipping, WalkEntry,
};
use crate::paths::{debug_path, path_debug_text};
use crate::table::{
    distinct_keys, keyed, lemma_keyed, lemma_keyed_push, lemma_keyed_remove, lemma_keyed_take,
    lemma_keyed_update, lemma_listed, lemma_lists_insert, lemma_without_absent,
    lemma_without_is_part, lemma_without_joined, lists, without, HasKey,
};
use crate::text::{decimal, decimal_text, opt_view, same, views};
use crate::time::{
    is_minutes_fit, minutes_fit, plus_minutes, signed_minutes, utc_now, Timestamp,
};
use std::path::PathBuf;
use vstd::prelude::*;

verus! {

/// What a share consists of.
#[derive(Debug, Clone, Copy, PartialEq, Eq, Structural)]
pub enum ShareKind {
    File,
    Folder,
    ZippedFolder,
}

/// Something that this host shares.
#[derive(Debug)]
pub struct SharedItem {
    pub id: String,
    pub name: String,
    pub kind: ShareKind,
    pub size: u64,
    pub path: PathBuf,
    pub checksum: String,
    pub added_at: Timestamp,
    pub download_count: u32,
    pub download_limit: Option<u32>,
    pub expires_at: Option<Timestamp>,
}

/// A share in mathematical terms.
pub struct SharedItemView {
    pub id: Seq<char>,
    pub name: Seq<char>,
    pub kind: ShareKind,
    pub size: u64,
    pub path: PathBuf,
    pub checksum: Seq<char>,
    pub added_at: Timestamp,
    pub download_count: u32,
    pub download_limit: Option<u32>,
    pub expires_at: Option<Timestamp>,
}

impl View for SharedItem {
    type V = SharedItemView;

    open spec fn view(&self) -> SharedItemView {
        SharedItemView {
            id: self.id@,
            name: self.name@,
            kind: self.kind,
            size: self.size,
            path: self.path,
            checksum: self.checksum@,
            added_at: self.added_at,
            download_count: self.download_count,
            download_limit: self.download_limit,
            expires_at: self.expires_at,
        }
    }
}

impl HasKey for SharedItemView {
    open spec fn key(self) -> Seq<char> {
        self.id
    }
}

impl Clone for SharedItem {
    fn clone(&self) -> (r: SharedItem)
        ensures
            r@ == self@,
    {
        SharedItem {
            id: self.id.clone(),
            name: self.name.clone(),
            kind: self.kind,
            size: self.size,
            path: self.path.clone(),
            checksum: self.checksum.clone(),
            added_at: self.added_at,
            download_count: self.download_count,
            download_limit: self.download_limit,
            expires_at: self.expires_at,
        }
    }
}

// ---------------------------------------------------------------------------
// Availability
// ---------------------------------------------------------------------------

impl SharedItemView {
    /// Whether the share has run out at `now`.
    pub open spec fn expired_at(self, now: Timestamp) -> bool {
        self.expires_at is Some && now.later_than(self.expires_at->0)
    }

    /// Whether the share was downloaded as often as it may be.
    pub open spec fn limit_reached(self) -> bool {
        self.download_limit is Some && self.download_count >= self.download_limit->0
    }

    /// Whether the share may be downloaded at `now`.
    pub open spec fn available_at(self, now: Timestamp) -> bool {
        !self.expired_at(now) && !self.limit_reached()
    }

    /// How long the share still runs at `now`, in words.
    pub open spec fn countdown_at(self, now: Timestamp) -> Option<Seq<char>> {
        match self.expires_at {
            None => None,
            Some(e) => Some(countdown_text(e.seconds_since_spec(now))),
        }
    }

    /// The file that goes when the share does: the archive that was made for it.
    pub open spec fn archive(self) -> Option<PathBuf> {
        if self.kind == ShareKind::ZippedFolder {
            Some(self.path)
        } else {
            None
        }
    }
}

/// A number of seconds until something runs out, in words.
pub open spec fn countdown_text(secs: int) -> Seq<char> {
    let h = secs / 3600;
    let m = (secs % 3600) / 60;
    let s = secs % 60;
    if secs <= 0 {
        "expired"@
    } else if h > 0 {
        "expires in "@ + decimal_text(h as nat) + "h "@ + decimal_text(m as nat) + "m"@
    } else if m > 0 {
        "expires in "@ + decimal_text(m as nat) + "m "@ + decimal_text(s as nat) + "s"@
    } else {
        "expires in "@ + decimal_text(s as nat) + "s"@
    }
}

/// A number of seconds until something runs out, in words.
fn format_countdown(secs: i128) -> (r: String)
    requires
        secs / 3600 <= u64::MAX,
    ensures
        r@ == countdown_text(secs as int),
{
    if secs <= 0 {
        return "expired".to_owned();
    }
    let h: u64 = (secs / 3600) as u64;
    let m: u64 = ((secs % 3600) / 60) as u64;
    let s: u64 = (secs % 60) as u64;
    let mut out = "expires in ".to_owned();
    if h > 0 {
        out.append(decimal(h).as_str());
        out.append("h ");
        out.append(decimal(m).as_str());
        out.append("m");
    } else if m > 0 {
        out.append(decimal(m).as_str());
        out.append("m ");
        out.append(decimal(s).as_str());
        out.append("s");
    } else {
        out.append(decimal(s).as_str());
        out.append("s");
    }
    out
}

impl SharedItem {
    /// Whether the share has run out at `now`.
    pub fn is_expired_at(&self, now: &Timestamp) -> (r: bool)
        ensures
            r == self@.expired_at(*now),
    {
        match &self.expires_at {
            Some(e) => now.is_later_than(e),
            None => false,
        }
    }

    /// Whether the share has run out by now.
    pub fn is_expired(&self) -> (r: bool)
        ensures
            self@.expires_at is None ==> !r,
            exists|now: Timestamp| now.wf() && now.secs >= 0 && r == #[trigger] self@.expired_at(now),
    {
        let now = utc_now();
        assert(now.wf() && now.secs >= 0);
        self.is_expired_at(&now)
    }

    /// Whether the share was downloaded as often as it may be.
    pub fn is_limit_reached(&self) -> (r: bool)
        ensures
            r == self@.limit_reached(),
    {
        match self.download_limit {
            Some(l) => self.download_count >= l,
            None => false,
        }
    }

    /// Whether the share may be downloaded at `now`.
    pub fn is_available_at(&self, now: &Timestamp) -> (r: bool)
        ensures
            r == self@.available_at(*now),
    {
        !self.is_expired_at(now) && !self.is_limit_reached()
    }

    /// Whether the share may be downloaded now.
    pub fn is_available(&self) -> (r: bool)
        ensures
            self@.expires_at is None ==> r == !self@.limit_reached(),
            self@.limit_reached() ==> !r,
            exists|now: Timestamp| now.wf() && now.secs >= 0 && r == #[trigger] self@.available_at(now),
    {
        let now = utc_now();
        assert(now.wf() && now.secs >= 0);
        self.is_available_at(&now)
    }

    /// The size of the share in readable units.
    pub fn size_human(&self) -> (r: String)
        ensures
            r@ == size_text(self.size as nat),
    {
        human_size(self.size)
    }

    /// How long the share still runs at `now`, in words.
    pub fn expiry_countdown_at(&self, now: &Timestamp) -> (r: Option<String>)
        ensures
            opt_view(r) == self@.countdown_at(*now),
    {
        match &self.expires_at {
            None => None,
            Some(e) => {
                let secs = e.seconds_since(now);
                Some(format_countdown(secs))
            },
        }
    }

    /// How long the share still runs, in words such as `expires in 4m 32s`.
    pub fn expiry_countdown(&self) -> (r: Option<String>)
        ensures
            r is Some <==> self@.expires_at is Some,
            exists|now: Timestamp|
                now.wf() && now.secs >= 0 && opt_view(r) == #[trigger] self@.countdown_at(now),
    {
        let now = utc_now();
        assert(now.wf() && now.secs >= 0);
        self.expiry_countdown_at(&now)
    }

    /// The archive to delete once the share is gone.
    pub fn archive_to_delete(&self) -> (r: Option<PathBuf>)
        ensures
            r == self@.archive(),
    {
        if matches!(self.kind, ShareKind::ZippedFolder) {
            Some(self.path.clone())
        } else {
            None
        }
    }
}

// ---------------------------------------------------------------------------
// Readable sizes
// ---------------------------------------------------------------------------

/// The quotient of `n` by `d`, rounded to the nearest whole number; halfway
/// between two, to the even one.
pub open spec fn round_div(n: nat, d: nat) -> nat {
    let q = n / d;
    let r = n % d;
    if 2 * r < d || (2 * r == d && q % 2 == 0) {
        q
    } else {
        q + 1
    }
}

/// The distance between neighbouring double-precision numbers around `n`,
/// where it is at least `step`.
pub open spec fn double_spacing(n: nat, step: nat) -> nat
    decreases n - step,
{
    if step == 0 || n < 0x20_0000_0000_0000 * step {
        step
    } else {
        double_spacing(n, 2 * step)
    }
}

/// The double-precision number nearest to `n`.
pub open spec fn nearest_double(n: nat) -> nat {
    let step = double_spacing(n, 1);
    round_div(n, step) * step
}

/// The bytes in one unit of a readable size, and the unit's name.
pub open spec fn size_unit(size: nat) -> (nat, Seq<char>) {
    if size < 0x10_0000 {
        (0x400, "KB"@)
    } else if size < 0x4000_0000 {
        (0x10_0000, "MB"@)
    } else if size < 0x100_0000_0000 {
        (0x4000_0000, "GB"@)
    } else {
        (0x100_0000_0000, "TB"@)
    }
}

/// A size in readable units: in bytes below 1024, and else with one decimal
/// in the largest unit that it fills, of the size as a double-precision number.
pub open spec fn size_text(size: nat) -> Seq<char> {
    if size < 0x400 {
        decimal_text(size) + " B"@
    } else {
        let (unit, name) = size_unit(size);
        let tenths = round_div(10 * nearest_double(size), unit);
        decimal_text(tenths / 10) + "."@ + decimal_text(tenths % 10) + " "@ + name
    }
}

fn round_div_even(n: u128, d: u128) -> (q: u128)
    requires
        d > 0,
        n <= 0x100_0000_0000_0000_0000_0000,
        d <= 0x100_0000_0000_0000_0000_0000,
    ensures
        q == round_div(n as nat, d as nat),
        q <= n + 1,
{
    let q: u128 = n / d;
    let r: u128 = n % d;
    proof {
        assert(q <= n) by (nonlinear_arith)
            requires
                q == n / d,
                d > 0,
        ;
    }
    if 2 * r < d || (2 * r == d && q % 2 == 0) {
        q
    } else {
        q + 1
    }
}

fn double_nearest_to(n: u64) -> (v: u128)
    ensures
        v == nearest_double(n as nat),
        v <= 0x1_0000_0000_0000_0000,
{
    let mut step: u128 = 1;
    while n as u128 >= 0x20_0000_0000_0000 * step
        invariant
            1 <= step <= 0x800,
            double_spacing(n as nat, 1) == double_spacing(n as nat, step as nat),
            step == 1 || n >= 0x10_0000_0000_0000 * step,
            small_power(step as int),
        decreases n - step,
    {
        step = step * 2;
    }
    let q = round_div_even(n as u128, step);
    proof {
        lemma_nearest_double_bound(n as nat, step as nat);
        assert(q * step <= 0x1_0000_0000_0000_0000);
    }
    q * step
}

/// The steps between doubles that a 64-bit number can call for.
spec fn small_power(step: int) -> bool {
    step == 1 || step == 2 || step == 4 || step == 8 || step == 16 || step == 32 || step == 64
        || step == 128 || step == 256 || step == 512 || step == 1024 || step == 2048
}

proof fn lemma_nearest_double_bound(n: nat, step: nat)
    requires
        n < 0x1_0000_0000_0000_0000,
        small_power(step as int),
    ensures
        round_div(n, step) * step <= 0x1_0000_0000_0000_0000,
{
    let whole: int = 0x1_0000_0000_0000_0000;
    let q = n / step;
    let most = whole / step as int;
    assert(most * step == whole) by (nonlinear_arith)
        requires
            most == whole / step as int,
            whole == 0x1_0000_0000_0000_0000,
            step == 1 || step == 2 || step == 4 || step == 8 || step == 16 || step == 32 || step
                == 64 || step == 128 || step == 256 || step == 512 || step == 1024 || step == 2048,
    ;
    assert(q < most) by (nonlinear_arith)
        requires
            q == n / step,
            n < whole,
            step > 0,
            most * step == whole,
    ;
    assert((q + 1) * step <= most * step) by (nonlinear_arith)
        requires
            q + 1 <= most,
            step > 0,
    ;
    assert(q * step <= (q + 1) * step) by (nonlinear_arith)
        requires
            step > 0,
    ;
}

/// A size in readable units.
pub fn human_size(size: u64) -> (r: String)
    ensures
        r@ == size_text(size as nat),
{
    if size < 0x400 {
        let mut out = decimal(size);
        out.append(" B");
        return out;
    }
    let v = double_nearest_to(size);
    let (unit, name): (u128, &str) = if size < 0x10_0000 {
        (0x400, "KB")
    } else if size < 0x4000_0000 {
        (0x10_0000, "MB")
    } else if size < 0x100_0000_0000 {
        (0x4000_0000, "GB")
    } else {
        (0x100_0000_0000, "TB")
    };
    let tenths = round_div_even(10 * v, unit);
    proof {
        assert(tenths <= 10 * v / unit as int + 1);
        assert(10 * v / unit as int <= 10 * v / 0x400) by (nonlinear_arith)
            requires
                unit >= 0x400,
                v >= 0,
        ;
    }
    let mut out = decimal((tenths / 10) as u64);
    out.append(".");
    out.append(decimal((tenths % 10) as u64).as_str());
    out.append(" ");
    out.append(name);
    out
}

// ---------------------------------------------------------------------------
// The registry
// ---------------------------------------------------------------------------

/// Every share of this host, and where the registry keeps its files.
pub struct ShareRegistry {
    items: Vec<SharedItem>,
    zip_cache_dir: PathBuf,
    index_path: PathBuf,
    dirty: bool,
}

/// The registry in mathematical terms: the shares by their ids, the two
/// places on disk, and whether the index on disk is out of date.
#[verifier::ext_equal]
pub struct RegistryView {
    pub items: Map<Seq<char>, SharedItemView>,
    pub zip_cache_dir: PathBuf,
    pub index_path: PathBuf,
    pub dirty: bool,
}

impl RegistryView {
    /// With a share put in, in the place of one with its id.
    pub open spec fn holding(self, item: SharedItemView) -> RegistryView {
        RegistryView { items: self.items.insert(item.id, item), ..self }
    }

    /// With the share taken out that has this id.
    pub open spec fn releasing(self, id: Seq<char>) -> RegistryView {
        RegistryView {
            items: self.items.remove(id),
            dirty: self.dirty || self.items.dom().contains(id),
            ..self
        }
    }

    /// With one more download counted of the share that has this id.
    pub open spec fn counting(self, id: Seq<char>) -> RegistryView {
        RegistryView {
            items: if self.items.dom().contains(id) {
                self.items.insert(id, counted(self.items[id]))
            } else {
                self.items
            },
            dirty: true,
            ..self
        }
    }

    /// Without the shares that may no longer be downloaded at `now`.
    pub open spec fn pruned(self, now: Timestamp) -> RegistryView {
        RegistryView {
            items: available_items(self.items, now),
            dirty: self.dirty || exists|id: Seq<char>| #[trigger]
                self.items.dom().contains(id) && !self.items[id].available_at(now),
            ..self
        }
    }

    /// With a share that was made and put in.
    pub open spec fn sharing(self, item: SharedItemView) -> RegistryView {
        RegistryView { items: self.items.insert(item.id, item), dirty: true, ..self }
    }
}

/// Whether every share was added at a time that a date can be given for.
pub open spec fn dated(m: Map<Seq<char>, SharedItemView>) -> bool {
    forall|id: Seq<char>| #[trigger] m.dom().contains(id) ==> m[id].added_at.wf()
}

/// Whether the shares that were added later come first.
pub open spec fn newest_first(s: Seq<SharedItemView>) -> bool {
    forall|i: int, j: int|
        0 <= i < j < s.len() ==> !(#[trigger] s[j].added_at).later_than(
            (#[trigger] s[i]).added_at,
        )
}

/// The shares of `m` that may be downloaded at `now`.
pub open spec fn available_items(m: Map<Seq<char>, SharedItemView>, now: Timestamp) -> Map<
    Seq<char>,
    SharedItemView,
> {
    m.restrict(m.dom().filter(|id: Seq<char>| m[id].available_at(now)))
}

/// The shares of `s` that may be downloaded at `now`, in their order.
pub open spec fn available_of(s: Seq<SharedItemView>, now: Timestamp) -> Seq<SharedItemView> {
    s.filter(|i: SharedItemView| i.available_at(now))
}

/// Whether `m` holds a share that may no longer be downloaded at `now`, and
/// whose archive is `p`.
pub open spec fn orphans(m: Map<Seq<char>, SharedItemView>, now: Timestamp, p: PathBuf) -> bool {
    exists|id: Seq<char>| #[trigger]
        m.dom().contains(id) && !m[id].available_at(now) && m[id].archive() == Some(p)
}

impl View for ShareRegistry {
    type V = RegistryView;

    closed spec fn view(&self) -> RegistryView {
        RegistryView {
            items: keyed(views(self.items@)),
            zip_cache_dir: self.zip_cache_dir,
            index_path: self.index_path,
            dirty: self.dirty,
        }
    }
}

impl ShareRegistry {
    /// Whether every share stands in the registry once.
    pub closed spec fn sound(&self) -> bool {
        distinct_keys(views(self.items@))
    }

    /// The shares in the order in which they are listed.
    pub closed spec fn listed(&self) -> Seq<SharedItemView> {
        by_age(views(self.items@))
    }

    /// Whether every share stands in the registry once, and was added at a
    /// time that a date can be given for.
    pub open spec fn wf(&self) -> bool {
        self.sound() && dated(self@.items)
    }

    /// What is listed is what the registry holds.
    pub proof fn lemma_listed_is_held(&self)
        requires
            self.wf(),
        ensures
            lists(self.listed(), self@.items),
            newest_first(self.listed()),
    {
        let s = views(self.items@);
        lemma_by_age(s, s.len() as int);
        assert(s.take(s.len() as int) =~= s);
    }

    /// An empty registry.
    pub fn new(zip_cache_dir: PathBuf, index_path: PathBuf) -> (r: ShareRegistry)
        ensures
            r.wf(),
            r@ == (RegistryView { items: Map::empty(), zip_cache_dir, index_path, dirty: false }),
    {
        ShareRegistry { items: Vec::new(), zip_cache_dir, index_path, dirty: false }
    }

    /// The folder that the archives are kept in.
    pub fn zip_cache_dir(&self) -> (p: &PathBuf)
        ensures
            *p == self@.zip_cache_dir,
    {
        &self.zip_cache_dir
    }

    /// The file that the index is kept in.
    pub fn index_path(&self) -> (p: &PathBuf)
        ensures
            *p == self@.index_path,
    {
        &self.index_path
    }

    /// The place of the share with an id.
    fn position(&self, id: &str) -> (r: Option<usize>)
        requires
            self.wf(),
        ensures
            match r {
                Some(i) => i < self.items@.len() && self.items@[i as int]@.id == id@,
                None => !self@.items.dom().contains(id@) && forall|i: int|
                    0 <= i < self.items@.len() ==> #[trigger] self.items@[i]@.id != id@,
            },
    {
        let mut i: usize = 0;
        while i < self.items.len()
            invariant
                i <= self.items@.len(),
                forall|j: int| 0 <= j < i ==> #[trigger] self.items@[j]@.id != id@,
            decreases self.items@.len() - i,
        {
            if same(self.items[i].id.as_str(), id) {
                return Some(i);
            }
            i += 1;
        }
        proof {
            let s = views(self.items@);
            lemma_keyed(s);
            if keyed(s).dom().contains(id@) {
                let j = choose|j: int| 0 <= j < s.len() && #[trigger] s[j].key() == id@;
                assert(self.items@[j]@.id == id@);
            }
        }
        None
    }

    /// Puts a share into the registry, in the place of one with the same id.
    pub fn insert(&mut self, item: SharedItem)
        requires
            old(self).wf(),
            item@.added_at.wf(),
        ensures
            final(self).wf(),
            final(self)@ == (RegistryView {
                items: old(self)@.items.insert(item@.id, item@),
                ..old(self)@
            }),
            final(self)@ == old(self)@.holding(item@),
    {
        broadcast use crate::text::group_views;

        let ghost before = views(self.items@);
        let ghost x = item@;
        let at = self.position(item.id.as_str());
        match at {
            Some(i) => {
                proof {
                    lemma_keyed_update(before, i as int, x);
                }
                self.items.set(i, item);
            },
            None => {
                proof {
                    assert forall|i: int| 0 <= i < before.len() implies #[trigger] before[i].key()
                        != x.key() by {
                        assert(self.items@[i]@.id != x.id);
                    }
                    lemma_keyed_push(before, x);
                }
                self.items.push(item);
            },
        }
    }

    /// Notes that the index on disk is out of date.
    fn mark_dirty(&mut self)
        ensures
            final(self).sound() == old(self).sound(),
            final(self).listed() == old(self).listed(),
            final(self)@ == (RegistryView { dirty: true, ..old(self)@ }),
    {
        self.dirty = true;
    }

    /// Hands out what is to be written to the index, where the index on disk
    /// is out of date, and counts it as written.
    pub fn flush_if_dirty(&mut self) -> (r: Option<Vec<SharedItem>>)
        requires
            old(self).wf(),
        ensures
            final(self).wf(),
            final(self)@ == (RegistryView { dirty: false, ..old(self)@ }),
            final(self).listed() == old(self).listed(),
            r is Some <==> old(self)@.dirty,
            r is Some ==> lists(views(r->0@), old(self)@.items),
    {
        if self.dirty {
            self.dirty = false;
            Some(self.write_index())
        } else {
            None
        }
    }

    /// The shares that the index holds.
    fn write_index(&self) -> (r: Vec<SharedItem>)
        requires
            self.wf(),
        ensures
            lists(views(r@), self@.items),
    {
        broadcast use crate::text::group_views;

        let mut out: Vec<SharedItem> = Vec::new();
        let mut i: usize = 0;
        while i < self.items.len()
            invariant
                i <= self.items@.len(),
                views(out@) == views(self.items@).take(i as int),
            decreases self.items@.len() - i,
        {
            out.push(self.items[i].clone());
            i += 1;
            assert(views(self.items@).take(i as int) =~= views(self.items@).take(i - 1).push(
                self.items@[i - 1]@,
            ));
        }
        proof {
            assert(views(self.items@).take(i as int) =~= views(self.items@));
            lemma_keyed(views(self.items@));
        }
        out
    }

    /// The share with an id.
    pub fn get(&self, id: &str) -> (r: Option<SharedItem>)
        requires
            self.wf(),
        ensures
            opt_view(r) == (if self@.items.dom().contains(id@) {
                Some(self@.items[id@])
            } else {
                None
            }),
    {
        match self.position(id) {
            Some(i) => {
                proof {
                    let s = views(self.items@);
                    lemma_keyed(s);
                    assert(s[i as int].key() == id@);
                }
                Some(self.items[i].clone())
            },
            None => None,
        }
    }

    /// Takes the share with an id out of the registry. The archive that it
    /// offered, if it offered one, is then to be deleted.
    pub fn remove(&mut self, id: &str) -> (r: Option<SharedItem>)
        requires
            old(self).wf(),
        ensures
            final(self).wf(),
            opt_view(r) == (if old(self)@.items.dom().contains(id@) {
                Some(old(self)@.items[id@])
            } else {
                None
            }),
            final(self)@ == (RegistryView {
                items: old(self)@.items.remove(id@),
                dirty: old(self)@.dirty || old(self)@.items.dom().contains(id@),
                ..old(self)@
            }),
            final(self)@ == old(self)@.releasing(id@),
            final(self).listed() == without(old(self).listed(), id@),
    {
        broadcast use crate::text::group_views;

        let ghost before = views(self.items@);
        proof {
            lemma_keyed(before);
        }
        match self.position(id) {
            Some(i) => {
                proof {
                    assert(before[i as int].key() == id@);
                    lemma_keyed_remove(before, i as int);
                    lemma_by_age_without(before, i as int);
                }
                let item = self.items.remove(i);
                self.mark_dirty();
                Some(item)
            },
            None => {
                proof {
                    assert(self@.items.remove(id@) =~= self@.items);
                    self.lemma_listed_is_held();
                    assert forall|i: int| 0 <= i < self.listed().len() implies (
                    #[trigger] self.listed()[i]).key() != id@ by {
                        assert(self@.items.dom().contains(self.listed()[i].key()));
                    }
                    lemma_without_absent(self.listed(), id@);
                }
                None
            },
        }
    }

    /// Whether another download of the share with an id can be counted.
    pub open spec fn countable(self, id: Seq<char>) -> bool {
        self@.items.dom().contains(id) ==> self@.items[id].download_count < u32::MAX
    }

    /// Whether another download of the share with an id can be counted.
    pub fn is_countable(&self, id: &str) -> (r: bool)
        requires
            self.wf(),
        ensures
            r == self.countable(id@),
    {
        match self.get(id) {
            Some(item) => item.download_count < u32::MAX,
            None => true,
        }
    }

    /// Counts a download of the share with an id. The index on disk is
    /// brought up to date later, so that many downloads cost one write.
    pub fn increment_downloads(&mut self, id: &str)
        requires
            old(self).wf(),
            old(self).countable(id@),
        ensures
            final(self).wf(),
            final(self)@ == (RegistryView {
                items: if old(self)@.items.dom().contains(id@) {
                    old(self)@.items.insert(id@, counted(old(self)@.items[id@]))
                } else {
                    old(self)@.items
                },
                dirty: true,
                ..old(self)@
            }),
            final(self)@ == old(self)@.counting(id@),
    {
        broadcast use crate::text::group_views;

        let ghost before = views(self.items@);
        proof {
            lemma_keyed(before);
        }
        match self.position(id) {
            Some(i) => {
                let mut item = self.items[i].clone();
                proof {
                    assert(before[i as int].key() == id@);
                    assert(self@.items[id@] == item@);
                }
                item.download_count = item.download_count + 1;
                proof {
                    lemma_keyed_update(before, i as int, item@);
                }
                self.items.set(i, item);
            },
            None => {},
        }
        self.mark_dirty();
    }
}

/// A share after one more download.
pub open spec fn counted(item: SharedItemView) -> SharedItemView {
    SharedItemView { download_count: (item.download_count + 1) as u32, ..item }
}

// ---------------------------------------------------------------------------
// Lists
// ---------------------------------------------------------------------------

/// How many shares at the start of `s` were not added before `x`.
pub open spec fn not_older(s: Seq<SharedItemView>, x: SharedItemView) -> int
    decreases s.len(),
{
    if s.len() == 0 || x.added_at.later_than(s[0].added_at) {
        0
    } else {
        1 + not_older(s.skip(1), x)
    }
}

/// The shares of `s`, those that were added last first, and those that were
/// added at the same time in the order of `s`.
pub open spec fn by_age(s: Seq<SharedItemView>) -> Seq<SharedItemView>
    decreases s.len(),
{
    if s.len() == 0 {
        Seq::empty()
    } else {
        let sorted = by_age(s.drop_last());
        sorted.insert(not_older(sorted, s.last()), s.last())
    }
}

proof fn lemma_not_older(s: Seq<SharedItemView>, x: SharedItemView, at: int)
    requires
        0 <= at <= s.len(),
        forall|i: int| 0 <= i < at ==> !x.added_at.later_than(#[trigger] s[i].added_at),
        at < s.len() ==> x.added_at.later_than(s[at].added_at),
    ensures
        not_older(s, x) == at,
    decreases s.len(),
{
    if at > 0 {
        let t = s.skip(1);
        assert forall|i: int| 0 <= i < at - 1 implies !x.added_at.later_than(
            #[trigger] t[i].added_at,
        ) by {
            assert(t[i] == s[i + 1]);
        }
        assert(!x.added_at.later_than(s[0].added_at));
        lemma_not_older(t, x, at - 1);
    }
}

/// Putting a share where it belongs by age keeps the order.
proof fn lemma_insert_by_age(s: Seq<SharedItemView>, x: SharedItemView)
    requires
        newest_first(s),
    ensures
        0 <= not_older(s, x) <= s.len(),
        newest_first(s.insert(not_older(s, x), x)),
{
    lemma_not_older_bounds(s, x);
    let at = not_older(s, x);
    let t = s.insert(at, x);
    assert forall|i: int, j: int| 0 <= i < j < t.len() implies !(
    #[trigger] t[j].added_at).later_than((#[trigger] t[i]).added_at) by {
        if j < at {
            assert(!s[j].added_at.later_than(s[i].added_at));
        } else if j == at {
            assert(t[i] == s[i]);
            assert(!x.added_at.later_than(s[i].added_at));
        } else if i < at {
            assert(!s[j - 1].added_at.later_than(s[i].added_at));
        } else if i == at {
            assert(t[j] == s[j - 1]);
            assert(x.added_at.later_than(s[at].added_at));
            if j - 1 > at {
                assert(!s[j - 1].added_at.later_than(s[at].added_at));
            }
        } else {
            assert(!s[j - 1].added_at.later_than(s[i - 1].added_at));
        }
    }
}

proof fn lemma_not_older_bounds(s: Seq<SharedItemView>, x: SharedItemView)
    ensures
        0 <= not_older(s, x) <= s.len(),
        forall|i: int| 0 <= i < not_older(s, x) ==> !x.added_at.later_than(#[trigger] s[i].added_at),
        not_older(s, x) < s.len() ==> x.added_at.later_than(s[not_older(s, x)].added_at),
    decreases s.len(),
{
    if s.len() > 0 && !x.added_at.later_than(s[0].added_at) {
        let t = s.skip(1);
        lemma_not_older_bounds(t, x);
        assert forall|i: int| 0 <= i < not_older(s, x) implies !x.added_at.later_than(
            #[trigger] s[i].added_at,
        ) by {
            if i > 0 {
                assert(t[i - 1] == s[i]);
            }
        }
    }
}

proof fn lemma_by_age(s: Seq<SharedItemView>, i: int)
    requires
        distinct_keys(s),
        0 <= i <= s.len(),
    ensures
        lists(by_age(s.take(i)), keyed(s.take(i))),
        newest_first(by_age(s.take(i))),
    decreases i,
{
    if i > 0 {
        lemma_by_age(s, i - 1);
        lemma_keyed_take(s, i - 1);
        assert(s.take(i).drop_last() =~= s.take(i - 1));
        let sorted = by_age(s.take(i - 1));
        lemma_insert_by_age(sorted, s[i - 1]);
        lemma_lists_insert(
            sorted,
            keyed(s.take(i - 1)),
            not_older(sorted, s[i - 1]),
            s[i - 1],
        );
    }
}

/// Leaving a share out and putting another where it belongs by age can be done
/// in either order.
proof fn lemma_insert_without(u: Seq<SharedItemView>, x: SharedItemView, k: Seq<char>)
    requires
        newest_first(u),
        x.key() != k,
    ensures
        without(u.insert(not_older(u, x), x), k) == without(u, k).insert(
            not_older(without(u, k), x),
            x,
        ),
{
    lemma_not_older_bounds(u, x);
    let p = not_older(u, x);
    let a = u.take(p);
    let b = u.skip(p);
    let wa = without(a, k);
    let wb = without(b, k);
    let w = without(u, k);
    assert(u =~= a + b);
    assert(u.insert(p, x) =~= a.push(x) + b);
    lemma_without_joined(a, b, k);
    lemma_without_joined(a.push(x), b, k);
    assert(a.push(x).drop_last() =~= a);
    lemma_without_is_part(a, k);
    lemma_without_is_part(b, k);
    assert forall|i: int| 0 <= i < wa.len() implies !x.added_at.later_than(
        #[trigger] w[i].added_at,
    ) by {
        assert(w[i] == wa[i]);
        let j = choose|j: int| 0 <= j < a.len() && #[trigger] a[j] == wa[i];
        assert(a[j] == u[j]);
    }
    if wa.len() < w.len() {
        let i = wa.len() as int;
        assert(w[i] == wb[0]);
        let j = choose|j: int| 0 <= j < b.len() && #[trigger] b[j] == wb[0];
        assert(b[j] == u[p + j]);
        assert(x.added_at.later_than(u[p].added_at));
        if j > 0 {
            assert(!u[p + j].added_at.later_than(u[p].added_at));
        }
        assert(x.added_at.later_than(w[i].added_at));
    }
    lemma_not_older(w, x, wa.len() as int);
    assert(without(u.insert(p, x), k) =~= w.insert(wa.len() as int, x));
}

/// Taking a share out leaves the order of the others.
proof fn lemma_by_age_without(s: Seq<SharedItemView>, i: int)
    requires
        distinct_keys(s),
        0 <= i < s.len(),
    ensures
        by_age(s.remove(i)) == without(by_age(s), s[i].key()),
    decreases s.len(),
{
    let k = s[i].key();
    let n = s.len() as int;
    let t = s.drop_last();
    let x = s.last();
    lemma_by_age(s, n - 1);
    assert(s.take(n - 1) =~= t);
    lemma_keyed_take(s, n - 1);
    let u = by_age(t);
    assert forall|a: int, b: int| 0 <= a < b < t.len() implies #[trigger] t[a].key()
        != #[trigger] t[b].key() by {
        assert(s[a].key() != s[b].key());
    }
    if i == n - 1 {
        lemma_not_older_bounds(u, x);
        let p = not_older(u, x);
        lemma_keyed(t);
        assert forall|a: int| 0 <= a < u.len() implies (#[trigger] u[a]).key() != k by {
            assert(keyed(t).dom().contains(u[a].key()));
            let b = choose|b: int| 0 <= b < t.len() && #[trigger] t[b].key() == u[a].key();
            assert(s[b].key() != s[n - 1].key());
        }
        lemma_without_absent(u, k);
        assert(u =~= u.take(p) + u.skip(p));
        assert(u.insert(p, x) =~= u.take(p).push(x) + u.skip(p));
        lemma_without_joined(u.take(p), u.skip(p), k);
        lemma_without_joined(u.take(p).push(x), u.skip(p), k);
        assert(u.take(p).push(x).drop_last() =~= u.take(p));
        assert(s.remove(i) =~= t);
    } else {
        assert(t[i] == s[i]);
        lemma_by_age_without(t, i);
        assert(s.remove(i).drop_last() =~= t.remove(i));
        assert(s.remove(i).last() == x);
        assert(s[i].key() != s[n - 1].key());
        lemma_insert_without(u, x, k);
    }
}

/// Puts `item` behind the last share that was not added before it.
fn insert_by_age(sorted: &mut Vec<SharedItem>, item: SharedItem)
    requires
        newest_first(views(old(sorted)@)),
    ensures
        newest_first(views(final(sorted)@)),
        0 <= not_older(views(old(sorted)@), item@) <= old(sorted)@.len(),
        views(final(sorted)@) == views(old(sorted)@).insert(
            not_older(views(old(sorted)@), item@),
            item@,
        ),
{
    let n = sorted.len();
    let mut at: usize = 0;
    while at < n && !item.added_at.is_later_than(&sorted[at].added_at)
        invariant
            at <= n == sorted@.len(),
            sorted@ == old(sorted)@,
            forall|i: int|
                0 <= i < at ==> !item.added_at.later_than(#[trigger] sorted@[i].added_at),
        decreases n - at,
    {
        at += 1;
    }
    let ghost s = views(sorted@);
    let ghost x = item@;
    proof {
        assert forall|i: int| 0 <= i < at implies !x.added_at.later_than(
            #[trigger] s[i].added_at,
        ) by {
            assert(s[i].added_at == sorted@[i].added_at);
        }
        lemma_not_older(s, x, at as int);
    }
    sorted.insert(at, item);
    proof {
        lemma_insert_by_age(s, x);
        assert(views(sorted@) =~= s.insert(at as int, x));
    }
}

impl ShareRegistry {
    /// Every share, those that were added last first.
    pub fn list(&self) -> (r: Vec<SharedItem>)
        requires
            self.wf(),
        ensures
            views(r@) == self.listed(),
            lists(views(r@), self@.items),
            newest_first(views(r@)),
    {
        let ghost s = views(self.items@);
        let mut out: Vec<SharedItem> = Vec::new();
        let mut i: usize = 0;
        assert(views(out@) =~= Seq::<SharedItemView>::empty());
        assert(s.take(0) =~= Seq::<SharedItemView>::empty());
        while i < self.items.len()
            invariant
                i <= self.items@.len(),
                s == views(self.items@),
                distinct_keys(s),
                newest_first(views(out@)),
                views(out@) == by_age(s.take(i as int)),
                lists(views(out@), keyed(s.take(i as int))),
            decreases self.items@.len() - i,
        {
            let ghost before = views(out@);
            let item = self.items[i].clone();
            let ghost x = item@;
            insert_by_age(&mut out, item);
            proof {
                lemma_keyed_take(s, i as int);
                assert(s.take(i + 1).drop_last() =~= s.take(i as int));
                lemma_lists_insert(before, keyed(s.take(i as int)), not_older(before, x), x);
            }
            i += 1;
        }
        assert(s.take(i as int) =~= s);
        out
    }

    /// The shares that may be downloaded at `now`, in the order in which all
    /// are listed.
    pub fn list_available_at(&self, now: &Timestamp) -> (r: Vec<SharedItem>)
        requires
            self.wf(),
        ensures
            views(r@) == available_of(self.listed(), *now),
            lists(views(r@), available_items(self@.items, *now)),
            newest_first(views(r@)),
    {
        broadcast use crate::text::group_views;

        let all = self.list();
        let ghost s = views(all@);
        let mut out: Vec<SharedItem> = Vec::new();
        let mut i: usize = 0;
        assert(views(out@) =~= Seq::<SharedItemView>::empty());
        assert(s.take(0) =~= Seq::<SharedItemView>::empty());
        proof {
            lemma_listed(s, self@.items);
            reveal(Seq::filter);
            assert(available_items(keyed(s.take(0)), *now) =~= Map::empty());
        }
        while i < all.len()
            invariant
                i <= all@.len(),
                s == views(all@),
                distinct_keys(s),
                newest_first(s),
                newest_first(views(out@)),
                forall|a: int, b: int|
                    0 <= a < views(out@).len() && i <= b < s.len() ==> !(
                    #[trigger] s[b].added_at).later_than((#[trigger] views(out@)[a]).added_at),
                views(out@) == available_of(s.take(i as int), *now),
                lists(views(out@), available_items(keyed(s.take(i as int)), *now)),
            decreases all@.len() - i,
        {
            let ghost before = views(out@);
            let ghost m = keyed(s.take(i as int));
            let ghost x = s[i as int];
            proof {
                lemma_keyed_take(s, i as int);
                reveal(Seq::filter);
                assert(s.take(i + 1).drop_last() =~= s.take(i as int));
                assert(s.take(i + 1).last() == x);
            }
            if all[i].is_available_at(now) {
                out.push(all[i].clone());
                proof {
                    lemma_lists_insert(before, available_items(m, *now), before.len() as int, x);
                    assert(before.insert(before.len() as int, x) =~= before.push(x));
                    assert(available_items(m.insert(x.id, x), *now) =~= available_items(
                        m,
                        *now,
                    ).insert(x.id, x));
                    let after = views(out@);
                    assert(after == before.push(x));
                    assert forall|a: int, b: int| 0 <= a < after.len() && i < b < s.len() implies !(
                    #[trigger] s[b].added_at).later_than((#[trigger] after[a]).added_at) by {
                        if a < before.len() {
                            assert(after[a] == before[a]);
                        } else {
                            assert(after[a] == s[i as int]);
                        }
                    }
                    assert forall|a: int, b: int| 0 <= a < b < after.len() implies !(
                    #[trigger] after[b].added_at).later_than((#[trigger] after[a]).added_at) by {
                        assert(after[a] == before[a]);
                        if b < before.len() {
                            assert(after[b] == before[b]);
                        } else {
                            assert(after[b] == s[i as int]);
                        }
                    }
                }
            } else {
                assert(available_items(m.insert(x.id, x), *now) =~= available_items(m, *now));
            }
            i += 1;
        }
        assert(s.take(i as int) =~= s);
        out
    }

    /// The shares that may be downloaded now, in the order in which all are
    /// listed.
    pub fn list_available(&self) -> (r: Vec<SharedItem>)
        requires
            self.wf(),
        ensures
            newest_first(views(r@)),
            exists|now: Timestamp|
                now.wf() && now.secs >= 0 && #[trigger] lists(
                    views(r@),
                    available_items(self@.items, now),
                ) && views(r@) == available_of(self.listed(), now),
    {
        let now = utc_now();
        self.list_available_at(&now)
    }

    /// Drops the shares that may no longer be downloaded at `now`, and tells
    /// which archives are to be deleted with them.
    pub fn prune_expired_at(&mut self, now: &Timestamp) -> (r: Vec<PathBuf>)
        requires
            old(self).wf(),
        ensures
            final(self).wf(),
            final(self)@ == (RegistryView {
                items: available_items(old(self)@.items, *now),
                dirty: old(self)@.dirty || exists|id: Seq<char>| #[trigger]
                    old(self)@.items.dom().contains(id) && !old(self)@.items[id].available_at(*now),
                ..old(self)@
            }),
            final(self)@ == old(self)@.pruned(*now),
            forall|p: PathBuf| #[trigger] r@.contains(p) <==> orphans(old(self)@.items, *now, p),
    {
        broadcast use crate::text::group_views;

        let ghost s = views(self.items@);
        let ghost was_dirty = self.dirty;
        let ghost cache = self.zip_cache_dir;
        let ghost index = self.index_path;
        let mut kept: Vec<SharedItem> = Vec::new();
        let mut gone: Vec<PathBuf> = Vec::new();
        let mut dropped = false;
        let mut i: usize = 0;
        assert(s.take(0) =~= Seq::<SharedItemView>::empty());
        assert(available_items(keyed(s.take(0)), *now) =~= Map::empty());
        while i < self.items.len()
            invariant
                i <= self.items@.len(),
                s == views(self.items@),
                distinct_keys(s),
                self.dirty == was_dirty,
                self.zip_cache_dir == cache,
                self.index_path == index,
                distinct_keys(views(kept@)),
                keyed(views(kept@)) == available_items(keyed(s.take(i as int)), *now),
                dropped <==> exists|id: Seq<char>| #[trigger]
                    keyed(s.take(i as int)).dom().contains(id) && !keyed(
                        s.take(i as int),
                    )[id].available_at(*now),
                forall|p: PathBuf| #[trigger]
                    gone@.contains(p) <==> orphans(keyed(s.take(i as int)), *now, p),
            decreases self.items@.len() - i,
        {
            let ghost m = keyed(s.take(i as int));
            let ghost x = s[i as int];
            let ghost n = m.insert(x.id, x);
            let ghost gone_before = gone@;
            let ghost dropped_before = dropped;
            proof {
                lemma_keyed_take(s, i as int);
                lemma_keyed(views(kept@));
            }
            if self.items[i].is_available_at(now) {
                proof {
                    let k = views(kept@);
                    assert forall|a: int| 0 <= a < k.len() implies #[trigger] k[a].key() != x.key() by {
                        assert(keyed(k).dom().contains(k[a].key()));
                    }
                    lemma_keyed_push(k, x);
                    assert(available_items(n, *now) =~= available_items(m, *now).insert(x.id, x));
                }
                let item = self.items[i].clone();
                let ghost k = views(kept@);
                kept.push(item);
                assert(views(kept@) =~= k.push(x));
            } else {
                proof {
                    assert(available_items(n, *now) =~= available_items(m, *now));
                    assert(n.dom().contains(x.id) && !n[x.id].available_at(*now));
                }
                dropped = true;
                if let Some(p) = self.items[i].archive_to_delete() {
                    proof {
                        assert forall|q: PathBuf|
                            gone@.push(p).contains(q) == (#[trigger] gone@.contains(q) || q
                                == p) by {
                            if gone@.contains(q) {
                                let a = choose|a: int| 0 <= a < gone@.len() && gone@[a] == q;
                                assert(gone@.push(p)[a] == q);
                            }
                            assert(gone@.push(p)[gone@.len() as int] == p);
                        }
                    }
                    gone.push(p);
                }
            }
            proof {
                assert forall|p: PathBuf| #[trigger] gone@.contains(p) <==> orphans(
                    n,
                    *now,
                    p,
                ) by {
                    assert(gone_before.contains(p) <==> orphans(m, *now, p));
                    if orphans(m, *now, p) {
                        let id = choose|id: Seq<char>| #[trigger]
                            m.dom().contains(id) && !m[id].available_at(*now) && m[id].archive()
                                == Some(p);
                        assert(n.dom().contains(id) && n[id] == m[id]);
                    }
                    if orphans(n, *now, p) {
                        let id = choose|id: Seq<char>| #[trigger]
                            n.dom().contains(id) && !n[id].available_at(*now) && n[id].archive()
                                == Some(p);
                        if id != x.id {
                            assert(m.dom().contains(id) && n[id] == m[id]);
                        }
                    }
                    if !x.available_at(*now) && x.archive() == Some(p) {
                        assert(n.dom().contains(x.id));
                    }
                }
                if dropped_before {
                    let id = choose|id: Seq<char>| #[trigger]
                        m.dom().contains(id) && !m[id].available_at(*now);
                    assert(n.dom().contains(id) && n[id] == m[id]);
                }
                if !dropped && exists|id: Seq<char>| #[trigger]
                    n.dom().contains(id) && !n[id].available_at(*now) {
                    let id = choose|id: Seq<char>| #[trigger]
                        n.dom().contains(id) && !n[id].available_at(*now);
                    assert(m.dom().contains(id) && n[id] == m[id]);
                }
            }
            i += 1;
        }
        assert(s.take(i as int) =~= s);
        self.items = kept;
        if dropped {
            self.mark_dirty();
        }
        gone
    }

    /// Drops the shares that may no longer be downloaded, and tells which
    /// archives are to be deleted with them.
    pub fn prune_expired(&mut self) -> (r: Vec<PathBuf>)
        requires
            old(self).wf(),
        ensures
            final(self).wf(),
            exists|now: Timestamp|
                now.wf() && now.secs >= 0 && final(self)@ == (RegistryView {
                    items: #[trigger] available_items(old(self)@.items, now),
                    dirty: old(self)@.dirty || exists|id: Seq<char>| #[trigger]
                        old(self)@.items.dom().contains(id) && !old(self)@.items[id].available_at(
                            now,
                        ),
                    ..old(self)@
                }) && forall|p: PathBuf| #[trigger]
                    r@.contains(p) <==> orphans(old(self)@.items, now, p),
    {
        let now = utc_now();
        self.prune_expired_at(&now)
    }
}

// ---------------------------------------------------------------------------
// Adding
// ---------------------------------------------------------------------------

/// What a path leads to.
#[derive(Debug, Clone, Copy, PartialEq, Eq, Structural)]
pub enum PathKind {
    File,
    Directory,
    Other,
}

/// How a path is shared: a file as it is, a folder as an archive or file by
/// file, anything else not at all.
#[derive(Debug)]
pub enum SharePlan {
    File,
    Archive { file_name: String, files: usize },
    Folder { size: u64, checksum: String },
    Refused,
}

/// A plan in mathematical terms.
pub enum SharePlanView {
    File,
    Archive { file_name: Seq<char>, files: nat },
    Folder { size: nat, checksum: Seq<char> },
    Refused,
}

impl View for SharePlan {
    type V = SharePlanView;

    open spec fn view(&self) -> SharePlanView {
        match *self {
            SharePlan::File => SharePlanView::File,
            SharePlan::Archive { file_name, files } => SharePlanView::Archive {
                file_name: file_name@,
                files: files as nat,
            },
            SharePlan::Folder { size, checksum } => SharePlanView::Folder {
                size: size as nat,
                checksum: checksum@,
            },
            SharePlan::Refused => SharePlanView::Refused,
        }
    }
}

/// How a path is shared if folders are zipped, or if they are not. `entries`
/// is what a walk of the folder finds.
pub open spec fn plan_for(
    kind: PathKind,
    name: Seq<char>,
    entries: Seq<WalkEntry>,
    zip: bool,
) -> SharePlanView {
    match kind {
        PathKind::File => SharePlanView::File,
        PathKind::Directory => if zip {
            SharePlanView::Archive { file_name: name + ".zip"@, files: file_count(entries) }
        } else {
            SharePlanView::Folder {
                size: total_size(entries),
                checksum: folder_fingerprint(manifest_of(entries)),
            }
        },
        PathKind::Other => SharePlanView::Refused,
    }
}

/// How a path is shared where the user has chosen whether to zip a folder.
pub fn plan_share_with_choice(
    kind: PathKind,
    name: &str,
    entries: &Vec<WalkEntry>,
    zip: bool,
) -> (r: SharePlan)
    requires
        total_size(entries@) <= u64::MAX,
    ensures
        r@ == plan_for(kind, name@, entries@, zip),
{
    match kind {
        PathKind::File => SharePlan::File,
        PathKind::Directory => {
            if zip {
                let (files, _) = analyse_folder(entries);
                let mut file_name = name.to_owned();
                file_name.append(".zip");
                SharePlan::Archive { file_name, files }
            } else {
                SharePlan::Folder {
                    size: folder_size(entries),
                    checksum: compute_folder_checksum(entries),
                }
            }
        },
        PathKind::Other => SharePlan::Refused,
    }
}

/// How a path is shared: a folder with many files, or a deep one, is zipped.
pub fn plan_share(kind: PathKind, name: &str, entries: &Vec<WalkEntry>) -> (r: SharePlan)
    requires
        total_size(entries@) <= u64::MAX,
    ensures
        r@ == plan_for(
            kind,
            name@,
            entries@,
            worth_zipping(file_count(entries@) as usize, max_depth(entries@)),
        ),
{
    let (files, deepest) = analyse_folder(entries);
    plan_share_with_choice(kind, name, entries, should_zip(files, deepest))
}

/// What is said of a path that cannot be shared.
pub fn refusal_message(path: &PathBuf) -> (r: String)
    ensures
        r@ == "Path is neither a file nor a directory: "@ + path_debug_text(*path),
{
    let mut out = "Path is neither a file nor a directory: ".to_owned();
    out.append(debug_path(path).as_str());
    out
}

/// When a share runs out that was asked for at `now`.
pub open spec fn expiry_spec(now: Timestamp, minutes: Option<u64>) -> Option<Timestamp> {
    match minutes {
        None => None,
        Some(m) => Some(
            Timestamp { secs: (now.secs + signed_minutes(m) * 60) as i64, nanos: now.nanos },
        ),
    }
}

/// When a share runs out that is asked for at `now`.
pub fn expiry_at(now: &Timestamp, minutes: Option<u64>) -> (r: Option<Timestamp>)
    requires
        minutes is Some ==> minutes_fit(*now, minutes->0),
    ensures
        r == expiry_spec(*now, minutes),
{
    match minutes {
        None => None,
        Some(m) => Some(plus_minutes(now, m)),
    }
}

/// When a share runs out that is asked for now. There is no answer where that
/// lies beyond all dates.
pub fn expiry_from_now(minutes: Option<u64>) -> (r: Option<Option<Timestamp>>)
    ensures
        minutes is None ==> r == Some(None::<Timestamp>),
        exists|now: Timestamp|
            now.wf() && now.secs >= 0 && r == (if minutes is Some && !#[trigger] minutes_fit(
                now,
                minutes->0,
            ) {
                None
            } else {
                Some(expiry_spec(now, minutes))
            }),
{
    let now = utc_now();
    proof {
        let _ = minutes_fit(now, minutes->0);
    }
    match minutes {
        None => Some(None),
        Some(m) => if is_minutes_fit(&now, m) {
            Some(expiry_at(&now, Some(m)))
        } else {
            None
        },
    }
}

/// A share that is still to be put into the registry.
#[derive(Debug)]
pub struct NewShare {
    pub name: String,
    pub kind: ShareKind,
    pub size: u64,
    pub path: PathBuf,
    pub checksum: String,
    pub download_limit: Option<u32>,
    pub expires_at: Option<Timestamp>,
}

/// The share that is made of `new`.
pub open spec fn made_of(new: NewShare, id: Seq<char>, now: Timestamp) -> SharedItemView {
    SharedItemView {
        id,
        name: new.name@,
        kind: new.kind,
        size: new.size,
        path: new.path,
        checksum: new.checksum@,
        added_at: now,
        download_count: 0,
        download_limit: new.download_limit,
        expires_at: new.expires_at,
    }
}

/// How many characters an id has.
pub const ID_LENGTH: usize = 8;

/// Whether a character can stand in an id.
pub open spec fn is_id_char(c: char) -> bool {
    ('a' <= c && c <= 'z') || ('A' <= c && c <= 'Z') || ('0' <= c && c <= '9') || c == '_' || c
        == '-'
}

/// `nanoid::format`, with its default source of random bytes and its alphabet
/// `SAFE`, gives `size` characters that it picks from that alphabet.
#[verifier::external_body]
pub(crate) fn random_id(size: usize) -> (id: String)
    requires
        0 < size <= 0xffff,
    ensures
        id@.len() == size,
        forall|i: int| 0 <= i < size ==> is_id_char(#[trigger] id@[i]),
{
    nanoid::format(nanoid::rngs::default, &nanoid::alphabet::SAFE, size)
}

impl ShareRegistry {
    /// Makes a share of `new` with the given id, and puts it into the registry.
    pub fn add_at(&mut self, new: NewShare, id: String, now: &Timestamp) -> (r: SharedItem)
        requires
            old(self).wf(),
            now.wf(),
        ensures
            final(self).wf(),
            r@ == made_of(new, id@, *now),
            final(self)@ == (RegistryView {
                items: old(self)@.items.insert(id@, made_of(new, id@, *now)),
                dirty: true,
                ..old(self)@
            }),
            final(self)@ == old(self)@.sharing(made_of(new, id@, *now)),
    {
        let item = SharedItem {
            id,
            name: new.name,
            kind: new.kind,
            size: new.size,
            path: new.path,
            checksum: new.checksum,
            added_at: *now,
            download_count: 0,
            download_limit: new.download_limit,
            expires_at: new.expires_at,
        };
        self.insert(item.clone());
        self.mark_dirty();
        item
    }

    /// Makes a share of `new` with a random id, and puts it into the registry.
    pub fn add(&mut self, new: NewShare) -> (r: SharedItem)
        requires
            old(self).wf(),
        ensures
            final(self).wf(),
            r@ == made_of(new, r@.id, r@.added_at),
            r@.id.len() == ID_LENGTH,
            forall|i: int| 0 <= i < r@.id.len() ==> is_id_char(#[trigger] r@.id[i]),
            r@.added_at.wf(),
            r@.added_at.secs >= 0,
            final(self)@ == (RegistryView {
                items: old(self)@.items.insert(r@.id, r@),
                dirty: true,
                ..old(self)@
            }),
            final(self)@ == old(self)@.sharing(r@),
    {
        let id = random_id(ID_LENGTH);
        let now = utc_now();
        self.add_at(new, id, &now)
    }
}

// ---------------------------------------------------------------------------
// Restoring
// ---------------------------------------------------------------------------

/// A share that was read from the index, and whether its path still exists.
#[derive(Debug)]
pub struct StoredItem {
    pub item: SharedItem,
    pub exists: bool,
}

/// What became of the shares in the index: how many were restored, and which
/// archives they offer.
#[derive(Debug)]
pub struct Restored {
    pub count: usize,
    pub archives: Vec<PathBuf>,
}

/// Whether a share of the index is worth keeping at `now`.
pub open spec fn restorable(s: StoredItem, now: Timestamp) -> bool {
    s.item@.available_at(now) && s.exists
}

/// The shares of the index that are worth keeping, in the index's order.
pub open spec fn restorables(stored: Seq<StoredItem>, now: Timestamp) -> Seq<SharedItemView>
    decreases stored.len(),
{
    if stored.len() == 0 {
        Seq::empty()
    } else {
        let rest = restorables(stored.drop_last(), now);
        if restorable(stored.last(), now) {
            rest.push(stored.last().item@)
        } else {
            rest
        }
    }
}

/// `m` after `items` were put into it one by one.
pub open spec fn with_items(
    m: Map<Seq<char>, SharedItemView>,
    items: Seq<SharedItemView>,
) -> Map<Seq<char>, SharedItemView>
    decreases items.len(),
{
    if items.len() == 0 {
        m
    } else {
        with_items(m, items.drop_last()).insert(items.last().id, items.last())
    }
}

/// The archives that `items` offer.
pub open spec fn archives_of(items: Seq<SharedItemView>) -> Seq<PathBuf>
    decreases items.len(),
{
    if items.len() == 0 {
        Seq::empty()
    } else {
        match items.last().archive() {
            Some(p) => archives_of(items.drop_last()).push(p),
            None => archives_of(items.drop_last()),
        }
    }
}

impl ShareRegistry {
    /// Takes the shares of the index back that are worth keeping at `now`.
    pub fn restore_at(&mut self, stored: Vec<StoredItem>, now: &Timestamp) -> (r: Restored)
        requires
            old(self).wf(),
            forall|i: int| 0 <= i < stored@.len() ==> (#[trigger] stored@[i]).item@.added_at.wf(),
        ensures
            final(self).wf(),
            r.count == restorables(stored@, *now).len(),
            r.archives@ == archives_of(restorables(stored@, *now)),
            final(self)@ == (RegistryView {
                items: with_items(old(self)@.items, restorables(stored@, *now)),
                ..old(self)@
            }),
    {
        let mut count: usize = 0;
        let mut archives: Vec<PathBuf> = Vec::new();
        let mut i: usize = 0;
        while i < stored.len()
            invariant
                i <= stored@.len(),
                count <= i,
                self.wf(),
                forall|i: int|
                    0 <= i < stored@.len() ==> (#[trigger] stored@[i]).item@.added_at.wf(),
                count == restorables(stored@.take(i as int), *now).len(),
                archives@ == archives_of(restorables(stored@.take(i as int), *now)),
                self@ == (RegistryView {
                    items: with_items(
                        old(self)@.items,
                        restorables(stored@.take(i as int), *now),
                    ),
                    ..old(self)@
                }),
            decreases stored@.len() - i,
        {
            let s = &stored[i];
            let ghost items = restorables(stored@.take(i as int), *now);
            proof {
                assert(stored@.take(i + 1).drop_last() =~= stored@.take(i as int));
                assert(items.push(s.item@).drop_last() =~= items);
            }
            if s.item.is_available_at(now) && s.exists {
                if let Some(p) = s.item.archive_to_delete() {
                    archives.push(p);
                }
                self.insert(s.item.clone());
                count += 1;
            }
            i += 1;
        }
        assert(stored@.take(stored@.len() as int) =~= stored@);
        Restored { count, archives }
    }

    /// Takes the shares of the index back that are worth keeping now.
    pub fn restore_from_index(&mut self, stored: Vec<StoredItem>) -> (r: Restored)
        requires
            old(self).wf(),
            forall|i: int| 0 <= i < stored@.len() ==> (#[trigger] stored@[i]).item@.added_at.wf(),
        ensures
            final(self).wf(),
            exists|now: Timestamp|
                now.wf() && now.secs >= 0 && r.count == (#[trigger] restorables(
                    stored@,
                    now,
                )).len() && r.archives@ == archives_of(restorables(stored@, now)) && final(self)@
                    == (RegistryView {
                    items: with_items(old(self)@.items, restorables(stored@, now)),
                    ..old(self)@
                }),
    {
        let now = utc_now();
        self.restore_at(stored, &now)
    }
}

/// A file in the folder of the archives: its path, its extension, and whether
/// a share offers it.
#[derive(Debug)]
pub struct CachedFile {
    pub path: PathBuf,
    pub extension: Option<String>,
    pub offered: bool,
}

/// Whether a file is an archive that no share offers.
pub open spec fn is_orphan(f: CachedFile) -> bool {
    opt_view(f.extension) == Some("zip"@) && !f.offered
}

/// The paths of the archives that no share offers.
pub open spec fn orphan_paths(files: Seq<CachedFile>) -> Seq<PathBuf>
    decreases files.len(),
{
    if files.len() == 0 {
        Seq::empty()
    } else if is_orphan(files.last()) {
        orphan_paths(files.drop_last()).push(files.last().path)
    } else {
        orphan_paths(files.drop_last())
    }
}

/// The archives that are to be deleted because no share offers them.
pub fn prune_orphan_zips(files: &Vec<CachedFile>) -> (r: Vec<PathBuf>)
    ensures
        r@ == orphan_paths(files@),
{
    let mut out: Vec<PathBuf> = Vec::new();
    let mut i: usize = 0;
    while i < files.len()
        invariant
            i <= files@.len(),
            out@ == orphan_paths(files@.take(i as int)),
        decreases files@.len() - i,
    {
        let f = &files[i];
        let zip = match &f.extension {
            Some(e) => same(e.as_str(), "zip"),
            None => false,
        };
        if zip && !f.offered {
            out.push(f.path.clone());
        }
        i += 1;
        assert(files@.take(i as int).drop_last() =~= files@.take(i - 1));
    }
    assert(files@.take(files@.len() as int) =~= files@);
    out
}

// ---------------------------------------------------------------------------
// Laws
// ---------------------------------------------------------------------------

/// A share that was put into the registry is found under its id, and the
/// others are found as before.
pub proof fn law_added_is_found(m: Map<Seq<char>, SharedItemView>, item: SharedItemView)
    ensures
        m.insert(item.id, item).dom().contains(item.id),
        m.insert(item.id, item)[item.id] == item,
        forall|id: Seq<char>| id != item.id ==> (#[trigger] m.insert(
            item.id,
            item,
        ).dom().contains(id) <==> m.dom().contains(id)),
{
}

/// A share that was taken out is found no more, and putting it in and taking
/// it out again leaves the others.
pub proof fn law_removed_is_gone(m: Map<Seq<char>, SharedItemView>, item: SharedItemView)
    requires
        !m.dom().contains(item.id),
    ensures
        m.insert(item.id, item).remove(item.id) == m,
        !m.remove(item.id).dom().contains(item.id),
{
    assert(m.insert(item.id, item).remove(item.id) =~= m);
}

/// A share whose downloads have reached its limit may not be downloaded, at
/// any time.
pub proof fn law_limit_reached_is_unavailable(item: SharedItemView, now: Timestamp)
    requires
        item.limit_reached(),
    ensures
        !item.available_at(now),
{
}

/// A share that has run out stays so.
pub proof fn law_expired_stays_expired(item: SharedItemView, now: Timestamp, later: Timestamp)
    requires
        item.expired_at(now),
        later == now || later.later_than(now),
    ensures
        item.expired_at(later),
{
}

/// A share without a limit and without an end may always be downloaded.
pub proof fn law_unlimited_is_available(item: SharedItemView, now: Timestamp)
    requires
        item.download_limit is None,
        item.expires_at is None,
    ensures
        item.available_at(now),
{
}

/// A share can be downloaded as many times as its limit says: after that many
/// downloads it may not be downloaded any more, and before it may.
pub proof fn law_limit_counts_downloads(item: SharedItemView, now: Timestamp)
    requires
        item.download_limit is Some,
        item.download_count < item.download_limit->0,
        !item.expired_at(now),
    ensures
        item.available_at(now),
        counted(item).available_at(now) <==> item.download_count + 1 < item.download_limit->0,
{
}

/// Pruning keeps exactly the shares that may still be downloaded.
pub proof fn law_pruning_keeps_available(
    m: Map<Seq<char>, SharedItemView>,
    now: Timestamp,
    id: Seq<char>,
)
    ensures
        available_items(m, now).dom().contains(id) <==> m.dom().contains(id)
            && m[id].available_at(now),
        available_items(m, now).dom().contains(id) ==> available_items(m, now)[id] == m[id],
{
}

/// Pruning twice is pruning once.
pub proof fn law_pruning_is_idempotent(m: Map<Seq<char>, SharedItemView>, now: Timestamp)
    ensures
        available_items(available_items(m, now), now) == available_items(m, now),
        forall|p: PathBuf| !orphans(available_items(m, now), now, p),
{
    assert(available_items(available_items(m, now), now) =~= available_items(m, now));
}

/// Only archives that were made for a share are ever deleted: a pruned share
/// of another kind loses no file.
pub proof fn law_pruning_deletes_only_archives(
    m: Map<Seq<char>, SharedItemView>,
    now: Timestamp,
    p: PathBuf,
)
    requires
        orphans(m, now, p),
    ensures
        exists|id: Seq<char>| #[trigger]
            m.dom().contains(id) && m[id].kind == ShareKind::ZippedFolder && m[id].path == p,
{
    let id = choose|id: Seq<char>| #[trigger]
        m.dom().contains(id) && !m[id].available_at(now) && m[id].archive() == Some(p);
    assert(m.dom().contains(id));
}

/// What is written to the index and read back is what the registry held, but
/// for the shares that may no longer be downloaded or whose path is gone.
pub proof fn law_restore_gives_back(
    m: Map<Seq<char>, SharedItemView>,
    stored: Seq<StoredItem>,
    now: Timestamp,
    id: Seq<char>,
)
    requires
        lists(views(stored.map_values(|s: StoredItem| s.item)), m),
    ensures
        ({
            let back = with_items(Map::empty(), restorables(stored, now));
            &&& back.dom().contains(id) <==> exists|i: int|
                0 <= i < stored.len() && (#[trigger] stored[i]).item@.id == id && restorable(
                    stored[i],
                    now,
                )
            &&& back.dom().contains(id) ==> m.dom().contains(id) && back[id] == m[id]
        }),
{
    let all = views(stored.map_values(|s: StoredItem| s.item));
    assert forall|i: int, j: int| 0 <= i < j < stored.len() implies (#[trigger] stored[i]).item@.id
        != (#[trigger] stored[j]).item@.id by {
        assert(all[i].key() != all[j].key());
    }
    lemma_restored(stored, now, id);
    let back = with_items(Map::empty(), restorables(stored, now));
    if back.dom().contains(id) {
        let i = choose|i: int|
            0 <= i < stored.len() && (#[trigger] stored[i]).item@.id == id && restorable(
                stored[i],
                now,
            ) && back[id] == stored[i].item@;
        assert(all[i] == stored[i].item@);
        assert(m.dom().contains(all[i].key()));
    }
}

proof fn lemma_restored(stored: Seq<StoredItem>, now: Timestamp, id: Seq<char>)
    requires
        forall|i: int, j: int|
            0 <= i < j < stored.len() ==> (#[trigger] stored[i]).item@.id != (
            #[trigger] stored[j]).item@.id,
    ensures
        ({
            let back = with_items(Map::empty(), restorables(stored, now));
            &&& back.dom().contains(id) ==> exists|i: int|
                0 <= i < stored.len() && (#[trigger] stored[i]).item@.id == id && restorable(
                    stored[i],
                    now,
                ) && back[id] == stored[i].item@
            &&& forall|i: int|
                0 <= i < stored.len() && (#[trigger] stored[i]).item@.id == id && restorable(
                    stored[i],
                    now,
                ) ==> back.dom().contains(id)
        }),
    decreases stored.len(),
{
    if stored.len() > 0 {
        let t = stored.drop_last();
        let rest = restorables(t, now);
        let before = with_items(Map::empty(), rest);
        let back = with_items(Map::empty(), restorables(stored, now));
        let last = stored.last();
        assert forall|i: int, j: int| 0 <= i < j < t.len() implies (#[trigger] t[i]).item@.id != (
        #[trigger] t[j]).item@.id by {
            assert(stored[i].item@.id != stored[j].item@.id);
        }
        lemma_restored(t, now, id);
        assert(rest.push(last.item@).drop_last() =~= rest);
        if back.dom().contains(id) {
            if restorable(last, now) && last.item@.id == id {
                assert(stored[stored.len() - 1].item@.id == id);
            } else {
                let i = choose|i: int|
                    0 <= i < t.len() && (#[trigger] t[i]).item@.id == id && restorable(t[i], now)
                        && before[id] == t[i].item@;
                assert(stored[i] == t[i]);
            }
        }
        assert forall|i: int|
            0 <= i < stored.len() && (#[trigger] stored[i]).item@.id == id && restorable(
                stored[i],
                now,
            ) implies back.dom().contains(id) by {
            if i < t.len() {
                assert(t[i] == stored[i]);
            }
        }
    }
}

/// A folder that is shared file by file carries a checksum that starts with
/// `dir:`, and an archive is named after its folder.
pub proof fn law_plan_of_folder(name: Seq<char>, entries: Seq<WalkEntry>, zip: bool)
    ensures
        match plan_for(PathKind::Directory, name, entries, zip) {
            SharePlanView::Archive { file_name, .. } => zip && file_name == name + ".zip"@,
            SharePlanView::Folder { checksum, .. } => !zip && "dir:"@.is_prefix_of(checksum),
            _ => false,
        },
{
    let sum = folder_fingerprint(manifest_of(entries));
    assert(sum.take("dir:"@.len() as int) =~= "dir:"@);
}

/// A share is what it was asked for with: its name, kind, size, path and
/// checksum, its limit and its end. It begins with no downloads, at the time at
/// which it was asked for, under the id that it was given.
pub proof fn law_shares_are_what_was_asked_for(new: NewShare, id: Seq<char>, now: Timestamp)
    ensures
        ({
            let item = made_of(new, id, now);
            &&& item.id == id
            &&& item.name == new.name@
            &&& item.kind == new.kind
            &&& item.size == new.size
            &&& item.path == new.path
            &&& item.checksum == new.checksum@
            &&& item.added_at == now
            &&& item.download_count == 0
            &&& item.download_limit == new.download_limit
            &&& item.expires_at == new.expires_at
        }),
{
}

/// Whether a share may be downloaded is decided by its end and its limit alone:
/// the end must not have passed, and fewer downloads must have been counted
/// than the limit allows.
pub proof fn law_end_and_limit_decide(item: SharedItemView, now: Timestamp)
    ensures
        item.available_at(now) <==> {
            &&& item.expires_at is None || now.secs < item.expires_at->0.secs || (now.secs
                == item.expires_at->0.secs && now.nanos <= item.expires_at->0.nanos)
            &&& item.download_limit is None || item.download_count < item.download_limit->0
        },
        item.expired_at(now) <==> item.expires_at is Some && (now.secs > item.expires_at->0.secs
            || (now.secs == item.expires_at->0.secs && now.nanos > item.expires_at->0.nanos)),
        item.limit_reached() <==> item.download_limit is Some && item.download_count
            >= item.download_limit->0,
{
}

/// A share that was asked for with an end may be downloaded until then, as long
/// as it has no limit, and from then on not any more: it is on no list of the
/// shares that may be downloaded, and is gone after pruning.
pub proof fn law_shares_run_out(
    m: Map<Seq<char>, SharedItemView>,
    new: NewShare,
    id: Seq<char>,
    now: Timestamp,
    later: Timestamp,
    listed: Seq<SharedItemView>,
)
    requires
        new.expires_at is Some,
        later.wf(),
        new.expires_at->0.wf(),
    ensures
        ({
            let item = made_of(new, id, now);
            let held = m.insert(id, item);
            &&& later.instant() > new.expires_at->0.instant() ==> {
                &&& !item.available_at(later)
                &&& !available_items(held, later).dom().contains(id)
                &&& !available_of(listed, later).contains(item)
            }
            &&& later.instant() <= new.expires_at->0.instant() && (new.download_limit is None
                || new.download_limit->0 > 0) ==> {
                &&& item.available_at(later)
                &&& available_items(held, later).dom().contains(id)
                &&& available_items(held, later)[id] == item
                &&& listed.contains(item) ==> available_of(listed, later).contains(item)
            }
        }),
{
    let item = made_of(new, id, now);
    let p = |i: SharedItemView| i.available_at(later);
    broadcast use vstd::seq_lib::group_filter_ensures;

    if available_of(listed, later).contains(item) {
        let k = choose|k: int|
            0 <= k < available_of(listed, later).len() && available_of(listed, later)[k] == item;
        assert(p(listed.filter(p)[k]));
    }
    if listed.contains(item) && item.available_at(later) {
        let k = choose|k: int| 0 <= k < listed.len() && listed[k] == item;
        assert(p(listed[k]));
        assert(listed.filter(p).contains(listed[k]));
    }
}

/// Counting a download adds one to the count and changes nothing else.
pub proof fn law_counting_adds_one(item: SharedItemView)
    requires
        item.download_count < u32::MAX,
    ensures
        counted(item).download_count == item.download_count + 1,
        counted(item) == (SharedItemView { download_count: counted(item).download_count, ..item }),
{
}

/// A share that is asked for with an end so many minutes from now runs out so
/// many minutes from now, and one that is asked for without runs on.
pub proof fn law_end_lies_minutes_ahead(now: Timestamp, minutes: u64)
    requires
        now.wf(),
        minutes <= i64::MAX,
        minutes_fit(now, minutes),
    ensures
        expiry_spec(now, None) is None,
        expiry_spec(now, Some(minutes)) is Some,
        expiry_spec(now, Some(minutes))->0.wf(),
        expiry_spec(now, Some(minutes))->0.instant() == now.instant() + minutes * 60_000_000_000,
{
    let e = expiry_spec(now, Some(minutes))->0;
    assert(e.secs == now.secs + minutes * 60);
    assert(e.instant() == now.instant() + minutes * 60_000_000_000) by (nonlinear_arith)
        requires
            e.instant() == e.secs * 1_000_000_000 + e.nanos,
            now.instant() == now.secs * 1_000_000_000 + now.nanos,
            e.nanos == now.nanos,
            e.secs == now.secs + minutes * 60,
    ;
}

/// The file of a share that goes with it is the archive that was made for it;
/// files and folders of the user stay.
pub proof fn law_only_archives_go(item: SharedItemView)
    ensures
        item.kind == ShareKind::ZippedFolder ==> item.archive() == Some(item.path),
        item.kind != ShareKind::ZippedFolder ==> item.archive() is None,
{
}

/// Pruning tells to delete the archive of every archived folder that may no
/// longer be downloaded, and no other file.
pub proof fn law_pruning_deletes_every_archive(
    m: Map<Seq<char>, SharedItemView>,
    now: Timestamp,
    p: PathBuf,
)
    ensures
        orphans(m, now, p) <==> exists|id: Seq<char>| #[trigger]
            m.dom().contains(id) && m[id].kind == ShareKind::ZippedFolder && m[id].path == p
                && !available_items(m, now).dom().contains(id),
{
    if orphans(m, now, p) {
        let id = choose|id: Seq<char>| #[trigger]
            m.dom().contains(id) && !m[id].available_at(now) && m[id].archive() == Some(p);
        assert(m.dom().contains(id));
    }
    if exists|id: Seq<char>| #[trigger]
        m.dom().contains(id) && m[id].kind == ShareKind::ZippedFolder && m[id].path == p
            && !available_items(m, now).dom().contains(id) {
        let id = choose|id: Seq<char>| #[trigger]
            m.dom().contains(id) && m[id].kind == ShareKind::ZippedFolder && m[id].path == p
                && !available_items(m, now).dom().contains(id);
        assert(m.dom().contains(id));
    }
}

/// Shares are listed with the one first that was added last.
pub proof fn law_newest_come_first(s: Seq<SharedItemView>)
    requires
        forall|i: int| 0 <= i < s.len() ==> (#[trigger] s[i]).added_at.wf(),
    ensures
        newest_first(s) <==> forall|i: int, j: int|
            0 <= i < j < s.len() ==> (#[trigger] s[i]).added_at.instant() >= (
            #[trigger] s[j]).added_at.instant(),
{
    assert forall|i: int, j: int| 0 <= i < s.len() && 0 <= j < s.len() implies ((
    #[trigger] s[j]).added_at.later_than((#[trigger] s[i]).added_at) <==> s[j].added_at.instant()
        > s[i].added_at.instant()) by {
        crate::time::law_later_is_greater_instant(s[j].added_at, s[i].added_at);
    }
    if newest_first(s) {
        assert forall|i: int, j: int| 0 <= i < j < s.len() implies (
        #[trigger] s[i]).added_at.instant() >= (#[trigger] s[j]).added_at.instant() by {
            assert(!s[j].added_at.later_than(s[i].added_at));
        }
    }
}

/// A share of the index comes back exactly where it may still be downloaded and
/// its path still exists; those that do come back in their order.
pub proof fn law_restoring_keeps_what_is_there(stored: Seq<StoredItem>, now: Timestamp)
    ensures
        restorables(stored, now) == stored.filter(
            |s: StoredItem| s.exists && s.item@.available_at(now),
        ).map_values(|s: StoredItem| s.item@),
    decreases stored.len(),
{
    let p = |s: StoredItem| s.exists && s.item@.available_at(now);
    let f = |s: StoredItem| s.item@;
    reveal(Seq::filter);
    if stored.len() > 0 {
        law_restoring_keeps_what_is_there(stored.drop_last(), now);
        let rest = stored.drop_last().filter(p);
        assert(rest.push(stored.last()).map_values(f) =~= rest.map_values(f).push(
            f(stored.last()),
        ));
    }
    assert(restorables(stored, now) =~= stored.filter(p).map_values(f));
}

/// The archives that restored shares offer are the paths of the archived folders
/// among them, in their order.
pub proof fn law_offered_archives(items: Seq<SharedItemView>)
    ensures
        archives_of(items) == items.filter(
            |i: SharedItemView| i.kind == ShareKind::ZippedFolder,
        ).map_values(|i: SharedItemView| i.path),
    decreases items.len(),
{
    let p = |i: SharedItemView| i.kind == ShareKind::ZippedFolder;
    let f = |i: SharedItemView| i.path;
    reveal(Seq::filter);
    if items.len() > 0 {
        law_offered_archives(items.drop_last());
        let rest = items.drop_last().filter(p);
        assert(rest.push(items.last()).map_values(f) =~= rest.map_values(f).push(f(items.last())));
    }
    assert(archives_of(items) =~= items.filter(p).map_values(f));
}

/// Putting shares into a registry one by one leaves, under each id, the last of
/// them with that id, or else what was there before.
pub proof fn law_last_share_of_an_id_stands(
    m: Map<Seq<char>, SharedItemView>,
    items: Seq<SharedItemView>,
    id: Seq<char>,
)
    ensures
        (forall|i: int| 0 <= i < items.len() ==> (#[trigger] items[i]).id != id) ==> (with_items(
            m,
            items,
        ).dom().contains(id) <==> m.dom().contains(id)) && with_items(m, items)[id] == m[id],
        forall|k: int|
            0 <= k < items.len() && (#[trigger] items[k]).id == id && (forall|i: int|
                k < i < items.len() ==> (#[trigger] items[i]).id != id) ==> with_items(
                m,
                items,
            ).dom().contains(id) && with_items(m, items)[id] == items[k],
    decreases items.len(),
{
    if items.len() > 0 {
        let t = items.drop_last();
        law_last_share_of_an_id_stands(m, t, id);
        assert(items.last() == items[items.len() - 1]);
        if forall|i: int| 0 <= i < items.len() ==> (#[trigger] items[i]).id != id {
            assert forall|i: int| 0 <= i < t.len() implies (#[trigger] t[i]).id != id by {
                assert(t[i] == items[i]);
            }
        }
        assert forall|k: int|
            0 <= k < items.len() && (#[trigger] items[k]).id == id && (forall|i: int|
                k < i < items.len() ==> (#[trigger] items[i]).id != id) implies with_items(
            m,
            items,
        ).dom().contains(id) && with_items(m, items)[id] == items[k] by {
            if k < t.len() {
                assert(t[k] == items[k]);
                assert(items[items.len() - 1].id != id);
                assert forall|i: int| k < i < t.len() implies (#[trigger] t[i]).id != id by {
                    assert(t[i] == items[i]);
                }
            }
        }
    }
}

/// Of the files in the folder of the archives, exactly those are deleted that
/// are zip files and that no share offers.
pub proof fn law_unoffered_archives_are_deleted(files: Seq<CachedFile>)
    ensures
        orphan_paths(files) == files.filter(
            |f: CachedFile| f.extension is Some && f.extension->0@ == "zip"@ && !f.offered,
        ).map_values(|f: CachedFile| f.path),
    decreases files.len(),
{
    let p = |f: CachedFile| f.extension is Some && f.extension->0@ == "zip"@ && !f.offered;
    let g = |f: CachedFile| f.path;
    reveal(Seq::filter);
    if files.len() > 0 {
        law_unoffered_archives_are_deleted(files.drop_last());
        let rest = files.drop_last().filter(p);
        assert(rest.push(files.last()).map_values(g) =~= rest.map_values(g).push(g(files.last())));
    }
    assert(orphan_paths(files) =~= files.filter(p).map_values(g));
}

/// A file is shared as it is, a folder as an archive or file by file as the
/// choice says, and anything else not at all. An archive counts the files of the
/// folder, and a folder the bytes of its files.
pub proof fn law_plans_follow_the_choice(
    kind: PathKind,
    name: Seq<char>,
    entries: Seq<WalkEntry>,
    zip: bool,
)
    ensures
        ({
            let plan = plan_for(kind, name, entries, zip);
            &&& kind == PathKind::File <==> plan is File
            &&& kind == PathKind::Other <==> plan is Refused
            &&& kind == PathKind::Directory && zip <==> plan is Archive
            &&& kind == PathKind::Directory && !zip <==> plan is Folder
            &&& plan is Archive ==> plan->file_name == name + ".zip"@ && plan->files == file_count(
                entries,
            )
            &&& plan is Folder ==> plan->Folder_size == total_size(entries)
                && plan->Folder_checksum == folder_fingerprint(manifest_of(entries))
        }),
{
}

/// The time that is left is told in the two largest units that it fills: whole
/// hours and minutes, minutes and seconds, or seconds; and as expired where none
/// is left.
pub proof fn law_countdown_tells_the_time_left(h: nat, m: nat, s: nat)
    requires
        m < 60,
        s < 60,
    ensures
        h > 0 ==> countdown_text((3600 * h + 60 * m + s) as int) == "expires in "@ + decimal_text(h)
            + "h "@ + decimal_text(m) + "m"@,
        m > 0 ==> countdown_text((60 * m + s) as int) == "expires in "@ + decimal_text(m) + "m "@
            + decimal_text(s) + "s"@,
        s > 0 ==> countdown_text(s as int) == "expires in "@ + decimal_text(s) + "s"@,
        countdown_text(-(h as int)) == "expired"@,
{
}

/// How long a share still runs is told of every share with an end, and of no
/// other: the whole seconds from now to its end.
pub proof fn law_countdown_runs_to_the_end(item: SharedItemView, now: Timestamp)
    ensures
        item.expires_at is None ==> item.countdown_at(now) is None,
        item.expires_at is Some && item.expires_at->0.instant() >= now.instant()
            ==> item.countdown_at(now) == Some(
            countdown_text((item.expires_at->0.instant() - now.instant()) / 1_000_000_000),
        ),
        item.expires_at is Some && item.expires_at->0.instant() < now.instant()
            ==> item.countdown_at(now) == Some("expired"@),
{
}

/// A size is told in bytes below 1024, and else in the largest of four units
/// that it fills, each 1024 times the one before, to the nearest tenth.
pub proof fn law_sizes_are_told_to_the_tenth(size: nat)
    requires
        size < 0x20_0000_0000_0000,
    ensures
        size < 1024 ==> size_text(size) == decimal_text(size) + " B"@,
        size >= 1024 ==> exists|tenths: nat, unit: nat, name: Seq<char>|
            {
                &&& size_text(size) == #[trigger] told_in(tenths, name)
                &&& #[trigger] is_unit(unit, name)
                &&& unit <= size
                &&& size < 1024 * unit || unit == 1024 * 1024 * 1024 * 1024
                &&& 2 * (tenths * unit) <= 20 * size + unit
                &&& 20 * size <= 2 * (tenths * unit) + unit
            },
{
    if size >= 1024 {
        let (unit, name) = size_unit(size);
        assert(double_spacing(size, 1) == 1);
        assert(round_div(size, 1) == size);
        assert(nearest_double(size) == size) by (nonlinear_arith)
            requires
                nearest_double(size) == round_div(size, 1) * 1,
                round_div(size, 1) == size,
        ;
        let n = 10 * size;
        let q = n / unit;
        let r = n % unit;
        let tenths = round_div(n, unit);
        assert(n == q * unit + r) by {
            vstd::arithmetic::div_mod::lemma_fundamental_div_mod(n as int, unit as int);
            assert(unit * q == q * unit) by (nonlinear_arith);
        }
        assert((q + 1) * unit == q * unit + unit) by (nonlinear_arith);
        assert(size_text(size) == told_in(tenths, name));
        assert(is_unit(unit, name));
    }
}

/// A number of tenths and a unit, as sizes are told.
pub open spec fn told_in(tenths: nat, name: Seq<char>) -> Seq<char> {
    decimal_text(tenths / 10) + "."@ + decimal_text(tenths % 10) + " "@ + name
}

/// The units in which sizes are told, and how many bytes each is.
pub open spec fn is_unit(bytes: nat, name: Seq<char>) -> bool {
    ||| bytes == 1024 && name == "KB"@
    ||| bytes == 1024 * 1024 && name == "MB"@
    ||| bytes == 1024 * 1024 * 1024 && name == "GB"@
    ||| bytes == 1024 * 1024 * 1024 * 1024 && name == "TB"@
}

/// A share that is made is found under its id as what was asked for, calls for the
/// index to be written, and leaves every other share as it was.
pub proof fn law_made_shares_are_found(
    reg: RegistryView,
    new: NewShare,
    id: Seq<char>,
    now: Timestamp,
    other: Seq<char>,
)
    requires
        other != id,
    ensures
        ({
            let after = reg.sharing(made_of(new, id, now));
            &&& after.items.dom().contains(id)
            &&& after.items[id].name == new.name@ && after.items[id].path == new.path
                && after.items[id].expires_at == new.expires_at && after.items[id].download_limit
                == new.download_limit
            &&& after.dirty
            &&& after.items.dom().contains(other) <==> reg.items.dom().contains(other)
            &&& after.items[other] == reg.items[other]
            &&& after.index_path == reg.index_path && after.zip_cache_dir == reg.zip_cache_dir
        }),
{
}

/// Putting a share in, taking one out, counting a download and pruning each touch
/// what they are about and leave the rest of the registry as it was; what changes
/// the shares of a running host calls for the index to be written.
pub proof fn law_registry_steps_touch_only_their_share(
    reg: RegistryView,
    item: SharedItemView,
    other: Seq<char>,
    now: Timestamp,
)
    requires
        other != item.id,
        item.download_count < u32::MAX,
    ensures
        reg.holding(item).items.dom().contains(item.id),
        reg.holding(item).items[item.id] == item,
        reg.holding(item).items.dom().contains(other) <==> reg.items.dom().contains(other),
        reg.holding(item).items[other] == reg.items[other],
        reg.holding(item).dirty == reg.dirty,
        !reg.releasing(item.id).items.dom().contains(item.id),
        reg.releasing(item.id).items.dom().contains(other) <==> reg.items.dom().contains(other),
        reg.releasing(item.id).items[other] == reg.items[other],
        reg.items.dom().contains(item.id) ==> reg.releasing(item.id).dirty,
        !reg.items.dom().contains(item.id) ==> reg.releasing(item.id) == reg,
        reg.holding(item).counting(item.id).items[item.id].download_count == item.download_count
            + 1,
        reg.counting(item.id).items[other] == reg.items[other],
        reg.counting(item.id).items.dom() == reg.items.dom(),
        reg.counting(item.id).dirty,
        reg.pruned(now).items.dom().contains(other) <==> reg.items.dom().contains(other)
            && reg.items[other].available_at(now),
        reg.pruned(now).items.dom().contains(other) ==> reg.pruned(now).items[other]
            == reg.items[other],
        reg.items.dom().contains(other) && !reg.items[other].available_at(now) ==> reg.pruned(
            now,
        ).dirty,
        reg.pruned(now).items == reg.items && !reg.dirty ==> !reg.pruned(now).dirty,
        reg.pruned(now).index_path == reg.index_path,
        reg.pruned(now).zip_cache_dir == reg.zip_cache_dir,
{
    assert(reg.counting(item.id).items.dom() =~= reg.items.dom());
    if !reg.items.dom().contains(item.id) {
        assert(reg.items.remove(item.id) =~= reg.items);
    }
    if reg.pruned(now).items == reg.items {
        assert forall|id: Seq<char>| #[trigger] reg.items.dom().contains(id) implies reg.items[id].available_at(
            now,
        ) by {
            assert(available_items(reg.items, now).dom().contains(id));
        }
    }
}

}
