//! Folders: what a walk over one tells, its fingerprint, and how it is zipped.
//!
//! Walking the tree and reading and writing its files is left to the caller,
//! who hands over what the walk found, entry by entry.

use crate::checksum::{checksum_text, Checksum};
use crate::text::{opt_view, replace_char, replaced, starts_with, text_bytes, to_chars, views};
use flate2::write::DeflateEncoder;
use flate2::Compression;
use std::io::{Cursor, Write};
use vstd::bytes::u64_to_le_bytes;
use vstd::prelude::*;
use zip::write::SimpleFileOptions;
use zip::{CompressionMethod, DateTime, ZipWriter};

verus! {

/// What stands at a place in a folder tree.
#[derive(Debug, Clone, Copy, PartialEq, Eq, Structural)]
pub enum EntryKind {
    File,
    Directory,
    Other,
}

/// One entry that a walk over a folder came by.
#[derive(Debug)]
pub struct WalkEntry {
    pub kind: EntryKind,
    /// How many steps below the folder it stands; the folder itself is at 0.
    pub depth: usize,
    /// Its size in bytes, where it could be read.
    pub size: Option<u64>,
    /// Its path below the folder.
    pub rel_path: Option<String>,
    /// Its path below the folder's parent.
    pub parent_rel_path: Option<String>,
    /// Its whole path.
    pub full_path: String,
}

/// A walk entry in mathematical terms.
pub struct WalkEntryView {
    pub kind: EntryKind,
    pub depth: usize,
    pub size: Option<u64>,
    pub rel_path: Option<Seq<char>>,
    pub parent_rel_path: Option<Seq<char>>,
    pub full_path: Seq<char>,
}

impl View for WalkEntry {
    type V = WalkEntryView;

    open spec fn view(&self) -> WalkEntryView {
        WalkEntryView {
            kind: self.kind,
            depth: self.depth,
            size: self.size,
            rel_path: opt_view(self.rel_path),
            parent_rel_path: opt_view(self.parent_rel_path),
            full_path: self.full_path@,
        }
    }
}

// ---------------------------------------------------------------------------
// Size and shape
// ---------------------------------------------------------------------------

/// How many files there are.
pub open spec fn file_count(entries: Seq<WalkEntry>) -> nat
    decreases entries.len(),
{
    if entries.len() == 0 {
        0
    } else {
        file_count(entries.drop_last()) + if entries.last().kind == EntryKind::File {
            1nat
        } else {
            0nat
        }
    }
}

/// How deep the deepest entry stands.
pub open spec fn max_depth(entries: Seq<WalkEntry>) -> usize
    decreases entries.len(),
{
    if entries.len() == 0 {
        0
    } else {
        let d = max_depth(entries.drop_last());
        if entries.last().depth > d {
            entries.last().depth
        } else {
            d
        }
    }
}

/// How many bytes the files hold, leaving out those of unknown size.
pub open spec fn total_size(entries: Seq<WalkEntry>) -> nat
    decreases entries.len(),
{
    if entries.len() == 0 {
        0
    } else {
        total_size(entries.drop_last()) + size_of(entries.last())
    }
}

/// The bytes that an entry adds to its folder's size.
pub open spec fn size_of(e: WalkEntry) -> nat {
    if e.kind == EntryKind::File && e.size is Some {
        e.size->0 as nat
    } else {
        0
    }
}

pub proof fn lemma_file_count_bound(entries: Seq<WalkEntry>)
    ensures
        file_count(entries) <= entries.len(),
    decreases entries.len(),
{
    if entries.len() > 0 {
        lemma_file_count_bound(entries.drop_last());
    }
}

proof fn lemma_total_size_take(entries: Seq<WalkEntry>, i: int)
    requires
        0 <= i <= entries.len(),
    ensures
        total_size(entries.take(i)) <= total_size(entries),
    decreases entries.len(),
{
    if i == entries.len() {
        assert(entries.take(i) =~= entries);
    } else {
        lemma_total_size_take(entries.drop_last(), i);
        assert(entries.drop_last().take(i) =~= entries.take(i));
    }
}

/// The number of files, and the depth of the deepest entry.
pub fn analyse_folder(entries: &Vec<WalkEntry>) -> (r: (usize, usize))
    ensures
        r.0 == file_count(entries@),
        r.1 == max_depth(entries@),
{
    let mut files: usize = 0;
    let mut deepest: usize = 0;
    let mut i: usize = 0;
    while i < entries.len()
        invariant
            0 <= i <= entries@.len(),
            files == file_count(entries@.take(i as int)),
            files <= i,
            deepest == max_depth(entries@.take(i as int)),
        decreases entries@.len() - i,
    {
        if matches!(entries[i].kind, EntryKind::File) {
            files += 1;
        }
        if entries[i].depth > deepest {
            deepest = entries[i].depth;
        }
        i += 1;
        assert(entries@.take(i as int).drop_last() =~= entries@.take(i - 1));
    }
    assert(entries@.take(entries@.len() as int) =~= entries@);
    (files, deepest)
}

/// How many bytes the files of a folder hold.
pub fn folder_size(entries: &Vec<WalkEntry>) -> (r: u64)
    requires
        total_size(entries@) <= u64::MAX,
    ensures
        r == total_size(entries@),
{
    let mut total: u64 = 0;
    let mut i: usize = 0;
    while i < entries.len()
        invariant
            0 <= i <= entries@.len(),
            total_size(entries@) <= u64::MAX,
            total == total_size(entries@.take(i as int)),
        decreases entries@.len() - i,
    {
        assert(entries@.take(i + 1).drop_last() =~= entries@.take(i as int));
        proof {
            lemma_total_size_take(entries@, i + 1);
        }
        if matches!(entries[i].kind, EntryKind::File) {
            if let Some(size) = entries[i].size {
                total += size;
            }
        }
        i += 1;
    }
    assert(entries@.take(entries@.len() as int) =~= entries@);
    total
}

/// How many bytes the files of a folder hold, where a `u64` can count them.
pub fn checked_folder_size(entries: &Vec<WalkEntry>) -> (r: Option<u64>)
    ensures
        r is Some <==> total_size(entries@) <= u64::MAX,
        r is Some ==> r->0 == total_size(entries@),
{
    let mut total: u64 = 0;
    let mut i: usize = 0;
    while i < entries.len()
        invariant
            0 <= i <= entries@.len(),
            total == total_size(entries@.take(i as int)),
        decreases entries@.len() - i,
    {
        assert(entries@.take(i + 1).drop_last() =~= entries@.take(i as int));
        proof {
            lemma_total_size_take(entries@, i + 1);
        }
        if matches!(entries[i].kind, EntryKind::File) {
            if let Some(size) = entries[i].size {
                match total.checked_add(size) {
                    Some(t) => {
                        total = t;
                    },
                    None => {
                        return None;
                    },
                }
            }
        }
        i += 1;
    }
    assert(entries@.take(entries@.len() as int) =~= entries@);
    Some(total)
}

/// The number of files, the depth of the deepest entry, and the bytes that the
/// files hold.
pub fn analyse_folder_full(entries: &Vec<WalkEntry>) -> (r: (usize, usize, u64))
    requires
        total_size(entries@) <= u64::MAX,
    ensures
        r.0 == file_count(entries@),
        r.1 == max_depth(entries@),
        r.2 == total_size(entries@),
{
    let (files, deepest) = analyse_folder(entries);
    (files, deepest, folder_size(entries))
}

/// The number of files above which a folder is zipped.
pub const ZIP_FILE_COUNT: usize = 20;

/// The depth above which a folder is zipped.
pub const ZIP_DEPTH: usize = 5;

/// Whether zipping pays for a folder of this size and shape.
pub open spec fn worth_zipping(files: usize, depth: usize) -> bool {
    files > ZIP_FILE_COUNT || depth > ZIP_DEPTH
}

/// Whether a folder is large or deep enough to be zipped.
pub fn should_zip(files: usize, depth: usize) -> (r: bool)
    ensures
        r == worth_zipping(files, depth),
{
    files > ZIP_FILE_COUNT || depth > ZIP_DEPTH
}

// ---------------------------------------------------------------------------
// Manifest and fingerprint
// ---------------------------------------------------------------------------

/// A file of a folder: its path below the folder, with forward slashes, and
/// its size.
#[derive(Debug)]
pub struct ManifestEntry {
    pub rel_path: String,
    pub size: u64,
}

/// A manifest entry in mathematical terms.
pub struct ManifestEntryView {
    pub rel_path: Seq<char>,
    pub size: u64,
}

impl View for ManifestEntry {
    type V = ManifestEntryView;

    open spec fn view(&self) -> ManifestEntryView {
        ManifestEntryView { rel_path: self.rel_path@, size: self.size }
    }
}

/// A path with forward slashes in place of backslashes.
pub open spec fn slashed(path: Seq<char>) -> Seq<char> {
    replaced(path, '\\', "/"@)
}

/// The entry for the manifest that a walk entry gives: files below the folder
/// whose size is known have one.
pub open spec fn manifest_entry(e: WalkEntryView) -> Option<ManifestEntryView> {
    if e.kind == EntryKind::File && e.rel_path is Some && e.size is Some {
        Some(ManifestEntryView { rel_path: slashed(e.rel_path->0), size: e.size->0 })
    } else {
        None
    }
}

/// The files of a folder, in the order of the walk.
pub open spec fn manifest_of(entries: Seq<WalkEntry>) -> Seq<ManifestEntryView>
    decreases entries.len(),
{
    if entries.len() == 0 {
        Seq::empty()
    } else {
        let rest = manifest_of(entries.drop_last());
        match manifest_entry(entries.last()@) {
            Some(m) => rest.push(m),
            None => rest,
        }
    }
}

/// The files of a folder, in the order of the walk.
pub fn list_folder_manifest(entries: &Vec<WalkEntry>) -> (r: Vec<ManifestEntry>)
    ensures
        views(r@) == manifest_of(entries@),
{
    broadcast use crate::text::group_views;

    let mut out: Vec<ManifestEntry> = Vec::new();
    let mut i: usize = 0;
    while i < entries.len()
        invariant
            0 <= i <= entries@.len(),
            views(out@) == manifest_of(entries@.take(i as int)),
        decreases entries@.len() - i,
    {
        let e = &entries[i];
        if matches!(e.kind, EntryKind::File) {
            if let Some(rel) = &e.rel_path {
                if let Some(size) = e.size {
                    out.push(ManifestEntry { rel_path: replace_char(rel.as_str(), '\\', "/"), size });
                }
            }
        }
        i += 1;
        assert(entries@.take(i as int).drop_last() =~= entries@.take(i - 1));
    }
    assert(entries@.take(entries@.len() as int) =~= entries@);
    out
}

/// Whether the bytes `a` come no later than `b` in dictionary order.
pub open spec fn bytes_le(a: Seq<u8>, b: Seq<u8>) -> bool
    decreases a.len(),
{
    if a.len() == 0 {
        true
    } else if b.len() == 0 {
        false
    } else if a[0] != b[0] {
        a[0] < b[0]
    } else {
        bytes_le(a.skip(1), b.skip(1))
    }
}

/// Whether the text `a` comes no later than `b` in the order of their UTF-8 bytes.
pub open spec fn text_le(a: Seq<char>, b: Seq<char>) -> bool {
    bytes_le(vstd::utf8::encode_utf8(a), vstd::utf8::encode_utf8(b))
}

fn is_bytes_le(a: &[u8], b: &[u8]) -> (r: bool)
    ensures
        r == bytes_le(a@, b@),
{
    let mut i: usize = 0;
    proof {
        assert(a@.skip(0) =~= a@);
        assert(b@.skip(0) =~= b@);
    }
    while i < a.len() && i < b.len() && a[i] == b[i]
        invariant
            0 <= i <= a@.len(),
            0 <= i <= b@.len(),
            bytes_le(a@, b@) == bytes_le(a@.skip(i as int), b@.skip(i as int)),
        decreases a@.len() - i,
    {
        proof {
            assert(a@.skip(i as int).skip(1) =~= a@.skip(i + 1));
            assert(b@.skip(i as int).skip(1) =~= b@.skip(i + 1));
        }
        i += 1;
    }
    if i == a.len() {
        true
    } else if i == b.len() {
        false
    } else {
        proof {
            assert(a@.skip(i as int)[0] == a@[i as int]);
            assert(b@.skip(i as int)[0] == b@[i as int]);
        }
        a[i] < b[i]
    }
}

/// `s` with `e` put in behind the last entry whose path comes no later.
pub open spec fn insert_entry(s: Seq<ManifestEntryView>, e: ManifestEntryView) -> Seq<
    ManifestEntryView,
>
    decreases s.len(),
{
    if s.len() == 0 || text_le(s.last().rel_path, e.rel_path) {
        s.push(e)
    } else {
        insert_entry(s.drop_last(), e).push(s.last())
    }
}

/// The entries in the order of their paths; those of one path in their given order.
pub open spec fn sorted_entries(s: Seq<ManifestEntryView>) -> Seq<ManifestEntryView>
    decreases s.len(),
{
    if s.len() == 0 {
        s
    } else {
        insert_entry(sorted_entries(s.drop_last()), s.last())
    }
}

proof fn lemma_insert_entry_at(s: Seq<ManifestEntryView>, e: ManifestEntryView, p: int)
    requires
        0 <= p <= s.len(),
        forall|j: int| p <= j < s.len() ==> !text_le((#[trigger] s[j]).rel_path, e.rel_path),
        p > 0 ==> text_le(s[p - 1].rel_path, e.rel_path),
    ensures
        insert_entry(s, e) == s.insert(p, e),
    decreases s.len(),
{
    if p == s.len() {
        assert(s.insert(p, e) =~= s.push(e));
    } else {
        assert(!text_le(s[s.len() - 1].rel_path, e.rel_path));
        lemma_insert_entry_at(s.drop_last(), e, p);
        assert(s.drop_last().insert(p, e).push(s.last()) =~= s.insert(p, e));
    }
}

/// Sorts the files of a folder by their paths.
fn sort_entries(entries: Vec<ManifestEntry>) -> (r: Vec<ManifestEntry>)
    ensures
        views(r@) == sorted_entries(views(entries@)),
{
    broadcast use crate::text::group_views;

    let mut out: Vec<ManifestEntry> = Vec::new();
    let mut i: usize = 0;
    while i < entries.len()
        invariant
            0 <= i <= entries@.len(),
            views(out@) == sorted_entries(views(entries@).take(i as int)),
        decreases entries@.len() - i,
    {
        let e = ManifestEntry { rel_path: entries[i].rel_path.clone(), size: entries[i].size };
        let mut p: usize = out.len();
        while p > 0 && !is_bytes_le(out[p - 1].rel_path.as_str().as_bytes(), e.rel_path.as_str().as_bytes())
            invariant
                0 <= p <= out@.len(),
                forall|j: int|
                    p <= j < out@.len() ==> !text_le(
                        (#[trigger] views(out@)[j]).rel_path,
                        e@.rel_path,
                    ),
            decreases p,
        {
            assert(views(out@)[p - 1].rel_path == out@[p - 1].rel_path@);
            p -= 1;
        }
        proof {
            if p > 0 {
                assert(views(out@)[p - 1].rel_path == out@[p - 1].rel_path@);
            }
            lemma_insert_entry_at(views(out@), e@, p as int);
            assert(views(out@.insert(p as int, e)) =~= views(out@).insert(p as int, e@));
            let t = views(entries@).take(i + 1);
            assert(t.drop_last() =~= views(entries@).take(i as int));
            assert(t.last() == e@);
        }
        out.insert(p, e);
        i += 1;
    }
    assert(views(entries@).take(entries@.len() as int) =~= views(entries@));
    out
}

/// The bytes by which a file enters the fingerprint of its folder.
pub open spec fn entry_bytes(e: ManifestEntryView) -> Seq<u8> {
    vstd::utf8::encode_utf8(e.rel_path) + seq![58u8] + vstd::bytes::spec_u64_to_le_bytes(e.size)
        + seq![10u8]
}

/// The bytes by which a list of files enters the fingerprint of its folder.
pub open spec fn listing_bytes(s: Seq<ManifestEntryView>) -> Seq<u8>
    decreases s.len(),
{
    if s.len() == 0 {
        Seq::empty()
    } else {
        listing_bytes(s.drop_last()) + entry_bytes(s.last())
    }
}

/// The fingerprint of a folder with these files: the start of the checksum
/// over their sorted paths and sizes.
pub open spec fn folder_fingerprint(files: Seq<ManifestEntryView>) -> Seq<char> {
    "dir:"@ + checksum_text(listing_bytes(sorted_entries(files))).take(16)
}

/// The fingerprint of a folder, over the paths and sizes of its files.
pub fn compute_folder_checksum(entries: &Vec<WalkEntry>) -> (r: String)
    ensures
        r@ == folder_fingerprint(manifest_of(entries@)),
{
    let files = sort_entries(list_folder_manifest(entries));
    let mut sum = Checksum::new();
    let mut i: usize = 0;
    let colon: [u8; 1] = [58];
    let newline: [u8; 1] = [10];
    while i < files.len()
        invariant
            0 <= i <= files@.len(),
            sum@ == listing_bytes(views(files@).take(i as int)),
            colon@ =~= seq![58u8],
            newline@ =~= seq![10u8],
        decreases files@.len() - i,
    {
        let ghost before = sum@;
        let size = u64_to_le_bytes(files[i].size);
        sum.update(files[i].rel_path.as_str().as_bytes());
        sum.update(&colon);
        sum.update(size.as_slice());
        sum.update(&newline);
        i += 1;
        proof {
            let t = views(files@).take(i as int);
            assert(t.drop_last() =~= views(files@).take(i - 1));
            assert(t.last() == files@[i - 1]@);
            assert(sum@ =~= before + entry_bytes(t.last()));
        }
    }
    assert(views(files@).take(files@.len() as int) =~= views(files@));
    let hex = sum.finish();
    let digits = crate::text::to_chars(hex.as_str());
    let head = crate::text::from_chars_range(&digits, 0, 16);
    assert(head@ =~= hex@.take(16));
    let mut out = "dir:".to_owned();
    out.append(head.as_str());
    out
}


proof fn lemma_bytes_le_reflexive(a: Seq<u8>)
    ensures
        bytes_le(a, a),
    decreases a.len(),
{
    if a.len() > 0 {
        lemma_bytes_le_reflexive(a.skip(1));
    }
}

proof fn lemma_bytes_le_total(a: Seq<u8>, b: Seq<u8>)
    ensures
        bytes_le(a, b) || bytes_le(b, a),
    decreases a.len(),
{
    if a.len() > 0 && b.len() > 0 && a[0] == b[0] {
        lemma_bytes_le_total(a.skip(1), b.skip(1));
    }
}

proof fn lemma_bytes_le_antisymmetric(a: Seq<u8>, b: Seq<u8>)
    requires
        bytes_le(a, b),
        bytes_le(b, a),
    ensures
        a == b,
    decreases a.len(),
{
    if a.len() == 0 || b.len() == 0 {
        assert(a =~= b);
    } else {
        lemma_bytes_le_antisymmetric(a.skip(1), b.skip(1));
        assert(a =~= seq![a[0]] + a.skip(1));
        assert(b =~= seq![b[0]] + b.skip(1));
    }
}

proof fn lemma_bytes_le_transitive(a: Seq<u8>, b: Seq<u8>, c: Seq<u8>)
    requires
        bytes_le(a, b),
        bytes_le(b, c),
    ensures
        bytes_le(a, c),
    decreases a.len(),
{
    if a.len() > 0 && b.len() > 0 && c.len() > 0 && a[0] == b[0] && b[0] == c[0] {
        lemma_bytes_le_transitive(a.skip(1), b.skip(1), c.skip(1));
    }
}

proof fn lemma_text_le_antisymmetric(a: Seq<char>, b: Seq<char>)
    requires
        text_le(a, b),
        text_le(b, a),
    ensures
        a == b,
{
    lemma_bytes_le_antisymmetric(vstd::utf8::encode_utf8(a), vstd::utf8::encode_utf8(b));
    vstd::utf8::encode_utf8_decode_utf8(a);
    vstd::utf8::encode_utf8_decode_utf8(b);
}

/// The order by path, and among entries of one path by size.
pub open spec fn entry_le(x: ManifestEntryView, y: ManifestEntryView) -> bool {
    if x.rel_path == y.rel_path {
        x.size <= y.size
    } else {
        text_le(x.rel_path, y.rel_path)
    }
}

proof fn lemma_entry_le_total_ordering()
    ensures
        vstd::relations::total_ordering(
            |x: ManifestEntryView, y: ManifestEntryView| entry_le(x, y),
        ),
{
    let leq = |x: ManifestEntryView, y: ManifestEntryView| entry_le(x, y);
    assert forall|x: ManifestEntryView, y: ManifestEntryView| #[trigger] leq(x, y) && #[trigger] leq(
        y,
        x,
    ) implies x == y by {
        if x.rel_path != y.rel_path {
            lemma_text_le_antisymmetric(x.rel_path, y.rel_path);
        }
    }
    assert forall|x: ManifestEntryView, y: ManifestEntryView, z: ManifestEntryView|
        #[trigger] leq(x, y) && #[trigger] leq(y, z) implies leq(x, z) by {
        if x.rel_path != y.rel_path && y.rel_path != z.rel_path {
            lemma_bytes_le_transitive(
                vstd::utf8::encode_utf8(x.rel_path),
                vstd::utf8::encode_utf8(y.rel_path),
                vstd::utf8::encode_utf8(z.rel_path),
            );
            if x.rel_path == z.rel_path {
                lemma_text_le_antisymmetric(x.rel_path, y.rel_path);
            }
        }
    }
    assert forall|x: ManifestEntryView, y: ManifestEntryView| #[trigger] leq(x, y) || leq(y, x) by {
        lemma_bytes_le_total(
            vstd::utf8::encode_utf8(x.rel_path),
            vstd::utf8::encode_utf8(y.rel_path),
        );
    }
}

/// Whether no two entries have the same path.
pub open spec fn distinct_paths(s: Seq<ManifestEntryView>) -> bool {
    forall|i: int, j: int|
        0 <= i < j < s.len() ==> (#[trigger] s[i]).rel_path != (#[trigger] s[j]).rel_path
}

proof fn lemma_insert_entry_multiset(s: Seq<ManifestEntryView>, e: ManifestEntryView)
    ensures
        insert_entry(s, e).to_multiset() == s.to_multiset().insert(e),
    decreases s.len(),
{
    broadcast use vstd::seq_lib::group_to_multiset_ensures;

    if s.len() == 0 || text_le(s.last().rel_path, e.rel_path) {
    } else {
        lemma_insert_entry_multiset(s.drop_last(), e);
        assert(s =~= s.drop_last().push(s.last()));
        assert(insert_entry(s, e).to_multiset() =~= s.to_multiset().insert(e));
    }
}

proof fn lemma_sorted_entries_multiset(s: Seq<ManifestEntryView>)
    ensures
        sorted_entries(s).to_multiset() == s.to_multiset(),
    decreases s.len(),
{
    broadcast use vstd::seq_lib::group_to_multiset_ensures;

    if s.len() > 0 {
        lemma_sorted_entries_multiset(s.drop_last());
        lemma_insert_entry_multiset(sorted_entries(s.drop_last()), s.last());
        assert(s =~= s.drop_last().push(s.last()));
    }
}

/// Putting an entry of a new path into sorted entries keeps them sorted.
proof fn lemma_insert_entry_sorted(s: Seq<ManifestEntryView>, e: ManifestEntryView)
    requires
        vstd::relations::sorted_by(s, |x: ManifestEntryView, y: ManifestEntryView| entry_le(x, y)),
        forall|i: int| 0 <= i < s.len() ==> (#[trigger] s[i]).rel_path != e.rel_path,
    ensures
        vstd::relations::sorted_by(
            insert_entry(s, e),
            |x: ManifestEntryView, y: ManifestEntryView| entry_le(x, y),
        ),
        insert_entry(s, e).len() == s.len() + 1,
        forall|k: int|
            0 <= k < s.len() + 1 ==> (#[trigger] insert_entry(s, e)[k] == e || s.contains(
                insert_entry(s, e)[k],
            )),
    decreases s.len(),
{
    let leq = |x: ManifestEntryView, y: ManifestEntryView| entry_le(x, y);
    lemma_entry_le_total_ordering();
    let r = insert_entry(s, e);
    if s.len() == 0 || text_le(s.last().rel_path, e.rel_path) {
        assert forall|i: int, j: int| 0 <= i < j < r.len() implies #[trigger] leq(r[i], r[j]) by {
            if j == s.len() && s.len() > 0 {
                assert(leq(s.last(), e));
                if i < s.len() - 1 {
                    assert(leq(s[i], s.last()));
                }
            } else {
                assert(leq(s[i], s[j]));
            }
        }
        assert forall|k: int| 0 <= k < s.len() + 1 implies (#[trigger] r[k] == e || s.contains(r[k])) by {
            if k < s.len() {
                assert(r[k] == s[k]);
            }
        }
    } else {
        let t = s.drop_last();
        assert forall|i: int, j: int| 0 <= i < j < t.len() implies #[trigger] leq(t[i], t[j]) by {
            assert(leq(s[i], s[j]));
        }
        lemma_insert_entry_sorted(t, e);
        let u = insert_entry(t, e);
        lemma_bytes_le_total(
            vstd::utf8::encode_utf8(s.last().rel_path),
            vstd::utf8::encode_utf8(e.rel_path),
        );
        assert(leq(e, s.last()));
        assert forall|i: int, j: int| 0 <= i < j < r.len() implies #[trigger] leq(r[i], r[j]) by {
            if j == s.len() {
                assert(r[j] == s.last());
                assert(r[i] == u[i]);
                if u[i] != e {
                    let m = choose|m: int| 0 <= m < t.len() && t[m] == u[i];
                    assert(leq(s[m], s.last()));
                }
            } else {
                assert(leq(u[i], u[j]));
            }
        }
        assert forall|k: int| 0 <= k < s.len() + 1 implies (#[trigger] r[k] == e || s.contains(r[k])) by {
            if k < s.len() {
                assert(r[k] == u[k]);
                if u[k] != e {
                    let m = choose|m: int| 0 <= m < t.len() && t[m] == u[k];
                    assert(s[m] == u[k]);
                }
            } else {
                assert(r[k] == s[s.len() - 1]);
            }
        }
    }
}

proof fn lemma_sorted_entries_sorted(s: Seq<ManifestEntryView>)
    requires
        distinct_paths(s),
    ensures
        vstd::relations::sorted_by(
            sorted_entries(s),
            |x: ManifestEntryView, y: ManifestEntryView| entry_le(x, y),
        ),
        forall|k: int|
            0 <= k < sorted_entries(s).len() ==> s.contains(#[trigger] sorted_entries(s)[k]),
    decreases s.len(),
{
    if s.len() > 0 {
        let t = s.drop_last();
        assert forall|i: int, j: int| 0 <= i < j < t.len() implies (#[trigger] t[i]).rel_path != (
        #[trigger] t[j]).rel_path by {
            assert(s[i].rel_path != s[j].rel_path);
        }
        lemma_sorted_entries_sorted(t);
        let u = sorted_entries(t);
        assert forall|i: int| 0 <= i < u.len() implies (#[trigger] u[i]).rel_path
            != s.last().rel_path by {
            let m = choose|m: int| 0 <= m < t.len() && t[m] == u[i];
            assert(s[m].rel_path != s[s.len() - 1].rel_path);
        }
        lemma_insert_entry_sorted(u, s.last());
        assert forall|k: int| 0 <= k < sorted_entries(s).len() implies s.contains(
            #[trigger] sorted_entries(s)[k],
        ) by {
            let x = insert_entry(u, s.last())[k];
            if x != s.last() {
                let n = choose|n: int| 0 <= n < u.len() && u[n] == x;
                let m = choose|m: int| 0 <= m < t.len() && t[m] == u[n];
                assert(s[m] == x);
            } else {
                assert(s[s.len() - 1] == x);
            }
        }
    }
}

/// The fingerprint of a folder does not depend on the order in which its
/// files were found.
pub proof fn law_fingerprint_ignores_order(a: Seq<ManifestEntryView>, b: Seq<ManifestEntryView>)
    requires
        distinct_paths(a),
        distinct_paths(b),
        a.to_multiset() == b.to_multiset(),
    ensures
        folder_fingerprint(a) == folder_fingerprint(b),
{
    let leq = |x: ManifestEntryView, y: ManifestEntryView| entry_le(x, y);
    lemma_entry_le_total_ordering();
    lemma_sorted_entries_sorted(a);
    lemma_sorted_entries_sorted(b);
    lemma_sorted_entries_multiset(a);
    lemma_sorted_entries_multiset(b);
    vstd::seq_lib::lemma_sorted_unique(sorted_entries(a), sorted_entries(b), leq);
}

// ---------------------------------------------------------------------------
// Zipping
// ---------------------------------------------------------------------------

/// Whether the part of a path that begins at `i` is two dots, which lead out of
/// a folder.
pub open spec fn climbs_at(name: Seq<char>, i: int) -> bool {
    &&& 0 <= i
    &&& i + 2 <= name.len()
    &&& name[i] == '.'
    &&& name[i + 1] == '.'
    &&& i == 0 || name[i - 1] == '/'
    &&& i + 2 == name.len() || name[i + 2] == '/'
}

/// Whether a path may stand in an archive: no part of it leads out of a folder,
/// and it does not start at the root.
pub open spec fn safe_name(name: Seq<char>) -> bool {
    (forall|i: int| !#[trigger] climbs_at(name, i)) && !"/"@.is_prefix_of(name)
}

fn is_safe_name(name: &str) -> (r: bool)
    ensures
        r == safe_name(name@),
{
    let chars = to_chars(name);
    let n = chars.len();
    let mut i: usize = 0;
    while i < n
        invariant
            i <= n == chars@.len(),
            chars@ == name@,
            forall|j: int| j < i ==> !#[trigger] climbs_at(name@, j),
        decreases n - i,
    {
        if n - i >= 2 && chars[i] == '.' && chars[i + 1] == '.' && (i == 0 || chars[i - 1] == '/')
            && (n - i == 2 || chars[i + 2] == '/') {
            assert(climbs_at(name@, i as int));
            return false;
        }
        i += 1;
    }
    !starts_with(name, "/")
}

/// The name by which a directory enters the archive, if it does.
pub open spec fn directory_name(e: WalkEntryView) -> Option<Seq<char>> {
    let name = slashed(
        match e.parent_rel_path {
            Some(p) => p,
            None => e.full_path,
        },
    );
    if e.kind == EntryKind::Directory && safe_name(name) && name.len() > 0 {
        Some(name)
    } else {
        None
    }
}

/// The name by which a file enters the archive, if it does.
pub open spec fn archived_file_name(e: WalkEntryView) -> Option<Seq<char>> {
    if e.kind == EntryKind::File && e.parent_rel_path is Some && safe_name(
        slashed(e.parent_rel_path->0),
    ) {
        Some(slashed(e.parent_rel_path->0))
    } else {
        None
    }
}

/// The names of the directories of an archive, in the order of the walk.
pub open spec fn directory_names(entries: Seq<WalkEntry>) -> Seq<Seq<char>>
    decreases entries.len(),
{
    if entries.len() == 0 {
        Seq::empty()
    } else {
        let rest = directory_names(entries.drop_last());
        match directory_name(entries.last()@) {
            Some(n) => rest.push(n),
            None => rest,
        }
    }
}

/// A file that goes into an archive: which walk entry it is, and its name there.
#[derive(Debug)]
pub struct ZipSource {
    pub index: usize,
    pub name: String,
}

/// A file that goes into an archive, in mathematical terms.
pub struct ZipSourceView {
    pub index: int,
    pub name: Seq<char>,
}

impl View for ZipSource {
    type V = ZipSourceView;

    open spec fn view(&self) -> ZipSourceView {
        ZipSourceView { index: self.index as int, name: self.name@ }
    }
}

/// The files of an archive, in the order of the walk.
pub open spec fn archived_files(entries: Seq<WalkEntry>) -> Seq<ZipSourceView>
    decreases entries.len(),
{
    if entries.len() == 0 {
        Seq::empty()
    } else {
        let rest = archived_files(entries.drop_last());
        match archived_file_name(entries.last()@) {
            Some(n) => rest.push(ZipSourceView { index: entries.len() - 1, name: n }),
            None => rest,
        }
    }
}

/// The names of the directories that an archive of the folder holds.
pub fn zip_directories(entries: &Vec<WalkEntry>) -> (r: Vec<String>)
    ensures
        views(r@) == directory_names(entries@),
{
    broadcast use crate::text::group_views;

    let mut out: Vec<String> = Vec::new();
    let mut i: usize = 0;
    while i < entries.len()
        invariant
            0 <= i <= entries@.len(),
            views(out@) == directory_names(entries@.take(i as int)),
        decreases entries@.len() - i,
    {
        let e = &entries[i];
        let path = match &e.parent_rel_path {
            Some(p) => p.as_str(),
            None => e.full_path.as_str(),
        };
        let name = replace_char(path, '\\', "/");
        if matches!(e.kind, EntryKind::Directory) && is_safe_name(name.as_str())
            && !name.as_str().is_empty() {
            out.push(name);
        }
        i += 1;
        assert(entries@.take(i as int).drop_last() =~= entries@.take(i - 1));
    }
    assert(entries@.take(entries@.len() as int) =~= entries@);
    out
}

/// The files that an archive of the folder holds.
pub fn zip_files(entries: &Vec<WalkEntry>) -> (r: Vec<ZipSource>)
    ensures
        views(r@) == archived_files(entries@),
{
    broadcast use crate::text::group_views;

    let mut out: Vec<ZipSource> = Vec::new();
    let mut i: usize = 0;
    while i < entries.len()
        invariant
            0 <= i <= entries@.len(),
            views(out@) == archived_files(entries@.take(i as int)),
        decreases entries@.len() - i,
    {
        let e = &entries[i];
        if matches!(e.kind, EntryKind::File) {
            if let Some(path) = &e.parent_rel_path {
                let name = replace_char(path.as_str(), '\\', "/");
                if is_safe_name(name.as_str()) {
                    out.push(ZipSource { index: i, name });
                }
            }
        }
        i += 1;
        assert(entries@.take(i as int).drop_last() =~= entries@.take(i - 1));
    }
    assert(entries@.take(entries@.len() as int) =~= entries@);
    out
}

/// How an archive keeps the bytes of a file.
#[derive(Debug, Clone, Copy, PartialEq, Eq, Structural)]
pub enum ZipMethod {
    Stored,
    Deflated,
}

/// A file ready to be written to an archive, and how the archive is to keep
/// it.
pub struct PackedFile {
    pub data: Vec<u8>,
    pub method: ZipMethod,
}

/// The level at which files are compressed.
pub const DEFLATE_LEVEL: u32 = 6;

/// The raw deflate stream of some bytes at a compression level.
pub uninterp spec fn deflate_stream(data: Seq<u8>, level: int) -> Option<Seq<u8>>;

/// `flate2::write::DeflateEncoder` over a `Vec`: all of the data written to
/// it, then finished. It is empty-handed only where the encoder reports an error.
#[verifier::external_body]
fn deflate(data: &[u8], level: u32) -> (r: Option<Vec<u8>>)
    requires
        level <= 9,
    ensures
        opt_view(r) == deflate_stream(data@, level as int),
{
    let mut encoder = DeflateEncoder::new(Vec::new(), Compression::new(level));
    encoder.write_all(data).ok()?;
    encoder.finish().ok()
}

/// How an archive keeps a file with this deflate stream: compressed where that
/// is shorter, and else as it is.
pub open spec fn packing(raw: Seq<u8>, deflated: Seq<u8>) -> ZipMethod {
    if deflated.len() < raw.len() {
        ZipMethod::Deflated
    } else {
        ZipMethod::Stored
    }
}

/// Decides how an archive keeps a file with this deflate stream. The bytes that
/// go into the archive are those of the file.
pub fn choose_packing(raw: Vec<u8>, deflated: &Vec<u8>) -> (r: PackedFile)
    ensures
        r.data@ == raw@,
        r.method == packing(raw@, deflated@),
{
    let method = if deflated.len() < raw.len() {
        ZipMethod::Deflated
    } else {
        ZipMethod::Stored
    };
    PackedFile { data: raw, method }
}

/// Prepares a file for an archive.
pub fn pack_file(raw: Vec<u8>) -> (r: Option<PackedFile>)
    ensures
        r is Some <==> deflate_stream(raw@, DEFLATE_LEVEL as int) is Some,
        r is Some ==> r->0.data@ == raw@ && r->0.method == packing(
            raw@,
            deflate_stream(raw@, DEFLATE_LEVEL as int)->0,
        ),
{
    match deflate(raw.as_slice(), DEFLATE_LEVEL) {
        Some(deflated) => Some(choose_packing(raw, &deflated)),
        None => None,
    }
}

/// The permissions of everything in an archive.
pub const ENTRY_MODE: u32 = 0o755;

/// The bytes of an archive with one file: its name, its bytes, how they are
/// kept and at which level they are compressed, and its permissions.
pub uninterp spec fn zip_bytes(
    name: Seq<char>,
    data: Seq<u8>,
    method: ZipMethod,
    level: Option<i64>,
    mode: u32,
) -> Option<Seq<u8>>;

/// `zip::ZipWriter` over bytes in memory: one file started, all of its bytes
/// written, and the archive finished. The file has the date that stands for
/// none, so that the time does not matter. It is empty-handed only where the
/// writer reports an error. A name whose length does not fit the field for it
/// is not for the writer.
#[verifier::external_body]
fn zip_one(name: &str, data: &[u8], method: ZipMethod, level: Option<i64>, mode: u32) -> (r: Option<
    Vec<u8>,
>)
    requires
        text_bytes(name@) <= u16::MAX,
    ensures
        opt_view(r) == zip_bytes(name@, data@, method, level, mode),
{
    let method = match method {
        ZipMethod::Stored => CompressionMethod::Stored,
        ZipMethod::Deflated => CompressionMethod::Deflated,
    };
    let options = SimpleFileOptions::default().compression_method(method);
    let options = options.compression_level(level).last_modified_time(DateTime::default());
    let mut zip = ZipWriter::new(Cursor::new(Vec::new()));
    zip.start_file(name, options.unix_permissions(mode)).ok()?;
    zip.write_all(data).ok()?;
    zip.finish().ok().map(|c| c.into_inner())
}

/// The level at which a file is compressed that is kept like this.
pub open spec fn level_of(method: ZipMethod) -> Option<i64> {
    match method {
        ZipMethod::Stored => None,
        ZipMethod::Deflated => Some(DEFLATE_LEVEL as i64),
    }
}

/// An archive that holds one file.
pub fn zip_file(name: &str, file: &PackedFile) -> (r: Option<Vec<u8>>)
    requires
        text_bytes(name@) <= u16::MAX,
    ensures
        opt_view(r) == zip_bytes(
            name@,
            file.data@,
            file.method,
            level_of(file.method),
            ENTRY_MODE,
        ),
{
    let level: Option<i64> = match file.method {
        ZipMethod::Stored => None,
        ZipMethod::Deflated => Some(DEFLATE_LEVEL as i64),
    };
    zip_one(name, file.data.as_slice(), file.method, level, ENTRY_MODE)
}

/// An archive holds exactly the files of a folder whose paths are safe to
/// unpack, each under its path below the folder's parent.
pub proof fn law_archive_holds_every_file(entries: Seq<WalkEntry>)
    ensures
        forall|i: int|
            0 <= i < entries.len() ==> match archived_file_name(#[trigger] entries[i]@) {
                Some(n) => archived_files(entries).contains(ZipSourceView { index: i, name: n }),
                None => true,
            },
        forall|k: int|
            0 <= k < archived_files(entries).len() ==> {
                let f = #[trigger] archived_files(entries)[k];
                &&& 0 <= f.index < entries.len()
                &&& archived_file_name(entries[f.index]@) == Some(f.name)
            },
    decreases entries.len(),
{
    if entries.len() > 0 {
        let rest = entries.drop_last();
        let all = archived_files(entries);
        law_archive_holds_every_file(rest);
        assert forall|i: int| 0 <= i < entries.len() implies match archived_file_name(
            #[trigger] entries[i]@,
        ) {
            Some(n) => all.contains(ZipSourceView { index: i, name: n }),
            None => true,
        } by {
            if let Some(n) = archived_file_name(entries[i]@) {
                let f = ZipSourceView { index: i, name: n };
                if i < rest.len() {
                    assert(rest[i] == entries[i]);
                    let k = choose|k: int|
                        0 <= k < archived_files(rest).len() && archived_files(rest)[k] == f;
                    assert(all[k] == f);
                } else {
                    assert(all[all.len() - 1] == f);
                }
            }
        }
        assert forall|k: int| 0 <= k < all.len() implies ({
            let f = #[trigger] all[k];
            &&& 0 <= f.index < entries.len()
            &&& archived_file_name(entries[f.index]@) == Some(f.name)
        }) by {
            if k < archived_files(rest).len() {
                assert(all[k] == archived_files(rest)[k]);
                assert(rest[all[k].index] == entries[all[k].index]);
            }
        }
    }
}

/// Every name in an archive is one that is safe to unpack.
pub proof fn law_archive_names_are_safe(entries: Seq<WalkEntry>)
    ensures
        forall|i: int|
            0 <= i < directory_names(entries).len() ==> safe_name(
                #[trigger] directory_names(entries)[i],
            ),
        forall|i: int|
            0 <= i < archived_files(entries).len() ==> safe_name(
                (#[trigger] archived_files(entries)[i]).name,
            ),
    decreases entries.len(),
{
    if entries.len() > 0 {
        let rest = entries.drop_last();
        law_archive_names_are_safe(rest);
        assert forall|i: int| 0 <= i < directory_names(entries).len() implies safe_name(
            #[trigger] directory_names(entries)[i],
        ) by {
            if i < directory_names(rest).len() {
                assert(directory_names(entries)[i] == directory_names(rest)[i]);
            }
        }
        assert forall|i: int| 0 <= i < archived_files(entries).len() implies safe_name(
            (#[trigger] archived_files(entries)[i]).name,
        ) by {
            if i < archived_files(rest).len() {
                assert(archived_files(entries)[i] == archived_files(rest)[i]);
            }
        }
    }
}

/// What an archive of a folder holds: its folders and its files.
#[derive(Debug)]
pub struct ZipPlan {
    pub directories: Vec<String>,
    pub files: Vec<ZipSource>,
}

/// What an archive holds of a folder in which a walk finds these entries.
pub fn zip_folder_pub(entries: &Vec<WalkEntry>) -> (r: ZipPlan)
    ensures
        views(r.directories@) == directory_names(entries@),
        views(r.files@) == archived_files(entries@),
{
    ZipPlan { directories: zip_directories(entries), files: zip_files(entries) }
}

/// Replacing one character by another keeps every other character in its place.
proof fn lemma_slashed(path: Seq<char>)
    ensures
        slashed(path).len() == path.len(),
        forall|j: int|
            0 <= j < path.len() ==> #[trigger] slashed(path)[j] == (if path[j] == '\\' {
                '/'
            } else {
                path[j]
            }),
    decreases path.len(),
{
    reveal_strlit("/");
    if path.len() > 0 {
        lemma_slashed(path.drop_last());
    }
}

/// A path in a manifest or an archive is the path on disk with a slash in the
/// place of each backslash, and nothing else changed.
pub proof fn law_only_backslashes_change(path: Seq<char>)
    ensures
        slashed(path) == path.map_values(
            |c: char|
                if c == '\\' {
                    '/'
                } else {
                    c
                },
        ),
{
    lemma_slashed(path);
    assert(slashed(path) =~= path.map_values(
        |c: char|
            if c == '\\' {
                '/'
            } else {
                c
            },
    ));
}

/// The manifest of a folder is the list of its files, at whatever depth, in the
/// order of the walk: each with its path below the folder, written with slashes,
/// and its size. Only what is no file, or whose path or size is not known, is
/// left out.
pub proof fn law_manifest_is_the_list_of_files(entries: Seq<WalkEntry>)
    ensures
        manifest_of(entries) == entries.filter(
            |e: WalkEntry| e.kind == EntryKind::File && e.rel_path is Some && e.size is Some,
        ).map_values(
            |e: WalkEntry|
                ManifestEntryView {
                    rel_path: e.rel_path->0@.map_values(
                        |c: char|
                            if c == '\\' {
                                '/'
                            } else {
                                c
                            },
                    ),
                    size: e.size->0,
                },
        ),
    decreases entries.len(),
{
    let p = |e: WalkEntry| e.kind == EntryKind::File && e.rel_path is Some && e.size is Some;
    let f = |e: WalkEntry|
        ManifestEntryView {
            rel_path: e.rel_path->0@.map_values(
                |c: char|
                    if c == '\\' {
                        '/'
                    } else {
                        c
                    },
            ),
            size: e.size->0,
        };
    reveal(Seq::filter);
    if entries.len() > 0 {
        let last = entries.last();
        law_manifest_is_the_list_of_files(entries.drop_last());
        let rest = entries.drop_last().filter(p);
        assert(rest.push(last).map_values(f) =~= rest.map_values(f).push(f(last)));
        if p(last) {
            law_only_backslashes_change(last.rel_path->0@);
            assert(manifest_entry(last@) == Some(f(last)));
        }
    }
    assert(manifest_of(entries) =~= entries.filter(p).map_values(f));
}

/// Whether a manifest entry tells of a file that a walk came by: its path, with
/// slashes, and its size.
pub open spec fn tells_of(m: ManifestEntryView, e: WalkEntry) -> bool {
    &&& e.kind == EntryKind::File
    &&& e.rel_path is Some
    &&& e.size == Some(m.size)
    &&& m.rel_path.len() == e.rel_path->0@.len()
    &&& forall|j: int|
        0 <= j < m.rel_path.len() ==> #[trigger] m.rel_path[j] == (if e.rel_path->0@[j] == '\\' {
            '/'
        } else {
            e.rel_path->0@[j]
        })
}

/// Every file of a folder whose path and size are known can be found in its
/// manifest, and everything in the manifest is such a file.
pub proof fn law_manifest_lists_every_file(entries: Seq<WalkEntry>)
    ensures
        forall|i: int|
            0 <= i < entries.len() && (#[trigger] entries[i]).kind == EntryKind::File
                && entries[i].rel_path is Some && entries[i].size is Some ==> exists|k: int|
                0 <= k < manifest_of(entries).len() && #[trigger] tells_of(
                    manifest_of(entries)[k],
                    entries[i],
                ),
        forall|k: int|
            0 <= k < manifest_of(entries).len() ==> exists|i: int|
                0 <= i < entries.len() && tells_of(
                    #[trigger] manifest_of(entries)[k],
                    #[trigger] entries[i],
                ),
    decreases entries.len(),
{
    if entries.len() > 0 {
        let rest = entries.drop_last();
        let last = entries.last();
        let all = manifest_of(entries);
        let old_all = manifest_of(rest);
        law_manifest_lists_every_file(rest);
        if last.rel_path is Some {
            lemma_slashed(last.rel_path->0@);
        }
        assert forall|i: int|
            0 <= i < entries.len() && (#[trigger] entries[i]).kind == EntryKind::File
                && entries[i].rel_path is Some && entries[i].size is Some implies exists|k: int|
            0 <= k < manifest_of(entries).len() && #[trigger] tells_of(
                manifest_of(entries)[k],
                entries[i],
            ) by {
            if i < rest.len() {
                assert(rest[i] == entries[i]);
                let k = choose|k: int|
                    0 <= k < old_all.len() && #[trigger] tells_of(old_all[k], rest[i]);
                assert(all[k] == old_all[k]);
                assert(tells_of(manifest_of(entries)[k], entries[i]));
            } else {
                assert(tells_of(manifest_of(entries)[all.len() - 1], entries[i]));
            }
        }
        assert forall|k: int| 0 <= k < manifest_of(entries).len() implies exists|i: int|
            0 <= i < entries.len() && tells_of(
                #[trigger] manifest_of(entries)[k],
                #[trigger] entries[i],
            ) by {
            if k < old_all.len() {
                assert(all[k] == old_all[k]);
                let i = choose|i: int|
                    0 <= i < rest.len() && tells_of(old_all[k], #[trigger] rest[i]);
                assert(entries[i] == rest[i]);
                assert(tells_of(manifest_of(entries)[k], entries[i]));
            } else {
                assert(tells_of(manifest_of(entries)[k], entries[entries.len() - 1]));
            }
        }
    }
}

/// A folder has as many files as its walk finds, however deep; its size is the
/// sum of theirs.
pub proof fn law_every_file_counts(entries: Seq<WalkEntry>)
    ensures
        file_count(entries) == entries.filter(|e: WalkEntry| e.kind == EntryKind::File).len(),
        total_size(entries) == entries.fold_left(
            0nat,
            |sum: nat, e: WalkEntry|
                if e.kind == EntryKind::File && e.size is Some {
                    sum + e.size->0 as nat
                } else {
                    sum
                },
        ),
    decreases entries.len(),
{
    reveal(Seq::filter);
    reveal(Seq::fold_left);
    if entries.len() > 0 {
        law_every_file_counts(entries.drop_last());
    }
}

/// The depth of a folder is that of the deepest thing in it, whatever it is.
pub proof fn law_depth_is_of_the_deepest(entries: Seq<WalkEntry>)
    ensures
        forall|i: int| 0 <= i < entries.len() ==> (#[trigger] entries[i]).depth <= max_depth(entries),
        max_depth(entries) == 0 || exists|i: int|
            0 <= i < entries.len() && (#[trigger] entries[i]).depth == max_depth(entries),
    decreases entries.len(),
{
    if entries.len() > 0 {
        let rest = entries.drop_last();
        law_depth_is_of_the_deepest(rest);
        assert(entries.last() == entries[entries.len() - 1]);
        assert forall|i: int| 0 <= i < entries.len() implies (#[trigger] entries[i]).depth
            <= max_depth(entries) by {
            if i < rest.len() {
                assert(rest[i] == entries[i]);
            }
        }
        if max_depth(entries) != 0 && max_depth(entries) != entries.last().depth {
            let i = choose|i: int|
                0 <= i < rest.len() && (#[trigger] rest[i]).depth == max_depth(rest);
            assert(entries[i] == rest[i]);
        }
    }
}

/// A folder is zipped where it has more than twenty files or goes more than five
/// steps deep, and not else.
pub proof fn law_large_or_deep_folders_are_zipped(files: usize, depth: usize)
    ensures
        worth_zipping(files, depth) <==> files > 20 || depth > 5,
{
}

/// The fingerprint of a folder is taken over every file of it: the entries in
/// the order of their paths, none left out and none twice.
pub proof fn law_fingerprint_covers_every_file(files: Seq<ManifestEntryView>)
    ensures
        folder_fingerprint(files) == "dir:"@ + crate::checksum::hex_text(
            crate::checksum::sha256(listing_bytes(sorted_entries(files))),
        ).take(16),
        sorted_entries(files).to_multiset() == files.to_multiset(),
        distinct_paths(files) ==> forall|i: int, j: int|
            0 <= i < j < sorted_entries(files).len() ==> text_le(
                (#[trigger] sorted_entries(files)[i]).rel_path,
                (#[trigger] sorted_entries(files)[j]).rel_path,
            ),
        forall|i: int|
            0 <= i < files.len() ==> #[trigger] listing_bytes(files.take(i + 1)) == listing_bytes(
                files.take(i),
            ) + vstd::utf8::encode_utf8(files[i].rel_path) + seq![58u8]
                + vstd::bytes::spec_u64_to_le_bytes(files[i].size) + seq![10u8],
{
    lemma_sorted_entries_multiset(files);
    let sorted = sorted_entries(files);
    if distinct_paths(files) {
        let leq = |x: ManifestEntryView, y: ManifestEntryView| entry_le(x, y);
        lemma_sorted_entries_sorted(files);
        assert forall|i: int, j: int| 0 <= i < j < sorted.len() implies text_le(
            (#[trigger] sorted[i]).rel_path,
            (#[trigger] sorted[j]).rel_path,
        ) by {
            assert(leq(sorted[i], sorted[j]));
            lemma_bytes_le_reflexive(vstd::utf8::encode_utf8(sorted[i].rel_path));
        }
    }
    assert forall|i: int| 0 <= i < files.len() implies #[trigger] listing_bytes(files.take(i + 1))
        == listing_bytes(files.take(i)) + vstd::utf8::encode_utf8(files[i].rel_path) + seq![58u8]
        + vstd::bytes::spec_u64_to_le_bytes(files[i].size) + seq![10u8] by {
        let t = files.take(i + 1);
        assert(t.drop_last() =~= files.take(i));
        assert(t.last() == files[i]);
        assert(listing_bytes(t) =~= listing_bytes(files.take(i)) + vstd::utf8::encode_utf8(
            files[i].rel_path,
        ) + seq![58u8] + vstd::bytes::spec_u64_to_le_bytes(files[i].size) + seq![10u8]);
    }
}

/// A file goes into an archive exactly where its path below the folder's parent
/// is known, does not begin at the root, and has no part that is two dots; its
/// name there is that path, with slashes.
pub proof fn law_files_go_in_where_safe(e: WalkEntryView)
    ensures
        ({
            let p = slashed(e.parent_rel_path->0);
            let safe = !(p.len() > 0 && p[0] == '/') && forall|i: int|
                0 <= i < p.len() - 1 && #[trigger] p[i] == '.' && p[i + 1] == '.' ==> (i > 0
                    && p[i - 1] != '/') || (i + 2 < p.len() && p[i + 2] != '/');
            archived_file_name(e) == (if e.kind == EntryKind::File && e.parent_rel_path is Some
                && safe {
                Some(p)
            } else {
                None
            })
        }),
{
    lemma_safe_name(slashed(e.parent_rel_path->0));
}

/// A directory goes into an archive exactly where its path, below the folder's
/// parent where that is known, is not empty, does not begin at the root, and has
/// no part that is two dots; its name there is that path, with slashes.
pub proof fn law_directories_go_in_where_safe(e: WalkEntryView, path: Seq<char>)
    requires
        e.parent_rel_path is Some ==> path == e.parent_rel_path->0,
        e.parent_rel_path is None ==> path == e.full_path,
    ensures
        ({
            let p = slashed(path);
            let safe = p.len() > 0 && p[0] != '/' && forall|i: int|
                0 <= i < p.len() - 1 && #[trigger] p[i] == '.' && p[i + 1] == '.' ==> (i > 0
                    && p[i - 1] != '/') || (i + 2 < p.len() && p[i + 2] != '/');
            directory_name(e) == (if e.kind == EntryKind::Directory && safe {
                Some(p)
            } else {
                None
            })
        }),
{
    lemma_safe_name(slashed(path));
}

proof fn lemma_safe_name(p: Seq<char>)
    ensures
        safe_name(p) <==> !(p.len() > 0 && p[0] == '/') && forall|i: int|
            0 <= i < p.len() - 1 && #[trigger] p[i] == '.' && p[i + 1] == '.' ==> (i > 0 && p[i - 1]
                != '/') || (i + 2 < p.len() && p[i + 2] != '/'),
{
    reveal_strlit("/");
    assert("/"@.is_prefix_of(p) <==> (p.len() > 0 && p[0] == '/')) by {
        if p.len() > 0 && p[0] == '/' {
            assert(p.take(1) =~= "/"@);
        }
        if "/"@.is_prefix_of(p) {
            assert(p.take(1)[0] == p[0]);
        }
    }
    if safe_name(p) {
        assert forall|i: int|
            0 <= i < p.len() - 1 && #[trigger] p[i] == '.' && p[i + 1] == '.' implies (i > 0
            && p[i - 1] != '/') || (i + 2 < p.len() && p[i + 2] != '/') by {
            assert(!climbs_at(p, i));
        }
    }
    if forall|i: int|
        0 <= i < p.len() - 1 && #[trigger] p[i] == '.' && p[i + 1] == '.' ==> (i > 0 && p[i - 1]
            != '/') || (i + 2 < p.len() && p[i + 2] != '/') {
        assert forall|i: int| !#[trigger] climbs_at(p, i) by {
            if climbs_at(p, i) {
                assert(p[i] == '.');
            }
        }
    }
}

/// An archive holds every directory of the folder that may stand in it, in the
/// order of the walk, and no other.
pub proof fn law_archive_holds_every_directory(entries: Seq<WalkEntry>)
    ensures
        directory_names(entries) == entries.filter(
            |e: WalkEntry| directory_name(e@) is Some,
        ).map_values(|e: WalkEntry| directory_name(e@)->0),
    decreases entries.len(),
{
    let p = |e: WalkEntry| directory_name(e@) is Some;
    let f = |e: WalkEntry| directory_name(e@)->0;
    reveal(Seq::filter);
    if entries.len() > 0 {
        law_archive_holds_every_directory(entries.drop_last());
        let rest = entries.drop_last().filter(p);
        assert(rest.push(entries.last()).map_values(f) =~= rest.map_values(f).push(
            f(entries.last()),
        ));
    }
    assert(directory_names(entries) =~= entries.filter(p).map_values(f));
}

/// An archive holds every file of the folder once and in the order of the walk.
pub proof fn law_archive_follows_the_walk(entries: Seq<WalkEntry>)
    ensures
        forall|i: int, j: int|
            0 <= i < j < archived_files(entries).len() ==> (#[trigger] archived_files(
                entries,
            )[i]).index < (#[trigger] archived_files(entries)[j]).index,
        forall|i: int|
            0 <= i < archived_files(entries).len() ==> 0 <= (#[trigger] archived_files(
                entries,
            )[i]).index < entries.len(),
    decreases entries.len(),
{
    if entries.len() > 0 {
        let rest = entries.drop_last();
        law_archive_follows_the_walk(rest);
        let all = archived_files(entries);
        assert forall|i: int, j: int| 0 <= i < j < all.len() implies (#[trigger] all[i]).index < (
        #[trigger] all[j]).index by {
            assert(all[i] == archived_files(rest)[i]);
            if j < archived_files(rest).len() {
                assert(all[j] == archived_files(rest)[j]);
            }
        }
        assert forall|i: int| 0 <= i < all.len() implies 0 <= (#[trigger] all[i]).index
            < entries.len() by {
            if i < archived_files(rest).len() {
                assert(all[i] == archived_files(rest)[i]);
            }
        }
    }
}

/// A file is compressed in an archive exactly where that makes it shorter, and
/// then at level 6; else it is stored as it is, at no level. Everyone may read
/// and open what comes out of an archive.
pub proof fn law_compression_pays(raw: Seq<u8>, deflated: Seq<u8>)
    ensures
        deflated.len() < raw.len() ==> packing(raw, deflated) == ZipMethod::Deflated && level_of(
            packing(raw, deflated),
        ) == Some(6i64),
        deflated.len() >= raw.len() ==> packing(raw, deflated) == ZipMethod::Stored && level_of(
            packing(raw, deflated),
        ) is None,
        ENTRY_MODE == 0o755,
{
}

}
