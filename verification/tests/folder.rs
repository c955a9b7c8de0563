//! Checksums, folders and archives.

use fileshare::checksum::Checksum;
use fileshare::folder::{
    analyse_folder, analyse_folder_full, checked_folder_size, choose_packing,
    compute_folder_checksum, folder_size, list_folder_manifest, pack_file, should_zip,
    zip_file, zip_folder_pub, EntryKind, PackedFile, WalkEntry, ZipMethod,
};
use std::io::{Cursor, Read};
use zip::{CompressionMethod, ZipArchive};

fn entry(kind: EntryKind, depth: usize, path: &str, size: u64) -> WalkEntry {
    WalkEntry {
        kind,
        depth,
        rel_path: Some(path.to_string()),
        size: Some(size),
        parent_rel_path: Some(format!("folder\\{}", path)),
        full_path: format!("/home/folder/{}", path),
    }
}

fn sum(data: &[u8]) -> String {
    let mut c = Checksum::new();
    c.update(data);
    c.finish()
}

#[test]
fn checksum_of_known_bytes() {
    assert_eq!(sum(b"abc"), "ba7816bf8f01cfea414140de5dae2223b00361a396177a9cb410ff61f20015ad");
    assert_eq!(sum(b""), "e3b0c44298fc1c149afbf4c8996fb92427ae41e4649b934ca495991b7852b855");
    let mut pieces = Checksum::new();
    pieces.update(b"a");
    pieces.update(b"bc");
    assert_eq!(pieces.finish(), sum(b"abc"));
}

#[test]
fn folders_are_measured() {
    let entries = vec![
        entry(EntryKind::Directory, 0, "", 4096),
        entry(EntryKind::File, 1, "a.txt", 10),
        entry(EntryKind::Directory, 1, "sub", 4096),
        entry(EntryKind::File, 2, "sub\\b.txt", 20),
    ];
    assert_eq!(analyse_folder(&entries), (2, 2));
    assert_eq!(analyse_folder_full(&entries), (2, 2, 30));
    assert_eq!(folder_size(&entries), 30);
    assert_eq!(checked_folder_size(&entries), Some(30));
    let huge = vec![
        entry(EntryKind::File, 1, "a", u64::MAX),
        entry(EntryKind::File, 1, "b", 1),
    ];
    assert_eq!(checked_folder_size(&huge), None);
}

#[test]
fn large_and_deep_folders_are_zipped() {
    assert!(!should_zip(20, 5));
    assert!(should_zip(21, 0));
    assert!(should_zip(0, 6));
}

#[test]
fn fingerprint_does_not_depend_on_the_order_of_the_walk() {
    let a = entry(EntryKind::File, 1, "a.txt", 10);
    let b = entry(EntryKind::File, 2, "sub\\b.txt", 20);
    let there = vec![a, b];
    let back = vec![entry(EntryKind::File, 2, "sub\\b.txt", 20), entry(EntryKind::File, 1, "a.txt", 10)];
    let print = compute_folder_checksum(&there);
    assert_eq!(print, compute_folder_checksum(&back));
    let mut bytes = Vec::new();
    bytes.extend_from_slice(b"a.txt:");
    bytes.extend_from_slice(&10u64.to_le_bytes());
    bytes.extend_from_slice(b"\nsub/b.txt:");
    bytes.extend_from_slice(&20u64.to_le_bytes());
    bytes.extend_from_slice(b"\n");
    assert_eq!(print, format!("dir:{}", &sum(&bytes)[..16]));
    let manifest = list_folder_manifest(&there);
    assert_eq!(manifest[1].rel_path, "sub/b.txt");
    assert_eq!(manifest[1].size, 20);
}

#[test]
fn archives_hold_safe_names() {
    let mut entries = vec![
        entry(EntryKind::Directory, 0, "", 0),
        entry(EntryKind::File, 1, "a.txt", 10),
        entry(EntryKind::File, 1, "..\\evil", 10),
        entry(EntryKind::File, 1, "notes..txt", 10),
        entry(EntryKind::File, 1, "..rc", 10),
        entry(EntryKind::File, 1, "a\\..", 10),
        entry(EntryKind::File, 1, "root", 10),
    ];
    entries[6].parent_rel_path = Some("/root".to_string());
    entries[0].parent_rel_path = Some("folder".to_string());
    let plan = zip_folder_pub(&entries);
    assert_eq!(plan.directories, vec!["folder".to_string()]);
    let files: Vec<(usize, &str)> =
        plan.files.iter().map(|f| (f.index, f.name.as_str())).collect();
    assert_eq!(files, [(1, "folder/a.txt"), (3, "folder/notes..txt"), (4, "folder/..rc")]);
}

#[test]
fn files_are_packed_only_where_it_pays() {
    let repetitive = vec![b'a'; 10_000];
    let packed = pack_file(repetitive.clone()).unwrap();
    assert_eq!(packed.data, repetitive);
    assert_eq!(packed.method, ZipMethod::Deflated);
    let tiny = vec![1u8, 2, 3];
    let kept = pack_file(tiny.clone()).unwrap();
    assert_eq!(kept.data, tiny);
    assert_eq!(kept.method, ZipMethod::Stored);
    let chosen = choose_packing(vec![1, 2, 3], &vec![9]);
    assert_eq!((chosen.data, chosen.method), (vec![1, 2, 3], ZipMethod::Deflated));
    assert_eq!(choose_packing(vec![1], &vec![9]).method, ZipMethod::Stored);
}

#[test]
fn archives_give_the_file_back() {
    let repetitive = vec![b'a'; 10_000];
    let tiny = vec![1u8, 2, 3];
    for (name, raw, method) in [
        ("folder/a.txt", repetitive, CompressionMethod::Deflated),
        ("folder/\u{e9}.bin", tiny, CompressionMethod::Stored),
        ("folder/empty", vec![], CompressionMethod::Stored),
    ] {
        let packed = pack_file(raw.clone()).unwrap();
        let archive = zip_file(name, &packed).unwrap();
        assert_eq!(zip_file(name, &packed).unwrap(), archive);
        let mut read = ZipArchive::new(Cursor::new(archive)).unwrap();
        assert_eq!(read.len(), 1);
        let mut file = read.by_index(0).unwrap();
        assert_eq!(file.name(), name);
        assert_eq!(file.compression(), method);
        assert_eq!(file.unix_mode().unwrap() & 0o777, 0o755);
        let mut out = Vec::new();
        file.read_to_end(&mut out).unwrap();
        assert_eq!(out, raw);
    }
    let kept = PackedFile { data: vec![0; 1000], method: ZipMethod::Stored };
    assert!(zip_file("zeros", &kept).unwrap().len() > 1000);
    let shrunk = PackedFile { data: vec![0; 1000], method: ZipMethod::Deflated };
    assert!(zip_file("zeros", &shrunk).unwrap().len() < 1000);
}
