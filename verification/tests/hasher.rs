use nursery::archive::{sniff, ArchiveKind};
use nursery::hasher::{hash_bytes, to_hex};
use nursery::locator::{
    find_binaries, find_binary_path, has_executable_extension, is_executable, DirEntry, Layout,
};
use nursery::order::{ascending_place, bytes_le, insert_ascending, str_le};
use nursery::text::{contains_str, matches_at, str_eq, to_chars};
use nursery::tree::{digest_tree, hash_path, Tree};
use sha2::{Digest, Sha256};

fn file(name: &str, bytes: &[u8]) -> Tree {
    Tree::File { name: name.to_string(), bytes: bytes.to_vec() }
}

fn dir(name: &str, children: Vec<Tree>) -> Tree {
    Tree::Dir { name: name.to_string(), children }
}

#[test]
fn hash_of_known_bytes() {
    assert_eq!(
        hash_bytes(b""),
        "e3b0c44298fc1c149afbf4c8996fb92427ae41e4649b934ca495991b7852b855"
    );
    assert_eq!(
        hash_bytes(b"hello world"),
        "b94d27b9934d3e08a52e52d7da7dabfac484efe37a5380ee9088f7ace2efcde9"
    );
    assert_eq!(hash_bytes(b"abc").len(), 64);
}

#[test]
fn hashing_is_deterministic() {
    assert_eq!(hash_bytes(b"some bytes"), hash_bytes(b"some bytes"));
    assert_ne!(hash_bytes(b"some bytes"), hash_bytes(b"other bytes"));
    let tree = dir("root", vec![file("b", b"2"), file("a", b"1")]);
    assert_eq!(hash_path(&tree), hash_path(&tree));
}

#[test]
fn hex_is_lowercase_two_digits_per_byte() {
    assert_eq!(to_hex(&[]), "");
    assert_eq!(to_hex(&[0x00, 0x0f, 0xa0, 0xff, 0x1b]), "000fa0ff1b");
}

#[test]
fn file_hash_is_the_hash_of_its_bytes() {
    assert_eq!(hash_path(&file("anything", b"hello world")), hash_bytes(b"hello world"));
    assert_eq!(hash_path(&file("other-name", b"hello world")), hash_bytes(b"hello world"));
}

#[test]
fn other_paths_hash_as_nothing() {
    assert_eq!(hash_path(&Tree::Other { name: "dev".to_string() }), hash_bytes(b""));
}

#[test]
fn directory_hash_folds_names_and_digests_in_name_order() {
    let tree = dir("root", vec![file("b", b"two"), file("a", b"one")]);
    let mut expected = Sha256::new();
    expected.update(b"a");
    expected.update(Sha256::digest(b"one"));
    expected.update(b"b");
    expected.update(Sha256::digest(b"two"));
    assert_eq!(digest_tree(&tree), expected.finalize().to_vec());
}

#[test]
fn directory_hash_does_not_depend_on_listing_order() {
    let one = dir("root", vec![file("b", b"2"), file("a", b"1"), dir("c", vec![file("y", b""), file("x", b"")])]);
    let two = dir("elsewhere", vec![dir("c", vec![file("x", b""), file("y", b"")]), file("a", b"1"), file("b", b"2")]);
    assert_eq!(hash_path(&one), hash_path(&two));
    let three = dir("root", vec![file("b", b"1"), file("a", b"2")]);
    assert_ne!(hash_path(&one), hash_path(&three));
}

#[test]
fn nested_directories_hash_by_the_same_rule() {
    let tree = dir("root", vec![dir("sub", vec![file("f", b"x")])]);
    let mut inner = Sha256::new();
    inner.update(b"f");
    inner.update(Sha256::digest(b"x"));
    let mut outer = Sha256::new();
    outer.update(b"sub");
    outer.update(inner.finalize());
    assert_eq!(digest_tree(&tree), outer.finalize().to_vec());
    assert_eq!(digest_tree(&dir("empty", Vec::new())), Sha256::digest(b"").to_vec());
}

#[test]
fn byte_order_is_lexicographic() {
    assert!(bytes_le(b"", b""));
    assert!(bytes_le(b"", b"a"));
    assert!(!bytes_le(b"a", b""));
    assert!(bytes_le(b"a", b"ab"));
    assert!(!bytes_le(b"ab", b"a"));
    assert!(bytes_le(b"ab", b"b"));
    assert!(bytes_le(b"Z", b"a"));
    assert!(bytes_le(b"same", b"same"));
}

#[test]
fn signatures_are_tried_in_order() {
    assert_eq!(sniff(&[0x1f, 0x8b]), ArchiveKind::GzipTar);
    assert_eq!(sniff(&[0x1f, 0x8b, 0x08, 0x00, 0x00]), ArchiveKind::GzipTar);
    assert_eq!(sniff(&[0xfd, 0x37, 0x7a, 0x58, 0x5a, 0x00]), ArchiveKind::XzTar);
    assert_eq!(sniff(&[0xfd, 0x37, 0x7a, 0x58, 0x5a]), ArchiveKind::Opaque);
    assert_eq!(sniff(b"PK\x03\x04"), ArchiveKind::Zip);
    assert_eq!(sniff(b"PK\x03"), ArchiveKind::Opaque);
    assert_eq!(sniff(b""), ArchiveKind::Opaque);
    assert_eq!(sniff(&[0x1f]), ArchiveKind::Opaque);
    assert_eq!(sniff(b"#!/bin/sh\necho hello"), ArchiveKind::Opaque);
    assert!(ArchiveKind::Zip.is_archive());
    assert!(!ArchiveKind::Opaque.is_archive());
}

#[test]
fn gzip_tar_is_recognised_and_holds_several_files() {
    let mut builder = tar::Builder::new(flate2::write::GzEncoder::new(Vec::new(), flate2::Compression::default()));
    for (name, data) in [("bin/tool", &b"#!/bin/sh\n"[..]), ("README", &b"read me"[..])] {
        let mut header = tar::Header::new_gnu();
        header.set_size(data.len() as u64);
        header.set_mode(0o755);
        header.set_cksum();
        builder.append_data(&mut header, name, data).unwrap();
    }
    let bytes = builder.into_inner().unwrap().finish().unwrap();
    assert_eq!(sniff(&bytes), ArchiveKind::GzipTar);
    let mut archive = tar::Archive::new(flate2::read::GzDecoder::new(&bytes[..]));
    assert_eq!(archive.entries().unwrap().count(), 2);
}

fn entry(name: &str, is_file: bool, mode: u32) -> DirEntry {
    DirEntry { name: name.to_string(), is_file, mode }
}

#[test]
fn executables_need_a_file_and_an_execute_bit() {
    assert!(is_executable(&entry("a", true, 0o755)));
    assert!(is_executable(&entry("a", true, 0o100)));
    assert!(is_executable(&entry("a", true, 0o010)));
    assert!(is_executable(&entry("a", true, 0o001)));
    assert!(!is_executable(&entry("a", true, 0o644)));
    assert!(!is_executable(&entry("a", false, 0o755)));
}

#[test]
fn binaries_are_listed_once_in_search_order() {
    let layout = Layout {
        root: vec![entry("tool", true, 0o755), entry("README", true, 0o644), entry("bin", false, 0o755)],
        bin: vec![entry("helper", true, 0o700), entry("tool", true, 0o755)],
        usr_bin: vec![entry("helper", true, 0o755), entry("third", true, 0o555)],
        usr_local_bin: vec![entry("last", true, 0o755), entry("tool", true, 0o755)],
    };
    assert_eq!(find_binaries(&layout), vec!["tool", "helper", "third", "last"]);
    assert_eq!(find_binary_path("/p", &layout, "tool"), Some("/p/tool".to_string()));
    assert_eq!(find_binary_path("/p", &layout, "helper"), Some("/p/bin/helper".to_string()));
    assert_eq!(find_binary_path("/p", &layout, "third"), Some("/p/usr/bin/third".to_string()));
    assert_eq!(find_binary_path("/p", &layout, "last"), Some("/p/usr/local/bin/last".to_string()));
    assert_eq!(find_binary_path("/p", &layout, "README"), Some("/p/README".to_string()));
    assert_eq!(find_binary_path("/p", &layout, "absent"), None);
}

#[test]
fn extensions_mark_executables_where_bits_do_not() {
    assert!(has_executable_extension("tool.exe"));
    assert!(has_executable_extension("run.cmd"));
    assert!(has_executable_extension("run.bat"));
    assert!(has_executable_extension("a.b.exe"));
    assert!(!has_executable_extension(".exe"));
    assert!(!has_executable_extension("exe"));
    assert!(!has_executable_extension("tool.exe.txt"));
    assert!(!has_executable_extension("tool"));
    assert!(!has_executable_extension("tool.EXE"));
}

#[test]
fn strings_are_ordered_by_their_bytes() {
    assert!(str_le("a", "b"));
    assert!(str_le("a", "a"));
    assert!(!str_le("b", "a"));
    assert!(str_le("Z", "a"));
    assert!(str_le("z", "é"));
    let mut names: Vec<String> = Vec::new();
    for name in ["pear", "apple", "fig", "apple", "zebra", "banana"] {
        insert_ascending(&mut names, name);
    }
    assert_eq!(names, vec!["apple", "banana", "fig", "pear", "zebra"]);
    assert_eq!(ascending_place(&names, "fig"), None);
    assert_eq!(ascending_place(&names, "cherry"), Some(2));
    assert_eq!(ascending_place(&names, "aaa"), Some(0));
    assert_eq!(ascending_place(&names, "zzz"), Some(5));
}

#[test]
fn text_is_searched_by_characters() {
    assert_eq!(to_chars("héllo"), vec!['h', 'é', 'l', 'l', 'o']);
    assert!(to_chars("").is_empty());
    let text = to_chars("abcabc");
    assert!(matches_at(&text, 3, &to_chars("abc")));
    assert!(!matches_at(&text, 4, &to_chars("abc")));
    assert!(matches_at(&text, 6, &to_chars("")));
    assert!(!matches_at(&text, 1, &to_chars("abc")));
    assert!(str_eq("same", "same"));
    assert!(!str_eq("same", "Same"));
    assert!(contains_str(&vec!["a".to_string(), "b".to_string()], "b"));
    assert!(!contains_str(&vec!["a".to_string(), "b".to_string()], "c"));
}
