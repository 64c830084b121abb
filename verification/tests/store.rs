use nursery::archive::ArchiveKind;
use nursery::hasher::hash_bytes;
use nursery::locator::{DirEntry, Layout};
use nursery::steps::{addition_steps, link_steps, removal_steps, setup_steps, unlink_steps, Step};
use nursery::store::{Store, StoreError, StoredPackage, Work};

fn entry(name: &str, is_file: bool, mode: u32) -> DirEntry {
    DirEntry { name: name.to_string(), is_file, mode }
}

fn layout(root: Vec<DirEntry>, bin: Vec<DirEntry>) -> Layout {
    Layout { root, bin, usr_bin: Vec::new(), usr_local_bin: Vec::new() }
}

/// Carries out the plan for a blob as a disk would, for a blob that is no
/// archive, and records the outcome.
fn add_raw(store: &mut Store, bytes: &[u8], expected: Option<&str>) -> Result<StoredPackage, StoreError> {
    let plan = store.add_bytes(bytes, expected)?;
    match plan.work {
        Work::Nothing => Ok(store.get(&plan.hash).unwrap()),
        Work::WriteExecutable { .. } => Ok(store.record(&plan.hash, Store::raw_layout())),
        _ => panic!("a blob that is no archive is written as it is"),
    }
}

#[test]
fn store_and_retrieve() {
    let mut store = Store::with_root("/srv/nursery");

    let bin_content = b"#!/bin/sh\necho hello";
    let pkg = add_raw(&mut store, bin_content, None).unwrap();

    assert!(store.has(&pkg.hash));
    assert!(store.get(&pkg.hash).is_some());
}

#[test]
fn hash_verification() {
    let mut store = Store::with_root("/srv/nursery");

    let content = b"test content";
    let hash = hash_bytes(content);

    // Correct hash
    let pkg = add_raw(&mut store, content, Some(&hash)).unwrap();
    assert_eq!(pkg.hash, hash);

    // Wrong hash
    let result = add_raw(&mut store, content, Some("wrong"));
    assert!(matches!(result, Err(StoreError::HashMismatch { .. })));
}

#[test]
fn activation() {
    let mut store = Store::with_root("/srv/nursery");

    // A package with one executable in its root.
    let source = nursery::tree::Tree::Dir {
        name: "pkg".to_string(),
        children: vec![nursery::tree::Tree::File {
            name: "mytool".to_string(),
            bytes: b"#!/bin/sh\necho hello".to_vec(),
        }],
    };
    let plan = store.add_path(&source);
    assert!(matches!(plan.work, Work::CopyTree));
    let pkg = store.record(&plan.hash, layout(vec![entry("mytool", true, 0o755)], Vec::new()));
    let activated = store.activate(&pkg);

    assert!(!activated.is_empty());
    assert_eq!(activated[0].link, "/srv/nursery/bin/mytool");
    assert_eq!(activated[0].target, format!("/srv/nursery/store/{}/mytool", pkg.hash));
    assert!(store.link_resolves("mytool", &activated[0].target));
}

#[test]
fn garbage_collection() {
    let mut store = Store::with_root("/srv/nursery");

    let pkg1 = add_raw(&mut store, b"package1", None).unwrap();
    let pkg2 = add_raw(&mut store, b"package2", None).unwrap();

    let keep = vec![pkg1.hash.clone()];

    let removed = store.gc(&keep).hashes();

    assert!(store.has(&pkg1.hash));
    assert!(!store.has(&pkg2.hash));
    assert_eq!(removed.len(), 1);
    assert_eq!(removed[0], pkg2.hash);
}

#[test]
fn hash_mismatch_names_both_hashes_and_changes_nothing() {
    let mut store = Store::with_root("/srv/nursery");
    let actual = hash_bytes(b"payload");
    match store.add_bytes(b"payload", Some("0000")) {
        Err(StoreError::HashMismatch { expected, actual: got }) => {
            assert_eq!(expected, "0000");
            assert_eq!(got, actual);
        }
        _ => panic!("a wrong hash is refused"),
    }
    assert!(!store.has(&actual));
    assert!(store.list().is_empty());
    // The right hash is accepted afterwards.
    assert!(add_raw(&mut store, b"payload", Some(&actual)).is_ok());
}

#[test]
fn adding_twice_stores_once() {
    let mut store = Store::with_root("/srv/nursery");
    let first = add_raw(&mut store, b"same bytes", None).unwrap();
    let again = store.add_bytes(b"same bytes", None).unwrap();
    assert!(matches!(again.work, Work::Nothing));
    let second = add_raw(&mut store, b"same bytes", None).unwrap();
    assert_eq!(first.hash, second.hash);
    assert_eq!(store.list().len(), 1);
}

#[test]
fn recording_again_keeps_the_first_content() {
    let mut store = Store::with_root("/srv/nursery");
    let first = store.record("abc", layout(vec![entry("one", true, 0o755)], Vec::new()));
    assert_eq!(first.binaries, vec!["one".to_string()]);
    let second = store.record("abc", layout(vec![entry("two", true, 0o755)], Vec::new()));
    assert_eq!(second.binaries, vec!["one".to_string()]);
    assert_eq!(store.list().len(), 1);
}

#[test]
fn plan_names_paths_and_work() {
    let store = Store::with_root("/srv/nursery");
    assert_eq!(store.store_dir(), "/srv/nursery/store");
    assert_eq!(store.bin_dir(), "/srv/nursery/bin");
    let plan = store.add_bytes(b"not an archive", None).unwrap();
    let hash = hash_bytes(b"not an archive");
    assert_eq!(plan.hash, hash);
    assert_eq!(plan.path, format!("/srv/nursery/store/{}", hash));
    assert_eq!(plan.staging, format!("/srv/nursery/staging/{}", hash));
    match plan.work {
        Work::WriteExecutable { name, mode } => {
            assert_eq!(name, "bin");
            assert_eq!(mode, 0o755);
        }
        _ => panic!("a blob that is no archive is written as an executable"),
    }
}

#[test]
fn archives_are_unpacked() {
    let store = Store::with_root("/srv/nursery");
    let gz = store.add_bytes(&[0x1f, 0x8b, 0x08, 0x00], None).unwrap();
    assert!(matches!(gz.work, Work::Unpack(ArchiveKind::GzipTar)));
    let xz = store.add_bytes(&[0xfd, 0x37, 0x7a, 0x58, 0x5a, 0x00, 0x00], None).unwrap();
    assert!(matches!(xz.work, Work::Unpack(ArchiveKind::XzTar)));
    let zip = store.add_bytes(b"PK\x03\x04rest", None).unwrap();
    assert!(matches!(zip.work, Work::Unpack(ArchiveKind::Zip)));
}

#[test]
fn raw_layout_is_one_executable_called_bin() {
    let layout = Store::raw_layout();
    assert_eq!(layout.root.len(), 1);
    assert_eq!(layout.root[0].name, "bin");
    assert!(layout.root[0].is_file);
    assert_eq!(layout.root[0].mode & 0o111, 0o111);
    assert!(layout.bin.is_empty() && layout.usr_bin.is_empty() && layout.usr_local_bin.is_empty());
}

#[test]
fn get_of_an_unknown_hash_is_none() {
    let store = Store::with_root("/srv/nursery");
    assert!(store.get("nothing").is_none());
    assert!(!store.has("nothing"));
    assert!(store.list().is_empty());
}

#[test]
fn activation_replaces_a_link_of_the_same_name() {
    let mut store = Store::with_root("/r");
    let a = store.record("aaa", layout(vec![entry("tool", true, 0o755)], Vec::new()));
    let b = store.record("bbb", layout(Vec::new(), vec![entry("tool", true, 0o700)]));
    let first = store.activate(&a);
    assert_eq!(first.len(), 1);
    assert_eq!(first[0].target, "/r/store/aaa/tool");
    let second = store.activate(&b);
    assert_eq!(second.len(), 1);
    assert_eq!(second[0].link, "/r/bin/tool");
    assert_eq!(second[0].target, "/r/store/bbb/bin/tool");
    assert!(store.link_resolves("tool", "/r/store/bbb/bin/tool"));
    // Activating again makes the same link, not a second one.
    let third = store.activate(&b);
    assert_eq!(third.len(), 1);
    assert_eq!(third[0].target, "/r/store/bbb/bin/tool");
}

#[test]
fn activation_passes_over_what_does_not_resolve() {
    let mut store = Store::with_root("/r");
    let pkg = store.record("aaa", layout(vec![entry("tool", true, 0o755)], Vec::new()));
    assert_eq!(pkg.binaries, vec!["tool".to_string()]);
    let forged = StoredPackage {
        hash: pkg.hash.clone(),
        path: pkg.path.clone(),
        binaries: vec!["ghost".to_string(), "tool".to_string()],
    };
    let activated = store.activate(&forged);
    assert_eq!(activated.len(), 1);
    assert_eq!(activated[0].link, "/r/bin/tool");
    assert_eq!(activated[0].target, "/r/store/aaa/tool");
    assert!(!store.link_resolves("ghost", "/r/store/aaa/ghost"));
    // A package that is not in the store activates nothing.
    let stranger = StoredPackage {
        hash: "zzz".to_string(),
        path: "/elsewhere/zzz".to_string(),
        binaries: vec!["tool".to_string()],
    };
    assert!(store.activate(&stranger).is_empty());
}

#[test]
fn activation_links_what_exists_whatever_its_mode() {
    let mut store = Store::with_root("/srv/nursery");
    let pkg = store.record("abc", layout(vec![entry("readme", true, 0o644)], Vec::new()));
    // The locator offers nothing here: the file cannot be run.
    assert!(pkg.binaries.is_empty());
    assert!(store.find_binaries(&pkg.path).is_empty());
    let named = StoredPackage {
        hash: pkg.hash.clone(),
        path: pkg.path.clone(),
        binaries: vec!["readme".to_string()],
    };
    let activated = store.activate(&named);
    assert_eq!(activated.len(), 1);
    assert_eq!(activated[0].link, "/srv/nursery/bin/readme");
    assert_eq!(activated[0].target, "/srv/nursery/store/abc/readme");
    assert!(store.link_resolves("readme", "/srv/nursery/store/abc/readme"));
    // Once more: still one link, to the same place.
    let again = store.activate(&named);
    assert_eq!(again.len(), 1);
    assert_eq!(again[0].target, "/srv/nursery/store/abc/readme");
    // Removing the package removes the link with it, though the package
    // never offered a binary of that name.
    let collected = store.gc(&Vec::new());
    assert_eq!(collected.removed.len(), 1);
    assert_eq!(collected.unlinked, vec!["readme".to_string()]);
    assert!(!store.link_resolves("readme", "/srv/nursery/store/abc/readme"));
    assert_eq!(
        format!("{:?}", removal_steps(&store, &collected)),
        r#"[RemoveLink { path: "/srv/nursery/bin/readme" }, RemoveTree { path: "/srv/nursery/store/abc" }]"#
    );
}

#[test]
fn activation_takes_the_first_place_that_holds_the_name() {
    let mut store = Store::with_root("/r");
    let pkg = store.record(
        "aaa",
        Layout {
            root: vec![entry("lib", false, 0o755)],
            bin: Vec::new(),
            usr_bin: vec![entry("tool", true, 0o600)],
            usr_local_bin: vec![entry("tool", true, 0o755), entry("lib", true, 0o755)],
        },
    );
    assert_eq!(pkg.binaries, vec!["tool".to_string(), "lib".to_string()]);
    let activated = store.activate(&pkg);
    assert_eq!(activated.len(), 2);
    assert_eq!(activated[0].target, "/r/store/aaa/usr/bin/tool");
    assert_eq!(activated[1].target, "/r/store/aaa/lib");
}

#[test]
fn deactivation_names_every_link_path() {
    let mut store = Store::with_root("/r");
    let pkg = store.record("aaa", layout(vec![entry("x", true, 0o755), entry("y", true, 0o755)], Vec::new()));
    store.activate(&pkg);
    let unlinked = store.deactivate(&pkg);
    assert_eq!(unlinked, vec!["/r/bin/x".to_string(), "/r/bin/y".to_string()]);
    // Deactivating again is tolerated.
    let again = store.deactivate(&pkg);
    assert_eq!(again.len(), 2);
    assert!(!store.record_link("x", "/r/store/aaa/nowhere"));
}

#[test]
fn gc_removes_links_into_removed_packages() {
    let mut store = Store::with_root("/r");
    let a = store.record("aaa", layout(vec![entry("keepme", true, 0o755)], Vec::new()));
    let b = store.record("bbb", layout(vec![entry("dropme", true, 0o755)], Vec::new()));
    store.activate(&a);
    store.activate(&b);
    let collected = store.gc(&vec!["aaa".to_string()]);
    assert_eq!(collected.hashes(), vec!["bbb".to_string()]);
    assert_eq!(collected.unlinked, vec!["dropme".to_string()]);
    let removed = collected.removed;
    assert_eq!(removed.len(), 1);
    assert_eq!(removed[0].hash, "bbb");
    assert_eq!(removed[0].path, "/r/store/bbb");
    assert_eq!(removed[0].binaries, vec!["dropme".to_string()]);
    assert!(store.has("aaa"));
    assert!(!store.has("bbb"));
    // The link of the kept package is still recorded, that of the removed one is gone.
    assert!(store.record_link("keepme", "/r/store/aaa/keepme"));
    assert!(!store.record_link("dropme", "/r/store/bbb/dropme"));
    // Keeping everything removes nothing.
    let nothing = store.gc(&vec!["aaa".to_string()]);
    assert!(nothing.removed.is_empty());
    assert!(nothing.unlinked.is_empty());
    assert!(store.link_resolves("keepme", "/r/store/aaa/keepme"));
    // Keeping nothing removes the rest.
    let rest = store.gc(&Vec::new());
    assert_eq!(rest.removed.len(), 1);
    assert_eq!(rest.unlinked, vec!["keepme".to_string()]);
    assert!(store.list().is_empty());
}

#[test]
fn links_found_on_disk_are_recorded_only_if_they_resolve() {
    let mut store = Store::with_root("/r");
    store.record("aaa", layout(Vec::new(), vec![entry("tool", true, 0o755)]));
    assert!(!store.record_link("tool", "/somewhere/else"));
    assert!(!store.record_link("tool", "/r/store/aaa/tool"));
    assert!(store.record_link("tool", "/r/store/aaa/bin/tool"));
    assert!(!store.record_link("other", "/r/store/aaa/bin/other"));
    // What the link points at need not be executable: it has to exist.
    store.record("bbb", layout(vec![entry("readme", true, 0o644)], Vec::new()));
    assert!(store.record_link("readme", "/r/store/bbb/readme"));
    assert!(!store.record_link("readme", "/r/store/bbb/bin/readme"));
}

#[test]
fn gc_removes_links_by_name_and_by_target() {
    let mut store = Store::with_root("/r");
    let a = store.record("aaa", layout(vec![entry("tool", true, 0o755), entry("notes", true, 0o644)], Vec::new()));
    let b = store.record("bbb", layout(vec![entry("tool", true, 0o755), entry("other", true, 0o755)], Vec::new()));
    // The link `tool` points into the kept package, `notes` into the one
    // that goes, `other` into the kept one.
    store.activate(&b);
    let named = StoredPackage {
        hash: a.hash.clone(),
        path: a.path.clone(),
        binaries: vec!["notes".to_string()],
    };
    store.activate(&named);
    assert!(store.record_link("tool", "/r/store/bbb/tool"));
    let collected = store.gc(&vec!["bbb".to_string()]);
    assert_eq!(collected.removed.len(), 1);
    assert_eq!(collected.removed[0].hash, "aaa");
    // `notes` pointed into the removed package; `tool` is called like one
    // of its binaries and goes by name.
    assert_eq!(collected.unlinked, vec!["notes".to_string()]);
    assert_eq!(
        format!("{:?}", removal_steps(&store, &collected)),
        r#"[RemoveLink { path: "/r/bin/notes" }, RemoveLink { path: "/r/bin/tool" }, RemoveTree { path: "/r/store/aaa" }]"#
    );
    // Only `other` is left in the model.
    let rest = store.gc(&Vec::new());
    assert_eq!(rest.unlinked, vec!["other".to_string()]);
}

#[test]
fn binaries_are_found_by_path() {
    let mut store = Store::with_root("/r");
    store.record("aaa", layout(vec![entry("doc", false, 0o755)], vec![entry("tool", true, 0o755), entry("data", true, 0o644)]));
    assert_eq!(store.find_binaries("/r/store/aaa"), vec!["tool".to_string()]);
    assert!(store.find_binaries("/r/store/bbb").is_empty());
    assert_eq!(store.find_binary_path("/r/store/aaa", "tool"), Some("/r/store/aaa/bin/tool".to_string()));
    assert_eq!(store.find_binary_path("/r/store/aaa", "data"), Some("/r/store/aaa/bin/data".to_string()));
    assert_eq!(store.find_binary_path("/r/store/aaa", "doc"), Some("/r/store/aaa/doc".to_string()));
    assert_eq!(store.find_binary_path("/r/store/aaa", "none"), None);
    assert_eq!(store.find_binary_path("/r/store/bbb", "tool"), None);
}

#[test]
fn default_root_prefers_the_data_directory() {
    assert_eq!(Store::default_root(Some("/data".to_string()), Some("/home/me".to_string())), "/data/nursery");
    assert_eq!(Store::default_root(None, Some("/home/me".to_string())), "/home/me/.local/share/nursery");
    assert_eq!(Store::default_root(None, None), ".nursery");
    let store = Store::new();
    assert!(store.store_dir().ends_with("/store"));
    assert!(store.bin_dir().ends_with("/bin"));
}

#[test]
fn errors_say_what_went_wrong() {
    assert_eq!(StoreError::CreateDir("denied".to_string()).message(), "failed to create directory: denied");
    assert_eq!(StoreError::ReadFile("gone".to_string()).message(), "failed to read file: gone");
    assert_eq!(StoreError::WriteFile("full".to_string()).message(), "failed to write file: full");
    assert_eq!(StoreError::Download("offline".to_string()).message(), "failed to download: offline");
    assert_eq!(StoreError::Unpack("corrupt".to_string()).message(), "failed to unpack archive: corrupt");
    assert_eq!(
        StoreError::HashMismatch { expected: "aa".to_string(), actual: "bb".to_string() }.message(),
        "hash mismatch: expected aa, got bb"
    );
    assert_eq!(StoreError::NotFound("cc".to_string()).message(), "package not found: cc");
}

#[test]
fn steps_name_what_is_done_on_disk() {
    let mut store = Store::with_root("/r");
    assert_eq!(
        format!("{:?}", setup_steps(&store)),
        r#"[CreateDir { path: "/r/store" }, CreateDir { path: "/r/bin" }]"#
    );

    let plan = store.add_bytes(b"raw", None).unwrap();
    let steps = addition_steps(&plan);
    assert_eq!(steps.len(), 4);
    assert!(matches!(&steps[0], Step::RemoveTree { path } if *path == plan.staging));
    assert!(matches!(&steps[1], Step::CreateDir { path } if *path == plan.staging));
    assert!(matches!(
        &steps[2],
        Step::Write { work: Work::WriteExecutable { name, mode: 0o755 }, into } if name == "bin" && *into == plan.staging
    ));
    assert!(matches!(&steps[3], Step::MoveInto { from, to } if *from == plan.staging && *to == plan.path));

    store.record(&plan.hash, Store::raw_layout());
    assert!(addition_steps(&store.add_bytes(b"raw", None).unwrap()).is_empty());

    let a = store.record("aaa", layout(vec![entry("x", true, 0o755), entry("y", true, 0o755)], Vec::new()));
    let links = store.activate(&a);
    assert_eq!(
        format!("{:?}", link_steps(&links)),
        r#"[RemoveLink { path: "/r/bin/x" }, Symlink { target: "/r/store/aaa/x", link: "/r/bin/x" }, RemoveLink { path: "/r/bin/y" }, Symlink { target: "/r/store/aaa/y", link: "/r/bin/y" }]"#
    );
    assert_eq!(
        format!("{:?}", unlink_steps(&store.deactivate(&a))),
        r#"[RemoveLink { path: "/r/bin/x" }, RemoveLink { path: "/r/bin/y" }]"#
    );
    store.activate(&a);
    let removed = store.gc(&vec![plan.hash.clone()]);
    assert_eq!(
        format!("{:?}", removal_steps(&store, &removed)),
        r#"[RemoveLink { path: "/r/bin/x" }, RemoveLink { path: "/r/bin/y" }, RemoveLink { path: "/r/bin/x" }, RemoveLink { path: "/r/bin/y" }, RemoveTree { path: "/r/store/aaa" }]"#
    );
    let nothing = store.gc(&vec![plan.hash.clone()]);
    assert!(removal_steps(&store, &nothing).is_empty());
    assert!(link_steps(&Vec::new()).is_empty());
}
