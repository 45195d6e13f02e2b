use mcubed_back::engine::{Back, ParseOutcome, ScannedFile};
use mcubed_back::install::{splice_entries, transplant_linkage};
use mcubed_back::hash::get_hashes_from_vec;
use mcubed_back::mod_entry::{FileState, ModEntry, ModLoader, ModMeta, ModrinthData, Source};
use mcubed_back::update::{VersionFile, VersionRecord};

fn meta(id: &str, version: &str, name: &str) -> ModMeta {
    ModMeta {
        id: id.to_string(),
        version: version.to_string(),
        display_name: name.to_string(),
        modloader: ModLoader::Fabric,
    }
}

fn entry_from_bytes(id: &str, name: &str, bytes: &[u8]) -> ModEntry {
    ModEntry {
        id: id.to_string(),
        version: "1.0.0".to_string(),
        display_name: name.to_string(),
        modloader: ModLoader::Fabric,
        hashes: get_hashes_from_vec(&bytes.to_vec()),
        modrinth_data: None,
        state: FileState::Local,
        sourced_from: Source::Local,
    }
}

fn parsed_file(path: &str, bytes: &[u8], metas: Vec<ModMeta>) -> ScannedFile {
    ScannedFile {
        path: path.to_string(),
        bytes: bytes.to_vec(),
        parse: ParseOutcome::Parsed(metas),
    }
}

fn malformed_file(path: &str, bytes: &[u8]) -> ScannedFile {
    ScannedFile {
        path: path.to_string(),
        bytes: bytes.to_vec(),
        parse: ParseOutcome::Malformed,
    }
}

#[test]
fn scan_builds_fresh_entries() {
    let mut back = Back::new("/mods".to_string());
    let files = vec![
        parsed_file("/mods/a.jar", b"aaa", vec![meta("alpha", "1.0.0", "Alpha")]),
        parsed_file("/mods/b.jar", b"bbb", vec![meta("beta", "2.0.0", "Beta")]),
    ];
    let err = back.scan_folder(&files);
    assert!(err.is_none());
    assert_eq!(back.mod_list.len(), 2);
    assert_eq!(back.mod_list[0].id, "alpha");
    assert_eq!(back.mod_list[0].state, FileState::Local);
    assert_eq!(back.mod_list[0].sourced_from, Source::Local);
    assert!(back.mod_list[0].modrinth_data.is_none());
    let expected = get_hashes_from_vec(&b"aaa".to_vec());
    assert_eq!(back.mod_list[0].hashes.sha1, expected.sha1);
    assert_eq!(back.mod_list[1].id, "beta");
}

#[test]
fn scan_splits_multi_package_archives() {
    let mut back = Back::new("/mods".to_string());
    let files = vec![parsed_file(
        "/mods/pack.jar",
        b"pack",
        vec![meta("one", "1.0.0", "One"), meta("two", "1.0.0", "Two")],
    )];
    assert!(back.scan_folder(&files).is_none());
    assert_eq!(back.mod_list.len(), 2);
    assert_eq!(back.mod_list[0].hashes.sha1, back.mod_list[1].hashes.sha1);
}

// A directory with parseable files and one unparseable file yields an empty
// snapshot and exactly one error naming the unparseable file's path,
// regardless of where in the order the failure sits.
#[test]
fn scan_aborts_whole_snapshot_on_first_parse_failure() {
    let mut back = Back::new("/mods".to_string());
    let files = vec![
        parsed_file("/mods/a.jar", b"aaa", vec![meta("alpha", "1.0.0", "Alpha")]),
        malformed_file("/mods/broken.jar", b"junk"),
        parsed_file("/mods/b.jar", b"bbb", vec![meta("beta", "2.0.0", "Beta")]),
    ];
    let err = back.scan_folder(&files).expect("scan must fail");
    assert_eq!(err.path, "/mods/broken.jar");
    assert_eq!(err.context_message(), "Could not parse: /mods/broken.jar");
    assert!(back.mod_list.is_empty());
}

#[test]
fn scan_failure_outcome_is_order_independent() {
    for order in [[0usize, 1, 2], [1, 0, 2], [2, 1, 0]] {
        let pool = [
            parsed_file("/mods/a.jar", b"aaa", vec![meta("alpha", "1.0.0", "Alpha")]),
            parsed_file("/mods/b.jar", b"bbb", vec![meta("beta", "2.0.0", "Beta")]),
            malformed_file("/mods/broken.jar", b"junk"),
        ];
        let mut files = Vec::new();
        for &i in &order {
            let f = &pool[i];
            files.push(ScannedFile {
                path: f.path.clone(),
                bytes: f.bytes.clone(),
                parse: match &f.parse {
                    ParseOutcome::Parsed(ms) => ParseOutcome::Parsed(ms.clone()),
                    ParseOutcome::Malformed => ParseOutcome::Malformed,
                },
            });
        }
        let mut back = Back::new("/mods".to_string());
        let err = back.scan_folder(&files);
        assert_eq!(err.expect("scan must fail").path, "/mods/broken.jar");
        assert!(back.mod_list.is_empty());
    }
}

// Reconciliation: an entry present by id in the old snapshot keeps its
// provenance and remote linkage; it keeps its status exactly when its primary
// hash is unchanged, and otherwise reverts to the scanner's default.
#[test]
fn rescan_preserves_linkage_and_conditionally_status() {
    let mut back = Back::new("/mods".to_string());
    let mut old = entry_from_bytes("alpha", "Alpha", b"aaa");
    old.modrinth_data = Some(ModrinthData {
        id: "R1".to_string(),
        latest_valid_version: Some("alpha-2.0.jar".to_string()),
    });
    old.sourced_from = Source::Modrinth;
    old.state = FileState::Current;
    back.mod_list.push(old);

    // Same id, same bytes: everything survives, status included.
    let files = vec![parsed_file(
        "/mods/a.jar",
        b"aaa",
        vec![meta("alpha", "1.0.0", "Alpha")],
    )];
    assert!(back.scan_folder(&files).is_none());
    assert_eq!(back.mod_list.len(), 1);
    let e = &back.mod_list[0];
    assert_eq!(e.sourced_from, Source::Modrinth);
    assert_eq!(
        e.modrinth_data.as_ref().expect("linkage kept").id,
        "R1"
    );
    assert_eq!(e.state, FileState::Current);

    // Same id, changed bytes: linkage survives, status resets.
    let files = vec![parsed_file(
        "/mods/a.jar",
        b"aaa-changed",
        vec![meta("alpha", "1.1.0", "Alpha")],
    )];
    assert!(back.scan_folder(&files).is_none());
    let e = &back.mod_list[0];
    assert_eq!(e.sourced_from, Source::Modrinth);
    assert_eq!(e.modrinth_data.as_ref().expect("linkage kept").id, "R1");
    assert_eq!(e.state, FileState::Local);
    assert_eq!(e.version, "1.1.0");
}

#[test]
fn rescan_drops_entries_absent_from_disk() {
    let mut back = Back::new("/mods".to_string());
    back.mod_list.push(entry_from_bytes("gone", "Gone", b"gone"));
    let files = vec![parsed_file(
        "/mods/a.jar",
        b"aaa",
        vec![meta("alpha", "1.0.0", "Alpha")],
    )];
    assert!(back.scan_folder(&files).is_none());
    assert_eq!(back.mod_list.len(), 1);
    assert_eq!(back.mod_list[0].id, "alpha");
}

#[test]
fn publish_sorts_by_display_name() {
    let mut back = Back::new("/mods".to_string());
    back.mod_list.push(entry_from_bytes("c", "Cherry", b"c"));
    back.mod_list.push(entry_from_bytes("a", "Apple", b"a"));
    back.mod_list.push(entry_from_bytes("b", "Banana", b"b"));
    let published = back.sort_and_publish();
    let names: Vec<&str> = published.iter().map(|e| e.display_name.as_str()).collect();
    assert_eq!(names, vec!["Apple", "Banana", "Cherry"]);
    assert_eq!(back.mod_list.len(), 3);
    assert_eq!(back.mod_list[0].display_name, "Apple");
}

// End-to-end scenario: a local file whose hash the registry knows, whose
// latest version record lists that very hash, resolves to Current with
// registry provenance, and the cache learns the hash binding.
#[test]
fn update_check_resolves_current() {
    let mut back = Back::new("/mods".to_string());
    let files = vec![parsed_file(
        "/mods/a.jar",
        b"h1-bytes",
        vec![meta("alpha", "1.0.0", "Alpha")],
    )];
    assert!(back.scan_folder(&files).is_none());
    let h1 = back.mod_list[0].hashes.sha1.clone();

    // The registry's find-by-hash answered R1: record it, as the resolver does.
    assert!(back.cache.lookup(&h1).is_none());
    back.cache.record(h1.clone(), "R1".to_string());
    assert_eq!(back.cache.lookup(&h1), Some("R1".to_string()));

    let versions = vec![VersionRecord {
        files: vec![VersionFile {
            hash: h1.clone(),
            filename: "mod-1.0.jar".to_string(),
        }],
    }];
    back.resolve_entry(0, "R1".to_string(), &Some(versions));
    let e = &back.mod_list[0];
    assert_eq!(e.state, FileState::Current);
    assert_eq!(e.sourced_from, Source::Modrinth);
    let data = e.modrinth_data.as_ref().expect("linked");
    assert_eq!(data.id, "R1");
    assert_eq!(data.latest_valid_version.as_deref(), Some("mod-1.0.jar"));
}

// Same, but the record's file hash differs from the local one: Outdated.
#[test]
fn update_check_resolves_outdated() {
    let mut back = Back::new("/mods".to_string());
    let files = vec![parsed_file(
        "/mods/a.jar",
        b"h1-bytes",
        vec![meta("alpha", "1.0.0", "Alpha")],
    )];
    assert!(back.scan_folder(&files).is_none());
    let h2 = get_hashes_from_vec(&b"other-bytes".to_vec()).sha1;
    let versions = vec![VersionRecord {
        files: vec![VersionFile {
            hash: h2,
            filename: "mod-2.0.jar".to_string(),
        }],
    }];
    back.resolve_entry(0, "R1".to_string(), &Some(versions));
    let e = &back.mod_list[0];
    assert_eq!(e.state, FileState::Outdated);
    assert_eq!(e.sourced_from, Source::Modrinth);
    assert_eq!(
        e.modrinth_data.as_ref().unwrap().latest_valid_version.as_deref(),
        Some("mod-2.0.jar")
    );
}

// A failed version-history fetch degrades the status to Local and touches
// nothing else.
#[test]
fn update_check_fetch_failure_degrades_to_local() {
    let mut back = Back::new("/mods".to_string());
    let mut e = entry_from_bytes("alpha", "Alpha", b"aaa");
    e.modrinth_data = Some(ModrinthData {
        id: "R1".to_string(),
        latest_valid_version: None,
    });
    e.sourced_from = Source::Modrinth;
    e.state = FileState::Current;
    back.mod_list.push(e);
    back.resolve_entry(0, "R1".to_string(), &None);
    let e = &back.mod_list[0];
    assert_eq!(e.state, FileState::Local);
    assert_eq!(e.sourced_from, Source::Modrinth);
    assert_eq!(e.modrinth_data.as_ref().unwrap().id, "R1");
}

// End-to-end install: the downloaded file is written under the latest valid
// version's filename, the fold transplants the old linkage, the re-scan
// discovers the new file, and the republished snapshot carries the old
// provenance and linkage with a status left for the next check to resolve.
#[test]
fn install_rescan_keeps_transplanted_linkage() {
    let mut back = Back::new("/mods".to_string());
    let files = vec![parsed_file(
        "/mods/mod-1.0.jar",
        b"old-bytes",
        vec![meta("alpha", "1.0.0", "Alpha")],
    )];
    assert!(back.scan_folder(&files).is_none());
    let mut target = back.mod_list[0].clone();
    target.modrinth_data = Some(ModrinthData {
        id: "R1".to_string(),
        latest_valid_version: Some("mod-2.0.jar".to_string()),
    });
    target.sourced_from = Source::Modrinth;
    target.state = FileState::Outdated;
    back.mod_list[0] = target.clone();

    // The downloaded bytes are written as mod-2.0.jar and re-parsed.
    let new_bytes = b"new-bytes".to_vec();
    let metas = vec![meta("alpha", "2.0.0", "Alpha")];
    let fresh = ModEntry::from_file_bytes(&new_bytes, &metas);
    let news = transplant_linkage(&fresh, &target);
    back.mod_list = splice_entries(&back.mod_list, &target, &news);

    // The full rescan of disk truth: only the new file remains.
    let files = vec![parsed_file("/mods/mod-2.0.jar", b"new-bytes", metas)];
    assert!(back.scan_folder(&files).is_none());
    let published = back.sort_and_publish();
    assert_eq!(published.len(), 1);
    let e = &published[0];
    assert_eq!(e.version, "2.0.0");
    assert_eq!(e.sourced_from, Source::Modrinth);
    assert_eq!(e.modrinth_data.as_ref().expect("linkage kept").id, "R1");
    // Not assumed Current: the next update check resolves the status.
    assert_eq!(e.state, FileState::Local);
}

// End-to-end add: no snapshot entry carries the synthesized entry's
// stand-in hash, so the fold appends the transplanted entries; the rescan
// then reconciles by id against them and the published snapshot keeps the
// linkage and provenance, with the status left for the next check.
#[test]
fn add_fold_survives_rescan_over_empty_snapshot() {
    let mut back = Back::new("/mods".to_string());
    let source = ModEntry {
        id: "alpha".to_string(),
        version: "2.0.0".to_string(),
        display_name: "Alpha".to_string(),
        modloader: ModLoader::Fabric,
        hashes: mcubed_back::hash::Hashes::dummy(),
        modrinth_data: Some(ModrinthData {
            id: "R1".to_string(),
            latest_valid_version: Some("mod-2.0.jar".to_string()),
        }),
        state: FileState::Outdated,
        sourced_from: Source::Modrinth,
    };
    let metas = vec![meta("alpha", "2.0.0", "Alpha")];
    let fresh = ModEntry::from_file_bytes(&b"new-bytes".to_vec(), &metas);
    let news = transplant_linkage(&fresh, &source);
    back.mod_list = splice_entries(&back.mod_list, &source, &news);
    assert_eq!(back.mod_list.len(), 1);

    let files = vec![parsed_file("/mods/mod-2.0.jar", b"new-bytes", metas)];
    assert!(back.scan_folder(&files).is_none());
    let published = back.sort_and_publish();
    assert_eq!(published.len(), 1);
    assert_eq!(published[0].modrinth_data.as_ref().expect("linkage kept").id, "R1");
    assert_eq!(published[0].sourced_from, Source::Modrinth);
    assert_eq!(published[0].state, FileState::Local);
}

#[test]
fn resolve_entry_touches_only_its_position() {
    let mut back = Back::new("/mods".to_string());
    back.mod_list.push(entry_from_bytes("alpha", "Alpha", b"a"));
    back.mod_list.push(entry_from_bytes("beta", "Beta", b"b"));
    back.resolve_entry(1, "R2".to_string(), &Some(Vec::new()));
    assert_eq!(back.mod_list[0].state, FileState::Local);
    assert!(back.mod_list[0].modrinth_data.is_none());
    assert_eq!(back.mod_list[1].state, FileState::Outdated);
    assert!(back.mod_list[1].modrinth_data.is_some());
}
