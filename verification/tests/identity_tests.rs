use mcubed_back::engine::clone_entries;
use mcubed_back::hash::{get_hashes_from_vec, Hashes};
use mcubed_back::install::{find_matching_file, splice_entries, transplant_linkage, DiskFile};
use mcubed_back::minecraft_path::{default_mod_dir, Platform};
use mcubed_back::mod_entry::{FileState, ModEntry, ModLoader, ModMeta, ModrinthData, Source};
use mcubed_back::update::{progress_event, HashLookupCache};

fn entry(id: &str, name: &str, bytes: &[u8]) -> ModEntry {
    ModEntry {
        id: id.to_string(),
        version: "1.0.0".to_string(),
        display_name: name.to_string(),
        modloader: ModLoader::Forge,
        hashes: get_hashes_from_vec(&bytes.to_vec()),
        modrinth_data: None,
        state: FileState::Local,
        sourced_from: Source::Local,
    }
}

// The FIPS-180 example digests of the three bytes "abc".
#[test]
fn fingerprint_matches_known_digests() {
    let h = get_hashes_from_vec(&b"abc".to_vec());
    assert_eq!(h.sha1, "a9993e364706816aba3e25717850c26c9cd0d89d");
    assert_eq!(
        h.sha512,
        "ddaf35a193617abacc417349ae20413112e6fa4e89a97ea20a9eeee64b55d39a\
         2192992a274fc1a836ba3c23a3feebbd454d4423643ce80e2a9ac94fa54ca49f"
    );
}

#[test]
fn fingerprint_of_empty_input() {
    let h = get_hashes_from_vec(&Vec::new());
    assert_eq!(h.sha1.len(), 40);
    assert_eq!(h.sha512.len(), 128);
    assert_eq!(h.sha1, "da39a3ee5e6b4b0d3255bfef95601890afd80709");
}

#[test]
fn fingerprint_is_deterministic_and_content_sensitive() {
    let a = get_hashes_from_vec(&b"payload".to_vec());
    let b = get_hashes_from_vec(&b"payload".to_vec());
    let c = get_hashes_from_vec(&b"payloae".to_vec());
    assert_eq!(a.sha1, b.sha1);
    assert_eq!(a.sha512, b.sha512);
    assert_ne!(a.sha1, c.sha1);
}

#[test]
fn dummy_fingerprints_one_zero_byte() {
    let d = Hashes::dummy();
    let z = Hashes::get_hashes_from_bytes(&vec![0u8]);
    assert_eq!(d.sha1, z.sha1);
    assert_eq!(d.sha512, z.sha512);
}

#[test]
fn normalized_version_extracts_leftmost_core() {
    let mut e = entry("a", "A", b"a");
    e.version = "fabric-1.2.3+build.4".to_string();
    assert_eq!(e.normalized_version(), "1.2.3");
    e.version = "1.22.333.4444".to_string();
    assert_eq!(e.normalized_version(), "1.22.333");
    e.version = "v2.0 and 3.4.5".to_string();
    assert_eq!(e.normalized_version(), "3.4.5");
}

#[test]
fn normalized_version_returns_raw_when_no_core() {
    let mut e = entry("a", "A", b"a");
    e.version = "nightly-build".to_string();
    assert_eq!(e.normalized_version(), "nightly-build");
    e.version = "1.2".to_string();
    assert_eq!(e.normalized_version(), "1.2");
    e.version = String::new();
    assert_eq!(e.normalized_version(), "");
}

// Once a hash is recorded, a later lookup answers from the cache, and the
// first binding is permanent.
#[test]
fn cache_binds_a_hash_permanently() {
    let mut cache = HashLookupCache::new();
    assert!(cache.lookup(&"h1".to_string()).is_none());
    cache.record("h1".to_string(), "R1".to_string());
    assert_eq!(cache.lookup(&"h1".to_string()), Some("R1".to_string()));
    cache.record("h1".to_string(), "R2".to_string());
    assert_eq!(cache.lookup(&"h1".to_string()), Some("R1".to_string()));
    assert!(cache.lookup(&"h2".to_string()).is_none());
}

#[test]
fn progress_events_follow_iteration_order() {
    let list = vec![entry("a", "Apple", b"a"), entry("b", "Banana", b"b")];
    let p0 = progress_event(&list, 0);
    let p1 = progress_event(&list, 1);
    assert_eq!(p0.name, "Apple");
    assert_eq!(p0.position, 0);
    assert_eq!(p0.total_len, 2);
    assert_eq!(p1.name, "Banana");
    assert_eq!(p1.position, 1);
    assert_eq!(p1.total_len, 2);
}

#[test]
fn find_matching_file_rehashes_in_order() {
    let files = vec![
        DiskFile { path: "/mods/a.jar".to_string(), bytes: b"aaa".to_vec() },
        DiskFile { path: "/mods/b.jar".to_string(), bytes: b"bbb".to_vec() },
    ];
    let target = get_hashes_from_vec(&b"bbb".to_vec()).sha1;
    assert_eq!(find_matching_file(&files, &target), Some(1));
    let missing = get_hashes_from_vec(&b"ccc".to_vec()).sha1;
    assert_eq!(find_matching_file(&files, &missing), None);
}

// Installation fold: the new file's entries carry the originating entry's
// linkage and provenance, and replace the snapshot entry that still holds the
// replaced file's hash and shares an id; status is left for the next check.
#[test]
fn install_fold_transplants_and_splices() {
    let mut replaced = entry("alpha", "Alpha", b"old-bytes");
    replaced.modrinth_data = Some(ModrinthData {
        id: "R1".to_string(),
        latest_valid_version: Some("mod-2.0.jar".to_string()),
    });
    replaced.sourced_from = Source::Modrinth;
    replaced.state = FileState::Outdated;

    let metas = vec![ModMeta {
        id: "alpha".to_string(),
        version: "2.0.0".to_string(),
        display_name: "Alpha".to_string(),
        modloader: ModLoader::Forge,
    }];
    let fresh = ModEntry::from_file_bytes(&b"new-bytes".to_vec(), &metas);
    let news = transplant_linkage(&fresh, &replaced);
    assert_eq!(news.len(), 1);
    assert_eq!(news[0].modrinth_data.as_ref().unwrap().id, "R1");
    assert_eq!(news[0].sourced_from, Source::Modrinth);
    assert_eq!(news[0].state, FileState::Local);
    assert_eq!(news[0].version, "2.0.0");

    let list = vec![entry("other", "Other", b"zzz"), entry("alpha", "Alpha", b"old-bytes")];
    let spliced = splice_entries(&list, &replaced, &news);
    assert_eq!(spliced.len(), 2);
    assert_eq!(spliced[0].id, "other");
    assert!(spliced[0].modrinth_data.is_none());
    assert_eq!(spliced[1].version, "2.0.0");
    assert_eq!(spliced[1].modrinth_data.as_ref().unwrap().id, "R1");
    assert_eq!(
        spliced[1].hashes.sha1,
        get_hashes_from_vec(&b"new-bytes".to_vec()).sha1
    );
    assert_eq!(spliced[1].state, FileState::Local);
}

#[test]
fn splice_leaves_unmatched_entries_alone() {
    let replaced = entry("alpha", "Alpha", b"old-bytes");
    let news = vec![entry("alpha", "Alpha", b"new-bytes")];
    // Same id but a different hash than the replaced file: untouched in
    // place; the new entry is appended instead, so it is not lost.
    let list = vec![entry("alpha", "Alpha", b"some-other-bytes")];
    let spliced = splice_entries(&list, &replaced, &news);
    assert_eq!(spliced.len(), 2);
    assert_eq!(
        spliced[0].hashes.sha1,
        get_hashes_from_vec(&b"some-other-bytes".to_vec()).sha1
    );
    assert_eq!(
        spliced[1].hashes.sha1,
        get_hashes_from_vec(&b"new-bytes".to_vec()).sha1
    );
}

#[test]
fn splice_appends_news_when_nothing_matches() {
    // The add path: the synthesized source entry carries the stand-in
    // fingerprint, which no snapshot entry has, so nothing is replaced in
    // place and every new entry is appended.
    let mut source = entry("alpha", "Alpha", b"irrelevant");
    source.hashes = Hashes::dummy();
    let news = vec![entry("alpha", "Alpha", b"new-bytes")];
    let list = vec![entry("other", "Other", b"zzz")];
    let spliced = splice_entries(&list, &source, &news);
    assert_eq!(spliced.len(), 2);
    assert_eq!(spliced[0].id, "other");
    assert_eq!(spliced[1].id, "alpha");
    let empty: Vec<ModEntry> = Vec::new();
    let spliced = splice_entries(&empty, &source, &news);
    assert_eq!(spliced.len(), 1);
    assert_eq!(spliced[0].id, "alpha");
}

#[test]
fn published_copies_are_identical() {
    let list = vec![entry("a", "Apple", b"a"), entry("b", "Banana", b"b")];
    let copy = clone_entries(&list);
    assert_eq!(copy.len(), 2);
    assert_eq!(copy[0].id, list[0].id);
    assert_eq!(copy[1].hashes.sha512, list[1].hashes.sha512);
}

#[test]
fn default_mod_dir_follows_platform_convention() {
    assert_eq!(
        default_mod_dir("/home/user", Platform::Linux),
        "/home/user/.minecraft/mods"
    );
    assert_eq!(
        default_mod_dir("C:\\Users\\user", Platform::Windows),
        "C:\\Users\\user\\AppData\\Roaming\\.minecraft\\mods"
    );
    assert_eq!(
        default_mod_dir("/Users/user", Platform::MacOs),
        "/Users/user/Library/ApplicationSupport/minecraft/mods"
    );
}

#[test]
fn loader_and_source_names() {
    assert_eq!(ModLoader::Forge.name(), "Forge");
    assert_eq!(ModLoader::Fabric.name(), "Fabric");
    assert_eq!(Source::Modrinth.name(), "Modrinth");
    assert_eq!(Source::CurseForge.name(), "CurseForge");
}
