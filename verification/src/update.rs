//! Update resolution: the hash-lookup cache, the derivation of an entry's
//! status from a fetched version history, and progress events.

use crate::mod_entry::{FileState, ModEntry, ModrinthData, Source};
use vstd::prelude::*;

verus! {

/// The contents of an association list as a map from key view to value view:
/// later bindings shadow earlier ones.
pub open spec fn assoc_map(s: Seq<(String, String)>) -> Map<Seq<char>, Seq<char>>
    decreases s.len(),
{
    if s.len() == 0 {
        Map::empty()
    } else {
        assoc_map(s.drop_last()).insert(s.last().0@, s.last().1@)
    }
}

/// The process-lifetime mapping from a primary hash to the remote id it first
/// resolved to. Entries are never evicted or overwritten: a hash is
/// permanently bound to its first resolution.
pub struct HashLookupCache {
    entries: Vec<(String, String)>,
}

impl View for HashLookupCache {
    type V = Map<Seq<char>, Seq<char>>;

    closed spec fn view(&self) -> Map<Seq<char>, Seq<char>> {
        assoc_map(self.entries@)
    }
}

proof fn lemma_assoc_map_found(s: Seq<(String, String)>, i: int)
    requires
        0 <= i < s.len(),
        forall|k: int, l: int| 0 <= k < l < s.len() ==> s[k].0@ != s[l].0@,
    ensures
        assoc_map(s).contains_key(s[i].0@),
        assoc_map(s)[s[i].0@] == s[i].1@,
    decreases s.len(),
{
    if i < s.len() - 1 {
        assert(s.drop_last()[i] == s[i]);
        lemma_assoc_map_found(s.drop_last(), i);
        assert(s[i].0@ != s[s.len() - 1].0@);
    }
}

proof fn lemma_assoc_map_absent(s: Seq<(String, String)>, key: Seq<char>)
    requires
        forall|k: int| 0 <= k < s.len() ==> (#[trigger] s[k].0)@ != key,
    ensures
        !assoc_map(s).contains_key(key),
    decreases s.len(),
{
    if s.len() > 0 {
        assert(forall|k: int|
            0 <= k < s.drop_last().len() ==> (#[trigger] s.drop_last()[k].0)@ != key);
        lemma_assoc_map_absent(s.drop_last(), key);
    }
}

impl HashLookupCache {
    /// The keys of the underlying list are distinct, so the first binding
    /// found for a key is the binding of the map.
    pub closed spec fn wf(self) -> bool {
        forall|k: int, l: int|
            0 <= k < l < self.entries@.len() ==> self.entries@[k].0@ != self.entries@[l].0@
    }

    /// An empty cache.
    pub fn new() -> (r: HashLookupCache)
        ensures
            r@ == Map::<Seq<char>, Seq<char>>::empty(),
            r.wf(),
    {
        HashLookupCache { entries: Vec::new() }
    }

    /// The remote id the given primary hash resolved to, if it ever did.
    pub fn lookup(&self, hash: &String) -> (r: Option<String>)
        requires
            self.wf(),
        ensures
            (match r {
                Some(id) => self@.contains_key(hash@) && id@ == self@[hash@],
                None => !self@.contains_key(hash@),
            }),
    {
        let mut i: usize = 0;
        while i < self.entries.len()
            invariant
                i <= self.entries@.len(),
                self.wf(),
                forall|k: int| 0 <= k < i ==> (#[trigger] self.entries@[k].0)@ != hash@,
            decreases self.entries@.len() - i,
        {
            if self.entries[i].0 == *hash {
                proof {
                    lemma_assoc_map_found(self.entries@, i as int);
                }
                return Some(self.entries[i].1.clone());
            }
            i = i + 1;
        }
        proof {
            lemma_assoc_map_absent(self.entries@, hash@);
        }
        None
    }

    /// Records that a primary hash resolved to a remote id. A hash already
    /// bound keeps its first binding.
    pub fn record(&mut self, hash: String, id: String)
        requires
            old(self).wf(),
        ensures
            final(self).wf(),
            final(self)@ == (if old(self)@.contains_key(hash@) {
                old(self)@
            } else {
                old(self)@.insert(hash@, id@)
            }),
    {
        match self.lookup(&hash) {
            Some(_) => {},
            None => {
                let ghost s0 = self.entries@;
                proof {
                    assert forall|k: int| 0 <= k < s0.len() implies (#[trigger] s0[k].0)@ != hash@ by {
                        if s0[k].0@ == hash@ {
                            lemma_assoc_map_found(s0, k);
                        }
                    }
                }
                self.entries.push((hash, id));
                proof {
                    assert(self.entries@.drop_last() =~= s0);
                }
            },
        }
    }
}

/// Once a primary hash is recorded as resolving to a remote id, the cache
/// answers every later lookup of that hash with that id, so no further
/// registry hash lookup is needed for it.
pub proof fn lemma_cache_effect(m: Map<Seq<char>, Seq<char>>, hash: Seq<char>, id: Seq<char>)
    ensures
        m.insert(hash, id).contains_key(hash),
        m.insert(hash, id)[hash] == id,
{
}

/// One file of a remote version record: its primary hash and its filename.
pub struct VersionFile {
    pub hash: String,
    pub filename: String,
}

/// One remote version record: its ordered list of files.
pub struct VersionRecord {
    pub files: Vec<VersionFile>,
}

/// Whether a version record lists a file with the given primary hash.
pub open spec fn record_has_hash(rec: VersionRecord, hash: Seq<char>) -> bool {
    exists|i: int| 0 <= i < rec.files@.len() && (#[trigger] rec.files@[i].hash)@ == hash
}

/// The entry's own metadata and fingerprint are untouched.
pub open spec fn metadata_kept(out: ModEntry, before: ModEntry) -> bool {
    &&& out.id == before.id
    &&& out.version == before.version
    &&& out.display_name == before.display_name
    &&& out.modloader == before.modloader
    &&& out.hashes == before.hashes
}

/// How an entry looks after a successfully fetched version history was
/// applied to it: provenance becomes the registry; the linkage holds the
/// given remote id and, as the latest valid version, the filename of the
/// first file of the first (most recent) record; the status is Current
/// exactly when the first record lists a file whose hash equals the entry's
/// primary hash, else Outdated. Only the first record is inspected.
pub open spec fn version_fetch_applied(
    out: ModEntry,
    before: ModEntry,
    remote_id: String,
    versions: Seq<VersionRecord>,
) -> bool {
    &&& metadata_kept(out, before)
    &&& out.sourced_from == Source::Modrinth
    &&& (match out.modrinth_data {
        Some(d) => {
            &&& d.id == remote_id
            &&& (match d.latest_valid_version {
                Some(f) => versions.len() > 0 && versions[0].files@.len() > 0 && f@
                    == versions[0].files@[0].filename@,
                None => versions.len() == 0 || versions[0].files@.len() == 0,
            })
        },
        None => false,
    })
    &&& out.state == (if versions.len() > 0 && record_has_hash(versions[0], before.hashes.sha1@) {
        FileState::Current
    } else {
        FileState::Outdated
    })
}

/// How an entry looks after a failed version-history fetch: the status
/// degrades to Local and everything else, provenance included, is untouched.
pub open spec fn fetch_failure_applied(out: ModEntry, before: ModEntry) -> bool {
    &&& metadata_kept(out, before)
    &&& out.modrinth_data == before.modrinth_data
    &&& out.sourced_from == before.sourced_from
    &&& out.state == FileState::Local
}

/// Applies a successfully fetched version history to an entry, as resolved
/// for the given remote id.
pub fn apply_version_fetch(entry: &mut ModEntry, remote_id: String, versions: &Vec<VersionRecord>)
    ensures
        version_fetch_applied(*final(entry), *old(entry), remote_id, versions@),
{
    let latest_valid_version: Option<String> = if versions.len() > 0 && versions[0].files.len()
        > 0 {
        Some(versions[0].files[0].filename.clone())
    } else {
        None
    };
    entry.modrinth_data = Some(ModrinthData { id: remote_id, latest_valid_version });
    entry.sourced_from = Source::Modrinth;
    entry.state = FileState::Outdated;
    if versions.len() > 0 {
        let files = &versions[0].files;
        let mut i: usize = 0;
        while i < files.len()
            invariant
                i <= files@.len(),
                forall|k: int| 0 <= k < i ==> (#[trigger] files@[k].hash)@ != entry.hashes.sha1@,
            ensures
                i <= files@.len(),
                forall|k: int| 0 <= k < i ==> (#[trigger] files@[k].hash)@ != entry.hashes.sha1@,
                i < files@.len() ==> files@[i as int].hash@ == entry.hashes.sha1@,
            decreases files@.len() - i,
        {
            if files[i].hash == entry.hashes.sha1 {
                break ;
            }
            i = i + 1;
        }
        if i < files.len() {
            // First match wins; no later file needs to be inspected.
            entry.state = FileState::Current;
        }
    }
}

/// Applies a failed version-history fetch to an entry.
pub fn apply_fetch_failure(entry: &mut ModEntry)
    ensures
        fetch_failure_applied(*final(entry), *old(entry)),
{
    entry.state = FileState::Local;
}

/// One progress event of a multi-entry update check.
pub struct CheckProgress {
    pub name: String,
    pub position: usize,
    pub total_len: usize,
}

/// The progress event to emit before the entry at `position` is worked on:
/// its display name, its position in iteration order, and the total count.
pub fn progress_event(list: &Vec<ModEntry>, position: usize) -> (r: CheckProgress)
    requires
        position < list@.len(),
    ensures
        r.name@ == list@[position as int].display_name@,
        r.position == position,
        r.total_len == list@.len(),
{
    CheckProgress {
        name: list[position].display_name.clone(),
        position,
        total_len: list.len(),
    }
}

} // verus!
