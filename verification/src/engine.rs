//! The synchronization engine: fail-fast scan assembly, reconciliation of a
//! fresh snapshot against the previous one, and the engine state itself.

use crate::hash::sha1_hex;
use crate::mod_entry::{scanned_entry, FileState, ModEntry, ModMeta, Source};
use crate::snapshot::{sort_by_display_name, sorted_by_name};
use crate::update::{
    apply_fetch_failure, apply_version_fetch, fetch_failure_applied, version_fetch_applied,
    HashLookupCache, VersionRecord,
};
use vstd::prelude::*;
use vstd::string::*;

verus! {

/// The index of the first entry of `s`, at or after `i`, whose id reads `id`.
pub open spec fn find_by_id_from(s: Seq<ModEntry>, id: Seq<char>, i: int) -> Option<int>
    decreases s.len() - i,
{
    if i < 0 || i >= s.len() {
        None
    } else if s[i].id@ == id {
        Some(i)
    } else {
        find_by_id_from(s, id, i + 1)
    }
}

proof fn lemma_find_by_id_found(s: Seq<ModEntry>, id: Seq<char>, i: int, p: int)
    requires
        0 <= i <= p < s.len(),
        s[p].id@ == id,
        forall|q: int| i <= q < p ==> (#[trigger] s[q].id)@ != id,
    ensures
        find_by_id_from(s, id, i) == Some(p),
    decreases p - i,
{
    if i < p {
        lemma_find_by_id_found(s, id, i + 1, p);
    }
}

proof fn lemma_find_by_id_none(s: Seq<ModEntry>, id: Seq<char>, i: int)
    requires
        0 <= i <= s.len(),
        forall|q: int| i <= q < s.len() ==> (#[trigger] s[q].id)@ != id,
    ensures
        find_by_id_from(s, id, i) == None::<int>,
    decreases s.len() - i,
{
    if i < s.len() {
        lemma_find_by_id_none(s, id, i + 1);
    }
}

/// The first entry of `list` with the given id, as the merger finds it.
pub fn find_first_by_id(list: &Vec<ModEntry>, id: &String) -> (r: Option<usize>)
    ensures
        (match r {
            Some(j) => j < list@.len() && find_by_id_from(list@, id@, 0) == Some(j as int),
            None => find_by_id_from(list@, id@, 0) is None,
        }),
{
    let mut i: usize = 0;
    while i < list.len()
        invariant
            i <= list@.len(),
            forall|q: int| 0 <= q < i ==> (#[trigger] list@[q].id)@ != id@,
        decreases list@.len() - i,
    {
        if list[i].id == *id {
            proof {
                lemma_find_by_id_found(list@, id@, 0, i as int);
            }
            return Some(i);
        }
        i = i + 1;
    }
    proof {
        lemma_find_by_id_none(list@, id@, 0);
    }
    None
}

/// How one merged entry relates to the freshly scanned entry it came from and
/// to the previous snapshot: where some previous entry has the same id, the
/// first such entry donates its provenance and remote linkage unconditionally
/// and its status exactly when the primary hash is unchanged; otherwise the
/// fresh entry is kept as scanned.
pub open spec fn reconciled(out: ModEntry, fresh: ModEntry, old_list: Seq<ModEntry>) -> bool {
    match find_by_id_from(old_list, fresh.id@, 0) {
        None => out == fresh,
        Some(j) => {
            let o = old_list[j];
            &&& out.id == fresh.id
            &&& out.version == fresh.version
            &&& out.display_name == fresh.display_name
            &&& out.modloader == fresh.modloader
            &&& out.hashes == fresh.hashes
            &&& out.sourced_from == o.sourced_from
            &&& out.modrinth_data == o.modrinth_data
            &&& out.state == (if o.hashes.sha1@ == fresh.hashes.sha1@ {
                o.state
            } else {
                fresh.state
            })
        },
    }
}

proof fn lemma_find_by_id_exists(s: Seq<ModEntry>, id: Seq<char>, i: int)
    requires
        0 <= i <= s.len(),
        exists|j: int| i <= j < s.len() && (#[trigger] s[j].id)@ == id,
    ensures
        find_by_id_from(s, id, i) is Some,
        (match find_by_id_from(s, id, i) {
            Some(j) => i <= j < s.len() && s[j].id@ == id,
            None => false,
        }),
    decreases s.len() - i,
{
    if s[i].id@ != id {
        lemma_find_by_id_exists(s, id, i + 1);
    }
}

/// The reconciliation law: for every entry present by id in both the old and
/// the new snapshot, the merge preserves the old entry's provenance and
/// remote linkage; it preserves the old entry's status exactly when the
/// primary hash is unchanged, and otherwise resets the status to the fresh
/// entry's. The donating old entry is the first one with that id.
pub proof fn lemma_reconcile_preserves(
    merged: Seq<ModEntry>,
    fresh: Seq<ModEntry>,
    old_list: Seq<ModEntry>,
    i: int,
)
    requires
        merged.len() == fresh.len(),
        forall|k: int| 0 <= k < merged.len() ==> #[trigger] reconciled(merged[k], fresh[k], old_list),
        0 <= i < fresh.len(),
        exists|j: int| 0 <= j < old_list.len() && (#[trigger] old_list[j].id)@ == fresh[i].id@,
    ensures
        (match find_by_id_from(old_list, fresh[i].id@, 0) {
            Some(j) => {
                &&& merged[i].sourced_from == old_list[j].sourced_from
                &&& merged[i].modrinth_data == old_list[j].modrinth_data
                &&& (old_list[j].hashes.sha1@ == fresh[i].hashes.sha1@ ==> merged[i].state
                    == old_list[j].state)
                &&& (old_list[j].hashes.sha1@ != fresh[i].hashes.sha1@ ==> merged[i].state
                    == fresh[i].state)
            },
            None => false,
        }),
{
    lemma_find_by_id_exists(old_list, fresh[i].id@, 0);
    assert(reconciled(merged[i], fresh[i], old_list));
}

/// Merges a freshly scanned snapshot with the previous one, in place:
/// previously learned remote linkage and provenance survive the rescan, and
/// status survives it exactly where the file's primary hash is unchanged.
pub fn reconcile(list: &mut Vec<ModEntry>, old_list: &Vec<ModEntry>)
    ensures
        final(list)@.len() == old(list)@.len(),
        forall|i: int|
            0 <= i < final(list)@.len() ==> #[trigger] reconciled(
                final(list)@[i],
                old(list)@[i],
                old_list@,
            ),
{
    let mut i: usize = 0;
    while i < list.len()
        invariant
            i <= list@.len(),
            list@.len() == old(list)@.len(),
            forall|k: int|
                0 <= k < i ==> #[trigger] reconciled(list@[k], old(list)@[k], old_list@),
            forall|k: int| i <= k < list@.len() ==> list@[k] == old(list)@[k],
        decreases list@.len() - i,
    {
        match find_first_by_id(old_list, &list[i].id) {
            Some(j) => {
                let donor = &old_list[j];
                let same_hash = list[i].hashes.sha1 == donor.hashes.sha1;
                list[i].sourced_from = donor.sourced_from;
                list[i].modrinth_data = match &donor.modrinth_data {
                    Some(d) => Some(d.clone()),
                    None => None,
                };
                if same_hash {
                    list[i].state = donor.state;
                }
            },
            None => {},
        }
        i = i + 1;
    }
}

/// What the external metadata parser made of one file: its package
/// descriptors, or a parse failure.
pub enum ParseOutcome {
    Parsed(Vec<ModMeta>),
    Malformed,
}

/// One directory file handed to the scanner: its path, its exact bytes, and
/// the metadata parser's outcome for it.
pub struct ScannedFile {
    pub path: String,
    pub bytes: Vec<u8>,
    pub parse: ParseOutcome,
}

/// A parse failure that aborted a scan, with the path that failed.
pub struct ScanError {
    pub path: String,
}

impl ScanError {
    /// The context message published just before the structured error.
    pub fn context_message(&self) -> (r: String)
        ensures
            r@ == "Could not parse: "@ + self.path@,
    {
        let mut message = String::from_str("Could not parse: ");
        message.append(self.path.as_str());
        message
    }
}

/// The descriptors of one scanned file, each paired with the file's bytes.
pub open spec fn file_pairs(f: ScannedFile) -> Seq<(ModMeta, Seq<u8>)> {
    match f.parse {
        ParseOutcome::Parsed(ms) => ms@.map(|k: int, m: ModMeta| (m, f.bytes@)),
        ParseOutcome::Malformed => Seq::empty(),
    }
}

/// The descriptors of all scanned files from index `i` on, in file order,
/// each paired with its file's bytes.
pub open spec fn scan_pairs(files: Seq<ScannedFile>, i: int) -> Seq<(ModMeta, Seq<u8>)>
    decreases files.len() - i,
{
    if i < 0 || i >= files.len() {
        Seq::empty()
    } else {
        file_pairs(files[i]) + scan_pairs(files, i + 1)
    }
}

/// The index of the first file from `i` on that failed to parse, if any.
pub open spec fn first_malformed(files: Seq<ScannedFile>, i: int) -> Option<int>
    decreases files.len() - i,
{
    if i < 0 || i >= files.len() {
        None
    } else if files[i].parse is Malformed {
        Some(i)
    } else {
        first_malformed(files, i + 1)
    }
}

proof fn lemma_first_malformed_found(files: Seq<ScannedFile>, i: int, p: int)
    requires
        0 <= i <= p < files.len(),
        files[p].parse is Malformed,
        forall|q: int| i <= q < p ==> !((#[trigger] files[q].parse) is Malformed),
    ensures
        first_malformed(files, i) == Some(p),
    decreases p - i,
{
    if i < p {
        lemma_first_malformed_found(files, i + 1, p);
    }
}

proof fn lemma_first_malformed_none(files: Seq<ScannedFile>, i: int)
    requires
        0 <= i <= files.len(),
        forall|q: int| i <= q < files.len() ==> !((#[trigger] files[q].parse) is Malformed),
    ensures
        first_malformed(files, i) == None::<int>,
    decreases files.len() - i,
{
    if i < files.len() {
        lemma_first_malformed_none(files, i + 1);
    }
}

/// Assembles a scan: all-or-nothing. The first parse failure discards every
/// entry accumulated so far and aborts with that file's path; otherwise the
/// result holds one fresh entry per descriptor, in file order.
pub fn scan_outcome(files: &Vec<ScannedFile>) -> (r: Result<Vec<ModEntry>, ScanError>)
    ensures
        (match r {
            Ok(entries) => {
                &&& first_malformed(files@, 0) is None
                &&& entries@.len() == scan_pairs(files@, 0).len()
                &&& forall|k: int|
                    0 <= k < entries@.len() ==> #[trigger] scanned_entry(
                        entries@[k],
                        scan_pairs(files@, 0)[k].0,
                        scan_pairs(files@, 0)[k].1,
                    )
            },
            Err(e) => (match first_malformed(files@, 0) {
                Some(j) => e.path@ == files@[j].path@,
                None => false,
            }),
        }),
{
    let mut out: Vec<ModEntry> = Vec::new();
    let mut i: usize = 0;
    let ghost mut done: Seq<(ModMeta, Seq<u8>)> = Seq::empty();
    proof {
        assert(scan_pairs(files@, 0) =~= done + scan_pairs(files@, 0));
    }
    while i < files.len()
        invariant
            i <= files@.len(),
            forall|q: int| 0 <= q < i ==> !((#[trigger] files@[q].parse) is Malformed),
            out@.len() == done.len(),
            forall|k: int|
                0 <= k < done.len() ==> #[trigger] scanned_entry(out@[k], done[k].0, done[k].1),
            scan_pairs(files@, 0) == done + scan_pairs(files@, i as int),
        decreases files@.len() - i,
    {
        let f = &files[i];
        match &f.parse {
            ParseOutcome::Parsed(ms) => {
                let mut new_entries = ModEntry::from_file_bytes(&f.bytes, ms);
                proof {
                    assert(file_pairs(files@[i as int]) =~= ms@.map(
                        |k: int, m: ModMeta| (m, f.bytes@),
                    ));
                    assert(forall|k: int|
                        0 <= k < new_entries@.len() ==> #[trigger] scanned_entry(
                            new_entries@[k],
                            file_pairs(files@[i as int])[k].0,
                            file_pairs(files@[i as int])[k].1,
                        ));
                }
                out.append(&mut new_entries);
                proof {
                    let fp = file_pairs(files@[i as int]);
                    assert(scan_pairs(files@, i as int) == fp + scan_pairs(files@, i as int + 1));
                    assert(done + scan_pairs(files@, i as int) =~= (done + fp) + scan_pairs(
                        files@,
                        i as int + 1,
                    ));
                    done = done + fp;
                }
            },
            ParseOutcome::Malformed => {
                proof {
                    lemma_first_malformed_found(files@, 0, i as int);
                }
                return Err(ScanError { path: f.path.clone() });
            },
        }
        i = i + 1;
    }
    proof {
        lemma_first_malformed_none(files@, 0);
        assert(scan_pairs(files@, i as int) =~= Seq::<(ModMeta, Seq<u8>)>::empty());
        assert(done + scan_pairs(files@, i as int) =~= done);
    }
    Ok(out)
}

/// How one entry of a merged scan relates to its descriptor, its file's
/// bytes, and the previous snapshot: a fresh entry reconciled against the
/// previous snapshot by id.
pub open spec fn scan_merged(
    out: ModEntry,
    pair: (ModMeta, Seq<u8>),
    old_list: Seq<ModEntry>,
) -> bool {
    &&& out.id == pair.0.id
    &&& out.version == pair.0.version
    &&& out.display_name == pair.0.display_name
    &&& out.modloader == pair.0.modloader
    &&& out.hashes.is_fingerprint_of(pair.1)
    &&& (match find_by_id_from(old_list, pair.0.id@, 0) {
        None => {
            &&& out.modrinth_data is None
            &&& out.state == FileState::Local
            &&& out.sourced_from == Source::Local
        },
        Some(j) => {
            let o = old_list[j];
            &&& out.sourced_from == o.sourced_from
            &&& out.modrinth_data == o.modrinth_data
            &&& out.state == (if o.hashes.sha1@ == sha1_hex(pair.1) {
                o.state
            } else {
                FileState::Local
            })
        },
    })
}

/// The engine state: the single-writer snapshot, the folder it mirrors, and
/// the hash-lookup cache. Observers only ever receive published copies.
pub struct Back {
    pub mod_list: Vec<ModEntry>,
    pub folder_path: String,
    pub cache: HashLookupCache,
}

impl Back {
    /// A fresh engine over the given folder, with an empty snapshot and an
    /// empty cache. The folder path is an explicit configuration value,
    /// resolved by the caller at startup.
    pub fn new(folder_path: String) -> (r: Back)
        ensures
            r.mod_list@.len() == 0,
            r.folder_path == folder_path,
            r.cache@ == Map::<Seq<char>, Seq<char>>::empty(),
            r.cache.wf(),
    {
        Back { mod_list: Vec::new(), folder_path, cache: HashLookupCache::new() }
    }

    /// Rebuilds the snapshot from a fresh scan, reconciled against the
    /// previous snapshot. All-or-nothing: on the first parse failure the
    /// snapshot is left empty and the failing path is returned.
    pub fn scan_folder(&mut self, files: &Vec<ScannedFile>) -> (r: Option<ScanError>)
        ensures
            final(self).folder_path == old(self).folder_path,
            final(self).cache == old(self).cache,
            (match r {
                None => {
                    &&& first_malformed(files@, 0) is None
                    &&& final(self).mod_list@.len() == scan_pairs(files@, 0).len()
                    &&& forall|k: int|
                        0 <= k < final(self).mod_list@.len() ==> #[trigger] scan_merged(
                            final(self).mod_list@[k],
                            scan_pairs(files@, 0)[k],
                            old(self).mod_list@,
                        )
                },
                Some(e) => {
                    &&& final(self).mod_list@.len() == 0
                    &&& (match first_malformed(files@, 0) {
                        Some(j) => e.path@ == files@[j].path@,
                        None => false,
                    })
                },
            }),
    {
        match scan_outcome(files) {
            Ok(mut entries) => {
                let ghost fresh = entries@;
                reconcile(&mut entries, &self.mod_list);
                proof {
                    let pairs = scan_pairs(files@, 0);
                    assert forall|k: int| 0 <= k < entries@.len() implies #[trigger] scan_merged(
                        entries@[k],
                        pairs[k],
                        old(self).mod_list@,
                    ) by {
                        assert(scanned_entry(fresh[k], pairs[k].0, pairs[k].1));
                        assert(reconciled(entries@[k], fresh[k], old(self).mod_list@));
                        assert(fresh[k].id@ == pairs[k].0.id@);
                    }
                }
                self.mod_list = entries;
                None
            },
            Err(e) => {
                self.mod_list = Vec::new();
                Some(e)
            },
        }
    }

    /// Sorts the snapshot by display name and returns the copy to publish:
    /// the same entries, in published order.
    pub fn sort_and_publish(&mut self) -> (r: Vec<ModEntry>)
        ensures
            final(self).folder_path == old(self).folder_path,
            final(self).cache == old(self).cache,
            sorted_by_name(final(self).mod_list@),
            final(self).mod_list@.to_multiset() == old(self).mod_list@.to_multiset(),
            r@ == final(self).mod_list@,
    {
        sort_by_display_name(&mut self.mod_list);
        clone_entries(&self.mod_list)
    }

    /// Applies one entry's version-history fetch outcome to the snapshot:
    /// success resolves the entry against the history's first record, failure
    /// degrades its status to Local. No other entry is touched.
    pub fn resolve_entry(
        &mut self,
        position: usize,
        remote_id: String,
        fetch: &Option<Vec<VersionRecord>>,
    )
        requires
            position < old(self).mod_list@.len(),
        ensures
            final(self).folder_path == old(self).folder_path,
            final(self).cache == old(self).cache,
            final(self).mod_list@.len() == old(self).mod_list@.len(),
            forall|k: int|
                0 <= k < final(self).mod_list@.len() && k != position ==> final(self).mod_list@[k]
                    == old(self).mod_list@[k],
            (match fetch {
                Some(versions) => version_fetch_applied(
                    final(self).mod_list@[position as int],
                    old(self).mod_list@[position as int],
                    remote_id,
                    versions@,
                ),
                None => fetch_failure_applied(
                    final(self).mod_list@[position as int],
                    old(self).mod_list@[position as int],
                ),
            }),
    {
        match fetch {
            Some(versions) => {
                apply_version_fetch(&mut self.mod_list[position], remote_id, versions);
            },
            None => {
                apply_fetch_failure(&mut self.mod_list[position]);
            },
        }
    }
}

/// An identical copy of a snapshot, for publication to an observer.
pub fn clone_entries(list: &Vec<ModEntry>) -> (r: Vec<ModEntry>)
    ensures
        r@ == list@,
{
    let mut out: Vec<ModEntry> = Vec::new();
    let mut i: usize = 0;
    while i < list.len()
        invariant
            i <= list@.len(),
            out@.len() == i,
            forall|k: int| 0 <= k < i ==> out@[k] == list@[k],
        decreases list@.len() - i,
    {
        out.push(list[i].clone());
        i = i + 1;
    }
    assert(out@ =~= list@);
    out
}

} // verus!
