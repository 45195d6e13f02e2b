//! Package entries: one discovered unit of content, with its metadata,
//! fingerprint, learned remote linkage, freshness status and provenance.

use crate::hash::Hashes;
use vstd::prelude::*;
use vstd::string::*;

verus! {

/// The mod-loader ecosystem a package targets. Conversion to and from the
/// collaborators' own loader enumerations happens at the boundary, outside
/// this library.
#[derive(Clone, Copy, Debug, PartialEq, Eq, Structural)]
pub enum ModLoader {
    Forge,
    Fabric,
}

impl ModLoader {
    /// The loader's display name.
    pub fn name(&self) -> (r: String)
        ensures
            (match self {
                ModLoader::Forge => r@ == "Forge"@,
                ModLoader::Fabric => r@ == "Fabric"@,
            }),
    {
        match self {
            ModLoader::Forge => "Forge".to_owned(),
            ModLoader::Fabric => "Fabric".to_owned(),
        }
    }
}

/// An entry's freshness relative to the remote registry's known versions.
#[derive(Clone, Copy, Debug, PartialEq, Eq, Structural)]
pub enum FileState {
    /// The primary hash matches a file of the most recently fetched version
    /// record for the linked remote id.
    Current,
    /// A remote match exists but the current bytes differ from that record's
    /// files.
    Outdated,
    /// The entry is unusable.
    Invalid,
    /// No usable remote information is available.
    Local,
}

/// Where an entry's authoritative metadata currently comes from.
#[derive(Clone, Copy, Debug, PartialEq, Eq, Structural)]
pub enum Source {
    Local,
    ExplicitLocal,
    Modrinth,
    CurseForge,
}

impl Source {
    /// The source's display name.
    pub fn name(&self) -> (r: String)
        ensures
            (match self {
                Source::Local => r@ == "Local"@,
                Source::ExplicitLocal => r@ == "ExplicitLocal"@,
                Source::Modrinth => r@ == "Modrinth"@,
                Source::CurseForge => r@ == "CurseForge"@,
            }),
    {
        match self {
            Source::Local => "Local".to_owned(),
            Source::ExplicitLocal => "ExplicitLocal".to_owned(),
            Source::Modrinth => "Modrinth".to_owned(),
            Source::CurseForge => "CurseForge".to_owned(),
        }
    }
}

/// Learned remote linkage: the registry id an entry resolved to, and the
/// filename of the latest valid remote version, once known.
pub struct ModrinthData {
    pub id: String,
    pub latest_valid_version: Option<String>,
}

impl Clone for ModrinthData {
    fn clone(&self) -> (r: Self)
        ensures
            r == *self,
    {
        ModrinthData {
            id: self.id.clone(),
            latest_valid_version: match &self.latest_valid_version {
                Some(v) => Some(v.clone()),
                None => None,
            },
        }
    }
}

/// One package descriptor as extracted from a file's metadata by the external
/// parser: raw id, raw version string, display name and target loader.
pub struct ModMeta {
    pub id: String,
    pub version: String,
    pub display_name: String,
    pub modloader: ModLoader,
}

impl Clone for ModMeta {
    fn clone(&self) -> (r: Self)
        ensures
            r == *self,
    {
        ModMeta {
            id: self.id.clone(),
            version: self.version.clone(),
            display_name: self.display_name.clone(),
            modloader: self.modloader,
        }
    }
}

/// One discovered unit of content.
pub struct ModEntry {
    pub id: String,
    pub version: String,
    pub display_name: String,
    pub modloader: ModLoader,
    pub hashes: Hashes,
    pub modrinth_data: Option<ModrinthData>,
    pub state: FileState,
    pub sourced_from: Source,
}

impl Clone for ModEntry {
    fn clone(&self) -> (r: Self)
        ensures
            r == *self,
    {
        ModEntry {
            id: self.id.clone(),
            version: self.version.clone(),
            display_name: self.display_name.clone(),
            modloader: self.modloader,
            hashes: self.hashes.clone(),
            modrinth_data: match &self.modrinth_data {
                Some(d) => Some(d.clone()),
                None => None,
            },
            state: self.state,
            sourced_from: self.sourced_from,
        }
    }
}

/// A freshly scanned entry for a file with the given bytes: carries the
/// descriptor's metadata and the file's fingerprint, no remote linkage, and
/// the scanner's default state and provenance.
pub open spec fn scanned_entry(e: ModEntry, meta: ModMeta, bytes: Seq<u8>) -> bool {
    &&& fresh_entry(e, meta, e.hashes, None)
    &&& e.hashes.is_fingerprint_of(bytes)
}

/// A freshly scanned entry: carries the descriptor's metadata and the file's
/// fingerprint, with the given linkage, and the scanner's default state and
/// provenance.
pub open spec fn fresh_entry(
    e: ModEntry,
    meta: ModMeta,
    hashes: Hashes,
    modrinth_data: Option<ModrinthData>,
) -> bool {
    &&& e.id == meta.id
    &&& e.version == meta.version
    &&& e.display_name == meta.display_name
    &&& e.modloader == meta.modloader
    &&& e.hashes == hashes
    &&& e.modrinth_data == modrinth_data
    &&& e.state == FileState::Local
    &&& e.sourced_from == Source::Local
}

impl ModEntry {
    /// Builds one entry from a parsed descriptor and a fingerprint, with the
    /// scanner's defaults: local state and local provenance.
    pub fn new(mc_mod: ModMeta, hashes: &Hashes, modrinth_data: Option<ModrinthData>) -> (r: Self)
        ensures
            fresh_entry(r, mc_mod, *hashes, modrinth_data),
    {
        let ModMeta { id, version, display_name, modloader } = mc_mod;
        ModEntry {
            id,
            version,
            display_name,
            modloader,
            hashes: hashes.clone(),
            modrinth_data,
            state: FileState::Local,
            sourced_from: Source::Local,
        }
    }

    /// Builds the entries for one file: fingerprints the file's bytes once
    /// and pairs that fingerprint with every descriptor the metadata parser
    /// extracted from the file (a single archive may declare several).
    pub fn from_file_bytes(bytes: &Vec<u8>, metas: &Vec<ModMeta>) -> (r: Vec<ModEntry>)
        ensures
            r@.len() == metas@.len(),
            forall|i: int| 0 <= i < r@.len() ==> #[trigger] scanned_entry(r@[i], metas@[i], bytes@),
    {
        let hashes = crate::hash::get_hashes_from_vec(bytes);
        let mut out: Vec<ModEntry> = Vec::new();
        let mut i: usize = 0;
        while i < metas.len()
            invariant
                i <= metas.len(),
                out@.len() == i,
                hashes.is_fingerprint_of(bytes@),
                forall|k: int| 0 <= k < i ==> #[trigger] scanned_entry(out@[k], metas@[k], bytes@),
            decreases metas.len() - i,
        {
            let meta = metas[i].clone();
            let entry = ModEntry::new(meta, &hashes, None);
            assert(scanned_entry(entry, metas@[i as int], bytes@));
            out.push(entry);
            i = i + 1;
        }
        out
    }
}

/// Whether a character is a decimal digit.
pub open spec fn is_digit(c: char) -> bool {
    48 <= c as u32 <= 57
}

/// The end of the run of decimal digits that starts at `i`: the first
/// position at or after `i` that is past the end or holds a non-digit.
pub open spec fn run_end(s: Seq<char>, i: int) -> int
    decreases s.len() - i,
{
    if i < 0 || i >= s.len() || !is_digit(s[i]) {
        i
    } else {
        run_end(s, i + 1)
    }
}

/// Whether a version-core match (digits, dot, digits, dot, digits, each run
/// of digits maximal) begins at position `p`.
pub open spec fn match_at(s: Seq<char>, p: int) -> bool {
    let e1 = run_end(s, p);
    let e2 = run_end(s, e1 + 1);
    &&& 0 <= p < s.len()
    &&& is_digit(s[p])
    &&& e1 < s.len() && s[e1] == '.'
    &&& e1 + 1 < s.len() && is_digit(s[e1 + 1])
    &&& e2 < s.len() && s[e2] == '.'
    &&& e2 + 1 < s.len() && is_digit(s[e2 + 1])
}

/// The end of the version-core match that begins at `p`.
pub open spec fn match_end(s: Seq<char>, p: int) -> int {
    let e1 = run_end(s, p);
    let e2 = run_end(s, e1 + 1);
    run_end(s, e2 + 1)
}

/// The start of the leftmost version-core match at or after `i`, if any.
pub open spec fn first_match_start(s: Seq<char>, i: int) -> Option<int>
    decreases s.len() - i,
{
    if i >= s.len() {
        None
    } else if match_at(s, i) {
        Some(i)
    } else {
        first_match_start(s, i + 1)
    }
}

/// Whether the character at `j` is a decimal digit.
fn digit_at(s: &str, j: usize) -> (r: bool)
    requires
        j < s@.len(),
    ensures
        r == is_digit(s@[j as int]),
{
    let c = s.get_char(j);
    48 <= c as u32 && c as u32 <= 57
}

/// The end of the digit run starting at `i`.
fn run_end_exec(s: &str, i: usize) -> (r: usize)
    requires
        i <= s@.len(),
    ensures
        i <= r <= s@.len(),
        r as int == run_end(s@, i as int),
{
    let len = s.unicode_len();
    let mut j = i;
    while j < len && digit_at(s, j)
        invariant
            i <= j <= len,
            len == s@.len(),
            run_end(s@, i as int) == run_end(s@, j as int),
        decreases len - j,
    {
        j = j + 1;
    }
    assert(run_end(s@, j as int) == j as int);
    j
}

/// Whether a version-core match begins at `p`.
fn match_at_exec(s: &str, p: usize) -> (r: bool)
    requires
        p <= s@.len(),
    ensures
        r == match_at(s@, p as int),
{
    let len = s.unicode_len();
    if p >= len {
        return false;
    }
    if !digit_at(s, p) {
        return false;
    }
    let e1 = run_end_exec(s, p);
    if e1 >= len {
        return false;
    }
    if s.get_char(e1) != '.' {
        return false;
    }
    if e1 + 1 >= len {
        return false;
    }
    if !digit_at(s, e1 + 1) {
        return false;
    }
    let e2 = run_end_exec(s, e1 + 1);
    if e2 >= len {
        return false;
    }
    if s.get_char(e2) != '.' {
        return false;
    }
    if e2 + 1 >= len {
        return false;
    }
    if !digit_at(s, e2 + 1) {
        return false;
    }
    true
}

/// The end of the version-core match that begins at `p`.
fn match_end_exec(s: &str, p: usize) -> (r: usize)
    requires
        p < s@.len(),
        match_at(s@, p as int),
    ensures
        p <= r <= s@.len(),
        r as int == match_end(s@, p as int),
{
    let len = s.unicode_len();
    let e1 = run_end_exec(s, p);
    assert(e1 < len);
    let e2 = run_end_exec(s, e1 + 1);
    assert(e2 < len);
    run_end_exec(s, e2 + 1)
}

proof fn lemma_first_match_found(s: Seq<char>, i: int, p: int)
    requires
        0 <= i <= p,
        match_at(s, p),
        forall|q: int| i <= q < p ==> !match_at(s, q),
    ensures
        first_match_start(s, i) == Some(p),
    decreases p - i,
{
    if i < p {
        lemma_first_match_found(s, i + 1, p);
    }
}

proof fn lemma_first_match_none(s: Seq<char>, i: int)
    requires
        0 <= i <= s.len(),
        forall|q: int| i <= q < s.len() ==> !match_at(s, q),
    ensures
        first_match_start(s, i) == None::<int>,
    decreases s.len() - i,
{
    if i < s.len() {
        lemma_first_match_none(s, i + 1);
    }
}

impl ModEntry {
    /// The entry's version reduced to its version core: the leftmost
    /// occurrence of digits-dot-digits-dot-digits in the raw version string,
    /// each run of digits taken as long as possible. A raw version without
    /// such an occurrence is returned whole.
    pub fn normalized_version(&self) -> (r: String)
        ensures
            (match first_match_start(self.version@, 0) {
                Some(p) => r@ == self.version@.subrange(p, match_end(self.version@, p)),
                None => r@ == self.version@,
            }),
    {
        let v: &str = self.version.as_str();
        let len = v.unicode_len();
        let mut p: usize = 0;
        while p < len
            invariant
                p <= len,
                len == v@.len(),
                v@ == self.version@,
                forall|q: int| 0 <= q < p ==> !match_at(v@, q),
            decreases len - p,
        {
            if match_at_exec(v, p) {
                let e3 = match_end_exec(v, p);
                let m = v.substring_char(p, e3);
                proof {
                    lemma_first_match_found(v@, 0, p as int);
                }
                return m.to_owned();
            }
            p = p + 1;
        }
        proof {
            lemma_first_match_none(v@, 0);
        }
        self.version.clone()
    }
}

} // verus!
