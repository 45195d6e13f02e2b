//! Installation transaction helpers: locating the on-disk file an entry
//! belongs to, and folding a freshly written file back into the snapshot.

use crate::engine::find_by_id_from;
use crate::hash::{get_hashes_from_vec, sha1_hex};
use crate::mod_entry::ModEntry;
use vstd::prelude::*;

verus! {

/// One directory file as read from disk: its path and its exact bytes.
pub struct DiskFile {
    pub path: String,
    pub bytes: Vec<u8>,
}

/// Locates the file an entry belongs to: re-fingerprints each file in
/// directory order until one's primary hash equals the entry's, and returns
/// the index of the first such file.
pub fn find_matching_file(files: &Vec<DiskFile>, sha1: &String) -> (r: Option<usize>)
    ensures
        (match r {
            Some(i) => {
                &&& i < files@.len()
                &&& sha1_hex(files@[i as int].bytes@) == sha1@
                &&& forall|k: int| 0 <= k < i ==> sha1_hex(#[trigger] files@[k].bytes@) != sha1@
            },
            None => forall|k: int|
                0 <= k < files@.len() ==> sha1_hex(#[trigger] files@[k].bytes@) != sha1@,
        }),
{
    let mut i: usize = 0;
    while i < files.len()
        invariant
            i <= files@.len(),
            forall|k: int| 0 <= k < i ==> sha1_hex(#[trigger] files@[k].bytes@) != sha1@,
        decreases files@.len() - i,
    {
        let hashes = get_hashes_from_vec(&files[i].bytes);
        if hashes.sha1 == *sha1 {
            return Some(i);
        }
        i = i + 1;
    }
    None
}

/// A re-parsed entry of the newly written file, carrying the originating
/// entry's learned linkage and provenance, and its own everything else.
pub open spec fn transplanted(out: ModEntry, fresh: ModEntry, source: ModEntry) -> bool {
    &&& out.id == fresh.id
    &&& out.version == fresh.version
    &&& out.display_name == fresh.display_name
    &&& out.modloader == fresh.modloader
    &&& out.hashes == fresh.hashes
    &&& out.state == fresh.state
    &&& out.modrinth_data == source.modrinth_data
    &&& out.sourced_from == source.sourced_from
}

/// Transplants the originating entry's remote linkage and provenance onto
/// every entry re-parsed from the newly written file.
pub fn transplant_linkage(fresh: &Vec<ModEntry>, source: &ModEntry) -> (r: Vec<ModEntry>)
    ensures
        r@.len() == fresh@.len(),
        forall|i: int| 0 <= i < r@.len() ==> #[trigger] transplanted(r@[i], fresh@[i], *source),
{
    let mut out: Vec<ModEntry> = Vec::new();
    let mut i: usize = 0;
    while i < fresh.len()
        invariant
            i <= fresh@.len(),
            out@.len() == i,
            forall|k: int| 0 <= k < i ==> #[trigger] transplanted(out@[k], fresh@[k], *source),
        decreases fresh@.len() - i,
    {
        let mut e = fresh[i].clone();
        e.modrinth_data = match &source.modrinth_data {
            Some(d) => Some(d.clone()),
            None => None,
        };
        e.sourced_from = source.sourced_from;
        out.push(e);
        i = i + 1;
    }
    out
}

/// How one spliced snapshot entry relates to what stood there: an entry whose
/// primary hash equals the replaced file's, and whose id some new entry
/// shares, is replaced in place by the first such new entry; every other
/// entry stands unchanged.
pub open spec fn spliced(
    out: ModEntry,
    cur: ModEntry,
    replaced: ModEntry,
    news: Seq<ModEntry>,
) -> bool {
    if cur.hashes.sha1@ == replaced.hashes.sha1@ {
        match find_by_id_from(news, cur.id@, 0) {
            Some(j) => out == news[j],
            None => out == cur,
        }
    } else {
        out == cur
    }
}

/// Whether the new entry at index `k` replaces, in place, one of the first
/// `n` snapshot entries: one of them carries the replaced file's primary hash
/// and the first new entry sharing its id is `news[k]`.
pub open spec fn placed_within(
    news: Seq<ModEntry>,
    list: Seq<ModEntry>,
    replaced: ModEntry,
    k: int,
    n: int,
) -> bool {
    exists|i: int|
        0 <= i < n && (#[trigger] list[i]).hashes.sha1@ == replaced.hashes.sha1@
            && find_by_id_from(news, list[i].id@, 0) == Some(k)
}

/// Whether the new entry at index `k` replaces some snapshot entry in place.
pub open spec fn placed(news: Seq<ModEntry>, list: Seq<ModEntry>, replaced: ModEntry, k: int) -> bool {
    placed_within(news, list, replaced, k, list.len() as int)
}

/// The new entries from index `k` on that replace nothing in place, in order.
pub open spec fn leftover_news(
    news: Seq<ModEntry>,
    list: Seq<ModEntry>,
    replaced: ModEntry,
    k: int,
) -> Seq<ModEntry>
    decreases news.len() - k,
{
    if k < 0 || k >= news.len() {
        Seq::empty()
    } else if placed(news, list, replaced, k) {
        leftover_news(news, list, replaced, k + 1)
    } else {
        seq![news[k]] + leftover_news(news, list, replaced, k + 1)
    }
}

proof fn lemma_leftover_contains(
    news: Seq<ModEntry>,
    list: Seq<ModEntry>,
    replaced: ModEntry,
    j: int,
    k: int,
)
    requires
        0 <= j <= k < news.len(),
        !placed(news, list, replaced, k),
    ensures
        leftover_news(news, list, replaced, j).contains(news[k]),
    decreases k - j,
{
    if j == k {
        assert(leftover_news(news, list, replaced, j)[0] == news[k]);
    } else {
        lemma_leftover_contains(news, list, replaced, j + 1, k);
        let rest = leftover_news(news, list, replaced, j + 1);
        let idx = choose|i: int| 0 <= i < rest.len() && rest[i] == news[k];
        if !placed(news, list, replaced, j) {
            assert(leftover_news(news, list, replaced, j)[1 + idx] == news[k]);
        }
    }
}

proof fn lemma_leftover_all(news: Seq<ModEntry>, list: Seq<ModEntry>, replaced: ModEntry, k: int)
    requires
        0 <= k <= news.len(),
        forall|i: int|
            0 <= i < list.len() ==> (#[trigger] list[i]).hashes.sha1@ != replaced.hashes.sha1@,
    ensures
        leftover_news(news, list, replaced, k) == news.skip(k),
    decreases news.len() - k,
{
    if k == news.len() {
        assert(leftover_news(news, list, replaced, k) =~= news.skip(k));
    } else {
        assert(!placed(news, list, replaced, k)) by {
            if placed(news, list, replaced, k) {
                let i = choose|i: int|
                    0 <= i < list.len() && list[i].hashes.sha1@ == replaced.hashes.sha1@
                        && find_by_id_from(news, list[i].id@, 0) == Some(k);
                assert(list[i].hashes.sha1@ == replaced.hashes.sha1@);
            }
        }
        lemma_leftover_all(news, list, replaced, k + 1);
        assert(seq![news[k]] + news.skip(k + 1) =~= news.skip(k));
    }
}

/// The fold never loses a new entry. Where nothing in the snapshot carries
/// the replaced file's primary hash — as when a package is added rather than
/// updated, the source entry bearing the stand-in fingerprint, or the
/// snapshot being empty — nothing is replaced in place, and the spliced
/// result is the snapshot followed by all the new entries, unchanged and in
/// order; a following rescan then finds each of them by id and carries their
/// transplanted linkage forward.
pub proof fn lemma_splice_appends_all(news: Seq<ModEntry>, list: Seq<ModEntry>, replaced: ModEntry)
    requires
        forall|i: int|
            0 <= i < list.len() ==> (#[trigger] list[i]).hashes.sha1@ != replaced.hashes.sha1@,
    ensures
        leftover_news(news, list, replaced, 0) == news,
{
    lemma_leftover_all(news, list, replaced, 0);
    assert(news.skip(0) =~= news);
}

/// Splices the new entries of a freshly installed file into the snapshot:
/// each snapshot entry that still carries the replaced file's primary hash
/// and shares its id with a new entry is replaced in place by that new entry,
/// and every new entry that replaced nothing is appended after the snapshot,
/// in order. So every new entry, with its transplanted linkage, reaches the
/// snapshot — also where nothing carried the replaced hash, as when a package
/// is added rather than updated.
pub fn splice_entries(list: &Vec<ModEntry>, replaced: &ModEntry, news: &Vec<ModEntry>) -> (r: Vec<
    ModEntry,
>)
    ensures
        r@.len() == list@.len() + leftover_news(news@, list@, *replaced, 0).len(),
        forall|k: int| 0 <= k < list@.len() ==> #[trigger] spliced(r@[k], list@[k], *replaced, news@),
        r@.skip(list@.len() as int) == leftover_news(news@, list@, *replaced, 0),
        forall|k: int| #![trigger news@[k]]
            0 <= k < news@.len() ==> exists|i: int| #![trigger r@[i]]
                0 <= i < r@.len() && r@[i] == news@[k],
{
    let mut out: Vec<ModEntry> = Vec::new();
    let mut used: Vec<bool> = Vec::new();
    let mut t: usize = 0;
    while t < news.len()
        invariant
            t <= news@.len(),
            used@.len() == t,
            forall|j: int| 0 <= j < t ==> !(#[trigger] used@[j]),
        decreases news@.len() - t,
    {
        used.push(false);
        t = t + 1;
    }
    let mut i: usize = 0;
    while i < list.len()
        invariant
            i <= list@.len(),
            out@.len() == i,
            used@.len() == news@.len(),
            forall|k: int| 0 <= k < i ==> #[trigger] spliced(out@[k], list@[k], *replaced, news@),
            forall|j: int|
                0 <= j < news@.len() ==> #[trigger] used@[j] == placed_within(
                    news@,
                    list@,
                    *replaced,
                    j,
                    i as int,
                ),
        decreases list@.len() - i,
    {
        let ghost used0 = used@;
        let cur = &list[i];
        let ghost same_hash = cur.hashes.sha1@ == replaced.hashes.sha1@;
        let ghost found = find_by_id_from(news@, list@[i as int].id@, 0);
        if cur.hashes.sha1 == replaced.hashes.sha1 {
            match crate::engine::find_first_by_id(news, &cur.id) {
                Some(j) => {
                    out.push(news[j].clone());
                    used[j] = true;
                },
                None => {
                    out.push(cur.clone());
                },
            }
        } else {
            out.push(cur.clone());
        }
        proof {
            assert forall|j: int| 0 <= j < news@.len() implies #[trigger] used@[j] == placed_within(
                news@,
                list@,
                *replaced,
                j,
                i as int + 1,
            ) by {
                if same_hash && found == Some(j) {
                    // The entry at position i places news[j] now.
                    assert(placed_within(news@, list@, *replaced, j, i as int + 1));
                } else {
                    assert(used@[j] == used0[j]);
                    if placed_within(news@, list@, *replaced, j, i as int + 1) {
                        let w = choose|w: int|
                            0 <= w < i as int + 1 && list@[w].hashes.sha1@
                                == replaced.hashes.sha1@ && find_by_id_from(
                                news@,
                                list@[w].id@,
                                0,
                            ) == Some(j);
                        assert(w < i as int);
                        assert(placed_within(news@, list@, *replaced, j, i as int));
                    }
                }
            }
        }
        i = i + 1;
    }
    let ghost prefix = out@;
    let mut k: usize = 0;
    proof {
        assert(prefix.len() == list@.len());
        assert(out@.skip(list@.len() as int) =~= Seq::<ModEntry>::empty());
        assert(Seq::<ModEntry>::empty() + leftover_news(news@, list@, *replaced, 0)
            =~= leftover_news(news@, list@, *replaced, 0));
    }
    while k < news.len()
        invariant
            k <= news@.len(),
            used@.len() == news@.len(),
            list@.len() <= out@.len(),
            prefix.len() == list@.len(),
            forall|j: int| 0 <= j < list@.len() ==> out@[j] == prefix[j],
            forall|j: int|
                0 <= j < list@.len() ==> #[trigger] spliced(prefix[j], list@[j], *replaced, news@),
            forall|j: int|
                0 <= j < news@.len() ==> #[trigger] used@[j] == placed(news@, list@, *replaced, j),
            out@.skip(list@.len() as int) + leftover_news(news@, list@, *replaced, k as int)
                == leftover_news(news@, list@, *replaced, 0),
        decreases news@.len() - k,
    {
        let ghost o0 = out@;
        if !used[k] {
            out.push(news[k].clone());
            proof {
                let ln = list@.len() as int;
                assert(out@.skip(ln) =~= o0.skip(ln).push(news@[k as int]));
                assert(o0.skip(ln).push(news@[k as int]) =~= o0.skip(ln) + seq![news@[k as int]]);
                assert(leftover_news(news@, list@, *replaced, k as int) == seq![news@[k as int]]
                    + leftover_news(news@, list@, *replaced, k as int + 1));
                assert(out@.skip(ln) + leftover_news(news@, list@, *replaced, k as int + 1)
                    =~= o0.skip(ln) + leftover_news(news@, list@, *replaced, k as int));
            }
        }
        k = k + 1;
    }
    proof {
        let ln = list@.len() as int;
        assert(leftover_news(news@, list@, *replaced, news@.len() as int)
            =~= Seq::<ModEntry>::empty());
        assert(out@.skip(ln) + Seq::<ModEntry>::empty() =~= out@.skip(ln));
        assert(out@.skip(ln) == leftover_news(news@, list@, *replaced, 0));
        assert forall|j: int| 0 <= j < list@.len() implies #[trigger] spliced(
            out@[j],
            list@[j],
            *replaced,
            news@,
        ) by {
            assert(out@[j] == prefix[j]);
            assert(spliced(prefix[j], list@[j], *replaced, news@));
        }
        assert forall|j: int| #![trigger news@[j]]
            0 <= j < news@.len() implies exists|w: int| #![trigger out@[w]]
            0 <= w < out@.len() && out@[w] == news@[j] by {
            if placed(news@, list@, *replaced, j) {
                let i = choose|i: int|
                    0 <= i < list@.len() && list@[i].hashes.sha1@ == replaced.hashes.sha1@
                        && find_by_id_from(news@, list@[i].id@, 0) == Some(j);
                assert(spliced(out@[i], list@[i], *replaced, news@));
                assert(out@[i] == news@[j]);
            } else {
                lemma_leftover_contains(news@, list@, *replaced, 0, j);
                let suffix = out@.skip(ln);
                let idx = choose|x: int| 0 <= x < suffix.len() && suffix[x] == news@[j];
                assert(out@[ln + idx] == news@[j]);
            }
        }
    }
    out
}

} // verus!
