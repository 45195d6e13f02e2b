//! Snapshot ordering: published snapshots are always sorted by display name.

use crate::mod_entry::ModEntry;
use vstd::multiset::Multiset;
use vstd::prelude::*;
use vstd::string::*;

verus! {

/// Lexicographic order on character sequences, by Unicode scalar value.
pub open spec fn lex_le(a: Seq<char>, b: Seq<char>) -> bool
    decreases a.len(),
{
    if a.len() == 0 {
        true
    } else if b.len() == 0 {
        false
    } else if (a[0] as u32) < (b[0] as u32) {
        true
    } else if (a[0] as u32) > (b[0] as u32) {
        false
    } else {
        lex_le(a.skip(1), b.skip(1))
    }
}

/// The order is total: of two sequences, one is less than or equal to the
/// other.
pub proof fn lemma_lex_le_total(a: Seq<char>, b: Seq<char>)
    ensures
        lex_le(a, b) || lex_le(b, a),
    decreases a.len(),
{
    if a.len() > 0 && b.len() > 0 && (a[0] as u32) == (b[0] as u32) {
        lemma_lex_le_total(a.skip(1), b.skip(1));
    }
}

/// The order is transitive.
pub proof fn lemma_lex_le_trans(a: Seq<char>, b: Seq<char>, c: Seq<char>)
    requires
        lex_le(a, b),
        lex_le(b, c),
    ensures
        lex_le(a, c),
    decreases a.len(),
{
    if a.len() > 0 && b.len() > 0 && c.len() > 0 && (a[0] as u32) == (b[0] as u32) && (b[0] as u32)
        == (c[0] as u32) {
        lemma_lex_le_trans(a.skip(1), b.skip(1), c.skip(1));
    }
}

/// Whether `a` is lexicographically at most `b`.
pub fn str_lex_le(a: &str, b: &str) -> (r: bool)
    ensures
        r == lex_le(a@, b@),
{
    let alen = a.unicode_len();
    let blen = b.unicode_len();
    let mut i: usize = 0;
    proof {
        assert(a@.skip(0) =~= a@);
        assert(b@.skip(0) =~= b@);
    }
    while i < alen && i < blen
        invariant
            i <= alen,
            i <= blen,
            alen == a@.len(),
            blen == b@.len(),
            lex_le(a@, b@) == lex_le(a@.skip(i as int), b@.skip(i as int)),
        ensures
            i <= alen,
            i <= blen,
            lex_le(a@, b@) == lex_le(a@.skip(i as int), b@.skip(i as int)),
            i < alen && i < blen ==> (a@[i as int] as u32) != (b@[i as int] as u32),
        decreases alen - i,
    {
        let ca = a.get_char(i) as u32;
        let cb = b.get_char(i) as u32;
        if ca != cb {
            break ;
        }
        proof {
            assert(a@.skip(i as int).skip(1) =~= a@.skip(i as int + 1));
            assert(b@.skip(i as int).skip(1) =~= b@.skip(i as int + 1));
        }
        i = i + 1;
    }
    if i >= alen {
        // `a`'s remainder is empty, so it precedes any remainder of `b`.
        assert(a@.skip(i as int).len() == 0);
        true
    } else if i >= blen {
        assert(b@.skip(i as int).len() == 0);
        assert(a@.skip(i as int).len() > 0);
        false
    } else {
        assert(a@.skip(i as int)[0] == a@[i as int]);
        assert(b@.skip(i as int)[0] == b@[i as int]);
        let ca = a.get_char(i) as u32;
        let cb = b.get_char(i) as u32;
        ca < cb
    }
}

/// Whether a snapshot is sorted by display name.
pub open spec fn sorted_by_name(s: Seq<ModEntry>) -> bool {
    forall|i: int, j: int|
        0 <= i < j < s.len() ==> #[trigger] lex_le(s[i].display_name@, s[j].display_name@)
}

/// Whether `a` comes at or before `b` in the published order.
pub fn name_le(a: &ModEntry, b: &ModEntry) -> (r: bool)
    ensures
        r == lex_le(a.display_name@, b.display_name@),
{
    str_lex_le(a.display_name.as_str(), b.display_name.as_str())
}

proof fn lemma_insert_to_multiset(s: Seq<ModEntry>, i: int, x: ModEntry)
    requires
        0 <= i <= s.len(),
    ensures
        s.insert(i, x).to_multiset() == s.to_multiset().insert(x),
{
    let t = s.insert(i, x);
    t.to_multiset_ensures();
    assert(t.remove(i) =~= s);
    assert(t[i] == x);
    assert(t.to_multiset().remove(x) =~= s.to_multiset());
    assert(t.contains(x));
    assert(t.to_multiset().count(x) > 0);
    assert(t.to_multiset() =~= s.to_multiset().insert(x));
}

/// Inserts `x` into a snapshot sorted by display name, keeping it sorted.
fn insert_sorted(list: &mut Vec<ModEntry>, x: ModEntry)
    requires
        sorted_by_name(old(list)@),
    ensures
        sorted_by_name(final(list)@),
        final(list)@.to_multiset() == old(list)@.to_multiset().insert(x),
{
    let ghost s0 = list@;
    let mut pos: usize = 0;
    while pos < list.len()
        invariant
            pos <= list@.len(),
            list@ == s0,
            forall|k: int| 0 <= k < pos ==> lex_le(#[trigger] list@[k].display_name@, x.display_name@),
        ensures
            pos <= list@.len(),
            list@ == s0,
            forall|k: int| 0 <= k < pos ==> lex_le(#[trigger] list@[k].display_name@, x.display_name@),
            pos < list@.len() ==> !lex_le(list@[pos as int].display_name@, x.display_name@),
        decreases list@.len() - pos,
    {
        if !name_le(&list[pos], &x) {
            break ;
        }
        pos = pos + 1;
    }
    proof {
        lemma_insert_to_multiset(s0, pos as int, x);
    }
    let ghost xn = x.display_name@;
    list.insert(pos, x);
    assert forall|i: int, j: int| 0 <= i < j < list@.len() implies #[trigger] lex_le(
        list@[i].display_name@,
        list@[j].display_name@,
    ) by {
        let p = pos as int;
        if i == p {
            // list@[i] is x; everything after position p came from at or
            // after p in the old snapshot, where nothing precedes x.
            lemma_lex_le_total(s0[p].display_name@, xn);
            if j - 1 > p {
                lemma_lex_le_trans(xn, s0[p].display_name@, s0[j - 1].display_name@);
            }
        } else if j == p {
            assert(lex_le(list@[i].display_name@, xn));
        } else if i < p && j > p {
            assert(list@[i] == s0[i] && list@[j] == s0[j - 1]);
        }
    }
}

/// Sorts a snapshot by display name. The result holds exactly the entries of
/// the input, in lexicographic display-name order.
pub fn sort_by_display_name(list: &mut Vec<ModEntry>)
    ensures
        sorted_by_name(final(list)@),
        final(list)@.to_multiset() == old(list)@.to_multiset(),
{
    let mut out: Vec<ModEntry> = Vec::new();
    proof {
        out@.to_multiset_ensures();
        list@.to_multiset_ensures();
    }
    assert(out@.to_multiset() =~= Multiset::<ModEntry>::empty());
    while list.len() > 0
        invariant
            sorted_by_name(out@),
            list@.to_multiset().add(out@.to_multiset()) == old(list)@.to_multiset(),
        decreases list@.len(),
    {
        let ghost l0 = list@;
        let ghost o0 = out@;
        let x = list.pop().unwrap();
        proof {
            assert(l0 =~= list@.push(x));
            list@.to_multiset_ensures();
            assert(l0.to_multiset() == list@.to_multiset().insert(x));
        }
        insert_sorted(&mut out, x);
        proof {
            assert(list@.to_multiset().add(out@.to_multiset()) =~= l0.to_multiset().add(
                o0.to_multiset(),
            ));
        }
    }
    proof {
        list@.to_multiset_ensures();
        assert forall|e: ModEntry| list@.to_multiset().count(e) == 0nat by {
            if list@.to_multiset().count(e) > 0 {
                assert(list@.contains(e));
            }
        }
        assert(list@.to_multiset() =~= Multiset::<ModEntry>::empty());
        assert(list@.to_multiset().add(out@.to_multiset()) =~= out@.to_multiset());
    }
    *list = out;
}

} // verus!
