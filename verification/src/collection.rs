//! The content-addressed collection: an ordered mapping from relative names
//! to content identifiers, sorted by name before publication so identical
//! inputs always produce the identical collection.

use crate::hexstr::{hex_encode, hex_seq};
use vstd::prelude::*;
use vstd::string::*;

verus! {

broadcast use vstd::seq_lib::group_to_multiset_ensures, vstd::multiset::group_multiset_axioms;

/// How many bytes a content identifier holds.
pub const ID_BYTES: usize = 32;

/// A fixed-size cryptographic digest addressing one blob's bytes.
#[derive(Debug, Clone)]
pub struct ContentId {
    /// The digest bytes.
    pub bytes: Vec<u8>,
}

impl ContentId {
    /// A well-formed identifier holds exactly the digest width.
    pub open spec fn wf(&self) -> bool {
        self.bytes@.len() == ID_BYTES
    }

    /// Accepts exactly the byte strings of digest width.
    pub fn from_bytes(bytes: Vec<u8>) -> (r: Option<ContentId>)
        ensures
            r is Some <==> bytes@.len() == ID_BYTES,
            r matches Some(id) ==> id.bytes@ == bytes@ && id.wf(),
    {
        if bytes.len() == ID_BYTES {
            Some(ContentId { bytes })
        } else {
            None
        }
    }

    /// The identifier as lowercase hex, the form used in links and
    /// directory names.
    pub fn to_hex(&self) -> (r: String)
        ensures
            r@ == hex_seq(self.bytes@),
    {
        hex_encode(&self.bytes)
    }
}

/// Lexicographic order on names by Unicode scalar value, the order Rust
/// gives strings through their UTF-8 bytes.
pub open spec fn lex_le(a: Seq<char>, b: Seq<char>) -> bool
    decreases a.len(),
{
    if a.len() == 0 {
        true
    } else if b.len() == 0 {
        false
    } else if (a.first() as u32) == (b.first() as u32) {
        lex_le(a.drop_first(), b.drop_first())
    } else {
        (a.first() as u32) < (b.first() as u32)
    }
}

/// Any two names are ordered one way or the other.
pub proof fn lemma_lex_le_total(a: Seq<char>, b: Seq<char>)
    ensures
        lex_le(a, b) || lex_le(b, a),
    decreases a.len(),
{
    if a.len() > 0 && b.len() > 0 && (a.first() as u32) == (b.first() as u32) {
        lemma_lex_le_total(a.drop_first(), b.drop_first());
    }
}

/// The order chains.
pub proof fn lemma_lex_le_trans(a: Seq<char>, b: Seq<char>, c: Seq<char>)
    requires
        lex_le(a, b),
        lex_le(b, c),
    ensures
        lex_le(a, c),
    decreases a.len(),
{
    if a.len() > 0 && b.len() > 0 && c.len() > 0 && (a.first() as u32) == (b.first() as u32) && (
    b.first() as u32) == (c.first() as u32) {
        lemma_lex_le_trans(a.drop_first(), b.drop_first(), c.drop_first());
    }
}

/// Compares two names lexicographically.
pub fn name_le(a: &str, b: &str) -> (r: bool)
    ensures
        r == lex_le(a@, b@),
{
    let an = a.unicode_len();
    let bn = b.unicode_len();
    let mut i: usize = 0;
    proof {
        assert(a@.subrange(0, an as int) =~= a@);
        assert(b@.subrange(0, bn as int) =~= b@);
    }
    while i < an && i < bn
        invariant
            an == a@.len(),
            bn == b@.len(),
            i <= an,
            i <= bn,
            lex_le(a@, b@) == lex_le(a@.subrange(i as int, an as int), b@.subrange(i as int, bn as int)),
        decreases an - i,
    {
        let ca = a.get_char(i);
        let cb = b.get_char(i);
        let ghost sa = a@.subrange(i as int, an as int);
        let ghost sb = b@.subrange(i as int, bn as int);
        proof {
            assert(sa.first() == a@[i as int]);
            assert(sb.first() == b@[i as int]);
            assert(sa.drop_first() =~= a@.subrange(i + 1, an as int));
            assert(sb.drop_first() =~= b@.subrange(i + 1, bn as int));
        }
        let ua = ca as u32;
        let ub = cb as u32;
        if ua != ub {
            return ua < ub;
        }
        i += 1;
    }
    proof {
        let sa = a@.subrange(i as int, an as int);
        let sb = b@.subrange(i as int, bn as int);
        if i == an {
            assert(sa.len() == 0);
        } else {
            assert(sb.len() == 0 && sa.len() > 0);
        }
    }
    an <= bn
}

/// One named blob inside a collection.
#[derive(Debug, Clone)]
pub struct CollectionEntry {
    /// The traversal-safe relative name.
    pub name: String,
    /// The digest of the entry's bytes.
    pub id: ContentId,
}

/// Entries stand in lexicographic order of their names.
pub open spec fn sorted_by_name(entries: Seq<CollectionEntry>) -> bool {
    forall|i: int, j: int|
        0 <= i < j < entries.len() ==> lex_le(
            #[trigger] entries[i].name@,
            #[trigger] entries[j].name@,
        )
}

/// Entries carry pairwise distinct names.
pub open spec fn names_distinct(entries: Seq<CollectionEntry>) -> bool {
    forall|i: int, j: int|
        0 <= i < j < entries.len() ==> (#[trigger] entries[i]).name@ != (
        #[trigger] entries[j]).name@
}

/// A value standing at two positions counts at least twice.
proof fn lemma_dup_positions_count(s: Seq<CollectionEntry>, i: int, j: int)
    requires
        0 <= i < j < s.len(),
        s[i] == s[j],
    ensures
        s.to_multiset().count(s[i]) >= 2,
{
    let r = s.remove(j);
    assert(r.to_multiset() =~= s.to_multiset().remove(s[j]));
    assert(r[i] == s[i]);
    assert(r.contains(s[i]));
    assert(r.to_multiset().count(s[i]) > 0);
}

/// A value counted at least twice stands at two positions.
proof fn lemma_count_two_positions(s: Seq<CollectionEntry>, x: CollectionEntry)
    requires
        s.to_multiset().count(x) >= 2,
    ensures
        exists|k1: int, k2: int| 0 <= k1 < k2 < s.len() && s[k1] == x && s[k2] == x,
{
    assert(s.contains(x));
    let k1 = choose|k: int| 0 <= k < s.len() && s[k] == x;
    let r = s.remove(k1);
    assert(r.to_multiset() =~= s.to_multiset().remove(x));
    assert(r.to_multiset().count(x) > 0);
    assert(r.contains(x));
    let kr = choose|k: int| 0 <= k < r.len() && r[k] == x;
    assert(r =~= s.subrange(0, k1) + s.subrange(k1 + 1, s.len() as int));
    if kr < k1 {
        assert(s[kr] == r[kr]);
        assert(0 <= kr < k1 < s.len() && s[kr] == x && s[k1] == x);
    } else {
        assert(s[kr + 1] == r[kr]);
        assert(0 <= k1 < kr + 1 < s.len() && s[k1] == x && s[kr + 1] == x);
    }
}

/// Reordering entries cannot make two names collide: distinct names stay
/// distinct under any permutation.
pub proof fn lemma_distinct_names_permuted(a: Seq<CollectionEntry>, b: Seq<CollectionEntry>)
    requires
        a.to_multiset() == b.to_multiset(),
        names_distinct(a),
    ensures
        names_distinct(b),
{
    assert forall|i: int, j: int| 0 <= i < j < b.len() implies (#[trigger] b[i]).name@ != (
    #[trigger] b[j]).name@ by {
        if b[i].name@ == b[j].name@ {
            let x = b[i];
            let y = b[j];
            if x == y {
                lemma_dup_positions_count(b, i, j);
                lemma_count_two_positions(a, x);
                let (k1, k2) = choose|k1: int, k2: int|
                    0 <= k1 < k2 < a.len() && a[k1] == x && a[k2] == x;
                assert(a[k1].name@ == a[k2].name@);
            } else {
                assert(b.contains(x) && b.contains(y));
                assert(a.to_multiset().count(x) > 0 && a.to_multiset().count(y) > 0);
                assert(a.contains(x) && a.contains(y));
                let k1 = choose|k: int| 0 <= k < a.len() && a[k] == x;
                let k2 = choose|k: int| 0 <= k < a.len() && a[k] == y;
                assert(k1 != k2);
                assert(a[k1].name@ == a[k2].name@);
            }
        }
    }
}

/// Reorders `entries` into lexicographic name order, keeping exactly the
/// same entries.
pub fn sort_entries(entries: &mut Vec<CollectionEntry>)
    ensures
        sorted_by_name(final(entries)@),
        final(entries)@.to_multiset() == old(entries)@.to_multiset(),
        final(entries)@.len() == old(entries)@.len(),
        names_distinct(old(entries)@) ==> names_distinct(final(entries)@),
{
    let ghost orig = entries@;
    let mut i: usize = 1;
    while i < entries.len()
        invariant
            1 <= i,
            i <= entries.len() || entries.len() <= 1,
            entries@.to_multiset() == orig.to_multiset(),
            entries@.len() == orig.len(),
            sorted_by_name(entries@.subrange(0, i as int)) || i > entries@.len(),
        decreases entries.len() - i,
    {
        let ghost s0 = entries@;
        proof {
            assert forall|a: int, b: int| 0 <= a < b < i implies lex_le(
                #[trigger] s0[a].name@,
                #[trigger] s0[b].name@,
            ) by {
                assert(s0.subrange(0, i as int)[a] == s0[a]);
                assert(s0.subrange(0, i as int)[b] == s0[b]);
            }
        }
        let mut pos: usize = 0;
        while pos < i && name_le(entries[pos].name.as_str(), entries[i].name.as_str())
            invariant
                pos <= i,
                i < entries.len(),
                entries@ == s0,
                forall|k: int| 0 <= k < pos ==> lex_le(#[trigger] s0[k].name@, s0[i as int].name@),
            decreases i - pos,
        {
            pos += 1;
        }
        proof {
            if pos < i {
                lemma_lex_le_total(s0[pos as int].name@, s0[i as int].name@);
            }
        }
        let e = entries.remove(i);
        entries.insert(pos, e);
        proof {
            let s2 = entries@;
            assert(s2 =~= s0.subrange(0, pos as int) + seq![s0[i as int]] + s0.subrange(
                pos as int,
                i as int,
            ) + s0.subrange(i + 1, s0.len() as int));
            assert(s2.to_multiset() =~= s0.to_multiset()) by {
                assert(s0.remove(i as int).to_multiset() =~= s0.to_multiset().remove(
                    s0[i as int],
                ));
                assert(s2.to_multiset() =~= s0.remove(i as int).to_multiset().insert(
                    s0[i as int],
                ));
                assert(s0.to_multiset().contains(s0[i as int]));
            }
            assert forall|a: int, b: int| 0 <= a < b < i + 1 implies lex_le(
                #[trigger] s2[a].name@,
                #[trigger] s2[b].name@,
            ) by {
                let e_name = s0[i as int].name@;
                if b < pos {
                    // both untouched
                } else if a < pos && b == pos {
                    // s2[b] is the inserted entry
                } else if a < pos && b > pos {
                    // s2[b] == s0[b - 1], and a stayed
                    assert(lex_le(e_name, s0[pos as int].name@));
                    if b - 1 > pos {
                        lemma_lex_le_trans(e_name, s0[pos as int].name@, s0[b - 1].name@);
                    }
                    lemma_lex_le_trans(s2[a].name@, e_name, s2[b].name@);
                } else if a == pos {
                    // s2[a] is the inserted entry, s2[b] == s0[b - 1]
                    assert(lex_le(e_name, s0[pos as int].name@));
                    if b - 1 > pos {
                        lemma_lex_le_trans(e_name, s0[pos as int].name@, s0[b - 1].name@);
                    }
                } else {
                    // both shifted: s2[a] == s0[a - 1], s2[b] == s0[b - 1]
                }
            }
            assert(sorted_by_name(s2.subrange(0, i + 1))) by {
                assert forall|a: int, b: int| 0 <= a < b < i + 1 implies lex_le(
                    #[trigger] s2.subrange(0, i + 1)[a].name@,
                    #[trigger] s2.subrange(0, i + 1)[b].name@,
                ) by {
                    assert(s2.subrange(0, i + 1)[a] == s2[a]);
                    assert(s2.subrange(0, i + 1)[b] == s2[b]);
                }
            }
        }
        i += 1;
    }
    proof {
        if entries@.len() <= 1 {
            assert(sorted_by_name(entries@));
        } else {
            assert(entries@.subrange(0, entries@.len() as int) =~= entries@);
        }
        if names_distinct(orig) {
            lemma_distinct_names_permuted(orig, entries@);
        }
    }
}

/// An ordered mapping from relative names to content identifiers.
///
/// The collection itself is stored as one more blob, so it gains its own
/// content identifier; sorting makes that identifier deterministic for
/// identical inputs.
#[derive(Debug, Clone)]
pub struct Collection {
    entries: Vec<CollectionEntry>,
}

impl Collection {
    /// The entries, in published order.
    pub closed spec fn view(&self) -> Seq<CollectionEntry> {
        self.entries@
    }

    /// Entries stand sorted by name.
    pub open spec fn wf(&self) -> bool {
        sorted_by_name(self@)
    }

    /// Builds the collection from staged entries, sorting them by name.
    /// Entries with pairwise distinct names stay pairwise distinct, so the
    /// published order is deterministic for identical inputs.
    pub fn from_entries(mut entries: Vec<CollectionEntry>) -> (c: Collection)
        ensures
            c.wf(),
            c@.to_multiset() == entries@.to_multiset(),
            c@.len() == entries@.len(),
            names_distinct(entries@) ==> names_distinct(c@),
    {
        sort_entries(&mut entries);
        Collection { entries }
    }

    /// How many entries the collection holds.
    pub fn len(&self) -> (n: usize)
        ensures
            n == self@.len(),
    {
        self.entries.len()
    }

    /// The entry at `i` in published order.
    pub fn entry(&self, i: usize) -> (e: &CollectionEntry)
        requires
            i < self@.len(),
        ensures
            *e == self@[i as int],
    {
        &self.entries[i]
    }
}

} // verus!
