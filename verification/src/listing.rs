//! Building a pane's listing: sort the entries of a directory ascending by
//! name and, while the reversal flag is set, reverse every element after the
//! first of the sorted output.

use vstd::prelude::*;
use vstd::multiset::Multiset;
use vstd::seq_lib::lemma_multiset_commutative;

use crate::entry::{Entry, EntryV, lex_le, lemma_lex_le_antisymmetric, lemma_lex_le_reflexive,
    lemma_lex_le_total, lemma_lex_le_transitive, name_le};

verus! {

/// The views of a sequence of entries.
pub open spec fn views_of(s: Seq<Entry>) -> Seq<EntryV> {
    s.map_values(|e: Entry| e@)
}

/// The name of the synthetic parent-navigation entry.
pub open spec fn parent_name() -> Seq<char> {
    seq!['.', '.']
}

/// The view of the synthetic parent-navigation entry.
pub open spec fn parent_entry() -> EntryV {
    EntryV { name: parent_name(), is_dir: true }
}

/// Entries are ascending by name.
pub open spec fn sorted_entries(vs: Seq<EntryV>) -> bool {
    forall|i: int, j: int|
        0 <= i < j < vs.len() ==> lex_le(#[trigger] vs[i].name, #[trigger] vs[j].name)
}

/// No two entries carry the same name.
pub open spec fn distinct_names(vs: Seq<EntryV>) -> bool {
    forall|i: int, j: int|
        0 <= i < j < vs.len() ==> (#[trigger] vs[i].name) != (#[trigger] vs[j].name)
}

/// Every element after the first, reversed; the first stays in place.
pub open spec fn rev_tail(vs: Seq<EntryV>) -> Seq<EntryV> {
    if vs.len() == 0 {
        vs
    } else {
        seq![vs[0]] + vs.skip(1).reverse()
    }
}

/// The ascending order a listing was produced from, given the current flag.
pub open spec fn unreversed(vs: Seq<EntryV>, reversed: bool) -> Seq<EntryV> {
    if reversed {
        rev_tail(vs)
    } else {
        vs
    }
}

/// A listing is in display order for the flag: ascending when the flag is
/// off, and ascending-then-tail-reversed when it is on.
pub open spec fn listing_form(vs: Seq<EntryV>, reversed: bool) -> bool {
    sorted_entries(unreversed(vs, reversed))
}

/// Two entry sequences hold the same entries, in some order.
pub open spec fn same_entries(a: Seq<EntryV>, b: Seq<EntryV>) -> bool {
    a.to_multiset() == b.to_multiset()
}

/// Inserting anywhere adds to the entries exactly what pushing adds.
pub proof fn lemma_insert_to_multiset<A>(s: Seq<A>, k: int, x: A)
    requires
        0 <= k <= s.len(),
    ensures
        s.insert(k, x).to_multiset() == s.push(x).to_multiset(),
{
    broadcast use vstd::seq_lib::group_to_multiset_ensures;
    broadcast use vstd::multiset::group_multiset_axioms;

    let t = s.insert(k, x);
    assert(t.remove(k) =~= s);
    assert(t[k] == x);
    assert(s.to_multiset() == t.to_multiset().remove(x));
    assert(t.contains(x));
    assert(t.to_multiset().count(x) > 0);
    assert(t.to_multiset() =~= s.to_multiset().insert(x));
    assert(s.push(x).to_multiset() =~= s.to_multiset().insert(x));
}

/// Reversing the tail does not change which entries a listing holds.
pub proof fn lemma_rev_tail_same_entries(vs: Seq<EntryV>)
    ensures
        same_entries(rev_tail(vs), vs),
{
    if vs.len() > 0 {
        let t = vs.skip(1);
        assert(vs =~= seq![vs[0]] + t);
        lemma_multiset_commutative(seq![vs[0]], t);
        lemma_multiset_commutative(seq![vs[0]], t.reverse());
        t.lemma_reverse_to_multiset();
        assert(rev_tail(vs).to_multiset() =~= vs.to_multiset());
    }
}

/// Reversing the tail twice restores the listing.
pub proof fn lemma_rev_tail_involutive(vs: Seq<EntryV>)
    ensures
        rev_tail(rev_tail(vs)) == vs,
{
    if vs.len() > 0 {
        let r = rev_tail(vs);
        assert forall|i: int| 0 <= i < vs.len() implies rev_tail(r)[i] == vs[i] by {
            if i > 0 {
                assert(r[i] == vs.skip(1).reverse()[i - 1]);
                assert(rev_tail(r)[i] == r.skip(1).reverse()[i - 1]);
                assert(r.skip(1).reverse()[i - 1] == r[r.len() - i]);
                if vs.len() - i > 0 {
                    assert(r[vs.len() - i] == vs.skip(1).reverse()[vs.len() - i - 1]);
                }
            }
        }
        assert(rev_tail(rev_tail(vs)) =~= vs);
    }
}

/// Entries with pairwise distinct names hold no duplicate values.
proof fn lemma_distinct_no_duplicates(vs: Seq<EntryV>)
    requires
        distinct_names(vs),
    ensures
        vs.no_duplicates(),
{
    assert forall|i: int, j: int|
        0 <= i < vs.len() && 0 <= j < vs.len() && i != j implies vs[i] != vs[j] by {
        if i < j {
            assert(vs[i].name != vs[j].name);
        } else {
            assert(vs[j].name != vs[i].name);
        }
    }
}

/// Distinct names carry over to any reordering of the same entries.
pub proof fn lemma_same_entries_distinct(a: Seq<EntryV>, b: Seq<EntryV>)
    requires
        same_entries(a, b),
        distinct_names(a),
    ensures
        distinct_names(b),
{
    broadcast use vstd::seq_lib::group_to_multiset_ensures;
    broadcast use vstd::multiset::group_multiset_axioms;

    assert forall|i: int, j: int|
        0 <= i < j < b.len() implies (#[trigger] b[i].name) != (#[trigger] b[j].name) by {
        if b[i].name == b[j].name {
            if b[i] == b[j] {
                lemma_distinct_no_duplicates(a);
                a.lemma_multiset_has_no_duplicates();
                assert(b.remove(j).to_multiset() == b.to_multiset().remove(b[j]));
                assert(b.remove(j)[i] == b[i]);
                assert(b.remove(j).contains(b[i]));
                assert(b.remove(j).to_multiset().count(b[i]) > 0);
                assert(b.to_multiset().count(b[i]) >= 2);
                assert(a.to_multiset().count(b[i]) >= 2);
                assert(a.contains(b[i]));
            } else {
                assert(b.contains(b[i]));
                assert(b.contains(b[j]));
                assert(a.to_multiset().count(b[i]) > 0);
                assert(a.to_multiset().count(b[j]) > 0);
                assert(a.contains(b[i]));
                assert(a.contains(b[j]));
                let p = choose|p: int| 0 <= p < a.len() && a[p] == b[i];
                let q = choose|q: int| 0 <= q < a.len() && a[q] == b[j];
                assert(p != q);
                assert(a[p].name == a[q].name);
            }
        }
    }
}

/// Between two sorted sequences of the same entries with distinct names
/// there is no difference at all: sorting such entries is deterministic.
pub proof fn lemma_sorted_unique(a: Seq<EntryV>, b: Seq<EntryV>)
    requires
        sorted_entries(a),
        sorted_entries(b),
        same_entries(a, b),
        distinct_names(a),
    ensures
        a == b,
    decreases a.len(),
{
    broadcast use vstd::seq_lib::group_to_multiset_ensures;
    broadcast use vstd::multiset::group_multiset_axioms;

    assert(a.len() == a.to_multiset().len());
    assert(b.len() == b.to_multiset().len());
    if a.len() == 0 {
        assert(a =~= b);
    } else {
        assert(b.contains(b[0]));
        assert(a.to_multiset().count(b[0]) > 0);
        assert(a.contains(b[0]));
        let m = choose|m: int| 0 <= m < a.len() && a[m] == b[0];
        assert(a.contains(a[0]));
        assert(b.to_multiset().count(a[0]) > 0);
        assert(b.contains(a[0]));
        let n = choose|n: int| 0 <= n < b.len() && b[n] == a[0];
        if m == 0 {
            assert(a[0] == b[0]);
        } else {
            assert(lex_le(a[0].name, a[m].name));
            if n == 0 {
                lemma_lex_le_reflexive(b[0].name);
            } else {
                assert(lex_le(b[0].name, b[n].name));
            }
            lemma_lex_le_antisymmetric(a[0].name, b[0].name);
            assert(a[m].name == a[0].name);
            assert(false);
        }
        let a1 = a.drop_first();
        let b1 = b.drop_first();
        assert(a.remove(0) =~= a1);
        assert(b.remove(0) =~= b1);
        assert(a1.to_multiset() == a.to_multiset().remove(a[0]));
        assert(b1.to_multiset() == b.to_multiset().remove(b[0]));
        assert(same_entries(a1, b1));
        assert forall|i: int, j: int|
            0 <= i < j < a1.len() implies lex_le(#[trigger] a1[i].name, #[trigger] a1[j].name) by {
            assert(a1[i] == a[i + 1]);
            assert(a1[j] == a[j + 1]);
        }
        assert forall|i: int, j: int|
            0 <= i < j < b1.len() implies lex_le(#[trigger] b1[i].name, #[trigger] b1[j].name) by {
            assert(b1[i] == b[i + 1]);
            assert(b1[j] == b[j + 1]);
        }
        assert forall|i: int, j: int|
            0 <= i < j < a1.len() implies (#[trigger] a1[i].name) != (#[trigger] a1[j].name) by {
            assert(a1[i] == a[i + 1]);
            assert(a1[j] == a[j + 1]);
        }
        lemma_sorted_unique(a1, b1);
        assert forall|i: int| 0 <= i < a.len() implies a[i] == b[i] by {
            if i > 0 {
                assert(a[i] == a1[i - 1]);
                assert(b[i] == b1[i - 1]);
            }
        }
        assert(a =~= b);
    }
}

/// A listing in display order for a flag is determined, among listings of
/// the same entries with distinct names, by the entries and the flag alone.
pub proof fn lemma_listing_unique(a: Seq<EntryV>, b: Seq<EntryV>, reversed: bool)
    requires
        listing_form(a, reversed),
        listing_form(b, reversed),
        same_entries(a, b),
        distinct_names(a),
    ensures
        a == b,
{
    if reversed {
        lemma_rev_tail_same_entries(a);
        lemma_rev_tail_same_entries(b);
        assert(same_entries(rev_tail(a), rev_tail(b)));
        lemma_same_entries_distinct(a, rev_tail(a));
        lemma_sorted_unique(rev_tail(a), rev_tail(b));
        lemma_rev_tail_involutive(a);
        lemma_rev_tail_involutive(b);
        assert(rev_tail(rev_tail(a)) == rev_tail(rev_tail(b)));
    } else {
        lemma_sorted_unique(a, b);
    }
}

/// Where the next entry belongs in a listing sorted so far: past every entry
/// whose name is not above the new one, mirroring a stable ascending sort.
fn insert_position(out: &Vec<Entry>, e: &Entry) -> (k: usize)
    requires
        sorted_entries(views_of(out@)),
    ensures
        k <= out@.len(),
        forall|j: int| 0 <= j < k ==> lex_le(#[trigger] views_of(out@)[j].name, e@.name),
        k < out@.len() ==> !lex_le(views_of(out@)[k as int].name, e@.name),
{
    let mut k: usize = 0;
    while k < out.len()
        invariant
            k <= out@.len(),
            forall|j: int| 0 <= j < k ==> lex_le(#[trigger] views_of(out@)[j].name, e@.name),
        decreases out@.len() - k,
    {
        if !name_le(out[k].name.as_str(), e.name.as_str()) {
            return k;
        }
        k = k + 1;
    }
    k
}

/// Sort entries ascending by name.  The result holds the same entries; with
/// distinct names it is the one sorted arrangement of them
/// ([`lemma_sorted_unique`]).
pub fn sort_entries(input: Vec<Entry>) -> (r: Vec<Entry>)
    ensures
        sorted_entries(views_of(r@)),
        same_entries(views_of(r@), views_of(input@)),
        r@.len() == input@.len(),
{
    let ghost orig: Seq<Entry> = input@;
    let mut rest = input;
    let mut out: Vec<Entry> = Vec::new();
    proof {
        broadcast use vstd::seq_lib::group_to_multiset_ensures;
        broadcast use vstd::multiset::group_multiset_axioms;

        assert(views_of(out@) =~= Seq::<EntryV>::empty());
        assert(views_of(rest@) =~= views_of(orig));
        assert(views_of(out@).to_multiset().add(views_of(rest@).to_multiset())
            =~= views_of(orig).to_multiset());
    }
    while rest.len() > 0
        invariant
            sorted_entries(views_of(out@)),
            views_of(out@).to_multiset().add(views_of(rest@).to_multiset())
                == views_of(orig).to_multiset(),
            out@.len() + rest@.len() == orig.len(),
        decreases rest@.len(),
    {
        let ghost out0 = out@;
        let ghost rest0 = rest@;
        let e = rest.remove(0);
        let k = insert_position(&out, &e);
        out.insert(k, e);
        proof {
            broadcast use vstd::seq_lib::group_to_multiset_ensures;
            broadcast use vstd::multiset::group_multiset_axioms;

            let vout0 = views_of(out0);
            let vrest0 = views_of(rest0);
            assert(views_of(rest@) =~= vrest0.remove(0));
            assert(vrest0[0] == e@);
            assert(views_of(rest@).to_multiset() == vrest0.to_multiset().remove(e@));
            assert(views_of(out@) =~= vout0.insert(k as int, e@));
            lemma_insert_to_multiset(vout0, k as int, e@);
            assert(views_of(out@).to_multiset() == vout0.push(e@).to_multiset());
            assert(vout0.push(e@).to_multiset() =~= vout0.to_multiset().insert(e@));
            assert(vrest0.contains(vrest0[0]));
            assert(vrest0.to_multiset().count(e@) > 0);
            assert(views_of(out@).to_multiset().add(views_of(rest@).to_multiset())
                =~= vout0.to_multiset().add(vrest0.to_multiset()));
            let vs = views_of(out@);
            vout0.insert_ensures(k as int, e@);
            assert forall|i: int, j: int|
                0 <= i < j < vs.len() implies lex_le(#[trigger] vs[i].name, #[trigger] vs[j].name) by {
                if j < k {
                    assert(lex_le(vout0[i].name, vout0[j].name));
                } else if j == k {
                    assert(lex_le(vout0[i].name, e@.name));
                } else if i <= k {
                    assert(j > k);
                    assert(vs[j] == vout0[j - 1]);
                    assert(k < vout0.len());
                    assert(!lex_le(vout0[k as int].name, e@.name));
                    lemma_lex_le_total(vout0[k as int].name, e@.name);
                    assert(lex_le(e@.name, vout0[k as int].name));
                    if j - 1 > k {
                        assert(lex_le(vout0[k as int].name, vout0[j - 1].name));
                    } else {
                        lemma_lex_le_reflexive(vout0[k as int].name);
                    }
                    lemma_lex_le_transitive(e@.name, vout0[k as int].name, vout0[j - 1].name);
                    if i < k {
                        assert(lex_le(vout0[i].name, e@.name));
                        lemma_lex_le_transitive(vout0[i].name, e@.name, vout0[j - 1].name);
                    } else {
                        assert(vs[i] == e@);
                    }
                } else {
                    assert(vs[i] == vout0[i - 1]);
                    assert(vs[j] == vout0[j - 1]);
                }
            }
        }
    }
    proof {
        broadcast use vstd::seq_lib::group_to_multiset_ensures;
        broadcast use vstd::multiset::group_multiset_axioms;

        assert(views_of(rest@) =~= Seq::<EntryV>::empty());
        assert(views_of(rest@).to_multiset().len() == 0);
        assert(views_of(rest@).to_multiset() =~= Multiset::<EntryV>::empty());
        assert(views_of(out@).to_multiset().add(Multiset::<EntryV>::empty())
            =~= views_of(out@).to_multiset());
    }
    out
}

/// Reverse every element after the first, in display order.
pub fn reverse_after_first(input: Vec<Entry>) -> (r: Vec<Entry>)
    ensures
        views_of(r@) == rev_tail(views_of(input@)),
        r@.len() == input@.len(),
{
    let ghost orig: Seq<Entry> = input@;
    let mut rest = input;
    if rest.len() == 0 {
        proof {
            assert(views_of(rest@) =~= rev_tail(views_of(orig)));
        }
        return rest;
    }
    let mut out: Vec<Entry> = Vec::new();
    let first = rest.remove(0);
    out.push(first);
    proof {
        assert(rest@ =~= orig.drop_first().take(rest@.len() as int));
        assert(out@ =~= seq![orig[0]] + orig.drop_first().skip(rest@.len() as int).reverse());
    }
    while rest.len() > 0
        invariant
            orig.len() > 0,
            rest@.len() <= orig.len() - 1,
            rest@ == orig.drop_first().take(rest@.len() as int),
            out@ == seq![orig[0]] + orig.drop_first().skip(rest@.len() as int).reverse(),
        decreases rest@.len(),
    {
        let ghost rest0 = rest@;
        let e = rest.pop().unwrap();
        out.push(e);
        proof {
            let t = orig.drop_first();
            let n = rest0.len() as int;
            assert(e == t.take(n)[n - 1]);
            assert(e == t[n - 1]);
            assert(rest@ =~= t.take(n - 1));
            assert(out@ =~= seq![orig[0]] + t.skip(n - 1).reverse()) by {
                assert(t.skip(n - 1).reverse() =~= t.skip(n).reverse().push(t[n - 1]));
            }
        }
    }
    proof {
        let t = orig.drop_first();
        assert(t.skip(0) =~= t);
        assert(views_of(out@) =~= rev_tail(views_of(orig))) by {
            assert(out@ == seq![orig[0]] + t.reverse());
            assert forall|i: int| 0 <= i < out@.len() implies
                views_of(out@)[i] == rev_tail(views_of(orig))[i] by {
                let vs = views_of(orig);
                if i > 0 {
                    assert(out@[i] == t.reverse()[i - 1]);
                    assert(t.reverse()[i - 1] == t[t.len() - i]);
                    assert(t[t.len() - i] == orig[orig.len() - i]);
                    assert(rev_tail(vs)[i] == vs.skip(1).reverse()[i - 1]);
                    assert(vs.skip(1).reverse()[i - 1] == vs[vs.len() - i]);
                }
            }
        }
    }
    out
}

/// Bring entries into display order for the flag: sort ascending, then, with
/// the flag set, reverse everything after the first sorted element.
pub fn resort_entries(entries: Vec<Entry>, reversed: bool) -> (r: Vec<Entry>)
    ensures
        listing_form(views_of(r@), reversed),
        same_entries(views_of(r@), views_of(entries@)),
        r@.len() == entries@.len(),
{
    let ghost vin = views_of(entries@);
    let sorted = sort_entries(entries);
    if reversed {
        let r = reverse_after_first(sorted);
        proof {
            lemma_rev_tail_involutive(views_of(sorted@));
            lemma_rev_tail_same_entries(views_of(sorted@));
        }
        r
    } else {
        sorted
    }
}

/// Build the listing of a freshly read directory: the children, the
/// synthetic `".."` entry appended, in display order for the flag.
pub fn build_listing(children: Vec<Entry>, reversed: bool) -> (r: Vec<Entry>)
    ensures
        listing_form(views_of(r@), reversed),
        same_entries(views_of(r@), views_of(children@).push(parent_entry())),
        r@.len() == children@.len() + 1,
{
    let ghost vc = views_of(children@);
    let mut cs = children;
    let dotdot = String::from_str("..");
    proof {
        reveal_strlit("..");
        assert(dotdot@ =~= parent_name());
    }
    cs.push(Entry::new(dotdot, true));
    proof {
        assert(views_of(cs@) =~= vc.push(parent_entry()));
    }
    resort_entries(cs, reversed)
}

} // verus!
