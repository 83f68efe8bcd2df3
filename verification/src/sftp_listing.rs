//! Arranging a remote directory listing for display: the `.` and `..`
//! entries are dropped, directories come first, and each group is ordered
//! by name, entries that compare equal keeping the order the server sent.

use vstd::prelude::*;

use crate::text::{text_eq, text_less, text_less_exec};

verus! {

broadcast use vstd::std_specs::vec::axiom_spec_into_iter;

/// The kind of a remote directory entry.
#[derive(Debug, Clone, Copy, PartialEq, Eq, Structural)]
pub enum RemoteKind {
    Dir,
    File,
    Symlink,
    Other,
}

/// One entry of a remote directory.
#[derive(Debug, Clone)]
pub struct RemoteEntry {
    pub name: String,
    pub kind: RemoteKind,
    pub size: u64,
}

/// What a remote entry holds, as plain values.
pub struct RemoteEntryView {
    pub name: Seq<char>,
    pub kind: RemoteKind,
    pub size: u64,
}

impl RemoteEntry {
    pub open spec fn view(&self) -> RemoteEntryView {
        RemoteEntryView { name: self.name@, kind: self.kind, size: self.size }
    }
}

/// The views of a list of entries.
pub open spec fn entries_view(v: Seq<RemoteEntry>) -> Seq<RemoteEntryView> {
    v.map_values(|e: RemoteEntry| e@)
}

/// Whether an entry is shown: every name but `.` and `..`.
pub open spec fn is_shown(e: RemoteEntryView) -> bool {
    e.name != "."@ && e.name != ".."@
}

/// The shown entries, in the order the server sent them.
pub open spec fn shown(s: Seq<RemoteEntryView>) -> Seq<RemoteEntryView> {
    s.filter(|e: RemoteEntryView| is_shown(e))
}

/// Whether `a` is listed strictly before `b`: directories before the rest,
/// then by name.
pub open spec fn lists_before(a: RemoteEntryView, b: RemoteEntryView) -> bool {
    let a_dir = a.kind == RemoteKind::Dir;
    let b_dir = b.kind == RemoteKind::Dir;
    (a_dir && !b_dir) || (a_dir == b_dir && text_less(a.name, b.name))
}

/// `x` inserted into `s` before the first element it lists strictly before.
pub open spec fn insert_listed(s: Seq<RemoteEntryView>, x: RemoteEntryView) -> Seq<RemoteEntryView>
    decreases s.len(),
{
    if s.len() == 0 {
        seq![x]
    } else if lists_before(x, s[0]) {
        seq![x] + s
    } else {
        seq![s[0]] + insert_listed(s.drop_first(), x)
    }
}

/// The stable sort of `s` by listing order.
pub open spec fn listing_order(s: Seq<RemoteEntryView>) -> Seq<RemoteEntryView>
    decreases s.len(),
{
    if s.len() == 0 {
        Seq::empty()
    } else {
        insert_listed(listing_order(s.drop_last()), s.last())
    }
}

/// No later entry is listed strictly before an earlier one.
pub open spec fn is_listing_sorted(s: Seq<RemoteEntryView>) -> bool {
    forall|i: int, j: int| 0 <= i < j < s.len() ==> !lists_before(#[trigger] s[j], #[trigger] s[i])
}

fn lists_before_exec(a: &RemoteEntry, b: &RemoteEntry) -> (r: bool)
    ensures
        r == lists_before(a@, b@),
{
    let a_dir = a.kind == RemoteKind::Dir;
    let b_dir = b.kind == RemoteKind::Dir;
    if a_dir && !b_dir {
        true
    } else if a_dir == b_dir {
        text_less_exec(a.name.as_str(), b.name.as_str())
    } else {
        false
    }
}

fn is_shown_exec(e: &RemoteEntry) -> (r: bool)
    ensures
        r == is_shown(e@),
{
    !text_eq(e.name.as_str(), ".") && !text_eq(e.name.as_str(), "..")
}

proof fn lemma_insert_listed_at(s: Seq<RemoteEntryView>, x: RemoteEntryView, j: int)
    requires
        0 <= j <= s.len(),
        forall|m: int| 0 <= m < j ==> !lists_before(x, #[trigger] s[m]),
        j == s.len() || lists_before(x, s[j]),
    ensures
        insert_listed(s, x) == s.insert(j, x),
    decreases j,
{
    if s.len() == 0 {
        assert(s.insert(j, x) =~= seq![x]);
    } else if j == 0 {
        assert(s.insert(0, x) =~= seq![x] + s);
    } else {
        assert(!lists_before(x, s[0]));
        let t = s.drop_first();
        assert forall|m: int| 0 <= m < j - 1 implies !lists_before(x, #[trigger] t[m]) by {
            assert(t[m] == s[m + 1]);
        }
        lemma_insert_listed_at(t, x, j - 1);
        assert(seq![s[0]] + t.insert(j - 1, x) =~= s.insert(j, x));
    }
}

/// A remote directory listing as shown: `.` and `..` dropped, directories
/// first, each group by name, and entries that compare equal in the order
/// they came.
pub fn list_dir(entries: Vec<RemoteEntry>) -> (r: Vec<RemoteEntry>)
    ensures
        entries_view(r@) == listing_order(shown(entries_view(entries@))),
{
    let ghost all = entries_view(entries@);
    let ghost pred = |e: RemoteEntryView| is_shown(e);
    proof {
        reveal(Seq::filter);
        assert(all.take(0).filter(pred) =~= Seq::<RemoteEntryView>::empty());
    }
    let mut kept: Vec<RemoteEntry> = Vec::new();
    for e in it: entries.into_iter()
        invariant
            it.seq() == entries@,
            all == entries_view(entries@),
            pred == (|e: RemoteEntryView| is_shown(e)),
            entries_view(kept@) == all.take(it.index() as int).filter(pred),
    {
        let ghost i = it.index() as int;
        let keep = is_shown_exec(&e);
        proof {
            reveal(Seq::filter);
            let t1 = all.take(i + 1);
            assert(t1.drop_last() =~= all.take(i));
            assert(t1.last() == e@);
            assert(t1.filter(pred) == (if pred(t1.last()) {
                t1.drop_last().filter(pred).push(t1.last())
            } else {
                t1.drop_last().filter(pred)
            }));
        }
        if keep {
            let ghost before = entries_view(kept@);
            kept.push(e);
            assert(entries_view(kept@) =~= before.push(e@));
        }
    }
    proof {
        assert(all.take(all.len() as int) =~= all);
    }
    let ghost filtered = entries_view(kept@);
    let ghost kept_seq = kept@;
    let mut out: Vec<RemoteEntry> = Vec::new();
    for x in it: kept.into_iter()
        invariant
            it.seq() == kept_seq,
            filtered == entries_view(kept_seq),
            entries_view(out@) == listing_order(filtered.take(it.index() as int)),
    {
        let ghost k = it.index() as int;
        let ghost sorted_before = entries_view(out@);
        let mut j: usize = 0;
        while j < out.len() && !lists_before_exec(&x, &out[j])
            invariant
                0 <= j <= out.len(),
                entries_view(out@) == sorted_before,
                forall|m: int| 0 <= m < j ==> !lists_before(x@, #[trigger] sorted_before[m]),
            decreases out.len() - j,
        {
            j += 1;
        }
        proof {
            lemma_insert_listed_at(sorted_before, x@, j as int);
            assert(filtered.take(k + 1).drop_last() =~= filtered.take(k));
            assert(filtered.take(k + 1).last() == x@);
        }
        out.insert(j, x);
        assert(entries_view(out@) =~= sorted_before.insert(j as int, x@));
    }
    proof {
        assert(filtered.take(filtered.len() as int) =~= filtered);
    }
    out
}

/// Listing order is a strict order: never both ways, and transitive.
pub proof fn lemma_lists_before_strict(a: RemoteEntryView, b: RemoteEntryView, c: RemoteEntryView)
    ensures
        lists_before(a, b) ==> !lists_before(b, a),
        lists_before(a, b) && lists_before(b, c) ==> lists_before(a, c),
{
    if text_less(a.name, b.name) {
        crate::text::lemma_text_less_asymmetric(a.name, b.name);
    }
    if text_less(a.name, b.name) && text_less(b.name, c.name) {
        crate::text::lemma_text_less_transitive(a.name, b.name, c.name);
    }
}

proof fn lemma_insert_listed_position(s: Seq<RemoteEntryView>, x: RemoteEntryView) -> (j: int)
    ensures
        0 <= j <= s.len(),
        forall|m: int| 0 <= m < j ==> !lists_before(x, #[trigger] s[m]),
        j == s.len() || lists_before(x, s[j]),
        insert_listed(s, x) == s.insert(j, x),
    decreases s.len(),
{
    if s.len() == 0 {
        assert(s.insert(0, x) =~= seq![x]);
        0
    } else if lists_before(x, s[0]) {
        assert(s.insert(0, x) =~= seq![x] + s);
        0
    } else {
        let t = s.drop_first();
        let k = lemma_insert_listed_position(t, x);
        assert forall|m: int| 0 <= m < k + 1 implies !lists_before(x, #[trigger] s[m]) by {
            if m > 0 {
                assert(s[m] == t[m - 1]);
            }
        }
        assert(seq![s[0]] + t.insert(k, x) =~= s.insert(k + 1, x));
        k + 1
    }
}

proof fn lemma_insert_listed_sorted(s: Seq<RemoteEntryView>, x: RemoteEntryView)
    requires
        is_listing_sorted(s),
    ensures
        is_listing_sorted(insert_listed(s, x)),
        insert_listed(s, x).to_multiset() == s.to_multiset().insert(x),
{
    broadcast use vstd::seq_lib::to_multiset_insert;

    let j = lemma_insert_listed_position(s, x);
    let r = s.insert(j, x);
    assert forall|a: int, b: int| 0 <= a < b < r.len() implies !lists_before(
        #[trigger] r[b],
        #[trigger] r[a],
    ) by {
        if b == j {
            assert(r[a] == s[a]);
        } else if a == j {
            assert(r[b] == s[b - 1]);
            lemma_lists_before_strict(x, s[j], x);
            if b - 1 > j {
                lemma_lists_before_strict(s[b - 1], x, s[j]);
            }
        } else {
            let sa = if a < j { a } else { a - 1 };
            let sb = if b < j { b } else { b - 1 };
            assert(r[a] == s[sa]);
            assert(r[b] == s[sb]);
        }
    }
}

/// A listing in listing order is sorted (directories first, then by name)
/// and holds exactly the entries it was made from.
pub proof fn lemma_listing_order_is_sorted_permutation(s: Seq<RemoteEntryView>)
    ensures
        is_listing_sorted(listing_order(s)),
        listing_order(s).to_multiset() == s.to_multiset(),
    decreases s.len(),
{
    broadcast use vstd::seq_lib::to_multiset_build;

    if s.len() == 0 {
        assert(s =~= Seq::<RemoteEntryView>::empty());
    } else {
        lemma_listing_order_is_sorted_permutation(s.drop_last());
        lemma_insert_listed_sorted(listing_order(s.drop_last()), s.last());
        assert(s =~= s.drop_last().push(s.last()));
        vstd::seq_lib::to_multiset_build(s.drop_last(), s.last());
    }
}

/// No shown entry is named `.` or `..`.
pub proof fn lemma_shown_hides_dot_entries(s: Seq<RemoteEntryView>)
    ensures
        forall|i: int| 0 <= i < shown(s).len() ==> is_shown(#[trigger] shown(s)[i]),
{
    let pred = |e: RemoteEntryView| is_shown(e);
    s.filter_lemma(pred);
    assert forall|i: int| 0 <= i < shown(s).len() implies is_shown(#[trigger] shown(s)[i]) by {
        assert(pred(s.filter(pred)[i]));
    }
}

} // verus!

verus! {

proof fn lemma_shown_count(s: Seq<RemoteEntryView>, e: RemoteEntryView)
    ensures
        shown(s).to_multiset().count(e) == (if is_shown(e) {
            s.to_multiset().count(e)
        } else {
            0
        }),
    decreases s.len(),
{
    broadcast use vstd::seq_lib::group_to_multiset_ensures;
    broadcast use vstd::multiset::group_multiset_axioms;

    reveal(Seq::filter);
    let pred = |x: RemoteEntryView| is_shown(x);
    if s.len() == 0 {
        assert(shown(s) =~= Seq::<RemoteEntryView>::empty());
        assert(!s.contains(e));
        assert(!shown(s).contains(e));
    } else {
        let t = s.drop_last();
        let x = s.last();
        lemma_shown_count(t, e);
        assert(s =~= t.push(x));
        assert(s.filter(pred) == (if pred(x) {
            t.filter(pred).push(x)
        } else {
            t.filter(pred)
        }));
        vstd::seq_lib::to_multiset_build(t, x);
        if pred(x) {
            vstd::seq_lib::to_multiset_build(t.filter(pred), x);
        }
    }
}

/// Listing drops exactly the `.` and `..` entries: any other entry the
/// server sent (hidden files included) is listed as many times as it was
/// sent, and no `.` or `..` entry is listed.
pub proof fn lemma_listing_keeps_all_but_dot_entries(s: Seq<RemoteEntryView>, e: RemoteEntryView)
    ensures
        listing_order(shown(s)).to_multiset().count(e) == (if e.name == seq!['.'] || e.name == seq![
            '.',
            '.',
        ] {
            0
        } else {
            s.to_multiset().count(e)
        }),
{
    reveal_strlit(".");
    reveal_strlit("..");
    assert("."@ =~= seq!['.']);
    assert(".."@ =~= seq!['.', '.']);
    lemma_listing_order_is_sorted_permutation(shown(s));
    lemma_shown_count(s, e);
}

} // verus!
