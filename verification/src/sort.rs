//! The sort policy of a listing: name (natural order), modification time or
//! size, each ascending or descending, plus the stable pass that groups
//! archives before or after plain directories.
//!
//! Sorting is a stable insertion sort, stated exactly: the result equals a
//! spec-level stable sort of the input. Descending orders sort ascending and
//! then reverse.
use vstd::prelude::*;
use crate::natural::{natural_cmp, natural_compare};

verus! {

/// The sort orders a listing can be shown in.
#[derive(Debug, Clone, Copy, PartialEq, Eq, Structural)]
pub enum SortType {
    NameAsc,
    NameDesc,
    DateAsc,
    DateDesc,
    SizeAsc,
    SizeDesc,
}

impl Default for SortType {
    fn default() -> (r: Self)
        ensures
            r == SortType::NameAsc,
    {
        SortType::NameAsc
    }
}

/// The field a `SortType` orders by, with the direction stripped.
#[derive(Debug, Clone, Copy, PartialEq, Eq, Structural)]
pub enum SortField {
    Name,
    Date,
    Size,
}

pub open spec fn base_field(sort: SortType) -> SortField {
    match sort {
        SortType::NameAsc | SortType::NameDesc => SortField::Name,
        SortType::DateAsc | SortType::DateDesc => SortField::Date,
        SortType::SizeAsc | SortType::SizeDesc => SortField::Size,
    }
}

pub open spec fn descending(sort: SortType) -> bool {
    match sort {
        SortType::NameDesc | SortType::DateDesc | SortType::SizeDesc => true,
        _ => false,
    }
}

pub fn sort_field_of(sort: SortType) -> (r: SortField)
    ensures
        r == base_field(sort),
{
    match sort {
        SortType::NameAsc | SortType::NameDesc => SortField::Name,
        SortType::DateAsc | SortType::DateDesc => SortField::Date,
        SortType::SizeAsc | SortType::SizeDesc => SortField::Size,
    }
}

pub fn is_descending(sort: SortType) -> (r: bool)
    ensures
        r == descending(sort),
{
    match sort {
        SortType::NameDesc | SortType::DateDesc | SortType::SizeDesc => true,
        _ => false,
    }
}

/// One entry of a listing while it is being ordered: its display name,
/// whether it is an archive, and the metadata the date and size orders use.
/// A missing modification time sorts before every present one.
#[derive(Debug)]
pub struct ScanEntry {
    pub name: String,
    pub is_archive: bool,
    pub mtime: Option<u64>,
    pub size: u64,
}

pub open spec fn opt_le(a: Option<u64>, b: Option<u64>) -> bool {
    match (a, b) {
        (Option::None, _) => true,
        (Option::Some(_), Option::None) => false,
        (Option::Some(x), Option::Some(y)) => x <= y,
    }
}

/// `a` sorts at or before `b` under the given field.
pub open spec fn entry_le(a: ScanEntry, b: ScanEntry, f: SortField) -> bool {
    match f {
        SortField::Name => natural_cmp(a.name@, b.name@) <= 0,
        SortField::Date => opt_le(a.mtime, b.mtime),
        SortField::Size => a.size <= b.size,
    }
}

/// Strictly-after test, with the totality fact a caller needs: whenever the
/// test fails one way it holds the other way around.
fn entry_gt(a: &ScanEntry, b: &ScanEntry, f: SortField) -> (r: bool)
    ensures
        r == !entry_le(*a, *b, f),
        r ==> entry_le(*b, *a, f),
{
    match f {
        SortField::Name => {
            let c = natural_compare(a.name.as_str(), b.name.as_str());
            c > 0
        },
        SortField::Date => {
            match (&a.mtime, &b.mtime) {
                (Option::None, _) => false,
                (Option::Some(_), Option::None) => true,
                (Option::Some(x), Option::Some(y)) => *x > *y,
            }
        },
        SortField::Size => a.size > b.size,
    }
}

/// Where a stable insertion puts `e`: after every element of `s` except the
/// longest suffix of elements that sort strictly after `e`.
pub open spec fn insert_sorted_spec(s: Seq<ScanEntry>, e: ScanEntry, f: SortField) -> Seq<
    ScanEntry,
>
    decreases s.len(),
{
    if s.len() == 0 {
        seq![e]
    } else if !entry_le(s.last(), e, f) {
        insert_sorted_spec(s.drop_last(), e, f).push(s.last())
    } else {
        s.push(e)
    }
}

/// The stable sort of `s`: elements inserted left to right, so elements the
/// order ties keep their relative order.
pub open spec fn stable_sort_spec(s: Seq<ScanEntry>, f: SortField) -> Seq<ScanEntry>
    decreases s.len(),
{
    if s.len() == 0 {
        Seq::<ScanEntry>::empty()
    } else {
        insert_sorted_spec(stable_sort_spec(s.drop_last(), f), s.last(), f)
    }
}

/// Every element sorts at or before its neighbour.
pub open spec fn sorted_adj(s: Seq<ScanEntry>, f: SortField) -> bool {
    forall|i: int| 0 <= i < s.len() - 1 ==> entry_le(#[trigger] s[i], s[i + 1], f)
}

proof fn lemma_insert_at(s: Seq<ScanEntry>, e: ScanEntry, f: SortField, j: int)
    requires
        0 <= j <= s.len(),
        forall|m: int| j <= m < s.len() ==> !entry_le(#[trigger] s[m], e, f),
        j > 0 ==> entry_le(s[j - 1], e, f),
    ensures
        insert_sorted_spec(s, e, f) == s.subrange(0, j) + seq![e] + s.subrange(
            j,
            s.len() as int,
        ),
    decreases s.len(),
{
    if s.len() == 0 {
        assert(insert_sorted_spec(s, e, f) =~= s.subrange(0, j) + seq![e] + s.subrange(
            j,
            s.len() as int,
        ));
    } else if j == s.len() {
        assert(entry_le(s.last(), e, f));
        assert(insert_sorted_spec(s, e, f) =~= s.subrange(0, j) + seq![e] + s.subrange(
            j,
            s.len() as int,
        ));
    } else {
        assert(!entry_le(s.last(), e, f));
        lemma_insert_at(s.drop_last(), e, f, j);
        assert(insert_sorted_spec(s, e, f) =~= s.subrange(0, j) + seq![e] + s.subrange(
            j,
            s.len() as int,
        ));
    }
}

/// Inserts `e` into the already-sorted `out`, keeping it sorted and matching
/// the spec-level insertion exactly.
fn insert_sorted(out: &mut Vec<ScanEntry>, e: ScanEntry, f: SortField)
    requires
        sorted_adj(old(out)@, f),
    ensures
        final(out)@ == insert_sorted_spec(old(out)@, e, f),
        sorted_adj(final(out)@, f),
{
    let ghost s = out@;
    let mut j = out.len();
    loop
        invariant
            j <= out.len(),
            out@ == s,
            sorted_adj(s, f),
            forall|m: int| j <= m < s.len() ==> !entry_le(#[trigger] s[m], e, f),
            forall|m: int| j <= m < s.len() ==> entry_le(e, #[trigger] s[m], f),
        ensures
            out@ == s,
            j <= s.len(),
            forall|m: int| j <= m < s.len() ==> !entry_le(#[trigger] s[m], e, f),
            forall|m: int| j <= m < s.len() ==> entry_le(e, #[trigger] s[m], f),
            j > 0 ==> entry_le(s[j - 1], e, f),
        decreases j,
    {
        if j == 0 {
            break;
        }
        let above = entry_gt(&out[j - 1], &e, f);
        if !above {
            break;
        }
        j = j - 1;
    }
    proof {
        lemma_insert_at(s, e, f, j as int);
    }
    out.insert(j, e);
    proof {
        assert(out@ =~= s.subrange(0, j as int) + seq![e] + s.subrange(j as int, s.len() as int));
        let t = out@;
        assert forall|i: int| 0 <= i < t.len() - 1 implies entry_le(#[trigger] t[i], t[i + 1], f) by {
            if i + 1 < j {
                assert(t[i] == s[i] && t[i + 1] == s[i + 1]);
            } else if i + 1 == j {
                assert(t[i] == s[i] && t[i + 1] == e);
            } else if i == j {
                assert(t[i] == e && t[i + 1] == s[i]);
            } else {
                assert(t[i] == s[i - 1] && t[i + 1] == s[i]);
            }
        }
    }
}

/// Stable sort of a listing by one field: the result is exactly the
/// spec-level stable sort, and neighbours are in order.
pub fn sort_entries(v: Vec<ScanEntry>, f: SortField) -> (r: Vec<ScanEntry>)
    ensures
        r@ == stable_sort_spec(v@, f),
        sorted_adj(r@, f),
{
    let ghost orig = v@;
    let mut rest = v;
    let mut out: Vec<ScanEntry> = Vec::new();
    let ghost k: int = 0;
    while rest.len() > 0
        invariant
            0 <= k <= orig.len(),
            rest@ == orig.subrange(k, orig.len() as int),
            out@ == stable_sort_spec(orig.subrange(0, k), f),
            sorted_adj(out@, f),
        decreases rest@.len(),
    {
        let e = rest.remove(0);
        proof {
            assert(e == orig[k]);
            assert(rest@ =~= orig.subrange(k + 1, orig.len() as int));
        }
        insert_sorted(&mut out, e, f);
        proof {
            assert(orig.subrange(0, k + 1).drop_last() =~= orig.subrange(0, k));
            assert(orig.subrange(0, k + 1).last() == orig[k]);
        }
        proof {
            k = k + 1;
        }
    }
    proof {
        assert(orig.subrange(0, orig.len() as int) =~= orig);
    }
    out
}

/// Reverses a listing in place.
pub fn reverse_entries(v: &mut Vec<ScanEntry>)
    ensures
        final(v)@ == old(v)@.reverse(),
{
    let ghost orig = old(v)@;
    let mut out: Vec<ScanEntry> = Vec::new();
    while v.len() > 0
        invariant
            v@ == orig.subrange(0, orig.len() - out@.len()),
            out@.len() <= orig.len(),
            forall|i: int|
                0 <= i < out@.len() ==> out@[i] == orig[orig.len() - 1 - i],
        decreases v@.len(),
    {
        let e = v.pop().unwrap();
        out.push(e);
        proof {
            assert(v@ =~= orig.subrange(0, orig.len() - out@.len()));
        }
    }
    *v = out;
    proof {
        assert(v@ =~= orig.reverse());
    }
}

/// The listing ordered by `sort`: the stable sort by its field, reversed
/// when the order is descending.
pub open spec fn sorted_listing_spec(s: Seq<ScanEntry>, sort: SortType) -> Seq<ScanEntry> {
    if descending(sort) {
        stable_sort_spec(s, base_field(sort)).reverse()
    } else {
        stable_sort_spec(s, base_field(sort))
    }
}

pub fn sort_listing(v: Vec<ScanEntry>, sort: SortType) -> (r: Vec<ScanEntry>)
    ensures
        r@ == sorted_listing_spec(v@, sort),
        sorted_adj(stable_sort_spec(v@, base_field(sort)), base_field(sort)),
        !descending(sort) ==> sorted_adj(r@, base_field(sort)),
{
    let f = sort_field_of(sort);
    let mut sorted = sort_entries(v, f);
    if is_descending(sort) {
        let ghost asc = sorted@;
        reverse_entries(&mut sorted);
        proof {
            assert(sorted@.reverse() =~= asc);
        }
    }
    sorted
}

/// The stable grouping pass over a container listing: archives first when
/// `archives_on_top`, plain directories first otherwise, each group keeping
/// the order the sort gave it.
pub open spec fn group_containers_spec(s: Seq<ScanEntry>, archives_on_top: bool) -> Seq<
    ScanEntry,
> {
    if archives_on_top {
        s.filter(|e: ScanEntry| e.is_archive) + s.filter(|e: ScanEntry| !e.is_archive)
    } else {
        s.filter(|e: ScanEntry| !e.is_archive) + s.filter(|e: ScanEntry| e.is_archive)
    }
}

pub(crate) proof fn lemma_filter_push<A>(s: Seq<A>, pred: spec_fn(A) -> bool, e: A)
    ensures
        s.push(e).filter(pred) == if pred(e) {
            s.filter(pred).push(e)
        } else {
            s.filter(pred)
        },
{
    reveal(Seq::filter);
    assert(s.push(e).drop_last() =~= s);
    if pred(e) {
        assert(s.push(e).filter(pred) =~= s.filter(pred).push(e));
    }
}

pub fn group_containers(v: Vec<ScanEntry>, archives_on_top: bool) -> (r: Vec<ScanEntry>)
    ensures
        r@ == group_containers_spec(v@, archives_on_top),
{
    let ghost orig = v@;
    let mut rest = v;
    let mut first: Vec<ScanEntry> = Vec::new();
    let mut second: Vec<ScanEntry> = Vec::new();
    let ghost k: int = 0;
    while rest.len() > 0
        invariant
            0 <= k <= orig.len(),
            rest@ == orig.subrange(k, orig.len() as int),
            archives_on_top ==> first@ == orig.subrange(0, k).filter(
                |e: ScanEntry| e.is_archive,
            ) && second@ == orig.subrange(0, k).filter(|e: ScanEntry| !e.is_archive),
            !archives_on_top ==> first@ == orig.subrange(0, k).filter(
                |e: ScanEntry| !e.is_archive,
            ) && second@ == orig.subrange(0, k).filter(|e: ScanEntry| e.is_archive),
        decreases rest@.len(),
    {
        let e = rest.remove(0);
        proof {
            assert(e == orig[k]);
            assert(rest@ =~= orig.subrange(k + 1, orig.len() as int));
            assert(orig.subrange(0, k + 1) =~= orig.subrange(0, k).push(orig[k]));
            lemma_filter_push(orig.subrange(0, k), |x: ScanEntry| x.is_archive, orig[k]);
            lemma_filter_push(orig.subrange(0, k), |x: ScanEntry| !x.is_archive, orig[k]);
        }
        let goes_first = if archives_on_top {
            e.is_archive
        } else {
            !e.is_archive
        };
        if goes_first {
            first.push(e);
        } else {
            second.push(e);
        }
        proof {
            k = k + 1;
        }
    }
    proof {
        assert(orig.subrange(0, orig.len() as int) =~= orig);
    }
    let mut out = first;
    out.append(&mut second);
    out
}

/// The grouping pass only regroups: each group of the result is exactly the
/// matching subsequence of its input, in the input's order, whichever way
/// the flag points.
pub proof fn lemma_grouping_preserves_group_order(s: Seq<ScanEntry>, archives_on_top: bool)
    ensures
        group_containers_spec(s, archives_on_top).filter(|e: ScanEntry| e.is_archive) == s.filter(
            |e: ScanEntry| e.is_archive,
        ),
        group_containers_spec(s, archives_on_top).filter(|e: ScanEntry| !e.is_archive) == s.filter(
            |e: ScanEntry| !e.is_archive,
        ),
{
    broadcast use vstd::seq_lib::group_filter_ensures;

    let arch = |e: ScanEntry| e.is_archive;
    let dir = |e: ScanEntry| !e.is_archive;
    Seq::filter_distributes_over_add(s.filter(arch), s.filter(dir), arch);
    Seq::filter_distributes_over_add(s.filter(arch), s.filter(dir), dir);
    Seq::filter_distributes_over_add(s.filter(dir), s.filter(arch), arch);
    Seq::filter_distributes_over_add(s.filter(dir), s.filter(arch), dir);
    lemma_filter_all(s.filter(arch), arch);
    lemma_filter_none(s.filter(arch), dir);
    lemma_filter_all(s.filter(dir), dir);
    lemma_filter_none(s.filter(dir), arch);
    assert(group_containers_spec(s, archives_on_top).filter(arch) =~= s.filter(arch));
    assert(group_containers_spec(s, archives_on_top).filter(dir) =~= s.filter(dir));
}

/// Filtering by a predicate every element satisfies keeps the sequence.
proof fn lemma_filter_all<A>(s: Seq<A>, pred: spec_fn(A) -> bool)
    requires
        forall|i: int| 0 <= i < s.len() ==> pred(#[trigger] s[i]),
    ensures
        s.filter(pred) == s,
    decreases s.len(),
{
    reveal(Seq::filter);
    if s.len() > 0 {
        lemma_filter_all(s.drop_last(), pred);
        assert(s.filter(pred) =~= s);
    }
}

/// Filtering by a predicate no element satisfies empties the sequence.
proof fn lemma_filter_none<A>(s: Seq<A>, pred: spec_fn(A) -> bool)
    requires
        forall|i: int| 0 <= i < s.len() ==> !pred(#[trigger] s[i]),
    ensures
        s.filter(pred) == Seq::<A>::empty(),
    decreases s.len(),
{
    reveal(Seq::filter);
    if s.len() > 0 {
        lemma_filter_none(s.drop_last(), pred);
        assert(s.filter(pred) =~= Seq::<A>::empty());
    }
}

/// Insertion only adds the inserted element, as a multiset.
pub proof fn lemma_insert_multiset(s: Seq<ScanEntry>, e: ScanEntry, f: SortField)
    ensures
        insert_sorted_spec(s, e, f).to_multiset() == s.to_multiset().insert(e),
    decreases s.len(),
{
    broadcast use vstd::seq_lib::group_to_multiset_ensures;

    if s.len() == 0 {
        assert(seq![e] =~= Seq::<ScanEntry>::empty().push(e));
        assert(insert_sorted_spec(s, e, f).to_multiset() =~= s.to_multiset().insert(e));
    } else if !entry_le(s.last(), e, f) {
        lemma_insert_multiset(s.drop_last(), e, f);
        assert(s.drop_last().push(s.last()) =~= s);
        assert(insert_sorted_spec(s, e, f).to_multiset() =~= s.to_multiset().insert(e)) by {
            assert(insert_sorted_spec(s, e, f).to_multiset() == insert_sorted_spec(
                s.drop_last(),
                e,
                f,
            ).to_multiset().insert(s.last()));
            assert(s.to_multiset() == s.drop_last().to_multiset().insert(s.last()));
        }
    } else {
        assert(insert_sorted_spec(s, e, f).to_multiset() =~= s.to_multiset().insert(e));
    }
}

/// The stable sort permutes its input: nothing is added and nothing is
/// lost.
pub proof fn lemma_stable_sort_permutes(s: Seq<ScanEntry>, f: SortField)
    ensures
        stable_sort_spec(s, f).to_multiset() == s.to_multiset(),
    decreases s.len(),
{
    broadcast use vstd::seq_lib::group_to_multiset_ensures;

    if s.len() > 0 {
        lemma_stable_sort_permutes(s.drop_last(), f);
        lemma_insert_multiset(stable_sort_spec(s.drop_last(), f), s.last(), f);
        assert(s.drop_last().push(s.last()) =~= s);
        assert(s.to_multiset() == s.drop_last().to_multiset().insert(s.last()));
    }
}

/// The date and size orders are transitive (the name order is opaque, so
/// nothing of the kind is stated for it).
pub open spec fn transitive_field(f: SortField) -> bool {
    f == SortField::Date || f == SortField::Size
}

/// Under a transitive order, neighbour-sortedness is whole-list
/// sortedness.
pub proof fn lemma_sorted_adj_is_global(s: Seq<ScanEntry>, f: SortField)
    requires
        transitive_field(f),
        sorted_adj(s, f),
    ensures
        forall|i: int, j: int| 0 <= i <= j < s.len() ==> entry_le(#[trigger] s[i], #[trigger] s[j], f),
{
    assert forall|i: int, j: int|
        0 <= i <= j < s.len() implies entry_le(#[trigger] s[i], #[trigger] s[j], f) by {
        lemma_le_chain(s, f, i, j);
    }
}

proof fn lemma_le_chain(s: Seq<ScanEntry>, f: SortField, i: int, j: int)
    requires
        transitive_field(f),
        sorted_adj(s, f),
        0 <= i <= j < s.len(),
    ensures
        entry_le(s[i], s[j], f),
    decreases j - i,
{
    if i < j {
        lemma_le_chain(s, f, i, j - 1);
        assert(entry_le(s[j - 1], s[j], f));
    }
}

/// Under a transitive order, every subsequence kept by a filter stays
/// sorted: with the date or size order active, both groups of the grouping
/// pass are themselves sorted.
pub proof fn lemma_filter_keeps_sorted(s: Seq<ScanEntry>, f: SortField, pred: spec_fn(ScanEntry) -> bool)
    requires
        transitive_field(f),
        sorted_adj(s, f),
    ensures
        sorted_adj(s.filter(pred), f),
    decreases s.len(),
{
    reveal(Seq::filter);
    if s.len() > 0 {
        assert(sorted_adj(s.drop_last(), f)) by {
            assert(forall|i: int| 0 <= i < s.len() - 1 ==> s.drop_last()[i] == s[i]);
        }
        lemma_filter_keeps_sorted(s.drop_last(), f, pred);
        let rec = s.drop_last().filter(pred);
        if pred(s.last()) && rec.len() > 0 {
            // the last kept element is somewhere in the prefix: it sorts at
            // or before the pushed last element by transitivity
            lemma_filter_last_le(s, f, pred);
            assert forall|i: int|
                0 <= i < s.filter(pred).len() - 1 implies entry_le(
                #[trigger] s.filter(pred)[i],
                s.filter(pred)[i + 1],
                f,
            ) by {
                if i + 1 < rec.len() {
                    assert(s.filter(pred)[i] == rec[i] && s.filter(pred)[i + 1] == rec[i + 1]);
                } else {
                    assert(s.filter(pred)[i] == rec[rec.len() - 1] && s.filter(pred)[i + 1]
                        == s.last());
                }
            }
        }
    }
}

/// Every element a filter keeps sorts at or before the sequence's last
/// element, under a transitive order.
proof fn lemma_filter_last_le(s: Seq<ScanEntry>, f: SortField, pred: spec_fn(ScanEntry) -> bool)
    requires
        transitive_field(f),
        sorted_adj(s, f),
        s.len() > 0,
    ensures
        forall|i: int|
            0 <= i < s.drop_last().filter(pred).len() ==> entry_le(
                #[trigger] s.drop_last().filter(pred)[i],
                s.last(),
                f,
            ),
{
    lemma_sorted_adj_is_global(s, f);
    let kept = s.drop_last().filter(pred);
    assert forall|i: int|
        0 <= i < kept.len() implies entry_le(#[trigger] kept[i], s.last(), f) by {
        lemma_filter_element_from(s.drop_last(), pred, i);
        let j = choose|j: int|
            0 <= j < s.drop_last().len() && s.drop_last()[j] == kept[i];
        assert(s[j] == kept[i]);
        assert(entry_le(s[j], s[s.len() - 1], f));
    }
}

/// Every filtered element comes from the input.
proof fn lemma_filter_element_from<A>(s: Seq<A>, pred: spec_fn(A) -> bool, i: int)
    requires
        0 <= i < s.filter(pred).len(),
    ensures
        exists|j: int| 0 <= j < s.len() && s[j] == s.filter(pred)[i],
    decreases s.len(),
{
    reveal(Seq::filter);
    if s.len() > 0 {
        let rec = s.drop_last().filter(pred);
        if i < rec.len() {
            lemma_filter_element_from(s.drop_last(), pred, i);
            let j = choose|j: int| 0 <= j < s.drop_last().len() && s.drop_last()[j] == rec[i];
            assert(s[j] == s.filter(pred)[i]);
        } else {
            assert(s.filter(pred)[i] == s.last());
            assert(s[s.len() - 1] == s.filter(pred)[i]);
        }
    }
}

/// The date and size orders are total.
proof fn lemma_le_total(a: ScanEntry, b: ScanEntry, f: SortField)
    requires
        transitive_field(f),
    ensures
        entry_le(a, b, f) || entry_le(b, a, f),
{
}

/// An insertion grows the length by one and ends in the inserted element
/// or in the old last element.
proof fn lemma_insert_last(s: Seq<ScanEntry>, e: ScanEntry, f: SortField)
    ensures
        insert_sorted_spec(s, e, f).len() == s.len() + 1,
        insert_sorted_spec(s, e, f).last() == e || (s.len() > 0 && insert_sorted_spec(
            s,
            e,
            f,
        ).last() == s.last()),
    decreases s.len(),
{
    if s.len() > 0 && !entry_le(s.last(), e, f) {
        lemma_insert_last(s.drop_last(), e, f);
    }
}

/// Under a total order, insertion keeps a sorted listing sorted — proved
/// outright for the date and size orders, whose comparison is arithmetic.
proof fn lemma_insert_keeps_sorted_tr(s: Seq<ScanEntry>, e: ScanEntry, f: SortField)
    requires
        transitive_field(f),
        sorted_adj(s, f),
    ensures
        sorted_adj(insert_sorted_spec(s, e, f), f),
    decreases s.len(),
{
    lemma_insert_last(s, e, f);
    if s.len() == 0 {
    } else if entry_le(s.last(), e, f) {
        let t = s.push(e);
        assert forall|i: int| 0 <= i < t.len() - 1 implies entry_le(#[trigger] t[i], t[i + 1], f) by {
            if i + 1 < s.len() {
                assert(t[i] == s[i] && t[i + 1] == s[i + 1]);
            } else {
                assert(t[i] == s.last() && t[i + 1] == e);
            }
        }
    } else {
        assert(sorted_adj(s.drop_last(), f)) by {
            assert(forall|i: int| 0 <= i < s.len() - 1 ==> s.drop_last()[i] == s[i]);
        }
        lemma_insert_keeps_sorted_tr(s.drop_last(), e, f);
        lemma_insert_last(s.drop_last(), e, f);
        let r0 = insert_sorted_spec(s.drop_last(), e, f);
        let t = r0.push(s.last());
        lemma_le_total(s.last(), e, f);
        assert forall|i: int| 0 <= i < t.len() - 1 implies entry_le(#[trigger] t[i], t[i + 1], f) by {
            if i + 1 < r0.len() {
                assert(t[i] == r0[i] && t[i + 1] == r0[i + 1]);
            } else {
                assert(t[i] == r0.last() && t[i + 1] == s.last());
                if r0.last() == e {
                    assert(entry_le(e, s.last(), f));
                } else {
                    assert(r0.last() == s.drop_last().last());
                    assert(entry_le(s[s.len() - 2], s[s.len() - 1], f));
                }
            }
        }
    }
}

/// Under the date or size order the stable sort is provably sorted, with
/// nothing taken on trust: the comparison is plain arithmetic.
pub proof fn lemma_stable_sort_sorted_tr(s: Seq<ScanEntry>, f: SortField)
    requires
        transitive_field(f),
    ensures
        sorted_adj(stable_sort_spec(s, f), f),
    decreases s.len(),
{
    if s.len() > 0 {
        lemma_stable_sort_sorted_tr(s.drop_last(), f);
        lemma_insert_keeps_sorted_tr(stable_sort_spec(s.drop_last(), f), s.last(), f);
    }
}

/// Every element of `s` satisfies `p`.
pub open spec fn all_of<A>(s: Seq<A>, p: spec_fn(A) -> bool) -> bool {
    forall|i: int| 0 <= i < s.len() ==> p(#[trigger] s[i])
}

/// Insertion adds only the inserted element: a property of every input
/// element and of the inserted one holds of every output element.
pub proof fn lemma_insert_preserves_all(
    s: Seq<ScanEntry>,
    e: ScanEntry,
    f: SortField,
    p: spec_fn(ScanEntry) -> bool,
)
    requires
        all_of(s, p),
        p(e),
    ensures
        all_of(insert_sorted_spec(s, e, f), p),
    decreases s.len(),
{
    if s.len() == 0 {
    } else if !entry_le(s.last(), e, f) {
        lemma_insert_preserves_all(s.drop_last(), e, f, p);
        let rec = insert_sorted_spec(s.drop_last(), e, f);
        assert forall|i: int|
            0 <= i < insert_sorted_spec(s, e, f).len() implies p(
            #[trigger] insert_sorted_spec(s, e, f)[i],
        ) by {
            if i < rec.len() {
                assert(insert_sorted_spec(s, e, f)[i] == rec[i]);
            } else {
                assert(insert_sorted_spec(s, e, f)[i] == s.last());
            }
        }
    } else {
        assert forall|i: int|
            0 <= i < insert_sorted_spec(s, e, f).len() implies p(
            #[trigger] insert_sorted_spec(s, e, f)[i],
        ) by {
            if i < s.len() {
                assert(insert_sorted_spec(s, e, f)[i] == s[i]);
            } else {
                assert(insert_sorted_spec(s, e, f)[i] == e);
            }
        }
    }
}

/// The stable sort permutes: a property of every input element holds of
/// every output element.
pub proof fn lemma_sort_preserves_all(s: Seq<ScanEntry>, f: SortField, p: spec_fn(ScanEntry) -> bool)
    requires
        all_of(s, p),
    ensures
        all_of(stable_sort_spec(s, f), p),
    decreases s.len(),
{
    if s.len() > 0 {
        assert(all_of(s.drop_last(), p)) by {
            assert(forall|i: int| 0 <= i < s.len() - 1 ==> s.drop_last()[i] == s[i]);
        }
        lemma_sort_preserves_all(s.drop_last(), f, p);
        lemma_insert_preserves_all(stable_sort_spec(s.drop_last(), f), s.last(), f, p);
    }
}

/// Filtering keeps only input elements.
pub proof fn lemma_filter_preserves_all<A>(s: Seq<A>, pred: spec_fn(A) -> bool, p: spec_fn(A) -> bool)
    requires
        all_of(s, p),
    ensures
        all_of(s.filter(pred), p),
    decreases s.len(),
{
    reveal(Seq::filter);
    if s.len() > 0 {
        assert(all_of(s.drop_last(), p)) by {
            assert(forall|i: int| 0 <= i < s.len() - 1 ==> s.drop_last()[i] == s[i]);
        }
        lemma_filter_preserves_all(s.drop_last(), pred, p);
        let rec = s.drop_last().filter(pred);
        assert forall|i: int| 0 <= i < s.filter(pred).len() implies p(#[trigger] s.filter(pred)[i]) by {
            if pred(s.last()) {
                assert(s.filter(pred) == rec.push(s.last()));
                if i < rec.len() {
                    assert(s.filter(pred)[i] == rec[i]);
                } else {
                    assert(s.filter(pred)[i] == s.last());
                }
            } else {
                assert(s.filter(pred) == rec);
            }
        }
    }
}

/// Flipping `archives_on_top` swaps the two groups whole and changes
/// nothing inside either group.
pub proof fn lemma_grouping_flag_only_swaps_groups(s: Seq<ScanEntry>)
    ensures
        group_containers_spec(s, true) == s.filter(|e: ScanEntry| e.is_archive) + s.filter(
            |e: ScanEntry| !e.is_archive,
        ),
        group_containers_spec(s, false) == s.filter(|e: ScanEntry| !e.is_archive) + s.filter(
            |e: ScanEntry| e.is_archive,
        ),
{
}

} // verus!
