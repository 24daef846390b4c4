//! Stable sorting of payloads by numeric key pairs, contiguous partitioning
//! of chapter lists, and flattening — the list machinery that the collection
//! and structuring stages share.
//!
//! A sort key pair holds a primary and a secondary optional numeric key.
//! Two orders exist: the plain numeric order sorts a missing key before
//! every key, while the volume-chapter order treats an absent or
//! unparseable volume key as a no-op for ordering.  Sorting is stable:
//! elements that do not order strictly keep their original relative order.

use vstd::prelude::*;

use crate::error::Error;
use crate::sortkey::{cmp_opt_keys, opt_key_lt, opt_key_view, SortKey};

verus! {

/// The ghost image of one optional key: its canonical digit strings.
pub type KeyView = Option<(Seq<char>, Seq<char>)>;

/// A pair of optional keys: primary and secondary.
pub type SortPairKey = (Option<SortKey>, Option<SortKey>);

/// The ghost image of a key pair.
pub open spec fn pair_key_view(k: SortPairKey) -> (KeyView, KeyView) {
    (opt_key_view(k.0), opt_key_view(k.1))
}

/// Numeric order of key pairs: primary keys first, secondary keys break
/// ties; a missing key sorts before every key.
pub open spec fn kv_lt(a: (KeyView, KeyView), b: (KeyView, KeyView)) -> bool {
    opt_key_lt(a.0, b.0) || (a.0 == b.0 && opt_key_lt(a.1, b.1))
}

/// Volume-chapter order of key pairs: comparable only where both volume
/// keys parsed — an absent or unparseable volume key is a no-op for
/// ordering, so such a pair sorts strictly below nothing and stays where
/// it is under a stable sort.
pub open spec fn vc_lt(a: (KeyView, KeyView), b: (KeyView, KeyView)) -> bool {
    a.0 is Some && b.0 is Some && kv_lt(a, b)
}

/// Which of the two key-pair orders a sort follows.
#[derive(Debug, Clone, Copy, PartialEq, Eq, Structural)]
pub enum KeyOrder {
    /// Plain numeric order, missing keys first.
    Numeric,
    /// Volume-chapter order, unparseable volume keys a no-op.
    VolumeChapter,
}

/// The strict order selected by `order`.
pub open spec fn order_lt(order: KeyOrder, a: (KeyView, KeyView), b: (KeyView, KeyView)) -> bool {
    match order {
        KeyOrder::Numeric => kv_lt(a, b),
        KeyOrder::VolumeChapter => vc_lt(a, b),
    }
}

/// Whether `a` sorts strictly below `b` under the selected order.
pub fn lt_by(order: KeyOrder, a: &SortPairKey, b: &SortPairKey) -> (r: bool)
    ensures
        r == order_lt(order, pair_key_view(*a), pair_key_view(*b)),
{
    let keys_lt = matches!(cmp_pair_keys(a, b), core::cmp::Ordering::Less);
    match order {
        KeyOrder::Numeric => keys_lt,
        KeyOrder::VolumeChapter => a.0.is_some() && b.0.is_some() && keys_lt,
    }
}

/// Compares two key pairs.
pub fn cmp_pair_keys(a: &SortPairKey, b: &SortPairKey) -> (r: core::cmp::Ordering)
    ensures
        (r == core::cmp::Ordering::Less) == kv_lt(pair_key_view(*a), pair_key_view(*b)),
        (r == core::cmp::Ordering::Greater) == kv_lt(pair_key_view(*b), pair_key_view(*a)),
        (r == core::cmp::Ordering::Equal) == (pair_key_view(*a) == pair_key_view(*b)),
{
    match cmp_opt_keys(&a.0, &b.0) {
        core::cmp::Ordering::Less => core::cmp::Ordering::Less,
        core::cmp::Ordering::Greater => core::cmp::Ordering::Greater,
        core::cmp::Ordering::Equal => cmp_opt_keys(&a.1, &b.1),
    }
}

/// Inserts `x` into `s` before the first element that `x` sorts strictly
/// below — after every element it does not, which keeps the sort stable.
pub open spec fn spec_insert_sorted<T>(
    order: KeyOrder,
    x: ((KeyView, KeyView), T),
    s: Seq<((KeyView, KeyView), T)>,
) -> Seq<((KeyView, KeyView), T)>
    decreases s.len(),
{
    if s.len() == 0 {
        seq![x]
    } else if order_lt(order, x.0, s[0].0) {
        seq![x] + s
    } else {
        seq![s[0]] + spec_insert_sorted(order, x, s.drop_first())
    }
}

/// Stable insertion sort of key/payload pairs under the selected order,
/// processing left to right.
pub open spec fn spec_sort_pairs<T>(order: KeyOrder, s: Seq<((KeyView, KeyView), T)>) -> Seq<
    ((KeyView, KeyView), T),
>
    decreases s.len(),
{
    if s.len() == 0 {
        Seq::empty()
    } else {
        spec_insert_sorted(order, s.last(), spec_sort_pairs(order, s.drop_last()))
    }
}

/// Where the insertion lands: before the first element strictly above `x`.
proof fn lemma_insert_sorted_at<T>(
    order: KeyOrder,
    x: ((KeyView, KeyView), T),
    s: Seq<((KeyView, KeyView), T)>,
    p: int,
)
    requires
        0 <= p <= s.len(),
        forall|j: int| 0 <= j < p ==> !order_lt(order, x.0, #[trigger] s[j].0),
        p < s.len() ==> order_lt(order, x.0, s[p].0),
    ensures
        spec_insert_sorted(order, x, s) == s.take(p) + seq![x] + s.skip(p),
    decreases p,
{
    if p == 0 {
        if s.len() == 0 {
            assert(spec_insert_sorted(order, x, s) =~= s.take(0) + seq![x] + s.skip(0));
        } else {
            assert(spec_insert_sorted(order, x, s) =~= s.take(0) + seq![x] + s.skip(0));
        }
    } else {
        let sub = s.drop_first();
        assert forall|j: int| 0 <= j < p - 1 implies !order_lt(order, x.0, #[trigger] sub[j].0) by {
            assert(sub[j] == s[j + 1]);
        }
        lemma_insert_sorted_at(order, x, sub, p - 1);
        assert(seq![s[0]] + (sub.take(p - 1) + seq![x] + sub.skip(p - 1)) =~= s.take(p) + seq![x]
            + s.skip(p));
    }
}

/// The view of a key/payload vector.
pub open spec fn pairs_view<T>(s: Seq<(SortPairKey, T)>) -> Seq<((KeyView, KeyView), T)> {
    s.map_values(|p: (SortPairKey, T)| (pair_key_view(p.0), p.1))
}

/// Stable sort of payloads by their key pairs, under the selected order.
pub fn sort_pairs<T>(order: KeyOrder, items: Vec<(SortPairKey, T)>) -> (r: Vec<(SortPairKey, T)>)
    ensures
        pairs_view(r@) == spec_sort_pairs(order, pairs_view(items@)),
{
    let ghost orig: Seq<(SortPairKey, T)> = items@;
    let total = items.len();
    let mut items = items;
    let mut r: Vec<(SortPairKey, T)> = Vec::new();
    let mut taken: usize = 0;
    proof {
        assert(orig.len() == total);
        assert(pairs_view(orig.take(0)) =~= Seq::<((KeyView, KeyView), T)>::empty());
        assert(pairs_view(r@) =~= spec_sort_pairs(order, pairs_view(orig.take(0))));
        assert(items@ =~= orig.skip(0));
    }
    while items.len() > 0
        invariant
            taken <= orig.len(),
            orig.len() == total,
            items@ == orig.skip(taken as int),
            pairs_view(r@) == spec_sort_pairs(order, pairs_view(orig.take(taken as int))),
        decreases items@.len(),
    {
        let x = items.remove(0);
        proof {
            assert(orig.skip(taken as int).remove(0) =~= orig.skip(taken as int + 1));
            assert(x == orig[taken as int]);
        }
        // Find the first position whose key x's sorts strictly below.
        let mut p: usize = 0;
        while p < r.len() && !lt_by(order, &x.0, &r[p].0)
            invariant
                p <= r@.len(),
                forall|j: int|
                    0 <= j < p ==> !order_lt(
                        order,
                        pair_key_view(x.0),
                        #[trigger] pairs_view(r@)[j].0,
                    ),
            decreases r@.len() - p,
        {
            p = p + 1;
        }
        proof {
            lemma_insert_sorted_at(
                order,
                (pair_key_view(x.0), x.1),
                pairs_view(r@),
                p as int,
            );
        }
        let ghost r_before = r@;
        r.insert(p, x);
        proof {
            assert(pairs_view(r@) =~= pairs_view(r_before).take(p as int) + seq![
                (pair_key_view(x.0), x.1),
            ] + pairs_view(r_before).skip(p as int)) by {
                assert(r@ == r_before.insert(p as int, x));
                assert forall|j: int| 0 <= j < r@.len() implies pairs_view(r@)[j] == (
                pairs_view(r_before).take(p as int) + seq![(pair_key_view(x.0), x.1)] + pairs_view(
                    r_before,
                ).skip(p as int))[j] by {
                    if j < p {
                        assert(r@[j] == r_before[j]);
                    } else if j == p {
                        assert(r@[j] == x);
                    } else {
                        assert(r@[j] == r_before[j - 1]);
                    }
                }
            }
            assert(pairs_view(orig.take(taken as int + 1)).drop_last() =~= pairs_view(
                orig.take(taken as int),
            ));
            assert(pairs_view(orig.take(taken as int + 1)).last() == (pair_key_view(x.0), x.1));
            assert(pairs_view(r@) == spec_sort_pairs(
                order,
                pairs_view(orig.take(taken as int + 1)),
            ));
        }
        taken = taken + 1;
    }
    proof {
        assert(orig.take(orig.len() as int) =~= orig);
    }
    r
}

/// Whether the counts fit the number of items: each prefix sum stays within
/// the total.
pub open spec fn counts_fit(counts: Seq<usize>, total: int) -> bool
    decreases counts.len(),
{
    counts.len() == 0 || (counts[0] <= total && counts_fit(counts.drop_first(), total - counts[0]))
}

/// The contiguous partition of `items` into groups of the given sizes.
/// Items beyond the sum of the counts belong to no group.
pub open spec fn spec_partition<T>(items: Seq<T>, counts: Seq<usize>) -> Seq<Seq<T>>
    decreases counts.len(),
{
    if counts.len() == 0 {
        Seq::empty()
    } else {
        seq![items.take(counts[0] as int)] + spec_partition(
            items.skip(counts[0] as int),
            counts.drop_first(),
        )
    }
}

/// Splits `items` into contiguous groups of the given sizes.  Fails exactly
/// when the counts overrun the available items.
pub fn partition_by_counts<T>(items: Vec<T>, counts: &Vec<usize>) -> (r: Result<
    Vec<Vec<T>>,
    Error,
>)
    ensures
        r is Ok <==> counts_fit(counts@, items@.len() as int),
        r matches Ok(v) ==> v@.map_values(|g: Vec<T>| g@) == spec_partition(items@, counts@),
        r matches Err(e) ==> e matches Error::Other(m) && m@
            == "volume sizes exceed available chapters"@,
{
    let ghost orig_items: Seq<T> = items@;
    let ghost orig_counts: Seq<usize> = counts@;
    let mut rest = items;
    let mut out: Vec<Vec<T>> = Vec::new();
    let mut k: usize = 0;
    proof {
        assert(out@.map_values(|g: Vec<T>| g@) =~= Seq::<Seq<T>>::empty());
        assert(orig_counts.skip(0) =~= orig_counts);
        assert(rest@ =~= orig_items);
        assert(Seq::<Seq<T>>::empty() + spec_partition(orig_items, orig_counts) =~= spec_partition(
            orig_items,
            orig_counts,
        ));
    }
    while k < counts.len()
        invariant
            k <= counts@.len(),
            counts@ == orig_counts,
            orig_items == items@,
            spec_partition(orig_items, orig_counts) == out@.map_values(|g: Vec<T>| g@)
                + spec_partition(rest@, orig_counts.skip(k as int)),
            counts_fit(orig_counts, orig_items.len() as int) == counts_fit(
                orig_counts.skip(k as int),
                rest@.len() as int,
            ),
        decreases counts@.len() - k,
    {
        let c = counts[k];
        if c > rest.len() {
            proof {
                assert(orig_counts.skip(k as int)[0] == c);
                assert(!counts_fit(orig_counts.skip(k as int), rest@.len() as int));
                assert(!counts_fit(orig_counts, orig_items.len() as int));
            }
            return Err(Error::Other("volume sizes exceed available chapters".to_owned()));
        }
        let ghost items_before = rest@;
        let mut chunk: Vec<T> = Vec::new();
        let mut j: usize = 0;
        while j < c
            invariant
                j <= c,
                c <= items_before.len(),
                chunk@ == items_before.take(j as int),
                rest@ == items_before.skip(j as int),
            decreases c - j,
        {
            let x = rest.remove(0);
            chunk.push(x);
            j = j + 1;
            proof {
                assert(chunk@ =~= items_before.take(j as int));
                assert(rest@ =~= items_before.skip(j as int));
            }
        }
        out.push(chunk);
        k = k + 1;
        proof {
            let cs = orig_counts.skip(k as int - 1);
            assert(cs.drop_first() =~= orig_counts.skip(k as int));
            assert(cs[0] == c);
            assert(counts_fit(cs, items_before.len() as int) == counts_fit(
                orig_counts.skip(k as int),
                rest@.len() as int,
            ));
            assert(spec_partition(items_before, cs) == seq![items_before.take(c as int)]
                + spec_partition(items_before.skip(c as int), orig_counts.skip(k as int)));
            assert(out@.map_values(|g: Vec<T>| g@) =~= out@.map_values(|g: Vec<T>| g@).drop_last()
                .push(items_before.take(c as int)));
            assert(out@.map_values(|g: Vec<T>| g@).drop_last() + seq![items_before.take(c as int)]
                =~= out@.map_values(|g: Vec<T>| g@));
            assert(out@.map_values(|g: Vec<T>| g@).drop_last() + (seq![
                items_before.take(c as int),
            ] + spec_partition(rest@, orig_counts.skip(k as int))) =~= out@.map_values(
                |g: Vec<T>| g@,
            ) + spec_partition(rest@, orig_counts.skip(k as int)));
        }
    }
    proof {
        assert(orig_counts.skip(k as int).len() == 0);
        assert(spec_partition(rest@, orig_counts.skip(k as int)) =~= Seq::<Seq<T>>::empty());
        assert(out@.map_values(|g: Vec<T>| g@) + Seq::<Seq<T>>::empty() =~= out@.map_values(
            |g: Vec<T>| g@,
        ));
    }
    Ok(out)
}

/// The sum of a sequence of sizes.
pub open spec fn seq_usize_sum(s: Seq<usize>) -> int
    decreases s.len(),
{
    if s.len() == 0 {
        0
    } else {
        s[0] + seq_usize_sum(s.drop_first())
    }
}

pub proof fn lemma_sum_push(s: Seq<usize>, x: usize)
    ensures
        seq_usize_sum(s.push(x)) == seq_usize_sum(s) + x,
    decreases s.len(),
{
    if s.len() == 0 {
        assert(s.push(x)[0] == x);
        assert(s.push(x).drop_first() =~= Seq::<usize>::empty());
        assert(seq_usize_sum(s.push(x)) == x + seq_usize_sum(Seq::<usize>::empty()));
    } else {
        assert(s.push(x)[0] == s[0]);
        assert(s.push(x).drop_first() =~= s.drop_first().push(x));
        lemma_sum_push(s.drop_first(), x);
        assert(seq_usize_sum(s.push(x)) == s[0] + seq_usize_sum(s.drop_first().push(x)));
    }
}

/// Counts whose sum stays within the total always fit.
pub proof fn lemma_counts_fit_of_sum(s: Seq<usize>, total: int)
    requires
        seq_usize_sum(s) <= total,
    ensures
        counts_fit(s, total),
    decreases s.len(),
{
    if s.len() > 0 {
        assert(seq_usize_sum(s.drop_first()) >= 0) by {
            lemma_sum_nonneg(s.drop_first());
        }
        lemma_counts_fit_of_sum(s.drop_first(), total - s[0]);
    }
}

pub proof fn lemma_sum_nonneg(s: Seq<usize>)
    ensures
        seq_usize_sum(s) >= 0,
    decreases s.len(),
{
    if s.len() > 0 {
        lemma_sum_nonneg(s.drop_first());
    }
}

/// Concatenates every chapter's pages into one flat list, in order.
pub fn flatten_chapters(chapters: Vec<Vec<String>>) -> (r: Vec<String>)
    ensures
        r@ == chapters@.map_values(|c: Vec<String>| c@).flatten(),
{
    let ghost orig: Seq<Vec<String>> = chapters@;
    let total = chapters.len();
    let mut chapters = chapters;
    let mut out: Vec<String> = Vec::new();
    let mut i: usize = 0;
    proof {
        assert(orig.len() == total);
        assert(orig.take(0).map_values(|c: Vec<String>| c@) =~= Seq::<Seq<String>>::empty());
        assert(out@ =~= orig.take(0).map_values(|c: Vec<String>| c@).flatten());
        assert(chapters@ =~= orig.skip(0));
    }
    while chapters.len() > 0
        invariant
            i <= orig.len(),
            orig.len() == total,
            chapters@ == orig.skip(i as int),
            out@ == orig.take(i as int).map_values(|c: Vec<String>| c@).flatten(),
        decreases chapters@.len(),
    {
        let chapter = chapters.remove(0);
        proof {
            assert(orig.skip(i as int).remove(0) =~= orig.skip(i as int + 1));
            assert(chapter == orig[i as int]);
        }
        let ghost out_before = out@;
        crate::strutil::push_strings(&mut out, &chapter);
        i = i + 1;
        proof {
            let mapped = orig.take(i as int).map_values(|c: Vec<String>| c@);
            assert(mapped.drop_last() =~= orig.take(i as int - 1).map_values(
                |c: Vec<String>| c@,
            ));
            assert(mapped =~= mapped.drop_last().push(chapter@));
            mapped.drop_last().lemma_flatten_push(chapter@);
            assert(out@ =~= mapped.flatten());
        }
    }
    proof {
        assert(orig.take(orig.len() as int) =~= orig);
    }
    out
}

} // verus!
