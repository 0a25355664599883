//! The page index: every loaded summary, ordered by datetime with the
//! most recent first.  The order is a hard contract for navigation
//! templates: pages with equal timestamps keep their discovery order,
//! so the sort is pinned down completely — it is sorted, and for every
//! timestamp the pages carrying it come out exactly as they went in.

use vstd::prelude::*;

use crate::datetime::{at_or_after, cmp_at_or_after, Timestamp};
use crate::document::PageInfo;

verus! {

/// Pages in index order: each page's datetime at or after the next's.
pub open spec fn sorted_by_datetime_desc(s: Seq<PageInfo>) -> bool {
    forall|i: int, j: int|
        0 <= i < j < s.len() ==> at_or_after(#[trigger] s[i].datetime, #[trigger] s[j].datetime)
}

/// The pages carrying one timestamp key, in their list order.
pub open spec fn with_key(s: Seq<PageInfo>, k: (int, int)) -> Seq<PageInfo> {
    s.filter(|q: PageInfo| q.datetime.key() == k)
}

/// The index order is transitive.
proof fn lemma_at_or_after_trans(a: Timestamp, b: Timestamp, c: Timestamp)
    requires
        at_or_after(a, b),
        at_or_after(b, c),
    ensures
        at_or_after(a, c),
{
}

/// A list where no page carries the key filters to nothing.
proof fn lemma_with_key_absent(s: Seq<PageInfo>, k: (int, int))
    requires
        forall|j: int| 0 <= j < s.len() ==> (#[trigger] s[j]).datetime.key() != k,
    ensures
        with_key(s, k) == Seq::<PageInfo>::empty(),
    decreases s.len(),
{
    reveal(Seq::filter);
    if s.len() > 0 {
        assert(forall|j: int|
            0 <= j < s.drop_last().len() ==> (#[trigger] s.drop_last()[j]).datetime.key() != k);
        lemma_with_key_absent(s.drop_last(), k);
    }
}

/// A single page filters to itself or to nothing, by its key.
proof fn lemma_with_key_single(p: PageInfo, k: (int, int))
    ensures
        with_key(seq![p], k) == if p.datetime.key() == k {
            seq![p]
        } else {
            Seq::<PageInfo>::empty()
        },
{
    reveal_with_fuel(Seq::filter, 3);
    assert(seq![p].drop_last() =~= Seq::<PageInfo>::empty());
    if p.datetime.key() == k {
        assert(with_key(seq![p], k) =~= seq![p]);
    } else {
        assert(with_key(seq![p], k) =~= Seq::<PageInfo>::empty());
    }
}

/// Sorts the summaries by datetime, most recent first; pages with the
/// same timestamp keep their order of discovery.  Together the two
/// clauses determine the output completely.
#[verifier::rlimit(80)]
pub fn sort_pages(pages: Vec<PageInfo>) -> (r: Vec<PageInfo>)
    ensures
        sorted_by_datetime_desc(r@),
        forall|k: (int, int)| #[trigger] with_key(r@, k) == with_key(pages@, k),
{
    broadcast use vstd::seq_lib::group_seq_properties;

    let mut rest = pages;
    let mut out: Vec<PageInfo> = Vec::new();
    proof {
        assert forall|k: (int, int)| #[trigger] with_key(pages@, k) == with_key(out@, k)
            + with_key(rest@, k) by {
            Seq::filter_distributes_over_add(out@, rest@, |q: PageInfo| q.datetime.key() == k);
            assert(out@ + rest@ =~= pages@);
        }
    }
    while rest.len() > 0
        invariant
            sorted_by_datetime_desc(out@),
            forall|k: (int, int)| #[trigger] with_key(pages@, k) == with_key(out@, k)
                + with_key(rest@, k),
        decreases rest@.len(),
    {
        let ghost rest0 = rest@;
        let ghost out0 = out@;
        let p = rest.remove(0);
        proof {
            assert(rest0 =~= seq![p] + rest@);
        }
        let mut idx = out.len();
        while idx > 0 && !cmp_at_or_after(&out[idx - 1].datetime, &p.datetime)
            invariant
                idx <= out@.len(),
                out@ == out0,
                sorted_by_datetime_desc(out@),
                forall|j: int|
                    idx <= j < out@.len() ==> !at_or_after(
                        (#[trigger] out@[j]).datetime,
                        p.datetime,
                    ),
            decreases idx,
        {
            idx -= 1;
        }
        proof {
            // everything before the insertion point stays at or after p
            if idx > 0 {
                assert forall|j: int| 0 <= j < idx implies at_or_after(
                    (#[trigger] out@[j]).datetime,
                    p.datetime,
                ) by {
                    if j < idx - 1 {
                        lemma_at_or_after_trans(
                            out@[j].datetime,
                            out@[idx - 1].datetime,
                            p.datetime,
                        );
                    }
                }
            }
        }
        out.insert(idx, p);
        proof {
            let pk = p.datetime.key();
            let new = out@;
            let old = out0;
            let i = idx as int;
            assert(new == old.insert(i, p));
            assert(new =~= old.subrange(0, i) + seq![p] + old.subrange(i, old.len() as int));
            // order holds across the insertion point
            assert forall|a: int, b: int| 0 <= a < b < new.len() implies at_or_after(
                (#[trigger] new[a]).datetime,
                (#[trigger] new[b]).datetime,
            ) by {
                if a < i {
                    assert(new[a] == old[a]);
                }
                if b < i {
                    assert(new[b] == old[b]);
                }
                if a > i {
                    assert(new[a] == old[a - 1]);
                }
                if b > i {
                    assert(new[b] == old[b - 1]);
                }
                if a == i && b > i {
                    // p stands at or after everything it displaced
                    assert(!at_or_after(old[b - 1].datetime, p.datetime));
                }
                if b == i && a < i {
                    assert(at_or_after(old[a].datetime, p.datetime));
                }
            }
            // stability: filtering by any key commutes with the insertion
            assert forall|k: (int, int)| #[trigger] with_key(pages@, k) == with_key(new, k)
                + with_key(rest@, k) by {
                let pred = |q: PageInfo| q.datetime.key() == k;
                let front = old.subrange(0, i);
                let back = old.subrange(i, old.len() as int);
                Seq::filter_distributes_over_add(front + seq![p], back, pred);
                Seq::filter_distributes_over_add(front, seq![p], pred);
                Seq::filter_distributes_over_add(front, back, pred);
                Seq::filter_distributes_over_add(seq![p], rest@, pred);
                assert(front + back =~= old);
                assert((front + seq![p]) + back =~= new);
                lemma_with_key_single(p, k);
                if pk == k {
                    assert(forall|j: int|
                        0 <= j < back.len() ==> (#[trigger] back[j]).datetime.key() != k);
                    lemma_with_key_absent(back, k);
                    assert(with_key(new, k) =~= with_key(old, k) + seq![p]);
                    assert(with_key(rest0, k) =~= seq![p] + with_key(rest@, k));
                    assert(with_key(new, k) + with_key(rest@, k) =~= with_key(old, k)
                        + with_key(rest0, k));
                } else {
                    assert(with_key(new, k) =~= with_key(old, k));
                    assert(with_key(rest0, k) =~= with_key(rest@, k));
                }
            }
        }
    }
    proof {
        assert forall|k: (int, int)| #[trigger] with_key(out@, k) == with_key(pages@, k) by {
            assert(with_key(rest@, k) =~= Seq::<PageInfo>::empty());
            assert(with_key(out@, k) + Seq::<PageInfo>::empty() =~= with_key(out@, k));
        }
    }
    out
}

/// The publishable subset of the index: everything not marked as a
/// draw, in index order.
pub open spec fn publishable_spec(s: Seq<PageInfo>) -> Seq<PageInfo> {
    s.filter(|p: PageInfo| !p.draw)
}

/// The pages the render pipeline publishes: everything not marked as a
/// draw, in index order.
pub fn publishable(pages: Vec<PageInfo>) -> (r: Vec<PageInfo>)
    ensures
        r@ == publishable_spec(pages@),
{
    let mut out: Vec<PageInfo> = Vec::new();
    let mut rest = pages;
    let ghost all = rest@;
    let ghost mut i: int = 0;
    proof {
        reveal(Seq::filter);
        assert(all.subrange(0, 0) =~= Seq::<PageInfo>::empty());
        assert(all.subrange(i, all.len() as int) =~= all);
        assert(out@ =~= publishable_spec(all.subrange(0, 0)));
    }
    while rest.len() > 0
        invariant
            0 <= i,
            i + rest@.len() == all.len(),
            rest@ == all.subrange(i, all.len() as int),
            out@ == publishable_spec(all.subrange(0, i)),
        decreases rest@.len(),
    {
        let p = rest.remove(0);
        proof {
            assert(all.subrange(i, all.len() as int)[0] == all[i]);
            assert(all.subrange(i, all.len() as int).remove(0) =~= all.subrange(
                i + 1,
                all.len() as int,
            ));
            i = i + 1;
        }
        let keep = !p.draw;
        if keep {
            out.push(p);
        }
        proof {
            reveal(Seq::filter);
            let pre = all.subrange(0, i);
            assert(pre.drop_last() =~= all.subrange(0, i - 1));
            assert(pre[pre.len() - 1] == all[i - 1]);
            assert(p == all[i - 1]);
            assert(out@ =~= publishable_spec(pre));
        }
    }
    proof {
        assert(all.subrange(0, all.len() as int) =~= all);
    }
    out
}

} // verus!
