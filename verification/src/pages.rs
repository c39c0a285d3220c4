//! Pagination: surviving posts ordered newest first and cut into fixed-size
//! pages. The executable sort is pinned to the model's `sort_by` ordering.

use vstd::prelude::*;

use vstd::relations::{sorted_by, total_ordering};
use vstd::seq_lib::lemma_sorted_unique;

use crate::compute::{post_add_info, take_all, take_step, visible_ids_x};
use crate::data::{lv, Update, UpdateV};
use crate::model::{
    created, filter_visible, page_slice, pair_ge, pair_ge_fn, pairs_of, post_order, visible_ids,
    visible_post,
};

verus! {

broadcast use {crate::data::group_view_facts, crate::compute::texts_len, crate::compute::texts_index};

/// The pagination key order is a total order.
pub proof fn lemma_pair_ge_total()
    ensures
        total_ordering(pair_ge_fn()),
{
    let r = pair_ge_fn();
    assert forall|x: (u64, u64), y: (u64, u64)| #[trigger] r(x, y) && #[trigger] r(y, x) implies x
        == y by {
        assert(x.0 == y.0 && x.1 == y.1);
        assert(x == y);
    }
    assert forall|x: (u64, u64), y: (u64, u64)| #[trigger] r(x, y) || #[trigger] r(y, x) by {}
}

/// Every id that `filter_visible` keeps names a surviving post.
pub proof fn lemma_filter_visible_elems(l: Seq<UpdateV>, keys: Seq<u64>)
    ensures
        forall|j: int|
            0 <= j < filter_visible(l, keys).len() ==> visible_post(
                l,
                #[trigger] filter_visible(l, keys)[j],
            ),
    decreases keys.len(),
{
    if keys.len() > 0 {
        lemma_filter_visible_elems(l, keys.drop_last());
        let r = filter_visible(l, keys.drop_last());
        if visible_post(l, keys.last()) {
            let r2 = r.push(keys.last());
            assert forall|j: int| 0 <= j < r2.len() implies visible_post(l, #[trigger] r2[j]) by {
                if j < r.len() {
                    assert(r2[j] == r[j]);
                } else {
                    assert(r2[j] == keys.last());
                }
            }
        }
    }
}

fn sort_pairs(input: Vec<(u64, u64)>) -> (r: Vec<(u64, u64)>)
    ensures
        r@ == input@.sort_by(pair_ge_fn()),
{
    let ghost inp = input@;
    proof {
        broadcast use vstd::seq_lib::group_to_multiset_ensures;

        assert(inp.take(0) =~= Seq::<(u64, u64)>::empty());
    }
    let mut out: Vec<(u64, u64)> = Vec::new();
    let mut i: usize = 0;
    while i < input.len()
        invariant
            0 <= i <= inp.len(),
            inp == input@,
            sorted_by(out@, pair_ge_fn()),
            out@.to_multiset() == inp.take(i as int).to_multiset(),
        decreases inp.len() - i,
    {
        proof {
            take_step(inp, i as int);
        }
        let x = input[i];
        let mut k: usize = 0;
        while k < out.len() && (out[k].0 > x.0 || (out[k].0 == x.0 && out[k].1 >= x.1))
            invariant
                0 <= k <= out@.len(),
                forall|j: int| 0 <= j < k ==> pair_ge(#[trigger] out@[j], x),
            decreases out@.len() - k,
        {
            k += 1;
        }
        let ghost before = out@;
        proof {
            if (k as int) < before.len() {
                assert(!pair_ge(before[k as int], x));
                assert(pair_ge(x, before[k as int]));
            }
        }
        out.insert(k, x);
        proof {
            broadcast use vstd::seq_lib::group_to_multiset_ensures;

            let rfn = pair_ge_fn();
            assert(forall|y: (u64, u64), z: (u64, u64)| #[trigger] rfn(y, z) == pair_ge(y, z));
            let after = out@;
            assert(after == before.insert(k as int, x));
            assert forall|a: int, b: int| 0 <= a < b < after.len() implies #[trigger] rfn(
                after[a],
                after[b],
            ) by {
                if b < k as int {
                    assert(after[a] == before[a] && after[b] == before[b]);
                    assert(rfn(before[a], before[b]));
                } else if a > k as int {
                    assert(after[a] == before[a - 1] && after[b] == before[b - 1]);
                    assert(rfn(before[a - 1], before[b - 1]));
                } else if a == k as int {
                    assert(after[a] == x && after[b] == before[b - 1]);
                    assert(pair_ge(x, before[k as int]));
                    if b - 1 > k as int {
                        assert(rfn(before[k as int], before[b - 1]));
                    }
                } else if b == k as int {
                    assert(after[a] == before[a] && after[b] == x);
                    assert(pair_ge(before[a], x));
                } else {
                    assert(a < k as int && b > k as int);
                    assert(after[a] == before[a] && after[b] == before[b - 1]);
                    assert(pair_ge(before[a], x));
                    if b - 1 > k as int {
                        assert(pair_ge(x, before[k as int]));
                        assert(rfn(before[k as int], before[b - 1]));
                    } else {
                        assert(b - 1 == k as int);
                        assert(pair_ge(x, before[b - 1]));
                    }
                }
            }
            assert(sorted_by(after, pair_ge_fn()));
            vstd::seq_lib::to_multiset_insert(before, k as int, x);
            assert(inp.take(i + 1) =~= inp.take(i as int).push(inp[i as int]));
            vstd::seq_lib::to_multiset_build(inp.take(i as int), inp[i as int]);
        }
        i += 1;
    }
    proof {
        take_all(inp);
        lemma_pair_ge_total();
        inp.lemma_sort_by_ensures(pair_ge_fn());
        lemma_sorted_unique(out@, inp.sort_by(pair_ge_fn()), pair_ge_fn());
    }
    out
}

/// All surviving posts, newest first, recomputed from the log.
pub fn post_order_x(log: &Vec<Update>) -> (r: Vec<u64>)
    ensures
        r@ == post_order(lv(log@)),
{
    let ghost l = lv(log@);
    let vis = visible_ids_x(log);
    proof {
        lemma_filter_visible_elems(l, crate::model::post_cands(l));
    }
    let mut prs: Vec<(u64, u64)> = Vec::new();
    let mut i: usize = 0;
    while i < vis.len()
        invariant
            0 <= i <= vis@.len(),
            l == lv(log@),
            vis@ == visible_ids(l),
            forall|j: int| 0 <= j < vis@.len() ==> visible_post(l, #[trigger] vis@[j]),
            prs@ == vis@.take(i as int).map_values(|id: u64| (created(l, id), id)),
        decreases vis@.len() - i,
    {
        let id = vis[i];
        proof {
            crate::compute::lemma_has_add_some(l, id);
        }
        let info = post_add_info(log, id);
        prs.push((info.1, id));
        proof {
            assert(vis@.take(i + 1).map_values(|id: u64| (created(l, id), id)) =~= vis@.take(
                i as int,
            ).map_values(|id: u64| (created(l, id), id)).push((created(l, id), id)));
        }
        i += 1;
    }
    proof {
        take_all(vis@);
    }
    let sorted = sort_pairs(prs);
    assert(sorted@ == pairs_of(l).sort_by(pair_ge_fn()));
    let mut out: Vec<u64> = Vec::new();
    let mut i: usize = 0;
    while i < sorted.len()
        invariant
            0 <= i <= sorted@.len(),
            sorted@ == pairs_of(l).sort_by(pair_ge_fn()),
            out@ == sorted@.take(i as int).map_values(|p: (u64, u64)| p.1),
        decreases sorted@.len() - i,
    {
        let x = sorted[i];
        out.push(x.1);
        proof {
            assert(sorted@.take(i + 1).map_values(|p: (u64, u64)| p.1) =~= sorted@.take(
                i as int,
            ).map_values(|p: (u64, u64)| p.1).push(sorted@[i as int].1));
        }
        i += 1;
    }
    proof {
        take_all(sorted@);
    }
    out
}

/// The ids on page `p`, given the full ordering.
pub fn page_slice_x(log: &Vec<Update>, ord: &Vec<u64>, p: u64, psize: u64) -> (r: Vec<u64>)
    requires
        ord@ == post_order(lv(log@)),
        psize >= 1,
    ensures
        r@ == page_slice(lv(log@), p, psize),
{
    let ghost l = lv(log@);
    proof {
        assert(p as int * psize as int <= u128::MAX as int) by (nonlinear_arith)
            requires
                p as int <= u64::MAX as int,
                psize as int <= u64::MAX as int,
        ;
    }
    let start128: u128 = p as u128 * psize as u128;
    let len128: u128 = ord.len() as u128;
    proof {
        assert(start128 as int == p as int * psize as int);
        assert((p as int + 1) * psize as int == p as int * psize as int + psize as int) by (nonlinear_arith);
    }
    if start128 >= len128 {
        let r: Vec<u64> = Vec::new();
        proof {
            assert(r@ =~= page_slice(l, p, psize));
        }
        return r;
    }
    let start = start128 as usize;
    let end128: u128 = if start128 + psize as u128 <= len128 {
        start128 + psize as u128
    } else {
        len128
    };
    let end = end128 as usize;
    let mut out: Vec<u64> = Vec::new();
    let mut k: usize = start;
    while k < end
        invariant
            start <= k <= end,
            end <= ord@.len(),
            start == start128 as int,
            end == end128 as int,
            out@ == ord@.subrange(start as int, k as int),
        decreases end - k,
    {
        out.push(ord[k]);
        proof {
            assert(ord@.subrange(start as int, k + 1) =~= ord@.subrange(start as int,
            k as int).push(ord@[k as int]));
        }
        k += 1;
    }
    proof {
        assert(out@ =~= page_slice(l, p, psize));
    }
    out
}

} // verus!
