//! The properties the library promises, stated and proved over the model.

use vstd::prelude::*;

use crate::data::{lv, ov, OutV, QueryV, UpdateV};
use crate::engine::Engine;
use crate::model::{
    active_page, addr_of_user, count_user_likes, count_user_posts, created, creator,
    dedup_out, delete_results, delta_spec, has_page_post, has_post_remove, insert_results,
    like_post_cands, likes_of, net_like, n_posts, output_spec, page_count_of, page_post_results,
    page_slice, pair_ge, pair_ge_fn, pairs_of, post_cands, post_order, results_for,
    session_page_results, user_like_count, user_post_count, visible_ids, visible_post,
};

verus! {

// ---------------------------------------------------------------------------
// incrementality
// ---------------------------------------------------------------------------
/// Incrementality: a well-formed engine's maintained result state is the
/// full recomputation over its accumulated fact log. Since `apply` keeps
/// well-formedness while extending the log one transaction at a time, the
/// state after applying any sequence of transactions equals the state
/// recomputed from scratch over the surviving fact collection.
pub proof fn lemma_incrementality(e: Engine)
    requires
        e.wf(),
    ensures
        ov(e.prev@) == output_spec(lv(e.log@), e.page_size),
{
}

/// Two engines that accumulated the same log agree on their whole derived
/// state, however many steps each took to reach it.
pub proof fn lemma_state_determined_by_log(e1: Engine, e2: Engine)
    requires
        e1.wf(),
        e2.wf(),
        lv(e1.log@) == lv(e2.log@),
        e1.page_size == e2.page_size,
    ensures
        ov(e1.prev@) == ov(e2.prev@),
{
}

/// The accumulated multiset composes across transactions: the net
/// multiplicity of any fact over a concatenated log is the sum of the nets
/// of its parts, and a `Post` assertion or retraction is present in the
/// whole exactly when it is present in one part. The derived views are
/// stated over these nets, so the state after a transaction sequence is the
/// state of the combined fact multiset.
pub proof fn lemma_nets_compose(l1: Seq<UpdateV>, l2: Seq<UpdateV>, s: u64, u: u64, q: u64)
    ensures
        crate::model::net_vp(l1 + l2, s, q) == crate::model::net_vp(l1, s, q)
            + crate::model::net_vp(l2, s, q),
        crate::model::net_sess(l1 + l2, s, u) == crate::model::net_sess(l1, s, u)
            + crate::model::net_sess(l2, s, u),
        net_like(l1 + l2, u, q) == net_like(l1, u, q) + net_like(l2, u, q),
        crate::model::has_post_add(l1 + l2, q) == (crate::model::has_post_add(l1, q)
            || crate::model::has_post_add(l2, q)),
        has_post_remove(l1 + l2, q) == (has_post_remove(l1, q) || has_post_remove(l2, q)),
    decreases l2.len(),
{
    if l2.len() == 0 {
        assert(l1 + l2 =~= l1);
    } else {
        lemma_nets_compose(l1, l2.drop_last(), s, u, q);
        assert((l1 + l2).drop_last() =~= l1 + l2.drop_last());
        assert((l1 + l2).last() == l2.last());
    }
}

// ---------------------------------------------------------------------------
// pagination
// ---------------------------------------------------------------------------
/// Page `k` holds exactly the posts at overall ranks `[k*P, (k+1)*P)` of
/// the newest-first order, cut off at the number of surviving posts.
pub proof fn lemma_page_slice(l: Seq<UpdateV>, k: u64, psize: u64)
    requires
        psize >= 1,
    ensures
        page_slice(l, k, psize).len() == (if k * psize >= n_posts(l) {
            0int
        } else if (k + 1) * psize <= n_posts(l) {
            psize as int
        } else {
            n_posts(l) - k * psize
        }),
        forall|r: int|
            0 <= r < page_slice(l, k, psize).len() ==> page_slice(l, k, psize)[r] == post_order(
                l,
            )[k * psize + r],
{
    assert((k + 1) * psize == k * psize + psize) by (nonlinear_arith);
}

/// Every entry of the newest-first order pairs its id with that id's
/// creation time.
proof fn lemma_sorted_pairs_shape(l: Seq<UpdateV>)
    ensures
        forall|m: int|
            0 <= m < pairs_of(l).sort_by(pair_ge_fn()).len() ==> (
            #[trigger] pairs_of(l).sort_by(pair_ge_fn())[m]).0 == created(
                l,
                pairs_of(l).sort_by(pair_ge_fn())[m].1,
            ),
{
    broadcast use vstd::seq_lib::group_to_multiset_ensures;

    crate::pages::lemma_pair_ge_total();
    let ps = pairs_of(l);
    let sorted = ps.sort_by(pair_ge_fn());
    ps.lemma_sort_by_ensures(pair_ge_fn());
    assert(ps == visible_ids(l).map_values(|id: u64| (created(l, id), id)));
    assert forall|m: int| 0 <= m < sorted.len() implies (#[trigger] sorted[m]).0 == created(
        l,
        sorted[m].1,
    ) by {
        assert(sorted.contains(sorted[m]));
        assert(sorted.to_multiset().contains(sorted[m]));
        assert(ps.to_multiset().contains(sorted[m]));
        assert(ps.contains(sorted[m]));
        let j = choose|j: int| 0 <= j < ps.len() && ps[j] == sorted[m];
        assert(ps[j] == (created(l, visible_ids(l)[j]), visible_ids(l)[j]));
    }
}

/// The listing is ordered newest first: an earlier rank was created later,
/// or at the same time with the larger id.
pub proof fn lemma_post_order_sorted(l: Seq<UpdateV>, a: int, b: int)
    requires
        0 <= a < b < post_order(l).len(),
    ensures
        created(l, post_order(l)[a]) > created(l, post_order(l)[b]) || (created(
            l,
            post_order(l)[a],
        ) == created(l, post_order(l)[b]) && post_order(l)[a] >= post_order(l)[b]),
{
    crate::pages::lemma_pair_ge_total();
    let ps = pairs_of(l);
    let sorted = ps.sort_by(pair_ge_fn());
    ps.lemma_sort_by_ensures(pair_ge_fn());
    lemma_sorted_pairs_shape(l);
    let rfn = pair_ge_fn();
    assert(post_order(l) == sorted.map_values(|p: (u64, u64)| p.1));
    assert(post_order(l)[a] == sorted[a].1);
    assert(post_order(l)[b] == sorted[b].1);
    assert(rfn(sorted[a], sorted[b]));
    assert(pair_ge(sorted[a], sorted[b]));
}

/// The page count is `ceil(N / P)`, floored at one.
pub proof fn lemma_page_count(n: nat, p: nat)
    requires
        p >= 1,
    ensures
        page_count_of(n, p) >= 1,
        n == 0 ==> page_count_of(n, p) == 1,
        n > 0 ==> (page_count_of(n, p) - 1) * p < n <= page_count_of(n, p) * p,
{
    if n > 0 {
        let q = (n + p - 1) / p as int;
        assert(q * p <= n + p - 1 < (q + 1) * p) by (nonlinear_arith)
            requires
                p >= 1,
                q == (n + p - 1) / p as int,
                n >= 1,
        ;
        assert(q >= 1) by (nonlinear_arith)
            requires
                p >= 1,
                n >= 1,
                q == (n + p - 1) / p as int,
        ;
        assert((q - 1) * p < n && n <= q * p) by (nonlinear_arith)
            requires
                q * p <= n + p - 1,
                n + p - 1 < (q + 1) * p,
                p >= 1,
        ;
    }
}

/// A session with active page `k` gets one `PagePost` per post on that
/// page, carrying the page number and the rank within the page.
pub proof fn lemma_page_post_results(l: Seq<UpdateV>, s: u64, psize: u64, j: int)
    requires
        psize >= 1,
        active_page(l, s) is Some,
        0 <= j < page_slice(l, active_page(l, s)->Some_0, psize).len(),
    ensures
        session_page_results(l, s, psize)[j] == QueryV::PagePost(
            page_slice(l, active_page(l, s)->Some_0, psize)[j],
            active_page(l, s)->Some_0,
            j as u64,
        ),
{
    let k = active_page(l, s)->Some_0;
    let ids = page_slice(l, k, psize);
    assert(page_post_results(ids, k)[j] == QueryV::PagePost(ids[j], k, j as u64));
}

// ---------------------------------------------------------------------------
// deletion notification
// ---------------------------------------------------------------------------
/// Consolidation at the boundary drops duplicates, never information.
pub proof fn lemma_dedup_contains(s: Seq<OutV>, x: OutV)
    ensures
        dedup_out(s).contains(x) <==> s.contains(x),
    decreases s.len(),
{
    if s.len() > 0 {
        lemma_dedup_contains(s.drop_last(), x);
        let r = dedup_out(s.drop_last());
        let d = dedup_out(s);
        assert forall|y: OutV| s.drop_last().contains(y) implies s.contains(y) by {
            let i = choose|i: int| 0 <= i < s.drop_last().len() && s.drop_last()[i] == y;
            assert(s[i] == y);
        }
        if s.contains(x) {
            if s.last() == x {
                if r.contains(x) {
                    assert(d == r || d == r.push(s.last()));
                    if d == r.push(s.last()) {
                        let j = choose|j: int| 0 <= j < r.len() && r[j] == x;
                        assert(d[j] == x);
                    }
                } else {
                    assert(d == r.push(x));
                    assert(d[d.len() - 1] == x);
                }
                assert(d.contains(x));
            } else {
                let i = choose|i: int| 0 <= i < s.len() && s[i] == x;
                assert(i < s.len() - 1);
                assert(s.drop_last()[i] == x);
                assert(s.drop_last().contains(x));
                let j = choose|j: int| 0 <= j < r.len() && r[j] == x;
                if r.contains(s.last()) {
                    assert(d == r);
                } else {
                    assert(d == r.push(s.last()));
                    assert(d[j] == x);
                }
                assert(d.contains(x));
            }
        }
        if d.contains(x) {
            let i = choose|i: int| 0 <= i < d.len() && d[i] == x;
            if r.contains(s.last()) {
                assert(d == r);
                assert(r.contains(x));
                assert(s.drop_last().contains(x));
                assert(s.contains(x));
            } else {
                assert(d == r.push(s.last()));
                if i < r.len() {
                    assert(r[i] == x);
                    assert(r.contains(x));
                    assert(s.drop_last().contains(x));
                    assert(s.contains(x));
                } else {
                    assert(x == s.last());
                    assert(s[s.len() - 1] == x);
                    assert(s.contains(x));
                }
            }
        }
    }
}

proof fn lemma_delete_results_has(old_out: Seq<OutV>, new_out: Seq<OutV>, a: u64, q: u64)
    requires
        has_page_post(old_out, a, q),
        !has_page_post(new_out, a, q),
    ensures
        delete_results(old_out, new_out).contains(
            OutV { addr: a, result: QueryV::DeletePost(q) },
        ),
    decreases old_out.len(),
{
    let d = delete_results(old_out, new_out);
    let e = old_out.last();
    if e.addr == a && e.result is PagePost && e.result->PagePost_0 == q {
        let r = delete_results(old_out.drop_last(), new_out);
        assert(d == r.push(OutV { addr: a, result: QueryV::DeletePost(q) }));
        assert(d[d.len() - 1] == OutV { addr: a, result: QueryV::DeletePost(q) });
    } else {
        lemma_delete_results_has(old_out.drop_last(), new_out, a, q);
        let r = delete_results(old_out.drop_last(), new_out);
        let x = OutV { addr: a, result: QueryV::DeletePost(q) };
        let i = choose|i: int| 0 <= i < r.len() && r[i] == x;
        if e.result is PagePost && !has_page_post(new_out, e.addr, e.result->PagePost_0) {
            assert(d == r.push(OutV { addr: e.addr, result: QueryV::DeletePost(e.result->PagePost_0) }));
            assert(d[i] == x);
        } else {
            assert(d == r);
        }
    }
}

proof fn lemma_results_for_has(d: Seq<OutV>, a: u64, r: QueryV)
    requires
        d.contains(OutV { addr: a, result: r }),
    ensures
        results_for(d, a).contains(r),
    decreases d.len(),
{
    let x = OutV { addr: a, result: r };
    if d.last() == x {
        let rs = results_for(d.drop_last(), a);
        assert(results_for(d, a) == rs.push(r));
        assert(results_for(d, a)[rs.len() as int] == r);
    } else {
        let i = choose|i: int| 0 <= i < d.len() && d[i] == x;
        assert(d.drop_last()[i] == x);
        assert(d.drop_last().contains(x));
        lemma_results_for_has(d.drop_last(), a, r);
        let rs = results_for(d.drop_last(), a);
        let j = choose|j: int| 0 <= j < rs.len() && rs[j] == r;
        if d.last().addr == a {
            assert(results_for(d, a) == rs.push(d.last().result));
            assert(results_for(d, a)[j] == r);
        }
    }
}

/// Deleting a post notifies every session that saw it: whenever a session
/// held a page slot for post `q` before the step and holds none after, the
/// step's batch for that session contains `DeletePost(q)` — whoever created
/// the post.
pub proof fn lemma_deletion_notifies(old_out: Seq<OutV>, new_out: Seq<OutV>, s: u64, q: u64)
    requires
        has_page_post(old_out, s, q),
        !has_page_post(new_out, s, q),
    ensures
        delta_spec(old_out, new_out).contains(OutV { addr: s, result: QueryV::DeletePost(q) }),
        results_for(delta_spec(old_out, new_out), s).contains(QueryV::DeletePost(q)),
{
    let x = OutV { addr: s, result: QueryV::DeletePost(q) };
    lemma_delete_results_has(old_out, new_out, s, q);
    let dels = delete_results(old_out, new_out);
    let cat = dels + insert_results(old_out, new_out);
    let i = choose|i: int| 0 <= i < dels.len() && dels[i] == x;
    assert(cat[i] == x);
    assert(cat.contains(x));
    lemma_dedup_contains(cat, x);
    lemma_results_for_has(delta_spec(old_out, new_out), s, x.result);
}

// ---------------------------------------------------------------------------
// user aggregates
// ---------------------------------------------------------------------------
proof fn lemma_count_posts_filter(l: Seq<UpdateV>, keys: Seq<u64>, u: u64)
    ensures
        count_user_posts(l, keys, u) == keys.filter(
            |id: u64| visible_post(l, id) && addr_of_user(l, creator(l, id), u),
        ).len(),
    decreases keys.len(),
{
    broadcast use vstd::seq_lib::group_seq_properties;

    let pred = |id: u64| visible_post(l, id) && addr_of_user(l, creator(l, id), u);
    if keys.len() == 0 {
        assert(keys.filter(pred) =~= Seq::<u64>::empty());
    } else {
        lemma_count_posts_filter(l, keys.drop_last(), u);
        keys.drop_last().lemma_filter_push(keys.last(), pred);
        assert(keys.drop_last().push(keys.last()) =~= keys);
    }
}

proof fn lemma_count_likes_filter(l: Seq<UpdateV>, keys: Seq<u64>, u: u64)
    ensures
        count_user_likes(l, keys, u) == keys.filter(
            |q: u64| net_like(l, u, q) > 0 && visible_post(l, q),
        ).len(),
    decreases keys.len(),
{
    broadcast use vstd::seq_lib::group_seq_properties;

    let pred = |q: u64| net_like(l, u, q) > 0 && visible_post(l, q);
    if keys.len() == 0 {
        assert(keys.filter(pred) =~= Seq::<u64>::empty());
    } else {
        lemma_count_likes_filter(l, keys.drop_last(), u);
        keys.drop_last().lemma_filter_push(keys.last(), pred);
        assert(keys.drop_last().push(keys.last()) =~= keys);
    }
}

/// User aggregates reflect only currently-live facts: the post count is the
/// number of surviving posts attributed to the user, the like count the
/// number of the user's surviving likes on surviving posts — and a post
/// whose `Post` fact was ever retracted, even in the same batch that
/// asserted it, contributes to neither.
pub proof fn lemma_user_counts_live(l: Seq<UpdateV>, u: u64)
    ensures
        user_post_count(l, u) == post_cands(l).filter(
            |id: u64| visible_post(l, id) && addr_of_user(l, creator(l, id), u),
        ).len(),
        user_like_count(l, u) == like_post_cands(l, u).filter(
            |q: u64| net_like(l, u, q) > 0 && visible_post(l, q),
        ).len(),
        forall|id: u64| has_post_remove(l, id) ==> !visible_post(l, id),
{
    lemma_count_posts_filter(l, post_cands(l), u);
    lemma_count_likes_filter(l, like_post_cands(l, u), u);
}

/// A retraction wins over an assertion of the same post in the same batch:
/// as soon as the log holds one retraction of `Post` for an id, that id
/// survives nowhere, whatever else the log holds.
pub proof fn lemma_retract_wins(l: Seq<UpdateV>, e: UpdateV)
    requires
        e.fact == crate::data::FactV::Post,
        e.diff < 0,
    ensures
        !visible_post(l.push(e), e.id),
{
    let l2 = l.push(e);
    assert(l2.last() == e);
    assert(crate::model::has_post_remove(l2, e.id));
}


// ---------------------------------------------------------------------------
// like views are gated by visibility
// ---------------------------------------------------------------------------
proof fn lemma_filter_titles_shape(l: Seq<UpdateV>, keys: Seq<Seq<char>>, q: u64)
    ensures
        forall|m: int|
            0 <= m < crate::model::filter_titles(l, keys, q).len() ==> (
            #[trigger] crate::model::filter_titles(l, keys, q)[m]) is PostTitle,
    decreases keys.len(),
{
    if keys.len() > 0 {
        lemma_filter_titles_shape(l, keys.drop_last(), q);
    }
}

proof fn lemma_filter_bodies_shape(l: Seq<UpdateV>, keys: Seq<Seq<char>>, q: u64)
    ensures
        forall|m: int|
            0 <= m < crate::model::filter_bodies(l, keys, q).len() ==> (
            #[trigger] crate::model::filter_bodies(l, keys, q)[m]) is PostBody,
    decreases keys.len(),
{
    if keys.len() > 0 {
        lemma_filter_bodies_shape(l, keys.drop_last(), q);
    }
}

proof fn lemma_field_results_shape(l: Seq<UpdateV>, ids: Seq<u64>)
    ensures
        forall|m: int|
            0 <= m < crate::model::field_results(l, ids).len() ==> (
            #[trigger] crate::model::field_results(l, ids)[m]) is PostTitle,
    decreases ids.len(),
{
    if ids.len() > 0 {
        lemma_field_results_shape(l, ids.drop_last());
        lemma_filter_titles_shape(l, crate::model::title_cands(l, ids.last()), ids.last());
    }
}

proof fn lemma_body_results_shape(l: Seq<UpdateV>, ids: Seq<u64>)
    ensures
        forall|m: int|
            0 <= m < crate::model::body_results(l, ids).len() ==> (
            #[trigger] crate::model::body_results(l, ids)[m]) is PostBody,
    decreases ids.len(),
{
    if ids.len() > 0 {
        lemma_body_results_shape(l, ids.drop_last());
        lemma_filter_bodies_shape(l, crate::model::body_cands(l, ids.last()), ids.last());
    }
}

proof fn lemma_creator_results_shape(l: Seq<UpdateV>, ids: Seq<u64>)
    ensures
        forall|m: int|
            0 <= m < crate::model::creator_results(l, ids).len() ==> (
            #[trigger] crate::model::creator_results(l, ids)[m]) is PostCreator,
    decreases ids.len(),
{
    if ids.len() > 0 {
        lemma_creator_results_shape(l, ids.drop_last());
    }
}

proof fn lemma_user_results_shape(l: Seq<UpdateV>, us: Seq<u64>)
    ensures
        forall|m: int|
            0 <= m < crate::model::user_results(l, us).len() ==> ((
            #[trigger] crate::model::user_results(l, us)[m]) is UserPostCount
                || crate::model::user_results(l, us)[m] is UserLikeCount),
    decreases us.len(),
{
    if us.len() > 0 {
        lemma_user_results_shape(l, us.drop_last());
    }
}

/// Like counts and like-membership flags are emitted only to sessions whose
/// active page currently contains the post they speak of.
pub proof fn lemma_like_results_gated(l: Seq<UpdateV>, s: u64, psize: u64, q: u64, r: QueryV)
    requires
        psize >= 1,
        crate::model::session_results(l, s, psize).contains(r),
        (r is PostTotalLikes && r->PostTotalLikes_0 == q) || (r is PostLikedByUser
            && r->PostLikedByUser_0 == q),
    ensures
        active_page(l, s) is Some,
        page_slice(l, active_page(l, s)->Some_0, psize).contains(q),
{
    let sr = crate::model::session_results(l, s, psize);
    let spr = session_page_results(l, s, psize);
    let ur = crate::model::user_results(l, crate::model::live_users(l, s));
    let i = choose|i: int| 0 <= i < sr.len() && sr[i] == r;
    lemma_user_results_shape(l, crate::model::live_users(l, s));
    if i >= spr.len() {
        assert(sr[i] == ur[i - spr.len()]);
        assert(false);
    }
    assert(spr[i] == r);
    if active_page(l, s) is None {
        assert(spr.len() == 0);
        assert(false);
    }
    let p = active_page(l, s)->Some_0;
    let ids = page_slice(l, p, psize);
    let blk_a = page_post_results(ids, p);
    let blk_b = crate::model::field_results(l, ids);
    let blk_c = crate::model::body_results(l, ids);
    let blk_d = crate::model::creator_results(l, ids);
    let blk_e = crate::model::like_results(l, ids);
    let blk_f = (match crate::model::user_of(l, s) {
        Option::Some(u) => crate::model::liked_by_results(l, ids, u),
        Option::None => Seq::<QueryV>::empty(),
    });
    let blk_g = seq![
        QueryV::PostAggregates(
            n_posts(l) as u64,
            page_count_of(n_posts(l), psize as nat) as u64,
        ),
    ];
    let x1 = blk_a + blk_b;
    let x2 = x1 + blk_c;
    let x3 = x2 + blk_d;
    let x4 = x3 + blk_e;
    let x5 = x4 + blk_f;
    assert(spr == x5 + blk_g);
    lemma_field_results_shape(l, ids);
    lemma_body_results_shape(l, ids);
    lemma_creator_results_shape(l, ids);
    if i < x5.len() {
        assert(x5[i] == r);
        if i < x4.len() {
            assert(x4[i] == r);
            if i < x3.len() {
                assert(x3[i] == r);
                if i < x2.len() {
                    assert(x2[i] == r);
                    if i < x1.len() {
                        assert(x1[i] == r);
                        if i < blk_a.len() {
                            assert(blk_a[i] == r);
                            assert(r is PagePost);
                            assert(false);
                        } else {
                            assert(blk_b[i - blk_a.len()] == r);
                            assert(false);
                        }
                    } else {
                        assert(blk_c[i - x1.len()] == r);
                        assert(false);
                    }
                } else {
                    assert(blk_d[i - x2.len()] == r);
                    assert(false);
                }
            } else {
                let j = i - x3.len();
                assert(blk_e[j] == r);
                assert(r == QueryV::PostTotalLikes(ids[j], likes_of(l, ids[j]) as u64));
                assert(ids[j] == q);
                assert(ids.contains(q));
            }
        } else {
            let j = i - x4.len();
            assert(blk_f[j] == r);
            let u = crate::model::user_of(l, s)->Some_0;
            assert(blk_f == crate::model::liked_by_results(l, ids, u));
            assert(r == QueryV::PostLikedByUser(ids[j], net_like(l, u, ids[j]) > 0));
            assert(ids[j] == q);
            assert(ids.contains(q));
        }
    } else {
        assert(blk_g[i - x5.len()] == r);
        assert(false);
    }
}


// ---------------------------------------------------------------------------
// delivery: anything in a step's delta reaches its session's batch
// ---------------------------------------------------------------------------
proof fn lemma_delta_addrs_has(d: Seq<OutV>, x: OutV)
    requires
        d.contains(x),
    ensures
        crate::model::delta_addrs(d).contains(x.addr),
    decreases d.len(),
{
    let az = crate::model::delta_addrs(d);
    let before = crate::model::delta_addrs(d.drop_last());
    if d.last() == x {
        if before.contains(x.addr) {
            assert(az == before);
        } else {
            assert(az == before.push(x.addr));
            assert(az[az.len() - 1] == x.addr);
        }
    } else {
        let i = choose|i: int| 0 <= i < d.len() && d[i] == x;
        assert(d.drop_last()[i] == x);
        assert(d.drop_last().contains(x));
        lemma_delta_addrs_has(d.drop_last(), x);
        let j = choose|j: int| 0 <= j < before.len() && before[j] == x.addr;
        if before.contains(d.last().addr) {
            assert(az == before);
        } else {
            assert(az == before.push(d.last().addr));
            assert(az[j] == x.addr);
        }
    }
}

/// The demultiplexer delivers: whatever a step's delta holds for a session
/// appears in exactly that session's batch, in one delivery.
pub proof fn lemma_batch_delivery(d: Seq<OutV>, a: u64, r: QueryV)
    requires
        d.contains(OutV { addr: a, result: r }),
    ensures
        exists|i: int|
            0 <= i < crate::model::demux_spec(d).len() && crate::model::demux_spec(d)[i] == (
            a,
            results_for(d, a),
        ),
        results_for(d, a).contains(r),
{
    let x = OutV { addr: a, result: r };
    lemma_delta_addrs_has(d, x);
    lemma_results_for_has(d, a, r);
    let az = crate::model::delta_addrs(d);
    let j = choose|j: int| 0 <= j < az.len() && az[j] == a;
    let f = |s: u64| (s, results_for(d, s));
    assert(crate::model::demux_spec(d) == az.map_values(f));
    assert(az.map_values(f)[j] == (a, results_for(d, a)));
}

// ---------------------------------------------------------------------------
// gating holds of the unified output collection itself
// ---------------------------------------------------------------------------
proof fn lemma_output_membership(l: Seq<UpdateV>, keys: Seq<u64>, psize: u64, x: OutV)
    requires
        crate::model::all_session_results(l, keys, psize).contains(x),
    ensures
        crate::model::session_results(l, x.addr, psize).contains(x.result),
    decreases keys.len(),
{
    let whole = crate::model::all_session_results(l, keys, psize);
    let prefix = crate::model::all_session_results(l, keys.drop_last(), psize);
    let sr = crate::model::session_results(l, keys.last(), psize);
    let tagged = crate::model::tag_addr(keys.last(), sr);
    assert(whole == prefix + tagged);
    assert(tagged == sr.map_values(|r: QueryV| OutV { addr: keys.last(), result: r }));
    let i = choose|i: int| 0 <= i < whole.len() && whole[i] == x;
    if i < prefix.len() {
        assert(prefix[i] == x);
        assert(prefix.contains(x));
        lemma_output_membership(l, keys.drop_last(), psize, x);
    } else {
        let m = i - prefix.len();
        assert(tagged[m] == x);
        assert(tagged[m] == OutV { addr: keys.last(), result: sr[m] });
        assert(x.addr == keys.last() && x.result == sr[m]);
        assert(sr.contains(x.result));
    }
}

/// Gating at the output boundary: whenever the engine's unified output
/// addresses a like count or a like-membership flag for post `q` to session
/// `s`, that session's active page currently contains `q`.
pub proof fn lemma_output_like_gated(l: Seq<UpdateV>, s: u64, psize: u64, q: u64, r: QueryV)
    requires
        psize >= 1,
        output_spec(l, psize).contains(OutV { addr: s, result: r }),
        (r is PostTotalLikes && r->PostTotalLikes_0 == q) || (r is PostLikedByUser
            && r->PostLikedByUser_0 == q),
    ensures
        active_page(l, s) is Some,
        page_slice(l, active_page(l, s)->Some_0, psize).contains(q),
{
    let x = OutV { addr: s, result: r };
    let raw = crate::model::all_session_results(l, crate::model::addr_cands(l), psize);
    lemma_dedup_contains(raw, x);
    lemma_output_membership(l, crate::model::addr_cands(l), psize, x);
    lemma_like_results_gated(l, s, psize, q, r);
}


// ---------------------------------------------------------------------------
// what it means to have a page slot
// ---------------------------------------------------------------------------
proof fn lemma_has_page_post_exists(out: Seq<OutV>, a: u64, q: u64)
    ensures
        crate::model::has_page_post(out, a, q) <==> exists|i: int|
            0 <= i < out.len() && #[trigger] out[i].addr == a && out[i].result is PagePost
                && out[i].result->PagePost_0 == q,
    decreases out.len(),
{
    if out.len() > 0 {
        lemma_has_page_post_exists(out.drop_last(), a, q);
        if crate::model::has_page_post(out.drop_last(), a, q) {
            let i = choose|i: int|
                0 <= i < out.drop_last().len() && #[trigger] out.drop_last()[i].addr == a
                    && out.drop_last()[i].result is PagePost && out.drop_last()[i].result->PagePost_0
                    == q;
            assert(out[i] == out.drop_last()[i]);
        }
        if exists|i: int|
            0 <= i < out.len() && #[trigger] out[i].addr == a && out[i].result is PagePost
                && out[i].result->PagePost_0 == q {
            let i = choose|i: int|
                0 <= i < out.len() && #[trigger] out[i].addr == a && out[i].result is PagePost
                    && out[i].result->PagePost_0 == q;
            if i < out.len() - 1 {
                assert(out.drop_last()[i] == out[i]);
            } else {
                assert(out.last() == out[i]);
            }
        }
    }
}

proof fn lemma_push_new_keeps(s: Seq<u64>, x: u64, y: u64)
    ensures
        s.contains(y) || x == y ==> crate::model::push_new(s, x).contains(y),
{
    if s.contains(y) {
        let i = choose|i: int| 0 <= i < s.len() && s[i] == y;
        assert(crate::model::push_new(s, x)[i] == y);
    } else if x == y && !s.contains(x) {
        let r = s.push(x);
        assert(r[r.len() - 1] == y);
    }
}

/// A session with any page fact at all is among the log's addresses.
proof fn lemma_viewer_is_known(l: Seq<UpdateV>, s: u64)
    ensures
        crate::model::vp_cands(l, s).len() > 0 ==> crate::model::addr_cands(l).contains(s),
    decreases l.len(),
{
    if l.len() > 0 {
        lemma_viewer_is_known(l.drop_last(), s);
        let prev = crate::model::addr_cands(l.drop_last());
        if l.last().addr == s && l.last().fact is ViewPostsPage {
            lemma_push_new_keeps(prev, l.last().addr, s);
        } else {
            if crate::model::vp_cands(l, s).len() > 0 {
                lemma_push_new_keeps(prev, l.last().addr, s);
            }
        }
    }
}

proof fn lemma_all_results_intro(l: Seq<UpdateV>, keys: Seq<u64>, psize: u64, s: u64, r: QueryV)
    requires
        keys.contains(s),
        crate::model::session_results(l, s, psize).contains(r),
    ensures
        crate::model::all_session_results(l, keys, psize).contains(OutV { addr: s, result: r }),
    decreases keys.len(),
{
    let whole = crate::model::all_session_results(l, keys, psize);
    let prefix = crate::model::all_session_results(l, keys.drop_last(), psize);
    let sr = crate::model::session_results(l, keys.last(), psize);
    let tagged = crate::model::tag_addr(keys.last(), sr);
    assert(whole == prefix + tagged);
    assert(tagged == sr.map_values(|x: QueryV| OutV { addr: keys.last(), result: x }));
    if keys.last() == s {
        let m = choose|m: int| 0 <= m < sr.len() && sr[m] == r;
        assert(tagged[m] == OutV { addr: s, result: r });
        assert(whole[prefix.len() + m] == OutV { addr: s, result: r });
    } else {
        let i = choose|i: int| 0 <= i < keys.len() && keys[i] == s;
        assert(keys.drop_last()[i] == s);
        assert(keys.drop_last().contains(s));
        lemma_all_results_intro(l, keys.drop_last(), psize, s, r);
        let j = choose|j: int| 0 <= j < prefix.len() && prefix[j] == OutV { addr: s, result: r };
        assert(whole[j] == OutV { addr: s, result: r });
    }
}

/// A session holds a page slot for post `q` in the engine's output exactly
/// when `q` stands on the session's active page.
pub proof fn lemma_page_slot_iff_on_page(l: Seq<UpdateV>, s: u64, psize: u64, q: u64)
    requires
        psize >= 1,
    ensures
        crate::model::has_page_post(output_spec(l, psize), s, q) <==> (active_page(l, s) is Some
            && page_slice(l, active_page(l, s)->Some_0, psize).contains(q)),
{
    let out = output_spec(l, psize);
    let raw = crate::model::all_session_results(l, crate::model::addr_cands(l), psize);
    lemma_has_page_post_exists(out, s, q);
    if crate::model::has_page_post(out, s, q) {
        let i = choose|i: int|
            0 <= i < out.len() && #[trigger] out[i].addr == s && out[i].result is PagePost
                && out[i].result->PagePost_0 == q;
        let x = out[i];
        assert(out.contains(x));
        lemma_dedup_contains(raw, x);
        lemma_output_membership(l, crate::model::addr_cands(l), psize, x);
        let sr = crate::model::session_results(l, s, psize);
        let spr = session_page_results(l, s, psize);
        let ur = crate::model::user_results(l, crate::model::live_users(l, s));
        let m = choose|m: int| 0 <= m < sr.len() && sr[m] == x.result;
        lemma_user_results_shape(l, crate::model::live_users(l, s));
        if m >= spr.len() {
            assert(sr[m] == ur[m - spr.len()]);
            assert(false);
        }
        assert(spr[m] == x.result);
        if active_page(l, s) is None {
            assert(spr.len() == 0);
            assert(false);
        }
        let p = active_page(l, s)->Some_0;
        let ids = page_slice(l, p, psize);
        let blk_a = page_post_results(ids, p);
        if m < blk_a.len() {
            assert(blk_a[m] == x.result);
            assert(x.result == QueryV::PagePost(ids[m], p, m as u64));
            assert(ids[m] == q);
            assert(ids.contains(q));
        } else {
            // every later block holds no `PagePost`
            let blk_b = crate::model::field_results(l, ids);
            let blk_c = crate::model::body_results(l, ids);
            let blk_d = crate::model::creator_results(l, ids);
            let blk_e = crate::model::like_results(l, ids);
            let blk_f = (match crate::model::user_of(l, s) {
                Option::Some(u) => crate::model::liked_by_results(l, ids, u),
                Option::None => Seq::<QueryV>::empty(),
            });
            let blk_g = seq![
                QueryV::PostAggregates(
                    n_posts(l) as u64,
                    page_count_of(n_posts(l), psize as nat) as u64,
                ),
            ];
            let x1 = blk_a + blk_b;
            let x2 = x1 + blk_c;
            let x3 = x2 + blk_d;
            let x4 = x3 + blk_e;
            let x5 = x4 + blk_f;
            assert(spr == x5 + blk_g);
            lemma_field_results_shape(l, ids);
            lemma_body_results_shape(l, ids);
            lemma_creator_results_shape(l, ids);
            if m < x5.len() {
                assert(x5[m] == x.result);
                if m < x4.len() {
                    assert(x4[m] == x.result);
                    if m < x3.len() {
                        assert(x3[m] == x.result);
                        if m < x2.len() {
                            assert(x2[m] == x.result);
                            if m < x1.len() {
                                assert(x1[m] == x.result);
                                assert(blk_b[m - blk_a.len()] == x.result);
                                assert(false);
                            } else {
                                assert(blk_c[m - x1.len()] == x.result);
                                assert(false);
                            }
                        } else {
                            assert(blk_d[m - x2.len()] == x.result);
                            assert(false);
                        }
                    } else {
                        assert(blk_e[m - x3.len()] == x.result);
                        assert(false);
                    }
                } else {
                    let u = crate::model::user_of(l, s)->Some_0;
                    assert(blk_f == crate::model::liked_by_results(l, ids, u));
                    assert(blk_f[m - x4.len()] == x.result);
                    assert(false);
                }
            } else {
                assert(blk_g[m - x5.len()] == x.result);
                assert(false);
            }
        }
    }
    if active_page(l, s) is Some && page_slice(l, active_page(l, s)->Some_0, psize).contains(q) {
        let p = active_page(l, s)->Some_0;
        let ids = page_slice(l, p, psize);
        let j = choose|j: int| 0 <= j < ids.len() && ids[j] == q;
        lemma_page_post_results(l, s, psize, j);
        let spr = session_page_results(l, s, psize);
        let sr = crate::model::session_results(l, s, psize);
        let r = QueryV::PagePost(q, p, j as u64);
        assert(spr[j] == r);
        assert(sr[j] == r);
        assert(sr.contains(r));
        assert(crate::model::vp_cands(l, s).len() > 0) by {
            if crate::model::vp_cands(l, s).len() == 0 {
                assert(active_page(l, s) is None);
            }
        }
        lemma_viewer_is_known(l, s);
        lemma_all_results_intro(l, crate::model::addr_cands(l), psize, s, r);
        let x = OutV { addr: s, result: r };
        lemma_dedup_contains(raw, x);
        assert(out.contains(x));
        let i = choose|i: int| 0 <= i < out.len() && out[i] == x;
        lemma_has_page_post_exists(out, s, q);
        assert(out[i].addr == s && out[i].result is PagePost && out[i].result->PagePost_0 == q);
    }
}

/// Deleting a post notifies exactly the sessions that were viewing it,
/// stated over the logs themselves: if `q` stood on `s`'s active page
/// before the step and stands on no page of `s` after it, the step's batch
/// for `s` carries `DeletePost(q)`.
pub proof fn lemma_deletion_reaches_viewer(
    l_old: Seq<UpdateV>,
    l_new: Seq<UpdateV>,
    s: u64,
    q: u64,
    psize: u64,
)
    requires
        psize >= 1,
        active_page(l_old, s) is Some,
        page_slice(l_old, active_page(l_old, s)->Some_0, psize).contains(q),
        active_page(l_new, s) is Some ==> !page_slice(
            l_new,
            active_page(l_new, s)->Some_0,
            psize,
        ).contains(q),
    ensures
        results_for(
            delta_spec(output_spec(l_old, psize), output_spec(l_new, psize)),
            s,
        ).contains(QueryV::DeletePost(q)),
{
    lemma_page_slot_iff_on_page(l_old, s, psize, q);
    lemma_page_slot_iff_on_page(l_new, s, psize, q);
    lemma_deletion_notifies(output_spec(l_old, psize), output_spec(l_new, psize), s, q);
}

} // verus!
