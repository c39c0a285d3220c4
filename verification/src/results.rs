//! Builds the full result set of one session, and the unified, consolidated
//! output collection over all sessions.

use vstd::prelude::*;

use vstd::string::StringExecFns;

use crate::compute::{
    active_page_x, addr_cands_x, body_cands_x, diffs_pm1, likes_of_x, live_users_x, net_body_x,
    net_like_x, net_title_x, post_add_info, take_all, take_step, texts, title_cands_x,
    user_like_count_x, user_of_x, user_post_count_x,
};
use crate::data::{lv, ov, qv, OutItem, QueryResult, Update};
use crate::model::{
    all_session_results, body_results, creator_results, dec_str, dedup_out, digit_char,
    field_results, like_results, liked_by_results, output_spec, page_count_of, page_post_results,
    page_slice, post_order, session_page_results, session_results, tag_addr, user_results,
};
use crate::pages::{page_slice_x, post_order_x};

verus! {

broadcast use {crate::data::group_view_facts, crate::compute::texts_len, crate::compute::texts_index};

fn digit_str(d: u64) -> (r: &'static str)
    requires
        d < 10,
    ensures
        r@ == seq![digit_char(d as int)],
{
    proof {
        reveal_strlit("0");
        reveal_strlit("1");
        reveal_strlit("2");
        reveal_strlit("3");
        reveal_strlit("4");
        reveal_strlit("5");
        reveal_strlit("6");
        reveal_strlit("7");
        reveal_strlit("8");
        reveal_strlit("9");
    }
    let r = if d == 0 {
        "0"
    } else if d == 1 {
        "1"
    } else if d == 2 {
        "2"
    } else if d == 3 {
        "3"
    } else if d == 4 {
        "4"
    } else if d == 5 {
        "5"
    } else if d == 6 {
        "6"
    } else if d == 7 {
        "7"
    } else if d == 8 {
        "8"
    } else {
        "9"
    };
    proof {
        assert(r@ =~= seq![digit_char(d as int)]);
    }
    r
}

/// Renders `n` in decimal, exactly as the model's `dec_str` spells it.
pub fn dec_string(n: u64) -> (r: String)
    ensures
        r@ == dec_str(n as nat),
    decreases n,
{
    if n < 10 {
        digit_str(n).to_owned()
    } else {
        let mut s = dec_string(n / 10);
        let d = digit_str(n % 10);
        s.append(d);
        proof {
            assert(dec_str(n as nat) =~= dec_str((n as nat) / 10) + seq![
                digit_char(((n as nat) % 10) as int),
            ]);
        }
        s
    }
}

/// The full current result set of session `s`, in the model's order.
pub(crate) fn session_results_x(log: &Vec<Update>, s: u64, psize: u64, ord: &Vec<u64>) -> (r: Vec<
    QueryResult,
>)
    requires
        diffs_pm1(lv(log@)),
        psize >= 1,
        ord@ == post_order(lv(log@)),
    ensures
        qv(r@) == session_results(lv(log@), s, psize),
{
    let ghost l = lv(log@);
    let mut out: Vec<QueryResult> = Vec::new();
    let ap = active_page_x(log, s);
    if ap.0 {
        let p = ap.1;
        let ids = page_slice_x(log, ord, p, psize);
        let ghost idv = ids@;
        assert(idv == page_slice(l, p, psize));
        // page posts, one per rank
        let mut j: usize = 0;
        while j < ids.len()
            invariant
                0 <= j <= idv.len(),
                idv == ids@,
                qv(out@) == page_post_results(idv.take(j as int), p),
            decreases idv.len() - j,
        {
            let ghost prev = out@;
            out.push(QueryResult::PagePost(ids[j], p, j as u64));
            proof {
                crate::data::qv_push(prev, out@.last(), out@);
                assert(page_post_results(idv.take(j + 1), p) =~= page_post_results(
                    idv.take(j as int),
                    p,
                ).push(crate::data::QueryV::PagePost(idv[j as int], p, j as u64)));
            }
            j += 1;
        }
        proof {
            take_all(idv);
        }
        // titles of every post on the page
        let ghost stage1 = page_post_results(idv, p);
        let mut i: usize = 0;
        while i < ids.len()
            invariant
                0 <= i <= idv.len(),
                idv == ids@,
                l == lv(log@),
                diffs_pm1(l),
                qv(out@) == stage1 + field_results(l, idv.take(i as int)),
            decreases idv.len() - i,
        {
            proof {
                take_step(idv, i as int);
            }
            let q = ids[i];
            let tc = title_cands_x(log, q);
            let ghost tks = texts(tc@);
            let mut k: usize = 0;
            while k < tc.len()
                invariant
                    0 <= k <= tks.len(),
                    tks == texts(tc@),
                    l == lv(log@),
                    diffs_pm1(l),
                    qv(out@) == stage1 + field_results(l, idv.take(i as int))
                        + crate::model::filter_titles(l, tks.take(k as int), q),
                decreases tks.len() - k,
            {
                proof {
                    take_step(tks, k as int);
                }
                if net_title_x(log, q, &tc[k]) > 0 {
                    let ghost prev = out@;
                    out.push(QueryResult::PostTitle(q, tc[k].clone()));
                    proof {
                        crate::data::qv_push(prev, out@.last(), out@);
                        crate::compute::texts_index(tc@, k as int);
                        assert(out@.last()@ == crate::data::QueryV::PostTitle(q, tks[k as int]));
                        assert(stage1 + field_results(l, idv.take(i as int))
                            + crate::model::filter_titles(l, tks.take(k + 1), q) =~= (stage1
                            + field_results(l, idv.take(i as int)) + crate::model::filter_titles(
                            l,
                            tks.take(k as int),
                            q,
                        )).push(out@.last()@));
                    }
                }
                k += 1;
            }
            proof {
                take_all(tks);
                assert(stage1 + field_results(l, idv.take(i + 1)) =~= stage1 + (field_results(
                    l,
                    idv.take(i as int),
                ) + crate::model::filter_titles(l, tks, q)));
            }
            i += 1;
        }
        proof {
            take_all(idv);
        }
        // bodies of every post on the page
        let ghost stage2 = stage1 + field_results(l, idv);
        let mut i: usize = 0;
        while i < ids.len()
            invariant
                0 <= i <= idv.len(),
                idv == ids@,
                l == lv(log@),
                diffs_pm1(l),
                qv(out@) == stage2 + body_results(l, idv.take(i as int)),
            decreases idv.len() - i,
        {
            proof {
                take_step(idv, i as int);
            }
            let q = ids[i];
            let bc = body_cands_x(log, q);
            let ghost bks = texts(bc@);
            let mut k: usize = 0;
            while k < bc.len()
                invariant
                    0 <= k <= bks.len(),
                    bks == texts(bc@),
                    l == lv(log@),
                    diffs_pm1(l),
                    qv(out@) == stage2 + body_results(l, idv.take(i as int))
                        + crate::model::filter_bodies(l, bks.take(k as int), q),
                decreases bks.len() - k,
            {
                proof {
                    take_step(bks, k as int);
                }
                if net_body_x(log, q, &bc[k]) > 0 {
                    let ghost prev = out@;
                    out.push(QueryResult::PostBody(q, bc[k].clone()));
                    proof {
                        crate::data::qv_push(prev, out@.last(), out@);
                        crate::compute::texts_index(bc@, k as int);
                        assert(out@.last()@ == crate::data::QueryV::PostBody(q, bks[k as int]));
                        assert(stage2 + body_results(l, idv.take(i as int))
                            + crate::model::filter_bodies(l, bks.take(k + 1), q) =~= (stage2
                            + body_results(l, idv.take(i as int)) + crate::model::filter_bodies(
                            l,
                            bks.take(k as int),
                            q,
                        )).push(out@.last()@));
                    }
                }
                k += 1;
            }
            proof {
                take_all(bks);
                assert(stage2 + body_results(l, idv.take(i + 1)) =~= stage2 + (body_results(
                    l,
                    idv.take(i as int),
                ) + crate::model::filter_bodies(l, bks, q)));
            }
            i += 1;
        }
        proof {
            take_all(idv);
        }
        // creators of every post on the page
        let ghost stage3 = stage2 + body_results(l, idv);
        let mut i: usize = 0;
        while i < ids.len()
            invariant
                0 <= i <= idv.len(),
                idv == ids@,
                l == lv(log@),
                diffs_pm1(l),
                qv(out@) == stage3 + creator_results(l, idv.take(i as int)),
            decreases idv.len() - i,
        {
            proof {
                take_step(idv, i as int);
            }
            let q = ids[i];
            let info = post_add_info(log, q);
            let cr = if info.0 {
                info.2
            } else {
                0
            };
            assert(cr == crate::model::creator(l, q));
            let uo = user_of_x(log, cr);
            if uo.0 {
                let ghost prev = out@;
                out.push(QueryResult::PostCreator(q, dec_string(uo.1)));
                proof {
                    crate::data::qv_push(prev, out@.last(), out@);
                    assert(out@.last()@ == crate::data::QueryV::PostCreator(
                        q,
                        dec_str(uo.1 as nat),
                    ));
                    assert(creator_results(l, idv.take(i + 1)) == creator_results(
                        l,
                        idv.take(i as int),
                    ) + seq![out@.last()@]);
                    assert(stage3 + creator_results(l, idv.take(i + 1)) =~= (stage3
                        + creator_results(l, idv.take(i as int))).push(out@.last()@));
                }
            } else {
                proof {
                    assert(stage3 + creator_results(l, idv.take(i + 1)) =~= stage3
                        + creator_results(l, idv.take(i as int)));
                }
            }
            i += 1;
        }
        proof {
            take_all(idv);
        }
        // like counts of every post on the page
        let ghost stage4 = stage3 + creator_results(l, idv);
        let mut i: usize = 0;
        while i < ids.len()
            invariant
                0 <= i <= idv.len(),
                idv == ids@,
                l == lv(log@),
                diffs_pm1(l),
                qv(out@) == stage4 + like_results(l, idv.take(i as int)),
            decreases idv.len() - i,
        {
            let q = ids[i];
            let n = likes_of_x(log, q);
            let ghost prev = out@;
            out.push(QueryResult::PostTotalLikes(q, n));
            proof {
                crate::data::qv_push(prev, out@.last(), out@);
                assert(like_results(l, idv.take(i + 1)) =~= like_results(l, idv.take(i as int))
                    .push(crate::data::QueryV::PostTotalLikes(
                    idv[i as int],
                    crate::model::likes_of(l, idv[i as int]) as u64,
                )));
                assert(stage4 + like_results(l, idv.take(i + 1)) =~= (stage4 + like_results(
                    l,
                    idv.take(i as int),
                )).push(out@.last()@));
            }
            i += 1;
        }
        proof {
            take_all(idv);
        }
        // like membership for the viewer's own user
        let ghost stage5 = stage4 + like_results(l, idv);
        let me = user_of_x(log, s);
        if me.0 {
            let u = me.1;
            let mut i: usize = 0;
            while i < ids.len()
                invariant
                    0 <= i <= idv.len(),
                    idv == ids@,
                    l == lv(log@),
                    diffs_pm1(l),
                    crate::model::user_of(l, s) == Option::Some(u),
                    qv(out@) == stage5 + liked_by_results(l, idv.take(i as int), u),
                decreases idv.len() - i,
            {
                let q = ids[i];
                let liked = net_like_x(log, u, q) > 0;
                let ghost prev = out@;
                out.push(QueryResult::PostLikedByUser(q, liked));
                proof {
                    crate::data::qv_push(prev, out@.last(), out@);
                    assert(liked_by_results(l, idv.take(i + 1), u) =~= liked_by_results(
                        l,
                        idv.take(i as int),
                        u,
                    ).push(crate::data::QueryV::PostLikedByUser(
                        idv[i as int],
                        crate::model::net_like(l, u, idv[i as int]) > 0,
                    )));
                    assert(stage5 + liked_by_results(l, idv.take(i + 1), u) =~= (stage5
                        + liked_by_results(l, idv.take(i as int), u)).push(out@.last()@));
                }
                i += 1;
            }
            proof {
                take_all(idv);
            }
        } else {
            proof {
                assert(stage5 + Seq::<crate::data::QueryV>::empty() =~= stage5);
            }
        }
        let ghost stage6 = stage5 + (match crate::model::user_of(l, s) {
            Option::Some(u) => liked_by_results(l, idv, u),
            Option::None => Seq::empty(),
        });
        assert(qv(out@) == stage6);
        // listing aggregates
        let n64: u64 = ord.len() as u64;
        assert(n64 as nat == crate::model::n_posts(l));
        let pc: u64 = if n64 == 0 {
            1
        } else {
            proof {
                assert((n64 as int + psize as int - 1) / psize as int <= n64 as int)
                    by (nonlinear_arith)
                    requires
                        n64 as int >= 1,
                        psize as int >= 1,
                ;
            }
            ((n64 as u128 + psize as u128 - 1) / psize as u128) as u64
        };
        assert(pc as nat == page_count_of(crate::model::n_posts(l), psize as nat));
        let ghost prev = out@;
        out.push(QueryResult::PostAggregates(n64, pc));
        proof {
            crate::data::qv_push(prev, out@.last(), out@);
            assert(qv(out@) =~= stage6 + seq![
                crate::data::QueryV::PostAggregates(
                    crate::model::n_posts(l) as u64,
                    page_count_of(crate::model::n_posts(l), psize as nat) as u64,
                ),
            ]);
            assert(qv(out@) == session_page_results(l, s, psize));
        }
    } else {
        proof {
            assert(qv(out@) =~= session_page_results(l, s, psize));
        }
    }
    // per-user aggregates
    let ghost page_part = session_page_results(l, s, psize);
    assert(qv(out@) == page_part);
    let us = live_users_x(log, s);
    let ghost uv = us@;
    let mut i: usize = 0;
    while i < us.len()
        invariant
            0 <= i <= uv.len(),
            uv == us@,
            l == lv(log@),
            diffs_pm1(l),
            qv(out@) == page_part + user_results(l, uv.take(i as int)),
        decreases uv.len() - i,
    {
        proof {
            take_step(uv, i as int);
        }
        let u = us[i];
        let pcnt = user_post_count_x(log, u);
        let lcnt = user_like_count_x(log, u);
        let ghost prev0 = out@;
        out.push(QueryResult::UserPostCount(pcnt));
        let ghost prev1 = out@;
        out.push(QueryResult::UserLikeCount(lcnt));
        proof {
            crate::data::qv_push(prev0, prev1.last(), prev1);
            crate::data::qv_push(prev1, out@.last(), out@);
            assert(user_results(l, uv.take(i + 1)) =~= user_results(l, uv.take(i as int)).push(
                prev1.last()@,
            ).push(out@.last()@));
            assert(page_part + user_results(l, uv.take(i + 1)) =~= (page_part + user_results(
                l,
                uv.take(i as int),
            )).push(prev1.last()@).push(out@.last()@));
        }
        i += 1;
    }
    proof {
        take_all(uv);
    }
    out
}

pub(crate) fn contains_out(v: &Vec<OutItem>, x: &OutItem) -> (r: bool)
    ensures
        r == ov(v@).contains(x@),
{
    let mut i: usize = 0;
    while i < v.len()
        invariant
            0 <= i <= v@.len(),
            forall|j: int| 0 <= j < i ==> ov(v@)[j] != x@,
        decreases v@.len() - i,
    {
        if v[i].addr == x.addr && v[i].result == x.result {
            assert(ov(v@)[i as int] == x@);
            return true;
        }
        assert(ov(v@)[i as int] != x@);
        i += 1;
    }
    false
}

/// Drops every repeated entry, keeping first occurrences in order: the
/// consolidation applied before anything reaches the output boundary.
pub(crate) fn dedup_out_x(raw: &Vec<OutItem>) -> (r: Vec<OutItem>)
    ensures
        ov(r@) == dedup_out(ov(raw@)),
{
    let ghost rv = ov(raw@);
    let mut out: Vec<OutItem> = Vec::new();
    let mut i: usize = 0;
    while i < raw.len()
        invariant
            0 <= i <= rv.len(),
            rv == ov(raw@),
            ov(out@) == dedup_out(rv.take(i as int)),
        decreases rv.len() - i,
    {
        proof {
            take_step(rv, i as int);
        }
        if !contains_out(&out, &raw[i]) {
            let ghost prev = out@;
            out.push(raw[i].clone());
            proof {
                crate::data::ov_push(prev, out@.last(), out@);
                crate::data::ov_index(raw@, i as int);
                assert(ov(out@) == dedup_out(rv.take(i + 1)));
            }
        }
        i += 1;
    }
    proof {
        take_all(rv);
    }
    out
}

/// The engine's full derived output: every session's result set, unified
/// and consolidated.
pub(crate) fn compute_output(log: &Vec<Update>, psize: u64) -> (r: Vec<OutItem>)
    requires
        diffs_pm1(lv(log@)),
        psize >= 1,
    ensures
        ov(r@) == output_spec(lv(log@), psize),
{
    let ghost l = lv(log@);
    let ord = post_order_x(log);
    let addrs = addr_cands_x(log);
    let ghost av = addrs@;
    let mut raw: Vec<OutItem> = Vec::new();
    let mut i: usize = 0;
    while i < addrs.len()
        invariant
            0 <= i <= av.len(),
            av == addrs@,
            l == lv(log@),
            diffs_pm1(l),
            psize >= 1,
            ord@ == post_order(l),
            ov(raw@) == all_session_results(l, av.take(i as int), psize),
        decreases av.len() - i,
    {
        proof {
            take_step(av, i as int);
        }
        let s = addrs[i];
        let rs = session_results_x(log, s, psize, &ord);
        let ghost rsv = qv(rs@);
        let mut j: usize = 0;
        while j < rs.len()
            invariant
                0 <= j <= rsv.len(),
                rsv == qv(rs@),
                ov(raw@) == all_session_results(l, av.take(i as int), psize) + tag_addr(
                    s,
                    rsv.take(j as int),
                ),
            decreases rsv.len() - j,
        {
            let ghost prev = raw@;
            raw.push(OutItem { addr: s, result: rs[j].clone() });
            proof {
                crate::data::ov_push(prev, raw@.last(), raw@);
                crate::data::qv_index(rs@, j as int);
                assert(raw@.last()@ == crate::data::OutV { addr: s, result: rsv[j as int] });
                assert(tag_addr(s, rsv.take(j + 1)) =~= tag_addr(s, rsv.take(j as int)).push(
                    raw@.last()@,
                ));
                assert(all_session_results(l, av.take(i as int), psize) + tag_addr(
                    s,
                    rsv.take(j + 1),
                ) =~= (all_session_results(l, av.take(i as int), psize) + tag_addr(
                    s,
                    rsv.take(j as int),
                )).push(raw@.last()@));
            }
            j += 1;
        }
        proof {
            take_all(rsv);
            assert(all_session_results(l, av.take(i + 1), psize) =~= all_session_results(
                l,
                av.take(i as int),
                psize,
            ) + tag_addr(s, session_results(l, s, psize)));
        }
        i += 1;
    }
    proof {
        take_all(av);
    }
    dedup_out_x(&raw)
}

} // verus!
