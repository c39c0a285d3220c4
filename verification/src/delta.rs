//! The emitted delta of one step, and the session demultiplexer.

use vstd::prelude::*;

use crate::compute::{contains_u64, take_all, take_step};
use crate::data::{bv, ov, qv, OutItem, QueryResult};
use crate::model::{
    delete_results, delta_addrs, delta_spec, demux_spec, has_page_post, insert_results,
    results_for,
};
use crate::results::{contains_out, dedup_out_x};

verus! {

broadcast use crate::data::group_view_facts;

fn has_page_post_x(v: &Vec<OutItem>, a: u64, q: u64) -> (r: bool)
    ensures
        r == has_page_post(ov(v@), a, q),
{
    let ghost rv = ov(v@);
    let mut found = false;
    let mut i: usize = 0;
    while i < v.len()
        invariant
            0 <= i <= v@.len(),
            rv == ov(v@),
            rv.len() == v@.len(),
            found == has_page_post(rv.take(i as int), a, q),
        decreases v@.len() - i,
    {
        proof {
            take_step(rv, i as int);
            crate::data::ov_index(v@, i as int);
        }
        let hit = v[i].addr == a && (match &v[i].result {
            QueryResult::PagePost(qq, _, _) => *qq == q,
            _ => false,
        });
        found = found || hit;
        i += 1;
    }
    proof {
        take_all(rv);
    }
    found
}

/// The batch one step emits: `DeletePost` for every post that lost its page
/// slot, then every result not present before, consolidated.
pub(crate) fn delta_x(old_out: &Vec<OutItem>, new_out: &Vec<OutItem>) -> (r: Vec<OutItem>)
    ensures
        ov(r@) == delta_spec(ov(old_out@), ov(new_out@)),
{
    let ghost ovo = ov(old_out@);
    let ghost ovn = ov(new_out@);
    let mut d: Vec<OutItem> = Vec::new();
    let mut i: usize = 0;
    proof {
        assert(ov(d@) =~= delete_results(ovo.take(0), ovn));
    }
    while i < old_out.len()
        invariant
            0 <= i <= old_out@.len(),
            ovo == ov(old_out@),
            ovn == ov(new_out@),
            ovo.len() == old_out@.len(),
            ov(d@) == delete_results(ovo.take(i as int), ovn),
        decreases old_out@.len() - i,
    {
        proof {
            take_step(ovo, i as int);
            crate::data::ov_index(old_out@, i as int);
        }
        let e = &old_out[i];
        match &e.result {
            QueryResult::PagePost(q, _, _) => {
                let q = *q;
                if !has_page_post_x(new_out, e.addr, q) {
                    let ghost prev = d@;
                    d.push(OutItem { addr: e.addr, result: QueryResult::DeletePost(q) });
                    proof {
                        crate::data::ov_push(prev, d@.last(), d@);
                    }
                }
            },
            _ => {},
        }
        i += 1;
    }
    proof {
        take_all(ovo);
        assert(ov(d@) + insert_results(ovo, ovn.take(0)) =~= ov(d@));
    }
    let ghost dels = delete_results(ovo, ovn);
    let mut j: usize = 0;
    while j < new_out.len()
        invariant
            0 <= j <= new_out@.len(),
            ovo == ov(old_out@),
            ovn == ov(new_out@),
            ovn.len() == new_out@.len(),
            ov(d@) == dels + insert_results(ovo, ovn.take(j as int)),
        decreases new_out@.len() - j,
    {
        proof {
            take_step(ovn, j as int);
            crate::data::ov_index(new_out@, j as int);
        }
        if !contains_out(old_out, &new_out[j]) {
            let ghost prev = d@;
            d.push(new_out[j].clone());
            proof {
                crate::data::ov_push(prev, d@.last(), d@);
                assert(dels + insert_results(ovo, ovn.take(j + 1)) =~= (dels + insert_results(
                    ovo,
                    ovn.take(j as int),
                )).push(d@.last()@));
            }
        }
        j += 1;
    }
    proof {
        take_all(ovn);
    }
    dedup_out_x(&d)
}

fn delta_addrs_x(d: &Vec<OutItem>) -> (r: Vec<u64>)
    ensures
        r@ == delta_addrs(ov(d@)),
{
    let ghost rv = ov(d@);
    let mut out: Vec<u64> = Vec::new();
    let mut i: usize = 0;
    while i < d.len()
        invariant
            0 <= i <= d@.len(),
            rv == ov(d@),
            rv.len() == d@.len(),
            out@ == delta_addrs(rv.take(i as int)),
        decreases d@.len() - i,
    {
        proof {
            take_step(rv, i as int);
            crate::data::ov_index(d@, i as int);
        }
        if !contains_u64(&out, d[i].addr) {
            out.push(d[i].addr);
        }
        i += 1;
    }
    proof {
        take_all(rv);
    }
    out
}

fn results_for_x(d: &Vec<OutItem>, a: u64) -> (r: Vec<QueryResult>)
    ensures
        qv(r@) == results_for(ov(d@), a),
{
    let ghost rv = ov(d@);
    let mut out: Vec<QueryResult> = Vec::new();
    let mut i: usize = 0;
    proof {
        assert(qv(out@) =~= results_for(rv.take(0), a));
    }
    while i < d.len()
        invariant
            0 <= i <= d@.len(),
            rv == ov(d@),
            rv.len() == d@.len(),
            qv(out@) == results_for(rv.take(i as int), a),
        decreases d@.len() - i,
    {
        proof {
            take_step(rv, i as int);
            crate::data::ov_index(d@, i as int);
        }
        if d[i].addr == a {
            let ghost prev = out@;
            out.push(d[i].result.clone());
            proof {
                crate::data::qv_push(prev, out@.last(), out@);
            }
        }
        i += 1;
    }
    proof {
        take_all(rv);
    }
    out
}

/// Groups a step's delta into one ordered batch per affected session.
pub(crate) fn demux_x(d: &Vec<OutItem>) -> (r: Vec<(u64, Vec<QueryResult>)>)
    ensures
        bv(r@) == demux_spec(ov(d@)),
{
    let ghost rv = ov(d@);
    let ghost av = delta_addrs(rv);
    let addrs = delta_addrs_x(d);
    let mut out: Vec<(u64, Vec<QueryResult>)> = Vec::new();
    let mut i: usize = 0;
    while i < addrs.len()
        invariant
            0 <= i <= addrs@.len(),
            rv == ov(d@),
            av == delta_addrs(rv),
            addrs@ == av,
            out@.len() == i,
            forall|m: int|
                0 <= m < i ==> #[trigger] bv(out@)[m] == (av[m], results_for(rv, av[m])),
        decreases addrs@.len() - i,
    {
        let a = addrs[i];
        let rs = results_for_x(d, a);
        let ghost prev = out@;
        out.push((a, rs));
        proof {
            crate::data::bv_push(prev, out@.last(), out@);
            crate::data::bv_len(prev);
            assert(bv(out@)[i as int] == (av[i as int], results_for(rv, av[i as int])));
            assert(forall|m: int|
                0 <= m < i ==> #[trigger] bv(out@)[m] == bv(prev)[m]);
        }
        i += 1;
    }
    proof {
        crate::data::bv_len(out@);
        assert(demux_spec(rv) == av.map_values(|a: u64| (a, results_for(rv, a))));
        assert(bv(out@) =~= demux_spec(rv));
    }
    out
}

} // verus!
