//! Consolidation: merges every group of entries that agree on value and
//! time into one entry carrying the net multiplicity, and drops groups
//! whose net is zero. It is applied wherever duplicate or self-cancelling
//! entries must not reach an output boundary.

use vstd::prelude::*;

use crate::compute::{take_all, take_step};
use crate::data::{lv, FactV, Update, UpdateV};

verus! {

broadcast use crate::data::group_view_facts;

/// Two entries describe the same fact at the same time.
pub open spec fn same_key(a: UpdateV, b: UpdateV) -> bool {
    a.addr == b.addr && a.id == b.id && a.fact == b.fact && a.time == b.time
}

/// Whether some entry of `s` shares `e`'s key.
pub open spec fn has_key(s: Seq<UpdateV>, e: UpdateV) -> bool
    decreases s.len(),
{
    if s.len() == 0 {
        false
    } else {
        has_key(s.drop_last(), e) || same_key(s.last(), e)
    }
}

/// The net multiplicity of `e`'s group in `l`.
pub open spec fn key_total(l: Seq<UpdateV>, e: UpdateV) -> int
    decreases l.len(),
{
    if l.len() == 0 {
        0
    } else {
        key_total(l.drop_last(), e) + if same_key(l.last(), e) {
            l.last().diff as int
        } else {
            0
        }
    }
}

/// One representative entry per group, in order of first appearance.
pub open spec fn key_reps(l: Seq<UpdateV>) -> Seq<UpdateV>
    decreases l.len(),
{
    if l.len() == 0 {
        Seq::empty()
    } else {
        let r = key_reps(l.drop_last());
        if has_key(r, l.last()) {
            r
        } else {
            r.push(l.last())
        }
    }
}

/// One entry per group of `keys`, carrying the group's net multiplicity;
/// groups with net zero disappear.
pub open spec fn merge_groups(l: Seq<UpdateV>, keys: Seq<UpdateV>) -> Seq<UpdateV>
    decreases keys.len(),
{
    if keys.len() == 0 {
        Seq::empty()
    } else {
        let r = merge_groups(l, keys.drop_last());
        let e = keys.last();
        let tot = key_total(l, e);
        if tot != 0 {
            r.push(UpdateV { addr: e.addr, id: e.id, fact: e.fact, time: e.time, diff: tot as i64 })
        } else {
            r
        }
    }
}

/// The consolidation of a collection.
pub open spec fn consolidate_spec(l: Seq<UpdateV>) -> Seq<UpdateV> {
    merge_groups(l, key_reps(l))
}

fn same_key_x(a: &Update, b: &Update) -> (r: bool)
    ensures
        r == same_key(a@, b@),
{
    a.addr == b.addr && a.id == b.id && a.fact == b.fact && a.time == b.time
}

fn has_key_x(v: &Vec<Update>, e: &Update) -> (r: bool)
    ensures
        r == has_key(lv(v@), e@),
{
    let ghost kv = lv(v@);
    let mut found = false;
    let mut i: usize = 0;
    while i < v.len()
        invariant
            0 <= i <= v@.len(),
            kv == lv(v@),
            kv.len() == v@.len(),
            found == has_key(kv.take(i as int), e@),
        decreases v@.len() - i,
    {
        proof {
            take_step(kv, i as int);
            crate::data::lv_index(v@, i as int);
        }
        found = found || same_key_x(&v[i], e);
        i += 1;
    }
    proof {
        take_all(kv);
    }
    found
}

fn key_total_x(log: &Vec<Update>, e: &Update) -> (r: i128)
    requires
        crate::compute::diffs_pm1(lv(log@)),
    ensures
        r as int == key_total(lv(log@), e@),
{
    let ghost l = lv(log@);
    let mut acc: i128 = 0;
    let mut i: usize = 0;
    while i < log.len()
        invariant
            0 <= i <= log@.len(),
            l == lv(log@),
            l.len() == log@.len(),
            crate::compute::diffs_pm1(l),
            acc as int == key_total(l.take(i as int), e@),
            -(i as int) <= acc as int <= i as int,
        decreases log@.len() - i,
    {
        proof {
            take_step(l, i as int);
            crate::data::lv_index(log@, i as int);
        }
        if same_key_x(&log[i], e) {
            acc = acc + log[i].diff as i128;
        }
        i += 1;
    }
    proof {
        take_all(l);
    }
    acc
}

fn key_reps_x(log: &Vec<Update>) -> (r: Vec<Update>)
    ensures
        lv(r@) == key_reps(lv(log@)),
{
    let ghost l = lv(log@);
    let mut out: Vec<Update> = Vec::new();
    let mut i: usize = 0;
    while i < log.len()
        invariant
            0 <= i <= log@.len(),
            l == lv(log@),
            l.len() == log@.len(),
            lv(out@) == key_reps(l.take(i as int)),
        decreases log@.len() - i,
    {
        proof {
            take_step(l, i as int);
            crate::data::lv_index(log@, i as int);
        }
        if !has_key_x(&out, &log[i]) {
            let ghost prev = out@;
            out.push(log[i].clone());
            proof {
                crate::data::lv_push(prev, out@.last(), out@);
            }
        }
        i += 1;
    }
    proof {
        take_all(l);
    }
    out
}

/// Merges every (value, time) group into one entry with the net diff and
/// drops zero-net groups, keeping groups in order of first appearance.
pub fn consolidate(entries: &Vec<Update>) -> (r: Vec<Update>)
    requires
        crate::compute::diffs_pm1(lv(entries@)),
    ensures
        lv(r@) == consolidate_spec(lv(entries@)),
{
    let ghost l = lv(entries@);
    let reps = key_reps_x(entries);
    let ghost ks = lv(reps@);
    let mut out: Vec<Update> = Vec::new();
    let mut i: usize = 0;
    while i < reps.len()
        invariant
            0 <= i <= reps@.len(),
            l == lv(entries@),
            ks == lv(reps@),
            ks.len() == reps@.len(),
            ks == key_reps(l),
            crate::compute::diffs_pm1(l),
            lv(out@) == merge_groups(l, ks.take(i as int)),
        decreases reps@.len() - i,
    {
        proof {
            take_step(ks, i as int);
            crate::data::lv_index(reps@, i as int);
        }
        let tot = key_total_x(entries, &reps[i]);
        proof {
            crate::data::lv_len(entries@);
            lemma_key_total_bound(l, ks[i as int]);
        }
        if tot != 0 {
            let e = &reps[i];
            let ghost prev = out@;
            out.push(
                Update {
                    addr: e.addr,
                    id: e.id,
                    fact: e.fact.clone(),
                    time: e.time,
                    diff: tot as i64,
                },
            );
            proof {
                crate::data::lv_push(prev, out@.last(), out@);
            }
        }
        i += 1;
    }
    proof {
        take_all(ks);
    }
    out
}

/// The net of a group is bounded by the number of entries, so it fits the
/// diff type.
proof fn lemma_key_total_bound(l: Seq<UpdateV>, e: UpdateV)
    requires
        crate::compute::diffs_pm1(l),
    ensures
        -(l.len() as int) <= key_total(l, e) <= l.len() as int,
    decreases l.len(),
{
    if l.len() > 0 {
        lemma_key_total_bound(l.drop_last(), e);
    }
}

// ---------------------------------------------------------------------------
// idempotence
// ---------------------------------------------------------------------------
/// No two entries share a key.
pub open spec fn distinct_keys(s: Seq<UpdateV>) -> bool {
    forall|i: int, j: int| 0 <= i < j < s.len() ==> !same_key(s[i], s[j])
}

proof fn lemma_has_key_exists(s: Seq<UpdateV>, e: UpdateV)
    ensures
        has_key(s, e) <==> exists|i: int| 0 <= i < s.len() && same_key(s[i], e),
    decreases s.len(),
{
    if s.len() > 0 {
        lemma_has_key_exists(s.drop_last(), e);
        if has_key(s.drop_last(), e) {
            let i = choose|i: int| 0 <= i < s.drop_last().len() && same_key(s.drop_last()[i], e);
            assert(same_key(s[i], e));
        }
        if same_key(s.last(), e) {
            assert(same_key(s[s.len() - 1], e));
        }
        if exists|i: int| 0 <= i < s.len() && same_key(s[i], e) {
            let i = choose|i: int| 0 <= i < s.len() && same_key(s[i], e);
            if i < s.len() - 1 {
                assert(s.drop_last()[i] == s[i]);
                assert(has_key(s.drop_last(), e));
            } else {
                assert(same_key(s.last(), e));
            }
        }
    }
}

/// Representatives carry pairwise distinct keys.
proof fn lemma_key_reps_distinct(l: Seq<UpdateV>)
    ensures
        distinct_keys(key_reps(l)),
    decreases l.len(),
{
    if l.len() > 0 {
        lemma_key_reps_distinct(l.drop_last());
        let r = key_reps(l.drop_last());
        if !has_key(r, l.last()) {
            let r2 = r.push(l.last());
            lemma_has_key_exists(r, l.last());
            assert forall|i: int, j: int| 0 <= i < j < r2.len() implies !same_key(
                r2[i],
                r2[j],
            ) by {
                if j < r.len() {
                    assert(r2[i] == r[i] && r2[j] == r[j]);
                } else {
                    assert(r2[j] == l.last());
                    assert(r2[i] == r[i]);
                }
            }
        }
    }
}

/// On a seq with distinct keys, each entry's group is just itself.
proof fn lemma_key_total_distinct(s: Seq<UpdateV>, j: int)
    requires
        distinct_keys(s),
        0 <= j < s.len(),
    ensures
        key_total(s, s[j]) == s[j].diff as int,
    decreases s.len(),
{
    if s.len() > 0 {
        if j == s.len() - 1 {
            assert forall|i: int| 0 <= i < s.drop_last().len() implies !same_key(
                #[trigger] s.drop_last()[i],
                s[j],
            ) by {
                assert(s.drop_last()[i] == s[i]);
                assert(!same_key(s[i], s[j]));
            }
            lemma_key_total_none(s.drop_last(), s[j]);
            assert(same_key(s.last(), s[j]));
        } else {
            assert(distinct_keys(s.drop_last())) by {
                assert forall|a: int, b: int|
                    0 <= a < b < s.drop_last().len() implies !same_key(
                    s.drop_last()[a],
                    s.drop_last()[b],
                ) by {
                    assert(s.drop_last()[a] == s[a] && s.drop_last()[b] == s[b]);
                }
            }
            assert(s.drop_last()[j] == s[j]);
            lemma_key_total_distinct(s.drop_last(), j);
            assert(s.last() == s[s.len() - 1]);
            assert(!same_key(s[j], s[s.len() - 1]));
            assert(!same_key(s.last(), s[j]));
        }
    }
}

/// If nothing in `s` shares `e`'s key, the group's net is zero.
proof fn lemma_key_total_none(s: Seq<UpdateV>, e: UpdateV)
    requires
        forall|i: int| 0 <= i < s.len() ==> !same_key(#[trigger] s[i], e),
    ensures
        key_total(s, e) == 0,
    decreases s.len(),
{
    if s.len() > 0 {
        assert(s.drop_last() =~= s.take(s.len() - 1));
        assert forall|i: int| 0 <= i < s.drop_last().len() implies !same_key(
            #[trigger] s.drop_last()[i],
            e,
        ) by {
            assert(s.drop_last()[i] == s[i]);
        }
        lemma_key_total_none(s.drop_last(), e);
        assert(!same_key(s.last(), e));
        assert(s.last() == s[s.len() - 1]);
    }
}

/// On a seq with distinct keys, collecting representatives returns the seq
/// itself.
proof fn lemma_key_reps_identity(s: Seq<UpdateV>)
    requires
        distinct_keys(s),
    ensures
        key_reps(s) == s,
    decreases s.len(),
{
    if s.len() == 0 {
        assert(key_reps(s) =~= s);
    } else {
        assert(distinct_keys(s.drop_last())) by {
            assert forall|a: int, b: int|
                0 <= a < b < s.drop_last().len() implies !same_key(
                s.drop_last()[a],
                s.drop_last()[b],
            ) by {
                assert(s.drop_last()[a] == s[a] && s.drop_last()[b] == s[b]);
            }
        }
        lemma_key_reps_identity(s.drop_last());
        lemma_has_key_exists(s.drop_last(), s.last());
        assert(!has_key(s.drop_last(), s.last())) by {
            if has_key(s.drop_last(), s.last()) {
                let i = choose|i: int|
                    0 <= i < s.drop_last().len() && same_key(s.drop_last()[i], s.last());
                assert(same_key(s[i], s[s.len() - 1]));
            }
        }
        assert(key_reps(s) == s.drop_last().push(s.last()));
        assert(s.drop_last().push(s.last()) =~= s);
    }
}

/// Merging a distinct-key, zero-free seq with itself changes nothing.
proof fn lemma_merge_identity(s: Seq<UpdateV>, n: int)
    requires
        distinct_keys(s),
        forall|i: int| 0 <= i < s.len() ==> (#[trigger] s[i]).diff != 0,
        0 <= n <= s.len(),
    ensures
        merge_groups(s, s.take(n)) == s.take(n),
    decreases n,
{
    if n == 0 {
        assert(merge_groups(s, s.take(0)) =~= s.take(0));
    } else {
        lemma_merge_identity(s, n - 1);
        take_step(s, n - 1);
        lemma_key_total_distinct(s, n - 1);
        let e = s[n - 1];
        assert(key_total(s, e) == e.diff as int);
        assert(UpdateV { addr: e.addr, id: e.id, fact: e.fact, time: e.time, diff: e.diff } == e);
        assert(merge_groups(s, s.take(n)) == merge_groups(s, s.take(n - 1)).push(e));
        assert(s.take(n - 1).push(e) =~= s.take(n));
    }
}

/// Every merged entry keeps its representative's key and a nonzero diff.
proof fn lemma_merge_shape(l: Seq<UpdateV>, keys: Seq<UpdateV>)
    requires
        crate::compute::diffs_pm1(l),
        l.len() <= i64::MAX as nat,
    ensures
        forall|i: int|
            0 <= i < merge_groups(l, keys).len() ==> (#[trigger] merge_groups(l, keys)[i]).diff
                != 0,
        forall|i: int|
            0 <= i < merge_groups(l, keys).len() ==> exists|j: int|
                0 <= j < keys.len() && same_key(#[trigger] merge_groups(l, keys)[i], keys[j]),
        merge_groups(l, keys).len() <= keys.len(),
    decreases keys.len(),
{
    if keys.len() > 0 {
        lemma_merge_shape(l, keys.drop_last());
        let r = merge_groups(l, keys.drop_last());
        let e = keys.last();
        let tot = key_total(l, e);
        if tot != 0 {
            lemma_key_total_bound(l, e);
            let m = merge_groups(l, keys);
            let x = UpdateV { addr: e.addr, id: e.id, fact: e.fact, time: e.time, diff: tot as i64 };
            assert(x.diff != 0);
            assert(m == r.push(x));
            assert forall|i: int| 0 <= i < m.len() implies exists|j: int|
                0 <= j < keys.len() && same_key(#[trigger] m[i], keys[j]) by {
                if i < r.len() {
                    assert(m[i] == r[i]);
                    let j = choose|j: int|
                        0 <= j < keys.drop_last().len() && same_key(r[i], keys.drop_last()[j]);
                    assert(keys.drop_last()[j] == keys[j]);
                    assert(same_key(m[i], keys[j]));
                } else {
                    assert(m[i] == x);
                    assert(same_key(x, keys[keys.len() - 1]));
                }
            }
        } else {
            assert forall|i: int| 0 <= i < merge_groups(l, keys).len() implies exists|j: int|
                0 <= j < keys.len() && same_key(#[trigger] merge_groups(l, keys)[i], keys[j]) by {
                assert(merge_groups(l, keys)[i] == r[i]);
                let j = choose|j: int|
                    0 <= j < keys.drop_last().len() && same_key(r[i], keys.drop_last()[j]);
                assert(keys.drop_last()[j] == keys[j]);
            }
        }
    }
}

/// The merged result keeps distinct keys when its representatives do.
proof fn lemma_merge_distinct(l: Seq<UpdateV>, keys: Seq<UpdateV>)
    requires
        crate::compute::diffs_pm1(l),
        l.len() <= i64::MAX as nat,
        distinct_keys(keys),
    ensures
        distinct_keys(merge_groups(l, keys)),
    decreases keys.len(),
{
    if keys.len() > 0 {
        assert(distinct_keys(keys.drop_last())) by {
            assert forall|a: int, b: int|
                0 <= a < b < keys.drop_last().len() implies !same_key(
                keys.drop_last()[a],
                keys.drop_last()[b],
            ) by {
                assert(keys.drop_last()[a] == keys[a] && keys.drop_last()[b] == keys[b]);
            }
        }
        lemma_merge_distinct(l, keys.drop_last());
        lemma_merge_shape(l, keys.drop_last());
        let r = merge_groups(l, keys.drop_last());
        let e = keys.last();
        let tot = key_total(l, e);
        if tot != 0 {
            let x = UpdateV { addr: e.addr, id: e.id, fact: e.fact, time: e.time, diff: tot as i64 };
            let m = r.push(x);
            assert forall|a: int, b: int| 0 <= a < b < m.len() implies !same_key(m[a], m[b]) by {
                if b < r.len() {
                    assert(m[a] == r[a] && m[b] == r[b]);
                } else {
                    assert(m[b] == x);
                    assert(m[a] == r[a]);
                    let j = choose|j: int|
                        0 <= j < keys.drop_last().len() && same_key(r[a], keys.drop_last()[j]);
                    assert(keys.drop_last()[j] == keys[j]);
                    assert(!same_key(keys[j], keys[keys.len() - 1]));
                }
            }
        }
    }
}

/// Consolidation is idempotent: consolidating an already consolidated
/// collection changes nothing.
pub proof fn lemma_consolidate_idempotent(l: Seq<UpdateV>)
    requires
        crate::compute::diffs_pm1(l),
        l.len() <= i64::MAX as nat,
    ensures
        consolidate_spec(consolidate_spec(l)) == consolidate_spec(l),
{
    let c = consolidate_spec(l);
    lemma_key_reps_distinct(l);
    lemma_merge_distinct(l, key_reps(l));
    lemma_merge_shape(l, key_reps(l));
    lemma_key_reps_identity(c);
    lemma_merge_identity(c, c.len() as int);
    assert(c.take(c.len() as int) =~= c);
}


// ---------------------------------------------------------------------------
// consolidation preserves net multiplicities
// ---------------------------------------------------------------------------
/// A selector that reads only the fields a group shares: never time order,
/// never the diff.
pub open spec fn key_invariant_sel(f: spec_fn(UpdateV) -> bool) -> bool {
    forall|a: UpdateV, b: UpdateV| #[trigger] same_key(a, b) ==> f(a) == f(b)
}

/// The net multiplicity of the entries a selector picks.
pub open spec fn net_sel(l: Seq<UpdateV>, f: spec_fn(UpdateV) -> bool) -> int
    decreases l.len(),
{
    if l.len() == 0 {
        0
    } else {
        net_sel(l.drop_last(), f) + if f(l.last()) {
            l.last().diff as int
        } else {
            0
        }
    }
}

/// The selected groups' totals, summed over a list of representatives.
pub open spec fn sum_sel(l: Seq<UpdateV>, keys: Seq<UpdateV>, f: spec_fn(UpdateV) -> bool) -> int
    decreases keys.len(),
{
    if keys.len() == 0 {
        0
    } else {
        sum_sel(l, keys.drop_last(), f) + if f(keys.last()) {
            key_total(l, keys.last())
        } else {
            0
        }
    }
}

proof fn lemma_has_key_reps(l: Seq<UpdateV>, x: UpdateV)
    ensures
        has_key(key_reps(l), x) <==> has_key(l, x),
    decreases l.len(),
{
    if l.len() > 0 {
        lemma_has_key_reps(l.drop_last(), x);
        let r = key_reps(l.drop_last());
        let e = l.last();
        if !has_key(r, e) {
            let r2 = r.push(e);
            assert(r2.drop_last() =~= r);
            assert(has_key(r2, x) == (has_key(r, x) || same_key(e, x)));
        }
        if has_key(r, e) && same_key(e, x) {
            lemma_has_key_exists(r, e);
            let i = choose|i: int| 0 <= i < r.len() && same_key(r[i], e);
            lemma_has_key_exists(r, x);
            assert(same_key(r[i], x));
        }
    }
}

proof fn lemma_sum_append(l: Seq<UpdateV>, e: UpdateV, keys: Seq<UpdateV>, f: spec_fn(UpdateV) -> bool)
    requires
        distinct_keys(keys),
        key_invariant_sel(f),
    ensures
        sum_sel(l.push(e), keys, f) == sum_sel(l, keys, f) + if has_key(keys, e) && f(e) {
            e.diff as int
        } else {
            0
        },
    decreases keys.len(),
{
    if keys.len() > 0 {
        assert(distinct_keys(keys.drop_last())) by {
            assert forall|a: int, b: int|
                0 <= a < b < keys.drop_last().len() implies !same_key(
                keys.drop_last()[a],
                keys.drop_last()[b],
            ) by {
                assert(keys.drop_last()[a] == keys[a] && keys.drop_last()[b] == keys[b]);
            }
        }
        lemma_sum_append(l, e, keys.drop_last(), f);
        let k = keys.last();
        assert((l.push(e)).drop_last() =~= l);
        assert((l.push(e)).last() == e);
        assert(key_total(l.push(e), k) == key_total(l, k) + if same_key(e, k) {
            e.diff as int
        } else {
            0
        });
        if same_key(e, k) {
            assert(f(e) == f(k));
            assert(!has_key(keys.drop_last(), e)) by {
                if has_key(keys.drop_last(), e) {
                    lemma_has_key_exists(keys.drop_last(), e);
                    let i = choose|i: int|
                        0 <= i < keys.drop_last().len() && same_key(keys.drop_last()[i], e);
                    assert(keys.drop_last()[i] == keys[i]);
                    assert(same_key(keys[i], keys[keys.len() - 1]));
                }
            }
            assert(has_key(keys, e)) by {
                lemma_has_key_exists(keys, e);
                assert(same_key(keys[keys.len() - 1], e));
            }
        } else {
            lemma_has_key_exists(keys, e);
            lemma_has_key_exists(keys.drop_last(), e);
            assert(has_key(keys, e) == has_key(keys.drop_last(), e)) by {
                if has_key(keys, e) {
                    let i = choose|i: int| 0 <= i < keys.len() && same_key(keys[i], e);
                    assert(i < keys.len() - 1);
                    assert(keys.drop_last()[i] == keys[i]);
                }
                if has_key(keys.drop_last(), e) {
                    let i = choose|i: int|
                        0 <= i < keys.drop_last().len() && same_key(keys.drop_last()[i], e);
                    assert(same_key(keys[i], e));
                }
            }
        }
    }
}

proof fn lemma_sum_reps(l: Seq<UpdateV>, f: spec_fn(UpdateV) -> bool)
    requires
        key_invariant_sel(f),
    ensures
        sum_sel(l, key_reps(l), f) == net_sel(l, f),
    decreases l.len(),
{
    if l.len() > 0 {
        let lp = l.drop_last();
        let e = l.last();
        lemma_sum_reps(lp, f);
        lemma_key_reps_distinct(lp);
        let reps = key_reps(lp);
        assert(lp.push(e) =~= l);
        lemma_sum_append(lp, e, reps, f);
        lemma_has_key_reps(lp, e);
        if has_key(reps, e) {
            assert(key_reps(l) == reps);
            assert(sum_sel(l, reps, f) == net_sel(lp, f) + if f(e) {
                e.diff as int
            } else {
                0
            });
        } else {
            assert(key_reps(l) == reps.push(e));
            assert((reps.push(e)).drop_last() =~= reps);
            assert(sum_sel(l, reps.push(e), f) == sum_sel(l, reps, f) + if f(e) {
                key_total(l, e)
            } else {
                0
            });
            assert(sum_sel(l, reps, f) == net_sel(lp, f));
            lemma_has_key_exists(lp, e);
            lemma_key_total_none(lp, e);
            assert(key_total(l, e) == key_total(lp, e) + if same_key(e, e) {
                e.diff as int
            } else {
                0
            });
            assert(same_key(e, e));
        }
    }
}

proof fn lemma_net_merged(l: Seq<UpdateV>, keys: Seq<UpdateV>, f: spec_fn(UpdateV) -> bool)
    requires
        crate::compute::diffs_pm1(l),
        l.len() <= i64::MAX as nat,
        key_invariant_sel(f),
    ensures
        net_sel(merge_groups(l, keys), f) == sum_sel(l, keys, f),
    decreases keys.len(),
{
    if keys.len() > 0 {
        lemma_net_merged(l, keys.drop_last(), f);
        let r = merge_groups(l, keys.drop_last());
        let k = keys.last();
        let tot = key_total(l, k);
        if tot != 0 {
            lemma_key_total_bound(l, k);
            let x = UpdateV { addr: k.addr, id: k.id, fact: k.fact, time: k.time, diff: tot as i64 };
            assert(same_key(x, k));
            assert(f(x) == f(k));
            assert((r.push(x)).drop_last() =~= r);
            assert(net_sel(r.push(x), f) == net_sel(r, f) + if f(x) {
                x.diff as int
            } else {
                0
            });
        }
    }
}

/// Consolidation never changes what any view reads: for every selector that
/// looks only at a fact's value, owner and time — never at diffs or at the
/// order of entries — the net multiplicity over the consolidated collection
/// equals the net over the original.
pub proof fn lemma_consolidate_preserves_net(l: Seq<UpdateV>, f: spec_fn(UpdateV) -> bool)
    requires
        crate::compute::diffs_pm1(l),
        l.len() <= i64::MAX as nat,
        key_invariant_sel(f),
    ensures
        net_sel(consolidate_spec(l), f) == net_sel(l, f),
{
    lemma_key_reps_distinct(l);
    lemma_net_merged(l, key_reps(l), f);
    lemma_sum_reps(l, f);
}

proof fn lemma_net_vp_as_sel(l: Seq<UpdateV>, s: u64, p: u64)
    ensures
        crate::model::net_vp(l, s, p) == net_sel(
            l,
            |e: UpdateV| e.addr == s && e.fact == FactV::ViewPostsPage(p),
        ),
    decreases l.len(),
{
    if l.len() > 0 {
        lemma_net_vp_as_sel(l.drop_last(), s, p);
    }
}

proof fn lemma_net_like_as_sel(l: Seq<UpdateV>, u: u64, q: u64)
    ensures
        crate::model::net_like(l, u, q) == net_sel(
            l,
            |e: UpdateV| e.id == u && e.fact == FactV::PostLike(q),
        ),
    decreases l.len(),
{
    if l.len() > 0 {
        lemma_net_like_as_sel(l.drop_last(), u, q);
    }
}

proof fn lemma_net_sess_as_sel(l: Seq<UpdateV>, s: u64, u: u64)
    ensures
        crate::model::net_sess(l, s, u) == net_sel(
            l,
            |e: UpdateV| e.addr == s && e.id == u && e.fact == FactV::Session,
        ),
    decreases l.len(),
{
    if l.len() > 0 {
        lemma_net_sess_as_sel(l.drop_last(), s, u);
    }
}

/// The page, like and session multiplicities that drive the derived views
/// are the same over the consolidated log as over the raw one.
pub proof fn lemma_consolidate_preserves_views(l: Seq<UpdateV>, s: u64, u: u64, q: u64)
    requires
        crate::compute::diffs_pm1(l),
        l.len() <= i64::MAX as nat,
    ensures
        crate::model::net_vp(consolidate_spec(l), s, q) == crate::model::net_vp(l, s, q),
        crate::model::net_like(consolidate_spec(l), u, q) == crate::model::net_like(l, u, q),
        crate::model::net_sess(consolidate_spec(l), s, u) == crate::model::net_sess(l, s, u),
{
    let fv = |e: UpdateV| e.addr == s && e.fact == FactV::ViewPostsPage(q);
    assert(key_invariant_sel(fv));
    lemma_net_vp_as_sel(l, s, q);
    lemma_net_vp_as_sel(consolidate_spec(l), s, q);
    lemma_consolidate_preserves_net(l, fv);
    let fl = |e: UpdateV| e.id == u && e.fact == FactV::PostLike(q);
    assert(key_invariant_sel(fl));
    lemma_net_like_as_sel(l, u, q);
    lemma_net_like_as_sel(consolidate_spec(l), u, q);
    lemma_consolidate_preserves_net(l, fl);
    let fs = |e: UpdateV| e.addr == s && e.id == u && e.fact == FactV::Session;
    assert(key_invariant_sel(fs));
    lemma_net_sess_as_sel(l, s, u);
    lemma_net_sess_as_sel(consolidate_spec(l), s, u);
    lemma_consolidate_preserves_net(l, fs);
}

} // verus!
