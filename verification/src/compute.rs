//! Executable recomputation of the derived views, each function proved
//! equal to its spec counterpart in `model`.

use vstd::prelude::*;

use crate::data::{lv, Persisted, Update, UpdateV};
use crate::model::{
    addr_cands, best_page, best_user, body_cands, count_likers, count_user_likes,
    count_user_posts, created, creator, filter_users, filter_visible, has_post_add,
    has_post_remove, last_post_add, like_post_cands, like_user_cands, likes_of, net_body, net_like,
    net_sess, net_title, net_vp, post_cands, sess_cands, title_cands, user_like_count, user_of,
    user_post_count, visible_post, vp_add_time, vp_cands,
};

verus! {

broadcast use crate::data::group_view_facts;

/// Every diff in the log is `1` or `-1`.
pub open spec fn diffs_pm1(l: Seq<UpdateV>) -> bool {
    forall|j: int| 0 <= j < l.len() ==> l[j].diff == 1 || l[j].diff == -1
}

pub proof fn take_step<A>(s: Seq<A>, i: int)
    requires
        0 <= i < s.len(),
    ensures
        s.take(i + 1).drop_last() == s.take(i),
        s.take(i + 1).last() == s[i],
        s.take(i + 1).len() == i + 1,
    decreases i,
{
    assert(s.take(i + 1).drop_last() =~= s.take(i));
}

pub proof fn take_all<A>(s: Seq<A>)
    ensures
        s.take(s.len() as int) == s,
{
    assert(s.take(s.len() as int) =~= s);
}

pub(crate) fn contains_u64(v: &Vec<u64>, x: u64) -> (r: bool)
    ensures
        r == v@.contains(x),
{
    let mut i: usize = 0;
    while i < v.len()
        invariant
            0 <= i <= v@.len(),
            forall|j: int| 0 <= j < i ==> v@[j] != x,
        decreases v@.len() - i,
    {
        if v[i] == x {
            return true;
        }
        i += 1;
    }
    false
}

/// The view of a vector of strings: its texts.
pub open spec fn texts(v: Seq<String>) -> Seq<Seq<char>> {
    v.map_values(|s: String| s@)
}

pub broadcast proof fn texts_len(v: Seq<String>)
    ensures
        (#[trigger] texts(v)).len() == v.len(),
{
    assert(texts(v) == v.map_values(|s: String| s@));
}

pub broadcast proof fn texts_index(v: Seq<String>, i: int)
    requires
        0 <= i < v.len(),
    ensures
        #[trigger] texts(v)[i] == v[i]@,
{
    assert(texts(v) == v.map_values(|s: String| s@));
}

fn contains_text(v: &Vec<String>, x: &String) -> (r: bool)
    ensures
        r == texts(v@).contains(x@),
{
    let mut i: usize = 0;
    while i < v.len()
        invariant
            0 <= i <= v@.len(),
            forall|j: int| 0 <= j < i ==> texts(v@)[j] != x@,
        decreases v@.len() - i,
    {
        if v[i] == *x {
            assert(texts(v@)[i as int] == x@);
            return true;
        }
        assert(texts(v@)[i as int] != x@);
        i += 1;
    }
    false
}

fn net_vp_x(log: &Vec<Update>, s: u64, p: u64) -> (r: i128)
    requires
        diffs_pm1(lv(log@)),
    ensures
        r as int == net_vp(lv(log@), s, p),
{
    let ghost l = lv(log@);
    let mut acc: i128 = 0;
    let mut i: usize = 0;
    while i < log.len()
        invariant
            0 <= i <= log@.len(),
            l == lv(log@),
            diffs_pm1(l),
            acc as int == net_vp(l.take(i as int), s, p),
            -(i as int) <= acc as int <= i as int,
        decreases log@.len() - i,
    {
        proof {
            take_step(l, i as int);
        }
        let e = &log[i];
        let hit = e.addr == s && (match &e.fact {
            Persisted::ViewPostsPage(pp) => *pp == p,
            _ => false,
        });
        if hit {
            acc = acc + e.diff as i128;
        }
        i += 1;
    }
    proof {
        take_all(l);
    }
    acc
}

fn net_sess_x(log: &Vec<Update>, s: u64, u: u64) -> (r: i128)
    requires
        diffs_pm1(lv(log@)),
    ensures
        r as int == net_sess(lv(log@), s, u),
{
    let ghost l = lv(log@);
    let mut acc: i128 = 0;
    let mut i: usize = 0;
    while i < log.len()
        invariant
            0 <= i <= log@.len(),
            l == lv(log@),
            diffs_pm1(l),
            acc as int == net_sess(l.take(i as int), s, u),
            -(i as int) <= acc as int <= i as int,
        decreases log@.len() - i,
    {
        proof {
            take_step(l, i as int);
        }
        let e = &log[i];
        let hit = e.addr == s && e.id == u && (match &e.fact {
            Persisted::Session => true,
            _ => false,
        });
        if hit {
            acc = acc + e.diff as i128;
        }
        i += 1;
    }
    proof {
        take_all(l);
    }
    acc
}

pub(crate) fn net_like_x(log: &Vec<Update>, u: u64, q: u64) -> (r: i128)
    requires
        diffs_pm1(lv(log@)),
    ensures
        r as int == net_like(lv(log@), u, q),
{
    let ghost l = lv(log@);
    let mut acc: i128 = 0;
    let mut i: usize = 0;
    while i < log.len()
        invariant
            0 <= i <= log@.len(),
            l == lv(log@),
            diffs_pm1(l),
            acc as int == net_like(l.take(i as int), u, q),
            -(i as int) <= acc as int <= i as int,
        decreases log@.len() - i,
    {
        proof {
            take_step(l, i as int);
        }
        let e = &log[i];
        let hit = e.id == u && (match &e.fact {
            Persisted::PostLike(qq) => *qq == q,
            _ => false,
        });
        if hit {
            acc = acc + e.diff as i128;
        }
        i += 1;
    }
    proof {
        take_all(l);
    }
    acc
}

pub(crate) fn net_title_x(log: &Vec<Update>, q: u64, t: &String) -> (r: i128)
    requires
        diffs_pm1(lv(log@)),
    ensures
        r as int == net_title(lv(log@), q, t@),
{
    let ghost l = lv(log@);
    let mut acc: i128 = 0;
    let mut i: usize = 0;
    while i < log.len()
        invariant
            0 <= i <= log@.len(),
            l == lv(log@),
            diffs_pm1(l),
            acc as int == net_title(l.take(i as int), q, t@),
            -(i as int) <= acc as int <= i as int,
        decreases log@.len() - i,
    {
        proof {
            take_step(l, i as int);
        }
        let e = &log[i];
        let hit = e.id == q && (match &e.fact {
            Persisted::PostTitle(tt) => *tt == *t,
            _ => false,
        });
        if hit {
            acc = acc + e.diff as i128;
        }
        i += 1;
    }
    proof {
        take_all(l);
    }
    acc
}

pub(crate) fn net_body_x(log: &Vec<Update>, q: u64, t: &String) -> (r: i128)
    requires
        diffs_pm1(lv(log@)),
    ensures
        r as int == net_body(lv(log@), q, t@),
{
    let ghost l = lv(log@);
    let mut acc: i128 = 0;
    let mut i: usize = 0;
    while i < log.len()
        invariant
            0 <= i <= log@.len(),
            l == lv(log@),
            diffs_pm1(l),
            acc as int == net_body(l.take(i as int), q, t@),
            -(i as int) <= acc as int <= i as int,
        decreases log@.len() - i,
    {
        proof {
            take_step(l, i as int);
        }
        let e = &log[i];
        let hit = e.id == q && (match &e.fact {
            Persisted::PostBody(tt) => *tt == *t,
            _ => false,
        });
        if hit {
            acc = acc + e.diff as i128;
        }
        i += 1;
    }
    proof {
        take_all(l);
    }
    acc
}

fn has_post_add_x(log: &Vec<Update>, id: u64) -> (r: bool)
    ensures
        r == has_post_add(lv(log@), id),
{
    let ghost l = lv(log@);
    let mut found = false;
    let mut i: usize = 0;
    while i < log.len()
        invariant
            0 <= i <= log@.len(),
            l == lv(log@),
            found == has_post_add(l.take(i as int), id),
        decreases log@.len() - i,
    {
        proof {
            take_step(l, i as int);
        }
        let e = &log[i];
        let hit = e.id == id && (match &e.fact {
            Persisted::Post => true,
            _ => false,
        }) && e.diff > 0;
        found = found || hit;
        i += 1;
    }
    proof {
        take_all(l);
    }
    found
}

fn has_post_remove_x(log: &Vec<Update>, id: u64) -> (r: bool)
    ensures
        r == has_post_remove(lv(log@), id),
{
    let ghost l = lv(log@);
    let mut found = false;
    let mut i: usize = 0;
    while i < log.len()
        invariant
            0 <= i <= log@.len(),
            l == lv(log@),
            found == has_post_remove(l.take(i as int), id),
        decreases log@.len() - i,
    {
        proof {
            take_step(l, i as int);
        }
        let e = &log[i];
        let hit = e.id == id && (match &e.fact {
            Persisted::Post => true,
            _ => false,
        }) && e.diff < 0;
        found = found || hit;
        i += 1;
    }
    proof {
        take_all(l);
    }
    found
}

pub(crate) fn visible_post_x(log: &Vec<Update>, id: u64) -> (r: bool)
    ensures
        r == visible_post(lv(log@), id),
{
    has_post_add_x(log, id) && !has_post_remove_x(log, id)
}

/// Returns `(found, time, addr)` of the latest `Post` assertion for `id`.
pub(crate) fn post_add_info(log: &Vec<Update>, id: u64) -> (r: (bool, u64, u64))
    ensures
        match last_post_add(lv(log@), id) {
            Option::None => !r.0,
            Option::Some(u) => r.0 && r.1 == u.time && r.2 == u.addr,
        },
        r.0 ==> r.1 == created(lv(log@), id) && r.2 == creator(lv(log@), id),
        !r.0 ==> last_post_add(lv(log@), id) is None,
{
    let ghost l = lv(log@);
    let mut found = false;
    let mut t: u64 = 0;
    let mut a: u64 = 0;
    let mut i: usize = 0;
    while i < log.len()
        invariant
            0 <= i <= log@.len(),
            l == lv(log@),
            match last_post_add(l.take(i as int), id) {
                Option::None => !found,
                Option::Some(u) => found && t == u.time && a == u.addr,
            },
        decreases log@.len() - i,
    {
        proof {
            take_step(l, i as int);
        }
        let e = &log[i];
        let hit = e.id == id && (match &e.fact {
            Persisted::Post => true,
            _ => false,
        }) && e.diff > 0;
        if hit {
            found = true;
            t = e.time;
            a = e.addr;
        }
        i += 1;
    }
    proof {
        take_all(l);
    }
    (found, t, a)
}

fn post_cands_x(log: &Vec<Update>) -> (r: Vec<u64>)
    ensures
        r@ == post_cands(lv(log@)),
{
    let ghost l = lv(log@);
    let mut out: Vec<u64> = Vec::new();
    let mut i: usize = 0;
    while i < log.len()
        invariant
            0 <= i <= log@.len(),
            l == lv(log@),
            out@ == post_cands(l.take(i as int)),
        decreases log@.len() - i,
    {
        proof {
            take_step(l, i as int);
        }
        let e = &log[i];
        let hit = (match &e.fact {
            Persisted::Post => true,
            _ => false,
        }) && e.diff > 0;
        if hit && !contains_u64(&out, e.id) {
            out.push(e.id);
        }
        i += 1;
    }
    proof {
        take_all(l);
    }
    out
}

fn vp_cands_x(log: &Vec<Update>, s: u64) -> (r: Vec<u64>)
    ensures
        r@ == vp_cands(lv(log@), s),
{
    let ghost l = lv(log@);
    let mut out: Vec<u64> = Vec::new();
    let mut i: usize = 0;
    while i < log.len()
        invariant
            0 <= i <= log@.len(),
            l == lv(log@),
            out@ == vp_cands(l.take(i as int), s),
        decreases log@.len() - i,
    {
        proof {
            take_step(l, i as int);
        }
        let e = &log[i];
        if e.addr == s {
            match &e.fact {
                Persisted::ViewPostsPage(p) => {
                    let p = *p;
                    if !contains_u64(&out, p) {
                        out.push(p);
                    }
                },
                _ => {},
            }
        }
        i += 1;
    }
    proof {
        take_all(l);
    }
    out
}

fn sess_cands_x(log: &Vec<Update>, s: u64) -> (r: Vec<u64>)
    ensures
        r@ == sess_cands(lv(log@), s),
{
    let ghost l = lv(log@);
    let mut out: Vec<u64> = Vec::new();
    let mut i: usize = 0;
    while i < log.len()
        invariant
            0 <= i <= log@.len(),
            l == lv(log@),
            out@ == sess_cands(l.take(i as int), s),
        decreases log@.len() - i,
    {
        proof {
            take_step(l, i as int);
        }
        let e = &log[i];
        let hit = e.addr == s && (match &e.fact {
            Persisted::Session => true,
            _ => false,
        });
        if hit && !contains_u64(&out, e.id) {
            out.push(e.id);
        }
        i += 1;
    }
    proof {
        take_all(l);
    }
    out
}

fn like_user_cands_x(log: &Vec<Update>, q: u64) -> (r: Vec<u64>)
    ensures
        r@ == like_user_cands(lv(log@), q),
{
    let ghost l = lv(log@);
    let mut out: Vec<u64> = Vec::new();
    let mut i: usize = 0;
    while i < log.len()
        invariant
            0 <= i <= log@.len(),
            l == lv(log@),
            out@ == like_user_cands(l.take(i as int), q),
        decreases log@.len() - i,
    {
        proof {
            take_step(l, i as int);
        }
        let e = &log[i];
        let hit = match &e.fact {
            Persisted::PostLike(qq) => *qq == q,
            _ => false,
        };
        if hit && !contains_u64(&out, e.id) {
            out.push(e.id);
        }
        i += 1;
    }
    proof {
        take_all(l);
    }
    out
}

fn like_post_cands_x(log: &Vec<Update>, u: u64) -> (r: Vec<u64>)
    ensures
        r@ == like_post_cands(lv(log@), u),
{
    let ghost l = lv(log@);
    let mut out: Vec<u64> = Vec::new();
    let mut i: usize = 0;
    while i < log.len()
        invariant
            0 <= i <= log@.len(),
            l == lv(log@),
            out@ == like_post_cands(l.take(i as int), u),
        decreases log@.len() - i,
    {
        proof {
            take_step(l, i as int);
        }
        let e = &log[i];
        if e.id == u {
            match &e.fact {
                Persisted::PostLike(q) => {
                    let q = *q;
                    if !contains_u64(&out, q) {
                        out.push(q);
                    }
                },
                _ => {},
            }
        }
        i += 1;
    }
    proof {
        take_all(l);
    }
    out
}

pub(crate) fn addr_cands_x(log: &Vec<Update>) -> (r: Vec<u64>)
    ensures
        r@ == addr_cands(lv(log@)),
{
    let ghost l = lv(log@);
    let mut out: Vec<u64> = Vec::new();
    let mut i: usize = 0;
    while i < log.len()
        invariant
            0 <= i <= log@.len(),
            l == lv(log@),
            out@ == addr_cands(l.take(i as int)),
        decreases log@.len() - i,
    {
        proof {
            take_step(l, i as int);
        }
        let e = &log[i];
        if !contains_u64(&out, e.addr) {
            out.push(e.addr);
        }
        i += 1;
    }
    proof {
        take_all(l);
    }
    out
}

pub(crate) fn title_cands_x(log: &Vec<Update>, q: u64) -> (r: Vec<String>)
    ensures
        texts(r@) == title_cands(lv(log@), q),
{
    let ghost l = lv(log@);
    let mut out: Vec<String> = Vec::new();
    let mut i: usize = 0;
    while i < log.len()
        invariant
            0 <= i <= log@.len(),
            l == lv(log@),
            texts(out@) == title_cands(l.take(i as int), q),
        decreases log@.len() - i,
    {
        proof {
            take_step(l, i as int);
        }
        let e = &log[i];
        if e.id == q {
            match &e.fact {
                Persisted::PostTitle(t) => {
                    if !contains_text(&out, t) {
                        let ghost before = texts(out@);
                        out.push(t.clone());
                        proof {
                            assert(texts(out@) =~= before.push(t@));
                        }
                    }
                },
                _ => {},
            }
        }
        i += 1;
    }
    proof {
        take_all(l);
    }
    out
}

pub(crate) fn body_cands_x(log: &Vec<Update>, q: u64) -> (r: Vec<String>)
    ensures
        texts(r@) == body_cands(lv(log@), q),
{
    let ghost l = lv(log@);
    let mut out: Vec<String> = Vec::new();
    let mut i: usize = 0;
    while i < log.len()
        invariant
            0 <= i <= log@.len(),
            l == lv(log@),
            texts(out@) == body_cands(l.take(i as int), q),
        decreases log@.len() - i,
    {
        proof {
            take_step(l, i as int);
        }
        let e = &log[i];
        if e.id == q {
            match &e.fact {
                Persisted::PostBody(t) => {
                    if !contains_text(&out, t) {
                        let ghost before = texts(out@);
                        out.push(t.clone());
                        proof {
                            assert(texts(out@) =~= before.push(t@));
                        }
                    }
                },
                _ => {},
            }
        }
        i += 1;
    }
    proof {
        take_all(l);
    }
    out
}


/// If a post was ever asserted, there is a latest assertion, and the other
/// way round.
pub proof fn lemma_has_add_some(l: Seq<UpdateV>, id: u64)
    ensures
        has_post_add(l, id) <==> last_post_add(l, id) is Some,
    decreases l.len(),
{
    if l.len() > 0 {
        lemma_has_add_some(l.drop_last(), id);
    }
}

fn count_likers_x(log: &Vec<Update>, keys: &Vec<u64>, q: u64) -> (r: u64)
    requires
        diffs_pm1(lv(log@)),
    ensures
        r as nat == count_likers(lv(log@), keys@, q),
{
    let ghost ks = keys@;
    let mut cnt: u64 = 0;
    let mut i: usize = 0;
    while i < keys.len()
        invariant
            0 <= i <= ks.len(),
            ks == keys@,
            diffs_pm1(lv(log@)),
            cnt as nat == count_likers(lv(log@), ks.take(i as int), q),
            cnt <= i,
        decreases ks.len() - i,
    {
        proof {
            take_step(ks, i as int);
        }
        if net_like_x(log, keys[i], q) > 0 {
            cnt += 1;
        }
        i += 1;
    }
    proof {
        take_all(ks);
    }
    cnt
}

pub(crate) fn likes_of_x(log: &Vec<Update>, q: u64) -> (r: u64)
    requires
        diffs_pm1(lv(log@)),
    ensures
        r as nat == likes_of(lv(log@), q),
{
    let keys = like_user_cands_x(log, q);
    count_likers_x(log, &keys, q)
}

fn count_user_posts_x(log: &Vec<Update>, keys: &Vec<u64>, u: u64) -> (r: u64)
    requires
        diffs_pm1(lv(log@)),
    ensures
        r as nat == count_user_posts(lv(log@), keys@, u),
{
    let ghost ks = keys@;
    let mut cnt: u64 = 0;
    let mut i: usize = 0;
    while i < keys.len()
        invariant
            0 <= i <= ks.len(),
            ks == keys@,
            diffs_pm1(lv(log@)),
            cnt as nat == count_user_posts(lv(log@), ks.take(i as int), u),
            cnt <= i,
        decreases ks.len() - i,
    {
        proof {
            take_step(ks, i as int);
        }
        let id = keys[i];
        if visible_post_x(log, id) {
            proof {
                lemma_has_add_some(lv(log@), id);
            }
            let info = post_add_info(log, id);
            if net_sess_x(log, info.2, u) > 0 {
                cnt += 1;
            }
        }
        i += 1;
    }
    proof {
        take_all(ks);
    }
    cnt
}

pub(crate) fn user_post_count_x(log: &Vec<Update>, u: u64) -> (r: u64)
    requires
        diffs_pm1(lv(log@)),
    ensures
        r as nat == user_post_count(lv(log@), u),
{
    let keys = post_cands_x(log);
    count_user_posts_x(log, &keys, u)
}

fn count_user_likes_x(log: &Vec<Update>, keys: &Vec<u64>, u: u64) -> (r: u64)
    requires
        diffs_pm1(lv(log@)),
    ensures
        r as nat == count_user_likes(lv(log@), keys@, u),
{
    let ghost ks = keys@;
    let mut cnt: u64 = 0;
    let mut i: usize = 0;
    while i < keys.len()
        invariant
            0 <= i <= ks.len(),
            ks == keys@,
            diffs_pm1(lv(log@)),
            cnt as nat == count_user_likes(lv(log@), ks.take(i as int), u),
            cnt <= i,
        decreases ks.len() - i,
    {
        proof {
            take_step(ks, i as int);
        }
        let q = keys[i];
        if net_like_x(log, u, q) > 0 && visible_post_x(log, q) {
            cnt += 1;
        }
        i += 1;
    }
    proof {
        take_all(ks);
    }
    cnt
}

pub(crate) fn user_like_count_x(log: &Vec<Update>, u: u64) -> (r: u64)
    requires
        diffs_pm1(lv(log@)),
    ensures
        r as nat == user_like_count(lv(log@), u),
{
    let keys = like_post_cands_x(log, u);
    count_user_likes_x(log, &keys, u)
}

fn filter_users_x(log: &Vec<Update>, keys: &Vec<u64>, s: u64) -> (r: Vec<u64>)
    requires
        diffs_pm1(lv(log@)),
    ensures
        r@ == filter_users(lv(log@), keys@, s),
{
    let ghost ks = keys@;
    let mut out: Vec<u64> = Vec::new();
    let mut i: usize = 0;
    while i < keys.len()
        invariant
            0 <= i <= ks.len(),
            ks == keys@,
            diffs_pm1(lv(log@)),
            out@ == filter_users(lv(log@), ks.take(i as int), s),
        decreases ks.len() - i,
    {
        proof {
            take_step(ks, i as int);
        }
        if net_sess_x(log, s, keys[i]) > 0 {
            out.push(keys[i]);
        }
        i += 1;
    }
    proof {
        take_all(ks);
    }
    out
}

pub(crate) fn live_users_x(log: &Vec<Update>, s: u64) -> (r: Vec<u64>)
    requires
        diffs_pm1(lv(log@)),
    ensures
        r@ == crate::model::live_users(lv(log@), s),
{
    let keys = sess_cands_x(log, s);
    filter_users_x(log, &keys, s)
}

/// Returns `(found, user)` mirroring the `Option` of `user_of`.
fn best_user_x(log: &Vec<Update>, keys: &Vec<u64>, a: u64) -> (r: (bool, u64))
    requires
        diffs_pm1(lv(log@)),
    ensures
        match best_user(lv(log@), keys@, a) {
            Option::None => !r.0,
            Option::Some(u) => r.0 && r.1 == u,
        },
{
    let ghost ks = keys@;
    let mut found = false;
    let mut best: u64 = 0;
    let mut i: usize = 0;
    while i < keys.len()
        invariant
            0 <= i <= ks.len(),
            ks == keys@,
            diffs_pm1(lv(log@)),
            match best_user(lv(log@), ks.take(i as int), a) {
                Option::None => !found,
                Option::Some(u) => found && best == u,
            },
        decreases ks.len() - i,
    {
        proof {
            take_step(ks, i as int);
        }
        let u = keys[i];
        if net_sess_x(log, a, u) > 0 {
            if !found || u > best {
                best = u;
            }
            found = true;
        }
        i += 1;
    }
    proof {
        take_all(ks);
    }
    (found, best)
}

pub(crate) fn user_of_x(log: &Vec<Update>, a: u64) -> (r: (bool, u64))
    requires
        diffs_pm1(lv(log@)),
    ensures
        match user_of(lv(log@), a) {
            Option::None => !r.0,
            Option::Some(u) => r.0 && r.1 == u,
        },
{
    let keys = sess_cands_x(log, a);
    best_user_x(log, &keys, a)
}

fn vp_time_x(log: &Vec<Update>, s: u64, p: u64) -> (r: i128)
    ensures
        r as int == vp_add_time(lv(log@), s, p),
{
    let ghost l = lv(log@);
    let mut acc: i128 = -1;
    let mut i: usize = 0;
    while i < log.len()
        invariant
            0 <= i <= log@.len(),
            l == lv(log@),
            acc as int == vp_add_time(l.take(i as int), s, p),
            -1 <= acc as int <= u64::MAX as int,
        decreases log@.len() - i,
    {
        proof {
            take_step(l, i as int);
        }
        let e = &log[i];
        let hit = e.addr == s && (match &e.fact {
            Persisted::ViewPostsPage(pp) => *pp == p,
            _ => false,
        }) && e.diff > 0;
        if hit {
            acc = e.time as i128;
        }
        i += 1;
    }
    proof {
        take_all(l);
    }
    acc
}

/// Returns `(found, page)` mirroring the `Option` of `active_page`.
fn best_page_x(log: &Vec<Update>, keys: &Vec<u64>, s: u64) -> (r: (bool, u64))
    requires
        diffs_pm1(lv(log@)),
    ensures
        match best_page(lv(log@), keys@, s) {
            Option::None => !r.0,
            Option::Some(p) => r.0 && r.1 == p,
        },
{
    let ghost ks = keys@;
    let mut found = false;
    let mut best: u64 = 0;
    let mut i: usize = 0;
    while i < keys.len()
        invariant
            0 <= i <= ks.len(),
            ks == keys@,
            diffs_pm1(lv(log@)),
            match best_page(lv(log@), ks.take(i as int), s) {
                Option::None => !found,
                Option::Some(p) => found && best == p,
            },
        decreases ks.len() - i,
    {
        proof {
            take_step(ks, i as int);
        }
        let p = keys[i];
        if net_vp_x(log, s, p) > 0 {
            if !found {
                best = p;
            } else {
                let tn = vp_time_x(log, s, p);
                let tc = vp_time_x(log, s, best);
                if tn > tc || (tn == tc && p > best) {
                    best = p;
                }
            }
            found = true;
        }
        i += 1;
    }
    proof {
        take_all(ks);
    }
    (found, best)
}

pub(crate) fn active_page_x(log: &Vec<Update>, s: u64) -> (r: (bool, u64))
    requires
        diffs_pm1(lv(log@)),
    ensures
        match crate::model::active_page(lv(log@), s) {
            Option::None => !r.0,
            Option::Some(p) => r.0 && r.1 == p,
        },
{
    let keys = vp_cands_x(log, s);
    best_page_x(log, &keys, s)
}

fn filter_visible_x(log: &Vec<Update>, keys: &Vec<u64>) -> (r: Vec<u64>)
    ensures
        r@ == filter_visible(lv(log@), keys@),
{
    let ghost ks = keys@;
    let mut out: Vec<u64> = Vec::new();
    let mut i: usize = 0;
    while i < keys.len()
        invariant
            0 <= i <= ks.len(),
            ks == keys@,
            out@ == filter_visible(lv(log@), ks.take(i as int)),
        decreases ks.len() - i,
    {
        proof {
            take_step(ks, i as int);
        }
        if visible_post_x(log, keys[i]) {
            out.push(keys[i]);
        }
        i += 1;
    }
    proof {
        take_all(ks);
    }
    out
}

pub(crate) fn visible_ids_x(log: &Vec<Update>) -> (r: Vec<u64>)
    ensures
        r@ == crate::model::visible_ids(lv(log@)),
{
    let keys = post_cands_x(log);
    filter_visible_x(log, &keys)
}

} // verus!
