//! The mathematical model of the engine: every derived view is a spec
//! function of the fact log alone. The executable recomputation in
//! `compute` is proved equal to these definitions, and the laws in `laws`
//! are stated over them.
//!
//! The equi-joins of the forum graph appear here as gated products: each
//! per-session view pairs the session's resolved page with the page's
//! posts, fields, creators and likes, always recomputed from the full
//! current key-indexed state of both sides, so every result equals its
//! full-recompute join.
//!
//! Two readings of the log coexist, as the reduce policies require:
//! net multiplicities (diffs for the same fact cancel across times) govern
//! pages, sessions, likes, titles and bodies; the post listing itself is
//! deletion-aware (a `Post` fact that was ever retracted never occupies a
//! page slot, and a retraction in the same batch as an assertion wins).

use vstd::prelude::*;

use crate::data::{FactV, OutV, QueryV, UpdateV};

verus! {

// ---------------------------------------------------------------------------
// net multiplicities
// ---------------------------------------------------------------------------
/// Net multiplicity of `ViewPostsPage(p)` facts submitted by session `s`
/// (under any entity id).
pub open spec fn net_vp(l: Seq<UpdateV>, s: u64, p: u64) -> int
    decreases l.len(),
{
    if l.len() == 0 {
        0
    } else {
        net_vp(l.drop_last(), s, p) + if l.last().addr == s && l.last().fact
            == FactV::ViewPostsPage(p) {
            l.last().diff as int
        } else {
            0
        }
    }
}

/// Net multiplicity of the `Session` fact binding session `s` to user `u`.
pub open spec fn net_sess(l: Seq<UpdateV>, s: u64, u: u64) -> int
    decreases l.len(),
{
    if l.len() == 0 {
        0
    } else {
        net_sess(l.drop_last(), s, u) + if l.last().addr == s && l.last().id == u && l.last().fact
            == FactV::Session {
            l.last().diff as int
        } else {
            0
        }
    }
}

/// Net multiplicity of the like of post `q` by user `u`.
pub open spec fn net_like(l: Seq<UpdateV>, u: u64, q: u64) -> int
    decreases l.len(),
{
    if l.len() == 0 {
        0
    } else {
        net_like(l.drop_last(), u, q) + if l.last().id == u && l.last().fact == FactV::PostLike(q) {
            l.last().diff as int
        } else {
            0
        }
    }
}

/// Net multiplicity of the title text `t` for post `q`.
pub open spec fn net_title(l: Seq<UpdateV>, q: u64, t: Seq<char>) -> int
    decreases l.len(),
{
    if l.len() == 0 {
        0
    } else {
        net_title(l.drop_last(), q, t) + if l.last().id == q && l.last().fact == FactV::PostTitle(
            t,
        ) {
            l.last().diff as int
        } else {
            0
        }
    }
}

/// Net multiplicity of the body text `t` for post `q`.
pub open spec fn net_body(l: Seq<UpdateV>, q: u64, t: Seq<char>) -> int
    decreases l.len(),
{
    if l.len() == 0 {
        0
    } else {
        net_body(l.drop_last(), q, t) + if l.last().id == q && l.last().fact == FactV::PostBody(t) {
            l.last().diff as int
        } else {
            0
        }
    }
}

// ---------------------------------------------------------------------------
// the post listing: deletion-aware history of `Post` facts
// ---------------------------------------------------------------------------
/// Whether some transaction asserted a `Post` fact for entity `id`.
pub open spec fn has_post_add(l: Seq<UpdateV>, id: u64) -> bool
    decreases l.len(),
{
    if l.len() == 0 {
        false
    } else {
        has_post_add(l.drop_last(), id) || (l.last().id == id && l.last().fact == FactV::Post
            && l.last().diff > 0)
    }
}

/// Whether some transaction retracted the `Post` fact for entity `id`.
pub open spec fn has_post_remove(l: Seq<UpdateV>, id: u64) -> bool
    decreases l.len(),
{
    if l.len() == 0 {
        false
    } else {
        has_post_remove(l.drop_last(), id) || (l.last().id == id && l.last().fact == FactV::Post
            && l.last().diff < 0)
    }
}

/// A post survives exactly when it was asserted and never retracted; a
/// retraction wins even over an assertion in the same transaction.
pub open spec fn visible_post(l: Seq<UpdateV>, id: u64) -> bool {
    has_post_add(l, id) && !has_post_remove(l, id)
}

/// The latest assertion of the `Post` fact for `id`, if any; its time is the
/// creation time and its address the creator's session.
pub open spec fn last_post_add(l: Seq<UpdateV>, id: u64) -> Option<UpdateV>
    decreases l.len(),
{
    if l.len() == 0 {
        Option::None
    } else if l.last().id == id && l.last().fact == FactV::Post && l.last().diff > 0 {
        Option::Some(l.last())
    } else {
        last_post_add(l.drop_last(), id)
    }
}

/// Creation time of post `id`: the time of its latest assertion.
pub open spec fn created(l: Seq<UpdateV>, id: u64) -> u64 {
    match last_post_add(l, id) {
        Option::Some(u) => u.time,
        Option::None => 0,
    }
}

/// The session address that created post `id`.
pub open spec fn creator(l: Seq<UpdateV>, id: u64) -> u64 {
    match last_post_add(l, id) {
        Option::Some(u) => u.addr,
        Option::None => 0,
    }
}

// ---------------------------------------------------------------------------
// candidate keys, each listed once in order of first appearance
// ---------------------------------------------------------------------------
/// Appends `x` unless it is already present.
pub open spec fn push_new(s: Seq<u64>, x: u64) -> Seq<u64> {
    if s.contains(x) {
        s
    } else {
        s.push(x)
    }
}

/// Entity ids with some asserted `Post` fact.
pub open spec fn post_cands(l: Seq<UpdateV>) -> Seq<u64>
    decreases l.len(),
{
    if l.len() == 0 {
        Seq::empty()
    } else {
        let r = post_cands(l.drop_last());
        if l.last().fact == FactV::Post && l.last().diff > 0 {
            push_new(r, l.last().id)
        } else {
            r
        }
    }
}

/// Page numbers that session `s` ever named in a `ViewPostsPage` fact.
pub open spec fn vp_cands(l: Seq<UpdateV>, s: u64) -> Seq<u64>
    decreases l.len(),
{
    if l.len() == 0 {
        Seq::empty()
    } else {
        let r = vp_cands(l.drop_last(), s);
        if l.last().addr == s && l.last().fact is ViewPostsPage {
            push_new(r, l.last().fact->ViewPostsPage_0)
        } else {
            r
        }
    }
}

/// User ids that session `s` ever bound with a `Session` fact.
pub open spec fn sess_cands(l: Seq<UpdateV>, s: u64) -> Seq<u64>
    decreases l.len(),
{
    if l.len() == 0 {
        Seq::empty()
    } else {
        let r = sess_cands(l.drop_last(), s);
        if l.last().addr == s && l.last().fact == FactV::Session {
            push_new(r, l.last().id)
        } else {
            r
        }
    }
}

/// Users that ever liked or unliked post `q`.
pub open spec fn like_user_cands(l: Seq<UpdateV>, q: u64) -> Seq<u64>
    decreases l.len(),
{
    if l.len() == 0 {
        Seq::empty()
    } else {
        let r = like_user_cands(l.drop_last(), q);
        if l.last().fact == FactV::PostLike(q) {
            push_new(r, l.last().id)
        } else {
            r
        }
    }
}

/// Posts that user `u` ever liked or unliked.
pub open spec fn like_post_cands(l: Seq<UpdateV>, u: u64) -> Seq<u64>
    decreases l.len(),
{
    if l.len() == 0 {
        Seq::empty()
    } else {
        let r = like_post_cands(l.drop_last(), u);
        if l.last().id == u && l.last().fact is PostLike {
            push_new(r, l.last().fact->PostLike_0)
        } else {
            r
        }
    }
}

/// Session addresses that ever submitted anything.
pub open spec fn addr_cands(l: Seq<UpdateV>) -> Seq<u64>
    decreases l.len(),
{
    if l.len() == 0 {
        Seq::empty()
    } else {
        push_new(addr_cands(l.drop_last()), l.last().addr)
    }
}

/// Appends a text unless it is already present.
pub open spec fn push_new_text(s: Seq<Seq<char>>, x: Seq<char>) -> Seq<Seq<char>> {
    if s.contains(x) {
        s
    } else {
        s.push(x)
    }
}

/// Title texts ever attached to post `q`.
pub open spec fn title_cands(l: Seq<UpdateV>, q: u64) -> Seq<Seq<char>>
    decreases l.len(),
{
    if l.len() == 0 {
        Seq::empty()
    } else {
        let r = title_cands(l.drop_last(), q);
        if l.last().id == q && l.last().fact is PostTitle {
            push_new_text(r, l.last().fact->PostTitle_0)
        } else {
            r
        }
    }
}

/// Body texts ever attached to post `q`.
pub open spec fn body_cands(l: Seq<UpdateV>, q: u64) -> Seq<Seq<char>>
    decreases l.len(),
{
    if l.len() == 0 {
        Seq::empty()
    } else {
        let r = body_cands(l.drop_last(), q);
        if l.last().id == q && l.last().fact is PostBody {
            push_new_text(r, l.last().fact->PostBody_0)
        } else {
            r
        }
    }
}

// ---------------------------------------------------------------------------
// per-key aggregations
// ---------------------------------------------------------------------------
/// Among `keys`, how many users currently like post `q`.
pub open spec fn count_likers(l: Seq<UpdateV>, keys: Seq<u64>, q: u64) -> nat
    decreases keys.len(),
{
    if keys.len() == 0 {
        0
    } else {
        count_likers(l, keys.drop_last(), q) + if net_like(l, keys.last(), q) > 0 {
            1nat
        } else {
            0nat
        }
    }
}

/// Number of currently-present likes of post `q`, one per liking user.
pub open spec fn likes_of(l: Seq<UpdateV>, q: u64) -> nat {
    count_likers(l, like_user_cands(l, q), q)
}

/// Whether session address `a` is currently bound to user `u`.
pub open spec fn addr_of_user(l: Seq<UpdateV>, a: u64, u: u64) -> bool {
    net_sess(l, a, u) > 0
}

/// Among post ids `keys`, how many surviving posts user `u` created.
pub open spec fn count_user_posts(l: Seq<UpdateV>, keys: Seq<u64>, u: u64) -> nat
    decreases keys.len(),
{
    if keys.len() == 0 {
        0
    } else {
        count_user_posts(l, keys.drop_last(), u) + if visible_post(l, keys.last()) && addr_of_user(
            l,
            creator(l, keys.last()),
            u,
        ) {
            1nat
        } else {
            0nat
        }
    }
}

/// Number of surviving posts created by user `u` (through any of the
/// session addresses bound to `u`).
pub open spec fn user_post_count(l: Seq<UpdateV>, u: u64) -> nat {
    count_user_posts(l, post_cands(l), u)
}

/// Among post ids `keys`, how many surviving posts user `u` currently likes.
pub open spec fn count_user_likes(l: Seq<UpdateV>, keys: Seq<u64>, u: u64) -> nat
    decreases keys.len(),
{
    if keys.len() == 0 {
        0
    } else {
        count_user_likes(l, keys.drop_last(), u) + if net_like(l, u, keys.last()) > 0
            && visible_post(l, keys.last()) {
            1nat
        } else {
            0nat
        }
    }
}

/// Number of surviving posts that user `u` currently likes.
pub open spec fn user_like_count(l: Seq<UpdateV>, u: u64) -> nat {
    count_user_likes(l, like_post_cands(l, u), u)
}

/// The users currently bound to session `s`, in order of first binding.
pub open spec fn filter_users(l: Seq<UpdateV>, keys: Seq<u64>, s: u64) -> Seq<u64>
    decreases keys.len(),
{
    if keys.len() == 0 {
        Seq::empty()
    } else {
        let r = filter_users(l, keys.drop_last(), s);
        if net_sess(l, s, keys.last()) > 0 {
            r.push(keys.last())
        } else {
            r
        }
    }
}

pub open spec fn live_users(l: Seq<UpdateV>, s: u64) -> Seq<u64> {
    filter_users(l, sess_cands(l, s), s)
}

/// The largest user id currently bound to address `a`, if any: the identity
/// under which results for `a` are personalised.
pub open spec fn best_user(l: Seq<UpdateV>, keys: Seq<u64>, a: u64) -> Option<u64>
    decreases keys.len(),
{
    if keys.len() == 0 {
        Option::None
    } else {
        let r = best_user(l, keys.drop_last(), a);
        if net_sess(l, a, keys.last()) > 0 {
            match r {
                Option::None => Option::Some(keys.last()),
                Option::Some(m) => Option::Some(if keys.last() > m {
                    keys.last()
                } else {
                    m
                }),
            }
        } else {
            r
        }
    }
}

pub open spec fn user_of(l: Seq<UpdateV>, a: u64) -> Option<u64> {
    best_user(l, sess_cands(l, a), a)
}

// ---------------------------------------------------------------------------
// the active page of a session: the most recently applied page wins
// ---------------------------------------------------------------------------
/// The time of the latest assertion of `ViewPostsPage(p)` by `s`; `-1` if
/// it was never asserted.
pub open spec fn vp_add_time(l: Seq<UpdateV>, s: u64, p: u64) -> int
    decreases l.len(),
{
    if l.len() == 0 {
        -1
    } else if l.last().addr == s && l.last().fact == FactV::ViewPostsPage(p) && l.last().diff > 0 {
        l.last().time as int
    } else {
        vp_add_time(l.drop_last(), s, p)
    }
}

/// Among `keys`, the currently-present page with the latest assertion,
/// larger page numbers breaking ties.
pub open spec fn best_page(l: Seq<UpdateV>, keys: Seq<u64>, s: u64) -> Option<u64>
    decreases keys.len(),
{
    if keys.len() == 0 {
        Option::None
    } else {
        let r = best_page(l, keys.drop_last(), s);
        if net_vp(l, s, keys.last()) > 0 {
            match r {
                Option::None => Option::Some(keys.last()),
                Option::Some(m) => Option::Some(
                    if vp_add_time(l, s, keys.last()) > vp_add_time(l, s, m) || (vp_add_time(
                        l,
                        s,
                        keys.last(),
                    ) == vp_add_time(l, s, m) && keys.last() > m) {
                        keys.last()
                    } else {
                        m
                    },
                ),
            }
        } else {
            r
        }
    }
}

/// The page session `s` currently views, if any.
pub open spec fn active_page(l: Seq<UpdateV>, s: u64) -> Option<u64> {
    best_page(l, vp_cands(l, s), s)
}

// ---------------------------------------------------------------------------
// pagination: order surviving posts by descending creation, then window
// ---------------------------------------------------------------------------
/// The surviving posts among `keys`, in candidate order.
pub open spec fn filter_visible(l: Seq<UpdateV>, keys: Seq<u64>) -> Seq<u64>
    decreases keys.len(),
{
    if keys.len() == 0 {
        Seq::empty()
    } else {
        let r = filter_visible(l, keys.drop_last());
        if visible_post(l, keys.last()) {
            r.push(keys.last())
        } else {
            r
        }
    }
}

pub open spec fn visible_ids(l: Seq<UpdateV>) -> Seq<u64> {
    filter_visible(l, post_cands(l))
}

/// `(creation time, id)` sort keys order newest first, ties to larger ids.
pub open spec fn pair_ge(a: (u64, u64), b: (u64, u64)) -> bool {
    a.0 > b.0 || (a.0 == b.0 && a.1 >= b.1)
}

pub open spec fn pair_ge_fn() -> spec_fn((u64, u64), (u64, u64)) -> bool {
    |a: (u64, u64), b: (u64, u64)| pair_ge(a, b)
}

pub open spec fn pairs_of(l: Seq<UpdateV>) -> Seq<(u64, u64)> {
    visible_ids(l).map_values(|id: u64| (created(l, id), id))
}

/// All surviving posts, newest first.
pub open spec fn post_order(l: Seq<UpdateV>) -> Seq<u64> {
    pairs_of(l).sort_by(pair_ge_fn()).map_values(|p: (u64, u64)| p.1)
}

pub open spec fn n_posts(l: Seq<UpdateV>) -> nat {
    post_order(l).len()
}

/// `max(1, ceil(n / psize))`.
pub open spec fn page_count_of(n: nat, psize: nat) -> nat
    recommends
        psize >= 1,
{
    if n == 0 {
        1
    } else {
        ((n + psize - 1) / psize as int) as nat
    }
}

/// The ids on page `p`, in rank order.
pub open spec fn page_slice(l: Seq<UpdateV>, p: u64, psize: u64) -> Seq<u64> {
    let ord = post_order(l);
    if p * psize >= ord.len() {
        Seq::empty()
    } else if (p + 1) * psize <= ord.len() {
        ord.subrange(p * psize, (p + 1) * psize)
    } else {
        ord.subrange(p * psize, ord.len() as int)
    }
}

// ---------------------------------------------------------------------------
// the decimal rendering used for creator names
// ---------------------------------------------------------------------------
pub open spec fn digit_char(d: int) -> char {
    if d == 0 {
        '0'
    } else if d == 1 {
        '1'
    } else if d == 2 {
        '2'
    } else if d == 3 {
        '3'
    } else if d == 4 {
        '4'
    } else if d == 5 {
        '5'
    } else if d == 6 {
        '6'
    } else if d == 7 {
        '7'
    } else if d == 8 {
        '8'
    } else {
        '9'
    }
}

/// The decimal digits of `n`, most significant first.
pub open spec fn dec_str(n: nat) -> Seq<char>
    decreases n,
{
    if n < 10 {
        seq![digit_char(n as int)]
    } else {
        dec_str(n / 10).push(digit_char((n % 10) as int))
    }
}

// ---------------------------------------------------------------------------
// the per-session result set
// ---------------------------------------------------------------------------
/// One `PagePost` per id on the page, rank in page order.
pub open spec fn page_post_results(ids: Seq<u64>, p: u64) -> Seq<QueryV> {
    Seq::new(ids.len(), |j: int| QueryV::PagePost(ids[j], p, j as u64))
}

/// The currently-present titles of post `q`, one result per text.
pub open spec fn filter_titles(l: Seq<UpdateV>, keys: Seq<Seq<char>>, q: u64) -> Seq<QueryV>
    decreases keys.len(),
{
    if keys.len() == 0 {
        Seq::empty()
    } else {
        let r = filter_titles(l, keys.drop_last(), q);
        if net_title(l, q, keys.last()) > 0 {
            r.push(QueryV::PostTitle(q, keys.last()))
        } else {
            r
        }
    }
}

pub open spec fn filter_bodies(l: Seq<UpdateV>, keys: Seq<Seq<char>>, q: u64) -> Seq<QueryV>
    decreases keys.len(),
{
    if keys.len() == 0 {
        Seq::empty()
    } else {
        let r = filter_bodies(l, keys.drop_last(), q);
        if net_body(l, q, keys.last()) > 0 {
            r.push(QueryV::PostBody(q, keys.last()))
        } else {
            r
        }
    }
}

/// Field results for every id on the page: all titles, then all bodies.
pub open spec fn field_results(l: Seq<UpdateV>, ids: Seq<u64>) -> Seq<QueryV>
    decreases ids.len(),
{
    if ids.len() == 0 {
        Seq::empty()
    } else {
        field_results(l, ids.drop_last()) + filter_titles(
            l,
            title_cands(l, ids.last()),
            ids.last(),
        )
    }
}

pub open spec fn body_results(l: Seq<UpdateV>, ids: Seq<u64>) -> Seq<QueryV>
    decreases ids.len(),
{
    if ids.len() == 0 {
        Seq::empty()
    } else {
        body_results(l, ids.drop_last()) + filter_bodies(l, body_cands(l, ids.last()), ids.last())
    }
}

/// Creator results: the creator's user id rendered in decimal, for every
/// post on the page whose creating session is bound to a user.
pub open spec fn creator_results(l: Seq<UpdateV>, ids: Seq<u64>) -> Seq<QueryV>
    decreases ids.len(),
{
    if ids.len() == 0 {
        Seq::empty()
    } else {
        creator_results(l, ids.drop_last()) + match user_of(l, creator(l, ids.last())) {
            Option::Some(u) => seq![QueryV::PostCreator(ids.last(), dec_str(u as nat))],
            Option::None => Seq::empty(),
        }
    }
}

/// One like count per id on the page; zero likes still yields a result.
pub open spec fn like_results(l: Seq<UpdateV>, ids: Seq<u64>) -> Seq<QueryV> {
    Seq::new(ids.len(), |j: int| QueryV::PostTotalLikes(ids[j], likes_of(l, ids[j]) as u64))
}

/// One like-membership flag per id on the page, for the viewer's user `u`.
pub open spec fn liked_by_results(l: Seq<UpdateV>, ids: Seq<u64>, u: u64) -> Seq<QueryV> {
    Seq::new(ids.len(), |j: int| QueryV::PostLikedByUser(ids[j], net_like(l, u, ids[j]) > 0))
}

/// Per-user aggregates, a pair of results per user bound to the session.
pub open spec fn user_results(l: Seq<UpdateV>, us: Seq<u64>) -> Seq<QueryV>
    decreases us.len(),
{
    if us.len() == 0 {
        Seq::empty()
    } else {
        user_results(l, us.drop_last()) + seq![
            QueryV::UserPostCount(user_post_count(l, us.last()) as u64),
            QueryV::UserLikeCount(user_like_count(l, us.last()) as u64),
        ]
    }
}

/// Everything session `s` sees of the post listing: nothing without an
/// active page; otherwise the page's posts, their fields, creators and like
/// views, and the listing aggregates.
pub open spec fn session_page_results(l: Seq<UpdateV>, s: u64, psize: u64) -> Seq<QueryV> {
    match active_page(l, s) {
        Option::None => Seq::empty(),
        Option::Some(p) => {
            let ids = page_slice(l, p, psize);
            page_post_results(ids, p) + field_results(l, ids) + body_results(l, ids)
                + creator_results(l, ids) + like_results(l, ids) + (match user_of(l, s) {
                Option::Some(u) => liked_by_results(l, ids, u),
                Option::None => Seq::empty(),
            }) + seq![
                QueryV::PostAggregates(
                    n_posts(l) as u64,
                    page_count_of(n_posts(l), psize as nat) as u64,
                ),
            ]
        },
    }
}

/// The full current result set for session `s`.
pub open spec fn session_results(l: Seq<UpdateV>, s: u64, psize: u64) -> Seq<QueryV> {
    session_page_results(l, s, psize) + user_results(l, live_users(l, s))
}

// ---------------------------------------------------------------------------
// the unified output collection
// ---------------------------------------------------------------------------
pub open spec fn tag_addr(s: u64, rs: Seq<QueryV>) -> Seq<OutV> {
    rs.map_values(|r: QueryV| OutV { addr: s, result: r })
}

/// The concatenation of every session's result set, session blocks in order
/// of each address's first appearance in the log.
pub open spec fn all_session_results(l: Seq<UpdateV>, keys: Seq<u64>, psize: u64) -> Seq<OutV>
    decreases keys.len(),
{
    if keys.len() == 0 {
        Seq::empty()
    } else {
        all_session_results(l, keys.drop_last(), psize) + tag_addr(
            keys.last(),
            session_results(l, keys.last(), psize),
        )
    }
}

/// Keeps the first occurrence of every entry: the consolidation applied at
/// the output boundary, so nothing is emitted twice in one step.
pub open spec fn dedup_out(s: Seq<OutV>) -> Seq<OutV>
    decreases s.len(),
{
    if s.len() == 0 {
        Seq::empty()
    } else {
        let r = dedup_out(s.drop_last());
        if r.contains(s.last()) {
            r
        } else {
            r.push(s.last())
        }
    }
}

/// The engine's derived state after any step: the consolidated unified
/// output collection, a pure function of the fact log.
pub open spec fn output_spec(l: Seq<UpdateV>, psize: u64) -> Seq<OutV> {
    dedup_out(all_session_results(l, addr_cands(l), psize))
}

// ---------------------------------------------------------------------------
// the delta emitted after one transaction, and its demultiplexing
// ---------------------------------------------------------------------------
/// Whether `s` holds a `PagePost` for post `q` addressed to `a`.
pub open spec fn has_page_post(s: Seq<OutV>, a: u64, q: u64) -> bool
    decreases s.len(),
{
    if s.len() == 0 {
        false
    } else {
        has_page_post(s.drop_last(), a, q) || (s.last().addr == a && s.last().result is PagePost
            && s.last().result->PagePost_0 == q)
    }
}

/// `DeletePost` for every post that left a session's view: it had a page
/// slot for that session before and has none now.
pub open spec fn delete_results(old_out: Seq<OutV>, new_out: Seq<OutV>) -> Seq<OutV>
    decreases old_out.len(),
{
    if old_out.len() == 0 {
        Seq::empty()
    } else {
        let r = delete_results(old_out.drop_last(), new_out);
        let e = old_out.last();
        if e.result is PagePost && !has_page_post(new_out, e.addr, e.result->PagePost_0) {
            r.push(OutV { addr: e.addr, result: QueryV::DeletePost(e.result->PagePost_0) })
        } else {
            r
        }
    }
}

/// Every result that is new in this step.
pub open spec fn insert_results(old_out: Seq<OutV>, new_out: Seq<OutV>) -> Seq<OutV>
    decreases new_out.len(),
{
    if new_out.len() == 0 {
        Seq::empty()
    } else {
        let r = insert_results(old_out, new_out.drop_last());
        if old_out.contains(new_out.last()) {
            r
        } else {
            r.push(new_out.last())
        }
    }
}

/// The batch of one step: deletions first, then the new results, nothing
/// twice.
pub open spec fn delta_spec(old_out: Seq<OutV>, new_out: Seq<OutV>) -> Seq<OutV> {
    dedup_out(delete_results(old_out, new_out) + insert_results(old_out, new_out))
}

/// The sessions a delta addresses, in order of first appearance.
pub open spec fn delta_addrs(d: Seq<OutV>) -> Seq<u64>
    decreases d.len(),
{
    if d.len() == 0 {
        Seq::empty()
    } else {
        push_new(delta_addrs(d.drop_last()), d.last().addr)
    }
}

/// The results addressed to session `a`, in delta order.
pub open spec fn results_for(d: Seq<OutV>, a: u64) -> Seq<QueryV>
    decreases d.len(),
{
    if d.len() == 0 {
        Seq::empty()
    } else {
        let r = results_for(d.drop_last(), a);
        if d.last().addr == a {
            r.push(d.last().result)
        } else {
            r
        }
    }
}

/// One ordered batch per affected session: the demultiplexer never splits
/// one step's updates for a session across deliveries.
pub open spec fn demux_spec(d: Seq<OutV>) -> Seq<(u64, Seq<QueryV>)> {
    delta_addrs(d).map_values(|a: u64| (a, results_for(d, a)))
}

} // verus!
