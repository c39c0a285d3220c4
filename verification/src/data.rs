//! The data model: facts that sessions assert or retract, the results the
//! engine derives from them, and the log entries that carry both.

use vstd::prelude::*;

verus! {

/// Entity identifier: posts, users and sessions all live in one id space.
pub type Id = u64;

/// Logical time: one tick per accepted transaction.
pub type Time = u64;

/// Signed multiplicity of a fact: `1` asserts, `-1` retracts.
pub type Diff = i64;

/// Identifies the submitting connection; the transport assigns one
/// plain number to each session.
pub type Addr = u64;

/// A fact that a session can assert (diff `1`) or retract (diff `-1`),
/// always attached to an entity id.
#[derive(Debug)]
pub enum Persisted {
    /// Marks the entity as a post; the submitting address is its creator.
    Post,
    /// The title of the post with this entity id.
    PostTitle(String),
    /// The body of the post with this entity id.
    PostBody(String),
    /// The user with this entity id likes the given post.
    PostLike(u64),
    /// The submitting session views the given page of the post listing.
    ViewPostsPage(u64),
    /// Binds the submitting session's address to this user entity id.
    Session,
}

/// Mathematical image of a `Persisted` fact: strings become `Seq<char>`.
pub enum FactV {
    Post,
    PostTitle(Seq<char>),
    PostBody(Seq<char>),
    PostLike(u64),
    ViewPostsPage(u64),
    Session,
}

impl View for Persisted {
    type V = FactV;

    open spec fn view(&self) -> FactV {
        match self {
            Persisted::Post => FactV::Post,
            Persisted::PostTitle(s) => FactV::PostTitle(s@),
            Persisted::PostBody(s) => FactV::PostBody(s@),
            Persisted::PostLike(q) => FactV::PostLike(*q),
            Persisted::ViewPostsPage(p) => FactV::ViewPostsPage(*p),
            Persisted::Session => FactV::Session,
        }
    }
}

impl PartialEq for Persisted {
    fn eq(&self, other: &Persisted) -> (r: bool) {
        match (self, other) {
            (Persisted::Post, Persisted::Post) => true,
            (Persisted::PostTitle(a), Persisted::PostTitle(b)) => *a == *b,
            (Persisted::PostBody(a), Persisted::PostBody(b)) => *a == *b,
            (Persisted::PostLike(a), Persisted::PostLike(b)) => *a == *b,
            (Persisted::ViewPostsPage(a), Persisted::ViewPostsPage(b)) => *a == *b,
            (Persisted::Session, Persisted::Session) => true,
            _ => false,
        }
    }
}

impl vstd::std_specs::cmp::PartialEqSpecImpl for Persisted {
    open spec fn obeys_eq_spec() -> bool {
        true
    }

    open spec fn eq_spec(&self, other: &Persisted) -> bool {
        self@ == other@
    }
}

impl Clone for Persisted {
    fn clone(&self) -> (r: Persisted)
        ensures
            r@ == self@,
    {
        match self {
            Persisted::Post => Persisted::Post,
            Persisted::PostTitle(s) => Persisted::PostTitle(s.clone()),
            Persisted::PostBody(s) => Persisted::PostBody(s.clone()),
            Persisted::PostLike(q) => Persisted::PostLike(*q),
            Persisted::ViewPostsPage(p) => Persisted::ViewPostsPage(*p),
            Persisted::Session => Persisted::Session,
        }
    }
}

/// A result addressed to one session, describing a change of a derived view.
#[derive(Debug)]
pub enum QueryResult {
    /// The post holds the given rank on the given page: (id, page, rank).
    PagePost(u64, u64, u64),
    /// The post left every page the receiving session can see.
    DeletePost(u64),
    /// Title of a post in view: (id, title).
    PostTitle(u64, String),
    /// Body of a post in view: (id, body).
    PostBody(u64, String),
    /// Creator of a post in view: (id, creator user id rendered as text).
    PostCreator(u64, String),
    /// Like count of a post in view: (id, count).
    PostTotalLikes(u64, u64),
    /// Whether the receiving session's own user likes the post: (id, liked).
    PostLikedByUser(u64, bool),
    /// Post listing aggregates: (total posts, page count).
    PostAggregates(u64, u64),
    /// Number of live posts created by the receiving session's user.
    UserPostCount(u64),
    /// Number of live likes by the receiving session's user on live posts.
    UserLikeCount(u64),
}

/// Mathematical image of a `QueryResult`.
pub enum QueryV {
    PagePost(u64, u64, u64),
    DeletePost(u64),
    PostTitle(u64, Seq<char>),
    PostBody(u64, Seq<char>),
    PostCreator(u64, Seq<char>),
    PostTotalLikes(u64, u64),
    PostLikedByUser(u64, bool),
    PostAggregates(u64, u64),
    UserPostCount(u64),
    UserLikeCount(u64),
}

impl View for QueryResult {
    type V = QueryV;

    open spec fn view(&self) -> QueryV {
        match self {
            QueryResult::PagePost(id, p, r) => QueryV::PagePost(*id, *p, *r),
            QueryResult::DeletePost(id) => QueryV::DeletePost(*id),
            QueryResult::PostTitle(id, s) => QueryV::PostTitle(*id, s@),
            QueryResult::PostBody(id, s) => QueryV::PostBody(*id, s@),
            QueryResult::PostCreator(id, s) => QueryV::PostCreator(*id, s@),
            QueryResult::PostTotalLikes(id, n) => QueryV::PostTotalLikes(*id, *n),
            QueryResult::PostLikedByUser(id, b) => QueryV::PostLikedByUser(*id, *b),
            QueryResult::PostAggregates(n, p) => QueryV::PostAggregates(*n, *p),
            QueryResult::UserPostCount(n) => QueryV::UserPostCount(*n),
            QueryResult::UserLikeCount(n) => QueryV::UserLikeCount(*n),
        }
    }
}

impl PartialEq for QueryResult {
    fn eq(&self, other: &QueryResult) -> (r: bool) {
        match (self, other) {
            (QueryResult::PagePost(a, b, c), QueryResult::PagePost(d, e, f)) => {
                *a == *d && *b == *e && *c == *f
            },
            (QueryResult::DeletePost(a), QueryResult::DeletePost(b)) => *a == *b,
            (QueryResult::PostTitle(a, s), QueryResult::PostTitle(b, t)) => *a == *b && *s == *t,
            (QueryResult::PostBody(a, s), QueryResult::PostBody(b, t)) => *a == *b && *s == *t,
            (QueryResult::PostCreator(a, s), QueryResult::PostCreator(b, t)) => (
                *a == *b && *s == *t
            ),
            (QueryResult::PostTotalLikes(a, m), QueryResult::PostTotalLikes(b, n)) => {
                *a == *b && *m == *n
            },
            (QueryResult::PostLikedByUser(a, x), QueryResult::PostLikedByUser(b, y)) => {
                *a == *b && *x == *y
            },
            (QueryResult::PostAggregates(m, p), QueryResult::PostAggregates(n, q)) => {
                *m == *n && *p == *q
            },
            (QueryResult::UserPostCount(m), QueryResult::UserPostCount(n)) => *m == *n,
            (QueryResult::UserLikeCount(m), QueryResult::UserLikeCount(n)) => *m == *n,
            _ => false,
        }
    }
}

impl vstd::std_specs::cmp::PartialEqSpecImpl for QueryResult {
    open spec fn obeys_eq_spec() -> bool {
        true
    }

    open spec fn eq_spec(&self, other: &QueryResult) -> bool {
        self@ == other@
    }
}

impl Clone for QueryResult {
    fn clone(&self) -> (r: QueryResult)
        ensures
            r@ == self@,
    {
        match self {
            QueryResult::PagePost(id, p, rk) => QueryResult::PagePost(*id, *p, *rk),
            QueryResult::DeletePost(id) => QueryResult::DeletePost(*id),
            QueryResult::PostTitle(id, s) => QueryResult::PostTitle(*id, s.clone()),
            QueryResult::PostBody(id, s) => QueryResult::PostBody(*id, s.clone()),
            QueryResult::PostCreator(id, s) => QueryResult::PostCreator(*id, s.clone()),
            QueryResult::PostTotalLikes(id, n) => QueryResult::PostTotalLikes(*id, *n),
            QueryResult::PostLikedByUser(id, b) => QueryResult::PostLikedByUser(*id, *b),
            QueryResult::PostAggregates(n, p) => QueryResult::PostAggregates(*n, *p),
            QueryResult::UserPostCount(n) => QueryResult::UserPostCount(*n),
            QueryResult::UserLikeCount(n) => QueryResult::UserLikeCount(*n),
        }
    }
}

/// One weighted, timestamped log entry: the fact `fact` about entity `id`,
/// submitted by session `addr`, applied at logical time `time` with
/// multiplicity `diff`.
#[derive(Debug)]
pub struct Update {
    pub addr: u64,
    pub id: u64,
    pub fact: Persisted,
    pub time: u64,
    pub diff: i64,
}

/// Mathematical image of an `Update`.
pub struct UpdateV {
    pub addr: u64,
    pub id: u64,
    pub fact: FactV,
    pub time: u64,
    pub diff: i64,
}

impl View for Update {
    type V = UpdateV;

    open spec fn view(&self) -> UpdateV {
        UpdateV { addr: self.addr, id: self.id, fact: self.fact@, time: self.time, diff: self.diff }
    }
}

impl PartialEq for Update {
    fn eq(&self, other: &Update) -> (r: bool) {
        self.addr == other.addr && self.id == other.id && self.fact == other.fact && self.time
            == other.time && self.diff == other.diff
    }
}

impl vstd::std_specs::cmp::PartialEqSpecImpl for Update {
    open spec fn obeys_eq_spec() -> bool {
        true
    }

    open spec fn eq_spec(&self, other: &Update) -> bool {
        self@ == other@
    }
}

impl Clone for Update {
    fn clone(&self) -> (r: Update)
        ensures
            r@ == self@,
    {
        Update {
            addr: self.addr,
            id: self.id,
            fact: self.fact.clone(),
            time: self.time,
            diff: self.diff,
        }
    }
}

/// A derived result together with the session it is addressed to.
#[derive(Debug)]
pub struct OutItem {
    pub addr: u64,
    pub result: QueryResult,
}

/// Mathematical image of an `OutItem`.
pub struct OutV {
    pub addr: u64,
    pub result: QueryV,
}

impl View for OutItem {
    type V = OutV;

    open spec fn view(&self) -> OutV {
        OutV { addr: self.addr, result: self.result@ }
    }
}

impl Clone for OutItem {
    fn clone(&self) -> (r: OutItem)
        ensures
            r@ == self@,
    {
        OutItem { addr: self.addr, result: self.result.clone() }
    }
}

/// The views of a log, in log order.
pub open spec fn lv(log: Seq<Update>) -> Seq<UpdateV> {
    log.map_values(|u: Update| u@)
}

/// The views of an output list, in order.
pub open spec fn ov(out: Seq<OutItem>) -> Seq<OutV> {
    out.map_values(|o: OutItem| o@)
}

/// The views of a result list, in order.
pub open spec fn qv(rs: Seq<QueryResult>) -> Seq<QueryV> {
    rs.map_values(|q: QueryResult| q@)
}

pub broadcast proof fn lv_len(log: Seq<Update>)
    ensures
        (#[trigger] lv(log)).len() == log.len(),
{
    assert(lv(log) == log.map_values(|u: Update| u@));
}

pub broadcast proof fn lv_index(log: Seq<Update>, i: int)
    requires
        0 <= i < log.len(),
    ensures
        #[trigger] lv(log)[i] == log[i]@,
{
    assert(lv(log) == log.map_values(|u: Update| u@));
}

pub broadcast proof fn ov_len(out: Seq<OutItem>)
    ensures
        (#[trigger] ov(out)).len() == out.len(),
{
    assert(ov(out) == out.map_values(|o: OutItem| o@));
}

pub broadcast proof fn ov_index(out: Seq<OutItem>, i: int)
    requires
        0 <= i < out.len(),
    ensures
        #[trigger] ov(out)[i] == out[i]@,
{
    assert(ov(out) == out.map_values(|o: OutItem| o@));
}

pub broadcast proof fn qv_len(rs: Seq<QueryResult>)
    ensures
        (#[trigger] qv(rs)).len() == rs.len(),
{
    assert(qv(rs) == rs.map_values(|q: QueryResult| q@));
}

pub broadcast proof fn qv_index(rs: Seq<QueryResult>, i: int)
    requires
        0 <= i < rs.len(),
    ensures
        #[trigger] qv(rs)[i] == rs[i]@,
{
    assert(qv(rs) == rs.map_values(|q: QueryResult| q@));
}

pub proof fn lv_push(prev: Seq<Update>, x: Update, cur: Seq<Update>)
    requires
        cur == prev.push(x),
    ensures
        lv(cur) == lv(prev).push(x@),
{
    assert(lv(prev) == prev.map_values(|u: Update| u@));
    assert(lv(cur) == cur.map_values(|u: Update| u@));
    assert(lv(cur) =~= lv(prev).push(x@));
}

pub proof fn qv_push(prev: Seq<QueryResult>, x: QueryResult, cur: Seq<QueryResult>)
    requires
        cur == prev.push(x),
    ensures
        qv(cur) == qv(prev).push(x@),
{
    assert(qv(prev) == prev.map_values(|q: QueryResult| q@));
    assert(qv(cur) == cur.map_values(|q: QueryResult| q@));
    assert(qv(cur) =~= qv(prev).push(x@));
}

pub proof fn ov_push(prev: Seq<OutItem>, x: OutItem, cur: Seq<OutItem>)
    requires
        cur == prev.push(x),
    ensures
        ov(cur) == ov(prev).push(x@),
{
    assert(ov(prev) == prev.map_values(|o: OutItem| o@));
    assert(ov(cur) == cur.map_values(|o: OutItem| o@));
    assert(ov(cur) =~= ov(prev).push(x@));
}

/// The views of a list of per-session batches.
pub open spec fn bv(batches: Seq<(u64, Vec<QueryResult>)>) -> Seq<(u64, Seq<QueryV>)> {
    batches.map_values(|pr: (u64, Vec<QueryResult>)| (pr.0, qv(pr.1@)))
}

pub proof fn bv_push(
    prev: Seq<(u64, Vec<QueryResult>)>,
    x: (u64, Vec<QueryResult>),
    cur: Seq<(u64, Vec<QueryResult>)>,
)
    requires
        cur == prev.push(x),
    ensures
        bv(cur) == bv(prev).push((x.0, qv(x.1@))),
{
    assert(bv(prev) == prev.map_values(|pr: (u64, Vec<QueryResult>)| (pr.0, qv(pr.1@))));
    assert(bv(cur) == cur.map_values(|pr: (u64, Vec<QueryResult>)| (pr.0, qv(pr.1@))));
    assert(bv(cur) =~= bv(prev).push((x.0, qv(x.1@))));
}

pub proof fn bv_len(batches: Seq<(u64, Vec<QueryResult>)>)
    ensures
        bv(batches).len() == batches.len(),
{
    assert(bv(batches) == batches.map_values(|pr: (u64, Vec<QueryResult>)| (pr.0, qv(pr.1@))));
}

pub broadcast group group_view_facts {
    lv_len,
    lv_index,
    ov_len,
    ov_index,
    qv_len,
    qv_index,
}

/// A record of the post listing as a client keeps it; the engine's
/// `PagePost`/`PostTitle`/`PostBody` results fill one of these per post.
#[derive(Debug)]
pub struct Post {
    pub title: String,
    pub body: String,
    pub user_id: u64,
    pub likes: u64,
}

/// What can go wrong while a connection is being set up around the engine;
/// the engine itself never fails on structurally valid input.
#[derive(Debug)]
pub enum HandlerError {
    Handshake,
}

} // verus!
