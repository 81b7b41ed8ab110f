use vstd::prelude::*;
use crate::models::{CollectedRepository, CollectedView, RecordView, RepositoryRecord, Timestamp};

verus! {

/// The upsert of one repository into the `repository_records` table of a
/// relational store, with the same rule as `upsert_step`: keyed by source
/// identifier, `created_at` kept on conflict. Binds, in order: source id,
/// name, full name, description, URL, stars, language, topics, and the time
/// of the call three times.
pub const UPSERT_SQL: &'static str = "INSERT INTO repository_records (github_id, name, full_name, description, url, stars, language, topics, created_at, updated_at, collected_at) VALUES ($1, $2, $3, $4, $5, $6, $7, $8, $9, $10, $11) ON CONFLICT (github_id) DO UPDATE SET name = EXCLUDED.name, full_name = EXCLUDED.full_name, description = EXCLUDED.description, url = EXCLUDED.url, stars = EXCLUDED.stars, language = EXCLUDED.language, topics = EXCLUDED.topics, updated_at = EXCLUDED.updated_at, collected_at = EXCLUDED.collected_at RETURNING *";

/// One page of the table in listing order. Binds the page size, then the
/// offset.
pub const LIST_SQL: &'static str = "SELECT * FROM repository_records ORDER BY collected_at DESC, stars DESC LIMIT $1 OFFSET $2";

/// The number of rows in the table.
pub const COUNT_SQL: &'static str = "SELECT COUNT(*) AS count FROM repository_records";

/// Why a write or a read of the table was refused.
#[derive(Debug, Clone, Copy, PartialEq, Eq)]
pub enum StoreError {
    /// The row would break a check of the table (a negative star count).
    Constraint,
    /// No storage key is left for a new row.
    IdsExhausted,
    /// The page window has a negative size or a negative offset.
    InvalidWindow,
}

/// The table as a mathematical value: one record per source identifier, and
/// the storage key that the next new row gets.
pub struct TableView {
    pub rows: Map<int, RecordView>,
    pub next_id: int,
}

/// The largest storage key.
pub open spec fn max_id() -> int {
    i32::MAX as int
}

/// What upserting `repo` at time `now` does to table `t`, and the row it
/// returns. A known source identifier keeps its storage key and `created_at`
/// and takes every other field anew; an unknown one gets a fresh key and
/// `now` for all three timestamps.
pub open spec fn upsert_step(t: TableView, repo: CollectedView, now: int) -> Result<(TableView, RecordView), StoreError> {
    if repo.stars < 0 {
        Err(StoreError::Constraint)
    } else if t.rows.contains_key(repo.github_id) {
        let prev = t.rows[repo.github_id];
        let rec = RecordView {
            id: prev.id,
            repo,
            created_at: prev.created_at,
            updated_at: now,
            collected_at: now,
        };
        Ok((TableView { rows: t.rows.insert(repo.github_id, rec), next_id: t.next_id }, rec))
    } else if t.next_id >= max_id() {
        Err(StoreError::IdsExhausted)
    } else {
        let rec = RecordView { id: t.next_id, repo, created_at: now, updated_at: now, collected_at: now };
        Ok((TableView { rows: t.rows.insert(repo.github_id, rec), next_id: t.next_id + 1 }, rec))
    }
}

/// `a` may be listed before `b`: it was collected later, or at the same time
/// with at least as many stars.
pub open spec fn listed_before(a: RecordView, b: RecordView) -> bool {
    a.collected_at > b.collected_at || (a.collected_at == b.collected_at && a.repo.stars >= b.repo.stars)
}

/// Newest collection first, then most stars first.
pub open spec fn in_listing_order(s: Seq<RecordView>) -> bool {
    forall|i: int, j: int| 0 <= i < j < s.len() ==> listed_before(#[trigger] s[i], #[trigger] s[j])
}

/// What upserting each of `repos` in turn at time `now` does to table `t`,
/// and the rows stored, in order; a repository whose upsert fails is skipped.
pub open spec fn upsert_all(t: TableView, repos: Seq<CollectedView>, now: int) -> (TableView, Seq<RecordView>)
    decreases repos.len(),
{
    if repos.len() == 0 {
        (t, Seq::empty())
    } else {
        let before = upsert_all(t, repos.drop_last(), now);
        match upsert_step(before.0, repos.last(), now) {
            Ok(done) => (done.0, before.1.push(done.1)),
            Err(_) => before,
        }
    }
}

/// The offset of page `page` when pages hold `per_page` rows.
pub open spec fn page_offset_of(page: int, per_page: int) -> int {
    (page - 1) * per_page
}

/// The smaller of two integers.
pub open spec fn min_of(a: int, b: int) -> int {
    if a <= b { a } else { b }
}

/// The rows of `s` that a window of `per_page` rows from `offset` holds.
pub open spec fn window(s: Seq<RecordView>, offset: int, per_page: int) -> Seq<RecordView> {
    s.subrange(min_of(offset, s.len() as int), min_of(offset + per_page, s.len() as int))
}

/// Upserting a repository twice keeps one row whose storage key, creation
/// time and fields stay as the first upsert left them, while the update and
/// collection times move on to the second call's time.
pub proof fn lemma_upsert_idempotent(t: TableView, repo: CollectedView, now1: int, now2: int)
    requires
        upsert_step(t, repo, now1) is Ok,
        now1 < now2,
    ensures
        ({
            let first = upsert_step(t, repo, now1)->Ok_0;
            let second = upsert_step(first.0, repo, now2);
            &&& second is Ok
            &&& second->Ok_0.0.rows.dom() == first.0.rows.dom()
            &&& second->Ok_0.0.rows[repo.github_id] == second->Ok_0.1
            &&& second->Ok_0.1.id == first.1.id
            &&& second->Ok_0.1.repo == first.1.repo
            &&& second->Ok_0.1.created_at == first.1.created_at
            &&& second->Ok_0.1.updated_at > first.1.updated_at
            &&& second->Ok_0.1.collected_at > first.1.collected_at
        }),
{
    let first = upsert_step(t, repo, now1)->Ok_0;
    assert(first.0.rows.contains_key(repo.github_id));
    assert(first.0.rows.insert(repo.github_id, upsert_step(first.0, repo, now2)->Ok_0.1).dom() =~= first.0.rows.dom());
}

/// Upserting two repositories with one source identifier leaves one row for
/// it, which holds the second repository's values, its star count included.
pub proof fn lemma_upsert_same_source(t: TableView, a: CollectedView, b: CollectedView, now1: int, now2: int)
    requires
        a.github_id == b.github_id,
        upsert_step(t, a, now1) is Ok,
        upsert_step(upsert_step(t, a, now1)->Ok_0.0, b, now2) is Ok,
    ensures
        ({
            let t2 = upsert_step(upsert_step(t, a, now1)->Ok_0.0, b, now2)->Ok_0.0;
            &&& t2.rows.dom() == t.rows.dom().insert(a.github_id)
            &&& t2.rows[b.github_id].repo == b
            &&& t2.rows[b.github_id].repo.stars == b.stars
        }),
{
    let t1 = upsert_step(t, a, now1)->Ok_0.0;
    let t2 = upsert_step(t1, b, now2)->Ok_0.0;
    assert(t1.rows.dom() =~= t.rows.dom().insert(a.github_id));
    assert(t2.rows.dom() =~= t1.rows.dom());
}

/// In listing order, two records collected at the same time come most stars
/// first.
pub proof fn lemma_same_time_by_stars(s: Seq<RecordView>, i: int, j: int)
    requires
        in_listing_order(s),
        0 <= i < j < s.len(),
        s[i].collected_at == s[j].collected_at,
    ensures
        s[i].repo.stars >= s[j].repo.stars,
{
    assert(listed_before(s[i], s[j]));
}

/// The records of a list of rows.
pub open spec fn records_view(v: Seq<RepositoryRecord>) -> Seq<RecordView> {
    v.map_values(|r: RepositoryRecord| r@)
}

/// The offset of page `page` when pages hold `per_page` rows; computed
/// without overflow for every pair of `i32` values.
pub fn page_offset(page: i32, per_page: i32) -> (r: i64)
    ensures
        r == page_offset_of(page as int, per_page as int),
        -4611686020574871552 <= r <= 4611686020574871552,
{
    let p: i64 = page as i64 - 1;
    let q: i64 = per_page as i64;
    proof {
        assert(-2147483649 <= p <= 2147483646);
        assert(-2147483648 <= q <= 2147483647);
        assert(-4611686020574871552 <= p * q <= 4611686020574871552) by (nonlinear_arith)
            requires
                -2147483649 <= p <= 2147483646,
                -2147483648 <= q <= 2147483647,
        ;
    }
    p * q
}

/// Puts `rec` into rows kept in listing order, after every row that may come
/// before it; returns where it went.
fn insert_in_order(rows: &mut Vec<RepositoryRecord>, rec: RepositoryRecord) -> (p: usize)
    requires
        in_listing_order(records_view(old(rows)@)),
        old(rows)@.len() < usize::MAX,
    ensures
        p <= old(rows)@.len(),
        records_view(final(rows)@) == records_view(old(rows)@).insert(p as int, rec@),
        in_listing_order(records_view(final(rows)@)),
{
    let ghost s = records_view(rows@);
    let mut p: usize = 0;
    while p < rows.len() && listed_before_exec(&rows[p], &rec)
        invariant
            p <= rows@.len(),
            s == records_view(rows@),
            forall|a: int| 0 <= a < p ==> listed_before(#[trigger] s[a], rec@),
        decreases rows@.len() - p,
    {
        p = p + 1;
    }
    proof {
        assert forall|b: int| p <= b < s.len() implies listed_before(rec@, #[trigger] s[b]) by {
            assert(!listed_before(s[p as int], rec@));
            if b > p {
                assert(listed_before(s[p as int], s[b]));
            }
        }
    }
    rows.insert(p, rec);
    proof {
        let n = records_view(rows@);
        assert(n =~= s.insert(p as int, rec@));
        assert forall|i: int, j: int| 0 <= i < j < n.len() implies listed_before(#[trigger] n[i], #[trigger] n[j]) by {
            if j < p {
            } else if j == p {
            } else if i < p {
                assert(listed_before(s[i], rec@));
                assert(listed_before(rec@, s[j - 1]));
            } else if i == p {
                assert(n[j] == s[j - 1]);
            } else {
                assert(listed_before(s[i - 1], s[j - 1]));
            }
        }
    }
    p
}

/// Whether `a` may be listed before `b`.
fn listed_before_exec(a: &RepositoryRecord, b: &RepositoryRecord) -> (r: bool)
    ensures
        r == listed_before(a@, b@),
{
    a.collected_at > b.collected_at || (a.collected_at == b.collected_at && a.stars >= b.stars)
}

/// The store of collected repositories: one row per source identifier, kept
/// in listing order.
pub struct RepositoryDb {
    rows: Vec<RepositoryRecord>,
    next_id: i32,
    model: Ghost<Map<int, RecordView>>,
}

impl View for RepositoryDb {
    type V = TableView;

    closed spec fn view(&self) -> TableView {
        TableView { rows: self.model@, next_id: self.next_id as int }
    }
}

impl RepositoryDb {
    /// The stored records in listing order.
    pub closed spec fn listing(&self) -> Seq<RecordView> {
        records_view(self.rows@)
    }

    /// The rows agree with the model, hold each source identifier once, and
    /// stand in listing order.
    pub closed spec fn wf(&self) -> bool {
        let l = self.listing();
        let m = self.model@;
        &&& 1 <= self.next_id
        &&& l.len() < self.next_id
        &&& m.dom().finite()
        &&& m.len() == l.len()
        &&& forall|i: int| 0 <= i < l.len() ==> m.contains_key((#[trigger] l[i]).repo.github_id)
        &&& forall|i: int| 0 <= i < l.len() ==> m[(#[trigger] l[i]).repo.github_id] == l[i]
        &&& forall|g: int| #[trigger] m.contains_key(g) ==> exists|i: int| 0 <= i < l.len() && (#[trigger] l[i]).repo.github_id == g
        &&& forall|i: int, j: int| 0 <= i < l.len() && 0 <= j < l.len() && i != j ==> (#[trigger] l[i]).repo.github_id != (#[trigger] l[j]).repo.github_id
        &&& in_listing_order(l)
    }

    /// An empty table.
    pub fn new() -> (r: RepositoryDb)
        ensures
            r.wf(),
            r@.rows == Map::<int, RecordView>::empty(),
            r@.next_id == 1,
    {
        RepositoryDb { rows: Vec::new(), next_id: 1, model: Ghost(Map::empty()) }
    }

    /// The row that holds source identifier `id`, if any.
    fn position_of(&self, id: i64) -> (p: Option<usize>)
        ensures
            match p {
                Some(k) => k < self.listing().len() && self.listing()[k as int].repo.github_id == id,
                None => forall|a: int| 0 <= a < self.listing().len() ==> (#[trigger] self.listing()[a]).repo.github_id != id,
            },
    {
        let mut k: usize = 0;
        while k < self.rows.len()
            invariant
                k <= self.rows@.len(),
                forall|a: int| 0 <= a < k ==> (#[trigger] self.listing()[a]).repo.github_id != id,
            decreases self.rows@.len() - k,
        {
            if self.rows[k].github_id == id {
                return Some(k);
            }
            k = k + 1;
        }
        None
    }

    /// Inserts `repo`, or updates the row with its source identifier, at time
    /// `now`, and returns the stored row.
    pub fn upsert_repository(&mut self, repo: &CollectedRepository, now: Timestamp) -> (r: Result<RepositoryRecord, StoreError>)
        requires
            old(self).wf(),
        ensures
            final(self).wf(),
            match r {
                Ok(rec) => upsert_step(old(self)@, repo@, now as int) == Ok::<(TableView, RecordView), StoreError>((final(self)@, rec@)),
                Err(e) => upsert_step(old(self)@, repo@, now as int) == Err::<(TableView, RecordView), StoreError>(e) && final(self)@ == old(self)@,
            },
    {
        if repo.stars < 0 {
            return Err(StoreError::Constraint);
        }
        let ghost l0 = self.listing();
        let ghost m0 = self.model@;
        let ghost g = repo.github_id as int;
        match self.position_of(repo.github_id) {
            Some(k) => {
                let prev = self.rows.remove(k);
                let ghost l1 = self.listing();
                proof {
                    assert(l1 =~= l0.remove(k as int));
                    assert(m0.contains_key(g));
                    assert(prev@ == m0[g]);
                    assert forall|i: int, j: int| 0 <= i < j < l1.len() implies listed_before(#[trigger] l1[i], #[trigger] l1[j]) by {
                        if i < k {
                            if j >= k {
                                assert(l1[j] == l0[j + 1]);
                            }
                        } else {
                            assert(l1[i] == l0[i + 1]);
                            assert(l1[j] == l0[j + 1]);
                        }
                    }
                }
                let rec = RepositoryRecord::from_parts(prev.id, repo, prev.created_at, now, now);
                let p = insert_in_order(&mut self.rows, rec.duplicate());
                proof {
                    self.model = Ghost(m0.insert(g, rec@));
                    let l2 = self.listing();
                    let m2 = self.model@;
                    assert(m2.dom() =~= m0.dom());
                    // the removed row was the only one with identifier g
                    assert forall|i: int| 0 <= i < l1.len() implies (#[trigger] l1[i]).repo.github_id != g by {
                        if i < k {
                            assert(l0[i].repo.github_id != l0[k as int].repo.github_id);
                        } else {
                            assert(l1[i] == l0[i + 1]);
                            assert(l0[i + 1].repo.github_id != l0[k as int].repo.github_id);
                        }
                    }
                    self.lemma_rows_after_insert(l0, m0, l1, k as int, true, p as int, rec@);
                }
                Ok(rec)
            },
            None => {
                if self.next_id == i32::MAX {
                    return Err(StoreError::IdsExhausted);
                }
                proof {
                    if m0.contains_key(g) {
                        let i = choose|i: int| 0 <= i < l0.len() && (#[trigger] l0[i]).repo.github_id == g;
                    }
                }
                let rec = RepositoryRecord::from_parts(self.next_id, repo, now, now, now);
                let p = insert_in_order(&mut self.rows, rec.duplicate());
                self.next_id = self.next_id + 1;
                proof {
                    self.model = Ghost(m0.insert(g, rec@));
                    assert(self.model@.dom() =~= m0.dom().insert(g));
                    self.lemma_rows_after_insert(l0, m0, l0, 0, false, p as int, rec@);
                }
                Ok(rec)
            },
        }
    }

    /// Upserts each of `repos` in order at time `now`; a repository whose
    /// upsert fails is skipped and the rest go on. Returns the stored rows in
    /// order.
    pub fn upsert_repositories(&mut self, repos: &Vec<CollectedRepository>, now: Timestamp) -> (r: Vec<RepositoryRecord>)
        requires
            old(self).wf(),
        ensures
            final(self).wf(),
            upsert_all(old(self)@, repos@.map_values(|c: CollectedRepository| c@), now as int) == (final(self)@, records_view(r@)),
    {
        let ghost t0 = self@;
        let ghost s = repos@.map_values(|c: CollectedRepository| c@);
        let mut records: Vec<RepositoryRecord> = Vec::new();
        let mut i: usize = 0;
        while i < repos.len()
            invariant
                i <= repos@.len(),
                self.wf(),
                s == repos@.map_values(|c: CollectedRepository| c@),
                upsert_all(t0, s.subrange(0, i as int), now as int) == (self@, records_view(records@)),
            decreases repos@.len() - i,
        {
            let ghost before = records@;
            let outcome = self.upsert_repository(&repos[i], now);
            proof {
                assert(s.subrange(0, i + 1).drop_last() =~= s.subrange(0, i as int));
                assert(s.subrange(0, i + 1).last() == repos@[i as int]@);
            }
            match outcome {
                Ok(rec) => {
                    let ghost rv = rec@;
                    records.push(rec);
                    assert(records_view(records@) =~= records_view(before).push(rv));
                },
                Err(_) => {},
            }
            i = i + 1;
        }
        assert(s.subrange(0, repos@.len() as int) =~= s);
        records
    }

    /// Page `page` of the table in listing order, pages holding `per_page`
    /// rows, with the number of rows in the whole table.
    pub fn list(&self, page: i32, per_page: i32) -> (r: Result<(Vec<RepositoryRecord>, i64), StoreError>)
        requires
            self.wf(),
        ensures
            in_listing_order(self.listing()),
            self.listing().len() == self@.rows.len(),
            forall|i: int| 0 <= i < self.listing().len() ==> self@.rows[(#[trigger] self.listing()[i]).repo.github_id] == self.listing()[i],
            r is Err <==> (per_page < 0 || page_offset_of(page as int, per_page as int) < 0),
            r is Err ==> r == Err::<(Vec<RepositoryRecord>, i64), StoreError>(StoreError::InvalidWindow),
            r is Ok ==> ({
                let found = records_view(r->Ok_0.0@);
                &&& found == window(self.listing(), page_offset_of(page as int, per_page as int), per_page as int)
                &&& in_listing_order(found)
                &&& r->Ok_0.1 == self@.rows.len()
            }),
    {
        let offset: i64 = page_offset(page, per_page);
        if per_page < 0 || offset < 0 {
            return Err(StoreError::InvalidWindow);
        }
        let n: usize = self.rows.len();
        let lo: usize = if (offset as u64) < (n as u64) { offset as usize } else { n };
        let end: i64 = offset + per_page as i64;
        let hi: usize = if (end as u64) < (n as u64) { end as usize } else { n };
        let mut found: Vec<RepositoryRecord> = Vec::new();
        let mut i: usize = lo;
        while i < hi
            invariant
                lo <= i <= hi,
                hi <= n,
                n == self.rows@.len(),
                records_view(found@) == self.listing().subrange(lo as int, i as int),
            decreases hi - i,
        {
            let ghost before = found@;
            found.push(self.rows[i].duplicate());
            assert(records_view(found@) =~= records_view(before).push(self.rows@[i as int]@));
            assert(records_view(found@) =~= self.listing().subrange(lo as int, i + 1));
            i = i + 1;
        }
        let total: i64 = n as i64;
        proof {
            let l = self.listing();
            let w = records_view(found@);
            assert(w == window(l, offset as int, per_page as int));
            assert forall|a: int, b: int| 0 <= a < b < w.len() implies listed_before(#[trigger] w[a], #[trigger] w[b]) by {
                assert(w[a] == l[lo + a]);
                assert(w[b] == l[lo + b]);
            }
        }
        Ok((found, total))
    }

    /// The agreement of rows and model survives putting `rec` at `p` into
    /// `l1`, where `l1` is `l0` without row `k` when `removed` holds, and `l0`
    /// otherwise, and no row of `l1` has the identifier of `rec`.
    proof fn lemma_rows_after_insert(
        &self,
        l0: Seq<RecordView>,
        m0: Map<int, RecordView>,
        l1: Seq<RecordView>,
        k: int,
        removed: bool,
        p: int,
        rec: RecordView,
    )
        requires
            removed ==> 0 <= k < l0.len() && l1 == l0.remove(k) && l0[k].repo.github_id == rec.repo.github_id,
            !removed ==> l1 == l0,
            forall|i: int| 0 <= i < l1.len() ==> (#[trigger] l1[i]).repo.github_id != rec.repo.github_id,
            0 <= p <= l1.len(),
            self.listing() == l1.insert(p, rec),
            self.model@ == m0.insert(rec.repo.github_id, rec),
            forall|i: int| 0 <= i < l0.len() ==> m0.contains_key((#[trigger] l0[i]).repo.github_id),
            forall|i: int| 0 <= i < l0.len() ==> m0[(#[trigger] l0[i]).repo.github_id] == l0[i],
            forall|g: int| #[trigger] m0.contains_key(g) ==> exists|i: int| 0 <= i < l0.len() && (#[trigger] l0[i]).repo.github_id == g,
            forall|i: int, j: int| 0 <= i < l0.len() && 0 <= j < l0.len() && i != j ==> (#[trigger] l0[i]).repo.github_id != (#[trigger] l0[j]).repo.github_id,
        ensures
            ({
                let l = self.listing();
                let m = self.model@;
                &&& forall|i: int| 0 <= i < l.len() ==> m.contains_key((#[trigger] l[i]).repo.github_id)
                &&& forall|i: int| 0 <= i < l.len() ==> m[(#[trigger] l[i]).repo.github_id] == l[i]
                &&& forall|g: int| #[trigger] m.contains_key(g) ==> exists|i: int| 0 <= i < l.len() && (#[trigger] l[i]).repo.github_id == g
                &&& forall|i: int, j: int| 0 <= i < l.len() && 0 <= j < l.len() && i != j ==> (#[trigger] l[i]).repo.github_id != (#[trigger] l[j]).repo.github_id
            }),
    {
        let l = self.listing();
        let m = self.model@;
        let g = rec.repo.github_id;
        // where row i of l1 stood in l0
        assert forall|i: int| 0 <= i < l1.len() implies (#[trigger] l1[i]) == l0[if removed && i >= k { i + 1 } else { i }] by {}
        assert forall|i: int| 0 <= i < l.len() implies (#[trigger] l[i]) == (if i == p { rec } else if i < p { l1[i] } else { l1[i - 1] }) by {}
        assert forall|i: int| 0 <= i < l.len() implies m.contains_key((#[trigger] l[i]).repo.github_id) && m[l[i].repo.github_id] == l[i] by {
            if i != p {
                let i1 = if i < p { i } else { i - 1 };
                assert(l1[i1].repo.github_id != g);
                let i0 = if removed && i1 >= k { i1 + 1 } else { i1 };
                assert(l0[i0] == l1[i1]);
            }
        }
        assert forall|g2: int| #[trigger] m.contains_key(g2) implies exists|i: int| 0 <= i < l.len() && (#[trigger] l[i]).repo.github_id == g2 by {
            if g2 == g {
                assert(l[p].repo.github_id == g2);
            } else {
                assert(m0.contains_key(g2));
                let i0 = choose|i: int| 0 <= i < l0.len() && (#[trigger] l0[i]).repo.github_id == g2;
                if removed {
                    assert(i0 != k);
                }
                let i1 = if removed && i0 > k { i0 - 1 } else { i0 };
                assert(l1[i1] == l0[i0]);
                let i2 = if i1 < p { i1 } else { i1 + 1 };
                assert(l[i2] == l1[i1]);
            }
        }
        assert forall|i: int, j: int| 0 <= i < l.len() && 0 <= j < l.len() && i != j implies (#[trigger] l[i]).repo.github_id != (#[trigger] l[j]).repo.github_id by {
            if i != p && j != p {
                let i1 = if i < p { i } else { i - 1 };
                let j1 = if j < p { j } else { j - 1 };
                let i0 = if removed && i1 >= k { i1 + 1 } else { i1 };
                let j0 = if removed && j1 >= k { j1 + 1 } else { j1 };
                assert(l0[i0] == l1[i1]);
                assert(l0[j0] == l1[j1]);
            } else if i == p {
                let j1 = if j < p { j } else { j - 1 };
                assert(l[j] == l1[j1]);
            } else {
                let i1 = if i < p { i } else { i - 1 };
                assert(l[i] == l1[i1]);
            }
        }
    }
}

} // verus!
