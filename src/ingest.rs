//! The feed table that ingest fills: one row per feed id, kept in the order
//! ids first arrived; ingest writes feed rows only, never link state.
use vstd::prelude::*;

use crate::config::{clone_feed, FeedConfig};
use crate::tick::{distinct_ids, has_id};

verus! {

/// Feed definitions keyed by id.
#[derive(Debug)]
pub struct FeedTable {
    rows: Vec<FeedConfig>,
}

impl View for FeedTable {
    type V = Seq<FeedConfig>;

    closed spec fn view(&self) -> Seq<FeedConfig> {
        self.rows@
    }
}

/// The position of the row with id `id`.
pub open spec fn index_of(rows: Seq<FeedConfig>, id: Seq<char>) -> int {
    choose|i: int| 0 <= i < rows.len() && rows[i].id@ == id
}

/// `rows` with `f` written under its id: the row with that id replaced, or
/// `f` appended when there is none.
pub open spec fn upserted(rows: Seq<FeedConfig>, f: FeedConfig) -> Seq<FeedConfig> {
    if has_id(rows, f.id@) {
        rows.update(index_of(rows, f.id@), f)
    } else {
        rows.push(f)
    }
}

/// `rows` after writing each of `feeds` in turn.
pub open spec fn ingested(rows: Seq<FeedConfig>, feeds: Seq<FeedConfig>) -> Seq<FeedConfig>
    decreases feeds.len(),
{
    if feeds.len() == 0 {
        rows
    } else {
        upserted(ingested(rows, feeds.drop_last()), feeds.last())
    }
}

/// The rows as a map from id to row.
pub open spec fn keyed(rows: Seq<FeedConfig>) -> Map<Seq<char>, FeedConfig> {
    Map::new(|id: Seq<char>| has_id(rows, id), |id: Seq<char>| rows[index_of(rows, id)])
}

/// The ids of the rows, in order.
pub open spec fn ids(rows: Seq<FeedConfig>) -> Seq<Seq<char>> {
    rows.map_values(|f: FeedConfig| f.id@)
}

/// Each feed of the list under its id, the later of two with one id winning.
pub open spec fn feeds_keyed(feeds: Seq<FeedConfig>) -> Map<Seq<char>, FeedConfig>
    decreases feeds.len(),
{
    if feeds.len() == 0 {
        Map::empty()
    } else {
        feeds_keyed(feeds.drop_last()).insert(feeds.last().id@, feeds.last())
    }
}

proof fn lemma_index_of(rows: Seq<FeedConfig>, i: int)
    requires
        distinct_ids(rows),
        0 <= i < rows.len(),
    ensures
        has_id(rows, rows[i].id@),
        index_of(rows, rows[i].id@) == i,
{
    assert(has_id(rows, rows[i].id@));
    let j = index_of(rows, rows[i].id@);
    assert(rows[j].id@ == rows[i].id@);
}

proof fn lemma_upserted(rows: Seq<FeedConfig>, f: FeedConfig)
    requires
        distinct_ids(rows),
    ensures
        distinct_ids(upserted(rows, f)),
        keyed(upserted(rows, f)) == keyed(rows).insert(f.id@, f),
        ids(upserted(rows, f)) == if has_id(rows, f.id@) {
            ids(rows)
        } else {
            ids(rows).push(f.id@)
        },
{
    let u = upserted(rows, f);
    if has_id(rows, f.id@) {
        let k = index_of(rows, f.id@);
        assert forall|i: int, j: int| 0 <= i < j < u.len() implies u[i].id@ != u[j].id@ by {
            assert(rows[i].id@ != rows[j].id@);
        }
        assert forall|id: Seq<char>| has_id(u, id) == (has_id(rows, id) || id == f.id@) by {
            if has_id(rows, id) {
                let j = choose|j: int| 0 <= j < rows.len() && rows[j].id@ == id;
                assert(u[j].id@ == id);
            }
            if has_id(u, id) {
                let j = choose|j: int| 0 <= j < u.len() && u[j].id@ == id;
                if j != k {
                    assert(rows[j].id@ == id);
                }
            }
        }
        assert forall|id: Seq<char>| #[trigger] has_id(u, id) implies u[index_of(u, id)] == keyed(
            rows,
        ).insert(f.id@, f)[id] by {
            let j = index_of(u, id);
            lemma_index_of(u, j);
            if id == f.id@ {
                assert(u[k].id@ == f.id@);
                lemma_index_of(u, k);
            } else {
                assert(j != k);
                assert(rows[j] == u[j]);
                lemma_index_of(rows, j);
            }
        }
        assert(keyed(u) =~= keyed(rows).insert(f.id@, f));
        assert(ids(u) =~= ids(rows));
    } else {
        assert forall|i: int, j: int| 0 <= i < j < u.len() implies u[i].id@ != u[j].id@ by {
            if j == rows.len() {
                assert(rows[i].id@ != f.id@);
            } else {
                assert(rows[i].id@ != rows[j].id@);
            }
        }
        assert forall|id: Seq<char>| has_id(u, id) == (has_id(rows, id) || id == f.id@) by {
            if has_id(rows, id) {
                let j = choose|j: int| 0 <= j < rows.len() && rows[j].id@ == id;
                assert(u[j].id@ == id);
            }
            if id == f.id@ {
                assert(u[rows.len() as int].id@ == id);
            }
            if has_id(u, id) {
                let j = choose|j: int| 0 <= j < u.len() && u[j].id@ == id;
                if j < rows.len() {
                    assert(rows[j].id@ == id);
                }
            }
        }
        assert forall|id: Seq<char>| #[trigger] has_id(u, id) implies u[index_of(u, id)] == keyed(
            rows,
        ).insert(f.id@, f)[id] by {
            let j = index_of(u, id);
            lemma_index_of(u, j);
            if id != f.id@ {
                assert(j < rows.len());
                assert(rows[j] == u[j]);
                lemma_index_of(rows, j);
            }
        }
        assert(keyed(u) =~= keyed(rows).insert(f.id@, f));
        assert(ids(u) =~= ids(rows).push(f.id@));
    }
}

proof fn lemma_ingested(rows: Seq<FeedConfig>, feeds: Seq<FeedConfig>)
    requires
        distinct_ids(rows),
    ensures
        distinct_ids(ingested(rows, feeds)),
        keyed(ingested(rows, feeds)) == keyed(rows).union_prefer_right(feeds_keyed(feeds)),
    decreases feeds.len(),
{
    if feeds.len() > 0 {
        let p = feeds.drop_last();
        lemma_ingested(rows, p);
        lemma_upserted(ingested(rows, p), feeds.last());
        assert(keyed(ingested(rows, feeds)) =~= keyed(rows).union_prefer_right(feeds_keyed(feeds)));
    } else {
        assert(keyed(rows).union_prefer_right(feeds_keyed(feeds)) =~= keyed(rows));
    }
}

proof fn lemma_ingested_known_ids(rows: Seq<FeedConfig>, feeds: Seq<FeedConfig>)
    requires
        distinct_ids(rows),
        forall|i: int| 0 <= i < feeds.len() ==> has_id(rows, #[trigger] feeds[i].id@),
    ensures
        ids(ingested(rows, feeds)) == ids(rows),
    decreases feeds.len(),
{
    if feeds.len() > 0 {
        let p = feeds.drop_last();
        assert forall|i: int| 0 <= i < p.len() implies has_id(rows, #[trigger] p[i].id@) by {
            assert(p[i] == feeds[i]);
        }
        lemma_ingested_known_ids(rows, p);
        lemma_ingested(rows, p);
        let q = ingested(rows, p);
        lemma_upserted(q, feeds.last());
        let id = feeds.last().id@;
        assert(has_id(rows, feeds[feeds.len() - 1].id@));
        let j = choose|j: int| 0 <= j < rows.len() && rows[j].id@ == id;
        assert(ids(rows)[j] == id);
        assert(ids(q).len() == q.len());
        assert(ids(q)[j] == id);
        assert(q[j].id@ == id);
        assert(has_id(q, id));
    }
}

proof fn lemma_feeds_keyed_domain(feeds: Seq<FeedConfig>, i: int)
    requires
        0 <= i < feeds.len(),
    ensures
        feeds_keyed(feeds).dom().contains(feeds[i].id@),
    decreases feeds.len(),
{
    if i < feeds.len() - 1 {
        lemma_feeds_keyed_domain(feeds.drop_last(), i);
    }
}

proof fn lemma_same_view_same_rows(a: Seq<FeedConfig>, b: Seq<FeedConfig>)
    requires
        distinct_ids(a),
        distinct_ids(b),
        ids(a) == ids(b),
        keyed(a) == keyed(b),
    ensures
        a == b,
{
    assert(a.len() == ids(a).len());
    assert forall|i: int| 0 <= i < a.len() implies a[i] == b[i] by {
        assert(ids(a)[i] == ids(b)[i]);
        lemma_index_of(a, i);
        lemma_index_of(b, i);
        assert(keyed(a)[a[i].id@] == a[i]);
        assert(keyed(b)[b[i].id@] == b[i]);
    }
    assert(a =~= b);
}

/// Ingesting the same feed list twice leaves the same rows as ingesting it
/// once.
pub proof fn lemma_ingest_idempotent(rows: Seq<FeedConfig>, feeds: Seq<FeedConfig>)
    requires
        distinct_ids(rows),
    ensures
        ingested(ingested(rows, feeds), feeds) == ingested(rows, feeds),
{
    let once = ingested(rows, feeds);
    lemma_ingested(rows, feeds);
    assert forall|i: int| 0 <= i < feeds.len() implies has_id(once, #[trigger] feeds[i].id@) by {
        lemma_feeds_keyed_domain(feeds, i);
        assert(keyed(once).dom().contains(feeds[i].id@));
    }
    lemma_ingested_known_ids(once, feeds);
    lemma_ingested(once, feeds);
    let twice = ingested(once, feeds);
    assert(keyed(twice) =~= keyed(once));
    lemma_same_view_same_rows(twice, once);
}

impl FeedTable {
    /// Each feed id has one row.
    pub open spec fn wf(&self) -> bool {
        distinct_ids(self@)
    }

    /// An empty table.
    pub fn new() -> (r: FeedTable)
        ensures
            r.wf(),
            r@.len() == 0,
    {
        FeedTable { rows: Vec::new() }
    }

    /// The rows, in the order their ids first arrived.
    pub fn rows(&self) -> (r: &Vec<FeedConfig>)
        ensures
            r@ == self@,
    {
        &self.rows
    }

    fn position(&self, id: &String) -> (r: Option<usize>)
        requires
            self.wf(),
        ensures
            match r {
                Some(i) => has_id(self@, id@) && i == index_of(self@, id@),
                None => !has_id(self@, id@),
            },
    {
        let mut i: usize = 0;
        while i < self.rows.len()
            invariant
                i <= self.rows@.len(),
                distinct_ids(self.rows@),
                forall|k: int| 0 <= k < i ==> self.rows@[k].id@ != id@,
            decreases self.rows@.len() - i,
        {
            if self.rows[i].id == *id {
                proof {
                    lemma_index_of(self.rows@, i as int);
                }
                return Some(i);
            }
            i = i + 1;
        }
        None
    }

    /// Writes one feed under its id.
    pub fn upsert(&mut self, f: FeedConfig)
        requires
            old(self).wf(),
        ensures
            final(self).wf(),
            final(self)@ == upserted(old(self)@, f),
    {
        proof {
            lemma_upserted(self.rows@, f);
        }
        match self.position(&f.id) {
            Some(i) => {
                self.rows.set(i, f);
            },
            None => {
                self.rows.push(f);
            },
        }
    }

    /// Writes each feed of the list in turn; link state is not touched.
    pub fn upsert_feeds_bulk(&mut self, feeds: &Vec<FeedConfig>)
        requires
            old(self).wf(),
        ensures
            final(self).wf(),
            final(self)@ == ingested(old(self)@, feeds@),
    {
        let ghost start = self@;
        let mut i: usize = 0;
        while i < feeds.len()
            invariant
                i <= feeds@.len(),
                self.wf(),
                self@ == ingested(start, feeds@.subrange(0, i as int)),
            decreases feeds@.len() - i,
        {
            proof {
                let next = feeds@.subrange(0, i + 1);
                assert(next.drop_last() =~= feeds@.subrange(0, i as int));
                assert(next.last() == feeds@[i as int]);
            }
            self.upsert(clone_feed(&feeds[i]));
            i = i + 1;
        }
        proof {
            assert(feeds@.subrange(0, feeds@.len() as int) =~= feeds@);
        }
    }
}

} // verus!
