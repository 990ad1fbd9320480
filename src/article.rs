//! Articles and the table that holds them: validated creation, lookup,
//! in-place update and hard deletion, with ids assigned in ascending order.
use vstd::prelude::*;
use crate::text::{trim, trimmed, all_white, lemma_all_white_trims_empty};

verus! {

/// One stored article. Timestamps are whatever clock the caller supplies.
pub struct Article {
    pub id: u64,
    pub title: String,
    pub body: String,
    pub created_at: u64,
    pub updated_at: u64,
}

/// The mathematical value of an [`Article`].
pub struct ArticleModel {
    pub id: u64,
    pub title: Seq<char>,
    pub body: Seq<char>,
    pub created_at: u64,
    pub updated_at: u64,
}

impl View for Article {
    type V = ArticleModel;

    open spec fn view(&self) -> ArticleModel {
        ArticleModel {
            id: self.id,
            title: self.title@,
            body: self.body@,
            created_at: self.created_at,
            updated_at: self.updated_at,
        }
    }
}

impl Article {
    /// An independent copy of this article.
    pub fn duplicate(&self) -> (r: Article)
        ensures
            r@ == self@,
    {
        Article {
            id: self.id,
            title: self.title.clone(),
            body: self.body.clone(),
            created_at: self.created_at,
            updated_at: self.updated_at,
        }
    }
}

/// Why an article operation did not take place.
#[derive(Debug, Clone, Copy, PartialEq, Eq, Structural)]
pub enum ArticleError {
    /// The title is empty once surrounding whitespace is removed.
    Validation,
    /// No article has the requested id.
    NotFound,
    /// The table can assign no further id.
    Storage,
}

/// The mathematical value of an [`ArticleStore`]: its rows in ascending id
/// order, and the id that the next creation assigns.
pub struct StoreModel {
    pub rows: Seq<ArticleModel>,
    pub next_id: u64,
}

/// Some row of `rows` has id `id`.
pub open spec fn has_id(rows: Seq<ArticleModel>, id: u64) -> bool {
    exists|i: int| 0 <= i < rows.len() && #[trigger] rows[i].id == id
}

/// The position of the row with id `id`, where there is one.
pub open spec fn index_of(rows: Seq<ArticleModel>, id: u64) -> int {
    choose|i: int| 0 <= i < rows.len() && #[trigger] rows[i].id == id
}

/// Ids ascend strictly, all lie below the next id, and no title is empty.
pub open spec fn store_wf(s: StoreModel) -> bool {
    &&& s.next_id >= 1
    &&& forall|i: int, j: int|
        0 <= i < j < s.rows.len() ==> #[trigger] s.rows[i].id < #[trigger] s.rows[j].id
    &&& forall|i: int| 0 <= i < s.rows.len() ==> #[trigger] s.rows[i].id < s.next_id
    &&& forall|i: int| 0 <= i < s.rows.len() ==> #[trigger] s.rows[i].title.len() > 0
}

/// The update time that follows `prev` when the clock reads `now`: `now` if it
/// is later, else one past `prev` (which stays put only at the largest value).
pub open spec fn advance(prev: u64, now: u64) -> u64 {
    if now > prev {
        now
    } else if prev < u64::MAX {
        (prev + 1) as u64
    } else {
        prev
    }
}

/// Creation: the table after it, and its result.
pub open spec fn spec_create(s: StoreModel, title: Seq<char>, body: Seq<char>, now: u64) -> (
    StoreModel,
    Result<ArticleModel, ArticleError>,
) {
    if trimmed(title).len() == 0 {
        (s, Err(ArticleError::Validation))
    } else if s.next_id == u64::MAX {
        (s, Err(ArticleError::Storage))
    } else {
        let a = ArticleModel {
            id: s.next_id,
            title: trimmed(title),
            body,
            created_at: now,
            updated_at: now,
        };
        (StoreModel { rows: s.rows.push(a), next_id: (s.next_id + 1) as u64 }, Ok(a))
    }
}

/// Lookup by id.
pub open spec fn spec_show(s: StoreModel, id: u64) -> Result<ArticleModel, ArticleError> {
    if has_id(s.rows, id) {
        Ok(s.rows[index_of(s.rows, id)])
    } else {
        Err(ArticleError::NotFound)
    }
}

/// Update of title and body: the table after it, and its result.
pub open spec fn spec_update(
    s: StoreModel,
    id: u64,
    title: Seq<char>,
    body: Seq<char>,
    now: u64,
) -> (StoreModel, Result<ArticleModel, ArticleError>) {
    if !has_id(s.rows, id) {
        (s, Err(ArticleError::NotFound))
    } else if trimmed(title).len() == 0 {
        (s, Err(ArticleError::Validation))
    } else {
        let i = index_of(s.rows, id);
        let old = s.rows[i];
        let a = ArticleModel {
            id,
            title: trimmed(title),
            body,
            created_at: old.created_at,
            updated_at: advance(old.updated_at, now),
        };
        (StoreModel { rows: s.rows.update(i, a), next_id: s.next_id }, Ok(a))
    }
}

/// Deletion: the table after it, and its result.
pub open spec fn spec_delete(s: StoreModel, id: u64) -> (StoreModel, Result<(), ArticleError>) {
    if has_id(s.rows, id) {
        (StoreModel { rows: s.rows.remove(index_of(s.rows, id)), next_id: s.next_id }, Ok(()))
    } else {
        (s, Err(ArticleError::NotFound))
    }
}

/// The value of a result that carries an article.
pub open spec fn result_view(r: Result<Article, ArticleError>) -> Result<ArticleModel, ArticleError> {
    match r {
        Ok(a) => Ok(a@),
        Err(e) => Err(e),
    }
}

/// Rows from which a table can be rebuilt: ids strictly ascending, no empty
/// title, and room for one more id after the last.
pub open spec fn restorable(rows: Seq<ArticleModel>) -> bool {
    &&& forall|i: int, j: int|
        0 <= i < j < rows.len() ==> #[trigger] rows[i].id < #[trigger] rows[j].id
    &&& forall|i: int| 0 <= i < rows.len() ==> #[trigger] rows[i].title.len() > 0
    &&& rows.len() > 0 ==> rows.last().id < u64::MAX
}

/// The id that follows the rows of a rebuilt table.
pub open spec fn restored_next_id(rows: Seq<ArticleModel>) -> u64 {
    if rows.len() == 0 {
        1
    } else {
        (rows.last().id + 1) as u64
    }
}

/// The article table.
pub struct ArticleStore {
    rows: Vec<Article>,
    next_id: u64,
}

impl View for ArticleStore {
    type V = StoreModel;

    closed spec fn view(&self) -> StoreModel {
        StoreModel { rows: self.rows@.map_values(|a: Article| a@), next_id: self.next_id }
    }
}

impl ArticleStore {
    /// The table's invariant.
    pub open spec fn wf(&self) -> bool {
        store_wf(self@)
    }

    /// An empty table whose first article gets id 1.
    pub fn new() -> (r: ArticleStore)
        ensures
            r.wf(),
            r@.rows.len() == 0,
            r@.next_id == 1,
    {
        let r = ArticleStore { rows: Vec::new(), next_id: 1 };
        assert(r@.rows =~= Seq::<ArticleModel>::empty());
        r
    }

    /// Rebuilds a table from stored rows, given in ascending id order; the next
    /// article gets the id after the last one. Rows out of order, with an
    /// empty title, or ending at the largest id give nothing.
    pub fn restore(rows: Vec<Article>) -> (r: Option<ArticleStore>)
        ensures
            r is Some <==> restorable(rows@.map_values(|a: Article| a@)),
            r matches Some(s) ==> s.wf() && s@.rows == rows@.map_values(|a: Article| a@)
                && s@.next_id == restored_next_id(rows@.map_values(|a: Article| a@)),
    {
        let ghost m = rows@.map_values(|a: Article| a@);
        let n = rows.len();
        let mut i: usize = 0;
        while i < n
            invariant
                i <= n,
                n == rows.len(),
                m == rows@.map_values(|a: Article| a@),
                forall|p: int, q: int| 0 <= p < q < i ==> #[trigger] m[p].id < #[trigger] m[q].id,
                forall|p: int| 0 <= p < i ==> #[trigger] m[p].title.len() > 0,
            decreases n - i,
        {
            assert(m[i as int] == rows[i as int]@);
            if rows[i].title.as_str().unicode_len() == 0 {
                assert(m[i as int].title.len() == 0);
                assert(!restorable(m));
                return None;
            }
            if i > 0 {
                assert(m[i - 1] == rows[i - 1]@);
                if rows[i - 1].id >= rows[i].id {
                    assert(!(m[i - 1].id < m[i as int].id));
                    assert(!restorable(m));
                    return None;
                }
                assert forall|p: int, q: int| 0 <= p < q < i + 1 implies #[trigger] m[p].id
                    < #[trigger] m[q].id by {
                    if q == i && p < i - 1 {
                        assert(m[p].id < m[i - 1].id);
                    }
                }
            }
            i = i + 1;
        }
        let next = if n == 0 {
            1
        } else {
            assert(m.last() == rows[n - 1]@);
            if rows[n - 1].id == u64::MAX {
                return None;
            }
            rows[n - 1].id + 1
        };
        let r = ArticleStore { rows, next_id: next };
        assert(r@.rows == m);
        assert forall|p: int| 0 <= p < m.len() implies #[trigger] m[p].id < next by {
            if p < m.len() - 1 {
                assert(m[p].id < m[m.len() - 1].id);
            }
        }
        Some(r)
    }

    /// Number of stored articles.
    pub fn len(&self) -> (r: usize)
        ensures
            r == self@.rows.len(),
    {
        self.rows.len()
    }

    /// All articles in ascending id order.
    pub fn list(&self) -> (r: Vec<Article>)
        ensures
            r@.map_values(|a: Article| a@) == self@.rows,
    {
        let mut out: Vec<Article> = Vec::new();
        let mut i: usize = 0;
        while i < self.rows.len()
            invariant
                i <= self.rows.len(),
                self@.rows.len() == self.rows.len(),
                out@.len() == i,
                forall|k: int| 0 <= k < i ==> #[trigger] out@[k]@ == self@.rows[k],
            decreases self.rows.len() - i,
        {
            out.push(self.rows[i].duplicate());
            i = i + 1;
        }
        assert(out@.map_values(|a: Article| a@) =~= self@.rows);
        out
    }

    /// The position of the article with id `id`.
    fn position(&self, id: u64) -> (r: Option<usize>)
        requires
            self.wf(),
        ensures
            r matches Some(i) ==> has_id(self@.rows, id) && i as int == index_of(self@.rows, id)
                && i < self@.rows.len(),
            r is None ==> !has_id(self@.rows, id),
    {
        let mut i: usize = 0;
        while i < self.rows.len()
            invariant
                i <= self.rows.len(),
                self@.rows.len() == self.rows.len(),
                self.wf(),
                forall|k: int| 0 <= k < i ==> #[trigger] self@.rows[k].id != id,
            decreases self.rows.len() - i,
        {
            assert(self@.rows[i as int].id == self.rows[i as int].id);
            if self.rows[i].id == id {
                assert(self@.rows[i as int].id == id);
                assert(has_id(self@.rows, id));
                let ghost j = index_of(self@.rows, id);
                assert(j == i) by {
                    if j < i {
                        assert(self@.rows[j].id < self@.rows[i as int].id);
                    } else if j > i {
                        assert(self@.rows[i as int].id < self@.rows[j].id);
                    }
                }
                return Some(i);
            }
            i = i + 1;
        }
        None
    }

    /// Creates an article from `title`, with its surrounding whitespace
    /// removed, and `body`; stamps both times with `now`.
    pub fn create(&mut self, title: &str, body: &str, now: u64) -> (r: Result<Article, ArticleError>)
        requires
            old(self).wf(),
        ensures
            final(self).wf(),
            (final(self)@, result_view(r)) == spec_create(old(self)@, title@, body@, now),
    {
        let t = trim(title);
        if t.unicode_len() == 0 {
            return Err(ArticleError::Validation);
        }
        if self.next_id == u64::MAX {
            return Err(ArticleError::Storage);
        }
        let a = Article { id: self.next_id, title: t, body: String::from_str(body), created_at: now, updated_at: now };
        let out = a.duplicate();
        self.rows.push(a);
        self.next_id = self.next_id + 1;
        assert(self@.rows =~= old(self)@.rows.push(out@));
        Ok(out)
    }

    /// The article with id `id`.
    pub fn show(&self, id: u64) -> (r: Result<Article, ArticleError>)
        requires
            self.wf(),
        ensures
            result_view(r) == spec_show(self@, id),
    {
        match self.position(id) {
            Some(i) => Ok(self.rows[i].duplicate()),
            None => Err(ArticleError::NotFound),
        }
    }

    /// Replaces title and body of the article with id `id`, under the same
    /// rule on titles as creation, and advances its update time.
    pub fn update(&mut self, id: u64, title: &str, body: &str, now: u64) -> (r: Result<Article, ArticleError>)
        requires
            old(self).wf(),
        ensures
            final(self).wf(),
            (final(self)@, result_view(r)) == spec_update(old(self)@, id, title@, body@, now),
    {
        let i = match self.position(id) {
            Some(i) => i,
            None => return Err(ArticleError::NotFound),
        };
        let t = trim(title);
        if t.unicode_len() == 0 {
            return Err(ArticleError::Validation);
        }
        let prev = self.rows[i].updated_at;
        let stamp = if now > prev {
            now
        } else if prev < u64::MAX {
            prev + 1
        } else {
            prev
        };
        let a = Article {
            id,
            title: t,
            body: String::from_str(body),
            created_at: self.rows[i].created_at,
            updated_at: stamp,
        };
        let out = a.duplicate();
        self.rows.set(i, a);
        assert(self@.rows =~= old(self)@.rows.update(i as int, out@));
        proof {
            let s = self@;
            assert forall|p: int, q: int| 0 <= p < q < s.rows.len() implies #[trigger] s.rows[p].id
                < #[trigger] s.rows[q].id by {
                assert(s.rows[p].id == old(self)@.rows[p].id);
                assert(s.rows[q].id == old(self)@.rows[q].id);
            }
            assert forall|p: int| 0 <= p < s.rows.len() implies #[trigger] s.rows[p].id < s.next_id by {
                assert(s.rows[p].id == old(self)@.rows[p].id);
            }
        }
        Ok(out)
    }

    /// Removes the article with id `id`.
    pub fn delete(&mut self, id: u64) -> (r: Result<(), ArticleError>)
        requires
            old(self).wf(),
        ensures
            final(self).wf(),
            (final(self)@, r) == spec_delete(old(self)@, id),
    {
        match self.position(id) {
            Some(i) => {
                self.rows.remove(i);
                assert(self@.rows =~= old(self)@.rows.remove(i as int));
                proof {
                    let s = self@;
                    let o = old(self)@;
                    assert forall|p: int, q: int| 0 <= p < q < s.rows.len() implies #[trigger] s.rows[p].id
                        < #[trigger] s.rows[q].id by {
                        let pj = if p < i { p } else { p + 1 };
                        let qj = if q < i { q } else { q + 1 };
                        assert(s.rows[p] == o.rows[pj]);
                        assert(s.rows[q] == o.rows[qj]);
                    }
                    assert forall|p: int| 0 <= p < s.rows.len() implies #[trigger] s.rows[p].id < s.next_id by {
                        let pj = if p < i { p } else { p + 1 };
                        assert(s.rows[p] == o.rows[pj]);
                    }
                    assert forall|p: int| 0 <= p < s.rows.len() implies #[trigger] s.rows[p].title.len() > 0 by {
                        let pj = if p < i { p } else { p + 1 };
                        assert(s.rows[p] == o.rows[pj]);
                    }
                }
                Ok(())
            },
            None => Err(ArticleError::NotFound),
        }
    }
}

/// In a well-formed table, the row that holds an id is the one `index_of`
/// picks.
pub proof fn lemma_index_of_unique(s: StoreModel, id: u64, i: int)
    requires
        store_wf(s),
        0 <= i < s.rows.len(),
        s.rows[i].id == id,
    ensures
        has_id(s.rows, id),
        index_of(s.rows, id) == i,
{
    assert(has_id(s.rows, id));
    let j = index_of(s.rows, id);
    if j < i {
        assert(s.rows[j].id < s.rows[i].id);
    } else if j > i {
        assert(s.rows[i].id < s.rows[j].id);
    }
}

/// An article that was created with a title that is not blank is found
/// afterwards under the id it got, with the trimmed title and the body it was
/// given.
pub proof fn lemma_create_then_show(s: StoreModel, title: Seq<char>, body: Seq<char>, now: u64)
    requires
        store_wf(s),
        trimmed(title).len() > 0,
        s.next_id < u64::MAX,
    ensures
        ({
            let (s2, r) = spec_create(s, title, body, now);
            &&& r is Ok
            &&& spec_show(s2, r->Ok_0.id) == r
            &&& r->Ok_0.title == trimmed(title)
            &&& r->Ok_0.body == body
            &&& r->Ok_0.id >= 1
        }),
{
    let (s2, r) = spec_create(s, title, body, now);
    let a = r->Ok_0;
    let n = s.rows.len() as int;
    assert(s2.rows[n] == a);
    assert(store_wf(s2)) by {
        assert forall|i: int, j: int| 0 <= i < j < s2.rows.len() implies #[trigger] s2.rows[i].id
            < #[trigger] s2.rows[j].id by {
            if j < n {
                assert(s2.rows[i] == s.rows[i] && s2.rows[j] == s.rows[j]);
            } else {
                assert(s2.rows[i] == s.rows[i]);
            }
        }
        assert forall|i: int| 0 <= i < s2.rows.len() implies #[trigger] s2.rows[i].id < s2.next_id by {
            if i < n {
                assert(s2.rows[i] == s.rows[i]);
            }
        }
        assert forall|i: int| 0 <= i < s2.rows.len() implies #[trigger] s2.rows[i].title.len() > 0 by {
            if i < n {
                assert(s2.rows[i] == s.rows[i]);
            }
        }
    }
    lemma_index_of_unique(s2, a.id, n);
}

/// Creation with a title made only of whitespace is refused and leaves the
/// table as it was, so its length too.
pub proof fn lemma_blank_title_rejected(s: StoreModel, title: Seq<char>, body: Seq<char>, now: u64)
    requires
        all_white(title),
    ensures
        spec_create(s, title, body, now) == (s, Err::<ArticleModel, ArticleError>(ArticleError::Validation)),
{
    lemma_all_white_trims_empty(title);
}

/// Updating an existing article with a title that is not blank replaces its
/// title and body, keeps its creation time and id, and moves its update time
/// forward (where that time is not already the largest value).
pub proof fn lemma_update_changes_fields(
    s: StoreModel,
    id: u64,
    title: Seq<char>,
    body: Seq<char>,
    now: u64,
)
    requires
        store_wf(s),
        has_id(s.rows, id),
        trimmed(title).len() > 0,
    ensures
        ({
            let old = s.rows[index_of(s.rows, id)];
            let (s2, r) = spec_update(s, id, title, body, now);
            &&& r is Ok
            &&& spec_show(s2, id) == r
            &&& r->Ok_0.id == id
            &&& r->Ok_0.title == trimmed(title)
            &&& r->Ok_0.body == body
            &&& r->Ok_0.created_at == old.created_at
            &&& old.updated_at < u64::MAX ==> r->Ok_0.updated_at > old.updated_at
            &&& store_wf(s2)
            &&& s2.rows.len() == s.rows.len()
        }),
{
    let i = index_of(s.rows, id);
    let (s2, r) = spec_update(s, id, title, body, now);
    assert(store_wf(s2)) by {
        assert forall|p: int, q: int| 0 <= p < q < s2.rows.len() implies #[trigger] s2.rows[p].id
            < #[trigger] s2.rows[q].id by {
            assert(s2.rows[p].id == s.rows[p].id);
            assert(s2.rows[q].id == s.rows[q].id);
        }
        assert forall|p: int| 0 <= p < s2.rows.len() implies #[trigger] s2.rows[p].id < s2.next_id by {
            assert(s2.rows[p].id == s.rows[p].id);
        }
        assert forall|p: int| 0 <= p < s2.rows.len() implies #[trigger] s2.rows[p].title.len() > 0 by {
            if p != i {
                assert(s2.rows[p] == s.rows[p]);
            }
        }
    }
    assert(s2.rows[i].id == id);
    lemma_index_of_unique(s2, id, i);
}

/// After an article is deleted, looking it up finds nothing.
pub proof fn lemma_delete_then_show(s: StoreModel, id: u64)
    requires
        store_wf(s),
    ensures
        spec_show(spec_delete(s, id).0, id) == Err::<ArticleModel, ArticleError>(ArticleError::NotFound),
{
    if has_id(s.rows, id) {
        let i = index_of(s.rows, id);
        let s2 = spec_delete(s, id).0;
        if has_id(s2.rows, id) {
            let k = choose|k: int| 0 <= k < s2.rows.len() && #[trigger] s2.rows[k].id == id;
            let kj = if k < i { k } else { k + 1 };
            assert(s2.rows[k] == s.rows[kj]);
            if kj < i {
                assert(s.rows[kj].id < s.rows[i].id);
            } else {
                assert(s.rows[i].id < s.rows[kj].id);
            }
        }
    }
}

/// Two updates of one article, applied one after the other in either order,
/// both succeed, and the stored body is the one the later update wrote: one
/// of the two submitted bodies, never a mixture.
pub proof fn lemma_updates_last_write_wins(
    s: StoreModel,
    id: u64,
    t1: Seq<char>,
    b1: Seq<char>,
    n1: u64,
    t2: Seq<char>,
    b2: Seq<char>,
    n2: u64,
)
    requires
        store_wf(s),
        has_id(s.rows, id),
        trimmed(t1).len() > 0,
        trimmed(t2).len() > 0,
    ensures
        ({
            let (s1, r1) = spec_update(s, id, t1, b1, n1);
            let (s2, r2) = spec_update(s1, id, t2, b2, n2);
            &&& r1 is Ok
            &&& r2 is Ok
            &&& spec_show(s2, id) is Ok
            &&& spec_show(s2, id)->Ok_0.body == b2
        }),
{
    lemma_update_changes_fields(s, id, t1, b1, n1);
    let s1 = spec_update(s, id, t1, b1, n1).0;
    lemma_update_changes_fields(s1, id, t2, b2, n2);
}

} // verus!
