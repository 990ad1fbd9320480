//! Server-side sessions: a table of rows keyed by an opaque token, with
//! sliding expiry, and the decision that maps a request's token to a live
//! session or a newly issued one.
use vstd::prelude::*;
use crate::signing::{
    ascii_only, lemma_sign_then_verify, option_view, result_view, sign, sign_post, signed_of, verify,
    verify_post, MIN_SECRET_LEN,
};

verus! {

/// One stored session: its token, its serialised data, and the time from
/// which it no longer counts.
pub struct SessionRow {
    pub id: String,
    pub data: String,
    pub expires_at: u64,
}

/// The mathematical value of a [`SessionRow`].
pub struct SessionModel {
    pub id: Seq<char>,
    pub data: Seq<char>,
    pub expires_at: u64,
}

impl View for SessionRow {
    type V = SessionModel;

    open spec fn view(&self) -> SessionModel {
        SessionModel { id: self.id@, data: self.data@, expires_at: self.expires_at }
    }
}

impl SessionRow {
    /// An independent copy of this row.
    pub fn duplicate(&self) -> (r: SessionRow)
        ensures
            r@ == self@,
    {
        SessionRow { id: self.id.clone(), data: self.data.clone(), expires_at: self.expires_at }
    }
}

/// Why a session operation did not take place.
#[derive(Debug, Clone, Copy, PartialEq, Eq, Structural)]
pub enum SessionError {
    /// No row has the token.
    NotFound,
    /// The row's expiry time has come.
    Expired,
    /// A row with the token exists already.
    Duplicate,
}

/// Some row has token `id`.
pub open spec fn has_sid(rows: Seq<SessionModel>, id: Seq<char>) -> bool {
    exists|i: int| 0 <= i < rows.len() && #[trigger] rows[i].id == id
}

/// The position of the row with token `id`, where there is one.
pub open spec fn sid_index(rows: Seq<SessionModel>, id: Seq<char>) -> int {
    choose|i: int| 0 <= i < rows.len() && #[trigger] rows[i].id == id
}

/// No two rows share a token.
pub open spec fn sessions_wf(rows: Seq<SessionModel>) -> bool {
    forall|i: int, j: int|
        0 <= i < rows.len() && 0 <= j < rows.len() && i != j ==> #[trigger] rows[i].id
            != #[trigger] rows[j].id
}

/// The expiry time `ttl` after `now`, held at the largest value.
pub open spec fn expiry(now: u64, ttl: u64) -> u64 {
    if now > u64::MAX - ttl {
        u64::MAX
    } else {
        (now + ttl) as u64
    }
}

/// A row counts at time `now` while its expiry time is later.
pub open spec fn is_live(s: SessionModel, now: u64) -> bool {
    now < s.expires_at
}

/// The rows that count at time `now`, in their order.
pub open spec fn live_rows(rows: Seq<SessionModel>, now: u64) -> Seq<SessionModel>
    decreases rows.len(),
{
    if rows.len() == 0 {
        rows
    } else {
        let rest = live_rows(rows.drop_last(), now);
        if is_live(rows.last(), now) {
            rest.push(rows.last())
        } else {
            rest
        }
    }
}

/// Creation of a session: the rows after it, and its result.
pub open spec fn spec_create_session(
    rows: Seq<SessionModel>,
    id: Seq<char>,
    data: Seq<char>,
    ttl: u64,
    now: u64,
) -> (Seq<SessionModel>, Result<SessionModel, SessionError>) {
    if has_sid(rows, id) {
        (rows, Err(SessionError::Duplicate))
    } else {
        let s = SessionModel { id, data, expires_at: expiry(now, ttl) };
        (rows.push(s), Ok(s))
    }
}

/// Lookup of a session at time `now`.
pub open spec fn spec_get_session(rows: Seq<SessionModel>, id: Seq<char>, now: u64) -> Result<
    SessionModel,
    SessionError,
> {
    if !has_sid(rows, id) {
        Err(SessionError::NotFound)
    } else if !is_live(rows[sid_index(rows, id)], now) {
        Err(SessionError::Expired)
    } else {
        Ok(rows[sid_index(rows, id)])
    }
}

/// Saving a session's data, which also pushes its expiry to `ttl` after `now`.
pub open spec fn spec_touch_session(
    rows: Seq<SessionModel>,
    id: Seq<char>,
    data: Seq<char>,
    ttl: u64,
    now: u64,
) -> (Seq<SessionModel>, Result<SessionModel, SessionError>) {
    if !has_sid(rows, id) {
        (rows, Err(SessionError::NotFound))
    } else {
        let s = SessionModel { id, data, expires_at: expiry(now, ttl) };
        (rows.update(sid_index(rows, id), s), Ok(s))
    }
}

/// Resolution of a request's token: the live session it names, if any, with
/// its expiry moved to `ttl` after `now`; else a new empty session under
/// `fresh`. The result holds the session's token and whether it is new.
pub open spec fn spec_resolve(
    rows: Seq<SessionModel>,
    token: Option<Seq<char>>,
    fresh: Seq<char>,
    ttl: u64,
    now: u64,
) -> (Seq<SessionModel>, Result<(Seq<char>, bool), SessionError>) {
    if token matches Some(t) && spec_get_session(rows, t, now) is Ok {
        let t = token->Some_0;
        let row = spec_get_session(rows, t, now)->Ok_0;
        (spec_touch_session(rows, t, row.data, ttl, now).0, Ok((t, false)))
    } else {
        let (rows2, r) = spec_create_session(rows, fresh, Seq::empty(), ttl, now);
        match r {
            Ok(_) => (rows2, Ok((fresh, true))),
            Err(e) => (rows2, Err(e)),
        }
    }
}

/// The value of a result that carries a row.
pub open spec fn row_result_view(r: Result<SessionRow, SessionError>) -> Result<SessionModel, SessionError> {
    match r {
        Ok(s) => Ok(s@),
        Err(e) => Err(e),
    }
}

/// The value of a resolution result.
pub open spec fn resolved_view(r: Result<(String, bool), SessionError>) -> Result<(Seq<char>, bool), SessionError> {
    match r {
        Ok((t, b)) => Ok((t@, b)),
        Err(e) => Err(e),
    }
}

/// The session table.
pub struct SessionTable {
    rows: Vec<SessionRow>,
}

impl View for SessionTable {
    type V = Seq<SessionModel>;

    closed spec fn view(&self) -> Seq<SessionModel> {
        self.rows@.map_values(|s: SessionRow| s@)
    }
}

/// `expiry`, computed.
fn expiry_of(now: u64, ttl: u64) -> (r: u64)
    ensures
        r == expiry(now, ttl),
{
    if now > u64::MAX - ttl {
        u64::MAX
    } else {
        now + ttl
    }
}

impl SessionTable {
    /// The table's invariant.
    pub open spec fn wf(&self) -> bool {
        sessions_wf(self@)
    }

    /// An empty table.
    pub fn new() -> (r: SessionTable)
        ensures
            r.wf(),
            r@.len() == 0,
    {
        let r = SessionTable { rows: Vec::new() };
        assert(r@ =~= Seq::<SessionModel>::empty());
        r
    }

    /// Rebuilds a table from stored rows; rows that share a token give nothing.
    pub fn restore(rows: Vec<SessionRow>) -> (r: Option<SessionTable>)
        ensures
            r is Some <==> sessions_wf(rows@.map_values(|s: SessionRow| s@)),
            r matches Some(t) ==> t.wf() && t@ == rows@.map_values(|s: SessionRow| s@),
    {
        let ghost m = rows@.map_values(|s: SessionRow| s@);
        let n = rows.len();
        let mut i: usize = 0;
        while i < n
            invariant
                i <= n,
                n == rows.len(),
                m == rows@.map_values(|s: SessionRow| s@),
                forall|p: int, q: int|
                    0 <= p < i && 0 <= q < n && p != q ==> #[trigger] m[p].id != #[trigger] m[q].id,
            decreases n - i,
        {
            let mut j: usize = 0;
            while j < n
                invariant
                    i < n,
                    j <= n,
                    n == rows.len(),
                    m == rows@.map_values(|s: SessionRow| s@),
                    forall|p: int, q: int|
                        0 <= p < i && 0 <= q < n && p != q ==> #[trigger] m[p].id != #[trigger] m[q].id,
                    forall|q: int| 0 <= q < j && q != i ==> m[i as int].id != #[trigger] m[q].id,
                decreases n - j,
            {
                assert(m[i as int] == rows[i as int]@ && m[j as int] == rows[j as int]@);
                if j != i && rows[i].id == rows[j].id {
                    assert(m[i as int].id == m[j as int].id);
                    assert(m.len() == n);
                    assert(!sessions_wf(m));
                    return None;
                }
                j = j + 1;
            }
            i = i + 1;
        }
        Some(SessionTable { rows })
    }

    /// Number of stored rows, live or not.
    pub fn len(&self) -> (r: usize)
        ensures
            r == self@.len(),
    {
        self.rows.len()
    }

    /// The position of the row with token `id`.
    fn position(&self, id: &str) -> (r: Option<usize>)
        requires
            self.wf(),
        ensures
            r matches Some(i) ==> has_sid(self@, id@) && i as int == sid_index(self@, id@) && i
                < self@.len(),
            r is None ==> !has_sid(self@, id@),
    {
        let key = String::from_str(id);
        let mut i: usize = 0;
        while i < self.rows.len()
            invariant
                i <= self.rows.len(),
                self@.len() == self.rows.len(),
                self.wf(),
                key@ == id@,
                forall|k: int| 0 <= k < i ==> #[trigger] self@[k].id != id@,
            decreases self.rows.len() - i,
        {
            assert(self@[i as int].id == self.rows[i as int].id@);
            if self.rows[i].id == key {
                assert(self@[i as int].id == id@);
                assert(has_sid(self@, id@));
                return Some(i);
            }
            i = i + 1;
        }
        None
    }

    /// Stores a new session under token `id`, expiring `ttl` after `now`.
    pub fn create_session(&mut self, id: &str, data: &str, ttl: u64, now: u64) -> (r: Result<SessionRow, SessionError>)
        requires
            old(self).wf(),
        ensures
            final(self).wf(),
            (final(self)@, row_result_view(r)) == spec_create_session(old(self)@, id@, data@, ttl, now),
    {
        if self.position(id).is_some() {
            return Err(SessionError::Duplicate);
        }
        let s = SessionRow { id: String::from_str(id), data: String::from_str(data), expires_at: expiry_of(now, ttl) };
        let out = s.duplicate();
        self.rows.push(s);
        assert(self@ =~= old(self)@.push(out@));
        proof {
            let r = self@;
            let n = old(self)@.len() as int;
            assert forall|i: int, j: int|
                0 <= i < r.len() && 0 <= j < r.len() && i != j implies #[trigger] r[i].id
                    != #[trigger] r[j].id by {
                if i == n {
                    assert(r[j] == old(self)@[j]);
                } else if j == n {
                    assert(r[i] == old(self)@[i]);
                } else {
                    assert(r[i] == old(self)@[i] && r[j] == old(self)@[j]);
                }
            }
        }
        Ok(out)
    }

    /// The session with token `id`, if it counts at time `now`.
    pub fn get_session(&self, id: &str, now: u64) -> (r: Result<SessionRow, SessionError>)
        requires
            self.wf(),
        ensures
            row_result_view(r) == spec_get_session(self@, id@, now),
    {
        match self.position(id) {
            None => Err(SessionError::NotFound),
            Some(i) => {
                if now < self.rows[i].expires_at {
                    Ok(self.rows[i].duplicate())
                } else {
                    Err(SessionError::Expired)
                }
            },
        }
    }

    /// Replaces the data of the session with token `id` and moves its expiry to
    /// `ttl` after `now`.
    pub fn touch_session(&mut self, id: &str, data: &str, ttl: u64, now: u64) -> (r: Result<SessionRow, SessionError>)
        requires
            old(self).wf(),
        ensures
            final(self).wf(),
            (final(self)@, row_result_view(r)) == spec_touch_session(old(self)@, id@, data@, ttl, now),
    {
        let i = match self.position(id) {
            Some(i) => i,
            None => return Err(SessionError::NotFound),
        };
        let s = SessionRow { id: String::from_str(id), data: String::from_str(data), expires_at: expiry_of(now, ttl) };
        let out = s.duplicate();
        self.rows.set(i, s);
        assert(self@ =~= old(self)@.update(i as int, out@));
        proof {
            let r = self@;
            assert forall|p: int, q: int|
                0 <= p < r.len() && 0 <= q < r.len() && p != q implies #[trigger] r[p].id
                    != #[trigger] r[q].id by {
                assert(r[p].id == old(self)@[p].id);
                assert(r[q].id == old(self)@[q].id);
            }
        }
        Ok(out)
    }

    /// Removes every row whose expiry time has come by `now`, and returns how
    /// many went.
    pub fn purge_expired(&mut self, now: u64) -> (r: usize)
        requires
            old(self).wf(),
        ensures
            final(self).wf(),
            final(self)@ == live_rows(old(self)@, now),
            r == old(self)@.len() - final(self)@.len(),
    {
        let ghost before = self@;
        let mut kept: Vec<SessionRow> = Vec::new();
        let mut i: usize = 0;
        let n = self.rows.len();
        while i < n
            invariant
                i <= n,
                n == self.rows.len(),
                self@ == before,
                sessions_wf(before),
                kept@.map_values(|s: SessionRow| s@) == live_rows(before.subrange(0, i as int), now),
                kept@.len() <= i,
                sessions_wf(kept@.map_values(|s: SessionRow| s@)),
                forall|k: int| 0 <= k < kept@.len() ==> exists|j: int| 0 <= j < i && #[trigger] kept@[k]@.id == before[j].id,
            decreases n - i,
        {
            let ghost pre = kept@.map_values(|s: SessionRow| s@);
            assert(before.subrange(0, i + 1).drop_last() =~= before.subrange(0, i as int));
            assert(before[i as int] == self.rows[i as int]@);
            if now < self.rows[i].expires_at {
                kept.push(self.rows[i].duplicate());
                let ghost post = kept@.map_values(|s: SessionRow| s@);
                assert(post =~= pre.push(before[i as int]));
                assert forall|p: int, q: int|
                    0 <= p < post.len() && 0 <= q < post.len() && p != q implies #[trigger] post[p].id
                        != #[trigger] post[q].id by {
                    if p == pre.len() {
                        assert(post[q] == pre[q]);
                        assert(kept@[q]@ == pre[q]);
                        let j = choose|j: int| 0 <= j < i && #[trigger] kept@[q]@.id == before[j].id;
                    } else if q == pre.len() {
                        assert(post[p] == pre[p]);
                        assert(kept@[p]@ == pre[p]);
                        let j = choose|j: int| 0 <= j < i && #[trigger] kept@[p]@.id == before[j].id;
                    } else {
                        assert(post[p] == pre[p] && post[q] == pre[q]);
                    }
                }
                assert forall|k: int| 0 <= k < kept@.len() implies exists|j: int| 0 <= j < i + 1 && #[trigger] kept@[k]@.id == before[j].id by {
                    if k < pre.len() {
                        assert(kept@[k]@ == pre[k]);
                    } else {
                        assert(kept@[k]@.id == before[i as int].id);
                    }
                }
            }
            i = i + 1;
        }
        assert(before.subrange(0, n as int) =~= before);
        let removed = n - kept.len();
        self.rows = kept;
        removed
    }

    /// Resolves a request's token, already checked for its signature: the live
    /// session it names, whose expiry slides to `ttl` after `now`, or else a
    /// new empty session under `fresh`, expiring then.
    pub fn resolve(&mut self, token: Option<&str>, fresh: &str, ttl: u64, now: u64) -> (r: Result<(String, bool), SessionError>)
        requires
            old(self).wf(),
        ensures
            final(self).wf(),
            (final(self)@, resolved_view(r)) == spec_resolve(
                old(self)@,
                match token {
                    Some(t) => Some(t@),
                    None => None,
                },
                fresh@,
                ttl,
                now,
            ),
    {
        if let Some(t) = token {
            if let Ok(row) = self.get_session(t, now) {
                let _ = self.touch_session(t, row.data.as_str(), ttl, now);
                return Ok((String::from_str(t), false));
            }
        }
        let empty = String::new();
        match self.create_session(fresh, empty.as_str(), ttl, now) {
            Ok(_) => Ok((String::from_str(fresh), true)),
            Err(e) => Err(e),
        }
    }
}

/// A request without a token gets a new session under the token issued for
/// it; a later request that carries that token, before the session expires,
/// resolves to the same session and issues nothing new.
pub proof fn lemma_new_session_resolves_again(
    rows: Seq<SessionModel>,
    fresh: Seq<char>,
    fresh2: Seq<char>,
    ttl: u64,
    now: u64,
    now2: u64,
)
    requires
        sessions_wf(rows),
        !has_sid(rows, fresh),
        now2 < expiry(now, ttl),
    ensures
        ({
            let (rows1, r1) = spec_resolve(rows, None, fresh, ttl, now);
            &&& r1 == Ok::<(Seq<char>, bool), SessionError>((fresh, true))
            &&& spec_resolve(rows1, Some(fresh), fresh2, ttl, now2).1 == Ok::<
                (Seq<char>, bool),
                SessionError,
            >((fresh, false))
        }),
{
    let rows1 = spec_resolve(rows, None, fresh, ttl, now).0;
    let n = rows.len() as int;
    assert(rows1 == rows.push(SessionModel { id: fresh, data: Seq::empty(), expires_at: expiry(now, ttl) }));
    assert(rows1[n].id == fresh);
    assert(has_sid(rows1, fresh));
    let j = sid_index(rows1, fresh);
    if j != n {
        assert(rows1[j] == rows[j]);
    }
}

/// A token whose session has expired is treated as absent: resolving it
/// issues a new session rather than failing.
pub proof fn lemma_expired_session_resolves_new(
    rows: Seq<SessionModel>,
    token: Seq<char>,
    fresh: Seq<char>,
    ttl: u64,
    now: u64,
)
    requires
        has_sid(rows, token),
        !is_live(rows[sid_index(rows, token)], now),
        !has_sid(rows, fresh),
    ensures
        spec_resolve(rows, Some(token), fresh, ttl, now).1 == Ok::<(Seq<char>, bool), SessionError>(
            (fresh, true),
        ),
{
}

/// The value of an optional text.
pub open spec fn option_view_str(c: Option<&str>) -> Option<Seq<char>> {
    match c {
        Some(s) => Some(s@),
        None => None,
    }
}

/// What opening a session does: for some token `tok` that verifying the
/// cookie may give (none without a cookie), the table and the result follow
/// the resolution of `tok`, and a new session comes with its signed cookie.
pub open spec fn open_post(
    before: Seq<SessionModel>,
    after: Seq<SessionModel>,
    cookie: Option<Seq<char>>,
    secret: Seq<u8>,
    fresh: Seq<char>,
    ttl: u64,
    now: u64,
    r: Result<(String, Option<String>), SessionError>,
) -> bool {
    exists|tok: Option<Seq<char>>|
        {
            &&& (cookie is None ==> tok is None)
            &&& (cookie matches Some(c) ==> verify_post(secret, c, tok))
            &&& after == spec_resolve(before, tok, fresh, ttl, now).0
            &&& match spec_resolve(before, tok, fresh, ttl, now).1 {
                Ok((t, true)) => r matches Ok((t2, Some(c))) && t2@ == t && c@ == signed_of(secret, t),
                Ok((t, false)) => r matches Ok((t2, None)) && t2@ == t,
                Err(e) => r == Err::<(String, Option<String>), SessionError>(e),
            }
        }
}

/// Relies on `async_session::Session::new` (2.0, re-exported by tide) and
/// `into_cookie_value`: a new session holds the base64 text of 64 random
/// bytes as its cookie value, 88 ASCII characters.
#[verifier::external_body]
fn new_cookie_value() -> (r: String)
    ensures
        r@.len() == 88,
        ascii_only(r@),
{
    tide::sessions::Session::new().into_cookie_value().unwrap()
}

/// Opens the session of a request as [`open_session`] does, drawing the token
/// for a new session at random.
pub fn start_session(
    table: &mut SessionTable,
    cookie: Option<&str>,
    secret: &[u8],
    ttl: u64,
    now: u64,
) -> (r: Result<(String, Option<String>), SessionError>)
    requires
        old(table).wf(),
        secret@.len() >= MIN_SECRET_LEN,
    ensures
        final(table).wf(),
        exists|fresh: Seq<char>|
            fresh.len() == 88 && ascii_only(fresh) && #[trigger] open_post(
                old(table)@,
                final(table)@,
                option_view_str(cookie),
                secret@,
                fresh,
                ttl,
                now,
                r,
            ),
{
    let fresh = new_cookie_value();
    open_session(table, cookie, secret, fresh.as_str(), ttl, now)
}

/// Opens the session of a request: checks the signature on the cookie value,
/// if there is one, and resolves the token it carries (an unsigned or wrongly
/// signed cookie counts as none). Returns the session's token and, for a new
/// session, the signed cookie value to send back.
pub fn open_session(
    table: &mut SessionTable,
    cookie: Option<&str>,
    secret: &[u8],
    fresh: &str,
    ttl: u64,
    now: u64,
) -> (r: Result<(String, Option<String>), SessionError>)
    requires
        old(table).wf(),
        secret@.len() >= MIN_SECRET_LEN,
    ensures
        final(table).wf(),
        open_post(old(table)@, final(table)@, option_view_str(cookie), secret@, fresh@, ttl, now, r),
{
    let tok = match cookie {
        Some(c) => verify(c, secret),
        None => None,
    };
    let ghost tv = option_view(tok);
    let res = match &tok {
        Some(t) => table.resolve(Some(t.as_str()), fresh, ttl, now),
        None => table.resolve(None, fresh, ttl, now),
    };
    assert(tok matches Some(t) ==> tv == Some(t@));
    match res {
        Ok((t, true)) => {
            let signed = sign(t.as_str(), secret);
            match signed {
                Ok(c) => {
                    assert(sign_post(secret@, t@, result_view(signed)));
                    Ok((t, Some(c)))
                },
                Err(_) => Err(SessionError::NotFound),
            }
        },
        Ok((t, false)) => Ok((t, None)),
        Err(e) => Err(e),
    }
}

/// The cookie issued with a new session, sent back on a later request before
/// the session expires, verifies to the session's token and resolves to that
/// same session.
pub proof fn lemma_issued_cookie_resolves_same_session(
    rows: Seq<SessionModel>,
    secret: Seq<u8>,
    fresh: Seq<char>,
    fresh2: Seq<char>,
    ttl: u64,
    now: u64,
    now2: u64,
    cookie: Seq<char>,
    tok: Option<Seq<char>>,
)
    requires
        sessions_wf(rows),
        !has_sid(rows, fresh),
        ascii_only(fresh),
        secret.len() >= MIN_SECRET_LEN,
        now2 < expiry(now, ttl),
        sign_post(secret, fresh, Ok(cookie)),
        verify_post(secret, cookie, tok),
    ensures
        tok == Some(fresh),
        spec_resolve(spec_resolve(rows, None, fresh, ttl, now).0, tok, fresh2, ttl, now2).1 == Ok::<
            (Seq<char>, bool),
            SessionError,
        >((fresh, false)),
{
    lemma_sign_then_verify(secret, fresh, cookie, tok);
    lemma_new_session_resolves_again(rows, fresh, fresh2, ttl, now, now2);
}

} // verus!
