//! Pending WebAuthn challenges, keyed by session id, that expire after a
//! fixed lifetime.
//!
//! Time is a plain `u64` reading of a monotonic clock (the caller picks the
//! unit; the lifetime is given in the same unit). The age of a challenge is
//! the clock difference, or zero when the reading went backwards, as a
//! monotonic clock's `elapsed` saturates.

use vstd::prelude::*;
use crate::replies::AuthError;

verus! {

/// What the store knows of one pending challenge.
pub struct Challenge<T> {
    pub created: u64,
    pub username: Seq<char>,
    pub payload: T,
}

/// One stored challenge.
pub struct PendingChallenge<T> {
    pub session_id: String,
    pub created: u64,
    pub username: String,
    pub payload: T,
}

/// The challenges that are waiting for their second step.
pub struct PendingStore<T> {
    entries: Vec<PendingChallenge<T>>,
    ttl: u64,
}

/// Age of something created at `created`, read at `now`.
pub open spec fn elapsed(created: u64, now: u64) -> nat {
    if now >= created {
        (now - created) as nat
    } else {
        0
    }
}

/// A challenge is still usable while its age is below the lifetime.
pub open spec fn is_live<T>(c: Challenge<T>, now: u64, ttl: u64) -> bool {
    elapsed(c.created, now) < ttl
}

/// The challenges of `m` that are still usable at `now`.
pub open spec fn live_part<T>(m: Map<Seq<char>, Challenge<T>>, now: u64, ttl: u64) -> Map<
    Seq<char>,
    Challenge<T>,
> {
    Map::new(|k: Seq<char>| m.contains_key(k) && is_live(m[k], now, ttl), |k: Seq<char>| m[k])
}

/// The store after a new challenge was issued at `now`: expired ones are
/// dropped, then the new one is recorded (replacing one with the same id).
pub open spec fn after_begin<T>(
    m: Map<Seq<char>, Challenge<T>>,
    ttl: u64,
    session_id: Seq<char>,
    now: u64,
    username: Seq<char>,
    payload: T,
) -> Map<Seq<char>, Challenge<T>> {
    live_part(m, now, ttl).insert(
        session_id,
        Challenge { created: now, username: username, payload: payload },
    )
}

/// What taking the challenge `session_id` out of `m` at `now` answers.
pub open spec fn take_result<T>(
    m: Map<Seq<char>, Challenge<T>>,
    ttl: u64,
    session_id: Seq<char>,
    now: u64,
) -> Result<(Seq<char>, T), AuthError> {
    if !m.contains_key(session_id) {
        Err(AuthError::InvalidSession)
    } else if !is_live(m[session_id], now, ttl) {
        Err(AuthError::ChallengeExpired)
    } else {
        Ok((m[session_id].username, m[session_id].payload))
    }
}

/// The view of an outcome of `take`.
pub open spec fn outcome_view<T>(r: Result<(String, T), AuthError>) -> Result<
    (Seq<char>, T),
    AuthError,
> {
    match r {
        Ok((u, p)) => Ok((u@, p)),
        Err(e) => Err(e),
    }
}

spec fn challenge_of<T>(e: PendingChallenge<T>) -> Challenge<T> {
    Challenge { created: e.created, username: e.username@, payload: e.payload }
}

spec fn ids_unique<T>(s: Seq<PendingChallenge<T>>) -> bool {
    forall|i: int, j: int|
        0 <= i < s.len() && 0 <= j < s.len() && i != j ==> s[i].session_id@ != s[j].session_id@
}

spec fn to_map<T>(s: Seq<PendingChallenge<T>>) -> Map<Seq<char>, Challenge<T>>
    decreases s.len(),
{
    if s.len() == 0 {
        Map::empty()
    } else {
        to_map(s.drop_last()).insert(s.last().session_id@, challenge_of(s.last()))
    }
}

spec fn entry_live<T>(now: u64, ttl: u64) -> spec_fn(PendingChallenge<T>) -> bool {
    |e: PendingChallenge<T>| elapsed(e.created, now) < ttl
}

proof fn lemma_to_map_dom<T>(s: Seq<PendingChallenge<T>>, k: Seq<char>)
    ensures
        to_map(s).contains_key(k) <==> exists|i: int| 0 <= i < s.len() && s[i].session_id@ == k,
    decreases s.len(),
{
    if s.len() > 0 {
        lemma_to_map_dom(s.drop_last(), k);
        if to_map(s.drop_last()).contains_key(k) {
            let i = choose|i: int| 0 <= i < s.drop_last().len() && s.drop_last()[i].session_id@ == k;
            assert(s[i] == s.drop_last()[i]);
        }
        if exists|i: int| 0 <= i < s.len() && s[i].session_id@ == k {
            let i = choose|i: int| 0 <= i < s.len() && s[i].session_id@ == k;
            if i < s.len() - 1 {
                assert(s.drop_last()[i] == s[i]);
            }
        }
    }
}

proof fn lemma_to_map_at<T>(s: Seq<PendingChallenge<T>>, i: int)
    requires
        ids_unique(s),
        0 <= i < s.len(),
    ensures
        to_map(s).contains_key(s[i].session_id@),
        to_map(s)[s[i].session_id@] == challenge_of(s[i]),
    decreases s.len(),
{
    if i < s.len() - 1 {
        lemma_to_map_at(s.drop_last(), i);
        assert(s.drop_last()[i] == s[i]);
    }
}

proof fn lemma_to_map_remove<T>(s: Seq<PendingChallenge<T>>, i: int)
    requires
        ids_unique(s),
        0 <= i < s.len(),
    ensures
        to_map(s.remove(i)) == to_map(s).remove(s[i].session_id@),
        ids_unique(s.remove(i)),
    decreases s.len(),
{
    let k = s[i].session_id@;
    let d = s.drop_last();
    if i == s.len() - 1 {
        assert(s.remove(i) =~= d);
        lemma_to_map_dom(d, k);
        assert(to_map(d) =~= to_map(s).remove(k));
    } else {
        assert(s.remove(i) =~= d.remove(i).push(s.last()));
        assert(s.remove(i).drop_last() =~= d.remove(i));
        assert(d[i] == s[i]);
        lemma_to_map_remove(d, i);
        assert(s.last().session_id@ != k);
        assert(to_map(s.remove(i)) =~= to_map(s).remove(k));
    }
}

proof fn lemma_to_map_filter<T>(s: Seq<PendingChallenge<T>>, now: u64, ttl: u64)
    requires
        ids_unique(s),
    ensures
        to_map(s.filter(entry_live(now, ttl))) == live_part(to_map(s), now, ttl),
        ids_unique(s.filter(entry_live(now, ttl))),
    decreases s.len(),
{
    let p = entry_live::<T>(now, ttl);
    reveal(Seq::filter);
    if s.len() == 0 {
        assert(live_part(to_map(s), now, ttl) =~= Map::empty());
    } else {
        let d = s.drop_last();
        let e = s.last();
        assert(ids_unique(d));
        lemma_to_map_filter(d, now, ttl);
        lemma_to_map_dom(d, e.session_id@);
        let fd = d.filter(p);
        broadcast use Seq::lemma_filter_len, Seq::lemma_filter_contains_rev;
        if p(e) {
            assert(s.filter(p) == fd.push(e));
            assert(fd.push(e).drop_last() =~= fd);
            assert forall|i: int| 0 <= i < fd.len() implies fd[i].session_id@ != e.session_id@ by {
                assert(fd.contains(fd[i]));
                assert(d.contains(fd[i]));
            }
            assert(ids_unique(fd.push(e)));
            assert(to_map(s.filter(p)) =~= live_part(to_map(s), now, ttl));
        } else {
            assert(s.filter(p) == fd);
            assert(to_map(s.filter(p)) =~= live_part(to_map(s), now, ttl));
        }
    }
}

impl<T> PendingStore<T> {
    /// The pending challenges, by session id.
    pub closed spec fn view(&self) -> Map<Seq<char>, Challenge<T>> {
        to_map(self.entries@)
    }

    /// The lifetime the store was created with.
    pub closed spec fn ttl(&self) -> u64 {
        self.ttl
    }

    /// The store's internal invariant: no session id occurs twice.
    pub closed spec fn wf(&self) -> bool {
        ids_unique(self.entries@)
    }

    /// An empty store whose challenges live for `ttl` clock units.
    pub fn new(ttl: u64) -> (s: Self)
        ensures
            s.wf(),
            s.view() == Map::<Seq<char>, Challenge<T>>::empty(),
            s.ttl() == ttl,
    {
        let s = PendingStore { entries: Vec::new(), ttl };
        assert(s.view() =~= Map::<Seq<char>, Challenge<T>>::empty());
        s
    }

    /// The lifetime of the store's challenges.
    pub fn lifetime(&self) -> (t: u64)
        ensures
            t == self.ttl(),
    {
        self.ttl
    }

    fn index_of(&self, session_id: &String) -> (r: Option<usize>)
        requires
            self.wf(),
        ensures
            match r {
                Some(i) => i < self.entries@.len() && self.entries@[i as int].session_id@
                    == session_id@,
                None => !self.view().contains_key(session_id@),
            },
    {
        let mut i: usize = 0;
        while i < self.entries.len()
            invariant
                i <= self.entries@.len(),
                forall|j: int| 0 <= j < i ==> self.entries@[j].session_id@ != session_id@,
            decreases self.entries.len() - i,
        {
            if self.entries[i].session_id == *session_id {
                return Some(i);
            }
            i = i + 1;
        }
        proof {
            lemma_to_map_dom(self.entries@, session_id@);
        }
        None
    }

    /// Drops every challenge whose age at `now` has reached the lifetime.
    pub fn purge_expired(&mut self, now: u64)
        requires
            old(self).wf(),
        ensures
            final(self).wf(),
            final(self).ttl() == old(self).ttl(),
            final(self).view() == live_part(old(self).view(), now, old(self).ttl()),
    {
        let ghost orig = self.entries@;
        let ghost p = entry_live::<T>(now, self.ttl);
        let ttl = self.ttl;
        let mut i: usize = 0;
        let mut j: usize = 0;
        let n0 = self.entries.len();
        proof {
            assert(orig.len() == n0);
            reveal(Seq::filter);
            assert(orig.take(0) =~= Seq::<PendingChallenge<T>>::empty());
            assert(orig.skip(0) =~= orig);
            assert(self.entries@ =~= orig.take(0).filter(p) + orig.skip(0));
        }
        while i < self.entries.len()
            invariant
                ttl == self.ttl,
                p == entry_live::<T>(now, ttl),
                orig.len() <= usize::MAX,
                j <= orig.len(),
                i == orig.take(j as int).filter(p).len(),
                self.entries@ == orig.take(j as int).filter(p) + orig.skip(j as int),
            decreases self.entries.len() - i,
        {
            proof {
                broadcast use Seq::lemma_filter_len;
                assert(self.entries@.len() == i + orig.skip(j as int).len());
                assert(j < orig.len());
                assert(orig.take(j as int).filter(p).len() <= j);
                assert(self.entries@[i as int] == orig[j as int]);
                assert(orig.take(j + 1) =~= orig.take(j as int).push(orig[j as int]));
                orig.take(j as int).lemma_filter_push(orig[j as int], p);
            }
            let created = self.entries[i].created;
            let live = if now >= created {
                now - created < ttl
            } else {
                0 < ttl
            };
            if live {
                proof {
                    assert(p(orig[j as int]));
                    assert(orig.skip(j as int) =~= seq![orig[j as int]] + orig.skip(j + 1));
                }
                i = i + 1;
            } else {
                let _dropped = self.entries.remove(i);
                proof {
                    assert(!p(orig[j as int]));
                    assert(orig.skip(j as int).drop_first() =~= orig.skip(j + 1));
                }
            }
            j = j + 1;
            assert(self.entries@ =~= orig.take(j as int).filter(p) + orig.skip(j as int));
        }
        proof {
            assert(j == orig.len()) by {
                if j < orig.len() {
                    assert(self.entries@.len() > i);
                }
            }
            assert(orig.take(j as int) =~= orig);
            assert(self.entries@ =~= orig.filter(p));
            lemma_to_map_filter(orig, now, ttl);
        }
    }

    /// Records a challenge, replacing any other under the same session id.
    pub fn insert(&mut self, session_id: String, created: u64, username: String, payload: T)
        requires
            old(self).wf(),
        ensures
            final(self).wf(),
            final(self).ttl() == old(self).ttl(),
            final(self).view() == old(self).view().insert(
                session_id@,
                Challenge { created: created, username: username@, payload: payload },
            ),
    {
        let ghost k = session_id@;
        let ghost v = Challenge { created: created, username: username@, payload: payload };
        match self.index_of(&session_id) {
            Some(i) => {
                proof {
                    lemma_to_map_remove(self.entries@, i as int);
                }
                let _replaced = self.entries.remove(i);
            },
            None => {},
        }
        let ghost before = self.entries@;
        proof {
            lemma_to_map_dom(before, k);
        }
        assert(!to_map(before).contains_key(k));
        assert(to_map(before) == old(self).view().remove(k));
        self.entries.push(PendingChallenge { session_id, created, username, payload });
        proof {
            assert(self.entries@.drop_last() =~= before);
            assert forall|j: int| 0 <= j < before.len() implies before[j].session_id@ != k by {
                if before[j].session_id@ == k {
                    lemma_to_map_dom(before, k);
                }
            }
            assert(ids_unique(self.entries@));
            assert(self.view() =~= old(self).view().insert(k, v));
        }
    }

    /// Issues a challenge at `now`: challenges that have expired are dropped
    /// first, then the new one is recorded under `session_id`.
    pub fn begin(&mut self, session_id: String, now: u64, username: String, payload: T)
        requires
            old(self).wf(),
        ensures
            final(self).wf(),
            final(self).ttl() == old(self).ttl(),
            final(self).view() == after_begin(
                old(self).view(),
                old(self).ttl(),
                session_id@,
                now,
                username@,
                payload,
            ),
    {
        self.purge_expired(now);
        self.insert(session_id, now, username, payload);
    }

    /// Removes the challenge stored under `session_id` and hands back its
    /// user name and payload, provided it has not expired at `now`.
    pub fn take(&mut self, session_id: &String, now: u64) -> (r: Result<(String, T), AuthError>)
        requires
            old(self).wf(),
        ensures
            final(self).wf(),
            final(self).ttl() == old(self).ttl(),
            final(self).view() == old(self).view().remove(session_id@),
            outcome_view(r) == take_result(old(self).view(), old(self).ttl(), session_id@, now),
    {
        match self.index_of(session_id) {
            None => {
                assert(self.view() =~= old(self).view().remove(session_id@));
                Err(AuthError::InvalidSession)
            },
            Some(i) => {
                proof {
                    lemma_to_map_at(self.entries@, i as int);
                    lemma_to_map_remove(self.entries@, i as int);
                }
                let e = self.entries.remove(i);
                let live = if now >= e.created {
                    now - e.created < self.ttl
                } else {
                    0 < self.ttl
                };
                if live {
                    Ok((e.username, e.payload))
                } else {
                    Err(AuthError::ChallengeExpired)
                }
            },
        }
    }
}

/// A challenge issued at `issued` is handed back, with the user name and
/// payload it was issued with, by a take at `later` while its age is below
/// the lifetime; after that the take answers that it expired.
pub proof fn law_take_returns_issued_challenge<T>(
    m: Map<Seq<char>, Challenge<T>>,
    ttl: u64,
    session_id: Seq<char>,
    issued: u64,
    later: u64,
    username: Seq<char>,
    payload: T,
)
    ensures
        take_result(
            after_begin(m, ttl, session_id, issued, username, payload),
            ttl,
            session_id,
            later,
        ) == if elapsed(issued, later) < ttl {
            Ok::<(Seq<char>, T), AuthError>((username, payload))
        } else {
            Err::<(Seq<char>, T), AuthError>(AuthError::ChallengeExpired)
        },
{
}

/// The age of a challenge read at a time not before its creation is the
/// whole clock difference, with no truncation; read at an earlier time
/// (the clock went backwards) it is zero.
pub proof fn law_challenge_age(created: u64, now: u64)
    ensures
        now >= created ==> elapsed(created, now) == now - created,
        now < created ==> elapsed(created, now) == 0,
{
}

/// Whatever the lifetime and the clock's unit, a challenge issued at
/// `issued` and taken at `issued + d` is refused as expired exactly when
/// `d` has reached the lifetime, and otherwise handed back as issued.
pub proof fn law_take_expires_by_clock_difference<T>(
    m: Map<Seq<char>, Challenge<T>>,
    ttl: u64,
    session_id: Seq<char>,
    issued: u64,
    d: u64,
    username: Seq<char>,
    payload: T,
)
    requires
        issued + d <= u64::MAX,
    ensures
        d >= ttl ==> take_result(
            after_begin(m, ttl, session_id, issued, username, payload),
            ttl,
            session_id,
            (issued + d) as u64,
        ) == Err::<(Seq<char>, T), AuthError>(AuthError::ChallengeExpired),
        d < ttl ==> take_result(
            after_begin(m, ttl, session_id, issued, username, payload),
            ttl,
            session_id,
            (issued + d) as u64,
        ) == Ok::<(Seq<char>, T), AuthError>((username, payload)),
{
    law_challenge_age(issued, (issued + d) as u64);
}

/// A challenge is good for one use: once taken, taking it again finds no
/// pending session, whatever the time.
pub proof fn law_take_is_single_use<T>(
    m: Map<Seq<char>, Challenge<T>>,
    ttl: u64,
    session_id: Seq<char>,
    now: u64,
)
    ensures
        take_result(m.remove(session_id), ttl, session_id, now) == Err::<(Seq<char>, T), AuthError>(
            AuthError::InvalidSession,
        ),
{
}

/// Issuing a challenge drops exactly the other challenges that have expired
/// and leaves the live ones as they were.
pub proof fn law_begin_keeps_live_challenges<T>(
    m: Map<Seq<char>, Challenge<T>>,
    ttl: u64,
    session_id: Seq<char>,
    now: u64,
    username: Seq<char>,
    payload: T,
    other: Seq<char>,
)
    requires
        other != session_id,
    ensures
        after_begin(m, ttl, session_id, now, username, payload).contains_key(other) == (
        m.contains_key(other) && is_live(m[other], now, ttl)),
        after_begin(m, ttl, session_id, now, username, payload).contains_key(other) ==> after_begin(
            m,
            ttl,
            session_id,
            now,
            username,
            payload,
        )[other] == m[other],
{
}

/// Taking one challenge leaves every other pending challenge as it was.
pub proof fn law_take_leaves_others<T>(
    m: Map<Seq<char>, Challenge<T>>,
    session_id: Seq<char>,
    other: Seq<char>,
)
    requires
        other != session_id,
    ensures
        m.remove(session_id).contains_key(other) == m.contains_key(other),
        m.contains_key(other) ==> m.remove(session_id)[other] == m[other],
{
}

} // verus!
