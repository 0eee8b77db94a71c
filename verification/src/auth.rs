//! Admin sessions: opaque tokens that are valid for a fixed time after they
//! were created.
//!
//! Time is counted in nanoseconds since the store was made. A token is valid
//! while it is present and younger than the store's duration; nothing renews
//! it. Expired tokens stay until the next session is created, which sweeps
//! them out.

use crate::text::{opt_str, same_text};
use std::time::Instant;
use uuid::Uuid;
use vstd::prelude::*;

verus! {

/// `std::time::Instant`, a reading of the monotonic clock. Nothing of it is
/// visible here.
#[verifier::external_type_specification]
#[verifier::external_body]
pub struct ExInstant(Instant);

/// `Instant::now`: the current reading of the clock.
#[verifier::external_body]
fn clock_start() -> (t: Instant) {
    Instant::now()
}

/// `Instant::elapsed`, in nanoseconds: the time since `start` was read.
/// Nothing is promised of it.
#[verifier::external_body]
fn nanos_since(start: &Instant) -> (n: u128) {
    start.elapsed().as_nanos()
}

/// The length of a session token.
pub const TOKEN_LEN: usize = 36;

/// `Uuid::new_v4`, written out by `to_string`: a random identifier in its
/// hyphenated form, which has 36 characters.
#[verifier::external_body]
fn fresh_token() -> (t: String)
    ensures
        t@.len() == 36,
{
    Uuid::new_v4().to_string()
}

/// Nanoseconds in a second.
pub const NANOS_PER_SEC: u128 = 1_000_000_000;

/// Seconds in an hour.
pub const SECS_PER_HOUR: u64 = 3600;

/// One session: its token and when it was created.
struct Session {
    token: String,
    created: u128,
}

/// The age at `now` of something created at `created`; zero if the clock
/// shows an earlier time.
pub open spec fn age_at(now: nat, created: nat) -> nat {
    if now >= created {
        (now - created) as nat
    } else {
        0
    }
}

/// Whether a session created at `created` has not expired at `now`: its age
/// is strictly less than the duration.
pub open spec fn is_fresh(created: nat, now: nat, ttl_secs: nat) -> bool {
    age_at(now, created) < ttl_secs * NANOS_PER_SEC
}

/// Whether `token` is valid at `now`: present, and not expired.
pub open spec fn valid_at(
    sessions: Map<Seq<char>, nat>,
    token: Seq<char>,
    now: nat,
    ttl_secs: nat,
) -> bool {
    sessions.contains_key(token) && is_fresh(sessions[token], now, ttl_secs)
}

/// The sessions that are left when those that have expired at `now` are
/// taken out.
pub open spec fn swept(sessions: Map<Seq<char>, nat>, now: nat, ttl_secs: nat) -> Map<
    Seq<char>,
    nat,
> {
    sessions.restrict(Set::new(|t: Seq<char>| valid_at(sessions, t, now, ttl_secs)))
}

/// The sessions after one is created at `now`: the expired ones are gone and
/// the new token is present, created at `now`.
pub open spec fn created_at(
    sessions: Map<Seq<char>, nat>,
    token: Seq<char>,
    now: nat,
    ttl_secs: nat,
) -> Map<Seq<char>, nat> {
    swept(sessions, now, ttl_secs).insert(token, now)
}

/// A session as a pair of token and creation time.
spec fn pair_of(s: Session) -> (Seq<char>, nat) {
    (s.token@, s.created as nat)
}

spec fn pairs_of(v: Seq<Session>) -> Seq<(Seq<char>, nat)> {
    v.map_values(|s: Session| pair_of(s))
}

/// The map that a list of pairs stands for.
spec fn entries(s: Seq<(Seq<char>, nat)>) -> Map<Seq<char>, nat>
    decreases s.len(),
{
    if s.len() == 0 {
        Map::empty()
    } else {
        entries(s.drop_last()).insert(s.last().0, s.last().1)
    }
}

/// No token occurs twice.
spec fn distinct(s: Seq<(Seq<char>, nat)>) -> bool {
    forall|i: int, j: int| 0 <= i < j < s.len() ==> (#[trigger] s[i]).0 != (#[trigger] s[j]).0
}

/// The pairs of `s` that `keep` accepts, in their order.
spec fn retained(s: Seq<(Seq<char>, nat)>, keep: spec_fn((Seq<char>, nat)) -> bool) -> Seq<
    (Seq<char>, nat),
>
    decreases s.len(),
{
    if s.len() == 0 {
        Seq::empty()
    } else if keep(s.last()) {
        retained(s.drop_last(), keep).push(s.last())
    } else {
        retained(s.drop_last(), keep)
    }
}

proof fn lemma_entries_keys(s: Seq<(Seq<char>, nat)>, t: Seq<char>)
    ensures
        entries(s).contains_key(t) <==> exists|i: int| 0 <= i < s.len() && (#[trigger] s[i]).0 == t,
    decreases s.len(),
{
    if s.len() > 0 {
        let front = s.drop_last();
        lemma_entries_keys(front, t);
        if entries(s).contains_key(t) {
            if s.last().0 == t {
                assert(s[s.len() - 1].0 == t);
            } else {
                let i = choose|i: int| 0 <= i < front.len() && (#[trigger] front[i]).0 == t;
                assert(s[i].0 == t);
            }
        }
        if exists|i: int| 0 <= i < s.len() && (#[trigger] s[i]).0 == t {
            let i = choose|i: int| 0 <= i < s.len() && (#[trigger] s[i]).0 == t;
            if i < s.len() - 1 {
                assert(front[i].0 == t);
            }
        }
    }
}

proof fn lemma_entries_value(s: Seq<(Seq<char>, nat)>, i: int)
    requires
        distinct(s),
        0 <= i < s.len(),
    ensures
        entries(s).contains_key(s[i].0),
        entries(s)[s[i].0] == s[i].1,
    decreases s.len(),
{
    let front = s.drop_last();
    if i < s.len() - 1 {
        assert(distinct(front)) by {
            assert forall|a: int, b: int| 0 <= a < b < front.len() implies (#[trigger] front[a]).0
                != (#[trigger] front[b]).0 by {
                assert(s[a].0 != s[b].0);
            }
        }
        lemma_entries_value(front, i);
        assert(front[i] == s[i]);
        assert(s[i].0 != s[s.len() - 1].0);
    }
}

/// What is retained is what `keep` accepts of the map, where no token occurs
/// twice; and no token occurs twice in it.
proof fn lemma_retained(s: Seq<(Seq<char>, nat)>, keep: spec_fn((Seq<char>, nat)) -> bool)
    requires
        distinct(s),
    ensures
        distinct(retained(s, keep)),
        entries(retained(s, keep)) =~= entries(s).restrict(
            Set::new(|t: Seq<char>| entries(s).contains_key(t) && keep((t, entries(s)[t]))),
        ),
    decreases s.len(),
{
    if s.len() > 0 {
        let front = s.drop_last();
        let e = s.last();
        assert(distinct(front)) by {
            assert forall|a: int, b: int| 0 <= a < b < front.len() implies (#[trigger] front[a]).0
                != (#[trigger] front[b]).0 by {
                assert(s[a].0 != s[b].0);
            }
        }
        lemma_retained(front, keep);
        lemma_entries_keys(front, e.0);
        assert(!entries(front).contains_key(e.0)) by {
            if entries(front).contains_key(e.0) {
                let i = choose|i: int| 0 <= i < front.len() && (#[trigger] front[i]).0 == e.0;
                assert(s[i].0 != s[s.len() - 1].0);
            }
        }
        let r = retained(front, keep);
        lemma_entries_keys(r, e.0);
        if keep(e) {
            let grown = r.push(e);
            assert(grown.drop_last() =~= r);
            assert(distinct(grown)) by {
                assert forall|a: int, b: int| 0 <= a < b < grown.len() implies (
                #[trigger] grown[a]).0 != (#[trigger] grown[b]).0 by {
                    if b == grown.len() - 1 {
                        assert(grown[a] == r[a]);
                        assert(entries(r).contains_key(r[a].0)) by {
                            lemma_entries_keys(r, r[a].0);
                        }
                    } else {
                        assert(r[a].0 != r[b].0);
                    }
                }
            }
        }
    }
}

/// In-memory session store: each token with the time of its creation.
pub struct SessionStore {
    sessions: Vec<Session>,
    duration_secs: u64,
    started: Instant,
}

impl View for SessionStore {
    type V = Map<Seq<char>, nat>;

    /// Each token that is present, with the time of its creation in
    /// nanoseconds since the store was made.
    closed spec fn view(&self) -> Map<Seq<char>, nat> {
        entries(pairs_of(self.sessions@))
    }
}

impl SessionStore {
    #[verifier::type_invariant]
    spec fn tokens_distinct(&self) -> bool {
        distinct(pairs_of(self.sessions@))
    }

    /// The time in seconds for which a session stays valid.
    pub closed spec fn ttl_secs(&self) -> nat {
        self.duration_secs as nat
    }

    /// A store without sessions, in which a session stays valid for the given
    /// number of hours.
    pub fn new(session_duration_hours: u64) -> (store: Self)
        requires
            session_duration_hours * SECS_PER_HOUR <= u64::MAX,
        ensures
            store@ == Map::<Seq<char>, nat>::empty(),
            store.ttl_secs() == session_duration_hours * SECS_PER_HOUR,
    {
        let store = SessionStore {
            sessions: Vec::new(),
            duration_secs: session_duration_hours * SECS_PER_HOUR,
            started: clock_start(),
        };
        assert(pairs_of(store.sessions@) =~= Seq::empty());
        store
    }

    /// The time in seconds for which a session stays valid.
    pub fn session_duration_secs(&self) -> (secs: u64)
        ensures
            secs == self.ttl_secs(),
    {
        self.duration_secs
    }

    /// The time now, in nanoseconds since the store was made.
    fn clock(&self) -> u128 {
        nanos_since(&self.started)
    }

    /// Creates a session at the current time and returns its token: what
    /// `create_at` does with a new random token and the clock's reading.
    pub fn create(&mut self) -> (token: String)
        ensures
            token@.len() == TOKEN_LEN,
            final(self).ttl_secs() == old(self).ttl_secs(),
            exists|now: nat| final(self)@ == created_at(old(self)@, token@, now, old(self).ttl_secs()),
    {
        let token: String = fresh_token();
        let now: u128 = self.clock();
        self.create_at(token.clone(), now);
        token
    }

    /// Creates a session for `token` at the time `now`: the sessions that
    /// have expired at `now` are removed, and the token is present
    /// afterwards, created at `now`.
    pub fn create_at(&mut self, token: String, now: u128)
        ensures
            final(self).ttl_secs() == old(self).ttl_secs(),
            final(self)@ == created_at(old(self)@, token@, now as nat, old(self).ttl_secs()),
    {
        proof {
            use_type_invariant(&*self);
        }
        let mut kept: Vec<Session> = self.kept(token.as_str(), now, true);
        let ghost before = pairs_of(kept@);
        kept.push(Session { token, created: now });
        proof {
            let after = pairs_of(kept@);
            assert(after =~= before.push((token@, now as nat)));
            assert(after.drop_last() =~= before);
            lemma_entries_keys(before, token@);
            assert(distinct(after)) by {
                assert forall|a: int, b: int| 0 <= a < b < after.len() implies (
                #[trigger] after[a]).0 != (#[trigger] after[b]).0 by {
                    if b == after.len() - 1 {
                        assert(after[a] == before[a]);
                        lemma_entries_keys(before, before[a].0);
                    } else {
                        assert(before[a].0 != before[b].0);
                    }
                }
            }
            assert(entries(after) =~= created_at(
                old(self)@,
                token@,
                now as nat,
                old(self).ttl_secs(),
            ));
        }
        self.sessions = kept;
    }

    /// Whether `token` is valid at the current time: what `is_valid_at` gives
    /// for the clock's reading.
    pub fn is_valid(&self, token: &str) -> (valid: bool)
        ensures
            exists|now: nat| valid == valid_at(self@, token@, now, self.ttl_secs()),
    {
        let now: u128 = self.clock();
        let valid: bool = self.is_valid_at(token, now);
        assert(valid == valid_at(self@, token@, now as nat, self.ttl_secs()));
        valid
    }

    /// Whether `token` is valid at the time `now`: it is present, and its age
    /// is strictly less than the store's duration. The store does not change.
    pub fn is_valid_at(&self, token: &str, now: u128) -> (valid: bool)
        ensures
            valid == valid_at(self@, token@, now as nat, self.ttl_secs()),
    {
        proof {
            use_type_invariant(self);
        }
        let ghost all = pairs_of(self.sessions@);
        let mut i: usize = 0;
        while i < self.sessions.len()
            invariant
                i <= self.sessions@.len(),
                all == pairs_of(self.sessions@),
                distinct(all),
                forall|j: int| 0 <= j < i ==> (#[trigger] all[j]).0 != token@,
            decreases self.sessions.len() - i,
        {
            let s: &Session = &self.sessions[i];
            assert(all[i as int] == pair_of(*s));
            if same_text(s.token.as_str(), token) {
                proof {
                    lemma_entries_value(all, i as int);
                }
                return fresh_at(s.created, now, self.duration_secs);
            }
            i += 1;
        }
        proof {
            lemma_entries_keys(all, token@);
        }
        false
    }

    /// Removes `token`; nothing changes if it is not present.
    pub fn remove(&mut self, token: &str)
        ensures
            final(self).ttl_secs() == old(self).ttl_secs(),
            final(self)@ == old(self)@.remove(token@),
    {
        proof {
            use_type_invariant(&*self);
        }
        let kept: Vec<Session> = self.kept(token, 0, false);
        assert(entries(pairs_of(kept@)) =~= old(self)@.remove(token@));
        self.sessions = kept;
    }

    /// The sessions other than that of `skip` and, where `sweep` is set,
    /// other than those that have expired at `now`.
    fn kept(&self, skip: &str, now: u128, sweep: bool) -> (r: Vec<Session>)
        requires
            distinct(pairs_of(self.sessions@)),
        ensures
            distinct(pairs_of(r@)),
            entries(pairs_of(r@)) =~= entries(pairs_of(self.sessions@)).restrict(
                Set::new(
                    |t: Seq<char>|
                        entries(pairs_of(self.sessions@)).contains_key(t) && t != skip@ && (sweep
                            ==> is_fresh(
                            entries(pairs_of(self.sessions@))[t],
                            now as nat,
                            self.duration_secs as nat,
                        )),
                ),
            ),
    {
        let ghost all = pairs_of(self.sessions@);
        let ghost ttl = self.duration_secs as nat;
        let ghost keep = |e: (Seq<char>, nat)|
            e.0 != skip@ && (sweep ==> is_fresh(e.1, now as nat, ttl));
        let mut r: Vec<Session> = Vec::new();
        let mut i: usize = 0;
        assert(all.take(0) =~= Seq::empty());
        assert(pairs_of(r@) =~= Seq::empty());
        while i < self.sessions.len()
            invariant
                i <= self.sessions@.len(),
                all == pairs_of(self.sessions@),
                ttl == self.duration_secs as nat,
                keep == (|e: (Seq<char>, nat)|
                    e.0 != skip@ && (sweep ==> is_fresh(e.1, now as nat, ttl))),
                pairs_of(r@) == retained(all.take(i as int), keep),
            decreases self.sessions.len() - i,
        {
            let s: &Session = &self.sessions[i];
            let ghost done = all.take(i as int);
            let ghost next = all.take(i + 1);
            assert(next.drop_last() =~= done);
            assert(next.last() == pair_of(*s));
            let stays: bool = !same_text(s.token.as_str(), skip) && (!sweep || fresh_at(
                s.created,
                now,
                self.duration_secs,
            ));
            assert(stays == keep(pair_of(*s)));
            if stays {
                let ghost before = pairs_of(r@);
                r.push(Session { token: s.token.clone(), created: s.created });
                assert(pairs_of(r@) =~= before.push(pair_of(*s)));
            }
            i += 1;
        }
        proof {
            assert(all.take(all.len() as int) =~= all);
            lemma_retained(all, keep);
        }
        r
    }
}

/// Whether a session created at `created` has not expired at `now`.
fn fresh_at(created: u128, now: u128, ttl_secs: u64) -> (r: bool)
    ensures
        r == is_fresh(created as nat, now as nat, ttl_secs as nat),
{
    let age: u128 = if now >= created {
        now - created
    } else {
        0
    };
    assert(ttl_secs as u128 * NANOS_PER_SEC <= u128::MAX) by (nonlinear_arith)
        requires
            ttl_secs <= u64::MAX,
            NANOS_PER_SEC == 1_000_000_000,
    ;
    age < ttl_secs as u128 * NANOS_PER_SEC
}

/// Where a request without a valid session is sent.
pub const LOGIN_PATH: &'static str = "/admin/login";

/// The name of the cookie that carries the session token.
pub const SESSION_COOKIE: &'static str = "session_id";

/// Proof that a request came with a valid session.
#[derive(Debug, Clone, Copy)]
pub struct AuthUser;

/// Whether a request with the given session cookie is let in at `now`: only
/// if it has one, and the token in it is valid then.
pub open spec fn lets_in(
    cookie: Option<Seq<char>>,
    sessions: Map<Seq<char>, nat>,
    now: nat,
    ttl_secs: nat,
) -> bool {
    match cookie {
        Some(token) => valid_at(sessions, token, now, ttl_secs),
        None => false,
    }
}

impl AuthUser {
    /// Lets a request in by its session cookie at the current time: what
    /// `from_cookie_at` does for the clock's reading. A request that is not
    /// let in goes to `LOGIN_PATH`.
    pub fn from_cookie(cookie: Option<&str>, sessions: &SessionStore) -> (r: Option<AuthUser>)
        ensures
            exists|now: nat|
                r is Some == #[trigger] lets_in(opt_str(cookie), sessions@, now, sessions.ttl_secs()),
    {
        let now: u128 = sessions.clock();
        let r: Option<AuthUser> = AuthUser::from_cookie_at(cookie, sessions, now);
        assert(r is Some == lets_in(opt_str(cookie), sessions@, now as nat, sessions.ttl_secs()));
        r
    }

    /// Lets a request in by its session cookie at the time `now`.
    pub fn from_cookie_at(cookie: Option<&str>, sessions: &SessionStore, now: u128) -> (r: Option<
        AuthUser,
    >)
        ensures
            r is Some == lets_in(opt_str(cookie), sessions@, now as nat, sessions.ttl_secs()),
    {
        match cookie {
            Some(token) => {
                if sessions.is_valid_at(token, now) {
                    Some(AuthUser)
                } else {
                    None
                }
            },
            None => None,
        }
    }
}

/// A session is valid when it has just been created, in a store whose
/// duration is not zero, and stays valid while its age is less than the
/// duration.
pub proof fn lemma_created_session_is_valid(
    sessions: Map<Seq<char>, nat>,
    token: Seq<char>,
    created: nat,
    now: nat,
    ttl_secs: nat,
)
    requires
        ttl_secs > 0,
    ensures
        valid_at(created_at(sessions, token, created, ttl_secs), token, created, ttl_secs),
        age_at(now, created) < ttl_secs * NANOS_PER_SEC ==> valid_at(
            created_at(sessions, token, created, ttl_secs),
            token,
            now,
            ttl_secs,
        ),
{
    assert(ttl_secs * NANOS_PER_SEC > 0) by (nonlinear_arith)
        requires
            ttl_secs > 0,
            NANOS_PER_SEC == 1_000_000_000,
    ;
}

/// A session is no longer valid once its age has reached the duration.
pub proof fn lemma_session_expires(
    sessions: Map<Seq<char>, nat>,
    token: Seq<char>,
    created: nat,
    now: nat,
    ttl_secs: nat,
)
    requires
        age_at(now, created) >= ttl_secs * NANOS_PER_SEC,
    ensures
        !valid_at(created_at(sessions, token, created, ttl_secs), token, now, ttl_secs),
{
}

/// A session that was removed is not valid at any time.
pub proof fn lemma_removed_session_is_invalid(
    sessions: Map<Seq<char>, nat>,
    token: Seq<char>,
    now: nat,
    ttl_secs: nat,
)
    ensures
        !valid_at(sessions.remove(token), token, now, ttl_secs),
{
}

/// Creating a session leaves every other session that has not expired as it
/// was, and removes those that have.
pub proof fn lemma_create_sweeps_expired(
    sessions: Map<Seq<char>, nat>,
    token: Seq<char>,
    other: Seq<char>,
    now: nat,
    ttl_secs: nat,
)
    requires
        other != token,
    ensures
        created_at(sessions, token, now, ttl_secs).contains_key(other) == valid_at(
            sessions,
            other,
            now,
            ttl_secs,
        ),
        valid_at(sessions, other, now, ttl_secs) ==> created_at(sessions, token, now, ttl_secs)[other]
            == sessions[other],
{
}

} // verus!
