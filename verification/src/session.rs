//! Measurement sessions: who may start one, how long it lives, and which requests
//! it admits.
//!
//! Times are nanoseconds on the manager's monotonic clock, which starts when the
//! manager is made.

use crate::assoc::{
    count_values, entries_map, keys_distinct, keys_where, lemma_count_values, lemma_entries_map,
    lemma_push_new_key, lemma_retain_other_keys, lemma_retain_step,
    other_than, retain_entries,
};
use crate::config::{RuntimeConfig, TestPlan};
use crate::net::IpAddress;
use crate::session_laws::{
    law_check_keeps_bound, law_check_keeps_tracking, law_start_keeps_bound,
    law_start_tracks_session, law_tracked_session_answer, sessions_bounded, tracks,
};
use crate::text::{lower_hex, u128_lower_hex};
use vstd::prelude::*;

verus! {

/// Nanoseconds in a second.
pub const NANOS_PER_SEC: u128 = 1_000_000_000;

/// The longest span a `Duration` holds, in nanoseconds: `u64::MAX` seconds and
/// 999 999 999 nanoseconds.
pub const MAX_DURATION_NANOS: u128 = 18_446_744_073_709_551_615_999_999_999;

/// For how many whole seconds the start of a session is remembered per address.
pub const START_MEMORY_SECS: u128 = 60;

#[verifier::external_type_specification]
#[verifier::external_body]
pub struct ExInstant(std::time::Instant);

#[verifier::external_type_specification]
#[verifier::external_body]
pub struct ExSystemTime(std::time::SystemTime);

#[verifier::external_type_specification]
#[verifier::external_body]
pub struct ExSystemTimeError(std::time::SystemTimeError);

/// What the node knows of one session.
#[derive(Clone, Copy, Debug, PartialEq, Eq, Structural)]
pub struct SessionInfo {
    pub ip: IpAddress,
    pub expires_at: u128,
    pub last_seen: u128,
}

/// What a client is given when its session starts.
#[derive(Clone, Debug)]
pub struct SessionResponse {
    pub token: String,
    pub expires_in_seconds: u64,
}

/// Why a session was refused.
#[derive(Clone, Copy, Debug, PartialEq, Eq, Structural)]
pub enum SessionError {
    /// The address started a session too recently.
    RateLimited,
    /// The address has as many active sessions as it may.
    TooManyActive,
    /// The session is unknown or over.
    Invalid,
}

/// The state of the session store: the sessions by token, the last start by
/// address, and the latest clock reading the store has acted on.
pub ghost struct SessionState {
    pub sessions: Map<Seq<char>, SessionInfo>,
    pub last_start: Map<IpAddress, u128>,
    pub clock: u128,
}

/// The session store of a node.
pub struct SessionManager {
    sessions: Vec<(String, SessionInfo)>,
    last_start_by_ip: Vec<(IpAddress, u128)>,
    clock: u128,
    origin: std::time::Instant,
}

/// The counter that session tokens are made with. One counter serves the whole
/// program, whatever store starts the session, so that no two tokens it hands out
/// are alike.
pub struct TokenCounter {
    next: u64,
}

impl View for TokenCounter {
    type V = u64;

    closed spec fn view(&self) -> u64 {
        self.next
    }
}

impl TokenCounter {
    /// A counter whose first token is made with 1.
    pub fn new() -> (counter: TokenCounter)
        ensures
            counter@ == 1,
    {
        TokenCounter { next: 1 }
    }
}

/// The session table as token texts.
pub open spec fn session_entries(v: Seq<(String, SessionInfo)>) -> Seq<(Seq<char>, SessionInfo)> {
    v.map_values(|e: (String, SessionInfo)| (e.0@, e.1))
}

/// Time passed from `then` to `now`, none if `now` is earlier.
pub open spec fn elapsed_nanos(then: u128, now: u128) -> nat {
    if now >= then {
        (now - then) as nat
    } else {
        0
    }
}

/// A session is live until its expiry.
pub open spec fn live_at(now: u128) -> spec_fn(Seq<char>, SessionInfo) -> bool {
    |token: Seq<char>, info: SessionInfo| info.expires_at > now
}

/// A start is remembered while fewer than `START_MEMORY_SECS` whole seconds have passed.
pub open spec fn remembered_at(now: u128) -> spec_fn(IpAddress, u128) -> bool {
    |ip: IpAddress, then: u128| elapsed_nanos(then, now) / (NANOS_PER_SEC as nat) < START_MEMORY_SECS
}

/// A session that belongs to `ip`.
pub open spec fn owned_by(ip: IpAddress) -> spec_fn(SessionInfo) -> bool {
    |info: SessionInfo| info.ip == ip
}

/// The store once expired sessions and forgotten starts are dropped.
pub open spec fn cleaned(st: SessionState, now: u128) -> SessionState {
    SessionState {
        sessions: retain_entries(st.sessions, live_at(now)),
        last_start: retain_entries(st.last_start, remembered_at(now)),
        clock: now,
    }
}

/// Both tables of the store are finite.
pub open spec fn finite_state(st: SessionState) -> bool {
    st.sessions.dom().finite() && st.last_start.dom().finite()
}

/// How many sessions `ip` holds.
pub open spec fn active_sessions(st: SessionState, ip: IpAddress) -> nat {
    keys_where(st.sessions, owned_by(ip)).len()
}

/// The cooldown, in nanoseconds.
pub open spec fn cooldown_nanos(plan: TestPlan) -> nat {
    plan.session_start_cooldown_seconds as nat * NANOS_PER_SEC as nat
}

/// The lifetime of a session, in nanoseconds.
pub open spec fn ttl_nanos(plan: TestPlan) -> nat {
    plan.session_ttl_seconds as nat * NANOS_PER_SEC as nat
}

/// `ip` started a session less than the cooldown ago.
pub open spec fn rate_limited(st: SessionState, ip: IpAddress, now: u128, plan: TestPlan) -> bool {
    st.last_start.contains_key(ip) && elapsed_nanos(st.last_start[ip], now) < cooldown_nanos(plan)
}

/// `ip` holds as many sessions as the plan allows.
pub open spec fn too_many_active(st: SessionState, ip: IpAddress, plan: TestPlan) -> bool {
    active_sessions(st, ip) >= plan.max_active_sessions_per_ip
}

/// A token: the wall-clock time in nanoseconds and the counter, both in lower-case
/// hexadecimal, joined by '-'.
pub open spec fn token_text(unix_nanos: u128, counter: u64) -> Seq<char> {
    lower_hex(unix_nanos as nat) + seq!['-'] + lower_hex(counter as nat)
}

/// The counter after one token (it wraps around).
pub open spec fn next_counter(counter: u64) -> u64 {
    if counter == u64::MAX {
        0
    } else {
        (counter + 1) as u64
    }
}

/// The counter after a start: one on when a token was handed out.
pub open spec fn counter_after(counter: u64, answer: Result<(Seq<char>, u64), SessionError>) -> u64 {
    if answer is Ok {
        next_counter(counter)
    } else {
        counter
    }
}

/// The session a start at `now` adds.
pub open spec fn new_session(ip: IpAddress, now: u128, plan: TestPlan) -> SessionInfo {
    SessionInfo { ip, expires_at: (now + ttl_nanos(plan)) as u128, last_seen: now }
}

/// The store once a session for `ip` is started at `now` under `token`.
pub open spec fn admitted(
    st: SessionState,
    ip: IpAddress,
    now: u128,
    token: Seq<char>,
    plan: TestPlan,
) -> SessionState {
    SessionState {
        sessions: st.sessions.insert(token, new_session(ip, now, plan)),
        last_start: st.last_start.insert(ip, now),
        clock: st.clock,
    }
}

/// Starting a session for `ip` at `now`, with the wall-clock reading `unix_nanos`
/// and the token counter at `counter`: the store afterwards, and the token and
/// lifetime in seconds given, or why it was refused.
pub open spec fn create_outcome(
    st: SessionState,
    ip: IpAddress,
    now: u128,
    unix_nanos: u128,
    counter: u64,
    plan: TestPlan,
) -> (SessionState, Result<(Seq<char>, u64), SessionError>) {
    let s = cleaned(st, now);
    if rate_limited(s, ip, now, plan) {
        (s, Err(SessionError::RateLimited))
    } else if too_many_active(s, ip, plan) {
        (s, Err(SessionError::TooManyActive))
    } else {
        (
            admitted(s, ip, now, token_text(unix_nanos, counter), plan),
            Ok((token_text(unix_nanos, counter), plan.session_ttl_seconds)),
        )
    }
}

/// A request from `ip` with `token` at `now` is admitted.
pub open spec fn admits(st: SessionState, ip: IpAddress, token: Seq<char>, now: u128) -> bool {
    let s = cleaned(st, now);
    s.sessions.contains_key(token) && s.sessions[token].ip == ip && s.sessions[token].expires_at
        > now
}

/// Checking a request from `ip` with `token` at `now`: the store afterwards (the
/// session is marked seen when the request is admitted) and whether it is admitted.
pub open spec fn validate_outcome(st: SessionState, ip: IpAddress, token: Seq<char>, now: u128) -> (
    SessionState,
    bool,
) {
    let s = cleaned(st, now);
    if admits(st, ip, token, now) {
        (
            SessionState {
                sessions: s.sessions.insert(token, SessionInfo { last_seen: now, ..s.sessions[token] }),
                ..s
            },
            true,
        )
    } else {
        (s, false)
    }
}

/// The result that a start returned, as text.
pub open spec fn response_view(r: Result<SessionResponse, SessionError>) -> Result<
    (Seq<char>, u64),
    SessionError,
> {
    match r {
        Ok(resp) => Ok((resp.token@, resp.expires_in_seconds)),
        Err(e) => Err(e),
    }
}

/// `Instant::now`: the current moment on the monotonic clock.
#[verifier::external_body]
fn instant_now() -> std::time::Instant {
    std::time::Instant::now()
}

/// `Instant::elapsed`: the time passed since `origin` on the monotonic clock (zero
/// if the clock reads earlier). The value depends on the clock.
#[verifier::external_body]
fn elapsed_since(origin: &std::time::Instant) -> std::time::Duration {
    origin.elapsed()
}

/// `Duration::as_nanos`: the whole nanoseconds of `d`; a `Duration` holds at most
/// `u64::MAX` seconds and 999 999 999 nanoseconds.
#[verifier::external_body]
fn duration_nanos(d: &std::time::Duration) -> (nanos: u128)
    ensures
        nanos <= MAX_DURATION_NANOS,
{
    d.as_nanos()
}

/// `SystemTime::now`: the current wall-clock time. The value depends on the clock.
#[verifier::external_body]
fn system_now() -> std::time::SystemTime {
    std::time::SystemTime::now()
}

/// `SystemTime::duration_since(UNIX_EPOCH)`: the time from the Unix epoch to `t`, or
/// an error when `t` is earlier.
#[verifier::external_body]
fn since_unix_epoch(t: &std::time::SystemTime) -> Result<std::time::Duration, std::time::SystemTimeError> {
    t.duration_since(std::time::UNIX_EPOCH)
}

/// Nanoseconds on the monotonic clock since `origin`.
fn nanos_since(origin: &std::time::Instant) -> (nanos: u128)
    ensures
        nanos <= MAX_DURATION_NANOS,
{
    let elapsed = elapsed_since(origin);
    duration_nanos(&elapsed)
}

/// Nanoseconds of wall-clock time since the Unix epoch; zero when the clock reads
/// earlier than the epoch.
fn unix_time_nanos() -> (nanos: u128)
    ensures
        nanos <= MAX_DURATION_NANOS,
{
    let now = system_now();
    match since_unix_epoch(&now) {
        Ok(d) => duration_nanos(&d),
        Err(_) => 0,
    }
}

/// A session token: the wall-clock time `unix_nanos` and the `counter`, in lower-case
/// hexadecimal, joined by '-'.
pub fn new_token(unix_nanos: u128, counter: u64) -> (token: String)
    ensures
        token@ == token_text(unix_nanos, counter),
{
    let mut token = u128_lower_hex(unix_nanos);
    token.append("-");
    let counter_text = u128_lower_hex(counter as u128);
    token.append(counter_text.as_str());
    proof {
        reveal_strlit("-");
    }
    token
}

/// The sessions of `v` that are live at `now`.
fn live_sessions(v: &Vec<(String, SessionInfo)>, now: u128) -> (out: Vec<(String, SessionInfo)>)
    requires
        keys_distinct(session_entries(v@)),
    ensures
        keys_distinct(session_entries(out@)),
        entries_map(session_entries(out@)) == retain_entries(
            entries_map(session_entries(v@)),
            live_at(now),
        ),
{
    let ghost s = session_entries(v@);
    let mut out: Vec<(String, SessionInfo)> = Vec::new();
    assert(s.take(0) =~= Seq::<(Seq<char>, SessionInfo)>::empty());
    assert(session_entries(out@) =~= Seq::<(Seq<char>, SessionInfo)>::empty());
    assert(entries_map(session_entries(out@)) =~= retain_entries(entries_map(s.take(0)), live_at(now)));
    for i in 0..v.len()
        invariant
            s == session_entries(v@),
            keys_distinct(s),
            keys_distinct(session_entries(out@)),
            entries_map(session_entries(out@)) == retain_entries(
                entries_map(s.take(i as int)),
                live_at(now),
            ),
    {
        proof {
            lemma_retain_step(s, i as int, session_entries(out@), live_at(now));
        }
        if v[i].1.expires_at > now {
            let ghost before = out@;
            out.push((v[i].0.clone(), v[i].1));
            assert(session_entries(out@) =~= session_entries(before).push(s[i as int]));
        }
    }
    assert(s.take(v.len() as int) =~= s);
    out
}

/// The sessions of `v` other than the one under `token`.
fn sessions_without(v: &Vec<(String, SessionInfo)>, token: &String) -> (out: Vec<(String, SessionInfo)>)
    requires
        keys_distinct(session_entries(v@)),
    ensures
        keys_distinct(session_entries(out@)),
        entries_map(session_entries(out@)) == entries_map(session_entries(v@)).remove(token@),
{
    let ghost s = session_entries(v@);
    let ghost p = other_than::<Seq<char>, SessionInfo>(token@);
    let mut out: Vec<(String, SessionInfo)> = Vec::new();
    assert(s.take(0) =~= Seq::<(Seq<char>, SessionInfo)>::empty());
    assert(session_entries(out@) =~= Seq::<(Seq<char>, SessionInfo)>::empty());
    assert(entries_map(session_entries(out@)) =~= retain_entries(entries_map(s.take(0)), p));
    for i in 0..v.len()
        invariant
            s == session_entries(v@),
            p == other_than::<Seq<char>, SessionInfo>(token@),
            keys_distinct(s),
            keys_distinct(session_entries(out@)),
            entries_map(session_entries(out@)) == retain_entries(entries_map(s.take(i as int)), p),
    {
        proof {
            lemma_retain_step(s, i as int, session_entries(out@), p);
        }
        if !(v[i].0 == *token) {
            let ghost before = out@;
            out.push((v[i].0.clone(), v[i].1));
            assert(session_entries(out@) =~= session_entries(before).push(s[i as int]));
        }
    }
    assert(s.take(v.len() as int) =~= s);
    proof {
        lemma_retain_other_keys(entries_map(s), token@);
    }
    out
}

/// The starts of `v` still remembered at `now`.
fn remembered_starts(v: &Vec<(IpAddress, u128)>, now: u128) -> (out: Vec<(IpAddress, u128)>)
    requires
        keys_distinct(v@),
    ensures
        keys_distinct(out@),
        entries_map(out@) == retain_entries(entries_map(v@), remembered_at(now)),
{
    let mut out: Vec<(IpAddress, u128)> = Vec::new();
    assert(v@.take(0) =~= Seq::<(IpAddress, u128)>::empty());
    assert(entries_map(out@) =~= retain_entries(entries_map(v@.take(0)), remembered_at(now)));
    for i in 0..v.len()
        invariant
            keys_distinct(v@),
            keys_distinct(out@),
            entries_map(out@) == retain_entries(entries_map(v@.take(i as int)), remembered_at(now)),
    {
        proof {
            lemma_retain_step(v@, i as int, out@, remembered_at(now));
        }
        let elapsed = now.saturating_sub(v[i].1);
        if elapsed / NANOS_PER_SEC < START_MEMORY_SECS {
            out.push(v[i]);
        }
    }
    assert(v@.take(v.len() as int) =~= v@);
    out
}

/// The starts of `v` other than the one of `ip`.
fn starts_without(v: &Vec<(IpAddress, u128)>, ip: IpAddress) -> (out: Vec<(IpAddress, u128)>)
    requires
        keys_distinct(v@),
    ensures
        keys_distinct(out@),
        entries_map(out@) == entries_map(v@).remove(ip),
{
    let ghost p = other_than::<IpAddress, u128>(ip);
    let mut out: Vec<(IpAddress, u128)> = Vec::new();
    assert(v@.take(0) =~= Seq::<(IpAddress, u128)>::empty());
    assert(entries_map(out@) =~= retain_entries(entries_map(v@.take(0)), p));
    for i in 0..v.len()
        invariant
            p == other_than::<IpAddress, u128>(ip),
            keys_distinct(v@),
            keys_distinct(out@),
            entries_map(out@) == retain_entries(entries_map(v@.take(i as int)), p),
    {
        proof {
            lemma_retain_step(v@, i as int, out@, p);
        }
        if v[i].0 != ip {
            out.push(v[i]);
        }
    }
    assert(v@.take(v.len() as int) =~= v@);
    proof {
        lemma_retain_other_keys(entries_map(v@), ip);
    }
    out
}

/// The start remembered for `ip`, if any.
fn find_start(v: &Vec<(IpAddress, u128)>, ip: IpAddress) -> (found: Option<u128>)
    requires
        keys_distinct(v@),
    ensures
        found == (if entries_map(v@).contains_key(ip) {
            Some(entries_map(v@)[ip])
        } else {
            None
        }),
{
    proof {
        lemma_entries_map(v@);
    }
    for i in 0..v.len()
        invariant
            keys_distinct(v@),
            forall|j: int| 0 <= j < i ==> v@[j].0 != ip,
    {
        if v[i].0 == ip {
            proof {
                lemma_entries_map(v@);
                assert(entries_map(v@).contains_key(v@[i as int].0));
            }
            return Some(v[i].1);
        }
    }
    None
}

/// The session under `token`, if any.
fn find_session(v: &Vec<(String, SessionInfo)>, token: &String) -> (found: Option<SessionInfo>)
    requires
        keys_distinct(session_entries(v@)),
    ensures
        found == (if entries_map(session_entries(v@)).contains_key(token@) {
            Some(entries_map(session_entries(v@))[token@])
        } else {
            None
        }),
{
    let ghost s = session_entries(v@);
    proof {
        lemma_entries_map(s);
    }
    for i in 0..v.len()
        invariant
            s == session_entries(v@),
            keys_distinct(s),
            forall|j: int| 0 <= j < i ==> s[j].0 != token@,
    {
        if v[i].0 == *token {
            assert(s[i as int] == (v@[i as int].0@, v@[i as int].1));
            proof {
                lemma_entries_map(s);
                assert(entries_map(s).contains_key(s[i as int].0));
            }
            return Some(v[i].1);
        }
    }
    None
}

/// How many sessions of `v` belong to `ip`.
fn count_owned(v: &Vec<(String, SessionInfo)>, ip: IpAddress) -> (count: usize)
    requires
        keys_distinct(session_entries(v@)),
    ensures
        count == keys_where(entries_map(session_entries(v@)), owned_by(ip)).len(),
{
    let ghost s = session_entries(v@);
    let mut count: usize = 0;
    assert(s.take(0) =~= Seq::<(Seq<char>, SessionInfo)>::empty());
    for i in 0..v.len()
        invariant
            s == session_entries(v@),
            s.len() == v.len(),
            count <= i,
            count == count_values(s.take(i as int), owned_by(ip)),
    {
        assert(s.take(i + 1).drop_last() =~= s.take(i as int));
        if v[i].1.ip == ip {
            count = count + 1;
        }
    }
    assert(s.take(v.len() as int) =~= s);
    proof {
        lemma_count_values(s, owned_by(ip));
    }
    count
}

impl View for SessionManager {
    type V = SessionState;

    closed spec fn view(&self) -> SessionState {
        SessionState {
            sessions: entries_map(session_entries(self.sessions@)),
            last_start: entries_map(self.last_start_by_ip@),
            clock: self.clock,
        }
    }
}

impl SessionManager {
    /// Each token and each address occurs once in its table, and the clock reading is
    /// one a `Duration` can hold.
    #[verifier::type_invariant]
    closed spec fn tables_keyed(&self) -> bool {
        &&& keys_distinct(session_entries(self.sessions@))
        &&& keys_distinct(self.last_start_by_ip@)
        &&& self.clock <= MAX_DURATION_NANOS
    }

    /// An empty store, whose clock starts now.
    pub fn new() -> (manager: SessionManager)
        ensures
            manager@.sessions == Map::<Seq<char>, SessionInfo>::empty(),
            manager@.last_start == Map::<IpAddress, u128>::empty(),
            manager@.clock == 0,
            finite_state(manager@),
    {
        let manager = SessionManager {
            sessions: Vec::new(),
            last_start_by_ip: Vec::new(),
            clock: 0,
            origin: instant_now(),
        };
        assert(session_entries(manager.sessions@) =~= Seq::<(Seq<char>, SessionInfo)>::empty());
        proof {
            use_type_invariant(&manager);
            manager.lemma_tables_finite();
        }
        manager
    }

    /// The tables of a store are finite.
    proof fn lemma_tables_finite(&self)
        requires
            self.tables_keyed(),
        ensures
            finite_state(self@),
    {
        lemma_entries_map(session_entries(self.sessions@));
        lemma_entries_map(self.last_start_by_ip@);
    }

    /// Drops the expired sessions and the starts no longer remembered at `now`.
    fn cleanup(&mut self, now: u128)
        requires
            now <= MAX_DURATION_NANOS,
        ensures
            final(self)@ == cleaned(old(self)@, now),
            finite_state(final(self)@),
    {
        proof {
            use_type_invariant(&*self);
        }
        let sessions = live_sessions(&self.sessions, now);
        self.sessions = sessions;
        let starts = remembered_starts(&self.last_start_by_ip, now);
        self.last_start_by_ip = starts;
        self.clock = now;
        proof {
            use_type_invariant(&*self);
            self.lemma_tables_finite();
        }
    }

    /// Starts a session for `ip` at `now` (monotonic) with a token made from the
    /// wall-clock time `unix_nanos` and the counter: refused while the address's last
    /// start is more recent than the cooldown, or while it holds as many sessions as
    /// the plan allows. The counter moves on only when a token is handed out.
    pub fn create_session_at(
        &mut self,
        ip: IpAddress,
        now: u128,
        unix_nanos: u128,
        tokens: &mut TokenCounter,
        config: &RuntimeConfig,
    ) -> (result: Result<SessionResponse, SessionError>)
        requires
            now <= MAX_DURATION_NANOS,
        ensures
            final(self)@ == create_outcome(old(self)@, ip, now, unix_nanos, old(tokens)@, config.plan).0,
            response_view(result) == create_outcome(
                old(self)@,
                ip,
                now,
                unix_nanos,
                old(tokens)@,
                config.plan,
            ).1,
            final(tokens)@ == counter_after(
                old(tokens)@,
                create_outcome(old(self)@, ip, now, unix_nanos, old(tokens)@, config.plan).1,
            ),
            finite_state(final(self)@),
    {
        self.cleanup(now);
        proof {
            use_type_invariant(&*self);
        }
        let plan = &config.plan;
        if let Some(last_start) = find_start(&self.last_start_by_ip, ip) {
            let elapsed = now.saturating_sub(last_start);
            let cooldown = plan.session_start_cooldown_seconds as u128 * NANOS_PER_SEC;
            if elapsed < cooldown {
                return Err(SessionError::RateLimited);
            }
        }
        let active = count_owned(&self.sessions, ip);
        if active >= plan.max_active_sessions_per_ip {
            return Err(SessionError::TooManyActive);
        }
        let counter = tokens.next;
        let token = new_token(unix_nanos, counter);
        tokens.next = counter.wrapping_add(1);
        let ttl = plan.session_ttl_seconds as u128 * NANOS_PER_SEC;
        let info = SessionInfo { ip, expires_at: now + ttl, last_seen: now };

        let mut starts = starts_without(&self.last_start_by_ip, ip);
        proof {
            lemma_entries_map(starts@);
            lemma_push_new_key(starts@, (ip, now));
        }
        starts.push((ip, now));
        self.last_start_by_ip = starts;

        let mut sessions = sessions_without(&self.sessions, &token);
        proof {
            lemma_entries_map(session_entries(sessions@));
            lemma_push_new_key(session_entries(sessions@), (token@, info));
        }
        let ghost before = sessions@;
        sessions.push((token.clone(), info));
        assert(session_entries(sessions@) =~= session_entries(before).push((token@, info)));
        self.sessions = sessions;
        assert(self@.sessions =~= admitted(cleaned(old(self)@, now), ip, now, token@, config.plan).sessions);
        assert(self@.last_start =~= admitted(cleaned(old(self)@, now), ip, now, token@, config.plan).last_start);
        proof {
            use_type_invariant(&*self);
            self.lemma_tables_finite();
        }
        Ok(SessionResponse { token, expires_in_seconds: plan.session_ttl_seconds })
    }

    /// Checks a request from `ip` with `token` at `now`: admitted while the session
    /// exists, belongs to `ip` and has not expired; an admitted session is marked seen.
    pub fn validate_session_at(&mut self, ip: IpAddress, token: &str, now: u128) -> (admitted: bool)
        requires
            now <= MAX_DURATION_NANOS,
        ensures
            (final(self)@, admitted) == validate_outcome(old(self)@, ip, token@, now),
            finite_state(final(self)@),
    {
        self.cleanup(now);
        proof {
            use_type_invariant(&*self);
        }
        let token = String::from_str(token);
        match find_session(&self.sessions, &token) {
            Some(info) => {
                if info.ip == ip && info.expires_at > now {
                    let seen = SessionInfo { last_seen: now, ..info };
                    let mut sessions = sessions_without(&self.sessions, &token);
                    proof {
                        lemma_entries_map(session_entries(sessions@));
                        lemma_push_new_key(session_entries(sessions@), (token@, seen));
                    }
                    let ghost before = sessions@;
                    sessions.push((token.clone(), seen));
                    assert(session_entries(sessions@) =~= session_entries(before).push((token@, seen)));
                    self.sessions = sessions;
                    assert(self@.sessions =~= validate_outcome(old(self)@, ip, token@, now).0.sessions);
                    proof {
                        use_type_invariant(&*self);
                        self.lemma_tables_finite();
                    }
                    true
                } else {
                    false
                }
            },
            None => false,
        }
    }

    /// The monotonic clock now, as nanoseconds since the store was made. `Instant`
    /// never goes backwards, so this is never earlier than the store's clock; the
    /// store's clock is taken where a reading were earlier.
    fn read_clock(&self) -> (now: u128)
        ensures
            self@.clock <= now <= MAX_DURATION_NANOS,
    {
        proof {
            use_type_invariant(self);
        }
        let reading = nanos_since(&self.origin);
        if reading < self.clock {
            self.clock
        } else {
            reading
        }
    }

    /// Starts a session for `ip` now, with a token from the program's counter: the
    /// store and the counter move as `create_outcome` says for a reading of the
    /// monotonic clock no earlier than the store's clock, whatever the clocks read.
    /// No address is left with more sessions than the plan allows, if none had more.
    pub fn create_session(
        &mut self,
        ip: IpAddress,
        tokens: &mut TokenCounter,
        config: &RuntimeConfig,
    ) -> (result: Result<SessionResponse, SessionError>)
        ensures
            exists|now: u128, unix_nanos: u128|
                {
                    &&& old(self)@.clock <= now <= MAX_DURATION_NANOS
                    &&& final(self)@ == create_outcome(
                        old(self)@,
                        ip,
                        now,
                        unix_nanos,
                        old(tokens)@,
                        config.plan,
                    ).0
                    &&& response_view(result) == create_outcome(
                        old(self)@,
                        ip,
                        now,
                        unix_nanos,
                        old(tokens)@,
                        config.plan,
                    ).1
                    &&& final(tokens)@ == counter_after(
                        old(tokens)@,
                        create_outcome(old(self)@, ip, now, unix_nanos, old(tokens)@, config.plan).1,
                    )
                },
            forall|limit: nat|
                #![trigger sessions_bounded(final(self)@, limit)]
                sessions_bounded(old(self)@, limit) && config.plan.max_active_sessions_per_ip
                    == limit ==> sessions_bounded(final(self)@, limit),
            result matches Ok(r) ==> tracks(
                final(self)@,
                r.token@,
                ip,
                (final(self)@.clock + ttl_nanos(config.plan)) as u128,
            ),
            old(self)@.clock <= final(self)@.clock,
            finite_state(final(self)@),
    {
        proof {
            use_type_invariant(&*self);
            self.lemma_tables_finite();
        }
        let ghost before = self@;
        let ghost counter = tokens@;
        let now = self.read_clock();
        let unix_nanos = unix_time_nanos();
        let result = self.create_session_at(ip, now, unix_nanos, tokens, config);
        proof {
            assert forall|limit: nat|
                #![trigger sessions_bounded(self@, limit)]
                sessions_bounded(before, limit) && config.plan.max_active_sessions_per_ip
                    == limit implies sessions_bounded(self@, limit) by {
                law_start_keeps_bound(before, ip, now, unix_nanos, counter, config.plan, limit);
            }
            if result is Ok {
                law_start_tracks_session(before, ip, now, unix_nanos, counter, config.plan);
            }
        }
        result
    }

    /// Checks a request from `ip` with `token` now: the store moves as
    /// `validate_outcome` says for a reading of the monotonic clock no earlier than
    /// the store's clock, whatever it read. A check never lifts an address over a
    /// bound on its sessions.
    pub fn validate_session(&mut self, ip: IpAddress, token: &str) -> (admitted: bool)
        ensures
            exists|now: u128|
                #![trigger validate_outcome(old(self)@, ip, token@, now)]
                old(self)@.clock <= now <= MAX_DURATION_NANOS && (final(self)@, admitted)
                    == validate_outcome(old(self)@, ip, token@, now),
            forall|limit: nat|
                #![trigger sessions_bounded(final(self)@, limit)]
                sessions_bounded(old(self)@, limit) ==> sessions_bounded(final(self)@, limit),
            forall|t: Seq<char>, owner: IpAddress, expiry: u128|
                #![trigger tracks(final(self)@, t, owner, expiry)]
                tracks(old(self)@, t, owner, expiry) ==> tracks(final(self)@, t, owner, expiry),
            forall|expiry: u128|
                #![trigger tracks(old(self)@, token@, ip, expiry)]
                tracks(old(self)@, token@, ip, expiry) ==> (admitted <==> final(self)@.clock
                    < expiry),
            old(self)@.clock <= final(self)@.clock,
            finite_state(final(self)@),
    {
        proof {
            use_type_invariant(&*self);
            self.lemma_tables_finite();
        }
        let ghost before = self@;
        let now = self.read_clock();
        let admitted = self.validate_session_at(ip, token, now);
        proof {
            assert forall|limit: nat|
                #![trigger sessions_bounded(self@, limit)]
                sessions_bounded(before, limit) implies sessions_bounded(self@, limit) by {
                law_check_keeps_bound(before, ip, token@, now, limit);
            }
            assert forall|t: Seq<char>, owner: IpAddress, expiry: u128|
                #![trigger tracks(self@, t, owner, expiry)]
                tracks(before, t, owner, expiry) implies tracks(self@, t, owner, expiry) by {
                law_check_keeps_tracking(before, t, owner, expiry, ip, token@, now);
            }
            assert forall|expiry: u128|
                #![trigger tracks(before, token@, ip, expiry)]
                tracks(before, token@, ip, expiry) implies (admitted <==> self@.clock < expiry) by {
                law_tracked_session_answer(before, token@, ip, expiry, now);
            }
        }
        admitted
    }
}

} // verus!
