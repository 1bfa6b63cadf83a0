//! What holds of the session rules across calls: which sessions admit which
//! requests, what a refusal or a check changes, the per-address limits, and the
//! tokens handed out.

use crate::assoc::{keys_where, lemma_keys_where_insert};
use crate::config::TestPlan;
use crate::net::IpAddress;
use crate::session::{
    active_sessions, admits, cleaned, cooldown_nanos, counter_after, create_outcome, elapsed_nanos,
    finite_state, new_session, next_counter, owned_by, token_text, ttl_nanos, validate_outcome, SessionError, SessionInfo,
    SessionState, MAX_DURATION_NANOS, NANOS_PER_SEC, START_MEMORY_SECS,
};
use crate::text::{lemma_digits_injective, lemma_digits_shape, lower_hex};
use vstd::prelude::*;

verus! {

/// A session serves the address that started it, with its token, until it expires:
/// right after a start at `now`, a request from the same address with the token given
/// is admitted at any moment before `now` plus the lifetime.
pub proof fn law_issued_session_admitted(
    st: SessionState,
    ip: IpAddress,
    now: u128,
    unix_nanos: u128,
    counter: u64,
    plan: TestPlan,
    later: u128,
)
    requires
        now <= MAX_DURATION_NANOS,
        create_outcome(st, ip, now, unix_nanos, counter, plan).1 is Ok,
        now <= later,
        later < now + ttl_nanos(plan),
    ensures
        create_outcome(st, ip, now, unix_nanos, counter, plan).1->Ok_0.0 == token_text(unix_nanos, counter),
        admits(create_outcome(st, ip, now, unix_nanos, counter, plan).0, ip, token_text(unix_nanos, counter), later),
        validate_outcome(create_outcome(st, ip, now, unix_nanos, counter, plan).0, ip, token_text(unix_nanos, counter), later).1,
{
    let after = create_outcome(st, ip, now, unix_nanos, counter, plan).0;
    let token = token_text(unix_nanos, counter);
    assert(ttl_nanos(plan) <= 18_446_744_073_709_551_615 * 1_000_000_000);
    assert(after.sessions.contains_key(token));
    assert(after.sessions[token].expires_at == now + ttl_nanos(plan));
    assert(cleaned(after, later).sessions.contains_key(token));
}

/// A session admits requests from no other address than the one that started it.
pub proof fn law_other_address_refused(
    st: SessionState,
    ip: IpAddress,
    now: u128,
    unix_nanos: u128,
    counter: u64,
    plan: TestPlan,
    other: IpAddress,
    later: u128,
)
    requires
        create_outcome(st, ip, now, unix_nanos, counter, plan).1 is Ok,
        other != ip,
    ensures
        !admits(create_outcome(st, ip, now, unix_nanos, counter, plan).0, other, token_text(unix_nanos, counter), later),
{
}

/// A request is refused when its token names no session, or a session that has
/// expired.
pub proof fn law_unknown_or_expired_refused(st: SessionState, ip: IpAddress, token: Seq<char>, now: u128)
    requires
        !st.sessions.contains_key(token) || st.sessions[token].expires_at <= now,
    ensures
        !admits(st, ip, token, now),
        !validate_outcome(st, ip, token, now).1,
{
}

/// After a start, the same address cannot start again until the cooldown has passed
/// (while the start is remembered, which is `START_MEMORY_SECS` whole seconds).
pub proof fn law_cooldown_enforced(
    st: SessionState,
    ip: IpAddress,
    now: u128,
    unix_nanos: u128,
    counter: u64,
    plan: TestPlan,
    later: u128,
    later_unix_nanos: u128,
    later_counter: u64,
)
    requires
        create_outcome(st, ip, now, unix_nanos, counter, plan).1 is Ok,
        now <= later,
        (later - now) < cooldown_nanos(plan),
        (later - now) / (NANOS_PER_SEC as int) < START_MEMORY_SECS,
    ensures
        create_outcome(create_outcome(st, ip, now, unix_nanos, counter, plan).0, ip, later, later_unix_nanos, counter, plan).1
            == Err::<(Seq<char>, u64), SessionError>(SessionError::RateLimited),
{
    let after = create_outcome(st, ip, now, unix_nanos, counter, plan).0;
    assert(after.last_start.contains_key(ip) && after.last_start[ip] == now);
    assert(cleaned(after, later).last_start.contains_key(ip));
}

/// Once the cooldown has passed since an accepted start, the same address is given a
/// new session, as long as it holds fewer sessions than the plan allows.
pub proof fn law_start_after_cooldown_accepted(
    st: SessionState,
    ip: IpAddress,
    now: u128,
    unix_nanos: u128,
    counter: u64,
    plan: TestPlan,
    later: u128,
    later_unix_nanos: u128,
    later_counter: u64,
)
    requires
        create_outcome(st, ip, now, unix_nanos, counter, plan).1 is Ok,
        now <= later,
        later - now >= cooldown_nanos(plan),
        active_sessions(cleaned(create_outcome(st, ip, now, unix_nanos, counter, plan).0, later), ip)
            < plan.max_active_sessions_per_ip,
    ensures
        create_outcome(
            create_outcome(st, ip, now, unix_nanos, counter, plan).0,
            ip,
            later,
            later_unix_nanos,
            later_counter,
            plan,
        ).1 == Ok::<(Seq<char>, u64), SessionError>(
            (token_text(later_unix_nanos, later_counter), plan.session_ttl_seconds),
        ),
{
    let after = create_outcome(st, ip, now, unix_nanos, counter, plan).0;
    assert(after.last_start.contains_key(ip) && after.last_start[ip] == now);
}

/// A start never leaves an address with more active sessions than the plan allows.
pub proof fn law_active_sessions_bounded(
    st: SessionState,
    ip: IpAddress,
    now: u128,
    unix_nanos: u128,
    counter: u64,
    plan: TestPlan,
)
    requires
        finite_state(st),
        create_outcome(st, ip, now, unix_nanos, counter, plan).1 is Ok,
    ensures
        active_sessions(create_outcome(st, ip, now, unix_nanos, counter, plan).0, ip)
            <= plan.max_active_sessions_per_ip,
{
    let s = cleaned(st, now);
    assert(s.sessions.dom().subset_of(st.sessions.dom()));
    vstd::set_lib::lemma_len_subset(s.sessions.dom(), st.sessions.dom());
    let token = token_text(unix_nanos, counter);
    let info = SessionInfo { ip, expires_at: (now + ttl_nanos(plan)) as u128, last_seen: now };
    lemma_keys_where_insert(s.sessions, token, info, owned_by(ip));
}

/// A start for another address never adds to the sessions of `ip`, beyond replacing
/// what expired.
pub proof fn law_start_keeps_other_counts(
    st: SessionState,
    ip: IpAddress,
    now: u128,
    unix_nanos: u128,
    counter: u64,
    plan: TestPlan,
    other: IpAddress,
)
    requires
        finite_state(st),
        other != ip,
    ensures
        active_sessions(create_outcome(st, ip, now, unix_nanos, counter, plan).0, other)
            <= active_sessions(cleaned(st, now), other),
{
    let s = cleaned(st, now);
    assert(s.sessions.dom().subset_of(st.sessions.dom()));
    vstd::set_lib::lemma_len_subset(s.sessions.dom(), st.sessions.dom());
    let token = token_text(unix_nanos, counter);
    let info = SessionInfo { ip, expires_at: (now + ttl_nanos(plan)) as u128, last_seen: now };
    lemma_keys_where_insert(s.sessions, token, info, owned_by(other));
}

/// A refused start changes nothing but dropping what expired, and uses no token.
pub proof fn law_refusal_changes_nothing(
    st: SessionState,
    ip: IpAddress,
    now: u128,
    unix_nanos: u128,
    counter: u64,
    plan: TestPlan,
)
    requires
        create_outcome(st, ip, now, unix_nanos, counter, plan).1 is Err,
    ensures
        create_outcome(st, ip, now, unix_nanos, counter, plan).0 == cleaned(st, now),
{
}

/// Checking a request neither creates nor ends a session (beyond dropping what
/// expired), and changes no session's owner or expiry.
pub proof fn law_validation_keeps_sessions(st: SessionState, ip: IpAddress, token: Seq<char>, now: u128)
    ensures
        validate_outcome(st, ip, token, now).0.sessions.dom() == cleaned(st, now).sessions.dom(),
        forall|t: Seq<char>|
            #[trigger] cleaned(st, now).sessions.contains_key(t) ==> validate_outcome(
                st,
                ip,
                token,
                now,
            ).0.sessions[t].ip == cleaned(st, now).sessions[t].ip && validate_outcome(
                st,
                ip,
                token,
                now,
            ).0.sessions[t].expires_at == cleaned(st, now).sessions[t].expires_at,
        validate_outcome(st, ip, token, now).0.last_start == cleaned(st, now).last_start,
{
    let s = cleaned(st, now);
    let after = validate_outcome(st, ip, token, now).0;
    assert(after.sessions.dom() =~= s.sessions.dom());
}

/// A token determines the clock reading and the counter it was made with.
pub proof fn law_token_determines_inputs(n1: u128, c1: u64, n2: u128, c2: u64)
    requires
        token_text(n1, c1) == token_text(n2, c2),
    ensures
        n1 == n2,
        c1 == c2,
{
    let a1 = lower_hex(n1 as nat);
    let b1 = lower_hex(c1 as nat);
    let a2 = lower_hex(n2 as nat);
    let b2 = lower_hex(c2 as nat);
    lemma_digits_shape(n1 as nat, 16);
    lemma_digits_shape(c1 as nat, 16);
    lemma_digits_shape(n2 as nat, 16);
    lemma_digits_shape(c2 as nat, 16);
    let t1 = a1 + seq!['-'] + b1;
    let t2 = a2 + seq!['-'] + b2;
    assert(t1[a1.len() as int] == '-');
    assert(t2[a2.len() as int] == '-');
    if a1.len() < a2.len() {
        assert(t2[a1.len() as int] == a2[a1.len() as int]);
        assert(false);
    } else if a2.len() < a1.len() {
        assert(t1[a2.len() as int] == a1[a2.len() as int]);
        assert(false);
    }
    assert(a1 =~= t1.subrange(0, a1.len() as int));
    assert(a2 =~= t2.subrange(0, a2.len() as int));
    assert(b1 =~= t1.subrange(a1.len() + 1int, t1.len() as int));
    assert(b2 =~= t2.subrange(a2.len() + 1int, t2.len() as int));
    lemma_digits_injective(n1 as nat, n2 as nat, 16);
    lemma_digits_injective(c1 as nat, c2 as nat, 16);
}

/// The two stores hold the same sessions of `ip` and the same start of `ip`; what
/// they hold for other addresses may differ in any way.
pub open spec fn same_records_of(st1: SessionState, st2: SessionState, ip: IpAddress) -> bool {
    &&& forall|t: Seq<char>|
        (#[trigger] st1.sessions.contains_key(t) && st1.sessions[t].ip == ip) <==> (
        #[trigger] st2.sessions.contains_key(t) && st2.sessions[t].ip == ip)
    &&& forall|t: Seq<char>|
        #[trigger] st1.sessions.contains_key(t) && st1.sessions[t].ip == ip ==> st1.sessions[t]
            == st2.sessions[t]
    &&& st1.last_start.contains_key(ip) == st2.last_start.contains_key(ip)
    &&& st1.last_start.contains_key(ip) ==> st1.last_start[ip] == st2.last_start[ip]
}

/// The kind of a start's answer: the lifetime given, or why it was refused.
pub open spec fn answer_kind(r: Result<(Seq<char>, u64), SessionError>) -> Result<u64, SessionError> {
    match r {
        Ok((token, ttl)) => Ok(ttl),
        Err(e) => Err(e),
    }
}

/// One address's sessions and starts never rate-limit, count against, or admit
/// requests of another: two stores that agree on `ip`'s records answer `ip` alike.
pub proof fn law_other_addresses_irrelevant(
    st1: SessionState,
    st2: SessionState,
    ip: IpAddress,
    now: u128,
    unix_nanos1: u128,
    unix_nanos2: u128,
    counter1: u64,
    counter2: u64,
    plan: TestPlan,
    token: Seq<char>,
)
    requires
        same_records_of(st1, st2, ip),
    ensures
        answer_kind(create_outcome(st1, ip, now, unix_nanos1, counter1, plan).1) == answer_kind(
            create_outcome(st2, ip, now, unix_nanos2, counter2, plan).1,
        ),
        admits(st1, ip, token, now) == admits(st2, ip, token, now),
{
    let c1 = cleaned(st1, now);
    let c2 = cleaned(st2, now);
    let k1 = keys_where(c1.sessions, owned_by(ip));
    let k2 = keys_where(c2.sessions, owned_by(ip));
    assert forall|t: Seq<char>| k1.contains(t) <==> k2.contains(t) by {
        if st1.sessions.contains_key(t) && st1.sessions[t].ip == ip {
            assert(st2.sessions.contains_key(t));
        }
        if st2.sessions.contains_key(t) && st2.sessions[t].ip == ip {
            assert(st1.sessions.contains_key(t));
        }
    }
    assert(k1 =~= k2);
    assert(c1.last_start.contains_key(ip) == c2.last_start.contains_key(ip));
    if admits(st1, ip, token, now) {
        assert(st2.sessions.contains_key(token));
    }
    if admits(st2, ip, token, now) {
        assert(st1.sessions.contains_key(token));
    }
}

/// A refused start leaves the address's last start as it was (or forgotten): a refusal
/// never restarts the cooldown.
pub proof fn law_refusal_keeps_last_start(
    st: SessionState,
    ip: IpAddress,
    now: u128,
    unix_nanos: u128,
    counter: u64,
    plan: TestPlan,
)
    requires
        create_outcome(st, ip, now, unix_nanos, counter, plan).1 is Err,
    ensures
        create_outcome(st, ip, now, unix_nanos, counter, plan).0.last_start.contains_key(ip) ==> (
        st.last_start.contains_key(ip) && create_outcome(st, ip, now, unix_nanos, counter, plan).0.last_start[ip]
            == st.last_start[ip]),
{
}

/// After a refused start, a start of the same address is given once the cooldown
/// since its last accepted start has passed, while it holds fewer sessions than allowed.
pub proof fn law_refusal_does_not_extend_cooldown(
    st: SessionState,
    ip: IpAddress,
    now: u128,
    unix_nanos: u128,
    counter: u64,
    plan: TestPlan,
    later: u128,
    later_unix_nanos: u128,
    later_counter: u64,
)
    requires
        create_outcome(st, ip, now, unix_nanos, counter, plan).1 is Err,
        st.last_start.contains_key(ip) ==> elapsed_nanos(st.last_start[ip], later) >= cooldown_nanos(
            plan,
        ),
        active_sessions(cleaned(create_outcome(st, ip, now, unix_nanos, counter, plan).0, later), ip)
            < plan.max_active_sessions_per_ip,
    ensures
        create_outcome(create_outcome(st, ip, now, unix_nanos, counter, plan).0, ip, later, later_unix_nanos, counter, plan).1 is Ok,
{
    law_refusal_keeps_last_start(st, ip, now, unix_nanos, counter, plan);
}

/// Cleaning at one moment and again at a later one is cleaning at the later one.
pub proof fn lemma_cleaned_twice(st: SessionState, now: u128, later: u128)
    requires
        now <= later,
    ensures
        cleaned(cleaned(st, now), later) == cleaned(st, later),
{
    let a = cleaned(cleaned(st, now), later);
    let b = cleaned(st, later);
    assert(a.sessions =~= b.sessions);
    assert forall|ip: IpAddress| #[trigger] b.last_start.contains_key(ip) implies a.last_start.contains_key(ip) by {
        let then = st.last_start[ip];
        assert(elapsed_nanos(then, now) <= elapsed_nanos(then, later));
        vstd::arithmetic::div_mod::lemma_div_is_ordered(
            elapsed_nanos(then, now) as int,
            elapsed_nanos(then, later) as int,
            NANOS_PER_SEC as int,
        );
    }
    assert(a.last_start =~= b.last_start);
}

/// Checking a request is invisible to later starts: any start at the same moment or
/// after is answered as if the check had not been made.
pub proof fn law_validation_invisible_to_starts(
    st: SessionState,
    ip: IpAddress,
    token: Seq<char>,
    now: u128,
    other: IpAddress,
    later: u128,
    unix_nanos: u128,
    counter: u64,
    plan: TestPlan,
)
    requires
        now <= later,
    ensures
        create_outcome(validate_outcome(st, ip, token, now).0, other, later, unix_nanos, counter, plan).1
            == create_outcome(st, other, later, unix_nanos, counter, plan).1,
        create_outcome(validate_outcome(st, ip, token, now).0, other, later, unix_nanos, counter, plan).0.last_start
            == create_outcome(st, other, later, unix_nanos, counter, plan).0.last_start,
{
    let v = validate_outcome(st, ip, token, now).0;
    lemma_cleaned_twice(st, now, later);
    let a = cleaned(v, later);
    let b = cleaned(st, later);
    assert(a.last_start == b.last_start);
    assert(a.sessions.dom() =~= b.sessions.dom());
    let ka = keys_where(a.sessions, owned_by(other));
    let kb = keys_where(b.sessions, owned_by(other));
    assert forall|t: Seq<char>| ka.contains(t) <==> kb.contains(t) by {
        if a.sessions.contains_key(t) {
            assert(a.sessions[t].ip == b.sessions[t].ip);
        }
    }
    assert(ka =~= kb);
}

/// The store a new manager begins with.
pub open spec fn empty_store() -> SessionState {
    SessionState { sessions: Map::empty(), last_start: Map::empty(), clock: 0 }
}

/// No address holds more than `limit` sessions.
pub open spec fn sessions_bounded(st: SessionState, limit: nat) -> bool {
    forall|ip: IpAddress| #[trigger] active_sessions(st, ip) <= limit
}

/// Dropping what expired keeps the store finite and never adds to an address's count.
proof fn lemma_cleaned_counts(st: SessionState, now: u128, ip: IpAddress)
    requires
        finite_state(st),
    ensures
        finite_state(cleaned(st, now)),
        active_sessions(cleaned(st, now), ip) <= active_sessions(st, ip),
{
    let c = cleaned(st, now);
    assert(c.sessions.dom().subset_of(st.sessions.dom()));
    assert(c.last_start.dom().subset_of(st.last_start.dom()));
    vstd::set_lib::lemma_len_subset(c.sessions.dom(), st.sessions.dom());
    vstd::set_lib::lemma_len_subset(c.last_start.dom(), st.last_start.dom());
    let kc = keys_where(c.sessions, owned_by(ip));
    let ks = keys_where(st.sessions, owned_by(ip));
    st.sessions.dom().lemma_len_filter(|k: Seq<char>| owned_by(ip)(st.sessions[k]));
    assert(kc.subset_of(ks));
    vstd::set_lib::lemma_len_subset(kc, ks);
}

/// A start under a plan that allows `limit` sessions per address keeps every address
/// within `limit`, and the store finite.
pub proof fn law_start_keeps_bound(
    st: SessionState,
    ip: IpAddress,
    now: u128,
    unix_nanos: u128,
    counter: u64,
    plan: TestPlan,
    limit: nat,
)
    requires
        finite_state(st),
        sessions_bounded(st, limit),
        plan.max_active_sessions_per_ip == limit,
    ensures
        finite_state(create_outcome(st, ip, now, unix_nanos, counter, plan).0),
        sessions_bounded(create_outcome(st, ip, now, unix_nanos, counter, plan).0, limit),
{
    let next = create_outcome(st, ip, now, unix_nanos, counter, plan).0;
    let c = cleaned(st, now);
    lemma_cleaned_counts(st, now, ip);
    assert forall|x: IpAddress| #[trigger] active_sessions(next, x) <= limit by {
        lemma_cleaned_counts(st, now, x);
        assert(active_sessions(st, x) <= limit);
        if create_outcome(st, ip, now, unix_nanos, counter, plan).1 is Ok {
            lemma_keys_where_insert(
                c.sessions,
                token_text(unix_nanos, counter),
                new_session(ip, now, plan),
                owned_by(x),
            );
        }
    }
}

/// A check keeps every address within any bound it was within, and the store finite.
pub proof fn law_check_keeps_bound(st: SessionState, ip: IpAddress, token: Seq<char>, now: u128, limit: nat)
    requires
        finite_state(st),
        sessions_bounded(st, limit),
    ensures
        finite_state(validate_outcome(st, ip, token, now).0),
        sessions_bounded(validate_outcome(st, ip, token, now).0, limit),
{
    let next = validate_outcome(st, ip, token, now).0;
    let c = cleaned(st, now);
    lemma_cleaned_counts(st, now, ip);
    assert(next.sessions.dom() =~= c.sessions.dom());
    assert forall|x: IpAddress| #[trigger] active_sessions(next, x) <= limit by {
        lemma_cleaned_counts(st, now, x);
        assert(active_sessions(st, x) <= limit);
        let kn = keys_where(next.sessions, owned_by(x));
        let kc = keys_where(c.sessions, owned_by(x));
        assert forall|t: Seq<char>| kn.contains(t) <==> kc.contains(t) by {
            if c.sessions.contains_key(t) {
                assert(next.sessions[t].ip == c.sessions[t].ip);
            }
        }
        assert(kn =~= kc);
    }
}

/// A call of the program on one of its session stores (numbered), with the clock
/// readings it was made at.
pub ghost enum SessionCall {
    /// A start for `ip` under `plan`.
    Start { store: int, ip: IpAddress, now: u128, unix_nanos: u128, plan: TestPlan },
    /// A check of a request from `ip` with `token`.
    Check { store: int, ip: IpAddress, token: Seq<char>, now: u128 },
}

/// The session stores of a program, and the one token counter they share.
pub ghost struct ProgramState {
    pub stores: Map<int, SessionState>,
    pub counter: u64,
}

/// A program before any call: every store empty, the counter at 1.
pub open spec fn program_start() -> ProgramState {
    ProgramState { stores: Map::empty(), counter: 1 }
}

/// Store `id` of the program (empty until first used).
pub open spec fn store_of(p: ProgramState, id: int) -> SessionState {
    if p.stores.contains_key(id) {
        p.stores[id]
    } else {
        empty_store()
    }
}

/// The program after one call.
pub open spec fn after_call(p: ProgramState, call: SessionCall) -> ProgramState {
    match call {
        SessionCall::Start { store, ip, now, unix_nanos, plan } => {
            let (st, answer) = create_outcome(store_of(p, store), ip, now, unix_nanos, p.counter, plan);
            ProgramState { stores: p.stores.insert(store, st), counter: counter_after(p.counter, answer) }
        },
        SessionCall::Check { store, ip, token, now } => ProgramState {
            stores: p.stores.insert(store, validate_outcome(store_of(p, store), ip, token, now).0),
            counter: p.counter,
        },
    }
}

/// The program after a sequence of calls, in order.
pub open spec fn after_calls(calls: Seq<SessionCall>) -> ProgramState
    decreases calls.len(),
{
    if calls.len() == 0 {
        program_start()
    } else {
        after_call(after_calls(calls.drop_last()), calls.last())
    }
}

/// The tokens the program hands out over a sequence of calls, in order, whatever
/// store each comes from.
pub open spec fn issued_tokens(calls: Seq<SessionCall>) -> Seq<Seq<char>>
    decreases calls.len(),
{
    if calls.len() == 0 {
        Seq::empty()
    } else {
        let before = after_calls(calls.drop_last());
        let earlier = issued_tokens(calls.drop_last());
        match calls.last() {
            SessionCall::Start { store, ip, now, unix_nanos, plan } => match create_outcome(
                store_of(before, store),
                ip,
                now,
                unix_nanos,
                before.counter,
                plan,
            ).1 {
                Ok((token, ttl)) => earlier.push(token),
                Err(e) => earlier,
            },
            SessionCall::Check { .. } => earlier,
        }
    }
}

/// Every start of the sequence allows at most `limit` sessions per address.
pub open spec fn starts_allow(calls: Seq<SessionCall>, limit: nat) -> bool {
    forall|i: int|
        0 <= i < calls.len() ==> match #[trigger] calls[i] {
            SessionCall::Start { plan, .. } => plan.max_active_sessions_per_ip == limit,
            SessionCall::Check { .. } => true,
        }
}

/// Every store of the program is finite and within `limit` sessions per address.
pub open spec fn all_bounded(p: ProgramState, limit: nat) -> bool {
    forall|id: int|
        #![trigger store_of(p, id)]
        finite_state(store_of(p, id)) && sessions_bounded(store_of(p, id), limit)
}

/// Whatever starts and checks a program's stores go through, no address ever holds
/// more sessions in a store than the starts allow.
pub proof fn law_active_bound_invariant(calls: Seq<SessionCall>, limit: nat)
    requires
        starts_allow(calls, limit),
    ensures
        all_bounded(after_calls(calls), limit),
    decreases calls.len(),
{
    if calls.len() == 0 {
        let st = empty_store();
        assert forall|x: IpAddress| #[trigger] active_sessions(st, x) <= limit by {
            assert(keys_where(st.sessions, owned_by(x)) =~= Set::empty());
        }
        assert forall|id: int| #![trigger store_of(program_start(), id)]
            finite_state(store_of(program_start(), id)) && sessions_bounded(store_of(program_start(), id), limit) by {
            assert(store_of(program_start(), id) == st);
        }
    } else {
        let prefix = calls.drop_last();
        assert(starts_allow(prefix, limit)) by {
            assert forall|i: int| 0 <= i < prefix.len() implies match #[trigger] prefix[i] {
                SessionCall::Start { plan, .. } => plan.max_active_sessions_per_ip == limit,
                SessionCall::Check { .. } => true,
            } by {
                assert(prefix[i] == calls[i]);
            }
        }
        law_active_bound_invariant(prefix, limit);
        let p = after_calls(prefix);
        let call = calls.last();
        assert(call == calls[calls.len() - 1]);
        let q = after_calls(calls);
        match call {
            SessionCall::Start { store, ip, now, unix_nanos, plan } => {
                assert(finite_state(store_of(p, store)) && sessions_bounded(store_of(p, store), limit));
                law_start_keeps_bound(store_of(p, store), ip, now, unix_nanos, p.counter, plan, limit);
                assert forall|id: int| #![trigger store_of(q, id)]
                    finite_state(store_of(q, id)) && sessions_bounded(store_of(q, id), limit) by {
                    if id != store {
                        assert(store_of(q, id) == store_of(p, id));
                    }
                }
            },
            SessionCall::Check { store, ip, token, now } => {
                assert(finite_state(store_of(p, store)) && sessions_bounded(store_of(p, store), limit));
                law_check_keeps_bound(store_of(p, store), ip, token, now, limit);
                assert forall|id: int| #![trigger store_of(q, id)]
                    finite_state(store_of(q, id)) && sessions_bounded(store_of(q, id), limit) by {
                    if id != store {
                        assert(store_of(q, id) == store_of(p, id));
                    }
                }
            },
        }
    }
}

/// The number of counter values, 2 to the 64th.
pub open spec fn counter_span() -> int {
    18446744073709551616
}

/// The counter of the `i`-th token the program hands out (from 0): it starts at 1 and
/// wraps around.
pub open spec fn counter_of(i: int) -> u64 {
    ((1 + i) % counter_span()) as u64
}

/// Counters of tokens handed out fewer than 2 to the 64th apart differ.
proof fn lemma_counters_distinct(i: int, j: int)
    requires
        0 <= i < j < counter_span(),
    ensures
        counter_of(i) != counter_of(j),
{
    vstd::arithmetic::div_mod::lemma_small_mod((1 + i) as nat, counter_span() as nat);
    if 1 + j < counter_span() {
        vstd::arithmetic::div_mod::lemma_small_mod((1 + j) as nat, counter_span() as nat);
    } else {
        vstd::arithmetic::div_mod::lemma_mod_self_0(counter_span());
    }
}

/// After one more token, the counter is that of the next token.
proof fn lemma_next_counter(l: int)
    requires
        0 <= l,
    ensures
        next_counter(counter_of(l)) == counter_of(l + 1),
{
    let m = counter_span();
    vstd::arithmetic::div_mod::lemma_add_mod_noop(1 + l, 1, m);
    vstd::arithmetic::div_mod::lemma_small_mod(1, m as nat);
    let c = (1 + l) % m;
    if c + 1 < m {
        vstd::arithmetic::div_mod::lemma_small_mod((c + 1) as nat, m as nat);
    } else {
        vstd::arithmetic::div_mod::lemma_mod_self_0(m);
    }
}

/// The `i`-th token of the list carries counter `counter_of(i)`.
pub open spec fn tokens_carry_counters(tokens: Seq<Seq<char>>) -> bool {
    forall|i: int| 0 <= i < tokens.len() ==> #[trigger] carries_counter(tokens[i], i)
}

/// The token was made with counter `counter_of(i)`.
pub open spec fn carries_counter(token: Seq<char>, i: int) -> bool {
    exists|n: u128| #[trigger] token_text(n, counter_of(i)) == token
}

/// Every session a program holds, in any store, is under a token it handed out.
pub open spec fn sessions_issued(p: ProgramState, tokens: Seq<Seq<char>>) -> bool {
    forall|id: int, t: Seq<char>|
        #[trigger] store_of(p, id).sessions.contains_key(t) ==> tokens.contains(t)
}

/// What a program keeps through any calls: its counter is that of the next token,
/// the `i`-th token handed out carries counter `counter_of(i)`, and every session it
/// holds, in any store, is under a token it handed out.
pub proof fn lemma_issue_invariant(calls: Seq<SessionCall>)
    ensures
        after_calls(calls).counter == counter_of(issued_tokens(calls).len() as int),
        tokens_carry_counters(issued_tokens(calls)),
        sessions_issued(after_calls(calls), issued_tokens(calls)),
    decreases calls.len(),
{
    if calls.len() == 0 {
        assert(counter_of(0) == 1) by {
            vstd::arithmetic::div_mod::lemma_small_mod(1, counter_span() as nat);
        }
        assert(issued_tokens(calls).len() == 0);
        assert forall|id: int, t: Seq<char>| #[trigger] store_of(program_start(), id).sessions.contains_key(t) implies issued_tokens(calls).contains(t) by {
            assert(store_of(program_start(), id) == empty_store());
        }
    } else {
        let prefix = calls.drop_last();
        lemma_issue_invariant(prefix);
        let p = after_calls(prefix);
        let i0 = issued_tokens(prefix);
        let q = after_calls(calls);
        let iss = issued_tokens(calls);
        match calls.last() {
            SessionCall::Start { store, ip, now, unix_nanos, plan } => {
                let s0 = store_of(p, store);
                if create_outcome(s0, ip, now, unix_nanos, p.counter, plan).1 is Ok {
                    let tok = token_text(unix_nanos, p.counter);
                    assert(iss == i0.push(tok));
                    lemma_next_counter(i0.len() as int);
                    assert forall|i: int| 0 <= i < iss.len() implies #[trigger] carries_counter(iss[i], i) by {
                        if i < i0.len() {
                            assert(carries_counter(i0[i], i));
                            assert(iss[i] == i0[i]);
                        } else {
                            assert(iss[i] == token_text(unix_nanos, counter_of(i)));
                        }
                    }
                    assert forall|id: int, t: Seq<char>| #[trigger] store_of(q, id).sessions.contains_key(t) implies iss.contains(t) by {
                        if id == store && t == tok {
                            assert(iss[iss.len() - 1] == t);
                        } else {
                            assert(store_of(p, id).sessions.contains_key(t));
                            let k = choose|k: int| 0 <= k < i0.len() && i0[k] == t;
                            assert(iss[k] == t);
                        }
                    }
                } else {
                    assert(iss == i0);
                    assert forall|id: int, t: Seq<char>| #[trigger] store_of(q, id).sessions.contains_key(t) implies iss.contains(t) by {
                        assert(store_of(p, id).sessions.contains_key(t));
                    }
                }
            },
            SessionCall::Check { store, ip, token, now } => {
                assert(iss == i0);
                assert forall|id: int, t: Seq<char>| #[trigger] store_of(q, id).sessions.contains_key(t) implies iss.contains(t) by {
                    if id == store {
                        assert(cleaned(store_of(p, id), now).sessions.contains_key(t));
                    }
                    assert(store_of(p, id).sessions.contains_key(t));
                }
            },
        }
    }
}

/// Every token a program hands out differs from every other, whichever stores they
/// come from, as long as it hands out no more than 2 to the 64th (the counter has
/// that many values).
pub proof fn law_tokens_distinct(calls: Seq<SessionCall>)
    requires
        issued_tokens(calls).len() <= counter_span(),
    ensures
        forall|i: int, j: int|
            0 <= i < j < issued_tokens(calls).len() ==> #[trigger] issued_tokens(calls)[i]
                != #[trigger] issued_tokens(calls)[j],
{
    lemma_issue_invariant(calls);
    let iss = issued_tokens(calls);
    assert forall|i: int, j: int| 0 <= i < j < iss.len() implies #[trigger] iss[i] != #[trigger] iss[j] by {
        assert(carries_counter(iss[i], i));
        assert(carries_counter(iss[j], j));
        let ni = choose|n: u128| #[trigger] token_text(n, counter_of(i)) == iss[i];
        let nj = choose|n: u128| #[trigger] token_text(n, counter_of(j)) == iss[j];
        if iss[i] == iss[j] {
            law_token_determines_inputs(ni, counter_of(i), nj, counter_of(j));
            lemma_counters_distinct(i, j);
        }
    }
}

/// A token the program hands out never names a session any of its stores already
/// holds: a start never overwrites a session (while fewer than 2 to the 64th tokens
/// were handed out).
pub proof fn law_new_token_is_fresh(calls: Seq<SessionCall>, id: int, unix_nanos: u128)
    requires
        issued_tokens(calls).len() < counter_span(),
    ensures
        !store_of(after_calls(calls), id).sessions.contains_key(
            token_text(unix_nanos, after_calls(calls).counter),
        ),
{
    lemma_issue_invariant(calls);
    let p = after_calls(calls);
    let iss = issued_tokens(calls);
    let tok = token_text(unix_nanos, p.counter);
    if store_of(p, id).sessions.contains_key(tok) {
        let k = choose|k: int| 0 <= k < iss.len() && iss[k] == tok;
        assert(carries_counter(iss[k], k));
        let nk = choose|n: u128| #[trigger] token_text(n, counter_of(k)) == iss[k];
        law_token_determines_inputs(nk, counter_of(k), unix_nanos, counter_of(iss.len() as int));
        lemma_counters_distinct(k, iss.len() as int);
    }
}

/// The store keeps track of a session: if it holds `token`, the session is `ip`'s
/// and expires at `expiry`; and it holds it while its clock is before `expiry`.
pub open spec fn tracks(st: SessionState, token: Seq<char>, ip: IpAddress, expiry: u128) -> bool {
    &&& st.sessions.contains_key(token) ==> st.sessions[token].ip == ip
        && st.sessions[token].expires_at == expiry
    &&& st.clock < expiry ==> st.sessions.contains_key(token)
}

/// Right after a start at `now` (the store's clock then reads `now`), the store
/// tracks the new session, which expires at `now` plus the lifetime.
pub proof fn law_start_tracks_session(
    st: SessionState,
    ip: IpAddress,
    now: u128,
    unix_nanos: u128,
    counter: u64,
    plan: TestPlan,
)
    requires
        now <= MAX_DURATION_NANOS,
        create_outcome(st, ip, now, unix_nanos, counter, plan).1 is Ok,
    ensures
        create_outcome(st, ip, now, unix_nanos, counter, plan).0.clock == now,
        tracks(
            create_outcome(st, ip, now, unix_nanos, counter, plan).0,
            token_text(unix_nanos, counter),
            ip,
            (now + ttl_nanos(plan)) as u128,
        ),
        (now + ttl_nanos(plan)) as u128 == now + ttl_nanos(plan),
{
    assert(ttl_nanos(plan) <= 18_446_744_073_709_551_615 * 1_000_000_000);
}

/// A check made no earlier than the store's clock keeps a session tracked: checks
/// never extend or move a session.
pub proof fn law_check_keeps_tracking(
    st: SessionState,
    token: Seq<char>,
    ip: IpAddress,
    expiry: u128,
    who: IpAddress,
    presented: Seq<char>,
    now: u128,
)
    requires
        tracks(st, token, ip, expiry),
        st.clock <= now,
    ensures
        tracks(validate_outcome(st, who, presented, now).0, token, ip, expiry),
        validate_outcome(st, who, presented, now).0.clock == now,
{
}

/// While a store tracks a session, a request from its address with its token, made
/// no earlier than the store's clock, is admitted exactly when made before the
/// session expires.
pub proof fn law_tracked_session_answer(
    st: SessionState,
    token: Seq<char>,
    ip: IpAddress,
    expiry: u128,
    now: u128,
)
    requires
        tracks(st, token, ip, expiry),
        st.clock <= now,
    ensures
        admits(st, ip, token, now) <==> now < expiry,
        validate_outcome(st, ip, token, now).1 <==> now < expiry,
{
}

/// Checks made at readings that never go backwards, from the store's clock on.
pub open spec fn checks_from(clock: u128, checks: Seq<(IpAddress, Seq<char>, u128)>) -> bool {
    forall|i: int|
        0 <= i < checks.len() ==> clock <= #[trigger] checks[i].2 && (i > 0 ==> checks[i - 1].2
            <= checks[i].2)
}

/// The store after a sequence of checks (address, token, reading), in order.
pub open spec fn after_checks(st: SessionState, checks: Seq<(IpAddress, Seq<char>, u128)>) -> SessionState
    decreases checks.len(),
{
    if checks.len() == 0 {
        st
    } else {
        validate_outcome(after_checks(st, checks.drop_last()), checks.last().0, checks.last().1, checks.last().2).0
    }
}

/// Through checks at readings that never go backwards, a tracked session stays
/// tracked, and the store's clock is the last reading.
proof fn lemma_checks_keep_tracking(
    st: SessionState,
    token: Seq<char>,
    ip: IpAddress,
    expiry: u128,
    checks: Seq<(IpAddress, Seq<char>, u128)>,
)
    requires
        tracks(st, token, ip, expiry),
        checks_from(st.clock, checks),
    ensures
        tracks(after_checks(st, checks), token, ip, expiry),
        checks.len() > 0 ==> after_checks(st, checks).clock == checks.last().2,
        checks.len() == 0 ==> after_checks(st, checks).clock == st.clock,
    decreases checks.len(),
{
    if checks.len() > 0 {
        let prefix = checks.drop_last();
        assert(checks_from(st.clock, prefix)) by {
            assert forall|i: int| 0 <= i < prefix.len() implies st.clock <= #[trigger] prefix[i].2 && (i > 0 ==> prefix[i - 1].2 <= prefix[i].2) by {
                assert(prefix[i] == checks[i]);
                if i > 0 {
                    assert(prefix[i - 1] == checks[i - 1]);
                }
            }
        }
        lemma_checks_keep_tracking(st, token, ip, expiry, prefix);
        let last = checks.last();
        assert(last == checks[checks.len() - 1]);
        if prefix.len() > 0 {
            assert(prefix.last() == checks[checks.len() - 2]);
        }
        law_check_keeps_tracking(after_checks(st, prefix), token, ip, expiry, last.0, last.1, last.2);
    }
}

/// Checks never extend a session: after a start at `now`, and any checks made at
/// readings that never go backwards, a request with the token from the same address,
/// made no earlier than the last reading, is admitted exactly when it comes before
/// `now` plus the lifetime.
pub proof fn law_session_lifetime(
    st: SessionState,
    ip: IpAddress,
    now: u128,
    unix_nanos: u128,
    counter: u64,
    plan: TestPlan,
    checks: Seq<(IpAddress, Seq<char>, u128)>,
    t: u128,
)
    requires
        now <= MAX_DURATION_NANOS,
        create_outcome(st, ip, now, unix_nanos, counter, plan).1 is Ok,
        checks_from(now, checks),
        after_checks(create_outcome(st, ip, now, unix_nanos, counter, plan).0, checks).clock <= t,
    ensures
        admits(
            after_checks(create_outcome(st, ip, now, unix_nanos, counter, plan).0, checks),
            ip,
            token_text(unix_nanos, counter),
            t,
        ) <==> t < now + ttl_nanos(plan),
{
    let started = create_outcome(st, ip, now, unix_nanos, counter, plan).0;
    law_start_tracks_session(st, ip, now, unix_nanos, counter, plan);
    let expiry = (now + ttl_nanos(plan)) as u128;
    lemma_checks_keep_tracking(started, token_text(unix_nanos, counter), ip, expiry, checks);
    law_tracked_session_answer(
        after_checks(started, checks),
        token_text(unix_nanos, counter),
        ip,
        expiry,
        t,
    );
}

} // verus!
