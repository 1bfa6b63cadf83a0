//! What the HTTP API answers: its replies, its errors, the session checks in front
//! of the measurement endpoints, and how a download is sized and cut into chunks.

use crate::config::{mode_name_of, url_of, RuntimeConfig, TestPlan};
use crate::net::IpAddress;
use crate::session::{
    counter_after, create_outcome, validate_outcome, SessionError, SessionManager, TokenCounter,
    MAX_DURATION_NANOS,
};
use vstd::prelude::*;

verus! {

/// HTTP 401 Unauthorized.
pub const STATUS_UNAUTHORIZED: u16 = 401;

/// HTTP 429 Too Many Requests.
pub const STATUS_TOO_MANY_REQUESTS: u16 = 429;

/// The largest download the API sends: 8 MiB.
pub const MAX_DOWNLOAD_SIZE: usize = 8388608;

/// The smallest download the API sends: 64 KiB.
pub const MIN_DOWNLOAD_SIZE: usize = 65536;

/// The smallest chunk a download is sent in: 1 KiB.
pub const MIN_CHUNK_SIZE: usize = 1024;

/// The body of an error reply.
#[derive(Clone, Debug)]
pub struct ErrorResponse {
    pub error: String,
}

/// An error reply: its HTTP status and its message.
#[derive(Clone, Debug)]
pub struct ApiError {
    pub status: u16,
    pub message: String,
}

impl ApiError {
    /// An error with the given status and message.
    pub fn new(status: u16, message: String) -> (err: ApiError)
        ensures
            err.status == status,
            err.message@ == message@,
    {
        ApiError { status, message }
    }

    /// The body sent for this error.
    pub fn body(&self) -> (body: ErrorResponse)
        ensures
            body.error@ == self.message@,
    {
        ErrorResponse { error: self.message.clone() }
    }
}

/// Refusal of a start: the address starts sessions too often.
pub open spec fn rate_limited_message() -> Seq<char> {
    "同一公网 IP 的测速启动过于频繁，请稍后再试。"@
}

/// Refusal of a start: the address holds too many sessions.
pub open spec fn too_many_active_message() -> Seq<char> {
    "当前公网 IP 的活动测速会话过多，请稍后再试。"@
}

/// The session named is not valid.
pub open spec fn invalid_session_message() -> Seq<char> {
    "测速会话无效。"@
}

/// A measurement request came without a session token.
pub open spec fn missing_token_message() -> Seq<char> {
    "缺少测速会话令牌。"@
}

/// A measurement request came with a token of no live session of its address.
pub open spec fn expired_token_message() -> Seq<char> {
    "测速会话已过期或无效。"@
}

/// The status and message that answer a refused start.
pub open spec fn refusal_of(err: SessionError) -> (u16, Seq<char>) {
    match err {
        SessionError::RateLimited => (STATUS_TOO_MANY_REQUESTS, rate_limited_message()),
        SessionError::TooManyActive => (STATUS_TOO_MANY_REQUESTS, too_many_active_message()),
        SessionError::Invalid => (STATUS_UNAUTHORIZED, invalid_session_message()),
    }
}

/// The reply to a refused start: 429 when the address starts too often or holds too
/// many sessions, 401 for an invalid session.
pub fn session_error_response(err: SessionError) -> (reply: ApiError)
    ensures
        (reply.status, reply.message@) == refusal_of(err),
{
    match err {
        SessionError::RateLimited => ApiError::new(
            STATUS_TOO_MANY_REQUESTS,
            String::from_str("同一公网 IP 的测速启动过于频繁，请稍后再试。"),
        ),
        SessionError::TooManyActive => ApiError::new(
            STATUS_TOO_MANY_REQUESTS,
            String::from_str("当前公网 IP 的活动测速会话过多，请稍后再试。"),
        ),
        SessionError::Invalid => ApiError::new(
            STATUS_UNAUTHORIZED,
            String::from_str("测速会话无效。"),
        ),
    }
}

/// The body of a started session.
#[derive(Clone, Debug)]
pub struct SessionStartResponse {
    pub token: String,
    pub expires_in_seconds: u64,
}

/// `POST /api/session`: starts a session for the caller's address, with a token from
/// the program's counter. The store and the counter move as `create_outcome` says for
/// a reading of the monotonic clock no earlier than the store's clock; a start given
/// is returned as is, a refusal as its error reply.
pub fn start_session(
    sessions: &mut SessionManager,
    tokens: &mut TokenCounter,
    ip: IpAddress,
    config: &RuntimeConfig,
) -> (reply: Result<SessionStartResponse, ApiError>)
    ensures
        exists|now: u128, unix_nanos: u128|
            {
                &&& old(sessions)@.clock <= now <= MAX_DURATION_NANOS
                &&& final(sessions)@ == create_outcome(
                    old(sessions)@,
                    ip,
                    now,
                    unix_nanos,
                    old(tokens)@,
                    config.plan,
                ).0
                &&& final(tokens)@ == counter_after(
                    old(tokens)@,
                    create_outcome(old(sessions)@, ip, now, unix_nanos, old(tokens)@, config.plan).1,
                )
                &&& match create_outcome(old(sessions)@, ip, now, unix_nanos, old(tokens)@, config.plan).1 {
                    Ok((token, ttl)) => reply matches Ok(r) && r.token@ == token && r.expires_in_seconds
                        == ttl,
                    Err(e) => reply matches Err(r) && (r.status, r.message@) == refusal_of(e),
                }
            },
{
    let result = sessions.create_session(ip, tokens, config);
    match result {
        Ok(session) => Ok(
            SessionStartResponse {
                token: session.token,
                expires_in_seconds: session.expires_in_seconds,
            },
        ),
        Err(e) => Err(session_error_response(e)),
    }
}

/// The check in front of the measurement endpoints: a request without a token is
/// refused with 401 and changes nothing; a request with one is admitted when its
/// session admits it (the store moves as `validate_outcome` says for a reading of the
/// monotonic clock no earlier than the store's clock), else refused with 401.
pub fn validate_session(sessions: &mut SessionManager, ip: IpAddress, token: Option<&str>) -> (verdict:
    Result<(), ApiError>)
    ensures
        match token {
            None => final(sessions)@ == old(sessions)@ && (verdict matches Err(e) && e.status
                == STATUS_UNAUTHORIZED && e.message@ == missing_token_message()),
            Some(t) => exists|now: u128|
                #![trigger validate_outcome(old(sessions)@, ip, t@, now)]
                {
                    &&& old(sessions)@.clock <= now <= MAX_DURATION_NANOS
                    &&& final(sessions)@ == validate_outcome(old(sessions)@, ip, t@, now).0
                    &&& if validate_outcome(old(sessions)@, ip, t@, now).1 {
                        verdict is Ok
                    } else {
                        verdict matches Err(e) && e.status == STATUS_UNAUTHORIZED && e.message@
                            == expired_token_message()
                    }
                },
        },
{
    match token {
        None => Err(ApiError::new(STATUS_UNAUTHORIZED, String::from_str("缺少测速会话令牌。"))),
        Some(t) => {
            if sessions.validate_session(ip, t) {
                Ok(())
            } else {
                Err(ApiError::new(STATUS_UNAUTHORIZED, String::from_str("测速会话已过期或无效。")))
            }
        },
    }
}

/// The size of a download: the size asked for, or else the planned one, held between
/// 64 KiB and 8 MiB.
pub open spec fn download_size_of(requested: Option<usize>, plan: TestPlan) -> usize {
    let wanted = match requested {
        Some(n) => n,
        None => plan.download_request_size,
    };
    let capped = if wanted < MAX_DOWNLOAD_SIZE {
        wanted
    } else {
        MAX_DOWNLOAD_SIZE
    };
    if capped > MIN_DOWNLOAD_SIZE {
        capped
    } else {
        MIN_DOWNLOAD_SIZE
    }
}

/// The size of a download: the size asked for, or else the planned one, held between
/// 64 KiB and 8 MiB.
pub fn download_size(requested: Option<usize>, plan: &TestPlan) -> (size: usize)
    ensures
        size == download_size_of(requested, *plan),
        MIN_DOWNLOAD_SIZE <= size <= MAX_DOWNLOAD_SIZE,
        match requested {
            Some(n) => {
                &&& MIN_DOWNLOAD_SIZE <= n <= MAX_DOWNLOAD_SIZE ==> size == n
                &&& n > MAX_DOWNLOAD_SIZE ==> size == MAX_DOWNLOAD_SIZE
                &&& n < MIN_DOWNLOAD_SIZE ==> size == MIN_DOWNLOAD_SIZE
            },
            None => {
                let n = plan.download_request_size;
                &&& MIN_DOWNLOAD_SIZE <= n <= MAX_DOWNLOAD_SIZE ==> size == n
                &&& n > MAX_DOWNLOAD_SIZE ==> size == MAX_DOWNLOAD_SIZE
                &&& n < MIN_DOWNLOAD_SIZE ==> size == MIN_DOWNLOAD_SIZE
            },
        },
{
    let wanted = match requested {
        Some(n) => n,
        None => plan.download_request_size,
    };
    let capped = if wanted < MAX_DOWNLOAD_SIZE {
        wanted
    } else {
        MAX_DOWNLOAD_SIZE
    };
    if capped > MIN_DOWNLOAD_SIZE {
        capped
    } else {
        MIN_DOWNLOAD_SIZE
    }
}

/// A download is the size asked for (or, when none is asked for, the planned size)
/// whenever that lies between 64 KiB and 8 MiB; a larger one is cut to 8 MiB and a
/// smaller one raised to 64 KiB.
pub proof fn law_download_size_clamps(requested: Option<usize>, plan: TestPlan)
    ensures
        ({
            let n: int = match requested {
                Some(r) => r as int,
                None => plan.download_request_size as int,
            };
            let size = download_size_of(requested, plan) as int;
            &&& MIN_DOWNLOAD_SIZE <= n <= MAX_DOWNLOAD_SIZE ==> size == n
            &&& n > MAX_DOWNLOAD_SIZE ==> size == MAX_DOWNLOAD_SIZE
            &&& n < MIN_DOWNLOAD_SIZE ==> size == MIN_DOWNLOAD_SIZE
        }),
{
}

/// The chunk size of a download: the planned one, at least 1 KiB.
pub fn download_chunk_size(plan: &TestPlan) -> (chunk: usize)
    ensures
        chunk == (if plan.download_chunk_size > MIN_CHUNK_SIZE {
            plan.download_chunk_size
        } else {
            MIN_CHUNK_SIZE
        }),
        chunk >= MIN_CHUNK_SIZE,
{
    if plan.download_chunk_size > MIN_CHUNK_SIZE {
        plan.download_chunk_size
    } else {
        MIN_CHUNK_SIZE
    }
}

/// The sum of a list of lengths.
pub open spec fn total(lengths: Seq<usize>) -> nat
    decreases lengths.len(),
{
    if lengths.len() == 0 {
        0
    } else {
        total(lengths.drop_last()) + lengths.last() as nat
    }
}

/// The lengths of the chunks a download of `size` bytes is sent in: full chunks of
/// `chunk` bytes, then what remains.
pub open spec fn chunk_lengths(size: nat, chunk: nat) -> Seq<usize>
    recommends
        chunk > 0,
    decreases size,
{
    if size == 0 || chunk == 0 {
        Seq::empty()
    } else if size <= chunk {
        seq![size as usize]
    } else {
        seq![chunk as usize] + chunk_lengths((size - chunk) as nat, chunk)
    }
}

/// The lengths of the chunks a download of `size` bytes is sent in, in order: as many
/// bytes as remain, at most `chunk` at a time.
pub fn download_chunk_lengths(size: usize, chunk: usize) -> (lengths: Vec<usize>)
    requires
        chunk > 0,
    ensures
        lengths@ == chunk_lengths(size as nat, chunk as nat),
{
    let mut lengths: Vec<usize> = Vec::new();
    let mut sent: usize = 0;
    while sent < size
        invariant
            chunk > 0,
            sent <= size,
            lengths@ + chunk_lengths((size - sent) as nat, chunk as nat) == chunk_lengths(
                size as nat,
                chunk as nat,
            ),
        decreases size - sent,
    {
        let remaining = size - sent;
        let current = if remaining < chunk {
            remaining
        } else {
            chunk
        };
        let ghost before = lengths@;
        lengths.push(current);
        sent = sent + current;
        proof {
            let rest = chunk_lengths((size - sent) as nat, chunk as nat);
            assert(chunk_lengths(remaining as nat, chunk as nat) =~= seq![current] + rest);
            assert(lengths@ + rest =~= before + (seq![current] + rest));
        }
    }
    assert(lengths@ + chunk_lengths(0, chunk as nat) =~= lengths@);
    lengths
}

/// The chunks cover the download exactly, none empty and none longer than `chunk`.
pub proof fn law_chunks_cover_download(size: nat, chunk: nat)
    requires
        chunk > 0,
        size <= usize::MAX,
        chunk <= usize::MAX,
    ensures
        total(chunk_lengths(size, chunk)) == size,
        forall|i: int|
            0 <= i < chunk_lengths(size, chunk).len() ==> 0 < #[trigger] chunk_lengths(size, chunk)[i]
                <= chunk,
        forall|i: int|
            0 <= i < chunk_lengths(size, chunk).len() - 1 ==> #[trigger] chunk_lengths(size, chunk)[i]
                == chunk,
    decreases size,
{
    if size > chunk {
        let rest = chunk_lengths((size - chunk) as nat, chunk);
        law_chunks_cover_download((size - chunk) as nat, chunk);
        let all = chunk_lengths(size, chunk);
        assert(all == seq![chunk as usize] + rest);
        lemma_total_prepend(chunk as usize, rest);
        assert forall|i: int| 0 <= i < all.len() implies 0 < #[trigger] all[i] <= chunk by {
            if i > 0 {
                assert(all[i] == rest[i - 1]);
            }
        }
        assert forall|i: int| 0 <= i < all.len() - 1 implies #[trigger] all[i] == chunk by {
            if i > 0 {
                assert(all[i] == rest[i - 1]);
            }
        }
    } else if size > 0 {
        let all = chunk_lengths(size, chunk);
        assert(all =~= seq![size as usize]);
        assert(all.drop_last() =~= Seq::<usize>::empty());
        assert(total(Seq::<usize>::empty()) == 0);
    }
}

/// The total of a list with one more length in front.
proof fn lemma_total_prepend(first: usize, rest: Seq<usize>)
    ensures
        total(seq![first] + rest) == first + total(rest),
    decreases rest.len(),
{
    let all = seq![first] + rest;
    if rest.len() == 0 {
        assert(all.drop_last() =~= Seq::<usize>::empty());
        assert(all.last() == first);
        assert(total(Seq::<usize>::empty()) == 0);
    } else {
        lemma_total_prepend(first, rest.drop_last());
        assert(all.drop_last() =~= seq![first] + rest.drop_last());
        assert(all.last() == rest.last());
    }
}

/// One chunk of a download: `len` bytes of `a`.
pub fn download_chunk(len: usize) -> (bytes: Vec<u8>)
    ensures
        bytes@ == Seq::new(len as nat, |i: int| 97u8),
{
    let mut bytes: Vec<u8> = Vec::new();
    for i in 0..len
        invariant
            bytes@ == Seq::new(i as nat, |j: int| 97u8),
    {
        bytes.push(97u8);
        assert(bytes@ =~= Seq::new((i + 1) as nat, |j: int| 97u8));
    }
    bytes
}

/// The reply of `GET /api/health`.
#[derive(Clone, Debug)]
pub struct HealthResponse {
    pub ok: bool,
    pub mode: String,
}

/// The plan as the page is told of it.
#[derive(Clone, Copy, Debug, PartialEq, Eq, Structural)]
pub struct TestPlanResponse {
    pub latency_probes: usize,
    pub latency_interval_ms: u64,
    pub throughput_samples: usize,
    pub throughput_workers: usize,
    pub throughput_window_ms: u64,
    pub session_ttl_seconds: u64,
    pub session_start_cooldown_seconds: u64,
    pub download_request_size: usize,
    pub upload_payload_size: usize,
}

/// The reply of `GET /api/config`.
#[derive(Clone, Debug)]
pub struct ConfigResponse {
    pub node_name: String,
    pub mode: String,
    pub browser_url: String,
    pub test_plan: TestPlanResponse,
}

/// The reply of `GET /api/node`.
#[derive(Clone, Debug)]
pub struct NodeResponse {
    pub node_name: String,
    pub mode: String,
    pub locale: String,
    pub uptime_seconds: u64,
}

/// `GET /api/health`: the node is up, in its mode.
pub fn health_response(config: &RuntimeConfig) -> (reply: HealthResponse)
    ensures
        reply.ok,
        reply.mode@ == mode_name_of(config.mode),
{
    HealthResponse { ok: true, mode: String::from_str(config.mode_name()) }
}

/// The plan as the page is told of it (all of it but the per-address limit and the
/// chunk size).
pub fn plan_response(plan: &TestPlan) -> (reply: TestPlanResponse)
    ensures
        reply == plan_response_of(*plan),
        reply.latency_probes == plan.latency_probes,
        reply.latency_interval_ms == plan.latency_interval_ms,
        reply.throughput_samples == plan.throughput_samples,
        reply.throughput_workers == plan.throughput_workers,
        reply.throughput_window_ms == plan.throughput_window_ms,
        reply.session_ttl_seconds == plan.session_ttl_seconds,
        reply.session_start_cooldown_seconds == plan.session_start_cooldown_seconds,
        reply.download_request_size == plan.download_request_size,
        reply.upload_payload_size == plan.upload_payload_size,
{
    TestPlanResponse {
        latency_probes: plan.latency_probes,
        latency_interval_ms: plan.latency_interval_ms,
        throughput_samples: plan.throughput_samples,
        throughput_workers: plan.throughput_workers,
        throughput_window_ms: plan.throughput_window_ms,
        session_ttl_seconds: plan.session_ttl_seconds,
        session_start_cooldown_seconds: plan.session_start_cooldown_seconds,
        download_request_size: plan.download_request_size,
        upload_payload_size: plan.upload_payload_size,
    }
}

/// `GET /api/config`: the node's name and mode, the page's address on the configured
/// browser port, and the plan.
pub fn config_response(config: &RuntimeConfig) -> (reply: ConfigResponse)
    ensures
        reply.node_name@ == config.node_name@,
        reply.mode@ == mode_name_of(config.mode),
        reply.browser_url@ == url_of(config.browser_host@, config.browser_port),
        reply.test_plan == plan_response_of(config.plan),
        reply.test_plan.latency_probes == config.plan.latency_probes,
        reply.test_plan.latency_interval_ms == config.plan.latency_interval_ms,
        reply.test_plan.throughput_samples == config.plan.throughput_samples,
        reply.test_plan.throughput_workers == config.plan.throughput_workers,
        reply.test_plan.throughput_window_ms == config.plan.throughput_window_ms,
        reply.test_plan.session_ttl_seconds == config.plan.session_ttl_seconds,
        reply.test_plan.session_start_cooldown_seconds == config.plan.session_start_cooldown_seconds,
        reply.test_plan.download_request_size == config.plan.download_request_size,
        reply.test_plan.upload_payload_size == config.plan.upload_payload_size,
{
    ConfigResponse {
        node_name: config.node_name.clone(),
        mode: String::from_str(config.mode_name()),
        browser_url: config.browser_url(Some(config.browser_port)),
        test_plan: plan_response(&config.plan),
    }
}

/// The plan as the page is told of it.
pub open spec fn plan_response_of(plan: TestPlan) -> TestPlanResponse {
    TestPlanResponse {
        latency_probes: plan.latency_probes,
        latency_interval_ms: plan.latency_interval_ms,
        throughput_samples: plan.throughput_samples,
        throughput_workers: plan.throughput_workers,
        throughput_window_ms: plan.throughput_window_ms,
        session_ttl_seconds: plan.session_ttl_seconds,
        session_start_cooldown_seconds: plan.session_start_cooldown_seconds,
        download_request_size: plan.download_request_size,
        upload_payload_size: plan.upload_payload_size,
    }
}

/// Each figure the page is told of the plan is the plan's own figure of that name.
pub proof fn law_plan_reply_fields(plan: TestPlan)
    ensures
        plan_response_of(plan).latency_probes == plan.latency_probes,
        plan_response_of(plan).latency_interval_ms == plan.latency_interval_ms,
        plan_response_of(plan).throughput_samples == plan.throughput_samples,
        plan_response_of(plan).throughput_workers == plan.throughput_workers,
        plan_response_of(plan).throughput_window_ms == plan.throughput_window_ms,
        plan_response_of(plan).session_ttl_seconds == plan.session_ttl_seconds,
        plan_response_of(plan).session_start_cooldown_seconds == plan.session_start_cooldown_seconds,
        plan_response_of(plan).download_request_size == plan.download_request_size,
        plan_response_of(plan).upload_payload_size == plan.upload_payload_size,
{
}

/// `GET /api/node`: the node's name, mode and locale, and how long it has run.
pub fn node_response(config: &RuntimeConfig, uptime_seconds: u64) -> (reply: NodeResponse)
    ensures
        reply.node_name@ == config.node_name@,
        reply.mode@ == mode_name_of(config.mode),
        reply.locale@ == config.locale@,
        reply.uptime_seconds == uptime_seconds,
{
    NodeResponse {
        node_name: config.node_name.clone(),
        mode: String::from_str(config.mode_name()),
        locale: config.locale.clone(),
        uptime_seconds,
    }
}

} // verus!
