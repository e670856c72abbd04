//! Who may use the panel: the pairing code, sessions, and where a request comes from.
//!
//! In remote mode the owner logs in once with the pairing code and gets a session that ends after a
//! while. In local mode there is no code; there the origin of a request is all that separates the
//! panel from any page that happens to be open in the same browser.
use vstd::prelude::*;
use crate::address;
use crate::api;
use crate::api::{ApiError, Refusal};
use crate::config::RuntimeMode;
use crate::json;
use crate::json::{Fields, Json};
use crate::record;
use crate::record::{Asked, Record};
use crate::secrets;
use crate::text;
use crate::text::Class;

verus! {

pub const MAX_LOGIN_FAILURES: u32 = 5;

/// How long a peer is blocked after too many failures, in milliseconds.
pub const LOGIN_BLOCK_MS: u64 = 30_000;

pub const SESSION_IDLE_TTL_SECS: u64 = 7_200;

pub const SESSION_ABSOLUTE_TTL_SECS: u64 = 43_200;

// ---------------------------------------------------------------------------------------------
// Where a request comes from
// ---------------------------------------------------------------------------------------------
/// The host in `host:port`, without the brackets of an IPv6 address.
pub open spec fn host_of(value: Seq<char>) -> Seq<char> {
    let host = match text::cut_last(value, ":"@) {
        Some(cut) => cut.0,
        None => value,
    };
    text::skip_back(text::skip_front(host, Class::Is('[')), Class::Is(']'))
}

/// Whether `host:port` is this computer.
pub open spec fn is_own_host(value: Seq<char>) -> bool {
    host_of(value) == "localhost"@ || address::is_loopback(host_of(value))
}

fn own_host(value: &str) -> (r: bool)
    ensures
        r == is_own_host(value@),
{
    let host = match text::split_last(value, ":") {
        Some(cut) => cut.0,
        None => value.to_owned(),
    };
    let front = text::trim_front(host.as_str(), &Class::Is('['));
    let bare = text::trim_back(front.as_str(), &Class::Is(']'));
    text::same(bare.as_str(), "localhost") || address::loopback(bare.as_str())
}

/// Whether an origin is a page of this computer. "null" and other unusual origins deserve no trust.
pub open spec fn is_own_origin(origin: Seq<char>) -> bool {
    match text::after_prefix(origin, "http://"@) {
        Some(rest) => is_own_host(rest),
        None => match text::after_prefix(origin, "https://"@) {
            Some(rest) => is_own_host(rest),
            None => false,
        },
    }
}

fn own_origin(origin: &str) -> (r: bool)
    ensures
        r == is_own_origin(origin@),
{
    match text::strip_prefix(origin, "http://") {
        Some(rest) => own_host(rest.as_str()),
        None => match text::strip_prefix(origin, "https://") {
            Some(rest) => own_host(rest.as_str()),
            None => false,
        },
    }
}

/// Whether a request comes from a page of this very computer. Where the browser sends no origin,
/// the host it asked for gives a foreign name away. A request with neither is not trusted.
pub open spec fn from_this_computer(origin: Option<Seq<char>>, host: Option<Seq<char>>) -> bool {
    match origin {
        Some(o) => is_own_origin(o),
        None => match host {
            Some(h) => is_own_host(h),
            None => false,
        },
    }
}

/// Whether a request comes from a page of this very computer.
pub fn loopback_request_ok(origin: Option<&str>, host: Option<&str>) -> (r: bool)
    ensures
        r == from_this_computer(text::opt_str(origin), text::opt_str(host)),
{
    match origin {
        Some(o) => own_origin(o),
        None => match host {
            Some(h) => own_host(h),
            None => false,
        },
    }
}

/// A header of a request.
#[derive(Debug)]
pub enum Header {
    Absent,
    /// It is there but no text.
    Unreadable,
    Text(String),
}

/// The headers that decide about a request.
#[derive(Debug)]
pub struct Headers {
    pub origin: Header,
    pub host: Header,
    pub cookie: Header,
}

/// The text of a header, if it has one.
pub open spec fn header_text(h: Header) -> Option<Seq<char>> {
    match h {
        Header::Text(s) => Some(s@),
        _ => None,
    }
}

/// Whether the panel trusts where a request comes from. An origin that is there but cannot be read
/// is not trusted.
pub open spec fn trusted(headers: Headers) -> bool {
    match headers.origin {
        Header::Unreadable => false,
        _ => from_this_computer(header_text(headers.origin), header_text(headers.host)),
    }
}

/// Whether the panel trusts where a request comes from. This also turns away a foreign name that
/// was made to point at this computer: the host betrays it.
pub fn origin_is_trusted(headers: &Headers) -> (r: bool)
    ensures
        r == trusted(*headers),
{
    let host: Option<&str> = match &headers.host {
        Header::Text(s) => Some(s.as_str()),
        _ => None,
    };
    match &headers.origin {
        Header::Unreadable => false,
        Header::Text(o) => loopback_request_ok(Some(o.as_str()), host),
        Header::Absent => loopback_request_ok(None, host),
    }
}

// ---------------------------------------------------------------------------------------------
// Cookies
// ---------------------------------------------------------------------------------------------
/// The value of a cookie in one `name=value` piece.
pub open spec fn cookie_in(piece: Seq<char>, name: Seq<char>) -> Option<Seq<char>> {
    match text::cut_first(text::trimmed(piece), "="@) {
        Some(cut) => if cut.0 == name {
            Some(cut.1)
        } else {
            None
        },
        None => None,
    }
}

/// The value of a cookie in the first piece that has it.
pub open spec fn first_cookie(list: Seq<Seq<char>>, name: Seq<char>) -> Option<Seq<char>>
    decreases list.len(),
{
    if list.len() == 0 {
        None
    } else {
        match first_cookie(list.drop_last(), name) {
            Some(v) => Some(v),
            None => cookie_in(list.last(), name),
        }
    }
}

/// The value of a cookie in the text of a header.
pub open spec fn cookie_of(header: Option<Seq<char>>, name: Seq<char>) -> Option<Seq<char>> {
    match header {
        Some(h) => first_cookie(text::pieces(h, Class::Is(';')), name),
        None => None,
    }
}

/// The value of a cookie.
pub fn cookie(headers: &Headers, name: &str) -> (r: Option<String>)
    ensures
        text::opt_view(r) == cookie_of(header_text(headers.cookie), name@),
{
    let header = match &headers.cookie {
        Header::Text(s) => s,
        _ => {
            return None;
        },
    };
    let list = text::split(header.as_str(), &Class::Is(';'));
    let ghost all = text::views(list@);
    let mut found: Option<String> = None;
    let mut i: usize = 0;
    while i < list.len()
        invariant
            i <= list.len(),
            all == text::views(list@),
            text::opt_view(found) == first_cookie(all.take(i as int), name@),
        decreases list.len() - i,
    {
        proof {
            assert(all.take(i + 1).drop_last() =~= all.take(i as int));
            assert(all.take(i + 1).last() == list@[i as int]@);
        }
        if found.is_none() {
            let piece = text::trim(list[i].as_str());
            if let Some(cut) = text::split_once(piece.as_str(), "=") {
                if text::same(cut.0.as_str(), name) {
                    found = Some(cut.1);
                }
            }
        }
        i = i + 1;
    }
    assert(all.take(i as int) =~= all);
    found
}

// ---------------------------------------------------------------------------------------------
// Sessions
// ---------------------------------------------------------------------------------------------
/// A session of the owner; times are seconds since 1970.
#[derive(Debug, Clone)]
pub struct StoredSession {
    pub token: String,
    pub created_at: u64,
    pub last_seen: u64,
}

/// How much time has passed, none if the clock went back.
pub open spec fn elapsed(now: u64, since: u64) -> int {
    if now >= since {
        now - since
    } else {
        0
    }
}

impl StoredSession {
    /// Whether the session is over: too long ago begun, or too long not used.
    pub open spec fn is_expired(self, now: u64) -> bool {
        elapsed(now, self.created_at) > SESSION_ABSOLUTE_TTL_SECS || elapsed(now, self.last_seen)
            > SESSION_IDLE_TTL_SECS
    }

    /// A session that begins now.
    pub fn new(token: String, now: u64) -> (r: StoredSession)
        ensures
            r == (StoredSession { token, created_at: now, last_seen: now }),
            !r.is_expired(now),
    {
        StoredSession { token, created_at: now, last_seen: now }
    }

    /// Whether the session is over.
    pub fn expired(&self, now: u64) -> (r: bool)
        ensures
            r == self.is_expired(now),
    {
        let age: u64 = if now >= self.created_at {
            now - self.created_at
        } else {
            0
        };
        let idle: u64 = if now >= self.last_seen {
            now - self.last_seen
        } else {
            0
        };
        age > SESSION_ABSOLUTE_TTL_SECS || idle > SESSION_IDLE_TTL_SECS
    }

    /// The session was used now.
    pub fn touch(&mut self, now: u64)
        ensures
            *final(self) == (StoredSession { last_seen: now, ..*old(self) }),
    {
        self.last_seen = now;
    }
}

/// A whole number that is not negative.
pub open spec fn unsigned(v: json::JsonV) -> Option<u64> {
    match v {
        json::JsonV::Int(n) => if n >= 0 {
            Some(n as u64)
        } else {
            None
        },
        json::JsonV::Large(n) => Some(n),
        _ => None,
    }
}

fn read_unsigned(v: &Json) -> (r: Option<u64>)
    ensures
        r == unsigned(v@),
{
    match v {
        Json::Int(n) => if *n >= 0 {
            Some(*n as u64)
        } else {
            None
        },
        Json::Large(n) => Some(*n),
        _ => None,
    }
}

/// What a session is.
#[verifier::ext_equal]
pub struct SessionV {
    pub token: Seq<char>,
    pub created_at: u64,
    pub last_seen: u64,
}

impl View for StoredSession {
    type V = SessionV;

    open spec fn view(&self) -> SessionV {
        SessionV { token: self.token@, created_at: self.created_at, last_seen: self.last_seen }
    }
}

/// The session that three fields make, if they do.
pub open spec fn session_parts(
    token: record::AskedV,
    created_at: record::AskedV,
    last_seen: record::AskedV,
) -> Option<SessionV> {
    match (token, created_at, last_seen) {
        (
            record::AskedV::Once(Some(t)),
            record::AskedV::Once(Some(c)),
            record::AskedV::Once(Some(l)),
        ) => match (t.text(), unsigned(c), unsigned(l)) {
            (Some(t), Some(c), Some(l)) => Some(SessionV { token: t, created_at: c, last_seen: l }),
            _ => None,
        },
        _ => None,
    }
}

/// The session that a record describes: its fields with their names, or in order.
pub open spec fn session_of(r: Option<record::RecordV>) -> Option<SessionV> {
    match r {
        Some(record::RecordV::Named(fields)) => session_parts(
            record::asked(fields, "token"@),
            record::asked(fields, "created_at"@),
            record::asked(fields, "last_seen"@),
        ),
        Some(record::RecordV::Listed(items)) => if items.len() == 3 {
            session_parts(
                record::asked_at(items, 0),
                record::asked_at(items, 1),
                record::asked_at(items, 2),
            )
        } else {
            None
        },
        None => None,
    }
}

/// A session, field by field in the order in which they are written down.
pub open spec fn session_fields(s: SessionV) -> Seq<(Seq<char>, json::JsonV)> {
    seq![
        ("token"@, json::JsonV::Str(s.token)),
        ("created_at"@, unsigned_value(s.created_at)),
        ("last_seen"@, unsigned_value(s.last_seen)),
    ]
}

/// A whole number that is not negative, as a value.
pub open spec fn unsigned_value(n: u64) -> json::JsonV {
    if n <= i64::MAX {
        json::JsonV::Int(n as i64)
    } else {
        json::JsonV::Large(n)
    }
}

fn unsigned_json(n: u64) -> (r: Json)
    ensures
        r@ == unsigned_value(n),
{
    if n <= i64::MAX as u64 {
        Json::Int(n as i64)
    } else {
        Json::Large(n)
    }
}

/// The record that describes a session.
pub open spec fn stored_fields(s: SessionV) -> Seq<record::FieldV> {
    session_fields(s).map_values(|f: (Seq<char>, json::JsonV)| (f.0, Some(f.1)))
}

/// What is written down of a session is read back.
pub proof fn law_session_survives(s: SessionV)
    ensures
        session_of(Some(record::RecordV::Named(stored_fields(s)))) == Some(s),
{
    reveal_strlit("token");
    reveal_strlit("created_at");
    reveal_strlit("last_seen");
    assert("token"@.len() == 5 && "created_at"@.len() == 10 && "last_seen"@.len() == 9);
    let fields = stored_fields(s);
    assert(fields.len() == 3);
    assert(fields.drop_last().drop_last().drop_last().len() == 0);
    reveal_with_fuel(record::asked, 4);
}

fn session_from_parts(token: &Asked, created_at: &Asked, last_seen: &Asked) -> (r: Option<
    StoredSession,
>)
    ensures
        opt_session(r) == session_parts(token.meaning(), created_at.meaning(), last_seen.meaning()),
{
    match (token, created_at, last_seen) {
        (Asked::Once(Some(t)), Asked::Once(Some(c)), Asked::Once(Some(l))) => match (
            t.as_str(),
            read_unsigned(c),
            read_unsigned(l),
        ) {
            (Some(t), Some(created_at), Some(last_seen)) => Some(
                StoredSession { token: t.to_owned(), created_at, last_seen },
            ),
            _ => None,
        },
        _ => None,
    }
}

impl StoredSession {
    /// The session that a record describes.
    pub fn from_record(r: &Option<Record>) -> (s: Option<StoredSession>)
        ensures
            opt_session(s) == session_of(record::record_view(*r)),
    {
        match r {
            Some(Record::Named(fields)) => session_from_parts(
                &record::ask(fields, "token"),
                &record::ask(fields, "created_at"),
                &record::ask(fields, "last_seen"),
            ),
            Some(Record::Listed(items)) => {
                if items.len() != 3 {
                    return None;
                }
                session_from_parts(
                    &record::ask_at(items, 0),
                    &record::ask_at(items, 1),
                    &record::ask_at(items, 2),
                )
            },
            None => None,
        }
    }

    /// The text in which the session is stored. Read again, it gives the same session.
    pub fn to_text(&self) -> (r: String)
        ensures
            r@ == json::printed_fields(session_fields(self@)),
            session_of(record::record_in(r@)) == Some(self@),
    {
        let fields = Fields::new().put("token", Json::text(self.token.as_str())).put(
            "created_at",
            unsigned_json(self.created_at),
        ).put("last_seen", unsigned_json(self.last_seen));
        proof {
            law_session_survives(self@);
            assert(fields.pairs@.len() == 3);
            assert(json::pairs_view(fields.pairs@) =~= session_fields(self@));
            assert(json::record_fields(fields.pairs@) =~= stored_fields(self@));
        }
        fields.to_text()
    }
}

/// What the store held: a session to go on with, or something to be deleted.
#[derive(Debug)]
pub struct Restored {
    pub session: Option<StoredSession>,
    /// The stored text is to be deleted.
    pub delete: bool,
}

/// The session to go on with, from what the store held.
pub open spec fn restored_session(stored: Option<record::RecordV>, now: u64) -> Option<SessionV> {
    match session_of(stored) {
        Some(s) => if session_is_over(s, now) {
            None
        } else {
            Some(s)
        },
        None => None,
    }
}

/// The session to go on with, from what the stored text was read as.
pub fn restore_session(stored: &Option<Record>, now: u64) -> (r: Option<StoredSession>)
    ensures
        opt_session(r) == restored_session(record::record_view(*stored), now),
{
    match StoredSession::from_record(stored) {
        Some(s) => if s.expired(now) {
            None
        } else {
            Some(s)
        },
        None => None,
    }
}

/// Goes on with the stored session, unless it is over or cannot be understood: then it is deleted.
pub fn load_session_secret(stored: Option<String>, now: u64) -> (r: Restored)
    ensures
        match text::opt_view(stored) {
            Some(raw) => opt_session(r.session) == restored_session(record::record_in(raw), now)
                && r.delete == (r.session is None),
            None => r.session is None && !r.delete,
        },
{
    match stored {
        Some(raw) => {
            let session = restore_session(&record::read_record(raw.as_str()), now);
            let delete = session.is_none();
            Restored { session, delete }
        },
        None => Restored { session: None, delete: false },
    }
}

// ---------------------------------------------------------------------------------------------
// Deciding about a request
// ---------------------------------------------------------------------------------------------
/// The name of the cookie that holds the token of the session.
pub const SESSION_COOKIE: &'static str = "aobs_session";

/// The decision about a request.
#[derive(Debug, Clone, Copy, PartialEq, Eq, Structural)]
pub struct Access {
    pub allowed: bool,
    /// The session is over: the stored one is to be deleted.
    pub forget: bool,
}

/// Whether a request is let through, given the session. In local mode the origin decides, in remote
/// mode the token of a session that is not over.
pub open spec fn is_allowed(
    mode: RuntimeMode,
    headers: Headers,
    session: Option<SessionV>,
    now: u64,
) -> bool {
    match mode {
        RuntimeMode::Local => trusted(headers),
        RuntimeMode::Remote => session is Some && !session_is_over(session->0, now) && cookie_of(
            header_text(headers.cookie),
            SESSION_COOKIE@,
        ) == Some(session->0.token),
    }
}

/// Whether a session is over.
pub open spec fn session_is_over(s: SessionV, now: u64) -> bool {
    elapsed(now, s.created_at) > SESSION_ABSOLUTE_TTL_SECS || elapsed(now, s.last_seen)
        > SESSION_IDLE_TTL_SECS
}

/// The session of an optional one.
pub open spec fn opt_session(s: Option<StoredSession>) -> Option<SessionV> {
    match s {
        Some(x) => Some(x@),
        None => None,
    }
}

/// Decides about a request. A request that is let through keeps the session alive; one that shows a
/// cookie for a session that is over ends it.
pub fn is_auth(
    mode: RuntimeMode,
    headers: &Headers,
    session: &mut Option<StoredSession>,
    now: u64,
) -> (r: Access)
    ensures
        r.allowed == is_allowed(mode, *headers, opt_session(*old(session)), now),
        r.forget == (mode == RuntimeMode::Remote && cookie_of(
            header_text(headers.cookie),
            SESSION_COOKIE@,
        ) is Some && *old(session) is Some && session_is_over(old(session)->0@, now)),
        opt_session(*final(session)) == (if r.forget {
            None
        } else if r.allowed && mode == RuntimeMode::Remote {
            Some(SessionV { last_seen: now, ..old(session)->0@ })
        } else {
            opt_session(*old(session))
        }),
{
    if mode == RuntimeMode::Local {
        return Access { allowed: origin_is_trusted(headers), forget: false };
    }
    let presented = match cookie(headers, SESSION_COOKIE) {
        Some(c) => c,
        None => {
            return Access { allowed: false, forget: false };
        },
    };
    let current = match session.take() {
        Some(s) => s,
        None => {
            return Access { allowed: false, forget: false };
        },
    };
    if current.expired(now) {
        return Access { allowed: false, forget: true };
    }
    if secrets::secret_eq(presented.as_str(), current.token.as_str()) {
        let mut current = current;
        current.touch(now);
        *session = Some(current);
        Access { allowed: true, forget: false }
    } else {
        *session = Some(current);
        Access { allowed: false, forget: false }
    }
}

/// Whether a stream of events goes on that was opened with a token. In remote mode it ends with the
/// session of that token: when the session is over, and when another one has taken its place.
pub open spec fn stream_lives(
    mode: RuntimeMode,
    opened_with: Seq<char>,
    session: Option<SessionV>,
    now: u64,
) -> bool {
    match mode {
        RuntimeMode::Local => true,
        RuntimeMode::Remote => session is Some && !session_is_over(session->0, now)
            && session->0.token == opened_with,
    }
}

/// Whether a stream of events goes on that was opened with a token.
pub fn stream_goes_on(
    mode: RuntimeMode,
    opened_with: &str,
    session: &Option<StoredSession>,
    now: u64,
) -> (r: bool)
    ensures
        r == stream_lives(mode, opened_with@, opt_session(*session), now),
{
    if mode == RuntimeMode::Local {
        return true;
    }
    match session {
        Some(s) => !s.expired(now) && secrets::secret_eq(s.token.as_str(), opened_with),
        None => false,
    }
}

/// The headers that every page is sent with, so that no other page can embed it: a script inside a
/// frame would act as the panel itself.
pub open spec fn unframed() -> Seq<(Seq<char>, Seq<char>)> {
    seq![
        ("content-security-policy"@, "frame-ancestors 'none'"@),
        ("x-frame-options"@, "DENY"@),
    ]
}

/// The headers that every page is sent with.
pub fn framing_headers() -> (r: [(&'static str, &'static str); 2])
    ensures
        r@.map_values(|h: (&'static str, &'static str)| (h.0@, h.1@)) == unframed(),
{
    let r = [("content-security-policy", "frame-ancestors 'none'"), ("x-frame-options", "DENY")];
    assert(r@.map_values(|h: (&'static str, &'static str)| (h.0@, h.1@)) =~= unframed());
    r
}

// ---------------------------------------------------------------------------------------------
// Guessing the pairing code
// ---------------------------------------------------------------------------------------------
/// How often a peer guessed wrong, and until when it is blocked, in milliseconds.
#[derive(Debug, Clone, Copy, PartialEq, Eq, Structural)]
pub struct LoginGuard {
    pub failures: u32,
    pub blocked_until: Option<u64>,
}

impl Default for LoginGuard {
    fn default() -> (r: LoginGuard)
        ensures
            r == fresh_guard(),
    {
        LoginGuard { failures: 0, blocked_until: None }
    }
}

/// A peer that has not guessed wrong yet.
pub open spec fn fresh_guard() -> LoginGuard {
    LoginGuard { failures: 0, blocked_until: None }
}

impl LoginGuard {
    /// The failures stay below the limit: at the limit they become a block.
    pub open spec fn wf(self) -> bool {
        self.failures < MAX_LOGIN_FAILURES
    }

    /// For how long the peer is blocked still.
    pub open spec fn left(self, now: u64) -> Option<u64> {
        match self.blocked_until {
            Some(until) => if until >= now {
                Some((until - now) as u64)
            } else {
                None
            },
            None => None,
        }
    }

    /// The guard after one more wrong guess.
    pub open spec fn failed(self, now: u64) -> LoginGuard {
        if self.failures + 1 >= MAX_LOGIN_FAILURES {
            LoginGuard { failures: 0, blocked_until: Some((now + LOGIN_BLOCK_MS) as u64) }
        } else {
            LoginGuard { failures: (self.failures + 1) as u32, ..self }
        }
    }

    /// For how long the peer is blocked still.
    pub fn blocked_for(&self, now: u64) -> (r: Option<u64>)
        ensures
            r == self.left(now),
    {
        match self.blocked_until {
            Some(until) => if until >= now {
                Some(until - now)
            } else {
                None
            },
            None => None,
        }
    }

    /// A wrong guess.
    pub fn record_failure(&mut self, now: u64)
        requires
            old(self).wf(),
            now <= u64::MAX - LOGIN_BLOCK_MS,
        ensures
            final(self).wf(),
            *final(self) == old(self).failed(now),
    {
        self.failures = self.failures + 1;
        if self.failures >= MAX_LOGIN_FAILURES {
            self.blocked_until = Some(now + LOGIN_BLOCK_MS);
            self.failures = 0;
        }
    }

    /// The right code.
    pub fn record_success(&mut self)
        ensures
            *final(self) == fresh_guard(),
            final(self).wf(),
    {
        self.failures = 0;
        self.blocked_until = None;
    }
}

/// The guards of the peers that ever tried, by their address.
#[derive(Debug)]
pub struct Guards {
    pub list: Vec<(String, LoginGuard)>,
}

/// The guard of a peer in a list.
pub open spec fn guard_in(list: Seq<(String, LoginGuard)>, peer: Seq<char>) -> LoginGuard
    decreases list.len(),
{
    if list.len() == 0 {
        fresh_guard()
    } else if list.last().0@ == peer {
        list.last().1
    } else {
        guard_in(list.drop_last(), peer)
    }
}

impl Guards {
    /// The guard of a peer.
    pub open spec fn of(self, peer: Seq<char>) -> LoginGuard {
        guard_in(self.list@, peer)
    }

    /// Every guard is well-formed.
    pub open spec fn wf(self) -> bool {
        forall|i: int| 0 <= i < self.list@.len() ==> (#[trigger] self.list@[i]).1.wf()
    }

    /// Nobody has tried yet.
    pub fn new() -> (r: Guards)
        ensures
            r.wf(),
            forall|peer: Seq<char>| #[trigger] r.of(peer) == fresh_guard(),
    {
        Guards { list: Vec::new() }
    }

    /// The guard of a peer.
    pub fn get(&self, peer: &str) -> (r: LoginGuard)
        requires
            self.wf(),
        ensures
            r == self.of(peer@),
            r.wf(),
    {
        let mut n: usize = self.list.len();
        assert(self.list@.take(n as int) =~= self.list@);
        while n > 0
            invariant
                self.wf(),
                n <= self.list.len(),
                guard_in(self.list@.take(n as int), peer@) == self.of(peer@),
            decreases n,
        {
            proof {
                assert(self.list@.take(n as int).drop_last() =~= self.list@.take(n - 1));
            }
            n = n - 1;
            if text::same(self.list[n].0.as_str(), peer) {
                return self.list[n].1;
            }
        }
        LoginGuard::default()
    }

    /// Sets the guard of a peer. The guards of all others stay as they are.
    pub fn set(&mut self, peer: &str, guard: LoginGuard)
        requires
            old(self).wf(),
            guard.wf(),
        ensures
            final(self).wf(),
            forall|other: Seq<char>| #[trigger]
                final(self).of(other) == if other == peer@ {
                    guard
                } else {
                    old(self).of(other)
                },
    {
        let ghost before = self.list@;
        let mut i: usize = 0;
        while i < self.list.len() && !text::same(self.list[i].0.as_str(), peer)
            invariant
                i <= self.list.len(),
                self.list@ == before,
            decreases self.list.len() - i,
        {
            i = i + 1;
        }
        if i < self.list.len() {
            let removed = self.list.remove(i);
            proof {
                assert forall|other: Seq<char>| other != peer@ implies #[trigger] guard_in(
                    self.list@,
                    other,
                ) == guard_in(before, other) by {
                    lemma_guard_removed(before, i as int, other);
                }
                assert forall|k: int| 0 <= k < self.list@.len() implies (
                #[trigger] self.list@[k]).1.wf() by {
                    if k < i {
                        assert(before[k].1.wf());
                    } else {
                        assert(before[k + 1].1.wf());
                    }
                }
            }
        }
        let ghost rest = self.list@;
        self.list.push((peer.to_owned(), guard));
        proof {
            assert(self.list@.drop_last() =~= rest);
            assert forall|other: Seq<char>| #[trigger]
                self.of(other) == if other == peer@ {
                    guard
                } else {
                    old(self).of(other)
                } by {
                if other != peer@ {
                    assert(guard_in(rest, other) == guard_in(before, other));
                }
            }
            assert forall|k: int| 0 <= k < self.list@.len() implies (
            #[trigger] self.list@[k]).1.wf() by {
                if k < rest.len() {
                    assert(rest[k].1.wf());
                }
            }
        }
    }
}

/// Taking out the entry of one peer does not change the guard of another.
proof fn lemma_guard_removed(list: Seq<(String, LoginGuard)>, i: int, other: Seq<char>)
    requires
        0 <= i < list.len(),
        list[i].0@ != other,
    ensures
        guard_in(list.remove(i), other) == guard_in(list, other),
    decreases list.len(),
{
    if i == list.len() - 1 {
        assert(list.remove(i) =~= list.drop_last());
    } else {
        assert(list.remove(i).drop_last() =~= list.drop_last().remove(i));
        assert(list.remove(i).last() == list.last());
        lemma_guard_removed(list.drop_last(), i, other);
    }
}

// ---------------------------------------------------------------------------------------------
// Logging in
// ---------------------------------------------------------------------------------------------
/// What becomes of an attempt to log in.
#[derive(Debug)]
pub enum LoginOutcome {
    /// In local mode everyone is in.
    Local,
    /// The peer has to wait.
    Blocked(String),
    /// No code was given.
    NoCode(String),
    /// There is no code to compare with.
    NotPaired(String),
    /// The code is wrong.
    WrongCode(String),
    /// The code is right: open a session.
    Granted,
}

/// What becomes of an attempt to log in.
#[verifier::ext_equal]
pub enum LoginV {
    Local,
    Blocked(Seq<char>),
    NoCode(Seq<char>),
    NotPaired(Seq<char>),
    WrongCode(Seq<char>),
    Granted,
}

impl View for LoginOutcome {
    type V = LoginV;

    open spec fn view(&self) -> LoginV {
        match *self {
            LoginOutcome::Local => LoginV::Local,
            LoginOutcome::Blocked(m) => LoginV::Blocked(m@),
            LoginOutcome::NoCode(m) => LoginV::NoCode(m@),
            LoginOutcome::NotPaired(m) => LoginV::NotPaired(m@),
            LoginOutcome::WrongCode(m) => LoginV::WrongCode(m@),
            LoginOutcome::Granted => LoginV::Granted,
        }
    }
}

impl LoginOutcome {
    /// The HTTP status with which the attempt is answered.
    pub fn status(&self) -> (r: u16)
        ensures
            r == (match self@ {
                LoginV::Local => 200u16,
                LoginV::Blocked(_) => 429u16,
                LoginV::NoCode(_) => 400u16,
                LoginV::NotPaired(_) => 503u16,
                LoginV::WrongCode(_) => 401u16,
                LoginV::Granted => 200u16,
            }),
    {
        match self {
            LoginOutcome::Local => 200,
            LoginOutcome::Blocked(_) => 429,
            LoginOutcome::NoCode(_) => 400,
            LoginOutcome::NotPaired(_) => 503,
            LoginOutcome::WrongCode(_) => 401,
            LoginOutcome::Granted => 200,
        }
    }
}

/// What becomes of an attempt to log in, given the guard of the peer and the stored code. A blocked
/// peer is not even heard.
pub open spec fn login_meaning(
    mode: RuntimeMode,
    guard: LoginGuard,
    body: json::JsonV,
    stored: Option<Seq<char>>,
    now: u64,
) -> LoginV {
    match mode {
        RuntimeMode::Local => LoginV::Local,
        RuntimeMode::Remote => match guard.left(now) {
            Some(left) => LoginV::Blocked(
                "Слишком много неудачных попыток. Подождите "@ + text::decimal(
                    (left / 1000 + 1) as nat,
                ) + " секунд."@,
            ),
            None => match body.text_at("secret"@) {
                None => LoginV::NoCode("Введите pairing-код."@),
                Some(code) => match stored {
                    None => LoginV::NotPaired(
                        "Pairing-код ещё не создан. Запустите START_FRIEND.bat на компьютере актёра."@,
                    ),
                    Some(right) => if text::trimmed(code) == right {
                        LoginV::Granted
                    } else {
                        LoginV::WrongCode("Неверный pairing-код."@)
                    },
                },
            },
        },
    }
}

/// The guard of a peer after an attempt.
pub open spec fn guard_after(guard: LoginGuard, outcome: LoginV, now: u64) -> LoginGuard {
    match outcome {
        LoginV::WrongCode(_) => guard.failed(now),
        LoginV::Granted => fresh_guard(),
        _ => guard,
    }
}

/// Takes an attempt to log in.
pub fn auth_login(
    mode: RuntimeMode,
    guards: &mut Guards,
    peer: &str,
    body: &Json,
    stored: Option<&str>,
    now: u64,
) -> (r: LoginOutcome)
    requires
        old(guards).wf(),
        now <= u64::MAX - LOGIN_BLOCK_MS,
    ensures
        final(guards).wf(),
        r@ == login_meaning(mode, old(guards).of(peer@), body@, text::opt_str(stored), now),
        forall|other: Seq<char>| #[trigger]
            final(guards).of(other) == if other == peer@ {
                guard_after(old(guards).of(peer@), r@, now)
            } else {
                old(guards).of(other)
            },
{
    if mode == RuntimeMode::Local {
        return LoginOutcome::Local;
    }
    let guard = guards.get(peer);
    if let Some(left) = guard.blocked_for(now) {
        let seconds: u64 = left / 1000 + 1;
        let n = text::number(seconds as u128);
        return LoginOutcome::Blocked(
            text::join3("Слишком много неудачных попыток. Подождите ", n.as_str(), " секунд."),
        );
    }
    let code = match body.get_str("secret") {
        Some(code) => code,
        None => {
            return LoginOutcome::NoCode("Введите pairing-код.".to_owned());
        },
    };
    let right = match stored {
        Some(right) => right,
        None => {
            return LoginOutcome::NotPaired(
                "Pairing-код ещё не создан. Запустите START_FRIEND.bat на компьютере актёра.".to_owned(),
            );
        },
    };
    let given = text::trim(code);
    let mut guard = guard;
    if secrets::secret_eq(given.as_str(), right) {
        guard.record_success();
        guards.set(peer, guard);
        LoginOutcome::Granted
    } else {
        guard.record_failure(now);
        guards.set(peer, guard);
        LoginOutcome::WrongCode("Неверный pairing-код.".to_owned())
    }
}

/// A session with a random token.
pub fn open_session(now: u64) -> (r: StoredSession)
    ensures
        r.created_at == now,
        r.last_seen == now,
        exists|b: Seq<u8>| b.len() == 32 && r.token@ == #[trigger] secrets::base64_url_of(b),
        r.token@.len() == 43,
        forall|i: int| 0 <= i < r.token@.len() ==> secrets::is_url_safe(#[trigger] r.token@[i]),
{
    let token = secrets::random_secret_b64(32);
    StoredSession::new(token, now)
}

/// The header that gives the token to the browser. It is not marked "secure": the connection is
/// plain http inside the tailnet, which is encrypted by itself.
pub open spec fn session_header(token: Seq<char>) -> Seq<char> {
    "aobs_session="@ + token + "; Path=/; HttpOnly; SameSite=Lax"@
}

/// The header that gives the token to the browser.
pub fn session_cookie(session: &StoredSession) -> (r: String)
    ensures
        r@ == session_header(session.token@),
{
    text::join3("aobs_session=", session.token.as_str(), "; Path=/; HttpOnly; SameSite=Lax")
}

/// The header that takes the token away from the browser.
pub fn logout_cookie() -> (r: String)
    ensures
        r@ == "aobs_session=; Path=/; HttpOnly; SameSite=Lax; Max-Age=0"@,
{
    "aobs_session=; Path=/; HttpOnly; SameSite=Lax; Max-Age=0".to_owned()
}

/// What the panel is told about itself.
pub fn auth_status(mode: RuntimeMode, paired: bool, authenticated: bool) -> (r: Json)
    ensures
        r@ == json::JsonV::Object(
            match mode {
                RuntimeMode::Local => map![
                    "paired"@ => json::JsonV::Bool(true),
                    "authenticated"@ => json::JsonV::Bool(true),
                    "mode"@ => json::JsonV::Str("local"@),
                ],
                RuntimeMode::Remote => map![
                    "paired"@ => json::JsonV::Bool(paired),
                    "authenticated"@ => json::JsonV::Bool(authenticated),
                ],
            },
        ),
{
    match mode {
        RuntimeMode::Local => Fields::new().put("paired", Json::Bool(true)).put(
            "authenticated",
            Json::Bool(true),
        ).put("mode", Json::text("local")).json(),
        RuntimeMode::Remote => Fields::new().put("paired", Json::Bool(paired)).put(
            "authenticated",
            Json::Bool(authenticated),
        ).json(),
    }
}

/// Turns a request away that is not let through.
pub fn require_auth(allowed: bool) -> (r: Result<(), Refusal>)
    ensures
        match r {
            Ok(_) => allowed,
            Err(e) => !allowed && e@ == (api::RefusalV {
                status: 401,
                error: api::ErrorV {
                    message: "Требуется pairing-код Accessible OBS."@,
                    detail: None,
                },
            }),
        },
{
    if allowed {
        Ok(())
    } else {
        Err(Refusal { status: 401, error: ApiError::new("Требуется pairing-код Accessible OBS.") })
    }
}

/// The answer to signing in and to signing out, once it is done. In local mode both are done from
/// the start.
pub fn signed_answer(mode: RuntimeMode) -> (r: Json)
    ensures
        r@ == json::JsonV::Object(
            match mode {
                RuntimeMode::Local => map![
                    "ok"@ => json::JsonV::Bool(true),
                    "mode"@ => json::JsonV::Str("local"@),
                ],
                RuntimeMode::Remote => map!["ok"@ => json::JsonV::Bool(true)],
            },
        ),
{
    let fields = Fields::new().put("ok", Json::Bool(true));
    match mode {
        RuntimeMode::Local => fields.put("mode", Json::text("local")).json(),
        RuntimeMode::Remote => fields.json(),
    }
}

// ---------------------------------------------------------------------------------------------
// Laws
// ---------------------------------------------------------------------------------------------
/// However often it is used, a session is over twelve hours after it began; unused, it is over
/// after two.
pub proof fn law_sessions_end(s: StoredSession, used: u64, now: u64)
    requires
        s.created_at <= used <= now,
    ensures
        now - s.created_at > SESSION_ABSOLUTE_TTL_SECS ==> (StoredSession {
            last_seen: used,
            ..s
        }).is_expired(now),
        now - used > SESSION_IDLE_TTL_SECS ==> (StoredSession { last_seen: used, ..s }).is_expired(
            now,
        ),
        now - s.created_at <= SESSION_ABSOLUTE_TTL_SECS && now - used <= SESSION_IDLE_TTL_SECS
            ==> !(StoredSession { last_seen: used, ..s }).is_expired(now),
{
}

/// Once a session is over it stays over.
pub proof fn law_expiry_is_final(s: StoredSession, now: u64, later: u64)
    requires
        s.is_expired(now),
        now <= later,
    ensures
        s.is_expired(later),
{
}

/// A new session ends the streams that were opened with an earlier one, and with the session itself
/// its own streams end.
pub proof fn law_streams_end_with_their_session(
    opened_with: Seq<char>,
    session: SessionV,
    now: u64,
)
    ensures
        !stream_lives(RuntimeMode::Remote, opened_with, None, now),
        session.token != opened_with ==> !stream_lives(
            RuntimeMode::Remote,
            opened_with,
            Some(session),
            now,
        ),
        session_is_over(session, now) ==> !stream_lives(
            RuntimeMode::Remote,
            opened_with,
            Some(session),
            now,
        ),
{
}

/// A guard after wrong guesses at these moments.
pub open spec fn failed_at(guard: LoginGuard, times: Seq<u64>) -> LoginGuard
    decreases times.len(),
{
    if times.len() == 0 {
        guard
    } else {
        failed_at(guard, times.drop_last()).failed(times.last())
    }
}

/// Four wrong guesses do not block a peer, whenever they come; the fifth does, for thirty seconds
/// from then on.
pub proof fn law_fifth_failure_blocks(times: Seq<u64>, now: u64)
    requires
        times.len() <= MAX_LOGIN_FAILURES,
        times.len() > 0 ==> times.last() <= now,
        times.len() > 0 ==> times.last() <= u64::MAX - LOGIN_BLOCK_MS,
    ensures
        times.len() < MAX_LOGIN_FAILURES ==> failed_at(fresh_guard(), times) == (LoginGuard {
            failures: times.len() as u32,
            blocked_until: None,
        }),
        times.len() < MAX_LOGIN_FAILURES ==> failed_at(fresh_guard(), times).left(now) is None,
        times.len() == MAX_LOGIN_FAILURES ==> failed_at(fresh_guard(), times).left(now) == (if now
            - times.last() <= LOGIN_BLOCK_MS {
            Some((LOGIN_BLOCK_MS - (now - times.last())) as u64)
        } else {
            None
        }),
    decreases times.len(),
{
    if times.len() > 0 {
        lemma_few_failures(times.drop_last());
    }
}

proof fn lemma_few_failures(times: Seq<u64>)
    requires
        times.len() < MAX_LOGIN_FAILURES,
    ensures
        failed_at(fresh_guard(), times) == (LoginGuard {
            failures: times.len() as u32,
            blocked_until: None,
        }),
    decreases times.len(),
{
    if times.len() > 0 {
        lemma_few_failures(times.drop_last());
    }
}

/// A blocked peer gets nowhere until the block is over, not even with the right code.
pub proof fn law_blocked_peer_is_not_heard(
    guard: LoginGuard,
    body: json::JsonV,
    stored: Option<Seq<char>>,
    now: u64,
)
    requires
        guard.left(now) is Some,
    ensures
        login_meaning(RuntimeMode::Remote, guard, body, stored, now) is Blocked,
        guard_after(guard, login_meaning(RuntimeMode::Remote, guard, body, stored, now), now)
            == guard,
{
}

/// A session is opened only for the stored code.
pub proof fn law_only_the_code_opens(
    guard: LoginGuard,
    body: json::JsonV,
    stored: Option<Seq<char>>,
    now: u64,
)
    ensures
        login_meaning(RuntimeMode::Remote, guard, body, stored, now) is Granted <==> guard.left(
            now,
        ) is None && stored is Some && body.text_at("secret"@) is Some && text::trimmed(
            body.text_at("secret"@)->0,
        ) == stored->0,
{
}

/// The browser gives the token back as it got it.
pub proof fn law_cookie_gives_the_token_back(token: Seq<char>)
    requires
        token.len() > 0,
        forall|i: int| 0 <= i < token.len() ==> secrets::is_url_safe(#[trigger] token[i]),
    ensures
        cookie_of(Some("aobs_session="@ + token), SESSION_COOKIE@) == Some(token),
{
    let name = SESSION_COOKIE@;
    let header = "aobs_session="@ + token;
    lemma_session_cookie(token);
    lemma_one_piece(header, Class::Is(';'));
    assert(text::trimmed(header) == header) by {
        assert(!text::is_space(header[0]) && !text::is_space(header[header.len() - 1]));
        assert(text::skip_front(header, Class::Space) == header);
        assert(text::skip_back(header, Class::Space) == header);
    }
    text::lemma_cut_first(header, "="@, 12);
    assert("="@.len() == 1) by {
        reveal_strlit("=");
    }
    let list = text::pieces(header, Class::Is(';'));
    assert(list.drop_last() =~= Seq::empty());
    assert(first_cookie(list.drop_last(), name) is None);
    assert(list.last() == header);
}

/// How a cookie with a token is written: the name, the first equals sign, the token, and nothing
/// that would end it or be trimmed.
proof fn lemma_session_cookie(token: Seq<char>)
    requires
        token.len() > 0,
        forall|i: int| 0 <= i < token.len() ==> secrets::is_url_safe(#[trigger] token[i]),
    ensures
        ({
            let header = "aobs_session="@ + token;
            &&& header.len() == token.len() + 13
            &&& text::first_at(header, "="@, 12)
            &&& header.take(12) == SESSION_COOKIE@
            &&& header.skip(13) == token
            &&& forall|i: int|
                0 <= i < header.len() ==> #[trigger] header[i] != ';' && !text::is_space(header[i])
        }),
{
    reveal_strlit("aobs_session=");
    reveal_strlit("aobs_session");
    reveal_strlit("=");
    let name = "aobs_session"@;
    let header = "aobs_session="@ + token;
    assert forall|i: int| 0 <= i < header.len() implies #[trigger] header[i] != ';'
        && !text::is_space(header[i]) by {
        if i >= 13 {
            assert(header[i] == token[i - 13]);
            assert(secrets::is_url_safe(token[i - 13]));
        }
    }
    assert(header.take(12) =~= name);
    assert(header.skip(13) =~= token);
    assert(header.subrange(12, 13) =~= "="@);
    assert forall|k: int| 0 <= k < 12 implies !text::occurs_at(header, "="@, k) by {
        if text::occurs_at(header, "="@, k) {
            assert(header.subrange(k, k + 1)[0] == '=');
            assert(name[k] == '=');
        }
    }
    assert(text::occurs_at(header, "="@, 12));
}

/// A text without separators is one piece.
proof fn lemma_one_piece(s: Seq<char>, class: Class)
    requires
        forall|i: int| 0 <= i < s.len() ==> !class.has(#[trigger] s[i]),
    ensures
        text::pieces(s, class) == seq![s],
    decreases s.len(),
{
    if s.len() > 0 {
        assert forall|i: int| 0 <= i < s.drop_last().len() implies !class.has(
            #[trigger] s.drop_last()[i],
        ) by {
            assert(!class.has(s[i]));
        }
        lemma_one_piece(s.drop_last(), class);
        assert(!class.has(s[s.len() - 1]));
        assert(s.drop_last().push(s.last()) =~= s);
        let before = text::pieces(s.drop_last(), class);
        assert(before.drop_last() =~= Seq::empty());
        assert(text::pieces(s, class) =~= seq![s]);
    } else {
        assert(s =~= Seq::empty());
    }
}

/// In local mode no request gets through that says it comes from anywhere but this computer, and
/// none that does not say where it comes from.
pub proof fn law_local_mode_trusts_this_computer_only(
    headers: Headers,
    session: Option<SessionV>,
    now: u64,
)
    requires
        is_allowed(RuntimeMode::Local, headers, session, now),
    ensures
        headers.origin matches Header::Text(o) ==> is_own_origin(o@),
        headers.origin is Absent ==> (headers.host matches Header::Text(h) && is_own_host(h@)),
        !(headers.origin is Unreadable),
{
}

/// In remote mode no request gets through without a session that is not over.
pub proof fn law_remote_mode_needs_a_session(headers: Headers, session: Option<SessionV>, now: u64)
    requires
        session is None || session_is_over(session->0, now),
    ensures
        !is_allowed(RuntimeMode::Remote, headers, session, now),
{
}


/// A page of this computer is one whose address begins with http and names this computer; nothing
/// else is. Where the browser tells the origin, the host plays no part.
pub proof fn law_an_origin_is_judged_by_its_host(
    rest: Seq<char>,
    origin: Seq<char>,
    host: Option<Seq<char>>,
)
    ensures
        is_own_origin("http://"@ + rest) <==> is_own_host(rest),
        is_own_origin("https://"@ + rest) <==> is_own_host(rest),
        is_own_origin(origin) ==> origin == "http://"@ + origin.skip(7) && is_own_host(origin.skip(7))
            || origin == "https://"@ + origin.skip(8) && is_own_host(origin.skip(8)),
        from_this_computer(Some(origin), host) <==> is_own_origin(origin),
        from_this_computer(None, Some(rest)) <==> is_own_host(rest),
        !from_this_computer(None, None),
        is_own_host(rest) <==> host_of(rest) == "localhost"@ || address::is_loopback(host_of(rest)),
{
    reveal_strlit("http://");
    reveal_strlit("https://");
    let a = "http://"@ + rest;
    let b = "https://"@ + rest;
    assert(a.take(7) =~= "http://"@);
    assert(a.skip(7) =~= rest);
    assert(b.take(8) =~= "https://"@);
    assert(b.skip(8) =~= rest);
    assert(b.take(7)[4] == 's');
    assert(b.take(7) != "http://"@);
    if is_own_origin(origin) {
        assert(origin.len() >= 7 ==> origin =~= origin.take(7) + origin.skip(7));
        assert(origin.len() >= 8 ==> origin =~= origin.take(8) + origin.skip(8));
    }
}

/// A cookie is found wherever it stands among the others: the first of its name counts, and its value
/// is what stands behind the first equals sign.
pub proof fn law_a_cookie_is_found_among_others(list: Seq<Seq<char>>, name: Seq<char>, i: int)
    ensures
        0 <= i < list.len() && cookie_in(list[i], name) is Some && (forall|j: int|
            0 <= j < i ==> cookie_in(#[trigger] list[j], name) is None) ==> first_cookie(list, name)
            == cookie_in(list[i], name),
        (forall|j: int| 0 <= j < list.len() ==> cookie_in(#[trigger] list[j], name) is None)
            ==> first_cookie(list, name) is None,
    decreases list.len(),
{
    if list.len() > 0 {
        let front = list.drop_last();
        law_a_cookie_is_found_among_others(front, name, i);
        law_a_cookie_is_found_among_others(front, name, -1);
        assert(forall|j: int| 0 <= j < front.len() ==> #[trigger] front[j] == list[j]);
        assert(list.last() == list[list.len() - 1]);
        if 0 <= i < list.len() && cookie_in(list[i], name) is Some && (forall|j: int|
            0 <= j < i ==> cookie_in(#[trigger] list[j], name) is None) {
            assert forall|j: int| 0 <= j < i implies cookie_in(#[trigger] front[j], name) is None by {
                assert(cookie_in(list[j], name) is None);
            }
            if i < front.len() {
                assert(front[i] == list[i]);
            }
        }
        if forall|j: int| 0 <= j < list.len() ==> cookie_in(#[trigger] list[j], name) is None {
            assert forall|j: int| 0 <= j < front.len() implies cookie_in(
                #[trigger] front[j],
                name,
            ) is None by {
                assert(cookie_in(list[j], name) is None);
            }
        }
    }
}

/// A session ends two hours after it was last used and twelve hours after it began, in seconds; not
/// earlier. A clock that went back ends none.
pub proof fn law_sessions_last_two_and_twelve_hours(s: SessionV, now: u64)
    ensures
        session_is_over(s, now) <==> now > s.created_at + 43_200 || now > s.last_seen + 7_200,
        now <= s.created_at && now <= s.last_seen ==> !session_is_over(s, now),
{
}

/// A stored session is gone on with exactly if it is understood and not over, and then unchanged.
pub proof fn law_a_stored_session_is_gone_on_with(stored: Option<record::RecordV>, now: u64, s: SessionV)
    requires
        session_of(stored) == Some(s),
    ensures
        now <= s.created_at + 43_200 && now <= s.last_seen + 7_200 ==> restored_session(stored, now)
            == Some(s),
        now > s.created_at + 43_200 || now > s.last_seen + 7_200 ==> restored_session(stored, now)
            is None,
{
}

/// In remote mode a request gets through exactly if it shows the token of the session and the session
/// is not over: another token does not, and none does not.
pub proof fn law_the_token_lets_through(headers: Headers, s: SessionV, now: u64, shown: Seq<char>)
    requires
        now <= s.created_at + 43_200,
        now <= s.last_seen + 7_200,
    ensures
        cookie_of(header_text(headers.cookie), "aobs_session"@) == Some(shown) ==> (is_allowed(
            RuntimeMode::Remote,
            headers,
            Some(s),
            now,
        ) <==> shown == s.token),
        cookie_of(header_text(headers.cookie), "aobs_session"@) is None ==> !is_allowed(
            RuntimeMode::Remote,
            headers,
            Some(s),
            now,
        ),
        stream_lives(RuntimeMode::Remote, shown, Some(s), now) <==> shown == s.token,
        stream_lives(RuntimeMode::Local, shown, None, now),
{
}

/// In local mode the session plays no part.
pub proof fn law_local_mode_needs_no_session(
    headers: Headers,
    a: Option<SessionV>,
    b: Option<SessionV>,
    now: u64,
    later: u64,
)
    ensures
        is_allowed(RuntimeMode::Local, headers, a, now) == is_allowed(
            RuntimeMode::Local,
            headers,
            b,
            later,
        ),
        headers.origin is Unreadable ==> !is_allowed(RuntimeMode::Local, headers, a, now),
        headers.origin matches Header::Text(o) ==> (is_allowed(RuntimeMode::Local, headers, a, now)
            <==> is_own_origin(o@)),
{
}

/// The token is kept from scripts and from other sites: the header says so, and gives the token as
/// it is.
pub proof fn law_the_cookie_is_guarded(token: Seq<char>)
    ensures
        session_header(token).take(13 + token.len() as int) == "aobs_session="@ + token,
        text::holds_text(session_header(token), "HttpOnly"@),
        text::holds_text(session_header(token), "SameSite=Lax"@),
        text::holds_text(session_header(token), "Path=/"@),
        SESSION_COOKIE@ == "aobs_session"@,
{
    reveal_strlit("aobs_session=");
    let tail = "; Path=/; HttpOnly; SameSite=Lax"@;
    assert(session_header(token).take(13 + token.len() as int) =~= "aobs_session="@ + token);
    reveal_strlit("; Path=/; HttpOnly; SameSite=Lax");
    reveal_strlit("HttpOnly");
    text::lemma_holds_at("; Path=/; HttpOnly; SameSite=Lax"@, "HttpOnly"@, 10);
    reveal_strlit("; Path=/; HttpOnly; SameSite=Lax");
    reveal_strlit("SameSite=Lax");
    text::lemma_holds_at("; Path=/; HttpOnly; SameSite=Lax"@, "SameSite=Lax"@, 20);
    reveal_strlit("; Path=/; HttpOnly; SameSite=Lax");
    reveal_strlit("Path=/");
    text::lemma_holds_at("; Path=/; HttpOnly; SameSite=Lax"@, "Path=/"@, 2);
    let none = Seq::<char>::empty();
    let head = "aobs_session="@ + token;
    assert(head + tail + none =~= session_header(token));
    text::lemma_holds_inside(head, tail, none, "HttpOnly"@);
    text::lemma_holds_inside(head, tail, none, "SameSite=Lax"@);
    text::lemma_holds_inside(head, tail, none, "Path=/"@);
}

/// Every page forbids to be framed, in both ways that browsers know.
pub proof fn law_no_page_is_framed()
    ensures
        unframed().contains(("content-security-policy"@, "frame-ancestors 'none'"@)),
        unframed().contains(("x-frame-options"@, "DENY"@)),
{
    assert(unframed()[0] == ("content-security-policy"@, "frame-ancestors 'none'"@));
    assert(unframed()[1] == ("x-frame-options"@, "DENY"@));
}

/// Every wrong guess counts; the fifth blocks for thirty seconds and starts the count anew. The right
/// code forgets the failures, and nothing else changes them.
pub proof fn law_guesses_are_counted(guard: LoginGuard, outcome: LoginV, now: u64)
    requires
        guard.failures < 5,
        now <= u64::MAX - 30_000,
    ensures
        outcome is WrongCode && guard.failures < 4 ==> guard_after(guard, outcome, now).failures
            == guard.failures + 1 && guard_after(guard, outcome, now).blocked_until
            == guard.blocked_until,
        outcome is WrongCode && guard.failures == 4 ==> guard_after(guard, outcome, now).failures == 0
            && guard_after(guard, outcome, now).left(now) == Some(30_000u64),
        outcome is Granted ==> guard_after(guard, outcome, now).failures == 0 && guard_after(
            guard,
            outcome,
            now,
        ).left(now) is None,
        !(outcome is WrongCode) && !(outcome is Granted) ==> guard_after(guard, outcome, now) == guard,
{
}

/// A block lasts until its moment, that included, and what is left of it is told in seconds, rounded
/// up.
pub proof fn law_a_block_tells_what_is_left(
    guard: LoginGuard,
    until: u64,
    now: u64,
    body: json::JsonV,
    stored: Option<Seq<char>>,
)
    requires
        guard.blocked_until == Some(until),
    ensures
        now <= until ==> guard.left(now) == Some((until - now) as u64) && (login_meaning(
            RuntimeMode::Remote,
            guard,
            body,
            stored,
            now,
        ) matches LoginV::Blocked(m) && text::holds_text(
            m,
            text::decimal(((until - now) / 1000 + 1) as nat),
        )),
        now > until ==> guard.left(now) is None,
{
    if now <= until {
        text::lemma_part_is_held(
            "Слишком много неудачных попыток. Подождите "@,
            text::decimal(((until - now) / 1000 + 1) as nat),
            " секунд."@,
        );
    }
}

/// An attempt without a code, without a stored code or with a wrong one is told apart.
pub proof fn law_a_refused_login_says_why(
    guard: LoginGuard,
    body: json::JsonV,
    stored: Option<Seq<char>>,
    now: u64,
)
    requires
        guard.left(now) is None,
    ensures
        login_meaning(RuntimeMode::Local, guard, body, stored, now) is Local,
        body.text_at("secret"@) is None <==> login_meaning(
            RuntimeMode::Remote,
            guard,
            body,
            stored,
            now,
        ) is NoCode,
        body.text_at("secret"@) is Some && stored is None <==> login_meaning(
            RuntimeMode::Remote,
            guard,
            body,
            stored,
            now,
        ) is NotPaired,
        body.text_at("secret"@) is Some && stored is Some && text::trimmed(
            body.text_at("secret"@)->0,
        ) != stored->0 <==> login_meaning(RuntimeMode::Remote, guard, body, stored, now)
            is WrongCode,
{
}

/// Each part of a session is read under its own name, and in a list in the order token, beginning,
/// last use.
pub proof fn law_each_part_of_a_session_has_its_field(
    fields: Seq<record::FieldV>,
    token: Seq<char>,
    created_at: u64,
    last_seen: u64,
)
    requires
        record::asked(fields, "token"@) == record::AskedV::Once(Some(json::JsonV::Str(token))),
        record::asked(fields, "created_at"@) == record::AskedV::Once(
            Some(json::JsonV::Large(created_at)),
        ),
        record::asked(fields, "last_seen"@) == record::AskedV::Once(
            Some(json::JsonV::Large(last_seen)),
        ),
    ensures
        session_of(Some(record::RecordV::Named(fields))) == Some(
            (SessionV { token, created_at, last_seen }),
        ),
        session_of(None) is None,
{
}


/// The port is cut off from a host, and so are the brackets around it; a host without either is taken
/// as it is.
pub proof fn law_the_port_is_cut_off(host: Seq<char>, port: Seq<char>)
    requires
        host.len() > 0,
        !port.contains(':'),
        forall|i: int| 0 <= i < host.len() ==> #[trigger] host[i] != '[' && host[i] != ']',
    ensures
        host_of(host + ":"@ + port) == host,
        host_of("["@ + host + "]"@ + ":"@ + port) == host,
        !host.contains(':') ==> host_of(host) == host,
{
    lemma_unbracketed(host);
    lemma_cut_at_port(host, port);
    lemma_bracketed(host);
    lemma_cut_at_port("["@ + host + "]"@, port);
    if !host.contains(':') {
        reveal_strlit(":");
        if text::holds_text(host, ":"@) {
            let i = choose|i: int| text::occurs_at(host, ":"@, i);
            assert(host.subrange(i, i + 1)[0] == ':');
            assert(host[i] == ':');
        }
    }
}

proof fn lemma_cut_at_port(host: Seq<char>, port: Seq<char>)
    requires
        !port.contains(':'),
    ensures
        text::cut_last(host + ":"@ + port, ":"@) == Some((host, port)),
{
    reveal_strlit(":");
    let s = host + ":"@ + port;
    let n = host.len() as int;
    assert(s.subrange(n, n + 1) =~= ":"@);
    assert forall|k: int| n < k implies !text::occurs_at(s, ":"@, k) by {
        if text::occurs_at(s, ":"@, k) {
            assert(s.subrange(k, k + 1)[0] == ':');
            assert(port[k - n - 1] == ':');
        }
    }
    text::lemma_cut_last(s, ":"@, n);
    assert(s.take(n) =~= host);
    assert(s.skip(n + 1) =~= port);
}

proof fn lemma_unbracketed(host: Seq<char>)
    requires
        host.len() > 0,
        forall|i: int| 0 <= i < host.len() ==> #[trigger] host[i] != '[' && host[i] != ']',
    ensures
        text::skip_front(host, Class::Is('[')) == host,
        text::skip_back(host, Class::Is(']')) == host,
{
    assert(host[0] != '[');
    assert(host[host.len() - 1] != ']');
}

proof fn lemma_bracketed(host: Seq<char>)
    requires
        host.len() > 0,
        forall|i: int| 0 <= i < host.len() ==> #[trigger] host[i] != '[' && host[i] != ']',
    ensures
        text::skip_back(
            text::skip_front("["@ + host + "]"@, Class::Is('[')),
            Class::Is(']'),
        ) == host,
{
    reveal_strlit("[");
    reveal_strlit("]");
    let s = "["@ + host + "]"@;
    assert(s[0] == '[');
    let t = s.drop_first();
    assert(t =~= host.push(']'));
    assert(t[0] == host[0]);
    assert(text::skip_front(t, Class::Is('[')) == t);
    assert(text::skip_front(s, Class::Is('[')) == t);
    assert(t.drop_last() =~= host);
    lemma_unbracketed(host);
}


/// In local mode a request without an origin is judged by the host that it asked for, and one without
/// either is turned away.
pub proof fn law_without_an_origin_the_host_decides(headers: Headers, session: Option<SessionV>, now: u64)
    requires
        headers.origin is Absent,
    ensures
        headers.host matches Header::Text(h) ==> (is_allowed(RuntimeMode::Local, headers, session, now)
            <==> is_own_host(h@)),
        !(headers.host is Text) ==> !is_allowed(RuntimeMode::Local, headers, session, now),
{
}

/// A moment is read from a whole number that is not negative, and from nothing else.
pub proof fn law_moments_are_whole_numbers(n: i64, m: u64, v: json::JsonV)
    ensures
        n >= 0 ==> unsigned(json::JsonV::Int(n)) == Some(n as u64),
        n < 0 ==> unsigned(json::JsonV::Int(n)) is None,
        unsigned(json::JsonV::Large(m)) == Some(m),
        unsigned(unsigned_value(m)) == Some(m),
        !(v is Int) && !(v is Large) ==> unsigned(v) is None,
{
}

} // verus!
