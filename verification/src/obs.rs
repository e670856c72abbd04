//! The connection to OBS: version 5 of the obs-websocket protocol.
//!
//! One socket is kept open. Requests go out under an id of their own and wait in a queue for the
//! reply with that id, so that the handshake is made once per connection and not per request.
//! Events of OBS are handed out as they come.
//!
//! Nothing here touches a socket: the functions say what to send, whom to answer and how long to
//! wait.
use vstd::prelude::*;
use crate::json;
use crate::json::{Fields, Json};
use crate::retry::Backoff;
use crate::secrets;
use crate::text;

verus! {

// ---------------------------------------------------------------------------------------------
// Subscriptions and limits
// ---------------------------------------------------------------------------------------------
pub const SUB_GENERAL: u32 = 0x1;

pub const SUB_CONFIG: u32 = 0x2;

pub const SUB_SCENES: u32 = 0x4;

pub const SUB_INPUTS: u32 = 0x8;

pub const SUB_TRANSITIONS: u32 = 0x10;

pub const SUB_OUTPUTS: u32 = 0x40;

pub const SUB_SCENE_ITEMS: u32 = 0x80;

pub const SUB_MEDIA_INPUTS: u32 = 0x100;

/// Sound levels, some fifty times a second.
pub const SUB_INPUT_VOLUME_METERS: u32 = 0x1_0000;

/// All that the panel needs: scenes, sources, sound, broadcast, recording. Without the sound levels
/// the owner could not tell whether any sound reaches the actor's microphone at all.
pub const EVENT_SUBSCRIPTIONS: u32 = SUB_GENERAL | SUB_CONFIG | SUB_SCENES | SUB_INPUTS
    | SUB_TRANSITIONS | SUB_OUTPUTS | SUB_SCENE_ITEMS | SUB_MEDIA_INPUTS | SUB_INPUT_VOLUME_METERS;

/// How long a caller waits for a reply, in milliseconds.
pub const REQUEST_TIMEOUT_MS: u64 = 10_000;

/// How much longer its entry stays in the queue: a reply that comes at the last moment still finds
/// its addressee.
pub const PENDING_GRACE_MS: u64 = 5_000;

/// How many requests wait at most. The limit is met only when commands stream into a dead socket.
pub const PENDING_MAX: usize = 512;

pub const RECONNECT_MIN_MS: u64 = 500;

pub const RECONNECT_MAX_MS: u64 = 15_000;

/// How often the version of OBS is asked for while OBS is still loading.
pub const VERSION_MAX_TRIES: u8 = 5;

// ---------------------------------------------------------------------------------------------
// Requests and their replies
// ---------------------------------------------------------------------------------------------
/// One request of a batch.
#[derive(Debug)]
pub struct BatchItem {
    pub request_type: String,
    pub request_data: Json,
}

impl BatchItem {
    pub fn new(request_type: &str, request_data: Json) -> (r: BatchItem)
        ensures
            r.request_type@ == request_type@,
            r.request_data@ == request_data@,
    {
        BatchItem { request_type: request_type.to_owned(), request_data }
    }
}

/// What a request of a batch asks: its type and its data.
pub open spec fn asked(item: BatchItem) -> (Seq<char>, json::JsonV) {
    (item.request_type@, item.request_data@)
}

/// What a batch asks.
pub open spec fn asked_all(items: Seq<BatchItem>) -> Seq<(Seq<char>, json::JsonV)> {
    items.map_values(|item: BatchItem| asked(item))
}

/// An object with one field, which is a text.
pub open spec fn one_text(key: Seq<char>, value: Seq<char>) -> json::JsonV {
    json::JsonV::Object(map![key => json::JsonV::Str(value)])
}

/// An object with one field, which is a text.
pub fn with_text(key: &str, value: &str) -> (r: Json)
    ensures
        r@ == one_text(key@, value@),
{
    Fields::new().put(key, Json::text(value)).json()
}

/// The same question about each of several names.
pub open spec fn one_each(request_type: Seq<char>, key: Seq<char>, names: Seq<Seq<char>>) -> Seq<
    (Seq<char>, json::JsonV),
> {
    names.map_values(|name: Seq<char>| (request_type, one_text(key, name)))
}

/// The same question about each of several names.
pub fn ask_each(request_type: &str, key: &str, names: &Vec<String>) -> (r: Vec<BatchItem>)
    ensures
        asked_all(r@) == one_each(request_type@, key@, text::views(names@)),
{
    let mut out: Vec<BatchItem> = Vec::new();
    let mut i: usize = 0;
    while i < names.len()
        invariant
            i <= names@.len(),
            out@.len() == i,
            forall|k: int|
                0 <= k < i ==> asked(#[trigger] out@[k]) == (
                    request_type@,
                    one_text(key@, names@[k]@),
                ),
        decreases names.len() - i,
    {
        out.push(BatchItem::new(request_type, with_text(key, names[i].as_str())));
        i = i + 1;
    }
    assert(asked_all(out@) =~= one_each(request_type@, key@, text::views(names@)));
    out
}

/// The data of one reply in a batch, if there is such a reply and it succeeded.
pub open spec fn data_at(results: Seq<json::JsonV>, i: int) -> Option<json::JsonV> {
    if 0 <= i < results.len() {
        data_of(results[i])
    } else {
        None
    }
}

/// The data of one reply in a batch, if there is such a reply and it succeeded.
pub fn response_at(results: &Vec<Json>, i: usize) -> (r: Option<&Json>)
    ensures
        json::opt_model(r) == data_at(json::items_view(results@), i as int),
{
    if i < results.len() {
        assert(json::items_view(results@)[i as int] == results@[i as int]@);
        response_data(&results[i])
    } else {
        None
    }
}

/// The state of the connection.
#[derive(Debug, Clone)]
pub struct ObsStatus {
    pub connected: bool,
    pub obs_version: Option<String>,
    pub websocket_version: Option<String>,
    pub error: Option<String>,
}

/// What the state of the connection is.
#[verifier::ext_equal]
pub struct StatusV {
    pub connected: bool,
    pub obs_version: Option<Seq<char>>,
    pub websocket_version: Option<Seq<char>>,
    pub error: Option<Seq<char>>,
}

impl View for ObsStatus {
    type V = StatusV;

    open spec fn view(&self) -> StatusV {
        StatusV {
            connected: self.connected,
            obs_version: text::opt_view(self.obs_version),
            websocket_version: text::opt_view(self.websocket_version),
            error: text::opt_view(self.error),
        }
    }
}

/// The state without a connection.
pub open spec fn disconnected(error: Option<Seq<char>>) -> StatusV {
    StatusV { connected: false, obs_version: None, websocket_version: None, error }
}

impl Default for ObsStatus {
    fn default() -> (r: ObsStatus)
        ensures
            r@ == disconnected(None),
    {
        ObsStatus { connected: false, obs_version: None, websocket_version: None, error: None }
    }
}

/// The data of a reply inside a batch, if that request succeeded.
pub open spec fn data_of(result: json::JsonV) -> Option<json::JsonV> {
    match result.field("requestStatus"@) {
        Some(status) => if status.bool_at("result"@) == Some(true) {
            result.field("responseData"@)
        } else {
            None
        },
        None => None,
    }
}

/// The data of a reply inside a batch, if that request succeeded.
pub fn response_data(result: &Json) -> (r: Option<&Json>)
    ensures
        json::opt_model(r) == data_of(result@),
{
    match result.get("requestStatus") {
        Some(status) => match status.get_bool("result") {
            Some(true) => result.get("responseData"),
            _ => None,
        },
        None => None,
    }
}

/// The object without fields.
pub open spec fn empty_object() -> json::JsonV {
    json::JsonV::Object(Map::empty())
}

/// The object without fields.
pub fn no_fields() -> (r: Json)
    ensures
        r@ == empty_object(),
{
    Fields::new().json()
}

/// What a reply says: the data of a success, or the comment of OBS on a refusal.
pub open spec fn outcome_of(d: json::JsonV) -> Result<json::JsonV, Seq<char>> {
    let status = match d.field("requestStatus"@) {
        Some(s) => s,
        None => json::JsonV::Null,
    };
    if status.bool_at("result"@) == Some(true) {
        Ok(
            match d.field("responseData"@) {
                Some(data) => data,
                None => empty_object(),
            },
        )
    } else {
        Err(
            match status.text_at("comment"@) {
                Some(comment) => comment,
                None => "OBS отклонил команду"@,
            },
        )
    }
}

/// What a reply means to its addressee.
pub open spec fn outcome_view(r: Result<Json, String>) -> Result<json::JsonV, Seq<char>> {
    match r {
        Ok(j) => Ok(j@),
        Err(e) => Err(e@),
    }
}

fn copy_or_empty(v: Option<&Json>) -> (r: Json)
    ensures
        r@ == (match json::opt_model(v) {
            Some(j) => j,
            None => empty_object(),
        }),
{
    match v {
        Some(j) => j.copy(),
        None => no_fields(),
    }
}

/// What a reply says: the data of a success, or the comment of OBS on a refusal.
pub fn parse_response(d: &Json) -> (r: Result<Json, String>)
    ensures
        outcome_view(r) == outcome_of(d@),
{
    match d.get("requestStatus") {
        Some(status) => match status.get_bool("result") {
            Some(true) => Ok(copy_or_empty(d.get("responseData"))),
            _ => match status.get_text("comment") {
                Some(comment) => Err(comment),
                None => Err("OBS отклонил команду".to_owned()),
            },
        },
        None => Err("OBS отклонил команду".to_owned()),
    }
}

// ---------------------------------------------------------------------------------------------
// The queue of waiting requests
// ---------------------------------------------------------------------------------------------
/// Whether a single reply or the replies of a batch are waited for.
#[derive(Debug, Clone, Copy, PartialEq, Eq, Structural)]
pub enum ReplyKind {
    Single,
    Batch,
}

/// A request that waits for its reply, together with the moment from which on that is pointless.
#[derive(Debug)]
pub struct Pending<T> {
    pub id: String,
    pub kind: ReplyKind,
    /// Whom to answer.
    pub reply: T,
    /// In milliseconds of the caller's clock.
    pub deadline: u64,
}

/// The requests that wait for their replies, in the order in which they were sent. No two have the
/// same id.
#[derive(Debug)]
pub struct Queue<T> {
    pub entries: Vec<Pending<T>>,
}

/// Whether no two entries have the same id.
pub open spec fn distinct_ids<T>(entries: Seq<Pending<T>>) -> bool {
    forall|i: int, j: int|
        0 <= i < j < entries.len() ==> (#[trigger] entries[i]).id@ != (#[trigger] entries[j]).id@
}

/// Whether a request with an id is waiting.
pub open spec fn waits<T>(entries: Seq<Pending<T>>, id: Seq<char>) -> bool {
    exists|i: int| 0 <= i < entries.len() && (#[trigger] entries[i]).id@ == id
}

/// Has another id.
pub open spec fn other_than<T>(id: Seq<char>) -> spec_fn(Pending<T>) -> bool {
    |p: Pending<T>| p.id@ != id
}

/// Has not met its deadline.
pub open spec fn before_deadline<T>(now: u64) -> spec_fn(Pending<T>) -> bool {
    |p: Pending<T>| p.deadline > now
}

/// The entries without the one that has an id.
pub open spec fn without<T>(entries: Seq<Pending<T>>, id: Seq<char>) -> Seq<Pending<T>> {
    entries.filter(other_than(id))
}

/// The entries that are still worth waiting for.
pub open spec fn alive<T>(entries: Seq<Pending<T>>, now: u64) -> Seq<Pending<T>> {
    entries.filter(before_deadline(now))
}

/// The request with an id.
pub open spec fn entry_of<T>(entries: Seq<Pending<T>>, id: Seq<char>) -> Option<Pending<T>> {
    if waits(entries, id) {
        let i = choose|i: int| 0 <= i < entries.len() && (#[trigger] entries[i]).id@ == id;
        Some(entries[i])
    } else {
        None
    }
}

/// Entries that were filtered still have distinct ids.
proof fn lemma_filter_distinct<T>(entries: Seq<Pending<T>>, keep: spec_fn(Pending<T>) -> bool)
    requires
        distinct_ids(entries),
    ensures
        distinct_ids(entries.filter(keep)),
    decreases entries.len(),
{
    reveal(Seq::filter);
    if entries.len() > 0 {
        let front = entries.drop_last();
        lemma_filter_distinct(front, keep);
        let kept = front.filter(keep);
        if keep(entries.last()) {
            assert forall|i: int| 0 <= i < kept.len() implies (#[trigger] kept[i]).id@
                != entries.last().id@ by {
                front.lemma_filter_contains_rev(keep, kept[i]);
                let k = choose|k: int| 0 <= k < front.len() && front[k] == kept[i];
                assert(entries[k].id@ != entries[entries.len() - 1].id@);
            }
        }
    }
}

/// Taking the one entry with an id out leaves the others as they are.
proof fn lemma_without<T>(entries: Seq<Pending<T>>, at: int)
    requires
        distinct_ids(entries),
        0 <= at < entries.len(),
    ensures
        without(entries, entries[at].id@) == entries.remove(at),
    decreases entries.len(),
{
    let id = entries[at].id@;
    let keep = other_than::<T>(id);
    let front = entries.drop_last();
    reveal(Seq::filter);
    assert forall|i: int, j: int| 0 <= i < j < front.len() implies (#[trigger] front[i]).id@ != (
    #[trigger] front[j]).id@ by {
        assert(entries[i].id@ != entries[j].id@);
    }
    assert(front.push(entries.last()) =~= entries);
    front.lemma_filter_push(entries.last(), keep);
    assert(without(entries, id) == entries.filter(keep));
    assert(without(front, id) == front.filter(keep));
    if at == entries.len() - 1 {
        assert forall|i: int| 0 <= i < front.len() implies keep(#[trigger] front[i]) by {
            assert(entries[i].id@ != entries[at].id@);
        }
        lemma_filter_all(front, keep);
        assert(entries.remove(at) =~= front);
    } else {
        assert(front[at].id@ == id);
        lemma_without(front, at);
        assert(entries[at].id@ != entries[entries.len() - 1].id@);
        assert(front.remove(at).push(entries.last()) =~= entries.remove(at));
    }
}

/// Filtering by what holds of every entry changes nothing.
proof fn lemma_filter_all<T>(entries: Seq<Pending<T>>, keep: spec_fn(Pending<T>) -> bool)
    requires
        forall|i: int| 0 <= i < entries.len() ==> keep(#[trigger] entries[i]),
    ensures
        entries.filter(keep) == entries,
    decreases entries.len(),
{
    reveal(Seq::filter);
    if entries.len() > 0 {
        let front = entries.drop_last();
        assert forall|i: int| 0 <= i < front.len() implies keep(#[trigger] front[i]) by {
            assert(keep(entries[i]));
        }
        lemma_filter_all(front, keep);
        assert(keep(entries[entries.len() - 1]));
        assert(front.push(entries.last()) =~= entries);
    }
}

impl<T> Queue<T> {
    /// Whether no two entries have the same id.
    pub open spec fn wf(self) -> bool {
        distinct_ids(self.entries@)
    }

    /// A queue in which nothing waits.
    pub fn new() -> (r: Queue<T>)
        ensures
            r.wf(),
            r.entries@ == Seq::<Pending<T>>::empty(),
    {
        Queue { entries: Vec::new() }
    }

    /// How many requests wait.
    pub fn len(&self) -> (r: usize)
        ensures
            r == self.entries@.len(),
    {
        self.entries.len()
    }

    /// Takes the request with an id out of the queue.
    pub fn remove(&mut self, id: &str) -> (r: Option<Pending<T>>)
        requires
            old(self).wf(),
        ensures
            final(self).wf(),
            final(self).entries@ == without(old(self).entries@, id@),
            r == entry_of(old(self).entries@, id@),
            r matches Some(p) ==> p.id@ == id@,
    {
        let mut i: usize = 0;
        while i < self.entries.len()
            invariant
                i <= self.entries.len(),
                self.wf(),
                self.entries@ == old(self).entries@,
                forall|k: int| 0 <= k < i ==> (#[trigger] self.entries@[k]).id@ != id@,
            decreases self.entries.len() - i,
        {
            if text::same(self.entries[i].id.as_str(), id) {
                proof {
                    let all = self.entries@;
                    let k = choose|k: int| 0 <= k < all.len() && (#[trigger] all[k]).id@ == id@;
                    assert(all[i as int].id@ == id@);
                    if k < i {
                        assert(all[k].id@ != all[i as int].id@);
                    }
                    if i < k {
                        assert(all[i as int].id@ != all[k].id@);
                    }
                    lemma_without(self.entries@, i as int);
                    lemma_filter_distinct(self.entries@, other_than::<T>(id@));
                }
                return Some(self.entries.remove(i));
            }
            i = i + 1;
        }
        proof {
            let keep = other_than::<T>(id@);
            lemma_filter_all(self.entries@, keep);
        }
        None
    }

    /// Adds a request; one with the same id is replaced.
    pub fn insert(&mut self, p: Pending<T>)
        requires
            old(self).wf(),
        ensures
            final(self).wf(),
            final(self).entries@ == without(old(self).entries@, p.id@).push(p),
    {
        let ghost before = self.entries@;
        let replaced = self.remove(p.id.as_str());
        proof {
            let kept = self.entries@;
            let keep = other_than::<T>(p.id@);
            assert forall|i: int| 0 <= i < kept.len() implies (#[trigger] kept[i]).id@ != p.id@ by {
                before.lemma_filter_pred(keep, i);
            }
        }
        self.entries.push(p);
    }

    /// Drops the requests for which there is no point in waiting any more, and says how many.
    pub fn sweep(&mut self, now: u64) -> (r: usize)
        requires
            old(self).wf(),
        ensures
            final(self).wf(),
            final(self).entries@ == alive(old(self).entries@, now),
            r == old(self).entries@.len() - final(self).entries@.len(),
    {
        let ghost before = self.entries@;
        let ghost keep = before_deadline::<T>(now);
        let mut rest: Vec<Pending<T>> = Vec::new();
        std::mem::swap(&mut rest, &mut self.entries);
        let n: usize = rest.len();
        let ghost done: int = 0;
        proof {
            reveal(Seq::filter);
            assert(before.take(0) =~= Seq::<Pending<T>>::empty());
        }
        while rest.len() > 0
            invariant
                keep == before_deadline::<T>(now),
                0 <= done <= before.len(),
                n == before.len(),
                rest@ == before.skip(done),
                self.entries@ == before.take(done).filter(keep),
                self.entries@.len() <= done,
            decreases rest.len(),
        {
            let p = rest.remove(0);
            proof {
                assert(before.take(done + 1) =~= before.take(done).push(before[done]));
                before.take(done).lemma_filter_push(before[done], keep);
                assert(before.skip(done).remove(0) =~= before.skip(done + 1));
            }
            if p.deadline > now {
                self.entries.push(p);
            }
            proof {
                done = done + 1;
            }
        }
        proof {
            assert(before.take(done) =~= before);
            lemma_filter_distinct(before, keep);
        }
        n - self.entries.len()
    }

    /// Empties the queue and hands out whom to tell that the connection is gone.
    pub fn drain(&mut self) -> (r: Vec<Pending<T>>)
        ensures
            final(self).entries@ == Seq::<Pending<T>>::empty(),
            final(self).wf(),
            r@ == old(self).entries@,
    {
        let mut out: Vec<Pending<T>> = Vec::new();
        std::mem::swap(&mut out, &mut self.entries);
        out
    }
}

// ---------------------------------------------------------------------------------------------
// Sending
// ---------------------------------------------------------------------------------------------
/// A command for OBS, with whom to answer.
pub enum Command<T> {
    Request { request_type: String, request_data: Json, reply: T },
    Batch { requests: Vec<BatchItem>, reply: T },
}

impl<T> Command<T> {
    /// Whom to answer.
    pub open spec fn to(self) -> T {
        match self {
            Command::Request { reply, .. } => reply,
            Command::Batch { reply, .. } => reply,
        }
    }

    /// Which reply is waited for.
    pub open spec fn kind(self) -> ReplyKind {
        match self {
            Command::Request { .. } => ReplyKind::Single,
            Command::Batch { .. } => ReplyKind::Batch,
        }
    }

    /// The frame that goes out under an id.
    pub open spec fn frame(self, id: Seq<char>) -> json::JsonV {
        match self {
            Command::Request { request_type, request_data, .. } => request_frame(
                request_type@,
                id,
                request_data@,
            ),
            Command::Batch { requests, .. } => batch_frame(id, requests@),
        }
    }
}

/// The fields of one request.
pub open spec fn request_fields(
    request_type: Seq<char>,
    id: Seq<char>,
    data: json::JsonV,
) -> json::JsonV {
    json::JsonV::Object(
        map![
            "requestType"@ => json::JsonV::Str(request_type),
            "requestId"@ => json::JsonV::Str(id),
            "requestData"@ => data,
        ],
    )
}

/// A frame: its kind and its data.
pub open spec fn frame_of(op: i64, d: json::JsonV) -> json::JsonV {
    json::JsonV::Object(map!["op"@ => json::JsonV::Int(op), "d"@ => d])
}

/// The frame of a request.
pub open spec fn request_frame(
    request_type: Seq<char>,
    id: Seq<char>,
    data: json::JsonV,
) -> json::JsonV {
    frame_of(6, request_fields(request_type, id, data))
}

/// The requests of a batch, each under an id of its own.
pub open spec fn batch_items(id: Seq<char>, requests: Seq<BatchItem>) -> Seq<json::JsonV> {
    Seq::new(
        requests.len(),
        |i: int|
            request_fields(
                requests[i].request_type@,
                id + "-"@ + text::decimal(i as nat),
                requests[i].request_data@,
            ),
    )
}

/// The frame of a batch. A request that fails does not stop the others.
pub open spec fn batch_frame(id: Seq<char>, requests: Seq<BatchItem>) -> json::JsonV {
    frame_of(
        8,
        json::JsonV::Object(
            map![
                "requestId"@ => json::JsonV::Str(id),
                "haltOnFailure"@ => json::JsonV::Bool(false),
                "executionType"@ => json::JsonV::Int(0),
                "requests"@ => json::JsonV::Array(batch_items(id, requests)),
            ],
        ),
    )
}

fn make_frame(op: i64, d: Json) -> (r: Json)
    ensures
        r@ == frame_of(op, d@),
{
    Fields::new().put("op", Json::Int(op)).put("d", d).json()
}

fn make_request(request_type: &str, id: &str, data: Json) -> (r: Json)
    ensures
        r@ == request_fields(request_type@, id@, data@),
{
    Fields::new().put("requestType", Json::text(request_type)).put("requestId", Json::text(id)).put(
        "requestData",
        data,
    ).json()
}

fn make_batch(id: &str, requests: &Vec<BatchItem>) -> (r: Json)
    ensures
        r@ == batch_frame(id@, requests@),
{
    let mut items: Vec<Json> = Vec::new();
    let mut i: usize = 0;
    while i < requests.len()
        invariant
            i <= requests.len(),
            items.len() == i,
            forall|k: int| 0 <= k < i ==> (#[trigger] items@[k])@ == batch_items(id@, requests@)[k],
        decreases requests.len() - i,
    {
        let n = text::number(i as u128);
        let own = text::join3(id, "-", n.as_str());
        items.push(
            make_request(
                requests[i].request_type.as_str(),
                own.as_str(),
                requests[i].request_data.copy(),
            ),
        );
        i = i + 1;
    }
    proof {
        json::lemma_array_model(items);
        assert(json::items_view(items@) =~= batch_items(id@, requests@));
    }
    make_frame(
        8,
        Fields::new().put("requestId", Json::text(id)).put("haltOnFailure", Json::Bool(false)).put(
            "executionType",
            Json::Int(0),
        ).put("requests", Json::Array(items)).json(),
    )
}

/// What became of a command.
pub enum Submitted<T> {
    /// This frame is to be sent.
    Frame(Json),
    /// The queue is full; this is to be answered at once.
    Rejected { reply: T, reason: String },
}

/// Why a command was refused at once.
pub open spec fn queue_is_full() -> Seq<char> {
    "OBS не отвечает: слишком много запросов в очереди"@
}

/// The queue in which a command finds its place: a full one is swept first.
pub open spec fn made_room<T>(entries: Seq<Pending<T>>, now: u64) -> Seq<Pending<T>> {
    if entries.len() >= PENDING_MAX {
        alive(entries, now)
    } else {
        entries
    }
}

/// What happens to a command that goes out under an id: it is refused if the queue is full, else
/// its frame is to be sent and it waits for its reply.
pub open spec fn submits<T>(
    before: Seq<Pending<T>>,
    cmd: Command<T>,
    id: Seq<char>,
    now: u64,
    after: Seq<Pending<T>>,
    outcome: Submitted<T>,
) -> bool {
    let room = made_room(before, now);
    if room.len() >= PENDING_MAX {
        &&& after == room
        &&& outcome matches Submitted::Rejected { reply, reason } && reply == cmd.to() && reason@
            == queue_is_full()
    } else {
        &&& outcome matches Submitted::Frame(frame) && frame@ == cmd.frame(id)
        &&& after.len() > 0
        &&& after.drop_last() == without(room, id)
        &&& after.last().id@ == id
        &&& after.last().kind == cmd.kind()
        &&& after.last().reply == cmd.to()
        &&& after.last().deadline == now + REQUEST_TIMEOUT_MS + PENDING_GRACE_MS
    }
}

/// The moment from which on a reply is pointless.
pub fn deadline_from(now: u64) -> (r: u64)
    requires
        now <= u64::MAX - REQUEST_TIMEOUT_MS - PENDING_GRACE_MS,
    ensures
        r == now + REQUEST_TIMEOUT_MS + PENDING_GRACE_MS,
        r > now + REQUEST_TIMEOUT_MS,
{
    now + REQUEST_TIMEOUT_MS + PENDING_GRACE_MS
}

/// Enters a command into the queue under an id and gives the frame to send.
pub fn submit<T>(queue: &mut Queue<T>, cmd: Command<T>, id: String, now: u64) -> (r: Submitted<T>)
    requires
        old(queue).wf(),
        now <= u64::MAX - REQUEST_TIMEOUT_MS - PENDING_GRACE_MS,
    ensures
        final(queue).wf(),
        submits(old(queue).entries@, cmd, id@, now, final(queue).entries@, r),
{
    if queue.len() >= PENDING_MAX {
        let swept = queue.sweep(now);
        if queue.len() >= PENDING_MAX {
            let reason = "OBS не отвечает: слишком много запросов в очереди".to_owned();
            return match cmd {
                Command::Request { reply, .. } => Submitted::Rejected { reply, reason },
                Command::Batch { reply, .. } => Submitted::Rejected { reply, reason },
            };
        }
    }
    let ghost room = queue.entries@;
    let deadline = deadline_from(now);
    match cmd {
        Command::Request { request_type, request_data, reply } => {
            let frame = make_frame(
                6,
                make_request(request_type.as_str(), id.as_str(), request_data),
            );
            queue.insert(Pending { id, kind: ReplyKind::Single, reply, deadline });
            assert(queue.entries@.drop_last() =~= without(room, id@));
            Submitted::Frame(frame)
        },
        Command::Batch { requests, reply } => {
            let frame = make_batch(id.as_str(), &requests);
            queue.insert(Pending { id, kind: ReplyKind::Batch, reply, deadline });
            assert(queue.entries@.drop_last() =~= without(room, id@));
            Submitted::Frame(frame)
        },
    }
}

/// Whether a text is the id of a random UUID: thirty-two hexadecimal digits in small letters, the
/// first of the third group a four, with hyphens between the groups.
pub open spec fn is_random_id(id: Seq<char>) -> bool {
    &&& id.len() == 36
    &&& id[14] == '4'
    &&& forall|i: int|
        0 <= i < 36 ==> if i == 8 || i == 13 || i == 18 || i == 23 {
            #[trigger] id[i] == '-'
        } else {
            '0' <= id[i] <= '9' || 'a' <= id[i] <= 'f'
        }
}

/// `uuid::Uuid::new_v4` makes a random id, printed in groups with hyphens. Which one it is, and that
/// two of them differ, is left to chance.
#[verifier::external_body]
fn fresh_id() -> (r: String)
    ensures
        is_random_id(r@),
{
    uuid::Uuid::new_v4().to_string()
}

/// Enters a command into the queue under a fresh id and gives the frame to send.
pub fn send_command<T>(queue: &mut Queue<T>, cmd: Command<T>, now: u64) -> (r: Submitted<T>)
    requires
        old(queue).wf(),
        now <= u64::MAX - REQUEST_TIMEOUT_MS - PENDING_GRACE_MS,
    ensures
        final(queue).wf(),
        exists|id: Seq<char>|
            is_random_id(id) && #[trigger] submits(
                old(queue).entries@,
                cmd,
                id,
                now,
                final(queue).entries@,
                r,
            ),
{
    let id = fresh_id();
    submit(queue, cmd, id, now)
}

/// Asks for the version of OBS under an id and gives the frame to send. The question waits in the
/// queue like any other, even in a full one.
pub fn submit_version_request<T>(queue: &mut Queue<T>, reply: T, id: String, now: u64) -> (r: Json)
    requires
        old(queue).wf(),
        now <= u64::MAX - REQUEST_TIMEOUT_MS - PENDING_GRACE_MS,
    ensures
        final(queue).wf(),
        r@ == request_frame("GetVersion"@, id@, empty_object()),
        final(queue).entries@ == without(old(queue).entries@, id@).push(
            (Pending {
                id,
                kind: ReplyKind::Single,
                reply,
                deadline: (now + REQUEST_TIMEOUT_MS + PENDING_GRACE_MS) as u64,
            }),
        ),
{
    let frame = make_frame(6, make_request("GetVersion", id.as_str(), no_fields()));
    queue.insert(Pending { id, kind: ReplyKind::Single, reply, deadline: deadline_from(now) });
    frame
}

/// Asks for the version of OBS under a fresh id and gives the frame to send.
pub fn request_obs_version<T>(queue: &mut Queue<T>, reply: T, now: u64) -> (r: Json)
    requires
        old(queue).wf(),
        now <= u64::MAX - REQUEST_TIMEOUT_MS - PENDING_GRACE_MS,
    ensures
        final(queue).wf(),
        exists|id: String|
            is_random_id(id@) && r@ == request_frame("GetVersion"@, #[trigger] id@, empty_object())
                && final(queue).entries@ == without(old(queue).entries@, id@).push(
                (Pending {
                    id,
                    kind: ReplyKind::Single,
                    reply,
                    deadline: (now + REQUEST_TIMEOUT_MS + PENDING_GRACE_MS) as u64,
                }),
            ),
{
    let id = fresh_id();
    let ghost own = id;
    let r = submit_version_request(queue, reply, id, now);
    assert(r@ == request_frame("GetVersion"@, own@, empty_object()));
    r
}

// ---------------------------------------------------------------------------------------------
// Receiving
// ---------------------------------------------------------------------------------------------
/// What a frame from OBS means to the rest of the program.
pub enum Delivery<T> {
    /// Nothing is to be done.
    Nothing,
    /// An event for everyone.
    Event(Json),
    /// The reply to a request.
    Reply { to: T, outcome: Result<Json, String> },
    /// The replies to a batch, in the order of its requests.
    BatchReply { to: T, results: Vec<Json> },
}

/// What a frame from OBS means.
#[verifier::ext_equal]
pub enum DeliveryV<T> {
    Nothing,
    Event(json::JsonV),
    Reply(T, Result<json::JsonV, Seq<char>>),
    BatchReply(T, Seq<json::JsonV>),
}

impl<T> View for Delivery<T> {
    type V = DeliveryV<T>;

    open spec fn view(&self) -> DeliveryV<T> {
        match *self {
            Delivery::Nothing => DeliveryV::Nothing,
            Delivery::Event(e) => DeliveryV::Event(e@),
            Delivery::Reply { to, outcome } => DeliveryV::Reply(to, outcome_view(outcome)),
            Delivery::BatchReply { to, results } => DeliveryV::BatchReply(
                to,
                json::items_view(results@),
            ),
        }
    }
}

/// The data of a frame.
pub open spec fn data_part(v: json::JsonV) -> json::JsonV {
    match v.field("d"@) {
        Some(d) => d,
        None => json::JsonV::Null,
    }
}

/// The event that a frame carries.
pub open spec fn event_of(v: json::JsonV) -> json::JsonV {
    match v.field("d"@) {
        Some(d) => d,
        None => empty_object(),
    }
}

/// The id of the request that a frame answers, if it answers one.
pub open spec fn answered_id(v: json::JsonV) -> Option<Seq<char>> {
    if v.int_at("op"@) == Some(7i64) || v.int_at("op"@) == Some(9i64) {
        data_part(v).text_at("requestId"@)
    } else {
        None
    }
}

/// What a frame means, given the requests that wait. A reply goes to the request with its id; a
/// reply of the other kind than the one waited for is dropped.
pub open spec fn delivery<T>(v: json::JsonV, entries: Seq<Pending<T>>) -> DeliveryV<T> {
    if v.int_at("op"@) == Some(5i64) {
        DeliveryV::Event(event_of(v))
    } else {
        match answered_id(v) {
            Some(id) => match entry_of(entries, id) {
                Some(p) => if v.int_at("op"@) == Some(7i64) && p.kind == ReplyKind::Single {
                    DeliveryV::Reply(p.reply, outcome_of(data_part(v)))
                } else if v.int_at("op"@) == Some(9i64) && p.kind == ReplyKind::Batch {
                    DeliveryV::BatchReply(p.reply, data_part(v).items_at("results"@))
                } else {
                    DeliveryV::Nothing
                },
                None => DeliveryV::Nothing,
            },
            None => DeliveryV::Nothing,
        }
    }
}

/// The requests that still wait after a frame.
pub open spec fn still_waiting<T>(v: json::JsonV, entries: Seq<Pending<T>>) -> Seq<Pending<T>> {
    match answered_id(v) {
        Some(id) => without(entries, id),
        None => entries,
    }
}

/// Copies of the items of an array field.
pub fn copy_items(v: &Json, key: &str) -> (r: Vec<Json>)
    ensures
        json::items_view(r@) == v@.items_at(key@),
{
    let mut out: Vec<Json> = Vec::new();
    match v.get_array(key) {
        Some(items) => {
            let mut i: usize = 0;
            while i < items.len()
                invariant
                    i <= items.len(),
                    out.len() == i,
                    forall|k: int| 0 <= k < i ==> (#[trigger] out@[k])@ == items@[k]@,
                decreases items.len() - i,
            {
                out.push(items[i].copy());
                i = i + 1;
            }
            assert(json::items_view(out@) =~= json::items_view(items@));
        },
        None => {
            assert(json::items_view(out@) =~= Seq::empty());
        },
    }
    out
}

/// Finds out what a frame means and takes the request that it answers out of the queue.
pub fn dispatch_value<T>(v: &Json, queue: &mut Queue<T>) -> (r: Delivery<T>)
    requires
        old(queue).wf(),
    ensures
        final(queue).wf(),
        r@ == delivery(v@, old(queue).entries@),
        final(queue).entries@ == still_waiting(v@, old(queue).entries@),
{
    let op = v.get_int("op");
    if op == Some(5i64) {
        return Delivery::Event(copy_or_empty(v.get("d")));
    }
    if op != Some(7i64) && op != Some(9i64) {
        return Delivery::Nothing;
    }
    let null = Json::Null;
    let d: &Json = match v.get("d") {
        Some(d) => d,
        None => &null,
    };
    let id = match d.get_str("requestId") {
        Some(id) => id,
        None => {
            return Delivery::Nothing;
        },
    };
    match queue.remove(id) {
        Some(p) => if op == Some(7i64) && p.kind == ReplyKind::Single {
            Delivery::Reply { to: p.reply, outcome: parse_response(d) }
        } else if op == Some(9i64) && p.kind == ReplyKind::Batch {
            Delivery::BatchReply { to: p.reply, results: copy_items(d, "results") }
        } else {
            Delivery::Nothing
        },
        None => Delivery::Nothing,
    }
}

/// Finds out what a text from the socket means. Text that is no JSON is passed over.
pub fn dispatch<T>(raw: &str, queue: &mut Queue<T>) -> (r: Delivery<T>)
    requires
        old(queue).wf(),
    ensures
        final(queue).wf(),
        match json::parsed(raw@) {
            Ok(v) => r@ == delivery(v, old(queue).entries@) && final(queue).entries@
                == still_waiting(v, old(queue).entries@),
            Err(_) => r@ == DeliveryV::<T>::Nothing && final(queue).entries@ == old(
                queue,
            ).entries@,
        },
{
    match Json::parse(raw) {
        Ok(v) => dispatch_value(&v, queue),
        Err(_) => Delivery::Nothing,
    }
}

// ---------------------------------------------------------------------------------------------
// The handshake
// ---------------------------------------------------------------------------------------------
/// The reply to the challenge of OBS.
pub open spec fn auth_of(password: Seq<char>, salt: Seq<char>, challenge: Seq<char>) -> Seq<char> {
    let secret = secrets::base64_of(
        secrets::sha256_of(secrets::bytes_of(password) + secrets::bytes_of(salt)),
    );
    secrets::base64_of(secrets::sha256_of(secrets::bytes_of(secret) + secrets::bytes_of(challenge)))
}

fn bytes_of_both(a: &str, b: &str) -> (r: Vec<u8>)
    ensures
        r@ == secrets::bytes_of(a@) + secrets::bytes_of(b@),
{
    let mut out: Vec<u8> = Vec::new();
    let x = a.as_bytes();
    let y = b.as_bytes();
    let mut i: usize = 0;
    while i < x.len()
        invariant
            i <= x.len(),
            out@ == x@.take(i as int),
        decreases x.len() - i,
    {
        out.push(x[i]);
        i = i + 1;
    }
    assert(x@.take(i as int) =~= x@);
    let mut j: usize = 0;
    assert(out@ =~= x@ + y@.take(0));
    while j < y.len()
        invariant
            j <= y.len(),
            out@ == x@ + y@.take(j as int),
        decreases y.len() - j,
    {
        out.push(y[j]);
        j = j + 1;
        assert(y@.take(j as int) =~= y@.take(j - 1).push(y@[j - 1]));
    }
    assert(y@.take(j as int) =~= y@);
    out
}

/// The reply to the challenge of OBS: two rounds of SHA-256 in base64.
pub fn obs_auth(password: &str, salt: &str, challenge: &str) -> (r: String)
    ensures
        r@ == auth_of(password@, salt@, challenge@),
{
    let first = secrets::sha256(&bytes_of_both(password, salt));
    let secret = secrets::base64_standard(&first);
    let second = secrets::sha256(&bytes_of_both(secret.as_str(), challenge));
    secrets::base64_standard(&second)
}

/// How far the handshake has come.
#[derive(Debug)]
pub enum Handshake {
    /// Hello is waited for.
    Greeting,
    /// Identify was sent; Identified is waited for.
    Identifying { websocket_version: Option<String> },
}

/// A stage of the handshake.
#[verifier::ext_equal]
pub enum StageV {
    Greeting,
    Identifying { websocket_version: Option<Seq<char>> },
}

impl View for Handshake {
    type V = StageV;

    open spec fn view(&self) -> StageV {
        match *self {
            Handshake::Greeting => StageV::Greeting,
            Handshake::Identifying { websocket_version } => StageV::Identifying {
                websocket_version: text::opt_view(websocket_version),
            },
        }
    }
}

/// What a frame means during the handshake.
pub enum HandshakeStep {
    /// An event that came in between; the stage stays the same.
    Forward(Json),
    /// This frame is to be sent, and the handshake goes on at the next stage.
    Identify { frame: Json, next: Handshake },
    /// The connection stands.
    Connected(ObsStatus),
    /// The handshake failed.
    Failed(String),
}

/// What a frame means during the handshake.
#[verifier::ext_equal]
pub enum HandshakeV {
    Forward(json::JsonV),
    Identify { frame: json::JsonV, next: StageV },
    Connected(StatusV),
    Failed(Seq<char>),
}

impl HandshakeStep {
    /// What the step is.
    pub open spec fn meaning(self) -> HandshakeV {
        match self {
            HandshakeStep::Forward(e) => HandshakeV::Forward(e@),
            HandshakeStep::Identify { frame, next } => HandshakeV::Identify {
                frame: frame@,
                next: next@,
            },
            HandshakeStep::Connected(status) => HandshakeV::Connected(status@),
            HandshakeStep::Failed(e) => HandshakeV::Failed(e@),
        }
    }
}

/// What to say when OBS wants a password and none is known.
pub open spec fn password_missing() -> Seq<char> {
    "OBS WebSocket требует пароль, а он не задан. Запустите AccessibleOBS.exe в режиме актёра — он создаст и сохранит пароль."@
}

/// A text, or the empty one.
pub open spec fn or_empty(o: Option<Seq<char>>) -> Seq<char> {
    match o {
        Some(s) => s,
        None => Seq::empty(),
    }
}

/// The frame by which the client identifies itself, with the reply to the challenge if OBS sent one.
pub open spec fn identify_frame(
    authentication: Option<json::JsonV>,
    password: Seq<char>,
) -> json::JsonV {
    let base = map![
        "rpcVersion"@ => json::JsonV::Int(1),
        "eventSubscriptions"@ => json::JsonV::Int(EVENT_SUBSCRIPTIONS as i64),
    ];
    frame_of(
        1,
        json::JsonV::Object(
            match authentication {
                Some(auth) => base.insert(
                    "authentication"@,
                    json::JsonV::Str(
                        auth_of(
                            password,
                            or_empty(auth.text_at("salt"@)),
                            or_empty(auth.text_at("challenge"@)),
                        ),
                    ),
                ),
                None => base,
            },
        ),
    )
}

/// What a frame means at a stage of the handshake. Events may come at any time and change nothing.
pub open spec fn handshake_meaning(
    stage: StageV,
    v: json::JsonV,
    password: Seq<char>,
) -> HandshakeV {
    if v.int_at("op"@) == Some(5i64) {
        HandshakeV::Forward(event_of(v))
    } else {
        match stage {
            StageV::Greeting => {
                let authentication = data_part(v).field("authentication"@);
                if v.int_at("op"@) != Some(0i64) {
                    HandshakeV::Failed("Неожиданный ответ OBS при подключении"@)
                } else if authentication is Some && password.len() == 0 {
                    HandshakeV::Failed(password_missing())
                } else {
                    HandshakeV::Identify {
                        frame: identify_frame(authentication, password),
                        next: StageV::Identifying {
                            websocket_version: data_part(v).text_at("obsWebSocketVersion"@),
                        },
                    }
                }
            },
            StageV::Identifying { websocket_version } => if v.int_at("op"@) != Some(2i64) {
                HandshakeV::Failed("OBS не подтвердил подключение (Identified не получен)"@)
            } else {
                HandshakeV::Connected(
                    StatusV {
                        connected: true,
                        obs_version: None,
                        websocket_version,
                        error: None,
                    },
                )
            },
        }
    }
}

fn str_or_empty<'a>(o: Option<&'a str>) -> (r: &'a str)
    ensures
        r@ == or_empty(text::opt_str(o)),
{
    match o {
        Some(s) => s,
        None => {
            proof {
                reveal_strlit("");
                assert(""@ =~= Seq::empty());
            }
            ""
        },
    }
}

/// Takes a frame at a stage of the handshake and says what to do.
pub fn handshake_value(stage: &Handshake, v: &Json, password: &str) -> (r: HandshakeStep)
    ensures
        r.meaning() == handshake_meaning(stage@, v@, password@),
{
    let op = v.get_int("op");
    if op == Some(5i64) {
        return HandshakeStep::Forward(copy_or_empty(v.get("d")));
    }
    match stage {
        Handshake::Greeting => {
            if op != Some(0i64) {
                return HandshakeStep::Failed("Неожиданный ответ OBS при подключении".to_owned());
            }
            let null = Json::Null;
            let d: &Json = match v.get("d") {
                Some(d) => d,
                None => &null,
            };
            let websocket_version = d.get_text("obsWebSocketVersion");
            let fields = Fields::new().put("rpcVersion", Json::Int(1)).put(
                "eventSubscriptions",
                Json::Int(EVENT_SUBSCRIPTIONS as i64),
            );
            let fields = match d.get("authentication") {
                Some(auth) => {
                    if password.is_empty() {
                        return HandshakeStep::Failed(
                            "OBS WebSocket требует пароль, а он не задан. Запустите AccessibleOBS.exe в режиме актёра — он создаст и сохранит пароль.".to_owned(),
                        );
                    }
                    let salt = str_or_empty(auth.get_str("salt"));
                    let challenge = str_or_empty(auth.get_str("challenge"));
                    let reply = obs_auth(password, salt, challenge);
                    fields.put("authentication", Json::Str(reply))
                },
                None => fields,
            };
            HandshakeStep::Identify {
                frame: make_frame(1, fields.json()),
                next: Handshake::Identifying { websocket_version },
            }
        },
        Handshake::Identifying { websocket_version } => {
            if op != Some(2i64) {
                return HandshakeStep::Failed(
                    "OBS не подтвердил подключение (Identified не получен)".to_owned(),
                );
            }
            HandshakeStep::Connected(
                ObsStatus {
                    connected: true,
                    obs_version: None,
                    websocket_version: text::copy_opt(websocket_version),
                    error: None,
                },
            )
        },
    }
}

/// Takes a text from the socket at a stage of the handshake and says what to do. Text that is no
/// JSON ends the handshake with the reason.
pub fn handshake_text(stage: &Handshake, raw: &str, password: &str) -> (r: HandshakeStep)
    ensures
        r.meaning() == (match json::parsed(raw@) {
            Ok(v) => handshake_meaning(stage@, v, password@),
            Err(e) => HandshakeV::Failed(e),
        }),
{
    match Json::parse(raw) {
        Ok(v) => handshake_value(stage, &v, password),
        Err(e) => HandshakeStep::Failed(e),
    }
}

// ---------------------------------------------------------------------------------------------
// Losing and regaining the connection
// ---------------------------------------------------------------------------------------------
/// What a closed socket tells the user. A refused password is the one reason that they can mend
/// themselves, so the text says what to run.
pub open spec fn close_reason(frame: Option<(u16, Seq<char>)>) -> Seq<char> {
    match frame {
        None => "OBS закрыл соединение"@,
        Some(f) => if f.0 == 4009 {
            "OBS отклонил пароль WebSocket. Запустите AccessibleOBS.exe в режиме актёра (START_FRIEND.bat) — он пересоздаст пароль и настроит OBS."@
        } else if f.0 == 4008 {
            "OBS требует авторизацию, а пароль не был отправлен"@
        } else {
            "OBS закрыл соединение (код "@ + text::decimal(f.0 as nat) + "): "@ + f.1
        },
    }
}

/// What a closed socket tells the user, from the code and the reason of the close frame.
pub fn close_error(frame: Option<(u16, &str)>) -> (r: String)
    ensures
        r@ == close_reason(
            match frame {
                Some(f) => Some((f.0, f.1@)),
                None => None,
            },
        ),
{
    match frame {
        None => "OBS закрыл соединение".to_owned(),
        Some((code, reason)) => if code == 4009 {
            "OBS отклонил пароль WebSocket. Запустите AccessibleOBS.exe в режиме актёра (START_FRIEND.bat) — он пересоздаст пароль и настроит OBS.".to_owned()
        } else if code == 4008 {
            "OBS требует авторизацию, а пароль не был отправлен".to_owned()
        } else {
            let n = text::number(code as u128);
            text::join4("OBS закрыл соединение (код ", n.as_str(), "): ", reason)
        },
    }
}

/// An error as the user is told of it: a refused connection means that OBS is not there.
pub open spec fn friendly(e: Seq<char>) -> Seq<char> {
    let low = text::lowered(e);
    if text::holds_text(low, "econnrefused"@) || text::holds_text(low, "connection refused"@)
        || text::holds_text(low, "не удалось подключиться"@) {
        "OBS не отвечает. Проверьте, что OBS Studio запущен и WebSocket-сервер включён."@
    } else {
        e
    }
}

/// An error as the user is told of it.
pub fn friendly_obs_error(e: &str) -> (r: String)
    ensures
        r@ == friendly(e@),
{
    let low = text::to_lower(e);
    if text::contains(low.as_str(), "econnrefused") || text::contains(
        low.as_str(),
        "connection refused",
    ) || text::contains(low.as_str(), "не удалось подключиться") {
        "OBS не отвечает. Проверьте, что OBS Studio запущен и WebSocket-сервер включён.".to_owned()
    } else {
        e.to_owned()
    }
}

/// How a session ended.
pub enum SessionEnd {
    /// The socket was closed.
    Closed,
    /// Nobody sends commands any more.
    HandleDropped,
    /// An error ended it.
    Failed(String),
}

/// The supervisor of the connection: its state, and the pause before the next attempt.
pub struct Supervisor {
    pub status: ObsStatus,
    pub backoff: Backoff,
}

impl Supervisor {
    /// Before the first attempt.
    pub fn new() -> (r: Supervisor)
        ensures
            r.status@ == disconnected(None),
            r.backoff == (Backoff {
                pause: RECONNECT_MIN_MS,
                min: RECONNECT_MIN_MS,
                max: RECONNECT_MAX_MS,
            }),
            r.backoff.wf(),
    {
        Supervisor {
            status: ObsStatus::default(),
            backoff: Backoff::new(RECONNECT_MIN_MS, RECONNECT_MAX_MS),
        }
    }

    /// Takes the end of a session and gives the pause before the next attempt, if there is to be
    /// one. A session that did stand starts the pauses anew: hours of trouble before it must not
    /// cost extra seconds at the first hiccup after it.
    pub fn session_ended(&mut self, end: SessionEnd) -> (r: Option<u64>)
        requires
            old(self).backoff.wf(),
        ensures
            final(self).backoff.wf(),
            end is HandleDropped ==> r is None && *final(self) == *old(self),
            end !is HandleDropped ==> {
                &&& final(self).status@ == disconnected(
                    match end {
                        SessionEnd::Failed(e) => Some(friendly(e@)),
                        _ => None,
                    },
                )
                &&& final(self).backoff == if old(self).status.connected {
                    Backoff { pause: old(self).backoff.min, ..old(self).backoff }
                } else {
                    old(self).backoff
                }
                &&& r == Some(final(self).backoff.pause)
            },
    {
        let was_connected = self.status.connected;
        let error = match end {
            SessionEnd::HandleDropped => {
                return None;
            },
            SessionEnd::Closed => None,
            SessionEnd::Failed(e) => Some(friendly_obs_error(e.as_str())),
        };
        self.status = ObsStatus {
            connected: false,
            obs_version: None,
            websocket_version: None,
            error,
        };
        if was_connected {
            self.backoff.reset();
        }
        Some(self.backoff.pause)
    }

    /// The pause is over, or was cut short because OBS was started on purpose.
    pub fn pause_over(&mut self, woken: bool)
        requires
            old(self).backoff.wf(),
        ensures
            final(self).backoff.wf(),
            final(self).status == old(self).status,
            final(self).backoff == (Backoff {
                pause: if woken {
                    old(self).backoff.min
                } else {
                    old(self).backoff.longer()
                },
                ..old(self).backoff
            }),
    {
        if woken {
            self.backoff.reset();
        } else {
            self.backoff.grow();
        }
    }
}

/// Whether to ask for the version of OBS once more, and how many attempts that makes. Once the
/// version is known there are no more.
pub fn version_probe(tries: u8, known: bool) -> (r: (u8, bool))
    requires
        tries < VERSION_MAX_TRIES,
    ensures
        known ==> r == (VERSION_MAX_TRIES, false),
        !known ==> r == ((tries + 1) as u8, true),
{
    if known {
        (VERSION_MAX_TRIES, false)
    } else {
        (tries + 1, true)
    }
}

/// Notes the version of OBS. The connection may be gone by the time the reply comes; then nothing
/// is noted.
pub fn note_version(status: &mut ObsStatus, data: &Json)
    ensures
        final(status)@ == (match data@.text_at("obsVersion"@) {
            Some(version) => if old(status)@.connected {
                StatusV { obs_version: Some(version), ..old(status)@ }
            } else {
                old(status)@
            },
            None => old(status)@,
        }),
{
    if let Some(version) = data.get_text("obsVersion") {
        if status.connected {
            status.obs_version = Some(version);
        }
    }
}

// ---------------------------------------------------------------------------------------------
// Commands without a reply
// ---------------------------------------------------------------------------------------------
/// Why a command got no reply.
#[derive(Debug, Clone, Copy, PartialEq, Eq, Structural)]
pub enum NoReply {
    /// The connection is not looked after any more.
    Stopped,
    /// There is no connection; to wait for one would look like a panel that hangs.
    NotConnected,
    /// The connection was closed.
    Closed,
    /// The connection broke off.
    Broken,
    /// OBS took too long.
    Late,
}

impl NoReply {
    /// What the caller is told.
    pub open spec fn words(self) -> Seq<char> {
        match self {
            NoReply::Stopped => "OBS-клиент остановлен"@,
            NoReply::NotConnected => "OBS не подключён"@,
            NoReply::Closed => "Соединение с OBS закрыто"@,
            NoReply::Broken => "Соединение с OBS разорвано во время запроса"@,
            NoReply::Late => "OBS не ответил за 10 секунд"@,
        }
    }

    /// What the caller is told.
    pub fn reason(&self) -> (r: String)
        ensures
            r@ == self.words(),
    {
        match self {
            NoReply::Stopped => "OBS-клиент остановлен".to_owned(),
            NoReply::NotConnected => "OBS не подключён".to_owned(),
            NoReply::Closed => "Соединение с OBS закрыто".to_owned(),
            NoReply::Broken => "Соединение с OBS разорвано во время запроса".to_owned(),
            NoReply::Late => "OBS не ответил за 10 секунд".to_owned(),
        }
    }
}

/// Whether a batch goes out at all: OBS is not asked nothing.
pub fn worth_asking(requests: &Vec<BatchItem>) -> (r: bool)
    ensures
        r == (requests@.len() > 0),
{
    requests.len() > 0
}

// ---------------------------------------------------------------------------------------------
// Sound levels
// ---------------------------------------------------------------------------------------------
/// The numbers among the items of an array.
pub open spec fn numbers_in(items: Seq<json::JsonV>) -> Seq<json::JsonV> {
    items.filter(|v: json::JsonV| v.is_number())
}

/// The numbers of all channels of an input: of every item that is an array.
pub open spec fn channel_numbers(channels: Seq<json::JsonV>) -> Seq<json::JsonV>
    decreases channels.len(),
{
    if channels.len() == 0 {
        Seq::empty()
    } else {
        channel_numbers(channels.drop_last()) + (match channels.last() {
            json::JsonV::Array(items) => numbers_in(items),
            _ => Seq::empty(),
        })
    }
}

/// An input with the multipliers measured on its channels.
pub struct MeterInput {
    pub name: String,
    pub levels: Vec<Json>,
}

/// An input with the multipliers measured on its channels.
#[verifier::ext_equal]
pub struct MeterV {
    pub name: Seq<char>,
    pub levels: Seq<json::JsonV>,
}

impl View for MeterInput {
    type V = MeterV;

    open spec fn view(&self) -> MeterV {
        MeterV { name: self.name@, levels: json::items_view(self.levels@) }
    }
}

/// The inputs with their multipliers.
pub open spec fn meter_views(list: Seq<MeterInput>) -> Seq<MeterV> {
    list.map_values(|m: MeterInput| m@)
}

/// What an item of the event measures, if anything. OBS sends an empty list of levels for a source
/// without sound; to show eternal silence for it would be a lie.
pub open spec fn metered(input: json::JsonV) -> Option<MeterV> {
    match (input.text_at("inputName"@), input.array_at("inputLevelsMul"@)) {
        (Some(name), Some(channels)) => if channel_numbers(channels).len() > 0 {
            Some(MeterV { name, levels: channel_numbers(channels) })
        } else {
            None
        },
        _ => None,
    }
}

/// The inputs that the items of the event measure.
pub open spec fn metered_all(inputs: Seq<json::JsonV>) -> Seq<MeterV>
    decreases inputs.len(),
{
    if inputs.len() == 0 {
        Seq::empty()
    } else {
        metered_all(inputs.drop_last()) + (match metered(inputs.last()) {
            Some(m) => seq![m],
            None => Seq::empty(),
        })
    }
}

fn is_number(v: &Json) -> (r: bool)
    ensures
        r == v@.is_number(),
{
    match v {
        Json::Int(_) => true,
        Json::Large(_) => true,
        Json::Real(_) => true,
        _ => false,
    }
}

fn collect_numbers(items: &Vec<Json>, out: &mut Vec<Json>)
    ensures
        json::items_view(final(out)@) == json::items_view(old(out)@) + numbers_in(
            json::items_view(items@),
        ),
{
    let ghost start = json::items_view(out@);
    let ghost all = json::items_view(items@);
    let ghost number = |v: json::JsonV| v.is_number();
    let mut i: usize = 0;
    proof {
        reveal(Seq::filter);
        assert(all.take(0) =~= Seq::<json::JsonV>::empty());
        assert(start =~= start + numbers_in(all.take(0)));
    }
    while i < items.len()
        invariant
            i <= items.len(),
            all == json::items_view(items@),
            number == (|v: json::JsonV| v.is_number()),
            json::items_view(out@) == start + numbers_in(all.take(i as int)),
        decreases items.len() - i,
    {
        proof {
            assert(all.take(i + 1) =~= all.take(i as int).push(items@[i as int]@));
            all.take(i as int).lemma_filter_push(items@[i as int]@, number);
        }
        if is_number(&items[i]) {
            let ghost before = out@;
            out.push(items[i].copy());
            assert(json::items_view(out@) =~= json::items_view(before).push(items@[i as int]@));
            assert(start + numbers_in(all.take(i as int)).push(items@[i as int]@) =~= (start
                + numbers_in(all.take(i as int))).push(items@[i as int]@));
        }
        i = i + 1;
    }
    assert(all.take(i as int) =~= all);
}

fn collect_channels(channels: &Vec<Json>) -> (r: Vec<Json>)
    ensures
        json::items_view(r@) == channel_numbers(json::items_view(channels@)),
{
    let ghost all = json::items_view(channels@);
    let mut out: Vec<Json> = Vec::new();
    let mut i: usize = 0;
    assert(json::items_view(out@) =~= channel_numbers(all.take(0)));
    while i < channels.len()
        invariant
            i <= channels.len(),
            all == json::items_view(channels@),
            json::items_view(out@) == channel_numbers(all.take(i as int)),
        decreases channels.len() - i,
    {
        proof {
            assert(all.take(i + 1).drop_last() =~= all.take(i as int));
            assert(all.take(i + 1).last() == channels@[i as int]@);
        }
        match &channels[i] {
            Json::Array(items) => {
                proof {
                    json::lemma_array_model(*items);
                }
                collect_numbers(items, &mut out);
            },
            _ => {
                assert(json::items_view(out@) + Seq::<json::JsonV>::empty() =~= json::items_view(
                    out@,
                ));
            },
        }
        i = i + 1;
    }
    assert(all.take(i as int) =~= all);
    out
}

/// The inputs that an `InputVolumeMeters` event measures, each with the multipliers of all its
/// channels.
pub fn meter_inputs(event_data: &Json) -> (r: Vec<MeterInput>)
    ensures
        meter_views(r@) == metered_all(event_data@.items_at("inputs"@)),
{
    let mut out: Vec<MeterInput> = Vec::new();
    assert(meter_views(out@) =~= Seq::empty());
    if let Some(inputs) = event_data.get_array("inputs") {
        let ghost all = json::items_view(inputs@);
        let mut i: usize = 0;
        while i < inputs.len()
            invariant
                i <= inputs.len(),
                all == json::items_view(inputs@),
                meter_views(out@) =~= metered_all(all.take(i as int)),
            decreases inputs.len() - i,
        {
            proof {
                assert(all.take(i + 1).drop_last() =~= all.take(i as int));
                assert(all.take(i + 1).last() == inputs@[i as int]@);
            }
            let input = &inputs[i];
            if let (Some(name), Some(channels)) = (
                input.get_text("inputName"),
                input.get_array("inputLevelsMul"),
            ) {
                let levels = collect_channels(channels);
                if levels.len() > 0 {
                    let ghost before = out@;
                    let m = MeterInput { name, levels };
                    let ghost mv = m@;
                    out.push(m);
                    assert(meter_views(out@) =~= meter_views(before).push(mv));
                }
            }
            i = i + 1;
        }
        assert(all.take(i as int) =~= all);
    }
    out
}

// ---------------------------------------------------------------------------------------------
// Laws
// ---------------------------------------------------------------------------------------------
/// The subscriptions hold every category that the panel needs.
pub proof fn law_subscriptions_cover_the_panel()
    ensures
        EVENT_SUBSCRIPTIONS & SUB_SCENES == SUB_SCENES,
        EVENT_SUBSCRIPTIONS & SUB_INPUTS == SUB_INPUTS,
        EVENT_SUBSCRIPTIONS & SUB_OUTPUTS == SUB_OUTPUTS,
        EVENT_SUBSCRIPTIONS & SUB_SCENE_ITEMS == SUB_SCENE_ITEMS,
        EVENT_SUBSCRIPTIONS & SUB_INPUT_VOLUME_METERS == SUB_INPUT_VOLUME_METERS,
{
    assert(EVENT_SUBSCRIPTIONS & SUB_SCENES == SUB_SCENES) by (bit_vector);
    assert(EVENT_SUBSCRIPTIONS & SUB_INPUTS == SUB_INPUTS) by (bit_vector);
    assert(EVENT_SUBSCRIPTIONS & SUB_OUTPUTS == SUB_OUTPUTS) by (bit_vector);
    assert(EVENT_SUBSCRIPTIONS & SUB_SCENE_ITEMS == SUB_SCENE_ITEMS) by (bit_vector);
    assert(EVENT_SUBSCRIPTIONS & SUB_INPUT_VOLUME_METERS == SUB_INPUT_VOLUME_METERS)
        by (bit_vector);
}

/// Commands never grow the queue beyond its limit.
pub proof fn law_queue_is_bounded<T>(
    before: Seq<Pending<T>>,
    cmd: Command<T>,
    id: Seq<char>,
    now: u64,
    after: Seq<Pending<T>>,
    outcome: Submitted<T>,
)
    requires
        before.len() <= PENDING_MAX,
        submits(before, cmd, id, now, after, outcome),
    ensures
        after.len() <= PENDING_MAX,
{
    let room = made_room(before, now);
    before.lemma_filter_len(before_deadline::<T>(now));
    room.lemma_filter_len(other_than::<T>(id));
}

/// A command that was accepted is the one to whom a reply with its id is delivered, and then it
/// waits no longer; every other request waits on.
pub proof fn law_reply_finds_its_request<T>(
    before: Seq<Pending<T>>,
    cmd: Command<T>,
    id: Seq<char>,
    now: u64,
    after: Seq<Pending<T>>,
    outcome: Submitted<T>,
    reply: json::JsonV,
)
    requires
        distinct_ids(after),
        submits(before, cmd, id, now, after, outcome),
        outcome is Frame,
        reply.int_at("op"@) == Some(
            if cmd is Request {
                7i64
            } else {
                9i64
            },
        ),
        data_part(reply).text_at("requestId"@) == Some(id),
    ensures
        delivery(reply, after) == if cmd is Request {
            DeliveryV::Reply(cmd.to(), outcome_of(data_part(reply)))
        } else {
            DeliveryV::BatchReply(cmd.to(), data_part(reply).items_at("results"@))
        },
        still_waiting(reply, after) == without(after, id),
        !waits(still_waiting(reply, after), id),
{
    let last = after.len() - 1;
    assert(after[last].id@ == id);
    assert(waits(after, id));
    let i = choose|i: int| 0 <= i < after.len() && (#[trigger] after[i]).id@ == id;
    if i < last {
        assert(after[i].id@ != after[last].id@);
    }
    let rest = without(after, id);
    assert forall|k: int| 0 <= k < rest.len() implies (#[trigger] rest[k]).id@ != id by {
        after.lemma_filter_pred(other_than::<T>(id), k);
    }
}

/// Until its deadline no sweep takes a request out of the queue, and after it every sweep does.
pub proof fn law_sweep_keeps_exactly_the_living<T>(
    entries: Seq<Pending<T>>,
    p: Pending<T>,
    now: u64,
)
    requires
        entries.contains(p),
    ensures
        alive(entries, now).contains(p) <==> p.deadline > now,
{
    let keep = before_deadline::<T>(now);
    let k = choose|k: int| 0 <= k < entries.len() && entries[k] == p;
    if p.deadline > now {
        entries.lemma_filter_contains(keep, k);
    }
    if alive(entries, now).contains(p) {
        let j = choose|j: int| 0 <= j < alive(entries, now).len() && alive(entries, now)[j] == p;
        entries.lemma_filter_pred(keep, j);
    }
}

/// A frame that answers nobody leaves every request waiting and reaches nobody.
pub proof fn law_unknown_reply_changes_nothing<T>(v: json::JsonV, entries: Seq<Pending<T>>)
    requires
        v.int_at("op"@) != Some(5i64),
        answered_id(v) is Some ==> !waits(entries, answered_id(v)->0),
    ensures
        delivery(v, entries) == DeliveryV::<T>::Nothing,
        still_waiting(v, entries) == entries,
{
    if answered_id(v) is Some {
        let id = answered_id(v)->0;
        assert forall|i: int| 0 <= i < entries.len() implies other_than::<T>(id)(
            #[trigger] entries[i],
        ) by {
            assert(entries[i].id@ != id);
        }
        lemma_filter_all(entries, other_than::<T>(id));
    }
}

/// The frame that goes out for a request names the request, carries its data unchanged and the id
/// under which the reply is waited for.
pub proof fn law_a_request_goes_out_with_its_data<T>(
    before: Seq<Pending<T>>,
    cmd: Command<T>,
    id: Seq<char>,
    now: u64,
    after: Seq<Pending<T>>,
    outcome: Submitted<T>,
)
    requires
        submits(before, cmd, id, now, after, outcome),
        outcome is Frame,
        cmd is Request,
    ensures
        outcome->Frame_0@.int_at("op"@) == Some(6i64),
        outcome->Frame_0@.field("d"@) matches Some(d) && d.text_at("requestType"@) == Some(
            cmd->request_type@,
        ) && d.text_at("requestId"@) == Some(id) && d.field("requestData"@) == Some(
            cmd->request_data@,
        ),
{
    lemma_frame_fields(6, request_fields(cmd->request_type@, id, cmd->request_data@));
    lemma_request_fields(cmd->request_type@, id, cmd->request_data@);
}

/// The frame that goes out for a batch holds its requests in their order, each with its type and its
/// data unchanged and with an id of its own, and asks OBS to go on after one that fails.
pub proof fn law_a_batch_goes_out_with_its_data<T>(
    before: Seq<Pending<T>>,
    cmd: Command<T>,
    id: Seq<char>,
    now: u64,
    after: Seq<Pending<T>>,
    outcome: Submitted<T>,
    i: int,
    j: int,
)
    requires
        submits(before, cmd, id, now, after, outcome),
        outcome is Frame,
        cmd is Batch,
        0 <= i < cmd->requests@.len(),
        0 <= j < cmd->requests@.len(),
    ensures
        outcome->Frame_0@.int_at("op"@) == Some(8i64),
        outcome->Frame_0@.field("d"@) matches Some(d) && d.text_at("requestId"@) == Some(id)
            && d.bool_at("haltOnFailure"@) == Some(false) && d.int_at("executionType"@) == Some(0i64)
            && d.items_at("requests"@).len() == cmd->requests@.len() && d.items_at(
            "requests"@,
        )[i].text_at("requestType"@) == Some(cmd->requests@[i].request_type@) && d.items_at(
            "requests"@,
        )[i].field("requestData"@) == Some(cmd->requests@[i].request_data@) && (i != j ==> d.items_at(
            "requests"@,
        )[i].text_at("requestId"@) != d.items_at("requests"@)[j].text_at("requestId"@)),
{
    let requests = cmd->requests@;
    let items = batch_items(id, requests);
    let d = json::JsonV::Object(
        map![
            "requestId"@ => json::JsonV::Str(id),
            "haltOnFailure"@ => json::JsonV::Bool(false),
            "executionType"@ => json::JsonV::Int(0),
            "requests"@ => json::JsonV::Array(items),
        ],
    );
    lemma_frame_fields(8, d);
    reveal_strlit("requestId");
    reveal_strlit("haltOnFailure");
    reveal_strlit("executionType");
    reveal_strlit("requests");
    assert("requestId"@.len() == 9);
    assert("haltOnFailure"@.len() == 13);
    assert("executionType"@.len() == 13);
    assert("requests"@.len() == 8);
    assert("haltOnFailure"@[0] != "executionType"@[0]);
    let a = id + "-"@ + text::decimal(i as nat);
    let b = id + "-"@ + text::decimal(j as nat);
    lemma_request_fields(requests[i].request_type@, a, requests[i].request_data@);
    lemma_request_fields(requests[j].request_type@, b, requests[j].request_data@);
    if i != j && a == b {
        let n = (id + "-"@).len() as int;
        assert(a.skip(n) =~= text::decimal(i as nat));
        assert(b.skip(n) =~= text::decimal(j as nat));
        text::lemma_decimal_tells_apart(i as nat, j as nat);
    }
}

proof fn lemma_frame_fields(op: i64, d: json::JsonV)
    ensures
        frame_of(op, d).int_at("op"@) == Some(op),
        frame_of(op, d).field("d"@) == Some(d),
{
    reveal_strlit("op");
    reveal_strlit("d");
    assert("op"@.len() == 2);
    assert("d"@.len() == 1);
}

proof fn lemma_request_fields(request_type: Seq<char>, id: Seq<char>, data: json::JsonV)
    ensures
        request_fields(request_type, id, data).text_at("requestType"@) == Some(request_type),
        request_fields(request_type, id, data).text_at("requestId"@) == Some(id),
        request_fields(request_type, id, data).field("requestData"@) == Some(data),
{
    reveal_strlit("requestType");
    reveal_strlit("requestId");
    reveal_strlit("requestData");
    assert("requestType"@.len() == 11);
    assert("requestId"@.len() == 9);
    assert("requestData"@.len() == 11);
    assert("requestType"@[7] != "requestData"@[7]);
}

/// A command is sent as long as fewer than 512 wait, and in a full queue as soon as one of them has
/// waited too long; it then waits itself, for ten seconds and five more, and nobody else is forgotten.
/// Where all of 512 are waited for, the caller is told at once.
pub proof fn law_a_command_is_sent_if_there_is_room<T>(
    before: Seq<Pending<T>>,
    cmd: Command<T>,
    id: Seq<char>,
    now: u64,
    after: Seq<Pending<T>>,
    outcome: Submitted<T>,
    other: Pending<T>,
)
    requires
        now <= u64::MAX - 15_000,
        submits(before, cmd, id, now, after, outcome),
    ensures
        before.len() < 512 ==> outcome is Frame,
        before.len() >= 512 && (forall|i: int|
            0 <= i < before.len() ==> (#[trigger] before[i]).deadline > now) ==> outcome
            is Rejected,
        outcome matches Submitted::Rejected { reply, reason } ==> reply == cmd.to()
            && reason@.len() > 0,
        outcome is Frame ==> after.len() > 0 && after.last().id@ == id && after.last().deadline
            == now + 15_000 && after.last().reply == (match cmd {
            Command::Request { reply, .. } => reply,
            Command::Batch { reply, .. } => reply,
        }) && (after.last().kind == ReplyKind::Batch <==> cmd is Batch),
        before.contains(other) && other.id@ != id && other.deadline > now ==> after.contains(other),
{
    reveal_strlit("OBS не отвечает: слишком много запросов в очереди");
    assert("OBS не отвечает: слишком много запросов в очереди"@.len() > 0);
    if before.len() >= PENDING_MAX && (forall|i: int|
        0 <= i < before.len() ==> (#[trigger] before[i]).deadline > now) {
        lemma_filter_all(before, before_deadline::<T>(now));
    }
    if before.contains(other) && other.id@ != id && other.deadline > now {
        law_sweep_keeps_exactly_the_living(before, other, now);
        let room = made_room(before, now);
        assert(room.contains(other));
        if outcome is Frame {
            let k = choose|k: int| 0 <= k < room.len() && room[k] == other;
            room.lemma_filter_contains(other_than::<T>(id), k);
            assert(after.drop_last().contains(other));
            let m = choose|m: int| 0 <= m < after.drop_last().len() && after.drop_last()[m] == other;
            assert(after[m] == other);
        }
    }
}

/// A reply is a success only if OBS says so in so many words; then its data is handed on, or an empty
/// object where there is none. Everything else is a refusal, with the words of OBS if it has any.
pub proof fn law_only_a_success_is_a_success(d: json::JsonV, status: json::JsonV)
    ensures
        d.field("requestStatus"@) == Some(status) && status.bool_at("result"@) == Some(true) ==> {
            &&& outcome_of(d) is Ok
            &&& d.field("responseData"@) matches Some(data) ==> outcome_of(d)->Ok_0 == data
                && data_of(d) == Some(data)
            &&& d.field("responseData"@) is None ==> outcome_of(d)->Ok_0 == json::JsonV::Object(
                Map::empty(),
            ) && data_of(d) is None
        },
        d.field("requestStatus"@) == Some(status) && status.bool_at("result"@) != Some(true) ==> {
            &&& outcome_of(d) is Err
            &&& data_of(d) is None
            &&& status.text_at("comment"@) matches Some(comment) ==> outcome_of(d)->Err_0 == comment
        },
        d.field("requestStatus"@) is None ==> outcome_of(d) is Err && data_of(d) is None,
{
}

/// An event is handed out to everyone, with its data, and takes no request out of the queue.
pub proof fn law_events_reach_everyone<T>(v: json::JsonV, entries: Seq<Pending<T>>, d: json::JsonV)
    requires
        v.int_at("op"@) == Some(5i64),
    ensures
        v.field("d"@) == Some(d) ==> delivery(v, entries) == DeliveryV::<T>::Event(d),
        delivery(v, entries) is Event,
        still_waiting(v, entries) == entries,
{
}

/// The answer to the challenge is that of the protocol: the password and the salt are hashed together
/// and written in base64, and that with the challenge behind it once more.
pub proof fn law_the_challenge_is_answered(
    password: Seq<char>,
    salt: Seq<char>,
    challenge: Seq<char>,
    hashed: Seq<char>,
)
    requires
        hashed == secrets::base64_of(secrets::sha256_of(secrets::bytes_of(password + salt))),
    ensures
        auth_of(password, salt, challenge) == secrets::base64_of(
            secrets::sha256_of(secrets::bytes_of(hashed + challenge)),
        ),
{
    secrets::law_bytes_of_joined_texts(password, salt);
    secrets::law_bytes_of_joined_texts(hashed, challenge);
}

/// Hello is answered with Identify in the version of the protocol, with the subscriptions, and with
/// an answer to the challenge exactly if OBS sent one; then Identified is waited for, and the version
/// that Hello told is kept. Without a password no challenge is answered.
pub proof fn law_hello_is_answered(
    v: json::JsonV,
    d: json::JsonV,
    password: Seq<char>,
    version: Seq<char>,
    auth: json::JsonV,
    salt: Seq<char>,
    challenge: Seq<char>,
)
    requires
        v.int_at("op"@) == Some(0i64),
        v.field("d"@) == Some(d),
    ensures
        d.field("authentication"@) is None || password.len() > 0 ==> {
            &&& handshake_meaning(StageV::Greeting, v, password) matches HandshakeV::Identify {
                frame,
                next,
            } && frame.int_at("op"@) == Some(1i64) && (frame.field("d"@) matches Some(sent)
                && sent.int_at("rpcVersion"@) == Some(1i64) && sent.int_at("eventSubscriptions"@)
                == Some(EVENT_SUBSCRIPTIONS as i64) && (d.field("authentication"@) is None
                ==> sent.field("authentication"@) is None) && (d.field("authentication"@) == Some(
                auth,
            ) && auth.text_at("salt"@) == Some(salt) && auth.text_at("challenge"@) == Some(
                challenge,
            ) ==> sent.text_at("authentication"@) == Some(auth_of(password, salt, challenge))))
                && (d.text_at("obsWebSocketVersion"@) == Some(version) ==> next
                == StageV::Identifying { websocket_version: Some(version) }) && (d.text_at(
                "obsWebSocketVersion"@,
            ) is None ==> next == StageV::Identifying { websocket_version: None })
        },
        d.field("authentication"@) is Some && password.len() == 0 ==> handshake_meaning(
            StageV::Greeting,
            v,
            password,
        ) is Failed,
{
    reveal_strlit("rpcVersion");
    reveal_strlit("eventSubscriptions");
    reveal_strlit("authentication");
    assert("rpcVersion"@.len() == 10);
    assert("eventSubscriptions"@.len() == 18);
    assert("authentication"@.len() == 14);
    reveal_strlit("op");
    reveal_strlit("d");
    assert("op"@.len() == 2);
    assert("d"@.len() == 1);
}

/// The connection stands only when OBS has said Identified after Identify was sent; any other message
/// but an event ends the handshake. An event is handed on and changes nothing.
pub proof fn law_only_identified_connects(
    stage: StageV,
    v: json::JsonV,
    password: Seq<char>,
    version: Option<Seq<char>>,
)
    ensures
        v.int_at("op"@) == Some(2i64) ==> (handshake_meaning(
            StageV::Identifying { websocket_version: version },
            v,
            password,
        ) matches HandshakeV::Connected(s) && s.connected && s.websocket_version == version
            && s.error is None && s.obs_version is None),
        handshake_meaning(stage, v, password) is Connected ==> stage is Identifying && v.int_at(
            "op"@,
        ) == Some(2i64),
        v.int_at("op"@) == Some(5i64) ==> handshake_meaning(stage, v, password) is Forward,
        v.int_at("op"@) != Some(5i64) && v.int_at("op"@) != Some(2i64) ==> handshake_meaning(
            StageV::Identifying { websocket_version: version },
            v,
            password,
        ) is Failed,
        v.int_at("op"@) != Some(5i64) && v.int_at("op"@) != Some(0i64) ==> handshake_meaning(
            StageV::Greeting,
            v,
            password,
        ) is Failed,
{
}

/// A closed socket is explained by its code: a refused password by what to run, any other code with
/// the code itself and the words of OBS at the end.
pub proof fn law_a_closed_socket_is_explained(code: u16, reason: Seq<char>)
    ensures
        code == 4009 ==> text::holds_text(close_reason(Some((code, reason))), "пароль"@)
            && text::holds_text(close_reason(Some((code, reason))), "AccessibleOBS.exe"@)
            && text::holds_text(close_reason(Some((code, reason))), "START_FRIEND.bat"@),
        code == 4008 ==> text::holds_text(close_reason(Some((code, reason))), "авторизацию"@),
        code != 4009 && code != 4008 ==> close_reason(Some((code, reason))).len() >= reason.len()
            && close_reason(Some((code, reason))).skip(
            close_reason(Some((code, reason))).len() - reason.len(),
        ) == reason && text::holds_text(
            close_reason(Some((code, reason))),
            text::decimal(code as nat),
        ),
{
    reveal_strlit("OBS отклонил пароль WebSocket. Запустите AccessibleOBS.exe в режиме актёра (START_FRIEND.bat) — он пересоздаст пароль и настроит OBS.");
    reveal_strlit("пароль");
    text::lemma_holds_at("OBS отклонил пароль WebSocket. Запустите AccessibleOBS.exe в режиме актёра (START_FRIEND.bat) — он пересоздаст пароль и настроит OBS."@, "пароль"@, 13);
    reveal_strlit("OBS отклонил пароль WebSocket. Запустите AccessibleOBS.exe в режиме актёра (START_FRIEND.bat) — он пересоздаст пароль и настроит OBS.");
    reveal_strlit("AccessibleOBS.exe");
    text::lemma_holds_at("OBS отклонил пароль WebSocket. Запустите AccessibleOBS.exe в режиме актёра (START_FRIEND.bat) — он пересоздаст пароль и настроит OBS."@, "AccessibleOBS.exe"@, 41);
    reveal_strlit("OBS отклонил пароль WebSocket. Запустите AccessibleOBS.exe в режиме актёра (START_FRIEND.bat) — он пересоздаст пароль и настроит OBS.");
    reveal_strlit("START_FRIEND.bat");
    text::lemma_holds_at("OBS отклонил пароль WebSocket. Запустите AccessibleOBS.exe в режиме актёра (START_FRIEND.bat) — он пересоздаст пароль и настроит OBS."@, "START_FRIEND.bat"@, 76);
    reveal_strlit("OBS требует авторизацию, а пароль не был отправлен");
    reveal_strlit("авторизацию");
    text::lemma_holds_at("OBS требует авторизацию, а пароль не был отправлен"@, "авторизацию"@, 12);
    if code != 4009 && code != 4008 {
        let whole = close_reason(Some((code, reason)));
        let head = "OBS закрыл соединение (код "@;
        let digits = text::decimal(code as nat);
        assert(whole.skip(whole.len() - reason.len()) =~= reason);
        text::lemma_holds_at(whole, digits, head.len() as int);
    }
}

/// A refused connection is told as an OBS that does not answer, however the error is written; any
/// other error is told as it is.
pub proof fn law_a_refused_connection_is_told_as_such(e: Seq<char>)
    ensures
        text::holds_text(text::lowered(e), "econnrefused"@) || text::holds_text(
            text::lowered(e),
            "connection refused"@,
        ) ==> text::holds_text(friendly(e), "OBS не отвечает"@),
        friendly(e) != e ==> text::holds_text(friendly(e), "OBS не отвечает"@),
        !text::holds_text(text::lowered(e), "refused"@) && !text::holds_text(
            text::lowered(e),
            "не удалось подключиться"@,
        ) ==> friendly(e) == e,
{
    reveal_strlit("OBS не отвечает. Проверьте, что OBS Studio запущен и WebSocket-сервер включён.");
    reveal_strlit("OBS не отвечает");
    text::lemma_holds_at("OBS не отвечает. Проверьте, что OBS Studio запущен и WebSocket-сервер включён."@, "OBS не отвечает"@, 0);
    let low = text::lowered(e);
    reveal_strlit("refused");
    reveal_strlit("econnrefused");
    reveal_strlit("connection refused");
    if text::holds_text(low, "econnrefused"@) {
        let i = choose|i: int| text::occurs_at(low, "econnrefused"@, i);
        assert(low.subrange(i + 5, i + 12) =~= "econnrefused"@.subrange(5, 12)) by {
            assert(low.subrange(i, i + 12) == "econnrefused"@);
            assert forall|k: int| 0 <= k < 7 implies low.subrange(i + 5, i + 12)[k]
                == "econnrefused"@.subrange(5, 12)[k] by {
                assert(low.subrange(i, i + 12)[k + 5] == "econnrefused"@[k + 5]);
            }
        }
        assert("econnrefused"@.subrange(5, 12) =~= "refused"@);
        text::lemma_holds_at(low, "refused"@, i + 5);
    }
    if text::holds_text(low, "connection refused"@) {
        let i = choose|i: int| text::occurs_at(low, "connection refused"@, i);
        assert(low.subrange(i + 11, i + 18) =~= "connection refused"@.subrange(11, 18)) by {
            assert(low.subrange(i, i + 18) == "connection refused"@);
            assert forall|k: int| 0 <= k < 7 implies low.subrange(i + 11, i + 18)[k]
                == "connection refused"@.subrange(11, 18)[k] by {
                assert(low.subrange(i, i + 18)[k + 11] == "connection refused"@[k + 11]);
            }
        }
        assert("connection refused"@.subrange(11, 18) =~= "refused"@);
        text::lemma_holds_at(low, "refused"@, i + 11);
    }
}

/// Every number on every channel of an input is measured, and nothing else: no channel is left out,
/// whatever stands before it.
pub proof fn law_every_channel_is_measured(
    channels: Seq<json::JsonV>,
    i: int,
    items: Seq<json::JsonV>,
    k: int,
)
    requires
        0 <= i < channels.len(),
        channels[i] == json::JsonV::Array(items),
        0 <= k < items.len(),
        items[k] is Int || items[k] is Large || items[k] is Real,
    ensures
        channel_numbers(channels).contains(items[k]),
    decreases channels.len(),
{
    let before = channel_numbers(channels.drop_last());
    if i == channels.len() - 1 {
        items.lemma_filter_contains(|v: json::JsonV| v.is_number(), k);
        let own = numbers_in(items);
        let m = choose|m: int| 0 <= m < own.len() && own[m] == items[k];
        assert((before + own)[before.len() + m] == items[k]);
    } else {
        law_every_channel_is_measured(channels.drop_last(), i, items, k);
        let m = choose|m: int| 0 <= m < before.len() && before[m] == items[k];
        assert(channel_numbers(channels)[m] == items[k]);
    }
}

/// Every input that the event names with some number on its channels is measured, under its name.
pub proof fn law_every_sounding_input_is_measured(
    inputs: Seq<json::JsonV>,
    i: int,
    name: Seq<char>,
    channels: Seq<json::JsonV>,
)
    requires
        0 <= i < inputs.len(),
        inputs[i].text_at("inputName"@) == Some(name),
        inputs[i].field("inputLevelsMul"@) == Some(json::JsonV::Array(channels)),
        channel_numbers(channels).len() > 0,
    ensures
        metered_all(inputs).contains(MeterV { name, levels: channel_numbers(channels) }),
    decreases inputs.len(),
{
    let m = MeterV { name, levels: channel_numbers(channels) };
    let before = metered_all(inputs.drop_last());
    if i == inputs.len() - 1 {
        assert(metered_all(inputs)[before.len() as int] == m);
    } else {
        law_every_sounding_input_is_measured(inputs.drop_last(), i, name, channels);
        let k = choose|k: int| 0 <= k < before.len() && before[k] == m;
        assert(metered_all(inputs)[k] == m);
    }
}

/// Why a command got no reply is told so that the cases can be told apart.
pub proof fn law_missing_replies_are_told_apart(a: NoReply, b: NoReply)
    ensures
        a.words() == b.words() ==> a == b,
        text::holds_text(NoReply::Late.words(), "10 секунд"@),
        text::holds_text(NoReply::NotConnected.words(), "не подключён"@),
        text::holds_text(NoReply::Broken.words(), "разорвано"@),
        text::holds_text(NoReply::Closed.words(), "закрыто"@),
{
    reveal_strlit("OBS-клиент остановлен");
    reveal_strlit("OBS не подключён");
    reveal_strlit("Соединение с OBS закрыто");
    reveal_strlit("Соединение с OBS разорвано во время запроса");
    reveal_strlit("OBS не ответил за 10 секунд");
    assert("OBS-клиент остановлен"@.len() == 21);
    assert("OBS не подключён"@.len() == 16);
    assert("Соединение с OBS закрыто"@.len() == 24);
    assert("Соединение с OBS разорвано во время запроса"@.len() == 43);
    assert("OBS не ответил за 10 секунд"@.len() == 27);
    reveal_strlit("OBS не ответил за 10 секунд");
    reveal_strlit("10 секунд");
    text::lemma_holds_at("OBS не ответил за 10 секунд"@, "10 секунд"@, 18);
    reveal_strlit("OBS не подключён");
    reveal_strlit("не подключён");
    text::lemma_holds_at("OBS не подключён"@, "не подключён"@, 4);
    reveal_strlit("Соединение с OBS разорвано во время запроса");
    reveal_strlit("разорвано");
    text::lemma_holds_at("Соединение с OBS разорвано во время запроса"@, "разорвано"@, 17);
    reveal_strlit("Соединение с OBS закрыто");
    reveal_strlit("закрыто");
    text::lemma_holds_at("Соединение с OBS закрыто"@, "закрыто"@, 17);
}


/// A question about something named holds the name and nothing else, and the same question about
/// several holds each of the names in turn.
pub proof fn law_a_question_carries_its_name(
    request_type: Seq<char>,
    key: Seq<char>,
    value: Seq<char>,
    names: Seq<Seq<char>>,
    i: int,
    other: Seq<char>,
)
    ensures
        one_text(key, value).text_at(key) == Some(value),
        other != key ==> one_text(key, value).field(other) is None,
        empty_object() is Object && empty_object().field(other) is None,
        one_each(request_type, key, names).len() == names.len(),
        0 <= i < names.len() ==> one_each(request_type, key, names)[i].0 == request_type && one_each(
            request_type,
            key,
            names,
        )[i].1.text_at(key) == Some(names[i]),
{
}

/// What is asked is what the items of a batch say, one by one.
pub proof fn law_a_batch_asks_what_its_items_say(items: Seq<BatchItem>, i: int)
    requires
        0 <= i < items.len(),
    ensures
        asked_all(items).len() == items.len(),
        asked_all(items)[i].0 == items[i].request_type@,
        asked_all(items)[i].1 == items[i].request_data@,
{
}

/// The data of a reply is found at the place of its request, and none beyond the replies.
pub proof fn law_replies_stand_at_their_places(
    results: Seq<json::JsonV>,
    i: int,
    status: json::JsonV,
    data: json::JsonV,
)
    ensures
        0 <= i < results.len() && results[i].field("requestStatus"@) == Some(status)
            && status.bool_at("result"@) == Some(true) && results[i].field("responseData"@) == Some(
            data,
        ) ==> data_at(results, i) == Some(data),
        0 <= i < results.len() && results[i].field("requestStatus"@) == Some(status)
            && status.bool_at("result"@) != Some(true) ==> data_at(results, i) is None,
        i < 0 || i >= results.len() ==> data_at(results, i) is None,
{
}


/// The categories have the numbers of the protocol, and a connection that broke off is tried again
/// after half a second at first and a quarter of a minute at most.
pub proof fn law_the_numbers_of_the_protocol()
    ensures
        SUB_GENERAL == 1 && SUB_CONFIG == 2 && SUB_SCENES == 4 && SUB_INPUTS == 8 && SUB_TRANSITIONS
            == 16 && SUB_OUTPUTS == 64 && SUB_SCENE_ITEMS == 128 && SUB_MEDIA_INPUTS == 256
            && SUB_INPUT_VOLUME_METERS == 65536,
        EVENT_SUBSCRIPTIONS == 1 + 2 + 4 + 8 + 16 + 64 + 128 + 256 + 65536,
        REQUEST_TIMEOUT_MS == 10 * 1000 && PENDING_GRACE_MS == 5 * 1000 && PENDING_MAX == 512,
        RECONNECT_MIN_MS == 500 && RECONNECT_MAX_MS == 15 * 1000 && VERSION_MAX_TRIES == 5,
{
    assert(EVENT_SUBSCRIPTIONS == 66015) by (bit_vector);
}


/// A lost connection is told as such, with its reason and without versions.
pub proof fn law_a_lost_connection_is_told(error: Option<Seq<char>>)
    ensures
        !disconnected(error).connected,
        disconnected(error).error == error,
        disconnected(error).obs_version is None && disconnected(error).websocket_version is None,
        queue_is_full() == "OBS не отвечает: слишком много запросов в очереди"@,
        text::holds_text(password_missing(), "требует пароль"@),
{
    reveal_strlit("OBS WebSocket требует пароль, а он не задан. Запустите AccessibleOBS.exe в режиме актёра — он создаст и сохранит пароль.");
    reveal_strlit("требует пароль");
    text::lemma_holds_at("OBS WebSocket требует пароль, а он не задан. Запустите AccessibleOBS.exe в режиме актёра — он создаст и сохранит пароль."@, "требует пароль"@, 14);
}

} // verus!
