//! The list of donations, as it comes in from DonationAlerts.
//!
//! Two things are kept apart. That the audience sees and hears a donation is the work of the widget
//! in OBS. That the operator has a list of donations is the work of this module: it subscribes to
//! the channel of the account and passes what comes in on to the panel. Without tokens only the
//! list is missing, not the broadcast.
use vstd::prelude::*;
use crate::api::Refusal;
use crate::config::DonationAlertsConfig;
use crate::donations;
use crate::donations::ObsReply;
use crate::events;
use crate::json;
use crate::json::{Fields, Json};
use crate::oauth;
use crate::obs;
use crate::obs::BatchItem;
use crate::panel;
use crate::retry::Backoff;
use crate::roles;
use crate::text;

verus! {

/// How many donations are kept.
pub const MAX_RECENT: usize = 50;

/// How often the connection is kept alive, in milliseconds.
pub const PING_INTERVAL_MS: u64 = 25_000;

/// The shortest pause before a new attempt, in milliseconds.
pub const RETRY_MIN_MS: u64 = 2_000;

/// The longest pause before a new attempt, in milliseconds.
pub const RETRY_MAX_MS: u64 = 60_000;

/// How often the store is looked at while there are no tokens, in milliseconds. That is no error:
/// the owner may not have connected yet.
pub const IDLE_POLL_MS: u64 = 30_000;

/// The number of the method by which a channel is subscribed to.
pub const METHOD_SUBSCRIBE: i64 = 1;

/// The number of the method by which the connection is kept alive.
pub const METHOD_PING: i64 = 7;

// ---------------------------------------------------------------------------------------------
// The list
// ---------------------------------------------------------------------------------------------
/// The state of the subscription.
#[derive(Debug, Clone)]
pub struct FeedStatus {
    pub connected: bool,
    pub user_name: Option<String>,
    pub error: Option<String>,
}

/// What the state of the subscription is.
#[verifier::ext_equal]
pub struct FeedV {
    pub connected: bool,
    pub user_name: Option<Seq<char>>,
    pub error: Option<Seq<char>>,
}

impl View for FeedStatus {
    type V = FeedV;

    open spec fn view(&self) -> FeedV {
        FeedV {
            connected: self.connected,
            user_name: text::opt_view(self.user_name),
            error: text::opt_view(self.error),
        }
    }
}

impl Default for FeedStatus {
    fn default() -> (r: FeedStatus)
        ensures
            r@ == (FeedV { connected: false, user_name: None, error: None }),
    {
        FeedStatus { connected: false, user_name: None, error: None }
    }
}

/// The state of the subscription as the panel gets it.
pub open spec fn feed_value(s: FeedV) -> json::JsonV {
    let m0 = map!["connected"@ => json::JsonV::Bool(s.connected)];
    json::JsonV::Object(
        events::with_optional(
            events::with_optional(m0, "user_name"@, s.user_name),
            "error"@,
            s.error,
        ),
    )
}

impl FeedStatus {
    /// The state as the panel gets it.
    pub fn value(&self) -> (r: Json)
        ensures
            r@ == feed_value(self@),
    {
        let fields = Fields::new().put("connected", Json::Bool(self.connected));
        let fields = events::put_optional(fields, "user_name", &self.user_name);
        events::put_optional(fields, "error", &self.error).json()
    }

    /// A copy.
    pub fn copy(&self) -> (r: FeedStatus)
        ensures
            r@ == self@,
    {
        FeedStatus {
            connected: self.connected,
            user_name: text::copy_opt(&self.user_name),
            error: text::copy_opt(&self.error),
        }
    }
}

/// The list of donations, newest first, and the state of the subscription.
#[derive(Debug)]
pub struct DonationFeed {
    recent: Vec<Json>,
    status: FeedStatus,
}

/// What the list and its state are.
#[verifier::ext_equal]
pub struct FeedContentV {
    pub recent: Seq<json::JsonV>,
    pub status: FeedV,
}

impl View for DonationFeed {
    type V = FeedContentV;

    closed spec fn view(&self) -> FeedContentV {
        FeedContentV { recent: json::items_view(self.recent@), status: self.status@ }
    }
}

/// A donation as the panel gets it.
pub open spec fn donation_event(donation: json::JsonV) -> json::JsonV {
    json::JsonV::Object(
        map!["type"@ => json::JsonV::Str("donation"@), "donation"@ => donation],
    )
}

/// A change of state as the panel gets it.
pub open spec fn feed_event(status: FeedV) -> json::JsonV {
    json::JsonV::Object(
        map![
            "type"@ => json::JsonV::Str("donationalerts_status"@),
            "status"@ => feed_value(status),
        ],
    )
}

/// The list after a donation came in: it stands first, and of a list that is too long the oldest
/// leave.
pub open spec fn pushed(recent: Seq<json::JsonV>, donation: json::JsonV) -> Seq<json::JsonV> {
    let longer = seq![donation] + recent;
    if longer.len() > MAX_RECENT {
        longer.take(MAX_RECENT as int)
    } else {
        longer
    }
}

/// Copies of a list of values.
pub fn copy_values(list: &Vec<Json>) -> (r: Vec<Json>)
    ensures
        json::items_view(r@) == json::items_view(list@),
{
    let mut out: Vec<Json> = Vec::new();
    let mut i: usize = 0;
    while i < list.len()
        invariant
            i <= list@.len(),
            out@.len() == i,
            forall|k: int| 0 <= k < i ==> (#[trigger] out@[k])@ == list@[k]@,
        decreases list.len() - i,
    {
        out.push(list[i].copy());
        i = i + 1;
    }
    assert(json::items_view(out@) =~= json::items_view(list@));
    out
}

impl DonationFeed {
    /// At most so many donations are kept.
    pub open spec fn wf(self) -> bool {
        self@.recent.len() <= MAX_RECENT
    }

    /// An empty list, without a subscription.
    pub fn new() -> (r: DonationFeed)
        ensures
            r.wf(),
            r@ == (FeedContentV {
                recent: Seq::empty(),
                status: FeedV { connected: false, user_name: None, error: None },
            }),
    {
        let r = DonationFeed { recent: Vec::new(), status: FeedStatus::default() };
        assert(r@.recent =~= Seq::empty());
        r
    }

    /// The donations, newest first.
    pub fn recent(&self) -> (r: Vec<Json>)
        ensures
            json::items_view(r@) == self@.recent,
    {
        copy_values(&self.recent)
    }

    /// The state of the subscription.
    pub fn status(&self) -> (r: FeedStatus)
        ensures
            r@ == self@.status,
    {
        self.status.copy()
    }

    /// Takes a donation into the list and gives what the panel is to be told.
    pub fn push(&mut self, donation: Json) -> (r: Json)
        requires
            old(self).wf(),
        ensures
            final(self).wf(),
            final(self)@.recent == pushed(old(self)@.recent, donation@),
            final(self)@.status == old(self)@.status,
            r@ == donation_event(donation@),
    {
        let ghost before = self@.recent;
        let told = Fields::new().put("type", Json::text("donation")).put(
            "donation",
            donation.copy(),
        ).json();
        self.recent.insert(0, donation);
        assert(json::items_view(self.recent@) =~= seq![donation@] + before);
        if self.recent.len() > MAX_RECENT {
            self.recent.truncate(MAX_RECENT);
        }
        assert(json::items_view(self.recent@) =~= pushed(before, donation@));
        told
    }

    /// Takes a new state and gives what the panel is to be told: only the coming and going of the
    /// connection is.
    pub fn set_status(&mut self, status: FeedStatus) -> (r: Option<Json>)
        ensures
            final(self)@.recent == old(self)@.recent,
            final(self)@.status == status@,
            match r {
                Some(v) => status@.connected != old(self)@.status.connected && v@ == feed_event(
                    status@,
                ),
                None => status@.connected == old(self)@.status.connected,
            },
    {
        let changed = self.status.connected != status.connected;
        let told = if changed {
            Some(
                Fields::new().put("type", Json::text("donationalerts_status")).put(
                    "status",
                    status.value(),
                ).json(),
            )
        } else {
            None
        };
        self.status = status;
        told
    }
}

/// The list as the panel gets it.
pub fn da_recent(feed: &DonationFeed) -> (r: Json)
    ensures
        r@ == json::JsonV::Object(map!["donations"@ => json::JsonV::Array(feed@.recent)]),
{
    let list = feed.recent();
    proof {
        json::lemma_array_model(list);
    }
    Fields::new().put("donations", Json::Array(list)).json()
}

// ---------------------------------------------------------------------------------------------
// Frames that come in
// ---------------------------------------------------------------------------------------------
/// A field inside a field, if both are there.
pub open spec fn path2(v: json::JsonV, a: Seq<char>, b: Seq<char>) -> Option<json::JsonV> {
    match v.field(a) {
        Some(inner) => inner.field(b),
        None => None,
    }
}

fn get2<'a>(v: &'a Json, a: &str, b: &str) -> (r: Option<&'a Json>)
    ensures
        json::opt_model(r) == path2(v@, a@, b@),
{
    match v.get(a) {
        Some(inner) => inner.get(b),
        None => None,
    }
}

/// The donation in a message. A message with a number answers a command and holds none.
pub open spec fn donation_in(v: json::JsonV) -> Option<json::JsonV> {
    if v.field("id"@) is Some {
        None
    } else {
        match path2(v, "result"@, "data"@) {
            Some(data) => data.field("data"@),
            None => None,
        }
    }
}

/// The donation in a message.
pub fn pushed_donation(v: &Json) -> (r: Option<&Json>)
    ensures
        json::opt_model(r) == donation_in(v@),
{
    if v.get("id").is_some() {
        return None;
    }
    match get2(v, "result", "data") {
        Some(data) => data.get("data"),
        None => None,
    }
}

/// The message in a line; a blank line holds none, nor does one that is no JSON.
pub open spec fn message_in(line: Seq<char>) -> Option<json::JsonV> {
    if text::trimmed(line).len() == 0 {
        None
    } else {
        match json::parsed(line) {
            Ok(v) => Some(v),
            Err(_) => None,
        }
    }
}

/// The messages in the lines of a frame.
pub open spec fn messages_in(lines: Seq<Seq<char>>) -> Seq<json::JsonV>
    decreases lines.len(),
{
    if lines.len() == 0 {
        Seq::empty()
    } else {
        messages_in(lines.drop_last()) + (match message_in(lines.last()) {
            Some(v) => seq![v],
            None => Seq::empty(),
        })
    }
}

/// The messages in a frame. Several may come in one, each on a line of its own.
pub fn frame_messages(frame: &str) -> (r: Vec<Json>)
    ensures
        json::items_view(r@) == messages_in(text::lines_of(frame@)),
{
    let lines = text::lines(frame);
    let ghost all = text::views(lines@);
    let mut out: Vec<Json> = Vec::new();
    assert(json::items_view(out@) =~= Seq::empty());
    let mut i: usize = 0;
    while i < lines.len()
        invariant
            i <= lines@.len(),
            all == text::views(lines@),
            json::items_view(out@) == messages_in(all.take(i as int)),
        decreases lines.len() - i,
    {
        proof {
            assert(all.take(i + 1).drop_last() =~= all.take(i as int));
            assert(all.take(i + 1).last() == lines@[i as int]@);
        }
        let ghost before = json::items_view(out@);
        let line = lines[i].as_str();
        let message = if text::is_blank(line) {
            None
        } else {
            match Json::parse(line) {
                Ok(v) => Some(v),
                Err(_) => None,
            }
        };
        match message {
            Some(v) => {
                let ghost own = v@;
                out.push(v);
                assert(json::items_view(out@) =~= before + seq![own]);
            },
            None => {
                assert(json::items_view(out@) =~= before + Seq::<json::JsonV>::empty());
            },
        }
        i = i + 1;
    }
    assert(all.take(i as int) =~= all);
    out
}

/// The donations in messages, in their order.
pub open spec fn donations_in(messages: Seq<json::JsonV>) -> Seq<json::JsonV>
    decreases messages.len(),
{
    if messages.len() == 0 {
        Seq::empty()
    } else {
        donations_in(messages.drop_last()) + (match donation_in(messages.last()) {
            Some(d) => seq![d],
            None => Seq::empty(),
        })
    }
}

/// The donations in messages, in their order.
pub fn donations_among(messages: &Vec<Json>) -> (r: Vec<Json>)
    ensures
        json::items_view(r@) == donations_in(json::items_view(messages@)),
{
    let ghost all = json::items_view(messages@);
    let mut out: Vec<Json> = Vec::new();
    assert(json::items_view(out@) =~= Seq::empty());
    let mut i: usize = 0;
    while i < messages.len()
        invariant
            i <= messages@.len(),
            all == json::items_view(messages@),
            json::items_view(out@) == donations_in(all.take(i as int)),
        decreases messages.len() - i,
    {
        proof {
            assert(all.take(i + 1).drop_last() =~= all.take(i as int));
            assert(all.take(i + 1).last() == messages@[i as int]@);
        }
        let ghost before = json::items_view(out@);
        match pushed_donation(&messages[i]) {
            Some(d) => {
                out.push(d.copy());
                assert(json::items_view(out@) =~= before + seq![d@]);
            },
            None => {
                assert(json::items_view(out@) =~= before + Seq::<json::JsonV>::empty());
            },
        }
        i = i + 1;
    }
    assert(all.take(i as int) =~= all);
    out
}

/// The donations in a frame.
pub fn extract_donations(frame: &str) -> (r: Vec<Json>)
    ensures
        json::items_view(r@) == donations_in(messages_in(text::lines_of(frame@))),
{
    donations_among(&frame_messages(frame))
}

// ---------------------------------------------------------------------------------------------
// Replies to commands
// ---------------------------------------------------------------------------------------------
/// What a frame says of a command that is waited for.
pub enum Awaited {
    /// Nothing yet.
    NotYet,
    /// It succeeded, with this reply.
    Done(Json),
    /// It was refused.
    Refused(String),
}

/// What a frame says of a command that is waited for.
#[verifier::ext_equal]
pub enum AwaitedV {
    NotYet,
    Done(json::JsonV),
    Refused(Seq<char>),
}

impl View for Awaited {
    type V = AwaitedV;

    open spec fn view(&self) -> AwaitedV {
        match *self {
            Awaited::NotYet => AwaitedV::NotYet,
            Awaited::Done(v) => AwaitedV::Done(v@),
            Awaited::Refused(e) => AwaitedV::Refused(e@),
        }
    }
}

/// What one message says of a command.
pub open spec fn answer_in(v: json::JsonV, id: i64) -> AwaitedV {
    if v.int_at("id"@) != Some(id) {
        AwaitedV::NotYet
    } else {
        match v.field("error"@) {
            Some(error) => AwaitedV::Refused(
                "Centrifugo отклонил команду "@ + text::signed_decimal(id as int) + ": "@ + (
                match error.text_at("message"@) {
                    Some(m) => m,
                    None => "неизвестная ошибка"@,
                }),
            ),
            None => AwaitedV::Done(v),
        }
    }
}

/// What messages say of a command: the first that answers it counts.
pub open spec fn answer_among(messages: Seq<json::JsonV>, id: i64) -> AwaitedV
    decreases messages.len(),
{
    if messages.len() == 0 {
        AwaitedV::NotYet
    } else {
        match answer_among(messages.drop_last(), id) {
            AwaitedV::NotYet => answer_in(messages.last(), id),
            found => found,
        }
    }
}

proof fn lemma_answer_stays(messages: Seq<json::JsonV>, id: i64, i: int)
    requires
        0 <= i <= messages.len(),
        !(answer_among(messages.take(i), id) is NotYet),
    ensures
        answer_among(messages, id) == answer_among(messages.take(i), id),
    decreases messages.len(),
{
    if i == messages.len() {
        assert(messages.take(i) =~= messages);
    } else {
        assert(messages.drop_last().take(i) =~= messages.take(i));
        lemma_answer_stays(messages.drop_last(), id, i);
    }
}

fn answer_of(v: &Json, id: i64) -> (r: Awaited)
    ensures
        r@ == answer_in(v@, id),
{
    let own = match v.get_int("id") {
        Some(n) => n == id,
        None => false,
    };
    if !own {
        return Awaited::NotYet;
    }
    match v.get("error") {
        Some(error) => {
            let number = text::signed_number(id);
            let message = match error.get_str("message") {
                Some(m) => m,
                None => "неизвестная ошибка",
            };
            Awaited::Refused(
                text::join4("Centrifugo отклонил команду ", number.as_str(), ": ", message),
            )
        },
        None => Awaited::Done(v.copy()),
    }
}

/// What messages say of a command: the first that answers it counts.
pub fn reply_among(messages: &Vec<Json>, id: i64) -> (r: Awaited)
    ensures
        r@ == answer_among(json::items_view(messages@), id),
{
    let ghost all = json::items_view(messages@);
    let mut i: usize = 0;
    while i < messages.len()
        invariant
            i <= messages@.len(),
            all == json::items_view(messages@),
            answer_among(all.take(i as int), id) is NotYet,
        decreases messages.len() - i,
    {
        proof {
            assert(all.take(i + 1).drop_last() =~= all.take(i as int));
            assert(all.take(i + 1).last() == messages@[i as int]@);
        }
        match answer_of(&messages[i], id) {
            Awaited::NotYet => {},
            found => {
                proof {
                    lemma_answer_stays(all, id, i + 1);
                }
                return found;
            },
        }
        i = i + 1;
    }
    assert(all.take(i as int) =~= all);
    Awaited::NotYet
}

/// What a frame says of a command.
pub fn read_reply(frame: &str, id: i64) -> (r: Awaited)
    ensures
        r@ == answer_among(messages_in(text::lines_of(frame@)), id),
{
    reply_among(&frame_messages(frame), id)
}

/// What is said when no reply comes in time.
pub fn no_reply(id: i64) -> (r: String)
    ensures
        r@ == "Centrifugo не ответил на команду "@ + text::signed_decimal(id as int),
{
    let number = text::signed_number(id);
    text::join2("Centrifugo не ответил на команду ", number.as_str())
}

// ---------------------------------------------------------------------------------------------
// Subscribing
// ---------------------------------------------------------------------------------------------
/// What is needed of the account.
#[derive(Debug)]
pub struct Account {
    pub id: i64,
    pub socket_token: String,
    pub name: Option<String>,
}

/// A text at `/data/<key>`.
pub open spec fn data_text(user: json::JsonV, key: Seq<char>) -> Option<Seq<char>> {
    match path2(user, "data"@, key) {
        Some(v) => v.text(),
        None => None,
    }
}

/// The number of the account.
pub open spec fn account_id(user: json::JsonV) -> Option<i64> {
    match user.field("data"@) {
        Some(data) => data.int_at("id"@),
        None => None,
    }
}

fn text_in_data(user: &Json, key: &str) -> (r: Option<String>)
    ensures
        text::opt_view(r) == data_text(user@, key@),
{
    match user.get("data") {
        Some(data) => data.get_text(key),
        None => None,
    }
}

/// Reads what is needed of the account.
pub fn read_account(user: &Json) -> (r: Result<Account, String>)
    ensures
        match r {
            Ok(a) => {
                &&& account_id(user@) == Some(a.id)
                &&& data_text(user@, "socket_connection_token"@) == Some(a.socket_token@)
                &&& text::opt_view(a.name) == data_text(user@, "name"@)
            },
            Err(e) => if account_id(user@) is None {
                e@ == "DonationAlerts не вернул id пользователя"@
            } else {
                data_text(user@, "socket_connection_token"@) is None && e@
                    == "DonationAlerts не вернул socket_connection_token"@
            },
        },
{
    let id = match user.get("data") {
        Some(data) => data.get_int("id"),
        None => None,
    };
    let id: i64 = match id {
        Some(id) => id,
        None => {
            return Err("DonationAlerts не вернул id пользователя".to_owned());
        },
    };
    match text_in_data(user, "socket_connection_token") {
        Some(socket_token) => Ok(
            Account { id, socket_token, name: text_in_data(user, "name") },
        ),
        None => Err("DonationAlerts не вернул socket_connection_token".to_owned()),
    }
}

/// The first command: to connect.
pub fn connect_frame(account: &Account) -> (r: Json)
    ensures
        r@ == json::JsonV::Object(
            map![
                "params"@ => obs::one_text("token"@, account.socket_token@),
                "id"@ => json::JsonV::Int(1),
            ],
        ),
{
    Fields::new().put("params", obs::with_text("token", account.socket_token.as_str())).put(
        "id",
        Json::Int(1),
    ).json()
}

/// The name that the connection was given.
pub fn client_of(reply: &Json) -> (r: Result<String, String>)
    ensures
        match r {
            Ok(client) => path2(reply@, "result"@, "client"@) == Some(
                json::JsonV::Str(client@),
            ),
            Err(e) => (path2(reply@, "result"@, "client"@) is None || path2(
                reply@,
                "result"@,
                "client"@,
            )->0.text() is None) && e@ == "Centrifugo не вернул client id"@,
        },
{
    match get2(reply, "result", "client") {
        Some(v) => match v.as_str() {
            Some(s) => Ok(s.to_owned()),
            None => Err("Centrifugo не вернул client id".to_owned()),
        },
        None => Err("Centrifugo не вернул client id".to_owned()),
    }
}

/// The channel of an account.
pub open spec fn channel_name(id: i64) -> Seq<char> {
    "$alerts:donation_"@ + text::signed_decimal(id as int)
}

/// The channel of an account.
pub fn channel_of(account: &Account) -> (r: String)
    ensures
        r@ == channel_name(account.id),
{
    let number = text::signed_number(account.id);
    text::join2("$alerts:donation_", number.as_str())
}

/// What is asked to have a channel signed: it is a private one.
pub fn sign_request(channel: &str, client: &str) -> (r: Json)
    ensures
        r@ == json::JsonV::Object(
            map![
                "channels"@ => json::JsonV::Array(seq![json::JsonV::Str(channel@)]),
                "client"@ => json::JsonV::Str(client@),
            ],
        ),
{
    let mut channels: Vec<Json> = Vec::new();
    channels.push(Json::text(channel));
    proof {
        json::lemma_array_model(channels);
        assert(json::items_view(channels@) =~= seq![json::JsonV::Str(channel@)]);
    }
    Fields::new().put("channels", Json::Array(channels)).put("client", Json::text(client)).json()
}

/// The token in the reply to that: `/channels/0/token`.
pub open spec fn signed_token(v: json::JsonV) -> Option<Seq<char>> {
    match v.array_at("channels"@) {
        Some(list) => if list.len() > 0 {
            list[0].text_at("token"@)
        } else {
            None
        },
        None => match path2(v, "channels"@, "0"@) {
            Some(first) => first.text_at("token"@),
            None => None,
        },
    }
}

/// The token in the reply to that.
pub fn channel_token(v: &Json) -> (r: Result<String, String>)
    ensures
        match r {
            Ok(token) => signed_token(v@) == Some(token@),
            Err(e) => signed_token(v@) is None && e@ == "DonationAlerts не вернул токен канала"@,
        },
{
    let found = match v.get_array("channels") {
        Some(list) => if list.len() > 0 {
            assert(json::items_view(list@)[0] == list@[0]@);
            list[0].get_text("token")
        } else {
            None
        },
        None => match get2(v, "channels", "0") {
            Some(first) => first.get_text("token"),
            None => None,
        },
    };
    match found {
        Some(token) => Ok(token),
        None => Err("DonationAlerts не вернул токен канала".to_owned()),
    }
}

/// The second command: to subscribe.
pub fn subscribe_frame(channel: &str, token: &str) -> (r: Json)
    ensures
        r@ == json::JsonV::Object(
            map![
                "params"@ => json::JsonV::Object(
                    map![
                        "channel"@ => json::JsonV::Str(channel@),
                        "token"@ => json::JsonV::Str(token@),
                    ],
                ),
                "method"@ => json::JsonV::Int(METHOD_SUBSCRIBE),
                "id"@ => json::JsonV::Int(2),
            ],
        ),
{
    let params = Fields::new().put("channel", Json::text(channel)).put(
        "token",
        Json::text(token),
    ).json();
    Fields::new().put("params", params).put("method", Json::Int(METHOD_SUBSCRIBE)).put(
        "id",
        Json::Int(2),
    ).json()
}

/// The state once subscribed.
pub fn subscribed_status(account: Account) -> (r: FeedStatus)
    ensures
        r@ == (FeedV { connected: true, user_name: text::opt_view(account.name), error: None }),
{
    FeedStatus { connected: true, user_name: account.name, error: None }
}

/// The state after the connection ended, with the reason if it failed.
pub fn ended_status(error: Option<String>) -> (r: FeedStatus)
    ensures
        r@ == (FeedV { connected: false, user_name: None, error: text::opt_view(error) }),
{
    FeedStatus { connected: false, user_name: None, error }
}

/// Keeps the connection alive: each command has a number of its own, from 101 on.
#[derive(Debug)]
pub struct Pinger {
    pub last_id: i64,
}

impl Pinger {
    /// One that has sent nothing yet.
    pub fn new() -> (r: Pinger)
        ensures
            r.last_id == 100,
    {
        Pinger { last_id: 100 }
    }

    /// The next command.
    pub fn frame(&mut self) -> (r: Json)
        ensures
            final(self).last_id == next_ping(old(self).last_id),
            r@ == ping_frame(next_ping(old(self).last_id)),
    {
        if self.last_id < i64::MAX {
            self.last_id = self.last_id + 1;
        }
        Fields::new().put("method", Json::Int(METHOD_PING)).put(
            "id",
            Json::Int(self.last_id),
        ).json()
    }
}

/// The number that follows, up to the largest there is.
pub open spec fn next_ping(last: i64) -> i64 {
    if last < i64::MAX {
        (last + 1) as i64
    } else {
        last
    }
}

/// The command that keeps the connection alive.
pub open spec fn ping_frame(id: i64) -> json::JsonV {
    json::JsonV::Object(
        map!["method"@ => json::JsonV::Int(METHOD_PING), "id"@ => json::JsonV::Int(id)],
    )
}

// ---------------------------------------------------------------------------------------------
// The course of a subscription
// ---------------------------------------------------------------------------------------------
/// What an account is: its number, its token for the socket, its name.
pub type AccountV = (i64, Seq<char>, Option<Seq<char>>);

impl View for Account {
    type V = AccountV;

    open spec fn view(&self) -> AccountV {
        (self.id, self.socket_token@, text::opt_view(self.name))
    }
}

/// How far a subscription has come.
#[derive(Debug)]
pub enum FeedStage {
    /// Waiting for the account.
    Account,
    /// Waiting for the connection.
    Connect(Account),
    /// Waiting for the signature of the channel.
    Sign(Account),
    /// Waiting for the subscription.
    Subscribe(Account),
    /// Subscribed.
    Live,
    /// Ended.
    Over,
}

/// How far a subscription has come.
#[verifier::ext_equal]
pub enum StageV {
    Account,
    Connect(AccountV),
    Sign(AccountV),
    Subscribe(AccountV),
    Live,
    Over,
}

impl View for FeedStage {
    type V = StageV;

    open spec fn view(&self) -> StageV {
        match *self {
            FeedStage::Account => StageV::Account,
            FeedStage::Connect(a) => StageV::Connect(a@),
            FeedStage::Sign(a) => StageV::Sign(a@),
            FeedStage::Subscribe(a) => StageV::Subscribe(a@),
            FeedStage::Live => StageV::Live,
            FeedStage::Over => StageV::Over,
        }
    }
}

/// What happened.
pub enum FeedHeard {
    /// A reply over HTTP, or why there is none.
    Reply(Result<Json, String>),
    /// Messages over the socket.
    Messages(Vec<Json>),
    /// No reply came in time.
    Late,
    /// It is time to keep the connection alive.
    Tick,
    /// The socket was closed.
    Closed,
    /// The socket failed.
    Broken(String),
}

/// What happened.
#[verifier::ext_equal]
pub enum FeedHeardV {
    Reply(Result<json::JsonV, Seq<char>>),
    Messages(Seq<json::JsonV>),
    Late,
    Tick,
    Closed,
    Broken(Seq<char>),
}

impl View for FeedHeard {
    type V = FeedHeardV;

    open spec fn view(&self) -> FeedHeardV {
        match *self {
            FeedHeard::Reply(r) => FeedHeardV::Reply(obs::outcome_view(r)),
            FeedHeard::Messages(list) => FeedHeardV::Messages(json::items_view(list@)),
            FeedHeard::Late => FeedHeardV::Late,
            FeedHeard::Tick => FeedHeardV::Tick,
            FeedHeard::Closed => FeedHeardV::Closed,
            FeedHeard::Broken(e) => FeedHeardV::Broken(e@),
        }
    }
}

/// What is to be done.
pub enum FeedAction {
    /// Nothing: wait on.
    Wait,
    /// Open the socket and send this.
    Open(Json),
    /// Ask for the signature with this.
    Sign(Json),
    /// Send this over the socket.
    Send(Json),
    /// Set this state.
    Announce(FeedStatus),
    /// Take these donations into the list.
    Donations(Vec<Json>),
    /// Set this state and end.
    End(FeedStatus),
}

/// What is to be done.
#[verifier::ext_equal]
pub enum FeedActionV {
    Wait,
    Open(json::JsonV),
    Sign(json::JsonV),
    Send(json::JsonV),
    Announce(FeedV),
    Donations(Seq<json::JsonV>),
    End(FeedV),
}

impl View for FeedAction {
    type V = FeedActionV;

    open spec fn view(&self) -> FeedActionV {
        match *self {
            FeedAction::Wait => FeedActionV::Wait,
            FeedAction::Open(v) => FeedActionV::Open(v@),
            FeedAction::Sign(v) => FeedActionV::Sign(v@),
            FeedAction::Send(v) => FeedActionV::Send(v@),
            FeedAction::Announce(s) => FeedActionV::Announce(s@),
            FeedAction::Donations(list) => FeedActionV::Donations(json::items_view(list@)),
            FeedAction::End(s) => FeedActionV::End(s@),
        }
    }
}

/// The account in a reply, or what is missing.
pub open spec fn account_in(user: json::JsonV) -> Result<AccountV, Seq<char>> {
    match (account_id(user), data_text(user, "socket_connection_token"@)) {
        (None, _) => Err("DonationAlerts не вернул id пользователя"@),
        (Some(_), None) => Err("DonationAlerts не вернул socket_connection_token"@),
        (Some(id), Some(token)) => Ok((id, token, data_text(user, "name"@))),
    }
}

/// The command to connect.
pub open spec fn connect_value(a: AccountV) -> json::JsonV {
    json::JsonV::Object(
        map!["params"@ => obs::one_text("token"@, a.1), "id"@ => json::JsonV::Int(1)],
    )
}

/// The demand for a signature.
pub open spec fn sign_value(channel: Seq<char>, client: Seq<char>) -> json::JsonV {
    json::JsonV::Object(
        map![
            "channels"@ => json::JsonV::Array(seq![json::JsonV::Str(channel)]),
            "client"@ => json::JsonV::Str(client),
        ],
    )
}

/// The command to subscribe.
pub open spec fn subscribe_value(channel: Seq<char>, token: Seq<char>) -> json::JsonV {
    json::JsonV::Object(
        map![
            "params"@ => json::JsonV::Object(
                map!["channel"@ => json::JsonV::Str(channel), "token"@ => json::JsonV::Str(token)],
            ),
            "method"@ => json::JsonV::Int(METHOD_SUBSCRIBE),
            "id"@ => json::JsonV::Int(2),
        ],
    )
}

/// The name of the connection in a reply.
pub open spec fn client_in(reply: json::JsonV) -> Option<Seq<char>> {
    match path2(reply, "result"@, "client"@) {
        Some(v) => v.text(),
        None => None,
    }
}

/// The subscription ends, for a reason.
pub open spec fn failing(reason: Seq<char>) -> (StageV, FeedActionV) {
    (
        StageV::Over,
        FeedActionV::End(FeedV { connected: false, user_name: None, error: Some(reason) }),
    )
}

/// The subscription ends without a failure.
pub open spec fn ending() -> (StageV, FeedActionV) {
    (
        StageV::Over,
        FeedActionV::End(FeedV { connected: false, user_name: None, error: None }),
    )
}

/// What is said when a command that is waited for gets no reply.
pub open spec fn no_answer(id: int) -> Seq<char> {
    "Centrifugo не ответил на команду "@ + text::signed_decimal(id)
}

/// What follows while the connection is waited for.
pub open spec fn connecting(a: AccountV, messages: Seq<json::JsonV>) -> (StageV, FeedActionV) {
    match answer_among(messages, 1) {
        AwaitedV::NotYet => (StageV::Connect(a), FeedActionV::Wait),
        AwaitedV::Refused(e) => failing(e),
        AwaitedV::Done(v) => match client_in(v) {
            Some(client) => (
                StageV::Sign(a),
                FeedActionV::Sign(sign_value(channel_name(a.0), client)),
            ),
            None => failing("Centrifugo не вернул client id"@),
        },
    }
}

/// What follows while the subscription is waited for.
pub open spec fn subscribing(a: AccountV, messages: Seq<json::JsonV>) -> (StageV, FeedActionV) {
    match answer_among(messages, 2) {
        AwaitedV::NotYet => (StageV::Subscribe(a), FeedActionV::Wait),
        AwaitedV::Refused(e) => failing(e),
        AwaitedV::Done(_) => (
            StageV::Live,
            FeedActionV::Announce(FeedV { connected: true, user_name: a.2, error: None }),
        ),
    }
}

/// What follows what happened. The last number of a command to keep alive is given.
pub open spec fn feed_step(stage: StageV, ping: i64, heard: FeedHeardV) -> (StageV, FeedActionV) {
    match (stage, heard) {
        (StageV::Over, _) => (StageV::Over, FeedActionV::Wait),
        (_, FeedHeardV::Broken(e)) => failing(e),
        (StageV::Account, FeedHeardV::Reply(Ok(user))) => match account_in(user) {
            Ok(a) => (StageV::Connect(a), FeedActionV::Open(connect_value(a))),
            Err(e) => failing(e),
        },
        (StageV::Account, FeedHeardV::Reply(Err(e))) => failing(e),
        (StageV::Connect(a), FeedHeardV::Messages(m)) => connecting(a, m),
        (StageV::Connect(_), FeedHeardV::Late) => failing(no_answer(1)),
        (StageV::Connect(_), FeedHeardV::Closed) => failing("Centrifugo закрыл соединение"@),
        (StageV::Sign(a), FeedHeardV::Reply(Ok(v))) => match signed_token(v) {
            Some(token) => (
                StageV::Subscribe(a),
                FeedActionV::Send(subscribe_value(channel_name(a.0), token)),
            ),
            None => failing("DonationAlerts не вернул токен канала"@),
        },
        (StageV::Sign(_), FeedHeardV::Reply(Err(e))) => failing(e),
        (StageV::Subscribe(a), FeedHeardV::Messages(m)) => subscribing(a, m),
        (StageV::Subscribe(_), FeedHeardV::Late) => failing(no_answer(2)),
        (StageV::Subscribe(_), FeedHeardV::Closed) => failing("Centrifugo закрыл соединение"@),
        (StageV::Live, FeedHeardV::Messages(m)) => (
            StageV::Live,
            FeedActionV::Donations(donations_in(m)),
        ),
        (StageV::Live, FeedHeardV::Tick) => (
            StageV::Live,
            FeedActionV::Send(ping_frame(next_ping(ping))),
        ),
        (StageV::Live, FeedHeardV::Closed) => ending(),
        _ => (stage, FeedActionV::Wait),
    }
}

/// A subscription.
#[derive(Debug)]
pub struct FeedSession {
    pub stage: FeedStage,
    pub pinger: Pinger,
}

fn copy_account(a: &Account) -> (r: Account)
    ensures
        r@ == a@,
{
    Account {
        id: a.id,
        socket_token: a.socket_token.as_str().to_owned(),
        name: text::copy_opt(&a.name),
    }
}

fn fail(reason: String) -> (r: (FeedStage, FeedAction))
    ensures
        (r.0@, r.1@) == failing(reason@),
{
    (FeedStage::Over, FeedAction::End(ended_status(Some(reason))))
}

fn on_account(user: &Json) -> (r: (FeedStage, FeedAction))
    ensures
        (r.0@, r.1@) == (match account_in(user@) {
            Ok(a) => (StageV::Connect(a), FeedActionV::Open(connect_value(a))),
            Err(e) => failing(e),
        }),
{
    match read_account(user) {
        Ok(a) => {
            let frame = connect_frame(&a);
            (FeedStage::Connect(a), FeedAction::Open(frame))
        },
        Err(e) => fail(e),
    }
}

fn on_connect(a: &Account, messages: &Vec<Json>) -> (r: (FeedStage, FeedAction))
    ensures
        (r.0@, r.1@) == connecting(a@, json::items_view(messages@)),
{
    match reply_among(messages, 1) {
        Awaited::NotYet => (FeedStage::Connect(copy_account(a)), FeedAction::Wait),
        Awaited::Refused(e) => fail(e),
        Awaited::Done(v) => match client_of(&v) {
            Ok(client) => {
                let channel = channel_of(a);
                let request = sign_request(channel.as_str(), client.as_str());
                (FeedStage::Sign(copy_account(a)), FeedAction::Sign(request))
            },
            Err(e) => fail(e),
        },
    }
}

fn on_signed(a: &Account, v: &Json) -> (r: (FeedStage, FeedAction))
    ensures
        (r.0@, r.1@) == (match signed_token(v@) {
            Some(token) => (
                StageV::Subscribe(a@),
                FeedActionV::Send(subscribe_value(channel_name(a@.0), token)),
            ),
            None => failing("DonationAlerts не вернул токен канала"@),
        }),
{
    match channel_token(v) {
        Ok(token) => {
            let channel = channel_of(a);
            let frame = subscribe_frame(channel.as_str(), token.as_str());
            (FeedStage::Subscribe(copy_account(a)), FeedAction::Send(frame))
        },
        Err(e) => fail(e),
    }
}

fn on_subscribe(a: &Account, messages: &Vec<Json>) -> (r: (FeedStage, FeedAction))
    ensures
        (r.0@, r.1@) == subscribing(a@, json::items_view(messages@)),
{
    match reply_among(messages, 2) {
        Awaited::NotYet => (FeedStage::Subscribe(copy_account(a)), FeedAction::Wait),
        Awaited::Refused(e) => fail(e),
        Awaited::Done(_) => (
            FeedStage::Live,
            FeedAction::Announce(subscribed_status(copy_account(a))),
        ),
    }
}

impl FeedSession {
    /// A subscription that begins with the question who the account is.
    pub fn new() -> (r: FeedSession)
        ensures
            r.stage@ == StageV::Account,
            r.pinger.last_id == 100,
    {
        FeedSession { stage: FeedStage::Account, pinger: Pinger::new() }
    }

    /// Takes what happened and says what to do.
    pub fn session(&mut self, heard: FeedHeard) -> (r: FeedAction)
        ensures
            (final(self).stage@, r@) == feed_step(
                old(self).stage@,
                old(self).pinger.last_id,
                heard@,
            ),
            final(self).pinger.last_id == (if old(self).stage@ is Live && heard@ is Tick {
                next_ping(old(self).pinger.last_id)
            } else {
                old(self).pinger.last_id
            }),
    {
        let step: (FeedStage, FeedAction) = match (&self.stage, heard) {
            (FeedStage::Over, _) => {
                return FeedAction::Wait;
            },
            (_, FeedHeard::Broken(e)) => fail(e),
            (FeedStage::Account, FeedHeard::Reply(Ok(user))) => on_account(&user),
            (FeedStage::Account, FeedHeard::Reply(Err(e))) => fail(e),
            (FeedStage::Connect(a), FeedHeard::Messages(m)) => on_connect(a, &m),
            (FeedStage::Connect(_), FeedHeard::Late) => fail(no_reply(1)),
            (FeedStage::Connect(_), FeedHeard::Closed) => fail(
                "Centrifugo закрыл соединение".to_owned(),
            ),
            (FeedStage::Sign(a), FeedHeard::Reply(Ok(v))) => on_signed(a, &v),
            (FeedStage::Sign(_), FeedHeard::Reply(Err(e))) => fail(e),
            (FeedStage::Subscribe(a), FeedHeard::Messages(m)) => on_subscribe(a, &m),
            (FeedStage::Subscribe(_), FeedHeard::Late) => fail(no_reply(2)),
            (FeedStage::Subscribe(_), FeedHeard::Closed) => fail(
                "Centrifugo закрыл соединение".to_owned(),
            ),
            (FeedStage::Live, FeedHeard::Messages(m)) => {
                return FeedAction::Donations(donations_among(&m));
            },
            (FeedStage::Live, FeedHeard::Tick) => {
                return FeedAction::Send(self.pinger.frame());
            },
            (FeedStage::Live, FeedHeard::Closed) => (
                FeedStage::Over,
                FeedAction::End(ended_status(None)),
            ),
            _ => {
                return FeedAction::Wait;
            },
        };
        self.stage = step.0;
        step.1
    }
}

// ---------------------------------------------------------------------------------------------
// Tokens
// ---------------------------------------------------------------------------------------------
/// The tokens that are stored.
pub fn stored_tokens(raw: Option<&str>) -> (r: Result<Json, String>)
    ensures
        match (raw, r) {
            (None, Err(e)) => e@ == "DonationAlerts OAuth ещё не пройден"@,
            (None, Ok(_)) => false,
            (Some(s), Ok(v)) => json::reads_as(s@, v@),
            (Some(s), Err(e)) => exists|reason: Seq<char>| #[trigger]
                json::is_refused(s@, reason) && e@ == "повреждённые токены DonationAlerts: "@
                    + reason,
        },
{
    match raw {
        None => Err("DonationAlerts OAuth ещё не пройден".to_owned()),
        Some(s) => match Json::parse(s) {
            Ok(v) => Ok(v),
            Err(e) => Err(text::join2("повреждённые токены DonationAlerts: ", e.as_str())),
        },
    }
}

/// A text field, or what is said where it is missing.
pub open spec fn text_or(v: json::JsonV, key: Seq<char>, missing: Seq<char>) -> Result<
    Seq<char>,
    Seq<char>,
> {
    match v.text_at(key) {
        Some(s) => Ok(s),
        None => Err(missing),
    }
}

/// The characters of a text or of what is said instead.
pub open spec fn words_of(r: Result<String, String>) -> Result<Seq<char>, Seq<char>> {
    match r {
        Ok(s) => Ok(s@),
        Err(e) => Err(e@),
    }
}

fn need_text(v: &Json, key: &str, missing: &str) -> (r: Result<String, String>)
    ensures
        words_of(r) == text_or(v@, key@, missing@),
{
    match v.get_text(key) {
        Some(s) => Ok(s),
        None => Err(missing.to_owned()),
    }
}

/// The access token among the stored tokens.
pub fn held_access(tokens: &Json) -> (r: Result<String, String>)
    ensures
        words_of(r) == text_or(
            tokens@,
            "access_token"@,
            "в сохранённых данных нет access_token"@,
        ),
{
    need_text(tokens, "access_token", "в сохранённых данных нет access_token")
}

/// The token by which new ones are asked for, once the access token no longer serves.
pub fn held_refresh(tokens: &Json) -> (r: Result<String, String>)
    ensures
        words_of(r) == text_or(
            tokens@,
            "refresh_token"@,
            "access_token истёк, а refresh_token не сохранён"@,
        ),
{
    need_text(tokens, "refresh_token", "access_token истёк, а refresh_token не сохранён")
}

/// The access token among refreshed tokens. The tokens are stored only if there is one.
pub fn refreshed_access(refreshed: &Json) -> (r: Result<String, String>)
    ensures
        words_of(r) == text_or(
            refreshed@,
            "access_token"@,
            "DonationAlerts не вернул новый access_token"@,
        ),
{
    need_text(refreshed, "access_token", "DonationAlerts не вернул новый access_token")
}

/// Which step towards an access token comes next.
pub enum TokenStep {
    /// Use this token.
    Use(String),
    /// Ask for new tokens with this form.
    Refresh(Vec<(String, String)>),
    /// There is no way.
    Fail(String),
}

/// Which step towards an access token comes next.
#[verifier::ext_equal]
pub enum TokenV {
    Use(Seq<char>),
    Refresh(Seq<(Seq<char>, Seq<char>)>),
    Fail(Seq<char>),
}

impl View for TokenStep {
    type V = TokenV;

    open spec fn view(&self) -> TokenV {
        match *self {
            TokenStep::Use(s) => TokenV::Use(s@),
            TokenStep::Refresh(form) => TokenV::Refresh(oauth::form_view(form@)),
            TokenStep::Fail(e) => TokenV::Fail(e@),
        }
    }
}

/// Which step towards an access token comes next, once it is known whether the stored one serves.
pub open spec fn token_meaning(
    cfg: DonationAlertsConfig,
    tokens: json::JsonV,
    access: Seq<char>,
    valid: bool,
) -> TokenV {
    if valid {
        TokenV::Use(access)
    } else {
        match tokens.text_at("refresh_token"@) {
            None => TokenV::Fail("access_token истёк, а refresh_token не сохранён"@),
            Some(refresh) => if cfg.client_id@.len() == 0 || cfg.client_secret@.len() == 0 {
                TokenV::Fail(
                    "для обновления токена нужны donationalerts.client_id и client_secret в config/host.json"@,
                )
            } else {
                TokenV::Refresh(oauth::refresh_form_view(cfg, refresh))
            },
        }
    }
}

/// Which step towards an access token comes next: a token that serves is used, another is
/// refreshed.
pub fn access_token(cfg: &DonationAlertsConfig, tokens: &Json, access: String, valid: bool) -> (r:
    TokenStep)
    ensures
        r@ == token_meaning(*cfg, tokens@, access@, valid),
{
    if valid {
        return TokenStep::Use(access);
    }
    match held_refresh(tokens) {
        Err(e) => TokenStep::Fail(e),
        Ok(refresh) => match oauth::refresh_form(cfg, refresh.as_str()) {
            Ok(form) => TokenStep::Refresh(form),
            Err(e) => TokenStep::Fail(e),
        },
    }
}

/// A place of DonationAlerts that is asked over HTTP.
#[derive(Debug, Clone, Copy, PartialEq, Eq, Structural)]
pub enum Endpoint {
    /// Who the account is.
    User,
    /// The signature for a channel.
    Subscribe,
    /// New tokens.
    Token,
}

impl Endpoint {
    /// What is said when the place cannot be reached.
    pub open spec fn unreachable_words(self) -> Seq<char> {
        match self {
            Endpoint::User => "DonationAlerts API недоступен"@,
            Endpoint::Subscribe => "не удалось подписать канал DonationAlerts"@,
            Endpoint::Token => "token endpoint DonationAlerts недоступен"@,
        }
    }

    /// What is said before a status other than success.
    pub open spec fn refused_words(self) -> Seq<char> {
        match self {
            Endpoint::User => "DonationAlerts /user/oauth вернул "@,
            Endpoint::Subscribe => "DonationAlerts /centrifuge/subscribe вернул "@,
            Endpoint::Token => "обновление токена DonationAlerts вернуло "@,
        }
    }

    /// What is said of a reply that is no JSON.
    pub open spec fn garbled_words(self) -> Seq<char> {
        match self {
            Endpoint::User => "непонятный ответ /user/oauth"@,
            Endpoint::Subscribe => "непонятный ответ subscribe"@,
            Endpoint::Token => "непонятный ответ token endpoint"@,
        }
    }

    /// What is said when the place cannot be reached, with the reason.
    pub fn cannot_reach(&self, reason: &str) -> (r: String)
        ensures
            r@ == self.unreachable_words() + ": "@ + reason@,
    {
        let words = match self {
            Endpoint::User => "DonationAlerts API недоступен",
            Endpoint::Subscribe => "не удалось подписать канал DonationAlerts",
            Endpoint::Token => "token endpoint DonationAlerts недоступен",
        };
        text::join3(words, ": ", reason)
    }

    /// What a reply means: the value in its body, unless the status is not one of success or the
    /// body is no JSON.
    pub open spec fn meaning(
        self,
        success: bool,
        status: Seq<char>,
        body: Result<json::JsonV, Seq<char>>,
    ) -> Result<json::JsonV, Seq<char>> {
        if !success {
            Err(self.refused_words() + status)
        } else {
            match body {
                Ok(v) => Ok(v),
                Err(e) => Err(self.garbled_words() + ": error decoding response body: "@ + e),
            }
        }
    }

    /// What a reply means, once its body was read.
    pub fn judge(&self, success: bool, status: &str, body: Result<Json, String>) -> (r: Result<
        Json,
        String,
    >)
        ensures
            obs::outcome_view(r) == self.meaning(success, status@, obs::outcome_view(body)),
    {
        if !success {
            let words = match self {
                Endpoint::User => "DonationAlerts /user/oauth вернул ",
                Endpoint::Subscribe => "DonationAlerts /centrifuge/subscribe вернул ",
                Endpoint::Token => "обновление токена DonationAlerts вернуло ",
            };
            return Err(text::join2(words, status));
        }
        match body {
            Ok(v) => Ok(v),
            Err(e) => {
                let words = match self {
                    Endpoint::User => "непонятный ответ /user/oauth",
                    Endpoint::Subscribe => "непонятный ответ subscribe",
                    Endpoint::Token => "непонятный ответ token endpoint",
                };
                Err(text::join3(words, ": error decoding response body: ", e.as_str()))
            },
        }
    }

    /// What a reply means: its status, in words, and its body.
    pub fn outcome(&self, success: bool, status: &str, raw: &str) -> (r: Result<Json, String>)
        ensures
            obs::outcome_view(r) == self.meaning(success, status@, json::parsed(raw@)),
    {
        let body = Json::parse(raw);
        assert(obs::outcome_view(body) == json::parsed(raw@));
        self.judge(success, status, body)
    }
}

// ---------------------------------------------------------------------------------------------
// Trying again
// ---------------------------------------------------------------------------------------------
/// Keeps the subscription alive.
#[derive(Debug)]
pub struct Worker {
    pub backoff: Backoff,
}

impl Worker {
    /// The pauses lie between their bounds.
    pub open spec fn wf(self) -> bool {
        self.backoff.wf() && self.backoff.min == RETRY_MIN_MS && self.backoff.max == RETRY_MAX_MS
    }

    /// One that has not tried yet.
    pub fn new() -> (r: Worker)
        ensures
            r.wf(),
            r.backoff.pause == RETRY_MIN_MS,
    {
        Worker { backoff: Backoff::new(RETRY_MIN_MS, RETRY_MAX_MS) }
    }

    /// The pause to make after an attempt, in milliseconds. Without tokens the store is looked at
    /// again after a while, and nothing else changes.
    pub fn pause(&mut self, tokens_stored: bool, clean: bool) -> (r: u64)
        requires
            old(self).wf(),
        ensures
            final(self).wf(),
            !tokens_stored ==> r == IDLE_POLL_MS && *final(self) == *old(self),
            tokens_stored ==> r == if clean {
                RETRY_MIN_MS
            } else {
                old(self).backoff.pause
            },
            tokens_stored ==> final(self).backoff.pause == (Backoff {
                pause: r,
                ..old(self).backoff
            }).longer(),
    {
        if !tokens_stored {
            return IDLE_POLL_MS;
        }
        self.backoff.next(clean)
    }
}

// ---------------------------------------------------------------------------------------------
// The widget in OBS
// ---------------------------------------------------------------------------------------------
/// The first way to reload the widget: the button of its properties.
pub fn widget_refresh(input: &str) -> (r: BatchItem)
    ensures
        obs::asked(r) == (
            "PressInputPropertiesButton"@,
            json::JsonV::Object(
                map![
                    "inputName"@ => json::JsonV::Str(input@),
                    "propertyName"@ => json::JsonV::Str("refreshnocache"@),
                ],
            ),
        ),
{
    BatchItem::new(
        "PressInputPropertiesButton",
        Fields::new().put("inputName", Json::text(input)).put(
            "propertyName",
            Json::text("refreshnocache"),
        ).json(),
    )
}

/// The second way, for versions of OBS that do not know the button: to apply the settings anew.
pub fn widget_refresh_fallback(input: &str) -> (r: BatchItem)
    ensures
        obs::asked(r) == (
            "SetInputSettings"@,
            json::JsonV::Object(
                map![
                    "inputName"@ => json::JsonV::Str(input@),
                    "inputSettings"@ => obs::empty_object(),
                    "overlay"@ => json::JsonV::Bool(true),
                ],
            ),
        ),
{
    BatchItem::new(
        "SetInputSettings",
        Fields::new().put("inputName", Json::text(input)).put(
            "inputSettings",
            obs::no_fields(),
        ).put("overlay", Json::Bool(true)).json(),
    )
}

/// Changes the volume of the widget.
pub fn da_widget_volume(input: &str, body: &Json) -> (r: Result<panel::VolumeRequest, Refusal>)
    ensures
        panel::volume_view(r) == panel::volume_command_of(input@, body@),
{
    panel::volume_of(input.to_owned(), body)
}

/// Mutes the widget, or ends that.
pub fn da_widget_mute(input: &str, body: &Json) -> (r: panel::Accepted)
    ensures
        panel::accepted_view(r) == (match body@.bool_at("muted"@) {
            Some(muted) => Ok(
                (
                    "SetInputMute"@,
                    json::JsonV::Object(
                        map![
                            "inputName"@ => json::JsonV::Str(input@),
                            "inputMuted"@ => json::JsonV::Bool(muted),
                        ],
                    ),
                ),
            ),
            None => Err(crate::api::bad_request("muted обязателен"@)),
        }),
{
    match body.get_bool("muted") {
        Some(muted) => Ok(
            BatchItem::new(
                "SetInputMute",
                Fields::new().put("inputName", Json::text(input)).put(
                    "inputMuted",
                    Json::Bool(muted),
                ).json(),
            ),
        ),
        None => Err(crate::api::bad("muted обязателен")),
    }
}

/// Whether the owner hears the alerts, by the monitoring that OBS reports.
pub open spec fn heard(reply: donations::ReplyV) -> json::JsonV {
    match reply {
        Ok(v) => match v.text_at("monitorType"@) {
            Some(t) => json::JsonV::Bool(text::holds_text(t, "MONITOR"@)),
            None => json::JsonV::Null,
        },
        Err(_) => json::JsonV::Null,
    }
}

/// Whether the owner hears the alerts. OBS is asked, not the settings: these may have changed since
/// they were applied.
pub fn heard_by_owner(reply: &ObsReply) -> (r: Json)
    ensures
        r@ == heard(donations::reply_view(*reply)),
{
    match reply {
        Ok(v) => match v.get_str("monitorType") {
            Some(t) => Json::Bool(text::contains(t, "MONITOR")),
            None => Json::Null,
        },
        Err(_) => Json::Null,
    }
}

/// What the state of DonationAlerts is put together from.
pub struct StatusFacts {
    /// What OBS says of muting.
    pub mute: ObsReply,
    /// What OBS says of monitoring.
    pub monitoring: ObsReply,
    /// The volume in decibels, if OBS told it.
    pub volume_db: Option<Json>,
    /// How the last attempt to connect ended.
    pub oauth_note: Option<String>,
    pub widget_url_stored: bool,
    pub tokens_stored: bool,
    pub realtime: FeedStatus,
}

/// Whether the widget is muted, if OBS told it.
pub open spec fn muted_value(reply: donations::ReplyV) -> json::JsonV {
    match reply {
        Ok(v) => match v.field("inputMuted"@) {
            Some(m) => m,
            None => json::JsonV::Null,
        },
        Err(_) => json::JsonV::Null,
    }
}

/// The state of DonationAlerts as the panel gets it.
pub open spec fn da_status(cfg: DonationAlertsConfig, facts: StatusFacts) -> json::JsonV {
    json::JsonV::Object(
        map![
            "enabled"@ => json::JsonV::Bool(cfg.enabled),
            "oauth_last_result"@ => roles::opt_value(text::opt_view(facts.oauth_note)),
            "heard_by_owner"@ => heard(donations::reply_view(facts.monitoring)),
            "widget_url_configured"@ => json::JsonV::Bool(facts.widget_url_stored),
            "oauth_configured"@ => json::JsonV::Bool(
                cfg.client_id@.len() > 0 && cfg.client_secret@.len() > 0,
            ),
            "tokens_stored"@ => json::JsonV::Bool(facts.tokens_stored),
            "realtime"@ => feed_value(facts.realtime@),
            "overlay_scene"@ => json::JsonV::Str(cfg.overlay_scene_name@),
            "input_name"@ => json::JsonV::Str(cfg.input_name@),
            "widget_muted"@ => muted_value(donations::reply_view(facts.mute)),
            "widget_volume_db"@ => match facts.volume_db {
                Some(db) => db@,
                None => json::JsonV::Null,
            },
        ],
    )
}

/// The state of DonationAlerts as the panel gets it. No secret is part of it.
pub fn donationalerts_status_value(cfg: &DonationAlertsConfig, facts: &StatusFacts) -> (r: Json)
    ensures
        r@ == da_status(*cfg, *facts),
{
    let note = match &facts.oauth_note {
        Some(s) => Json::text(s.as_str()),
        None => Json::Null,
    };
    let muted = match &facts.mute {
        Ok(v) => match v.get("inputMuted") {
            Some(m) => m.copy(),
            None => Json::Null,
        },
        Err(_) => Json::Null,
    };
    let volume = match &facts.volume_db {
        Some(db) => db.copy(),
        None => Json::Null,
    };
    let configured = !cfg.client_id.as_str().is_empty() && !cfg.client_secret.as_str().is_empty();
    Fields::new().put("enabled", Json::Bool(cfg.enabled)).put("oauth_last_result", note).put(
        "heard_by_owner",
        heard_by_owner(&facts.monitoring),
    ).put("widget_url_configured", Json::Bool(facts.widget_url_stored)).put(
        "oauth_configured",
        Json::Bool(configured),
    ).put("tokens_stored", Json::Bool(facts.tokens_stored)).put(
        "realtime",
        facts.realtime.value(),
    ).put("overlay_scene", Json::text(cfg.overlay_scene_name.as_str())).put(
        "input_name",
        Json::text(cfg.input_name.as_str()),
    ).put("widget_muted", muted).put("widget_volume_db", volume).json()
}

// ---------------------------------------------------------------------------------------------
// Laws
// ---------------------------------------------------------------------------------------------
/// The list never grows beyond its limit, its first entry is the donation that came in last, and
/// what was in the list before keeps its order behind it.
pub proof fn law_newest_donation_comes_first(recent: Seq<json::JsonV>, donation: json::JsonV)
    requires
        recent.len() <= MAX_RECENT,
    ensures
        pushed(recent, donation).len() == if recent.len() < MAX_RECENT {
            recent.len() + 1
        } else {
            MAX_RECENT as nat
        },
        pushed(recent, donation)[0] == donation,
        forall|i: int|
            0 < i < pushed(recent, donation).len() ==> #[trigger] pushed(recent, donation)[i]
                == recent[i - 1],
{
}

/// A reply to a command is never taken for a donation.
pub proof fn law_replies_are_no_donations(messages: Seq<json::JsonV>)
    requires
        forall|i: int|
            0 <= i < messages.len() ==> (#[trigger] messages[i]).field("id"@) is Some,
    ensures
        donations_in(messages).len() == 0,
    decreases messages.len(),
{
    if messages.len() > 0 {
        let front = messages.drop_last();
        assert forall|i: int| 0 <= i < front.len() implies (#[trigger] front[i]).field("id"@)
            is Some by {
            assert(front[i] == messages[i]);
        }
        law_replies_are_no_donations(front);
        assert(messages[messages.len() - 1].field("id"@) is Some);
    }
}

/// No donation of a frame is lost: frames that follow one another give what they would give as one.
pub proof fn law_donations_of_frames_add_up(a: Seq<json::JsonV>, b: Seq<json::JsonV>)
    ensures
        donations_in(a + b) == donations_in(a) + donations_in(b),
    decreases b.len(),
{
    if b.len() == 0 {
        assert(a + b =~= a);
        assert(donations_in(a) + donations_in(b) =~= donations_in(a));
    } else {
        assert((a + b).drop_last() =~= a + b.drop_last());
        assert((a + b).last() == b.last());
        law_donations_of_frames_add_up(a, b.drop_last());
        let last = match donation_in(b.last()) {
            Some(d) => seq![d],
            None => Seq::empty(),
        };
        assert((donations_in(a) + donations_in(b.drop_last())) + last =~= donations_in(a) + (
        donations_in(b.drop_last()) + last));
    }
}

/// The channel that is subscribed to is the one of the account that was read, and nothing is
/// announced before the subscription was confirmed.
pub proof fn law_only_the_own_channel_is_read(stage: StageV, ping: i64, heard: FeedHeardV)
    ensures
        feed_step(stage, ping, heard).1 is Announce ==> stage is Subscribe && heard is Messages
            && answer_among(heard->Messages_0, 2) is Done,
        stage is Sign && feed_step(stage, ping, heard).1 is Send ==> {
            let token = signed_token(heard->Reply_0->Ok_0)->0;
            feed_step(stage, ping, heard).1 == FeedActionV::Send(
                subscribe_value(channel_name(stage->Sign_0.0), token),
            )
        },
        feed_step(stage, ping, heard).1 is Donations ==> stage is Live,
{
}

/// A subscription that ended does nothing more, and one that ends says so: the state that is set is
/// "not connected".
pub proof fn law_the_end_is_told(stage: StageV, ping: i64, heard: FeedHeardV)
    ensures
        feed_step(StageV::Over, ping, heard) == (StageV::Over, FeedActionV::Wait),
        !(stage is Over) && feed_step(stage, ping, heard).0 is Over ==> feed_step(
            stage,
            ping,
            heard,
        ).1 is End && !(feed_step(stage, ping, heard).1->End_0.connected),
{
}

/// The secret is not part of the state that the panel gets: another one in its place would not
/// change it.
pub proof fn law_state_holds_no_secret(cfg: DonationAlertsConfig, facts: StatusFacts, other: String)
    requires
        (cfg.client_secret@.len() > 0) == (other@.len() > 0),
    ensures
        da_status(DonationAlertsConfig { client_secret: other, ..cfg }, facts) == da_status(
            cfg,
            facts,
        ),
{
}


/// A donation reaches the panel whole, marked as one; so does the state of the subscription, of which
/// the name and the error are left out where there are none.
pub proof fn law_the_panel_gets_the_donation(donation: json::JsonV, s: FeedV)
    ensures
        donation_event(donation).text_at("type"@) == Some("donation"@),
        donation_event(donation).field("donation"@) == Some(donation),
        feed_event(s).text_at("type"@) == Some("donationalerts_status"@),
        feed_event(s).field("status"@) == Some(feed_value(s)),
        feed_value(s).bool_at("connected"@) == Some(s.connected),
        feed_value(s).text_at("user_name"@) == s.user_name,
        feed_value(s).text_at("error"@) == s.error,
        s.user_name is None ==> feed_value(s).field("user_name"@) is None,
        s.error is None ==> feed_value(s).field("error"@) is None,
{
    reveal_strlit("type");
    reveal_strlit("donation");
    reveal_strlit("status");
    reveal_strlit("connected");
    reveal_strlit("user_name");
    reveal_strlit("error");
    assert("type"@.len() == 4);
    assert("donation"@.len() == 8);
    assert("status"@.len() == 6);
    assert("connected"@.len() == 9);
    assert("user_name"@.len() == 9);
    assert("error"@.len() == 5);
    assert("connected"@[0] != "user_name"@[0]);
}

/// The last fifty donations are kept.
pub proof fn law_fifty_donations_are_kept(recent: Seq<json::JsonV>, donation: json::JsonV)
    requires
        recent.len() <= 50,
    ensures
        pushed(recent, donation).len() <= 50,
        recent.len() < 50 ==> pushed(recent, donation) == seq![donation] + recent,
        recent.len() == 50 ==> pushed(recent, donation) == seq![donation] + recent.drop_last(),
{
    if recent.len() == 50 {
        assert((seq![donation] + recent).take(50) =~= seq![donation] + recent.drop_last());
    }
}

/// A message without a number that holds a donation gives it; one that answers a command gives none.
pub proof fn law_a_donation_is_taken_out_whole(
    v: json::JsonV,
    result: json::JsonV,
    data: json::JsonV,
    donation: json::JsonV,
)
    ensures
        v.field("id"@) is None && v.field("result"@) == Some(result) && result.field("data"@) == Some(
            data,
        ) && data.field("data"@) == Some(donation) ==> donation_in(v) == Some(donation),
        v.field("id"@) is Some ==> donation_in(v) is None,
        v.field("result"@) is None ==> donation_in(v) is None,
{
}

/// Messages are taken line by line, in order: a line that is blank or no JSON is passed over.
pub proof fn law_messages_are_taken_line_by_line(
    lines: Seq<Seq<char>>,
    line: Seq<char>,
    v: json::JsonV,
    messages: Seq<json::JsonV>,
    donation: json::JsonV,
)
    ensures
        text::trimmed(line).len() > 0 && json::parsed(line) == Ok::<json::JsonV, Seq<char>>(v)
            ==> messages_in(lines.push(line)) == messages_in(lines).push(v),
        text::trimmed(line).len() == 0 || json::parsed(line) is Err ==> messages_in(lines.push(line))
            == messages_in(lines),
        messages_in(Seq::empty()).len() == 0,
        donation_in(v) == Some(donation) ==> donations_in(messages.push(v)) == donations_in(
            messages,
        ).push(donation),
        donation_in(v) is None ==> donations_in(messages.push(v)) == donations_in(messages),
{
    assert(lines.push(line).drop_last() =~= lines);
    assert(messages.push(v).drop_last() =~= messages);
    assert(messages_in(lines) + seq![v] =~= messages_in(lines).push(v));
    assert(messages_in(lines) + Seq::<json::JsonV>::empty() =~= messages_in(lines));
    assert(donations_in(messages) + seq![donation] =~= donations_in(messages).push(donation));
    assert(donations_in(messages) + Seq::<json::JsonV>::empty() =~= donations_in(messages));
}

/// A command is answered by the first message with its number, wherever that stands; without an error
/// it succeeded, with one it was refused, and the reason is told.
pub proof fn law_a_command_is_answered_by_its_number(
    messages: Seq<json::JsonV>,
    id: i64,
    i: int,
    error: json::JsonV,
    said: Seq<char>,
)
    ensures
        0 <= i < messages.len() && messages[i].int_at("id"@) == Some(id) && (forall|j: int|
            0 <= j < i ==> (#[trigger] messages[j]).int_at("id"@) != Some(id)) ==> {
            &&& messages[i].field("error"@) is None ==> answer_among(messages, id) == AwaitedV::Done(
                messages[i],
            )
            &&& messages[i].field("error"@) == Some(error) && error.text_at("message"@) == Some(said)
                ==> (answer_among(messages, id) matches AwaitedV::Refused(e) && text::holds_text(
                e,
                said,
            ))
            &&& messages[i].field("error"@) is Some ==> answer_among(messages, id) is Refused
        },
        (forall|j: int| 0 <= j < messages.len() ==> (#[trigger] messages[j]).int_at("id"@) != Some(id))
            ==> answer_among(messages, id) is NotYet,
    decreases messages.len(),
{
    if messages.len() > 0 {
        let front = messages.drop_last();
        law_a_command_is_answered_by_its_number(front, id, i, error, said);
        law_a_command_is_answered_by_its_number(front, id, -1, error, said);
        assert(forall|j: int| 0 <= j < front.len() ==> #[trigger] front[j] == messages[j]);
        assert(messages.last() == messages[messages.len() - 1]);
        if forall|j: int| 0 <= j < messages.len() ==> (#[trigger] messages[j]).int_at("id"@) != Some(id) {
            assert forall|j: int| 0 <= j < front.len() implies (#[trigger] front[j]).int_at("id"@)
                != Some(id) by {
                assert(messages[j].int_at("id"@) != Some(id));
            }
        }
        if 0 <= i < messages.len() && messages[i].int_at("id"@) == Some(id) && (forall|j: int|
            0 <= j < i ==> (#[trigger] messages[j]).int_at("id"@) != Some(id)) {
            assert forall|j: int| 0 <= j < i implies (#[trigger] front[j]).int_at("id"@) != Some(id) by {
                assert(messages[j].int_at("id"@) != Some(id));
            }
            if i < front.len() {
                assert(front[i] == messages[i]);
            } else {
                let head = "Centrifugo отклонил команду "@ + text::signed_decimal(id as int) + ": "@;
                let none = Seq::<char>::empty();
                text::lemma_part_is_held(head, said, none);
                assert(head + said + none =~= head + said);
            }
        }
    }
}

/// The account is read out of the reply: its number, its token and its name; without a number or a
/// token the owner learns which is missing.
pub proof fn law_the_account_is_read(
    user: json::JsonV,
    data: json::JsonV,
    id: i64,
    token: Seq<char>,
)
    requires
        user.field("data"@) == Some(data),
    ensures
        data.int_at("id"@) == Some(id) && data.text_at("socket_connection_token"@) == Some(token)
            ==> account_in(user) == Ok::<AccountV, Seq<char>>((id, token, data.text_at("name"@))),
        data.int_at("id"@) is None ==> account_in(user) == Err::<AccountV, Seq<char>>(
            "DonationAlerts не вернул id пользователя"@,
        ),
        data.int_at("id"@) is Some && data.text_at("socket_connection_token"@) is None ==> account_in(
            user,
        ) == Err::<AccountV, Seq<char>>("DonationAlerts не вернул socket_connection_token"@),
{
}

/// The commands hold what the protocol asks for: to connect, the token of the account under the
/// number 1; to subscribe, the channel and its token by the method 1 under the number 2; to keep
/// alive, the method 7.
pub proof fn law_the_commands_hold_their_values(
    a: AccountV,
    channel: Seq<char>,
    client: Seq<char>,
    token: Seq<char>,
    id: i64,
)
    ensures
        connect_value(a).int_at("id"@) == Some(1i64),
        path2(connect_value(a), "params"@, "token"@) == Some(json::JsonV::Str(a.1)),
        sign_value(channel, client).text_at("client"@) == Some(client),
        sign_value(channel, client).items_at("channels"@).len() == 1,
        sign_value(channel, client).items_at("channels"@)[0].text() == Some(channel),
        subscribe_value(channel, token).int_at("id"@) == Some(2i64),
        subscribe_value(channel, token).int_at("method"@) == Some(1i64),
        path2(subscribe_value(channel, token), "params"@, "channel"@) == Some(
            json::JsonV::Str(channel),
        ),
        path2(subscribe_value(channel, token), "params"@, "token"@) == Some(json::JsonV::Str(token)),
        ping_frame(id).int_at("method"@) == Some(7i64),
        ping_frame(id).int_at("id"@) == Some(id),
        id < i64::MAX ==> next_ping(id) == id + 1,
{
    reveal_strlit("params");
    reveal_strlit("id");
    reveal_strlit("token");
    reveal_strlit("channels");
    reveal_strlit("client");
    reveal_strlit("channel");
    reveal_strlit("method");
    assert("params"@.len() == 6);
    assert("id"@.len() == 2);
    assert("token"@.len() == 5);
    assert("channels"@.len() == 8);
    assert("client"@.len() == 6);
    assert("channel"@.len() == 7);
    assert("method"@.len() == 6);
    assert("params"@[0] != "client"@[0]);
    assert("params"@[0] != "method"@[0]);
    assert("client"@[0] != "method"@[0]);
}

/// Two accounts have two channels.
pub proof fn law_each_account_has_its_own_channel(a: i64, b: i64)
    ensures
        "$alerts:donation_"@.is_prefix_of(channel_name(a)),
        channel_name(a).skip("$alerts:donation_"@.len() as int) == text::signed_decimal(a as int),
        a >= 0 && b >= 0 && a != b ==> channel_name(a) != channel_name(b),
{
    let head = "$alerts:donation_"@;
    let n = head.len() as int;
    assert(channel_name(a).take(n) =~= head);
    assert(channel_name(a).skip(n) =~= text::signed_decimal(a as int));
    assert(channel_name(b).skip(n) =~= text::signed_decimal(b as int));
    if a >= 0 && b >= 0 && a != b && channel_name(a) == channel_name(b) {
        text::lemma_decimal_tells_apart(a as nat, b as nat);
    }
}

/// A subscription goes its way: the account leads to the connection, the connection to the signature
/// of the channel of this account, the signature to the subscription with its token, and the
/// confirmation to the announcement with the name of the account.
pub proof fn law_a_subscription_goes_its_way(
    a: AccountV,
    ping: i64,
    user: json::JsonV,
    m: Seq<json::JsonV>,
    v: json::JsonV,
    client: Seq<char>,
    token: Seq<char>,
)
    ensures
        account_in(user) == Ok::<AccountV, Seq<char>>(a) ==> feed_step(
            StageV::Account,
            ping,
            FeedHeardV::Reply(Ok(user)),
        ) == (StageV::Connect(a), FeedActionV::Open(connect_value(a))),
        answer_among(m, 1) == AwaitedV::Done(v) && path2(v, "result"@, "client"@) == Some(
            json::JsonV::Str(client),
        ) ==> feed_step(StageV::Connect(a), ping, FeedHeardV::Messages(m)) == (
            StageV::Sign(a),
            FeedActionV::Sign(sign_value(channel_name(a.0), client)),
        ),
        signed_token(v) == Some(token) ==> feed_step(
            StageV::Sign(a),
            ping,
            FeedHeardV::Reply(Ok(v)),
        ) == (
            StageV::Subscribe(a),
            FeedActionV::Send(subscribe_value(channel_name(a.0), token)),
        ),
        answer_among(m, 2) is Done ==> (feed_step(
            StageV::Subscribe(a),
            ping,
            FeedHeardV::Messages(m),
        ).1 matches FeedActionV::Announce(s) && s.connected && s.user_name == a.2 && s.error is None),
        answer_among(m, 2) is Done ==> feed_step(
            StageV::Subscribe(a),
            ping,
            FeedHeardV::Messages(m),
        ).0 == StageV::Live,
        answer_among(m, 1) is NotYet ==> feed_step(StageV::Connect(a), ping, FeedHeardV::Messages(m))
            == (StageV::Connect(a), FeedActionV::Wait),
        answer_among(m, 2) is NotYet ==> feed_step(
            StageV::Subscribe(a),
            ping,
            FeedHeardV::Messages(m),
        ) == (StageV::Subscribe(a), FeedActionV::Wait),
{
}

/// A live subscription hands on every donation of what comes in, keeps itself alive with a new number
/// each time, and ends without a failure when the socket is closed.
pub proof fn law_a_live_subscription_hands_on_donations(ping: i64, m: Seq<json::JsonV>)
    ensures
        feed_step(StageV::Live, ping, FeedHeardV::Messages(m)) == (
            StageV::Live,
            FeedActionV::Donations(donations_in(m)),
        ),
        ping < i64::MAX ==> (feed_step(StageV::Live, ping, FeedHeardV::Tick).1 matches FeedActionV::Send(
            v,
        ) && v == ping_frame((ping + 1) as i64)),
        feed_step(StageV::Live, ping, FeedHeardV::Tick).0 == StageV::Live,
        feed_step(StageV::Live, ping, FeedHeardV::Closed).1 matches FeedActionV::End(s) && s.error
            is None && !s.connected,
{
}

/// Every failure on the way ends the subscription with its reason.
pub proof fn law_every_failure_is_told(
    a: AccountV,
    stage: StageV,
    ping: i64,
    e: Seq<char>,
    m: Seq<json::JsonV>,
)
    ensures
        !(stage is Over) ==> (feed_step(stage, ping, FeedHeardV::Broken(e)).1 matches FeedActionV::End(
            s,
        ) && s.error == Some(e)),
        feed_step(StageV::Account, ping, FeedHeardV::Reply(Err(e))).1 matches FeedActionV::End(s)
            && s.error == Some(e),
        feed_step(StageV::Sign(a), ping, FeedHeardV::Reply(Err(e))).1 matches FeedActionV::End(s)
            && s.error == Some(e),
        answer_among(m, 1) == AwaitedV::Refused(e) ==> (feed_step(
            StageV::Connect(a),
            ping,
            FeedHeardV::Messages(m),
        ).1 matches FeedActionV::End(s) && s.error == Some(e)),
        answer_among(m, 2) == AwaitedV::Refused(e) ==> (feed_step(
            StageV::Subscribe(a),
            ping,
            FeedHeardV::Messages(m),
        ).1 matches FeedActionV::End(s) && s.error == Some(e)),
        feed_step(StageV::Connect(a), ping, FeedHeardV::Late).1 matches FeedActionV::End(s) && s.error
            == Some("Centrifugo не ответил на команду "@ + text::signed_decimal(1)),
        feed_step(StageV::Subscribe(a), ping, FeedHeardV::Late).1 matches FeedActionV::End(s)
            && s.error == Some("Centrifugo не ответил на команду "@ + text::signed_decimal(2)),
        feed_step(StageV::Connect(a), ping, FeedHeardV::Closed).1 matches FeedActionV::End(s)
            && s.error == Some("Centrifugo закрыл соединение"@),
        feed_step(StageV::Subscribe(a), ping, FeedHeardV::Closed).1 matches FeedActionV::End(s)
            && s.error == Some("Centrifugo закрыл соединение"@),
{
}

/// The signature of the channel is the token of the first channel in the reply.
pub proof fn law_the_first_signature_is_taken(v: json::JsonV, list: Seq<json::JsonV>)
    requires
        v.array_at("channels"@) == Some(list),
    ensures
        list.len() > 0 ==> signed_token(v) == list[0].text_at("token"@),
        list.len() == 0 ==> signed_token(v) is None,
{
}

/// A token that serves is used as it is; another is refreshed with the stored refresh token and what
/// identifies the application, and without these there is no way.
pub proof fn law_a_dead_token_is_refreshed(
    cfg: DonationAlertsConfig,
    tokens: json::JsonV,
    access: Seq<char>,
    refresh: Seq<char>,
    key: Seq<char>,
    missing: Seq<char>,
)
    ensures
        token_meaning(cfg, tokens, access, true) == TokenV::Use(access),
        tokens.text_at("refresh_token"@) == Some(refresh) && cfg.client_id@.len() > 0
            && cfg.client_secret@.len() > 0 ==> (token_meaning(cfg, tokens, access, false) matches TokenV::Refresh(
            form,
        ) && form == oauth::refresh_form_view(cfg, refresh)),
        tokens.text_at("refresh_token"@) is None || cfg.client_id@.len() == 0
            || cfg.client_secret@.len() == 0 ==> token_meaning(cfg, tokens, access, false) is Fail,
        tokens.text_at(key) == Some(access) ==> text_or(tokens, key, missing) == Ok::<
            Seq<char>,
            Seq<char>,
        >(access),
        tokens.text_at(key) is None ==> text_or(tokens, key, missing) == Err::<Seq<char>, Seq<char>>(
            missing,
        ),
{
}

/// A reply is a success only by its status; then its value is handed on. A refusal tells the status,
/// and a body that is no JSON tells why.
pub proof fn law_a_reply_is_judged_by_its_status(
    at: Endpoint,
    status: Seq<char>,
    body: Result<json::JsonV, Seq<char>>,
    v: json::JsonV,
    e: Seq<char>,
)
    ensures
        at.meaning(true, status, Ok(v)) == Ok::<json::JsonV, Seq<char>>(v),
        at.meaning(true, status, Err(e)) matches Err(m) && text::holds_text(m, e),
        at.meaning(false, status, body) matches Err(m) && text::holds_text(m, status),
{
    let none = Seq::<char>::empty();
    let a = at.garbled_words() + ": error decoding response body: "@;
    text::lemma_part_is_held(a, e, none);
    assert(a + e + none =~= a + e);
    text::lemma_part_is_held(at.refused_words(), status, none);
    assert(at.refused_words() + status + none =~= at.refused_words() + status);
}

/// Each place that is asked has words of its own.
pub proof fn law_each_place_is_named()
    ensures
        Endpoint::User.unreachable_words() == "DonationAlerts API недоступен"@,
        Endpoint::Subscribe.unreachable_words() == "не удалось подписать канал DonationAlerts"@,
        Endpoint::Token.unreachable_words() == "token endpoint DonationAlerts недоступен"@,
        Endpoint::User.refused_words() == "DonationAlerts /user/oauth вернул "@,
        Endpoint::Subscribe.refused_words() == "DonationAlerts /centrifuge/subscribe вернул "@,
        Endpoint::Token.refused_words() == "обновление токена DonationAlerts вернуло "@,
        Endpoint::User.garbled_words() == "непонятный ответ /user/oauth"@,
        Endpoint::Subscribe.garbled_words() == "непонятный ответ subscribe"@,
        Endpoint::Token.garbled_words() == "непонятный ответ token endpoint"@,
{
}

/// The owner hears the alerts if OBS says that they are monitored; without a word of OBS it is not
/// known. Whether the widget is muted is what OBS says.
pub proof fn law_hearing_goes_by_what_obs_says(v: json::JsonV, e: Seq<char>, kind: Seq<char>)
    ensures
        v.text_at("monitorType"@) == Some(kind) ==> heard(Ok(v)) == json::JsonV::Bool(
            text::holds_text(kind, "MONITOR"@),
        ),
        v.text_at("monitorType"@) is None ==> heard(Ok(v)) == json::JsonV::Null,
        heard(Err(e)) == json::JsonV::Null,
        v.field("inputMuted"@) matches Some(m) ==> muted_value(Ok(v)) == m,
        v.field("inputMuted"@) is None ==> muted_value(Ok(v)) == json::JsonV::Null,
        muted_value(Err(e)) == json::JsonV::Null,
{
}

/// The panel gets the state part by part, each under its own name.
pub proof fn law_the_panel_gets_the_state(cfg: DonationAlertsConfig, facts: StatusFacts)
    ensures
        ({
            let v = da_status(cfg, facts);
            &&& v.bool_at("enabled"@) == Some(cfg.enabled)
            &&& v.text_at("oauth_last_result"@) == text::opt_view(facts.oauth_note)
            &&& v.field("heard_by_owner"@) == Some(heard(donations::reply_view(facts.monitoring)))
            &&& v.bool_at("widget_url_configured"@) == Some(facts.widget_url_stored)
            &&& v.bool_at("oauth_configured"@) == Some(
                cfg.client_id@.len() > 0 && cfg.client_secret@.len() > 0,
            )
            &&& v.bool_at("tokens_stored"@) == Some(facts.tokens_stored)
            &&& v.field("realtime"@) == Some(feed_value(facts.realtime@))
            &&& v.text_at("overlay_scene"@) == Some(cfg.overlay_scene_name@)
            &&& v.text_at("input_name"@) == Some(cfg.input_name@)
            &&& v.field("widget_muted"@) == Some(muted_value(donations::reply_view(facts.mute)))
            &&& facts.volume_db matches Some(db) ==> v.field("widget_volume_db"@) == Some(db@)
            &&& facts.volume_db is None ==> v.field("widget_volume_db"@) == Some(json::JsonV::Null)
        }),
{
    reveal_strlit("enabled");
    reveal_strlit("oauth_last_result");
    reveal_strlit("heard_by_owner");
    reveal_strlit("widget_url_configured");
    reveal_strlit("oauth_configured");
    reveal_strlit("tokens_stored");
    reveal_strlit("realtime");
    reveal_strlit("overlay_scene");
    reveal_strlit("input_name");
    reveal_strlit("widget_muted");
    reveal_strlit("widget_volume_db");
    assert("enabled"@.len() == 7);
    assert("oauth_last_result"@.len() == 17);
    assert("heard_by_owner"@.len() == 14);
    assert("widget_url_configured"@.len() == 21);
    assert("oauth_configured"@.len() == 16);
    assert("tokens_stored"@.len() == 13);
    assert("realtime"@.len() == 8);
    assert("overlay_scene"@.len() == 13);
    assert("input_name"@.len() == 10);
    assert("widget_muted"@.len() == 12);
    assert("widget_volume_db"@.len() == 16);
    assert("oauth_configured"@[0] != "widget_volume_db"@[0]);
    assert("tokens_stored"@[0] != "overlay_scene"@[0]);
}


/// The connection is kept alive every 25 seconds, tried again after two seconds at first and a minute
/// at most, and without tokens the store is looked at every half minute.
pub proof fn law_the_subscription_keeps_its_times()
    ensures
        PING_INTERVAL_MS == 25 * 1000,
        RETRY_MIN_MS == 2 * 1000,
        RETRY_MAX_MS == 60 * 1000,
        IDLE_POLL_MS == 30 * 1000,
{
}

} // verus!
