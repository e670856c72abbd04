//! What the panel is told as it happens.
use vstd::prelude::*;
use crate::config::{HostConfig, RuntimeMode};
use crate::config;
use crate::health::{Alert, Sample};
use crate::health;
use crate::json;
use crate::json::{Fields, Json};
use crate::number::Reading;
use crate::obs;
use crate::obs::{BatchItem, ObsStatus};
use crate::readiness;
use crate::table::Table;
use crate::text;

verus! {

/// How often sound levels go to the panel, in milliseconds. OBS measures them some fifty times a
/// second; four times is enough to see that there is sound.
pub const LEVELS_INTERVAL_MS: u64 = 250;

/// How often the state of the connection is looked at, in milliseconds.
pub const STATUS_POLL_MS: u64 = 3_000;

/// How many events wait for a slow reader before the oldest are lost.
pub const EVENT_CAPACITY: usize = 256;

// ---------------------------------------------------------------------------------------------
// Events of OBS
// ---------------------------------------------------------------------------------------------
/// What is to be done with an event of OBS.
pub enum Forward {
    /// Nothing: levels went out a moment ago.
    Skip,
    /// Measure the levels, keep them and tell them.
    Levels,
    /// Tell the panel this.
    Tell(Json),
}

/// What is to be done with an event of OBS.
#[verifier::ext_equal]
pub enum ForwardV {
    Skip,
    Levels,
    Tell(json::JsonV),
}

impl View for Forward {
    type V = ForwardV;

    open spec fn view(&self) -> ForwardV {
        match *self {
            Forward::Skip => ForwardV::Skip,
            Forward::Levels => ForwardV::Levels,
            Forward::Tell(v) => ForwardV::Tell(v@),
        }
    }
}

/// An event of OBS as the panel gets it.
pub open spec fn obs_event(event: json::JsonV) -> json::JsonV {
    json::JsonV::Object(map!["type"@ => json::JsonV::Str("obs"@), "event"@ => event])
}

/// Whether levels are due: they never went out, or long enough ago.
pub open spec fn levels_due(sent: Option<u64>, now: u64) -> bool {
    match sent {
        Some(t) => now - t >= LEVELS_INTERVAL_MS,
        None => true,
    }
}

/// What is to be done with an event of OBS.
pub open spec fn forwarding(event: json::JsonV, sent: Option<u64>, now: u64) -> ForwardV {
    if event.text_at("eventType"@) == Some("InputVolumeMeters"@) {
        if levels_due(sent, now) {
            ForwardV::Levels
        } else {
            ForwardV::Skip
        }
    } else {
        ForwardV::Tell(obs_event(event))
    }
}

/// Passes the events of OBS on to the panel.
#[derive(Debug)]
pub struct Forwarder {
    /// When levels last went out, in milliseconds of a clock that does not go back.
    pub levels_sent: Option<u64>,
}

impl Forwarder {
    /// One that has passed on nothing yet.
    pub fn new() -> (r: Forwarder)
        ensures
            r.levels_sent is None,
    {
        Forwarder { levels_sent: None }
    }

    /// Says what is to be done with an event of OBS.
    pub fn take(&mut self, event: &Json, now: u64) -> (r: Forward)
        ensures
            r@ == forwarding(event@, old(self).levels_sent, now),
            final(self).levels_sent == (if r@ is Levels {
                Some(now)
            } else {
                old(self).levels_sent
            }),
    {
        let meters = match event.get_str("eventType") {
            Some(kind) => text::same(kind, "InputVolumeMeters"),
            None => false,
        };
        if !meters {
            let value = Fields::new().put("type", Json::text("obs")).put(
                "event",
                event.copy(),
            ).json();
            return Forward::Tell(value);
        }
        let due = match self.levels_sent {
            Some(t) => now >= t && now - t >= LEVELS_INTERVAL_MS,
            None => true,
        };
        if due {
            self.levels_sent = Some(now);
            Forward::Levels
        } else {
            Forward::Skip
        }
    }
}

/// The store of levels after a measurement: each name has its last level.
pub open spec fn noted(
    store: Map<Seq<char>, Reading>,
    measured: Seq<(String, Reading)>,
) -> Map<Seq<char>, Reading>
    decreases measured.len(),
{
    if measured.len() == 0 {
        store
    } else {
        noted(store, measured.drop_last()).insert(measured.last().0@, measured.last().1)
    }
}

/// Keeps the levels of a measurement.
pub fn note_levels(store: &mut Table<Reading>, measured: &Vec<(String, Reading)>)
    requires
        old(store).wf(),
    ensures
        final(store).wf(),
        final(store)@ == noted(old(store)@, measured@),
{
    let ghost start = store@;
    let mut i: usize = 0;
    while i < measured.len()
        invariant
            i <= measured@.len(),
            store.wf(),
            store@ == noted(start, measured@.take(i as int)),
        decreases measured.len() - i,
    {
        assert(measured@.take(i + 1).drop_last() =~= measured@.take(i as int));
        store.put(measured[i].0.as_str(), measured[i].1);
        i = i + 1;
    }
    assert(measured@.take(i as int) =~= measured@);
}

/// The levels as the panel gets them.
pub open spec fn levels_value(levels: Map<Seq<char>, json::JsonV>) -> json::JsonV {
    json::JsonV::Object(
        map!["type"@ => json::JsonV::Str("levels"@), "levels"@ => json::JsonV::Object(levels)],
    )
}

/// The levels as the panel gets them; without any there is nothing to tell.
pub fn levels_event(levels: Fields) -> (r: Option<Json>)
    ensures
        match r {
            Some(v) => levels.pairs@.len() > 0 && v@ == levels_value(levels@),
            None => levels.pairs@.len() == 0,
        },
{
    if levels.pairs.len() == 0 {
        return None;
    }
    Some(Fields::new().put("type", Json::text("levels")).put("levels", levels.json()).json())
}

/// A count as a value.
pub open spec fn count_value(n: u64) -> json::JsonV {
    if n <= i64::MAX {
        json::JsonV::Int(n as i64)
    } else {
        json::JsonV::Large(n)
    }
}

/// A count as a value.
pub fn count_json(n: u64) -> (r: Json)
    ensures
        r@ == count_value(n),
{
    if n <= i64::MAX as u64 {
        Json::Int(n as i64)
    } else {
        Json::Large(n)
    }
}

/// The demand to read everything anew. Events that were lost must not be passed over in silence:
/// the panel would go on showing a state that is no longer true, and look healthy.
pub open spec fn resync_value(lost: u64) -> json::JsonV {
    json::JsonV::Object(
        map!["type"@ => json::JsonV::Str("resync_required"@), "lost"@ => count_value(lost)],
    )
}

/// The demand to read everything anew.
pub fn resync_event(lost: u64) -> (r: Json)
    ensures
        r@ == resync_value(lost),
{
    Fields::new().put("type", Json::text("resync_required")).put("lost", count_json(lost)).json()
}

// ---------------------------------------------------------------------------------------------
// The connection to OBS
// ---------------------------------------------------------------------------------------------
/// A text field that is left out where there is none.
pub open spec fn with_optional(
    m: Map<Seq<char>, json::JsonV>,
    key: Seq<char>,
    value: Option<Seq<char>>,
) -> Map<Seq<char>, json::JsonV> {
    match value {
        Some(s) => m.insert(key, json::JsonV::Str(s)),
        None => m,
    }
}

/// A text field that is left out where there is none.
pub fn put_optional(fields: Fields, key: &str, value: &Option<String>) -> (r: Fields)
    ensures
        r@ == with_optional(fields@, key@, text::opt_view(*value)),
{
    match value {
        Some(s) => fields.put(key, Json::text(s.as_str())),
        None => fields,
    }
}

/// The state of the connection as the panel gets it.
pub open spec fn status_value(s: obs::StatusV) -> json::JsonV {
    let m0 = map!["connected"@ => json::JsonV::Bool(s.connected)];
    let m1 = with_optional(m0, "obs_version"@, s.obs_version);
    let m2 = with_optional(m1, "websocket_version"@, s.websocket_version);
    json::JsonV::Object(with_optional(m2, "error"@, s.error))
}

/// The state of the connection as the panel gets it.
pub fn status_json(s: &ObsStatus) -> (r: Json)
    ensures
        r@ == status_value(s@),
{
    let fields = Fields::new().put("connected", Json::Bool(s.connected));
    let fields = put_optional(fields, "obs_version", &s.obs_version);
    let fields = put_optional(fields, "websocket_version", &s.websocket_version);
    put_optional(fields, "error", &s.error).json()
}

/// Watches the connection to OBS, which does not report its own end.
#[derive(Debug)]
pub struct StatusWatch {
    /// What was told last.
    pub last: Option<bool>,
}

impl StatusWatch {
    /// One that has told nothing yet.
    pub fn new() -> (r: StatusWatch)
        ensures
            r.last is None,
    {
        StatusWatch { last: None }
    }

    /// Looks at the state and gives what is to be told: only a change is.
    pub fn take(&mut self, status: &ObsStatus) -> (r: Option<Json>)
        ensures
            final(self).last == Some(status@.connected),
            match r {
                Some(v) => old(self).last != Some(status@.connected) && v@
                    == json::JsonV::Object(
                    map![
                        "type"@ => json::JsonV::Str("obs_status"@),
                        "status"@ => status_value(status@),
                    ],
                ),
                None => old(self).last == Some(status@.connected),
            },
    {
        let changed = match self.last {
            Some(told) => told != status.connected,
            None => true,
        };
        self.last = Some(status.connected);
        if !changed {
            return None;
        }
        Some(
            Fields::new().put("type", Json::text("obs_status")).put(
                "status",
                status_json(status),
            ).json(),
        )
    }
}

// ---------------------------------------------------------------------------------------------
// The health of the broadcast
// ---------------------------------------------------------------------------------------------
/// The questions about the health of the broadcast.
pub fn health_questions() -> (r: Vec<BatchItem>)
    ensures
        obs::asked_all(r@) == seq![
            ("GetStats"@, obs::empty_object()),
            ("GetStreamStatus"@, obs::empty_object()),
        ],
{
    let mut out: Vec<BatchItem> = Vec::new();
    out.push(BatchItem::new("GetStats", obs::no_fields()));
    out.push(BatchItem::new("GetStreamStatus", obs::no_fields()));
    assert(obs::asked_all(out@) =~= seq![
        ("GetStats"@, obs::empty_object()),
        ("GetStreamStatus"@, obs::empty_object()),
    ]);
    out
}

/// The reading of the counters, from the replies.
pub fn health_sample(results: &Vec<Json>) -> (r: Sample)
    ensures
        r.total_frames == readiness::measured(
            obs::data_at(json::items_view(results@), 1),
            "outputTotalFrames"@,
        ),
        r.skipped_frames == readiness::measured(
            obs::data_at(json::items_view(results@), 1),
            "outputSkippedFrames"@,
        ),
        r.free_disk_mb == readiness::measured(
            obs::data_at(json::items_view(results@), 0),
            "availableDiskSpace"@,
        ),
        r.streaming == readiness::flag(
            obs::data_at(json::items_view(results@), 1),
            "outputActive"@,
        ),
{
    let stats = obs::response_at(results, 0);
    let stream = obs::response_at(results, 1);
    Sample {
        total_frames: readiness::reading_at(stream, "outputTotalFrames"),
        skipped_frames: readiness::reading_at(stream, "outputSkippedFrames"),
        free_disk_mb: readiness::reading_at(stats, "availableDiskSpace"),
        streaming: readiness::flag_at(stream, "outputActive"),
    }
}

/// An alert as a value. The figure is the percentage or the megabytes.
pub open spec fn alert_value(alert: Alert, figure: json::JsonV) -> json::JsonV {
    json::JsonV::Object(
        match alert {
            Alert::FramesDropping { .. } => map![
                "kind"@ => json::JsonV::Str("frames_dropping"@),
                "percent"@ => figure,
            ],
            Alert::FramesRecovered => map!["kind"@ => json::JsonV::Str("frames_recovered"@)],
            Alert::DiskLow { .. } => map![
                "kind"@ => json::JsonV::Str("disk_low"@),
                "free_mb"@ => figure,
            ],
            Alert::DiskRecovered => map!["kind"@ => json::JsonV::Str("disk_recovered"@)],
        },
    )
}

/// An alert as the panel gets it.
pub open spec fn alert_event_value(alert: Alert, figure: json::JsonV) -> json::JsonV {
    json::JsonV::Object(
        map![
            "type"@ => json::JsonV::Str("alert"@),
            "alert"@ => alert_value(alert, figure),
            "message"@ => json::JsonV::Str(alert.words()),
            "urgent"@ => json::JsonV::Bool(alert.urgent()),
        ],
    )
}

/// An alert as the panel gets it. The figure is the percentage or the megabytes.
pub fn alert_event(alert: &Alert, figure: Json) -> (r: Json)
    ensures
        r@ == alert_event_value(*alert, figure@),
{
    let value = match alert {
        Alert::FramesDropping { .. } => Fields::new().put(
            "kind",
            Json::text("frames_dropping"),
        ).put("percent", figure).json(),
        Alert::FramesRecovered => Fields::new().put("kind", Json::text("frames_recovered")).json(),
        Alert::DiskLow { .. } => Fields::new().put("kind", Json::text("disk_low")).put(
            "free_mb",
            figure,
        ).json(),
        Alert::DiskRecovered => Fields::new().put("kind", Json::text("disk_recovered")).json(),
    };
    Fields::new().put("type", Json::text("alert")).put("alert", value).put(
        "message",
        Json::Str(alert.message()),
    ).put("urgent", Json::Bool(alert.is_urgent())).json()
}

// ---------------------------------------------------------------------------------------------
// What the agent says of itself
// ---------------------------------------------------------------------------------------------
/// The name of a mode.
pub open spec fn mode_word(mode: RuntimeMode) -> Seq<char> {
    match mode {
        RuntimeMode::Local => "local"@,
        RuntimeMode::Remote => "remote"@,
    }
}

fn mode_name(mode: &RuntimeMode) -> (r: &'static str)
    ensures
        r@ == mode_word(*mode),
{
    match mode {
        RuntimeMode::Local => "local",
        RuntimeMode::Remote => "remote",
    }
}

/// The answer by which a launcher tells a local agent from a remote one: both listen on the same
/// address.
pub fn public_ping(mode: &RuntimeMode) -> (r: Json)
    ensures
        r@ == json::JsonV::Object(
            map![
                "ok"@ => json::JsonV::Bool(true),
                "app"@ => json::JsonV::Str(config::APP_NAME@),
                "mode"@ => json::JsonV::Str(mode_word(*mode)),
            ],
        ),
{
    Fields::new().put("ok", Json::Bool(true)).put("app", Json::text(config::APP_NAME)).put(
        "mode",
        Json::text(mode_name(mode)),
    ).json()
}

/// In which mode the agent runs, and what that asks for.
pub fn runtime_info(cfg: &HostConfig) -> (r: Json)
    ensures
        r@ == json::JsonV::Object(
            map![
                "mode"@ => json::JsonV::Str(mode_word(cfg.runtime_mode)),
                "loopback_only"@ => json::JsonV::Bool(cfg.runtime_mode is Local),
                "tailscale_required"@ => json::JsonV::Bool(
                    listens_on_tailscale(*cfg),
                ),
            ],
        ),
{
    let local = match cfg.runtime_mode {
        RuntimeMode::Local => true,
        RuntimeMode::Remote => false,
    };
    let tailscale = tailscale_wanted(cfg);
    Fields::new().put("mode", Json::text(mode_name(&cfg.runtime_mode))).put(
        "loopback_only",
        Json::Bool(local),
    ).put("tailscale_required", Json::Bool(tailscale)).json()
}

/// Whether the agent listens on the address of Tailscale besides its own computer. It always
/// listens on its own computer: the address to which OAuth returns points there.
pub open spec fn listens_on_tailscale(cfg: HostConfig) -> bool {
    cfg.runtime_mode is Remote && cfg.listen_mode@ == "tailscale_only"@
}

/// Whether the agent listens on the address of Tailscale besides its own computer.
pub fn tailscale_wanted(cfg: &HostConfig) -> (r: bool)
    ensures
        r == listens_on_tailscale(*cfg),
{
    match cfg.runtime_mode {
        RuntimeMode::Local => false,
        RuntimeMode::Remote => text::same(cfg.listen_mode.as_str(), "tailscale_only"),
    }
}

/// The addresses on which the agent listens, without the port.
pub open spec fn addresses(cfg: HostConfig, tailscale_ip: Option<Seq<char>>) -> Seq<Seq<char>> {
    match tailscale_ip {
        Some(ip) => if listens_on_tailscale(cfg) {
            seq!["127.0.0.1"@, ip]
        } else {
            seq!["127.0.0.1"@]
        },
        None => seq!["127.0.0.1"@],
    }
}

/// The addresses on which the agent listens, without the port.
pub fn listen_addresses(cfg: &HostConfig, tailscale_ip: Option<String>) -> (r: Vec<String>)
    ensures
        text::views(r@) == addresses(*cfg, text::opt_view(tailscale_ip)),
{
    let mut out: Vec<String> = Vec::new();
    out.push("127.0.0.1".to_owned());
    if tailscale_wanted(cfg) {
        if let Some(ip) = tailscale_ip {
            out.push(ip);
        }
    }
    assert(text::views(out@) =~= addresses(*cfg, text::opt_view(tailscale_ip)));
    out
}

/// What the agent finds around itself.
pub struct HealthFacts {
    pub tailscale_ip: Option<String>,
    pub tailscale_running: bool,
    pub autostart: bool,
    pub obs_process_running: bool,
    pub obs_crashed_last_run: bool,
}

/// The state of everything. It says "OBS can be controlled", not "ready to go on air": a connection
/// does not mean that the broadcast will work out.
pub fn health_answer(
    facts: &HealthFacts,
    obs_status: &ObsStatus,
    donationalerts: Json,
    twitch: Json,
) -> (r: Json)
    ensures
        r@ == json::JsonV::Object(
            map![
                "tailscale"@ => json::JsonV::Str(
                    match text::opt_view(facts.tailscale_ip) {
                        Some(ip) => ip,
                        None => "not_detected"@,
                    },
                ),
                "tailscale_running"@ => json::JsonV::Bool(facts.tailscale_running),
                "host_agent"@ => json::JsonV::Str("ok"@),
                "autostart"@ => json::JsonV::Bool(facts.autostart),
                "obs"@ => status_value(obs_status@),
                "obs_process_running"@ => json::JsonV::Bool(facts.obs_process_running),
                "obs_crashed_last_run"@ => json::JsonV::Bool(facts.obs_crashed_last_run),
                "donationalerts"@ => donationalerts@,
                "twitch"@ => twitch@,
                "obs_controllable"@ => json::JsonV::Bool(obs_status@.connected),
            ],
        ),
{
    let tailscale = match &facts.tailscale_ip {
        Some(ip) => Json::text(ip.as_str()),
        None => Json::text("not_detected"),
    };
    Fields::new().put("tailscale", tailscale).put(
        "tailscale_running",
        Json::Bool(facts.tailscale_running),
    ).put("host_agent", Json::text("ok")).put("autostart", Json::Bool(facts.autostart)).put(
        "obs",
        status_json(obs_status),
    ).put("obs_process_running", Json::Bool(facts.obs_process_running)).put(
        "obs_crashed_last_run",
        Json::Bool(facts.obs_crashed_last_run),
    ).put("donationalerts", donationalerts).put("twitch", twitch).put(
        "obs_controllable",
        Json::Bool(obs_status.connected),
    ).json()
}

// ---------------------------------------------------------------------------------------------
// Laws
// ---------------------------------------------------------------------------------------------
/// Events other than levels always reach the panel, unchanged; levels do so at most once in an
/// interval.
pub proof fn law_no_event_is_swallowed(event: json::JsonV, sent: Option<u64>, now: u64)
    ensures
        event.text_at("eventType"@) != Some("InputVolumeMeters"@) ==> forwarding(event, sent, now)
            == ForwardV::Tell(obs_event(event)),
        forwarding(event, sent, now) is Levels && sent is Some ==> now - sent->0
            >= LEVELS_INTERVAL_MS,
        sent is None ==> !(forwarding(event, sent, now) is Skip),
{
}

/// In local mode the agent listens on this computer only, whatever the settings say.
pub proof fn law_local_mode_stays_local(cfg: HostConfig, tailscale_ip: Option<Seq<char>>)
    requires
        cfg.runtime_mode is Local,
    ensures
        addresses(cfg, tailscale_ip) == seq!["127.0.0.1"@],
{
}

/// The agent listens on this computer and, where that is wanted, on its address in the tailnet; on
/// no other address.
pub proof fn law_no_other_address_is_listened_on(
    cfg: HostConfig,
    tailscale_ip: Option<Seq<char>>,
    i: int,
)
    requires
        0 <= i < addresses(cfg, tailscale_ip).len(),
    ensures
        addresses(cfg, tailscale_ip)[i] == "127.0.0.1"@ || Some(addresses(cfg, tailscale_ip)[i])
            == tailscale_ip,
        addresses(cfg, tailscale_ip)[0] == "127.0.0.1"@,
{
}


/// An event of OBS reaches the panel marked as such, whole; levels go out when they never did or a
/// quarter of a second after the last ones.
pub proof fn law_an_event_is_handed_on_whole(event: json::JsonV, sent: Option<u64>, now: u64)
    ensures
        obs_event(event).text_at("type"@) == Some("obs"@),
        obs_event(event).field("event"@) == Some(event),
        event.text_at("eventType"@) == Some("InputVolumeMeters"@) ==> {
            &&& sent is None ==> forwarding(event, sent, now) is Levels
            &&& sent matches Some(t) ==> (forwarding(event, sent, now) is Levels <==> now >= t + 250)
            &&& !(forwarding(event, sent, now) is Tell)
        },
{
    reveal_strlit("type");
    reveal_strlit("event");
    assert("type"@.len() == 4);
    assert("event"@.len() == 5);
}

/// After a measurement each input that was measured has its latest level, and every other one keeps
/// what it had.
pub proof fn law_the_latest_level_is_kept(
    store: Map<Seq<char>, Reading>,
    measured: Seq<(String, Reading)>,
    name: Seq<char>,
    i: int,
)
    ensures
        0 <= i < measured.len() && measured[i].0@ == name && (forall|j: int|
            i < j < measured.len() ==> (#[trigger] measured[j]).0@ != name) ==> noted(
            store,
            measured,
        ).contains_key(name) && noted(store, measured)[name] == measured[i].1,
        (forall|j: int| 0 <= j < measured.len() ==> (#[trigger] measured[j]).0@ != name) ==> {
            &&& noted(store, measured).contains_key(name) <==> store.contains_key(name)
            &&& store.contains_key(name) ==> noted(store, measured)[name] == store[name]
        },
    decreases measured.len(),
{
    if measured.len() > 0 {
        let front = measured.drop_last();
        law_the_latest_level_is_kept(store, front, name, i);
        assert(forall|j: int| 0 <= j < front.len() ==> #[trigger] front[j] == measured[j]);
        assert(measured.last() == measured[measured.len() - 1]);
        if 0 <= i < front.len() && measured[i].0@ == name && (forall|j: int|
            i < j < measured.len() ==> (#[trigger] measured[j]).0@ != name) {
            assert(front[i].0@ == name);
            assert forall|j: int| i < j < front.len() implies (#[trigger] front[j]).0@ != name by {
                assert(measured[j].0@ != name);
            }
        }
        if forall|j: int| 0 <= j < measured.len() ==> (#[trigger] measured[j]).0@ != name {
            assert forall|j: int| 0 <= j < front.len() implies (#[trigger] front[j]).0@ != name by {
                assert(measured[j].0@ != name);
            }
        }
    }
}

/// Levels, and the demand to read anew, are told with their type and what they are about; the number
/// of lost events is told as it is.
pub proof fn law_levels_and_losses_are_told(levels: Map<Seq<char>, json::JsonV>, lost: u64)
    ensures
        levels_value(levels).text_at("type"@) == Some("levels"@),
        levels_value(levels).field("levels"@) == Some(json::JsonV::Object(levels)),
        resync_value(lost).text_at("type"@) == Some("resync_required"@),
        lost <= i64::MAX ==> (resync_value(lost).int_at("lost"@) matches Some(n) && n as int
            == lost as int),
        lost > i64::MAX ==> resync_value(lost).field("lost"@) == Some(json::JsonV::Large(lost)),
{
    reveal_strlit("type");
    reveal_strlit("levels");
    reveal_strlit("lost");
    assert("type"@.len() == 4);
    assert("levels"@.len() == 6);
    assert("lost"@.len() == 4);
    assert("type"@[0] != "lost"@[0]);
}

/// The state of the connection is told part by part; what is not known is left out.
pub proof fn law_the_state_is_told_part_by_part(s: obs::StatusV)
    ensures
        status_value(s).bool_at("connected"@) == Some(s.connected),
        status_value(s).text_at("obs_version"@) == s.obs_version,
        status_value(s).text_at("websocket_version"@) == s.websocket_version,
        status_value(s).text_at("error"@) == s.error,
        s.obs_version is None ==> status_value(s).field("obs_version"@) is None,
        s.websocket_version is None ==> status_value(s).field("websocket_version"@) is None,
        s.error is None ==> status_value(s).field("error"@) is None,
{
    reveal_strlit("connected");
    reveal_strlit("obs_version");
    reveal_strlit("websocket_version");
    reveal_strlit("error");
    assert("connected"@.len() == 9);
    assert("obs_version"@.len() == 11);
    assert("websocket_version"@.len() == 17);
    assert("error"@.len() == 5);
}

/// An alert is told with its kind, its figure where it has one, its words and whether it is urgent.
pub proof fn law_an_alert_is_told_in_full(alert: Alert, figure: json::JsonV)
    ensures
        alert_event_value(alert, figure).text_at("type"@) == Some("alert"@),
        alert_event_value(alert, figure).text_at("message"@) == Some(alert.words()),
        alert_event_value(alert, figure).bool_at("urgent"@) == Some(alert.urgent()),
        alert_event_value(alert, figure).field("alert"@) matches Some(a) && {
            &&& alert is FramesDropping <==> a.text_at("kind"@) == Some("frames_dropping"@)
            &&& alert is FramesRecovered <==> a.text_at("kind"@) == Some("frames_recovered"@)
            &&& alert is DiskLow <==> a.text_at("kind"@) == Some("disk_low"@)
            &&& alert is DiskRecovered <==> a.text_at("kind"@) == Some("disk_recovered"@)
            &&& alert is FramesDropping ==> a.field("percent"@) == Some(figure)
            &&& alert is DiskLow ==> a.field("free_mb"@) == Some(figure)
        },
{
    reveal_strlit("type");
    reveal_strlit("alert");
    reveal_strlit("message");
    reveal_strlit("urgent");
    reveal_strlit("kind");
    reveal_strlit("percent");
    reveal_strlit("free_mb");
    assert("type"@.len() == 4);
    assert("alert"@.len() == 5);
    assert("message"@.len() == 7);
    assert("urgent"@.len() == 6);
    assert("kind"@.len() == 4);
    assert("percent"@.len() == 7);
    assert("free_mb"@.len() == 7);
    assert("type"@[0] != "kind"@[0]);
    assert("message"@[0] != "percent"@[0]);
    assert("message"@[0] != "free_mb"@[0]);
    assert("percent"@[0] != "free_mb"@[0]);
    reveal_strlit("frames_dropping");
    reveal_strlit("frames_recovered");
    reveal_strlit("disk_low");
    reveal_strlit("disk_recovered");
    assert("frames_dropping"@.len() == 15);
    assert("frames_recovered"@.len() == 16);
    assert("disk_low"@.len() == 8);
    assert("disk_recovered"@.len() == 14);
}

/// The modes have names of their own, and the agent listens in the tailnet exactly if it is remote,
/// set to do so and has an address there.
pub proof fn law_the_tailnet_is_listened_on_where_wanted(
    cfg: HostConfig,
    ip: Seq<char>,
)
    ensures
        mode_word(RuntimeMode::Local) == "local"@,
        mode_word(RuntimeMode::Remote) == "remote"@,
        cfg.runtime_mode is Remote && cfg.listen_mode@ == "tailscale_only"@ ==> addresses(
            cfg,
            Some(ip),
        ) == seq!["127.0.0.1"@, ip],
        !(cfg.runtime_mode is Remote && cfg.listen_mode@ == "tailscale_only"@) ==> addresses(
            cfg,
            Some(ip),
        ) == seq!["127.0.0.1"@],
        addresses(cfg, None) == seq!["127.0.0.1"@],
{
}


/// Levels go out four times a second, the connection is looked at every three seconds, and 256 events
/// wait for a slow reader.
pub proof fn law_events_keep_their_times()
    ensures
        4 * LEVELS_INTERVAL_MS == 1000,
        STATUS_POLL_MS == 3 * 1000,
        EVENT_CAPACITY == 256,
{
}

} // verus!
