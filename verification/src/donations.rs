//! Donations in the broadcast: the widget in OBS, and whether it can be seen and heard.
//!
//! [`crate::reconcile::Reconcile`] brings OBS into the state in which donations reach the audience:
//! an overlay scene with a browser source, its sound in the mixer, and the overlay on top of every
//! scene of the user. [`verify_donationalerts`] then reads OBS back, because a command that was sent
//! is not a command that was carried out.
use vstd::prelude::*;
use crate::config::DonationAlertsConfig;
use crate::json;
use crate::json::{Fields, Json};
use crate::number;
use crate::obs;
use crate::obs::BatchItem;
use crate::preflight::Verdict;
use crate::text;

verus! {

/// A reply of OBS: its data, or why there is none.
pub type ObsReply = Result<Json, String>;

/// What a reply of OBS is.
pub type ReplyV = Result<json::JsonV, Seq<char>>;

/// What a reply of OBS is.
pub open spec fn reply_view(r: ObsReply) -> ReplyV {
    match r {
        Ok(j) => Ok(j@),
        Err(e) => Err(e@),
    }
}

// ---------------------------------------------------------------------------------------------
// How the sound of alerts is put out
// ---------------------------------------------------------------------------------------------
/// How OBS shall put out the sound of alerts, by the setting. Whether the actor hears it and
/// whether the audience does are two things. A setting that is not understood means "everyone": to
/// leave a blind owner without sound would be the worst outcome of a typing error.
pub open spec fn monitoring_of(setting: Seq<char>) -> Seq<char> {
    let s = text::lowered(text::trimmed(setting));
    if s == "off"@ || s == "none"@ || s == "output"@ || s == "obs_monitoring_type_none"@ {
        "OBS_MONITORING_TYPE_NONE"@
    } else if s == "monitor"@ || s == "monitor_only"@ || s
        == "obs_monitoring_type_monitor_only"@ {
        "OBS_MONITORING_TYPE_MONITOR_ONLY"@
    } else {
        "OBS_MONITORING_TYPE_MONITOR_AND_OUTPUT"@
    }
}

/// How OBS shall put out the sound of alerts, by the setting.
pub fn monitor_type(setting: &str) -> (r: &'static str)
    ensures
        r@ == monitoring_of(setting@),
{
    let t = text::trim(setting);
    let low = text::to_lower(t.as_str());
    let s = low.as_str();
    if text::same(s, "off") || text::same(s, "none") || text::same(s, "output") || text::same(
        s,
        "obs_monitoring_type_none",
    ) {
        "OBS_MONITORING_TYPE_NONE"
    } else if text::same(s, "monitor") || text::same(s, "monitor_only") || text::same(
        s,
        "obs_monitoring_type_monitor_only",
    ) {
        "OBS_MONITORING_TYPE_MONITOR_ONLY"
    } else {
        "OBS_MONITORING_TYPE_MONITOR_AND_OUTPUT"
    }
}

// ---------------------------------------------------------------------------------------------
// Looking things up in what OBS says
// ---------------------------------------------------------------------------------------------
/// The id of a source in a scene, from the list of the scene's items.
pub open spec fn item_id(items: json::JsonV, source: Seq<char>) -> Option<i64> {
    match json::first_with_text(items.items_at("sceneItems"@), "sourceName"@, source) {
        Some(item) => item.int_at("sceneItemId"@),
        None => None,
    }
}

/// The id of a source in a scene, from the list of the scene's items.
pub fn find_item_id(items: &Json, source: &str) -> (r: Option<i64>)
    ensures
        r == item_id(items@, source@),
{
    match items.find_with_text("sceneItems", "sourceName", source) {
        Some(item) => item.get_int("sceneItemId"),
        None => None,
    }
}

/// The index of the top layer in a scene with so many items. In obs-websocket index zero is the
/// bottom of the list: an overlay put there would vanish behind the game.
pub open spec fn top_index(item_count: nat) -> int {
    if item_count == 0 {
        0
    } else {
        item_count - 1
    }
}

/// The index of the top layer in a scene with so many items.
pub fn top_scene_item_index(item_count: usize) -> (r: i64)
    ensures
        r == top_index(item_count as nat) as i64,
        item_count <= i64::MAX ==> r == top_index(item_count as nat),
{
    if item_count == 0 {
        0
    } else {
        (item_count - 1) as i64
    }
}

/// The scenes of the user: all but the overlay scene.
pub open spec fn user_scenes(list: json::JsonV, overlay: Seq<char>) -> Seq<Seq<char>> {
    json::texts_of(list.items_at("scenes"@), "sceneName"@).filter(|s: Seq<char>| s != overlay)
}

/// The scenes of the user: all but the overlay scene.
pub fn list_user_scenes(list: &Json, overlay: &str) -> (r: Vec<String>)
    ensures
        text::views(r@) == user_scenes(list@, overlay@),
{
    let names = list.collect_texts("scenes", "sceneName");
    let ghost all = text::views(names@);
    let ghost other = |s: Seq<char>| s != overlay@;
    let mut out: Vec<String> = Vec::new();
    let mut i: usize = 0;
    proof {
        reveal(Seq::filter);
        assert(all.take(0) =~= Seq::<Seq<char>>::empty());
        assert(text::views(out@) =~= all.take(0).filter(other));
    }
    while i < names.len()
        invariant
            i <= names.len(),
            all == text::views(names@),
            other == (|s: Seq<char>| s != overlay@),
            text::views(out@) == all.take(i as int).filter(other),
        decreases names.len() - i,
    {
        proof {
            assert(all.take(i + 1) =~= all.take(i as int).push(names@[i as int]@));
            all.take(i as int).lemma_filter_push(names@[i as int]@, other);
        }
        if !text::same(names[i].as_str(), overlay) {
            let ghost before = text::views(out@);
            out.push(names[i].clone());
            assert(text::views(out@) =~= before.push(names@[i as int]@));
        }
        i = i + 1;
    }
    assert(all.take(i as int) =~= all);
    out
}

// ---------------------------------------------------------------------------------------------
// Verification
// ---------------------------------------------------------------------------------------------
/// What one question found out: a verdict, and what to tell the owner.
#[verifier::ext_equal]
pub struct FindingV {
    pub verdict: Verdict,
    pub problems: Seq<Seq<char>>,
}

/// Nothing to complain about.
pub open spec fn fine() -> FindingV {
    FindingV { verdict: Verdict::Good, problems: Seq::empty() }
}

/// Looked at, and not in order.
pub open spec fn broken(problem: Seq<char>) -> FindingV {
    FindingV { verdict: Verdict::Broken, problems: seq![problem] }
}

/// Could not be looked at.
pub open spec fn unknown(problem: Seq<char>) -> FindingV {
    FindingV { verdict: Verdict::Unknown, problems: seq![problem] }
}

/// Two findings together.
pub open spec fn both(a: FindingV, b: FindingV) -> FindingV {
    FindingV { verdict: a.verdict.worse(b.verdict), problems: a.problems + b.problems }
}

/// What the questions so far found out.
pub struct Findings {
    pub verdict: Verdict,
    pub problems: Vec<String>,
}

impl View for Findings {
    type V = FindingV;

    open spec fn view(&self) -> FindingV {
        FindingV { verdict: self.verdict, problems: text::views(self.problems@) }
    }
}

impl Findings {
    fn new() -> (r: Findings)
        ensures
            r@ == fine(),
    {
        let r = Findings { verdict: Verdict::Good, problems: Vec::new() };
        assert(r@ =~= fine());
        r
    }

    fn note(&mut self, verdict: Verdict, problem: String)
        ensures
            final(self)@ == both(
                old(self)@,
                FindingV { verdict, problems: seq![problem@] },
            ),
    {
        let ghost before = self.problems@;
        self.verdict = self.verdict.min_known(verdict);
        self.problems.push(problem);
        assert(text::views(self.problems@) =~= text::views(before) + seq![problem@]);
    }
}

/// Adding nothing changes nothing.
proof fn lemma_both_fine(a: FindingV)
    ensures
        both(a, fine()) == a,
        both(fine(), a) == a,
{
    assert(a.problems + Seq::<Seq<char>>::empty() =~= a.problems);
    assert(Seq::<Seq<char>>::empty() + a.problems =~= a.problems);
}

/// Findings are added up in any grouping.
proof fn lemma_both_assoc(a: FindingV, b: FindingV, c: FindingV)
    ensures
        both(both(a, b), c) == both(a, both(b, c)),
{
    assert((a.problems + b.problems) + c.problems =~= a.problems + (b.problems + c.problems));
}

/// Whether the source is muted.
pub open spec fn mute_finding(name: Seq<char>, reply: ReplyV) -> FindingV {
    match reply {
        Ok(v) => match v.bool_at("inputMuted"@) {
            Some(true) => broken(name + " заглушен — донатов не будет слышно"@),
            Some(false) => fine(),
            None => unknown("OBS не сообщил состояние звука "@ + name),
        },
        Err(e) => unknown("не удалось проверить звук "@ + name + ": "@ + e),
    }
}

/// The bits of 0.0001 in double precision. A volume below it is silence: a slider at its lowest
/// gives not zero but a vanishingly small number.
pub const SILENT_VOLUME_BITS: u64 = 0x3F1A_36E2_EB1C_432D;

/// Whether a volume is silence.
pub open spec fn is_silent(mul: json::JsonV) -> bool {
    match mul {
        json::JsonV::Int(n) => n <= 0,
        json::JsonV::Real(_, bits) => number::float_below(bits, SILENT_VOLUME_BITS),
        _ => false,
    }
}

/// Whether the volume of the source was turned down to silence.
pub open spec fn volume_finding(name: Seq<char>, reply: ReplyV) -> FindingV {
    match reply {
        Ok(v) => match v.field("inputVolumeMul"@) {
            Some(mul) => if !mul.is_number() {
                unknown("OBS не сообщил громкость "@ + name)
            } else if is_silent(mul) {
                broken("громкость "@ + name + " выведена в ноль"@)
            } else {
                fine()
            },
            None => unknown("OBS не сообщил громкость "@ + name),
        },
        Err(e) => unknown("не удалось проверить громкость "@ + name + ": "@ + e),
    }
}

/// Whether the sound goes out to the audience, and not to the owner alone.
pub open spec fn monitoring_finding(name: Seq<char>, reply: ReplyV) -> FindingV {
    match reply {
        Ok(v) => match v.text_at("monitorType"@) {
            Some(t) => if text::holds_text(t, "MONITOR_ONLY"@) {
                broken(name + " выводится только владельцу: зрители донатов не услышат"@)
            } else {
                fine()
            },
            None => unknown("OBS не сообщил тип мониторинга "@ + name),
        },
        Err(e) => unknown("не удалось проверить мониторинг "@ + name + ": "@ + e),
    }
}

/// Whether the sound of the page is led into the mixer. OBS does not do so unless told.
pub open spec fn reroute_finding(name: Seq<char>, settings: Option<json::JsonV>) -> FindingV {
    if settings is Some && settings->0.bool_at("reroute_audio"@) == Some(true) {
        fine()
    } else {
        broken("у "@ + name + " выключено ведение звука в OBS: алерт прозвучит мимо эфира"@)
    }
}

/// Whether the address of the widget is set.
pub open spec fn url_finding(name: Seq<char>, settings: Option<json::JsonV>) -> FindingV {
    match settings {
        Some(s) => match s.text_at("url"@) {
            Some(u) => if "https://"@.is_prefix_of(u) {
                fine()
            } else {
                broken("у "@ + name + " не задана ссылка виджета"@)
            },
            None => broken("у "@ + name + " не задана ссылка виджета"@),
        },
        None => broken("у "@ + name + " не задана ссылка виджета"@),
    }
}

/// Whether the settings of the source are such that its sound reaches the mixer.
pub open spec fn settings_finding(name: Seq<char>, reply: ReplyV) -> FindingV {
    match reply {
        Ok(v) => both(
            reroute_finding(name, v.field("inputSettings"@)),
            url_finding(name, v.field("inputSettings"@)),
        ),
        Err(e) => unknown("не удалось прочитать настройки "@ + name + ": "@ + e),
    }
}

/// The four questions on which it depends whether a donation can be heard.
pub fn sound_questions(name: &str) -> (r: Vec<BatchItem>)
    ensures
        obs::asked_all(r@) == seq![
            ("GetInputMute"@, obs::one_text("inputName"@, name@)),
            ("GetInputVolume"@, obs::one_text("inputName"@, name@)),
            ("GetInputAudioMonitorType"@, obs::one_text("inputName"@, name@)),
            ("GetInputSettings"@, obs::one_text("inputName"@, name@)),
        ],
{
    let mut out: Vec<BatchItem> = Vec::new();
    out.push(BatchItem::new("GetInputMute", obs::with_text("inputName", name)));
    out.push(BatchItem::new("GetInputVolume", obs::with_text("inputName", name)));
    out.push(BatchItem::new("GetInputAudioMonitorType", obs::with_text("inputName", name)));
    out.push(BatchItem::new("GetInputSettings", obs::with_text("inputName", name)));
    assert(obs::asked_all(out@) =~= seq![
        ("GetInputMute"@, obs::one_text("inputName"@, name@)),
        ("GetInputVolume"@, obs::one_text("inputName"@, name@)),
        ("GetInputAudioMonitorType"@, obs::one_text("inputName"@, name@)),
        ("GetInputSettings"@, obs::one_text("inputName"@, name@)),
    ]);
    out
}

/// The question whether the source is visible in the overlay scene, if it lies there.
pub fn enabled_question(cfg: &DonationAlertsConfig, overlay_items: &ObsReply) -> (r: Option<
    BatchItem,
>)
    ensures
        (match r {
            Some(q) => Some(obs::asked(q)),
            None => None,
        }) == (match reply_view(*overlay_items) {
            Ok(items) => match item_id(items, cfg.input_name@) {
                Some(id) => Some(
                    (
                        "GetSceneItemEnabled"@,
                        json::JsonV::Object(
                            map![
                                "sceneName"@ => json::JsonV::Str(cfg.overlay_scene_name@),
                                "sceneItemId"@ => json::JsonV::Int(id),
                            ],
                        ),
                    ),
                ),
                None => None,
            },
            Err(_) => None,
        }),
{
    match overlay_items {
        Ok(items) => match find_item_id(items, cfg.input_name.as_str()) {
            Some(id) => Some(
                BatchItem::new(
                    "GetSceneItemEnabled",
                    Fields::new().put(
                        "sceneName",
                        Json::text(cfg.overlay_scene_name.as_str()),
                    ).put("sceneItemId", Json::Int(id)).json(),
                ),
            ),
            None => None,
        },
        Err(_) => None,
    }
}

/// The four replies on which it depends whether a donation can be heard.
pub struct SoundReplies {
    /// To `GetInputMute`.
    pub mute: ObsReply,
    /// To `GetInputVolume`.
    pub volume: ObsReply,
    /// To `GetInputAudioMonitorType`.
    pub monitoring: ObsReply,
    /// To `GetInputSettings`.
    pub settings: ObsReply,
}

/// Whether a donation reaches the ears of the audience. Each of the four conditions, when broken,
/// silences donations completely and without a word.
pub open spec fn sound_finding(name: Seq<char>, replies: SoundReplies) -> FindingV {
    both(
        both(
            both(
                mute_finding(name, reply_view(replies.mute)),
                volume_finding(name, reply_view(replies.volume)),
            ),
            monitoring_finding(name, reply_view(replies.monitoring)),
        ),
        settings_finding(name, reply_view(replies.settings)),
    )
}

fn silent(mul: &Json) -> (r: bool)
    ensures
        r == is_silent(mul@),
{
    match mul {
        Json::Int(n) => *n <= 0,
        Json::Real(x) => x.bits >= 0x8000_0000_0000_0000 || x.bits < SILENT_VOLUME_BITS,
        _ => false,
    }
}

fn check_mute(name: &str, reply: &ObsReply, found: &mut Findings)
    ensures
        final(found)@ == both(old(found)@, mute_finding(name@, reply_view(*reply))),
{
    proof {
        lemma_both_fine(found@);
    }
    match reply {
        Ok(v) => match v.get_bool("inputMuted") {
            Some(true) => found.note(
                Verdict::Broken,
                text::join2(name, " заглушен — донатов не будет слышно"),
            ),
            Some(false) => {},
            None => found.note(
                Verdict::Unknown,
                text::join2("OBS не сообщил состояние звука ", name),
            ),
        },
        Err(e) => found.note(
            Verdict::Unknown,
            text::join4("не удалось проверить звук ", name, ": ", e.as_str()),
        ),
    }
}

fn check_volume(name: &str, reply: &ObsReply, found: &mut Findings)
    ensures
        final(found)@ == both(old(found)@, volume_finding(name@, reply_view(*reply))),
{
    proof {
        lemma_both_fine(found@);
    }
    match reply {
        Ok(v) => match v.get("inputVolumeMul") {
            Some(mul) => if mul.reading().is_none() {
                found.note(Verdict::Unknown, text::join2("OBS не сообщил громкость ", name));
            } else if silent(mul) {
                found.note(
                    Verdict::Broken,
                    text::join3("громкость ", name, " выведена в ноль"),
                );
            },
            None => found.note(Verdict::Unknown, text::join2("OBS не сообщил громкость ", name)),
        },
        Err(e) => found.note(
            Verdict::Unknown,
            text::join4("не удалось проверить громкость ", name, ": ", e.as_str()),
        ),
    }
}

fn check_monitoring(name: &str, reply: &ObsReply, found: &mut Findings)
    ensures
        final(found)@ == both(old(found)@, monitoring_finding(name@, reply_view(*reply))),
{
    proof {
        lemma_both_fine(found@);
    }
    match reply {
        Ok(v) => match v.get_str("monitorType") {
            Some(t) => if text::contains(t, "MONITOR_ONLY") {
                found.note(
                    Verdict::Broken,
                    text::join2(name, " выводится только владельцу: зрители донатов не услышат"),
                );
            },
            None => found.note(
                Verdict::Unknown,
                text::join2("OBS не сообщил тип мониторинга ", name),
            ),
        },
        Err(e) => found.note(
            Verdict::Unknown,
            text::join4("не удалось проверить мониторинг ", name, ": ", e.as_str()),
        ),
    }
}

fn check_settings(name: &str, reply: &ObsReply, found: &mut Findings)
    ensures
        final(found)@ == both(old(found)@, settings_finding(name@, reply_view(*reply))),
{
    let ghost start = found@;
    match reply {
        Ok(v) => {
            let settings = v.get("inputSettings");
            proof {
                lemma_both_fine(start);
                lemma_both_fine(reroute_finding(name@, v@.field("inputSettings"@)));
                lemma_both_fine(
                    both(start, reroute_finding(name@, v@.field("inputSettings"@))),
                );
                lemma_both_assoc(
                    start,
                    reroute_finding(name@, v@.field("inputSettings"@)),
                    url_finding(name@, v@.field("inputSettings"@)),
                );
            }
            let reroute = match settings {
                Some(s) => s.get_bool("reroute_audio") == Some(true),
                None => false,
            };
            if !reroute {
                found.note(
                    Verdict::Broken,
                    text::join3(
                        "у ",
                        name,
                        " выключено ведение звука в OBS: алерт прозвучит мимо эфира",
                    ),
                );
            }
            let url_set = match settings {
                Some(s) => match s.get_str("url") {
                    Some(u) => text::starts_with(u, "https://"),
                    None => false,
                },
                None => false,
            };
            if !url_set {
                found.note(
                    Verdict::Broken,
                    text::join3("у ", name, " не задана ссылка виджета"),
                );
            }
        },
        Err(e) => found.note(
            Verdict::Unknown,
            text::join4("не удалось прочитать настройки ", name, ": ", e.as_str()),
        ),
    }
}

/// Whether a donation reaches the ears of the audience, with what to tell the owner.
pub fn audible_verdict(name: &str, replies: &SoundReplies) -> (r: Findings)
    ensures
        r@ == sound_finding(name@, *replies),
{
    let mut found = Findings::new();
    proof {
        lemma_both_fine(mute_finding(name@, reply_view(replies.mute)));
    }
    check_mute(name, &replies.mute, &mut found);
    check_volume(name, &replies.volume, &mut found);
    check_monitoring(name, &replies.monitoring, &mut found);
    check_settings(name, &replies.settings, &mut found);
    found
}

/// Whether the source lies in the overlay scene and is visible there.
pub open spec fn presence_finding(
    input: Seq<char>,
    scene: Seq<char>,
    items: ReplyV,
    enabled: ReplyV,
) -> FindingV {
    match items {
        Ok(list) => if item_id(list, input) is Some {
            match enabled {
                Ok(v) => match v.bool_at("sceneItemEnabled"@) {
                    Some(true) => fine(),
                    Some(false) => broken(input + " скрыт в сцене оверлея"@),
                    None => unknown("OBS не сообщил, виден ли оверлей"@),
                },
                Err(e) => unknown("не удалось проверить видимость оверлея: "@ + e),
            }
        } else {
            broken(input + " отсутствует в сцене "@ + scene)
        },
        Err(e) => unknown("не удалось проверить сцену оверлея: "@ + e),
    }
}

fn check_presence(
    input: &str,
    scene: &str,
    items: &ObsReply,
    enabled: &ObsReply,
) -> (r: Findings)
    ensures
        r@ == presence_finding(input@, scene@, reply_view(*items), reply_view(*enabled)),
{
    let mut found = Findings::new();
    proof {
        lemma_both_fine(presence_finding(input@, scene@, reply_view(*items), reply_view(*enabled)));
    }
    match items {
        Ok(list) => if find_item_id(list, input).is_some() {
            match enabled {
                Ok(v) => match v.get_bool("sceneItemEnabled") {
                    Some(true) => {},
                    Some(false) => found.note(
                        Verdict::Broken,
                        text::join2(input, " скрыт в сцене оверлея"),
                    ),
                    None => found.note(
                        Verdict::Unknown,
                        "OBS не сообщил, виден ли оверлей".to_owned(),
                    ),
                },
                Err(e) => found.note(
                    Verdict::Unknown,
                    text::join2("не удалось проверить видимость оверлея: ", e.as_str()),
                ),
            }
        } else {
            found.note(Verdict::Broken, text::join3(input, " отсутствует в сцене ", scene));
        },
        Err(e) => found.note(
            Verdict::Unknown,
            text::join2("не удалось проверить сцену оверлея: ", e.as_str()),
        ),
    }
    found
}

/// Whether the overlay is the top layer of one scene.
pub open spec fn scene_top_finding(
    overlay: Seq<char>,
    scene: Seq<char>,
    reply: ReplyV,
) -> FindingV {
    match reply {
        Ok(v) => match v.array_at("sceneItems"@) {
            Some(items) => match json::first_with_text(items, "sourceName"@, overlay) {
                Some(item) => if item.int_at("sceneItemIndex"@) == Some(
                    top_index(items.len()) as i64,
                ) {
                    fine()
                } else {
                    broken("в сцене «"@ + scene + "» оверлей не верхним слоем — его перекроют"@)
                },
                None => broken("в сцене «"@ + scene + "» нет оверлея донатов"@),
            },
            None => unknown("OBS не вернул содержимое сцены «"@ + scene + "»"@),
        },
        Err(e) => unknown("не удалось прочитать сцену «"@ + scene + "»: "@ + e),
    }
}

fn check_scene_top(overlay: &str, scene: &str, reply: &ObsReply, found: &mut Findings)
    ensures
        final(found)@ == both(
            old(found)@,
            scene_top_finding(overlay@, scene@, reply_view(*reply)),
        ),
{
    proof {
        lemma_both_fine(found@);
    }
    match reply {
        Ok(v) => match v.get_array("sceneItems") {
            Some(items) => match v.find_with_text("sceneItems", "sourceName", overlay) {
                Some(item) => {
                    assert(json::items_view(items@).len() == items@.len());
                    let top = top_scene_item_index(items.len());
                    if item.get_int("sceneItemIndex") != Some(top) {
                        found.note(
                            Verdict::Broken,
                            text::join3(
                                "в сцене «",
                                scene,
                                "» оверлей не верхним слоем — его перекроют",
                            ),
                        );
                    }
                },
                None => found.note(
                    Verdict::Broken,
                    text::join3("в сцене «", scene, "» нет оверлея донатов"),
                ),
            },
            None => found.note(
                Verdict::Unknown,
                text::join3("OBS не вернул содержимое сцены «", scene, "»"),
            ),
        },
        Err(e) => found.note(
            Verdict::Unknown,
            text::join4("не удалось прочитать сцену «", scene, "»: ", e.as_str()),
        ),
    }
}

/// Whether the overlay is the top layer of the first so many scenes.
pub open spec fn scenes_top_finding(
    overlay: Seq<char>,
    scenes: Seq<Seq<char>>,
    replies: Seq<ObsReply>,
    n: nat,
) -> FindingV
    decreases n,
{
    if n == 0 {
        fine()
    } else {
        both(
            scenes_top_finding(overlay, scenes, replies, (n - 1) as nat),
            scene_top_finding(overlay, scenes[n - 1], reply_view(replies[n - 1])),
        )
    }
}

/// Whether the overlay is the top layer of every scene of the user, from the list of scenes and the
/// items of each. A failed question leaves the matter unknown; it is never passed over.
pub open spec fn on_top_finding(
    overlay: Seq<char>,
    list: ReplyV,
    replies: Seq<ObsReply>,
) -> FindingV {
    match list {
        Ok(v) => scenes_top_finding(
            overlay,
            user_scenes(v, overlay),
            replies,
            user_scenes(v, overlay).len(),
        ),
        Err(e) => unknown("не удалось получить список сцен: "@ + e),
    }
}

/// Whether there is a reply for every scene of the user.
pub open spec fn complete(overlay: Seq<char>, list: ReplyV, replies: Seq<ObsReply>) -> bool {
    list matches Ok(v) ==> replies.len() == user_scenes(v, overlay).len()
}

/// Whether the overlay is the top layer of every scene of the user.
pub fn verify_overlay_on_top(overlay: &str, list: &ObsReply, replies: &Vec<ObsReply>) -> (r:
    Findings)
    requires
        complete(overlay@, reply_view(*list), replies@),
    ensures
        r@ == on_top_finding(overlay@, reply_view(*list), replies@),
{
    let mut found = Findings::new();
    match list {
        Ok(v) => {
            let scenes = list_user_scenes(v, overlay);
            assert(text::views(scenes@).len() == scenes@.len());
            let mut i: usize = 0;
            while i < scenes.len()
                invariant
                    i <= scenes.len() == replies.len(),
                    text::views(scenes@) == user_scenes(v@, overlay@),
                    found@ == scenes_top_finding(
                        overlay@,
                        text::views(scenes@),
                        replies@,
                        i as nat,
                    ),
                decreases scenes.len() - i,
            {
                check_scene_top(overlay, scenes[i].as_str(), &replies[i], &mut found);
                i = i + 1;
            }
        },
        Err(e) => {
            proof {
                lemma_both_fine(unknown("не удалось получить список сцен: "@ + e@));
            }
            found.note(
                Verdict::Unknown,
                text::join2("не удалось получить список сцен: ", e.as_str()),
            );
        },
    }
    found
}

/// What was found out about the widget after reading OBS back.
pub struct DonationVerification {
    /// Whether the source can be heard.
    pub audible: Verdict,
    /// Whether it lies in the overlay scene and is visible there.
    pub in_overlay_scene: Verdict,
    /// Whether the overlay is the top layer of every scene of the user.
    pub on_top_everywhere: Verdict,
    /// What to tell the owner.
    pub problems: Vec<String>,
}

impl DonationVerification {
    /// Whether donations reach the audience: only if everything was looked at and is in order.
    pub open spec fn ready(self) -> bool {
        self.audible == Verdict::Good && self.in_overlay_scene == Verdict::Good
            && self.on_top_everywhere == Verdict::Good
    }

    /// Whether donations reach the audience.
    pub fn is_ready(&self) -> (r: bool)
        ensures
            r == self.ready(),
    {
        self.audible == Verdict::Good && self.in_overlay_scene == Verdict::Good
            && self.on_top_everywhere == Verdict::Good
    }
}

/// The replies of OBS on which the verification rests.
pub struct VerificationReplies {
    pub sound: SoundReplies,
    /// To `GetSceneItemList` of the overlay scene.
    pub overlay_items: ObsReply,
    /// To `GetSceneItemEnabled`, if the source lies in the overlay scene.
    pub item_enabled: ObsReply,
    /// To `GetSceneList`.
    pub scene_list: ObsReply,
    /// To `GetSceneItemList` of every scene of the user.
    pub scenes: Vec<ObsReply>,
}

/// The finding about the layers, where the configuration asks for the overlay on every scene.
pub open spec fn layers_finding(
    cfg: DonationAlertsConfig,
    replies: VerificationReplies,
) -> FindingV {
    if cfg.enforce_overlays {
        on_top_finding(
            cfg.overlay_scene_name@,
            reply_view(replies.scene_list),
            replies.scenes@,
        )
    } else {
        fine()
    }
}

/// Reads the state of OBS back and says what was found out. A question that failed is an outcome of
/// its own and never counts as success.
pub fn verify_donationalerts(cfg: &DonationAlertsConfig, replies: &VerificationReplies) -> (r:
    DonationVerification)
    requires
        cfg.enforce_overlays ==> complete(
            cfg.overlay_scene_name@,
            reply_view(replies.scene_list),
            replies.scenes@,
        ),
    ensures
        r.audible == sound_finding(cfg.input_name@, replies.sound).verdict,
        r.in_overlay_scene == presence_finding(
            cfg.input_name@,
            cfg.overlay_scene_name@,
            reply_view(replies.overlay_items),
            reply_view(replies.item_enabled),
        ).verdict,
        r.on_top_everywhere == layers_finding(*cfg, *replies).verdict,
        r.ready() == confirmed(*cfg, *replies),
        text::views(r.problems@) == sound_finding(cfg.input_name@, replies.sound).problems
            + presence_finding(
            cfg.input_name@,
            cfg.overlay_scene_name@,
            reply_view(replies.overlay_items),
            reply_view(replies.item_enabled),
        ).problems + layers_finding(*cfg, *replies).problems,
{
    let sound = audible_verdict(cfg.input_name.as_str(), &replies.sound);
    let presence = check_presence(
        cfg.input_name.as_str(),
        cfg.overlay_scene_name.as_str(),
        &replies.overlay_items,
        &replies.item_enabled,
    );
    let layers = if cfg.enforce_overlays {
        verify_overlay_on_top(
            cfg.overlay_scene_name.as_str(),
            &replies.scene_list,
            &replies.scenes,
        )
    } else {
        Findings::new()
    };
    let ghost a = sound.problems@;
    let ghost b = presence.problems@;
    let ghost c = layers.problems@;
    let mut problems = sound.problems;
    let mut second = presence.problems;
    let mut third = layers.problems;
    problems.append(&mut second);
    problems.append(&mut third);
    assert(text::views(problems@) =~= text::views(a) + text::views(b) + text::views(c));
    DonationVerification {
        audible: sound.verdict,
        in_overlay_scene: presence.verdict,
        on_top_everywhere: layers.verdict,
        problems,
    }
}

// ---------------------------------------------------------------------------------------------
// Laws of the verification
// ---------------------------------------------------------------------------------------------
/// If any of the four questions about the sound failed, the sound is not reported as being in
/// order.
pub proof fn law_unanswered_sound_is_never_green(name: Seq<char>, replies: SoundReplies)
    requires
        replies.mute is Err || replies.volume is Err || replies.monitoring is Err
            || replies.settings is Err,
    ensures
        sound_finding(name, replies).verdict != Verdict::Good,
{
}

/// If the overlay is missing from a scene of the user, or a scene could not be read, the layers are
/// not reported as being in order.
pub proof fn law_every_scene_counts(
    overlay: Seq<char>,
    scenes: Seq<Seq<char>>,
    replies: Seq<ObsReply>,
    n: nat,
    i: int,
)
    requires
        0 <= i < n <= scenes.len(),
        scenes_top_finding(overlay, scenes, replies, n).verdict == Verdict::Good,
    ensures
        scene_top_finding(overlay, scenes[i], reply_view(replies[i])).verdict == Verdict::Good,
    decreases n,
{
    if i < n - 1 {
        law_every_scene_counts(overlay, scenes, replies, (n - 1) as nat, i);
    }
}

/// Whoever is told that donations reach the audience is told of no problem.
pub proof fn law_good_sound_has_no_problems(name: Seq<char>, replies: SoundReplies)
    requires
        sound_finding(name, replies).verdict == Verdict::Good,
    ensures
        sound_finding(name, replies).problems.len() == 0,
{
}

/// Whether an outcome about a widget is in order throughout.
pub open spec fn confirmed(cfg: DonationAlertsConfig, replies: VerificationReplies) -> bool {
    &&& sound_finding(cfg.input_name@, replies.sound).verdict == Verdict::Good
    &&& presence_finding(
        cfg.input_name@,
        cfg.overlay_scene_name@,
        reply_view(replies.overlay_items),
        reply_view(replies.item_enabled),
    ).verdict == Verdict::Good
    &&& layers_finding(cfg, replies).verdict == Verdict::Good
}

/// Layers in order leave nothing to tell.
proof fn lemma_good_layers_have_no_problems(
    overlay: Seq<char>,
    scenes: Seq<Seq<char>>,
    replies: Seq<ObsReply>,
    n: nat,
)
    requires
        scenes_top_finding(overlay, scenes, replies, n).verdict == Verdict::Good,
    ensures
        scenes_top_finding(overlay, scenes, replies, n).problems.len() == 0,
    decreases n,
{
    if n > 0 {
        lemma_good_layers_have_no_problems(overlay, scenes, replies, (n - 1) as nat);
    }
}

/// Only what was confirmed counts as ready. Every question was answered, and each answer is as it
/// must be: the source is not muted and not turned down, it goes out to the audience, it plays through
/// OBS, it is visible in the overlay scene, and in every scene of the user, where that is asked for,
/// the overlay is the top layer. Then there is no problem to tell of.
pub proof fn law_ready_means_confirmed(cfg: DonationAlertsConfig, replies: VerificationReplies)
    requires
        confirmed(cfg, replies),
        cfg.enforce_overlays ==> complete(
            cfg.overlay_scene_name@,
            reply_view(replies.scene_list),
            replies.scenes@,
        ),
    ensures
        reply_view(replies.sound.mute) matches Ok(v) && v.bool_at("inputMuted"@) == Some(false),
        replies.sound.volume is Ok && replies.sound.monitoring is Ok && replies.sound.settings is Ok,
        reply_view(replies.overlay_items) matches Ok(list) && item_id(list, cfg.input_name@) is Some,
        reply_view(replies.item_enabled) matches Ok(v) && v.bool_at("sceneItemEnabled"@) == Some(
            true,
        ),
        cfg.enforce_overlays ==> replies.scene_list is Ok && forall|i: int|
            0 <= i < replies.scenes@.len() ==> scene_top_finding(
                cfg.overlay_scene_name@,
                user_scenes(reply_view(replies.scene_list)->Ok_0, cfg.overlay_scene_name@)[i],
                reply_view(#[trigger] replies.scenes@[i]),
            ) == fine(),
        (sound_finding(cfg.input_name@, replies.sound).problems + presence_finding(
            cfg.input_name@,
            cfg.overlay_scene_name@,
            reply_view(replies.overlay_items),
            reply_view(replies.item_enabled),
        ).problems + layers_finding(cfg, replies).problems).len() == 0,
{
    law_good_sound_has_no_problems(cfg.input_name@, replies.sound);
    if cfg.enforce_overlays {
        let overlay = cfg.overlay_scene_name@;
        let scenes = user_scenes(reply_view(replies.scene_list)->Ok_0, overlay);
        lemma_good_layers_have_no_problems(overlay, scenes, replies.scenes@, scenes.len());
        assert forall|i: int| 0 <= i < replies.scenes@.len() implies scene_top_finding(
            overlay,
            scenes[i],
            reply_view(#[trigger] replies.scenes@[i]),
        ) == fine() by {
            law_every_scene_counts(overlay, scenes, replies.scenes@, scenes.len(), i);
        }
    }
}

/// The scenes of the user are all that OBS names, but for the overlay scene.
pub proof fn law_user_scenes_are_all_but_the_overlay(
    list: json::JsonV,
    overlay: Seq<char>,
    i: int,
)
    requires
        0 <= i < list.items_at("scenes"@).len(),
        list.items_at("scenes"@)[i].text_at("sceneName"@) is Some,
    ensures
        list.items_at("scenes"@)[i].text_at("sceneName"@)->0 != overlay ==> user_scenes(
            list,
            overlay,
        ).contains(list.items_at("scenes"@)[i].text_at("sceneName"@)->0),
        !user_scenes(list, overlay).contains(overlay),
{
    let names = json::texts_of(list.items_at("scenes"@), "sceneName"@);
    let name = list.items_at("scenes"@)[i].text_at("sceneName"@)->0;
    let other = |s: Seq<char>| s != overlay;
    json::lemma_texts_of_has(list.items_at("scenes"@), "sceneName"@, i);
    let k = choose|k: int| 0 <= k < names.len() && names[k] == name;
    if name != overlay {
        names.lemma_filter_contains(other, k);
    }
    if user_scenes(list, overlay).contains(overlay) {
        names.lemma_filter_contains_rev(other, overlay);
    }
}

/// How OBS puts out the sound of alerts goes by the setting, whatever its case and the blanks around
/// it: switched off for the owner, for the owner alone, or for both. Anything that is not understood
/// is for both, so that no typing error leaves the owner without sound.
pub proof fn law_monitoring_goes_by_the_setting(setting: Seq<char>, word: Seq<char>)
    requires
        word == text::lowered(text::trimmed(setting)),
    ensures
        word == "off"@ || word == "none"@ || word == "output"@ || word
            == "obs_monitoring_type_none"@ ==> monitoring_of(setting) == "OBS_MONITORING_TYPE_NONE"@,
        word == "monitor"@ || word == "monitor_only"@ || word == "obs_monitoring_type_monitor_only"@
            ==> monitoring_of(setting) == "OBS_MONITORING_TYPE_MONITOR_ONLY"@,
        !set![
            "off"@,
            "none"@,
            "output"@,
            "obs_monitoring_type_none"@,
            "monitor"@,
            "monitor_only"@,
            "obs_monitoring_type_monitor_only"@,
        ].contains(word) ==> monitoring_of(setting) == "OBS_MONITORING_TYPE_MONITOR_AND_OUTPUT"@,
{
    reveal_strlit("off");
    reveal_strlit("none");
    reveal_strlit("output");
    reveal_strlit("obs_monitoring_type_none");
    reveal_strlit("monitor");
    reveal_strlit("monitor_only");
    reveal_strlit("obs_monitoring_type_monitor_only");
    assert("off"@.len() == 3);
    assert("none"@.len() == 4);
    assert("output"@.len() == 6);
    assert("obs_monitoring_type_none"@.len() == 24);
    assert("monitor"@.len() == 7);
    assert("monitor_only"@.len() == 12);
    assert("obs_monitoring_type_monitor_only"@.len() == 32);
}

/// The number of a source in a scene is that of the first item with its name.
pub proof fn law_an_item_is_found_by_its_name(
    list: json::JsonV,
    items: Seq<json::JsonV>,
    source: Seq<char>,
    i: int,
)
    requires
        list.field("sceneItems"@) == Some(json::JsonV::Array(items)),
    ensures
        0 <= i < items.len() && items[i].text_at("sourceName"@) == Some(source) && (forall|j: int|
            0 <= j < i ==> (#[trigger] items[j]).text_at("sourceName"@) != Some(source)) ==> item_id(
            list,
            source,
        ) == items[i].int_at("sceneItemId"@),
        (forall|j: int|
            0 <= j < items.len() ==> (#[trigger] items[j]).text_at("sourceName"@) != Some(source))
            ==> item_id(list, source) is None,
{
    json::law_the_first_with_a_text_is_found(items, "sourceName"@, source, i);
}

/// The top layer is the last of the list: no other item of the scene has a larger index.
pub proof fn law_the_top_layer_is_the_last(count: nat, index: int)
    requires
        0 <= index < count,
    ensures
        index <= top_index(count) < count,
{
}

/// The limit of silence is one ten-thousandth of full volume, to within half of the last bit.
pub proof fn law_silence_is_below_a_ten_thousandth()
    ensures
        ({
            let limit = number::Reading { bits: SILENT_VOLUME_BITS };
            let last = vstd::arithmetic::power2::pow2(number::float_exponent(SILENT_VOLUME_BITS));
            &&& 2 * (10_000 * limit.count() - number::one()) <= 10_000 * last
            &&& 2 * (number::one() - 10_000 * limit.count()) <= 10_000 * last
        }),
{
    let limit = number::Reading { bits: SILENT_VOLUME_BITS };
    let e = number::float_exponent(SILENT_VOLUME_BITS);
    let m = number::float_mantissa(SILENT_VOLUME_BITS);
    assert(e == 1008);
    assert(m == 0x1A_36E2_EB1C_432D);
    vstd::arithmetic::power2::lemma2_to64();
    vstd::arithmetic::power2::lemma_pow2_adds(2, 64);
    vstd::arithmetic::power2::lemma_pow2_adds(66, 1008);
    let last = vstd::arithmetic::power2::pow2(1008) as int;
    vstd::arithmetic::power2::lemma_pow2_pos(1008);
    assert(number::one() == 73_786_976_294_838_206_464 * last);
    assert(limit.count() == m * last);
    assert(10_000 * (0x1A_36E2_EB1C_432D * last) == 73_786_976_294_838_210_000 * last)
        by (nonlinear_arith);
    assert(2 * (73_786_976_294_838_210_000 * last - 73_786_976_294_838_206_464 * last) <= 10_000
        * last) by (nonlinear_arith)
        requires
            last > 0,
    ;
    assert(2 * (73_786_976_294_838_206_464 * last - 73_786_976_294_838_210_000 * last) <= 10_000
        * last) by (nonlinear_arith)
        requires
            last > 0,
    ;
}

/// A volume is silence if it is negative, zero or below that limit, and only then.
pub proof fn law_a_small_volume_is_silence(n: i64, digits: Seq<char>, bits: u64, big: u64)
    ensures
        is_silent(json::JsonV::Int(n)) <==> n < 1,
        bits >= 0x8000_0000_0000_0000 ==> is_silent(json::JsonV::Real(digits, bits)),
        bits < 0x8000_0000_0000_0000 ==> (is_silent(json::JsonV::Real(digits, bits)) <==> bits
            < SILENT_VOLUME_BITS),
        !is_silent(json::JsonV::Large(big)),
{
}

/// Donations can be heard only if all four answers are as they must be: not muted, louder than
/// silence, put out to more than the owner, and led through the mixer from an address that is set.
/// Each answer that is not so breaks the sound.
pub proof fn law_the_sound_is_judged_by_four_answers(
    name: Seq<char>,
    replies: SoundReplies,
    mute: json::JsonV,
    volume: json::JsonV,
    monitoring: json::JsonV,
    settings: json::JsonV,
    muted: bool,
    mul: json::JsonV,
    kind: Seq<char>,
    s: json::JsonV,
    url: Seq<char>,
    rerouted: bool,
)
    requires
        reply_view(replies.mute) == Ok::<json::JsonV, Seq<char>>(mute),
        reply_view(replies.volume) == Ok::<json::JsonV, Seq<char>>(volume),
        reply_view(replies.monitoring) == Ok::<json::JsonV, Seq<char>>(monitoring),
        reply_view(replies.settings) == Ok::<json::JsonV, Seq<char>>(settings),
        mute.bool_at("inputMuted"@) == Some(muted),
        volume.field("inputVolumeMul"@) == Some(mul),
        mul.is_number(),
        monitoring.text_at("monitorType"@) == Some(kind),
        settings.field("inputSettings"@) == Some(s),
        s.bool_at("reroute_audio"@) == Some(rerouted),
        s.text_at("url"@) == Some(url),
    ensures
        sound_finding(name, replies).verdict == (if !muted && !is_silent(mul) && !text::holds_text(
            kind,
            "MONITOR_ONLY"@,
        ) && rerouted && "https://"@.is_prefix_of(url) {
            Verdict::Good
        } else {
            Verdict::Broken
        }),
        sound_finding(name, replies).problems.len() == (if muted {
            1int
        } else {
            0
        }) + (if is_silent(mul) {
            1int
        } else {
            0
        }) + (if text::holds_text(kind, "MONITOR_ONLY"@) {
            1int
        } else {
            0
        }) + (if !rerouted {
            1int
        } else {
            0
        }) + (if !"https://"@.is_prefix_of(url) {
            1int
        } else {
            0
        }),
{
}

/// Every problem with the sound names the source.
pub proof fn law_sound_problems_name_the_source(name: Seq<char>, reply: ReplyV, i: int)
    ensures
        0 <= i < mute_finding(name, reply).problems.len() ==> text::holds_text(
            mute_finding(name, reply).problems[i],
            name,
        ),
        0 <= i < volume_finding(name, reply).problems.len() ==> text::holds_text(
            volume_finding(name, reply).problems[i],
            name,
        ),
        0 <= i < monitoring_finding(name, reply).problems.len() ==> text::holds_text(
            monitoring_finding(name, reply).problems[i],
            name,
        ),
{
    let none = Seq::<char>::empty();
    let a = " заглушен — донатов не будет слышно"@;
    text::lemma_part_is_held(none, name, a);
    assert(none + name + a =~= name + a);
    let b = " выводится только владельцу: зрители донатов не услышат"@;
    text::lemma_part_is_held(none, name, b);
    assert(none + name + b =~= name + b);
    text::lemma_part_is_held("громкость "@, name, " выведена в ноль"@);
    text::lemma_part_is_held("OBS не сообщил состояние звука "@, name, none);
    assert("OBS не сообщил состояние звука "@ + name + none =~= "OBS не сообщил состояние звука "@
        + name);
    text::lemma_part_is_held("OBS не сообщил громкость "@, name, none);
    assert("OBS не сообщил громкость "@ + name + none =~= "OBS не сообщил громкость "@ + name);
    text::lemma_part_is_held("OBS не сообщил тип мониторинга "@, name, none);
    assert("OBS не сообщил тип мониторинга "@ + name + none =~= "OBS не сообщил тип мониторинга "@
        + name);
    if reply is Err {
        let e = reply->Err_0;
        text::lemma_part_is_held("не удалось проверить звук "@, name, ": "@ + e);
        assert("не удалось проверить звук "@ + name + (": "@ + e) =~= "не удалось проверить звук "@
            + name + ": "@ + e);
        text::lemma_part_is_held("не удалось проверить громкость "@, name, ": "@ + e);
        assert("не удалось проверить громкость "@ + name + (": "@ + e)
            =~= "не удалось проверить громкость "@ + name + ": "@ + e);
        text::lemma_part_is_held("не удалось проверить мониторинг "@, name, ": "@ + e);
        assert("не удалось проверить мониторинг "@ + name + (": "@ + e)
            =~= "не удалось проверить мониторинг "@ + name + ": "@ + e);
    }
}

/// An answer that tells nothing leaves the matter open; it counts neither as good nor as broken.
pub proof fn law_an_empty_answer_leaves_the_sound_open(
    name: Seq<char>,
    v: json::JsonV,
    e: Seq<char>,
)
    ensures
        v.bool_at("inputMuted"@) is None ==> mute_finding(name, Ok(v)).verdict == Verdict::Unknown,
        v.field("inputVolumeMul"@) is None ==> volume_finding(name, Ok(v)).verdict
            == Verdict::Unknown,
        v.text_at("monitorType"@) is None ==> monitoring_finding(name, Ok(v)).verdict
            == Verdict::Unknown,
        mute_finding(name, Err(e)).verdict == Verdict::Unknown,
        volume_finding(name, Err(e)).verdict == Verdict::Unknown,
        monitoring_finding(name, Err(e)).verdict == Verdict::Unknown,
        settings_finding(name, Err(e)).verdict == Verdict::Unknown,
{
}

/// The widget is where it must be if the overlay scene holds it and shows it. Missing or hidden is
/// broken; unanswered is unknown.
pub proof fn law_the_widget_is_looked_for(
    input: Seq<char>,
    scene: Seq<char>,
    list: json::JsonV,
    v: json::JsonV,
    e: Seq<char>,
    reply: ReplyV,
)
    ensures
        item_id(list, input) is Some && v.bool_at("sceneItemEnabled"@) == Some(true)
            ==> presence_finding(input, scene, Ok(list), Ok(v)).verdict == Verdict::Good,
        item_id(list, input) is Some && v.bool_at("sceneItemEnabled"@) == Some(false)
            ==> presence_finding(input, scene, Ok(list), Ok(v)).verdict == Verdict::Broken,
        item_id(list, input) is Some && v.bool_at("sceneItemEnabled"@) is None ==> presence_finding(
            input,
            scene,
            Ok(list),
            Ok(v),
        ).verdict == Verdict::Unknown,
        item_id(list, input) is Some ==> presence_finding(input, scene, Ok(list), Err(e)).verdict
            == Verdict::Unknown,
        item_id(list, input) is None ==> presence_finding(input, scene, Ok(list), reply).verdict
            == Verdict::Broken,
        presence_finding(input, scene, Err(e), reply).verdict == Verdict::Unknown,
{
}

/// In a scene of the user the overlay must lie on the last layer. Lower or missing is broken, and the
/// problem names the scene; a scene that could not be read is unknown.
pub proof fn law_the_overlay_must_be_on_top(
    overlay: Seq<char>,
    scene: Seq<char>,
    v: json::JsonV,
    items: Seq<json::JsonV>,
    i: int,
    e: Seq<char>,
)
    requires
        v.field("sceneItems"@) == Some(json::JsonV::Array(items)),
        items.len() <= i64::MAX,
    ensures
        0 <= i < items.len() && items[i].text_at("sourceName"@) == Some(overlay) && (forall|j: int|
            0 <= j < i ==> (#[trigger] items[j]).text_at("sourceName"@) != Some(overlay)) ==> {
            &&& items[i].int_at("sceneItemIndex"@) == Some((items.len() - 1) as i64)
                ==> scene_top_finding(overlay, scene, Ok(v)).verdict == Verdict::Good
            &&& items[i].int_at("sceneItemIndex"@) != Some((items.len() - 1) as i64)
                ==> scene_top_finding(overlay, scene, Ok(v)).verdict == Verdict::Broken
        },
        (forall|j: int|
            0 <= j < items.len() ==> (#[trigger] items[j]).text_at("sourceName"@) != Some(overlay))
            ==> scene_top_finding(overlay, scene, Ok(v)).verdict == Verdict::Broken,
        scene_top_finding(overlay, scene, Err(e)).verdict == Verdict::Unknown,
        scene_top_finding(overlay, scene, Ok(v)).verdict != Verdict::Good ==> scene_top_finding(
            overlay,
            scene,
            Ok(v),
        ).problems.len() == 1 && text::holds_text(
            scene_top_finding(overlay, scene, Ok(v)).problems[0],
            scene,
        ),
{
    json::law_the_first_with_a_text_is_found(items, "sourceName"@, overlay, i);
    text::lemma_part_is_held(
        "в сцене «"@,
        scene,
        "» оверлей не верхним слоем — его перекроют"@,
    );
    text::lemma_part_is_held("в сцене «"@, scene, "» нет оверлея донатов"@);
}

/// The layers of all scenes are in order exactly if those of every single one are, and broken if those
/// of one are.
pub proof fn law_one_bad_scene_is_enough(
    overlay: Seq<char>,
    scenes: Seq<Seq<char>>,
    replies: Seq<ObsReply>,
    n: nat,
)
    requires
        n <= scenes.len(),
    ensures
        (forall|i: int|
            0 <= i < n ==> scene_top_finding(
                overlay,
                #[trigger] scenes[i],
                reply_view(replies[i]),
            ).verdict == Verdict::Good) <==> scenes_top_finding(overlay, scenes, replies, n).verdict
            == Verdict::Good,
        (exists|i: int|
            0 <= i < n && scene_top_finding(
                overlay,
                #[trigger] scenes[i],
                reply_view(replies[i]),
            ).verdict == Verdict::Broken) <==> scenes_top_finding(
            overlay,
            scenes,
            replies,
            n,
        ).verdict == Verdict::Broken,
    decreases n,
{
    if n > 0 {
        law_one_bad_scene_is_enough(overlay, scenes, replies, (n - 1) as nat);
        let last = scene_top_finding(overlay, scenes[n - 1], reply_view(replies[n - 1])).verdict;
        if scenes_top_finding(overlay, scenes, replies, (n - 1) as nat).verdict == Verdict::Broken {
            let i = choose|i: int| 0 <= i < n - 1 && scene_top_finding(
                overlay,
                #[trigger] scenes[i],
                reply_view(replies[i]),
            ).verdict == Verdict::Broken;
            assert(0 <= i < n);
        }
    }
}

/// Where overlays are not enforced, the layers are of no concern; where they are, an unknown list of
/// scenes leaves them unknown.
pub proof fn law_layers_matter_where_they_are_enforced(
    cfg: DonationAlertsConfig,
    replies: VerificationReplies,
)
    ensures
        !cfg.enforce_overlays ==> layers_finding(cfg, replies).verdict == Verdict::Good,
        cfg.enforce_overlays && replies.scene_list is Err ==> layers_finding(cfg, replies).verdict
            == Verdict::Unknown,
{
}

} // verus!
