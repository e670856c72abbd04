//! Gathering what the readiness check looks at.
//!
//! [`crate::preflight`] draws the findings; here the replies of OBS become the snapshot that it
//! draws them from. What OBS did not tell stays unknown.
use vstd::prelude::*;
use crate::api;
use crate::api::Refusal;
use crate::audio;
use crate::donations::DonationVerification;
use crate::json;
use crate::json::{Fields, Json};
use crate::number::Reading;
use crate::obs;
use crate::obs::BatchItem;
use crate::preflight;
use crate::preflight::{AudioInput, Check, OverlayState, SceneSource, Severity, Snapshot, Verdict};
use crate::roles;
use crate::roles::SourceRoles;
use crate::table::Table;
use crate::text;

verus! {

// ---------------------------------------------------------------------------------------------
// Questions
// ---------------------------------------------------------------------------------------------
/// The questions that need nothing to be known before.
pub open spec fn head_questions() -> Seq<(Seq<char>, json::JsonV)> {
    seq![
        ("GetCurrentProgramScene"@, obs::empty_object()),
        ("GetInputList"@, obs::empty_object()),
        ("GetSpecialInputs"@, obs::empty_object()),
        ("GetStats"@, obs::empty_object()),
        ("GetStreamStatus"@, obs::empty_object()),
        ("GetRecordStatus"@, obs::empty_object()),
        ("GetStreamServiceSettings"@, obs::empty_object()),
    ]
}

/// The questions that need nothing to be known before, in one batch: a slow check is not used.
pub fn readiness_head() -> (r: Vec<BatchItem>)
    ensures
        obs::asked_all(r@) == head_questions(),
{
    let mut out: Vec<BatchItem> = Vec::new();
    out.push(BatchItem::new("GetCurrentProgramScene", obs::no_fields()));
    out.push(BatchItem::new("GetInputList", obs::no_fields()));
    out.push(BatchItem::new("GetSpecialInputs", obs::no_fields()));
    out.push(BatchItem::new("GetStats", obs::no_fields()));
    out.push(BatchItem::new("GetStreamStatus", obs::no_fields()));
    out.push(BatchItem::new("GetRecordStatus", obs::no_fields()));
    out.push(BatchItem::new("GetStreamServiceSettings", obs::no_fields()));
    assert(obs::asked_all(out@) =~= head_questions());
    out
}

/// The name of a scene in a reply. The field changed its name between versions of obs-websocket.
pub open spec fn scene_name_in(v: json::JsonV, key: Seq<char>) -> Option<Seq<char>> {
    match v.field(key) {
        Some(name) => name.text(),
        None => v.text_at("sceneName"@),
    }
}

/// The name of a scene in a reply.
pub fn scene_name(v: &Json, key: &str) -> (r: Option<String>)
    ensures
        text::opt_view(r) == scene_name_in(v@, key@),
{
    match v.get(key) {
        Some(name) => match name.as_str() {
            Some(s) => Some(s.to_owned()),
            None => None,
        },
        None => v.get_text("sceneName"),
    }
}

/// The scene on air, from the first replies.
pub open spec fn scene_on_air(head: Seq<json::JsonV>) -> Option<Seq<char>> {
    match obs::data_at(head, 0) {
        Some(v) => scene_name_in(v, "currentProgramSceneName"@),
        None => None,
    }
}

/// The scene on air, from the first replies.
pub fn current_scene(head: &Vec<Json>) -> (r: Option<String>)
    ensures
        text::opt_view(r) == scene_on_air(json::items_view(head@)),
{
    match obs::response_at(head, 0) {
        Some(v) => scene_name(v, "currentProgramSceneName"),
        None => None,
    }
}

// ---------------------------------------------------------------------------------------------
// Inputs
// ---------------------------------------------------------------------------------------------
/// An input: its name and its kind. The kind matters as much as the name: a plain output capture
/// has no role, yet records the sound of the system.
#[derive(Debug)]
pub struct ListedInput {
    pub name: String,
    pub kind: Option<String>,
}

/// What an input is: its name and its kind.
pub type ListedV = (Seq<char>, Option<Seq<char>>);

/// What the inputs are.
pub open spec fn listed_views(list: Seq<ListedInput>) -> Seq<ListedV> {
    list.map_values(|i: ListedInput| (i.name@, text::opt_view(i.kind)))
}

/// The inputs with a name.
pub open spec fn listed(inputs: Seq<json::JsonV>) -> Seq<ListedV>
    decreases inputs.len(),
{
    if inputs.len() == 0 {
        Seq::empty()
    } else {
        listed(inputs.drop_last()) + (match inputs.last().text_at("inputName"@) {
            Some(name) => seq![(name, inputs.last().text_at("inputKind"@))],
            None => Seq::empty(),
        })
    }
}

/// The inputs in the first replies.
pub open spec fn inputs_told(head: Seq<json::JsonV>) -> Seq<json::JsonV> {
    match obs::data_at(head, 1) {
        Some(v) => v.items_at("inputs"@),
        None => Seq::empty(),
    }
}

fn list_of(list: &Vec<Json>) -> (r: Vec<ListedInput>)
    ensures
        listed_views(r@) == listed(json::items_view(list@)),
{
    let ghost all = json::items_view(list@);
    let mut out: Vec<ListedInput> = Vec::new();
    assert(listed_views(out@) =~= Seq::empty());
    let mut i: usize = 0;
    while i < list.len()
        invariant
            i <= list@.len(),
            all == json::items_view(list@),
            listed_views(out@) == listed(all.take(i as int)),
        decreases list.len() - i,
    {
        proof {
            assert(all.take(i + 1).drop_last() =~= all.take(i as int));
            assert(all.take(i + 1).last() == list@[i as int]@);
        }
        let ghost before = listed_views(out@);
        if let Some(name) = list[i].get_text("inputName") {
            let input = ListedInput { name, kind: list[i].get_text("inputKind") };
            let ghost own: ListedV = (input.name@, text::opt_view(input.kind));
            out.push(input);
            assert(listed_views(out@) =~= before + seq![own]);
        } else {
            assert(listed_views(out@) =~= before + Seq::<ListedV>::empty());
        }
        i = i + 1;
    }
    assert(all.take(i as int) =~= all);
    out
}

/// The inputs in the first replies.
pub fn listed_inputs(head: &Vec<Json>) -> (r: Vec<ListedInput>)
    ensures
        listed_views(r@) == listed(inputs_told(json::items_view(head@))),
{
    if let Some(v) = obs::response_at(head, 1) {
        if let Some(list) = v.get_array("inputs") {
            return list_of(list);
        }
    }
    let none: Vec<ListedInput> = Vec::new();
    assert(listed_views(none@) =~= Seq::empty());
    none
}

/// The same question about each input.
pub open spec fn input_questions(
    request_type: Seq<char>,
    key: Seq<char>,
    inputs: Seq<ListedV>,
) -> Seq<(Seq<char>, json::JsonV)> {
    obs::one_each(request_type, key, inputs.map_values(|i: ListedV| i.0))
}

fn ask_inputs(request_type: &str, key: &str, inputs: &Vec<ListedInput>) -> (r: Vec<BatchItem>)
    ensures
        obs::asked_all(r@) == input_questions(request_type@, key@, listed_views(inputs@)),
{
    let mut names: Vec<String> = Vec::new();
    let mut i: usize = 0;
    while i < inputs.len()
        invariant
            i <= inputs@.len(),
            names@.len() == i,
            forall|k: int| 0 <= k < i ==> (#[trigger] names@[k])@ == inputs@[k].name@,
        decreases inputs.len() - i,
    {
        names.push(inputs[i].name.as_str().to_owned());
        i = i + 1;
    }
    assert(text::views(names@) =~= listed_views(inputs@).map_values(|i: ListedV| i.0));
    obs::ask_each(request_type, key, &names)
}

/// Is each input muted?
pub fn mute_questions(inputs: &Vec<ListedInput>) -> (r: Vec<BatchItem>)
    ensures
        obs::asked_all(r@) == input_questions(
            "GetInputMute"@,
            "inputName"@,
            listed_views(inputs@),
        ),
{
    ask_inputs("GetInputMute", "inputName", inputs)
}

/// Does each input take part in the program output?
pub fn activity_questions(inputs: &Vec<ListedInput>) -> (r: Vec<BatchItem>)
    ensures
        obs::asked_all(r@) == input_questions(
            "GetSourceActive"@,
            "sourceName"@,
            listed_views(inputs@),
        ),
{
    ask_inputs("GetSourceActive", "sourceName", inputs)
}

/// Whether OBS says that a source is active in the program output.
pub open spec fn activity(reply: Option<json::JsonV>) -> Verdict {
    match reply {
        Some(v) => match v.bool_at("videoActive"@) {
            Some(true) => Verdict::Good,
            Some(false) => Verdict::Broken,
            None => Verdict::Unknown,
        },
        None => Verdict::Unknown,
    }
}

/// Whether OBS says that a source is active in the program output.
pub fn active_verdict(reply: Option<&Json>) -> (r: Verdict)
    ensures
        r == activity(json::opt_model(reply)),
{
    match reply {
        Some(v) => match v.get_bool("videoActive") {
            Some(true) => Verdict::Good,
            Some(false) => Verdict::Broken,
            None => Verdict::Unknown,
        },
        None => Verdict::Unknown,
    }
}

/// The role of an input: the owner's choice of a microphone goes before that of OBS.
pub open spec fn role_for(
    assigned: roles::RolesV,
    special: Option<json::JsonV>,
    name: Seq<char>,
) -> Option<Seq<char>> {
    match roles::normal(assigned.microphone) {
        Some(mic) => if mic == name {
            Some("mic"@)
        } else if audio::known_role(special, name) == Some(audio::InputRole::Desktop) {
            Some("desktop"@)
        } else {
            None
        },
        None => match audio::known_role(special, name) {
            Some(role) => Some(role.word()),
            None => None,
        },
    }
}

fn input_role(microphone: &Option<String>, special: Option<&Json>, name: &str) -> (r: Option<
    String,
>)
    ensures
        forall|assigned: roles::RolesV|
            roles::normal(assigned.microphone) == text::opt_view(*microphone)
                ==> text::opt_view(r) == #[trigger] role_for(
                assigned,
                json::opt_model(special),
                name@,
            ),
{
    let own = audio::role_among(special, name);
    match microphone {
        Some(mic) => if text::same(mic.as_str(), name) {
            Some("mic".to_owned())
        } else {
            match own {
                Some(audio::InputRole::Desktop) => Some("desktop".to_owned()),
                _ => None,
            }
        },
        None => match own {
            Some(role) => Some(role.name().to_owned()),
            None => None,
        },
    }
}

/// What an audio input is.
#[verifier::ext_equal]
pub struct InputV {
    pub name: Seq<char>,
    pub role: Option<Seq<char>>,
    pub kind: Option<Seq<char>>,
    pub muted: bool,
    pub in_program_output: bool,
    pub level_db: Option<Reading>,
}

/// What an audio input is.
pub open spec fn input_view(a: AudioInput) -> InputV {
    InputV {
        name: a.name@,
        role: text::opt_view(a.role),
        kind: text::opt_view(a.kind),
        muted: a.muted,
        in_program_output: a.in_program_output,
        level_db: a.level_db,
    }
}

/// What audio inputs are.
pub open spec fn input_views(list: Seq<AudioInput>) -> Seq<InputV> {
    list.map_values(|a: AudioInput| input_view(a))
}

/// What is known of the sound: the roles, the replies about each input and the measured levels.
#[verifier::ext_equal]
pub struct SoundV {
    pub assigned: roles::RolesV,
    pub special: Option<json::JsonV>,
    pub mutes: Seq<json::JsonV>,
    pub activity: Seq<json::JsonV>,
    pub levels: Map<Seq<char>, Reading>,
}

/// Whether an input is muted, if it has sound at all: one without answers with an error.
pub open spec fn muted_at(mutes: Seq<json::JsonV>, i: int) -> Option<bool> {
    match obs::data_at(mutes, i) {
        Some(v) => v.bool_at("inputMuted"@),
        None => None,
    }
}

/// What one of the inputs is as an audio input. It takes part in the program output unless OBS says
/// that it does not: what is unknown might carry the screen reader into the broadcast.
pub open spec fn heard_input(inputs: Seq<ListedV>, i: int, sound: SoundV, muted: bool) -> InputV {
    InputV {
        name: inputs[i].0,
        role: role_for(sound.assigned, sound.special, inputs[i].0),
        kind: inputs[i].1,
        muted,
        in_program_output: activity(obs::data_at(sound.activity, i)) != Verdict::Broken,
        level_db: if sound.levels.contains_key(inputs[i].0) {
            Some(sound.levels[inputs[i].0])
        } else {
            None
        },
    }
}

/// The audio inputs among the first so many inputs.
pub open spec fn sounding(inputs: Seq<ListedV>, upto: int, sound: SoundV) -> Seq<InputV>
    decreases upto,
{
    if upto <= 0 {
        Seq::empty()
    } else {
        sounding(inputs, upto - 1, sound) + (match muted_at(sound.mutes, upto - 1) {
            Some(muted) => seq![heard_input(inputs, upto - 1, sound, muted)],
            None => Seq::empty(),
        })
    }
}

fn muted_in(mutes: &Vec<Json>, i: usize) -> (r: Option<bool>)
    ensures
        r == muted_at(json::items_view(mutes@), i as int),
{
    match obs::response_at(mutes, i) {
        Some(v) => v.get_bool("inputMuted"),
        None => None,
    }
}

/// The audio inputs: those that can be muted, with their roles, levels and activity.
pub fn audio_inputs(
    inputs: &Vec<ListedInput>,
    assigned: &SourceRoles,
    head: &Vec<Json>,
    mutes: &Vec<Json>,
    activity: &Vec<Json>,
    levels: &Table<Reading>,
) -> (r: Vec<AudioInput>)
    requires
        levels.wf(),
    ensures
        input_views(r@) == sounding(
            listed_views(inputs@),
            inputs@.len() as int,
            (SoundV {
                assigned: assigned@,
                special: obs::data_at(json::items_view(head@), 2),
                mutes: json::items_view(mutes@),
                activity: json::items_view(activity@),
                levels: levels@,
            }),
        ),
{
    let special = obs::response_at(head, 2);
    let microphone = match &assigned.microphone {
        Some(m) => if text::is_blank(m.as_str()) {
            None
        } else {
            Some(text::trim(m.as_str()))
        },
        None => None,
    };
    assert(text::opt_view(microphone) == roles::normal(assigned@.microphone));
    let ghost all = listed_views(inputs@);
    let ghost sound = SoundV {
        assigned: assigned@,
        special: obs::data_at(json::items_view(head@), 2),
        mutes: json::items_view(mutes@),
        activity: json::items_view(activity@),
        levels: levels@,
    };
    let mut out: Vec<AudioInput> = Vec::new();
    assert(input_views(out@) =~= Seq::empty());
    let mut i: usize = 0;
    while i < inputs.len()
        invariant
            i <= inputs@.len(),
            levels.wf(),
            all == listed_views(inputs@),
            text::opt_view(microphone) == roles::normal(assigned@.microphone),
            sound.assigned == assigned@,
            sound.special == json::opt_model(special),
            sound.mutes == json::items_view(mutes@),
            sound.activity == json::items_view(activity@),
            sound.levels == levels@,
            input_views(out@) == sounding(all, i as int, sound),
        decreases inputs.len() - i,
    {
        let ghost before = input_views(out@);
        assert(all[i as int] == (inputs@[i as int].name@, text::opt_view(inputs@[i as int].kind)));
        match muted_in(mutes, i) {
            Some(muted) => {
                let name = inputs[i].name.as_str();
                let active = active_verdict(obs::response_at(activity, i));
                let input = AudioInput {
                    name: name.to_owned(),
                    role: input_role(&microphone, special, name),
                    kind: text::copy_opt(&inputs[i].kind),
                    muted,
                    in_program_output: match active {
                        Verdict::Broken => false,
                        _ => true,
                    },
                    level_db: levels.get(name),
                };
                let ghost own = input_view(input);
                out.push(input);
                assert(text::opt_view(input.role) == role_for(
                    sound.assigned,
                    sound.special,
                    name@,
                ));
                assert(input_views(out@) =~= before + seq![own]);
            },
            None => {
                assert(input_views(out@) =~= before + Seq::<InputV>::empty());
            },
        }
        i = i + 1;
    }
    out
}

// ---------------------------------------------------------------------------------------------
// Sources of a scene
// ---------------------------------------------------------------------------------------------
/// Whether a scene item is a nested scene or a group: both give a picture, but have no kind.
pub open spec fn is_nested(item: json::JsonV) -> bool {
    item.bool_at("isGroup"@) == Some(true) || item.text_at("sourceType"@) == Some(
        "OBS_SOURCE_TYPE_SCENE"@,
    )
}

fn nested(item: &Json) -> (r: bool)
    ensures
        r == is_nested(item@),
{
    let group = match item.get_bool("isGroup") {
        Some(b) => b,
        None => false,
    };
    if group {
        return true;
    }
    match item.get_str("sourceType") {
        Some(s) => text::same(s, "OBS_SOURCE_TYPE_SCENE"),
        None => false,
    }
}

/// What to ask about the content of a nested scene or group, if an item is one.
pub open spec fn content_question(item: json::JsonV) -> Option<(Seq<char>, json::JsonV)> {
    match item.text_at("sourceName"@) {
        Some(name) => if item.bool_at("isGroup"@) == Some(true) {
            Some(("GetGroupSceneItemList"@, obs::one_text("sceneName"@, name)))
        } else if is_nested(item) {
            Some(("GetSceneItemList"@, obs::one_text("sceneName"@, name)))
        } else {
            None
        },
        None => None,
    }
}

/// What to ask about the content of a nested scene or group, if an item is one.
pub fn nested_question(item: &Json) -> (r: Option<BatchItem>)
    ensures
        (match r {
            Some(q) => Some(obs::asked(q)),
            None => None,
        }) == content_question(item@),
{
    let name = match item.get_str("sourceName") {
        Some(name) => name,
        None => {
            return None;
        },
    };
    let group = match item.get_bool("isGroup") {
        Some(b) => b,
        None => false,
    };
    if group {
        Some(BatchItem::new("GetGroupSceneItemList", obs::with_text("sceneName", name)))
    } else if nested(item) {
        Some(BatchItem::new("GetSceneItemList", obs::with_text("sceneName", name)))
    } else {
        None
    }
}

/// What a nested scene or group holds, where OBS told.
#[derive(Debug)]
pub struct SceneList {
    pub name: String,
    pub items: Option<Vec<Json>>,
}

/// What a nested scene or group holds, where OBS told.
pub type ListV = (Seq<char>, Option<Seq<json::JsonV>>);

/// Items that OBS told, or that it did not tell.
pub open spec fn told_view(items: Option<Vec<Json>>) -> Option<Seq<json::JsonV>> {
    match items {
        Some(list) => Some(json::items_view(list@)),
        None => None,
    }
}

/// What nested scenes and groups hold.
pub open spec fn list_views(lists: Seq<SceneList>) -> Seq<ListV> {
    lists.map_values(|l: SceneList| (l.name@, told_view(l.items)))
}

/// The names of nested scenes and groups.
pub open spec fn list_names(lists: Seq<ListV>) -> Seq<Seq<char>> {
    lists.map_values(|l: ListV| l.0)
}

/// What a nested scene or group holds, if that is known: the first content that was told of it.
pub open spec fn content_of(lists: Seq<ListV>, name: Seq<char>) -> Option<Seq<json::JsonV>>
    decreases lists.len(),
{
    if lists.len() == 0 {
        None
    } else {
        match content_of(lists.drop_last(), name) {
            Some(items) => Some(items),
            None => if lists.last().0 == name {
                lists.last().1
            } else {
                None
            },
        }
    }
}

proof fn lemma_content_stays(lists: Seq<ListV>, name: Seq<char>, i: int)
    requires
        0 <= i < lists.len(),
        content_of(lists.take(i), name) is None,
        lists[i].0 == name,
        lists[i].1 is Some,
    ensures
        content_of(lists, name) == lists[i].1,
    decreases lists.len(),
{
    if i == lists.len() - 1 {
        assert(lists.take(i) =~= lists.drop_last());
    } else {
        assert(lists.drop_last().take(i) =~= lists.take(i));
        lemma_content_stays(lists.drop_last(), name, i);
    }
}

fn find_content<'a>(lists: &'a Vec<SceneList>, name: &str) -> (r: Option<&'a Vec<Json>>)
    ensures
        (match r {
            Some(items) => Some(json::items_view(items@)),
            None => None,
        }) == content_of(list_views(lists@), name@),
{
    let ghost all = list_views(lists@);
    let mut i: usize = 0;
    while i < lists.len()
        invariant
            i <= lists@.len(),
            all == list_views(lists@),
            content_of(all.take(i as int), name@) is None,
        decreases lists.len() - i,
    {
        proof {
            assert(all.take(i + 1).drop_last() =~= all.take(i as int));
            assert(all[i as int] == (lists@[i as int].name@, told_view(lists@[i as int].items)));
        }
        if text::same(lists[i].name.as_str(), name) {
            if let Some(items) = &lists[i].items {
                proof {
                    lemma_content_stays(all, name@, i as int);
                }
                return Some(items);
            }
        }
        i = i + 1;
    }
    assert(all.take(i as int) =~= all);
    None
}

/// Whether OBS says that a source is active; without a word, it is not known.
pub open spec fn active_of(active: Map<Seq<char>, Verdict>, name: Seq<char>) -> Verdict {
    if active.contains_key(name) {
        active[name]
    } else {
        Verdict::Unknown
    }
}

/// Whether sources stand for content that is not known: one picture without a name, of which it is
/// not known whether it is active.
pub open spec fn stands_for_unknown(sources: Seq<SceneSource>) -> bool {
    &&& sources.len() == 1
    &&& sources[0].name@ == ""@
    &&& sources[0].enabled
    &&& sources[0].kind is None
    &&& !sources[0].is_scene_or_group
    &&& sources[0].active == Verdict::Unknown
    &&& sources[0].children@.len() == 0
}

/// The source that stands for the unknown content of a nested scene or group.
fn unknown_content() -> (r: Vec<SceneSource>)
    ensures
        stands_for_unknown(r@),
{
    let mut out: Vec<SceneSource> = Vec::new();
    out.push(
        SceneSource {
            name: "".to_owned(),
            enabled: true,
            kind: None,
            is_scene_or_group: false,
            active: Verdict::Unknown,
            children: Vec::new(),
        },
    );
    out
}

/// Whether sources are what the first so many scene items describe: the named ones, in order, with
/// what nested scenes and groups hold, down to a depth. Content that is not known is shown as such.
pub open spec fn depicts(
    items: Seq<json::JsonV>,
    upto: int,
    lists: Seq<ListV>,
    active: Map<Seq<char>, Verdict>,
    depth: nat,
    sources: Seq<SceneSource>,
) -> bool
    decreases depth, upto,
{
    if upto <= 0 {
        sources.len() == 0
    } else {
        let item = items[upto - 1];
        match item.text_at("sourceName"@) {
            Some(name) => {
                &&& sources.len() > 0
                &&& sources.last().name@ == name
                &&& sources.last().enabled == (item.bool_at("sceneItemEnabled"@) != Some(false))
                &&& text::opt_view(sources.last().kind) == item.text_at("inputKind"@)
                &&& sources.last().is_scene_or_group == is_nested(item)
                &&& sources.last().active == active_of(active, name)
                &&& if is_nested(item) {
                    if depth > 0 && content_of(lists, name) is Some {
                        depicts(
                            content_of(lists, name)->0,
                            content_of(lists, name)->0.len() as int,
                            lists,
                            active,
                            (depth - 1) as nat,
                            sources.last().children@,
                        )
                    } else {
                        stands_for_unknown(sources.last().children@)
                    }
                } else {
                    sources.last().children@.len() == 0
                }
                &&& depicts(items, upto - 1, lists, active, depth, sources.drop_last())
            },
            None => depicts(items, upto - 1, lists, active, depth, sources),
        }
    }
}

/// The sources of a scene, with what nested scenes and groups hold, down to a depth.
pub fn scene_sources(
    items: &Vec<Json>,
    lists: &Vec<SceneList>,
    active: &Table<Verdict>,
    depth: usize,
) -> (r: Vec<SceneSource>)
    requires
        active.wf(),
    ensures
        depicts(
            json::items_view(items@),
            items@.len() as int,
            list_views(lists@),
            active@,
            depth as nat,
            r@,
        ),
    decreases depth,
{
    let ghost all = json::items_view(items@);
    let ghost held = list_views(lists@);
    let mut out: Vec<SceneSource> = Vec::new();
    let mut i: usize = 0;
    while i < items.len()
        invariant
            i <= items@.len(),
            active.wf(),
            all == json::items_view(items@),
            held == list_views(lists@),
            depicts(all, i as int, held, active@, depth as nat, out@),
        decreases items.len() - i,
    {
        assert(all[i as int] == items@[i as int]@);
        let ghost before = out@;
        if let Some(name) = items[i].get_text("sourceName") {
            let group = nested(&items[i]);
            let children: Vec<SceneSource> = if !group {
                Vec::new()
            } else if depth == 0 {
                unknown_content()
            } else {
                match find_content(lists, name.as_str()) {
                    Some(inner) => scene_sources(inner, lists, active, depth - 1),
                    None => unknown_content(),
                }
            };
            let enabled = match items[i].get_bool("sceneItemEnabled") {
                Some(b) => b,
                None => true,
            };
            let shown = match active.get(name.as_str()) {
                Some(v) => v,
                None => Verdict::Unknown,
            };
            out.push(
                SceneSource {
                    name,
                    enabled,
                    kind: items[i].get_text("inputKind"),
                    is_scene_or_group: group,
                    active: shown,
                    children,
                },
            );
            assert(out@.drop_last() =~= before);
        }
        i = i + 1;
    }
    out
}

/// A question about the content of a nested scene or group.
#[derive(Debug)]
pub struct NestedQuestion {
    pub name: String,
    pub item: BatchItem,
}

/// A question about the content of a nested scene or group: its name, and what is asked.
pub type NestedV = (Seq<char>, (Seq<char>, json::JsonV));

/// Questions about the content of nested scenes and groups.
pub open spec fn nested_views(list: Seq<NestedQuestion>) -> Seq<NestedV> {
    list.map_values(|q: NestedQuestion| (q.name@, obs::asked(q.item)))
}

/// The names in questions.
pub open spec fn asked_names(list: Seq<NestedV>) -> Seq<Seq<char>> {
    list.map_values(|q: NestedV| q.0)
}

/// What is asked in questions.
pub open spec fn asked_items(list: Seq<NestedV>) -> Seq<(Seq<char>, json::JsonV)> {
    list.map_values(|q: NestedV| q.1)
}

/// The nested scenes and groups among the first so many items whose content is not known yet, each
/// once.
pub open spec fn open_questions(items: Seq<json::JsonV>, upto: int, known: Seq<Seq<char>>) -> Seq<
    NestedV,
>
    decreases upto,
{
    if upto <= 0 {
        Seq::empty()
    } else {
        let before = open_questions(items, upto - 1, known);
        match (items[upto - 1].text_at("sourceName"@), content_question(items[upto - 1])) {
            (Some(name), Some(q)) => if known.contains(name) || asked_names(before).contains(
                name,
            ) {
                before
            } else {
                before.push((name, q))
            },
            _ => before,
        }
    }
}

fn is_listed(lists: &Vec<SceneList>, name: &str) -> (r: bool)
    ensures
        r == list_names(list_views(lists@)).contains(name@),
{
    let ghost all = list_names(list_views(lists@));
    let mut i: usize = 0;
    while i < lists.len()
        invariant
            i <= lists@.len(),
            all == list_names(list_views(lists@)),
            forall|k: int| 0 <= k < i ==> all[k] != name@,
        decreases lists.len() - i,
    {
        if text::same(lists[i].name.as_str(), name) {
            assert(all[i as int] == name@);
            return true;
        }
        assert(all[i as int] == lists@[i as int].name@);
        i = i + 1;
    }
    false
}

fn is_asked(list: &Vec<NestedQuestion>, name: &str) -> (r: bool)
    ensures
        r == asked_names(nested_views(list@)).contains(name@),
{
    let ghost all = asked_names(nested_views(list@));
    let mut i: usize = 0;
    while i < list.len()
        invariant
            i <= list@.len(),
            all == asked_names(nested_views(list@)),
            forall|k: int| 0 <= k < i ==> all[k] != name@,
        decreases list.len() - i,
    {
        if text::same(list[i].name.as_str(), name) {
            assert(all[i as int] == name@);
            return true;
        }
        assert(all[i as int] == list@[i as int].name@);
        i = i + 1;
    }
    false
}

/// The nested scenes and groups whose content is to be asked for.
pub fn nested_questions(items: &Vec<Json>, lists: &Vec<SceneList>) -> (r: Vec<NestedQuestion>)
    ensures
        nested_views(r@) == open_questions(
            json::items_view(items@),
            items@.len() as int,
            list_names(list_views(lists@)),
        ),
{
    let ghost all = json::items_view(items@);
    let ghost known = list_names(list_views(lists@));
    let mut out: Vec<NestedQuestion> = Vec::new();
    assert(nested_views(out@) =~= Seq::empty());
    let mut i: usize = 0;
    while i < items.len()
        invariant
            i <= items@.len(),
            all == json::items_view(items@),
            known == list_names(list_views(lists@)),
            nested_views(out@) == open_questions(all, i as int, known),
        decreases items.len() - i,
    {
        assert(all[i as int] == items@[i as int]@);
        let ghost before = nested_views(out@);
        if let Some(name) = items[i].get_text("sourceName") {
            if let Some(item) = nested_question(&items[i]) {
                if !is_listed(lists, name.as_str()) && !is_asked(&out, name.as_str()) {
                    let ghost own: NestedV = (name@, obs::asked(item));
                    out.push(NestedQuestion { name, item });
                    assert(nested_views(out@) =~= before.push(own));
                }
            }
        }
        i = i + 1;
    }
    out
}

// ---------------------------------------------------------------------------------------------
// Gathering
// ---------------------------------------------------------------------------------------------
/// What is being waited for.
#[derive(Debug, Clone, Copy, PartialEq, Eq, Structural)]
pub enum ReadyStage {
    /// What needs nothing to be known before.
    Head,
    /// Which inputs are muted.
    Mutes,
    /// Which inputs take part in the program output.
    Activity,
    /// The items of the scene on air.
    Scene,
    /// The content of nested scenes and groups.
    Nested,
    /// Which sources are active.
    Sources,
    /// Nothing: all is gathered, or OBS could not be asked.
    Over,
}

/// The work of gathering.
#[derive(Debug)]
pub struct ReadyWork {
    pub stage: ReadyStage,
    pub head: Vec<Json>,
    pub inputs: Vec<ListedInput>,
    pub mutes: Vec<Json>,
    pub activity: Vec<Json>,
    /// The items of the scene on air.
    pub items: Vec<Json>,
    /// All items that were seen, of the scene and of what is nested in it.
    pub seen: Vec<Json>,
    pub lists: Vec<SceneList>,
    /// The nested scenes and groups that are being asked for.
    pub asked: Vec<NestedQuestion>,
    pub active: Table<Verdict>,
}

/// What the work is.
#[verifier::ext_equal]
pub struct ReadyV {
    pub stage: ReadyStage,
    pub head: Seq<json::JsonV>,
    pub inputs: Seq<ListedV>,
    pub mutes: Seq<json::JsonV>,
    pub activity: Seq<json::JsonV>,
    pub items: Seq<json::JsonV>,
    pub seen: Seq<json::JsonV>,
    pub lists: Seq<ListV>,
    pub asked: Seq<NestedV>,
    pub active: Map<Seq<char>, Verdict>,
}

impl View for ReadyWork {
    type V = ReadyV;

    open spec fn view(&self) -> ReadyV {
        ReadyV {
            stage: self.stage,
            head: json::items_view(self.head@),
            inputs: listed_views(self.inputs@),
            mutes: json::items_view(self.mutes@),
            activity: json::items_view(self.activity@),
            items: json::items_view(self.items@),
            seen: json::items_view(self.seen@),
            lists: list_views(self.lists@),
            asked: nested_views(self.asked@),
            active: self.active@,
        }
    }
}

/// What is to be done next.
pub enum ReadyNext {
    /// Send these requests in one batch.
    Ask(Vec<BatchItem>),
    /// All is gathered.
    Gathered,
    /// OBS could not be asked.
    Refused(Refusal),
}

/// What is to be done next.
#[verifier::ext_equal]
pub enum ReadyNextV {
    Ask(Seq<(Seq<char>, json::JsonV)>),
    Gathered,
    Refused(api::RefusalV),
}

impl View for ReadyNext {
    type V = ReadyNextV;

    open spec fn view(&self) -> ReadyNextV {
        match *self {
            ReadyNext::Ask(items) => ReadyNextV::Ask(obs::asked_all(items@)),
            ReadyNext::Gathered => ReadyNextV::Gathered,
            ReadyNext::Refused(e) => ReadyNextV::Refused(e@),
        }
    }
}

/// What OBS said to a batch.
pub type BatchV = Result<Seq<json::JsonV>, Seq<char>>;

/// What OBS said to a batch.
pub open spec fn batch_view(r: Result<Vec<Json>, String>) -> BatchV {
    match r {
        Ok(list) => Ok(json::items_view(list@)),
        Err(e) => Err(e@),
    }
}

/// The replies to a batch; none where it failed.
pub open spec fn replies(reply: BatchV) -> Seq<json::JsonV> {
    match reply {
        Ok(list) => list,
        Err(_) => Seq::empty(),
    }
}

/// The items in a reply, if OBS told any.
pub open spec fn items_told(results: Seq<json::JsonV>, i: int) -> Option<Seq<json::JsonV>> {
    match obs::data_at(results, i) {
        Some(v) => v.array_at("sceneItems"@),
        None => None,
    }
}

/// The content that was asked for, added to what is known. What OBS does not tell stays unknown.
pub open spec fn lists_with(lists: Seq<ListV>, asked: Seq<NestedV>, results: Seq<json::JsonV>) -> Seq<
    ListV,
> {
    lists + Seq::new(asked.len(), |k: int| (asked[k].0, items_told(results, k)))
}

/// The items in the first so many replies, one after the other.
pub open spec fn items_together(results: Seq<json::JsonV>, upto: int) -> Seq<json::JsonV>
    decreases upto,
{
    if upto <= 0 {
        Seq::empty()
    } else {
        items_together(results, upto - 1) + audio::items_in(results, upto - 1)
    }
}

/// What OBS says of the first so many sources.
pub open spec fn active_table(names: Seq<Seq<char>>, results: Seq<json::JsonV>, upto: int) -> Map<
    Seq<char>,
    Verdict,
>
    decreases upto,
{
    if upto <= 0 {
        Map::empty()
    } else {
        active_table(names, results, upto - 1).insert(
            names[upto - 1],
            activity(obs::data_at(results, upto - 1)),
        )
    }
}

/// After new items came in: what is nested in them is asked for, and when nothing is left to ask,
/// which sources are active.
pub open spec fn looking(st: ReadyV, fresh: Seq<json::JsonV>) -> (ReadyV, ReadyNextV) {
    let seen = st.seen + fresh;
    let asked = open_questions(fresh, fresh.len() as int, list_names(st.lists));
    if asked.len() == 0 {
        (
            ReadyV { stage: ReadyStage::Sources, seen, asked, ..st },
            ReadyNextV::Ask(
                obs::one_each(
                    "GetSourceActive"@,
                    "sourceName"@,
                    json::texts_of(seen, "sourceName"@),
                ),
            ),
        )
    } else {
        (
            ReadyV { stage: ReadyStage::Nested, seen, asked, ..st },
            ReadyNextV::Ask(asked_items(asked)),
        )
    }
}

/// What follows what OBS said. Only without the first replies there is nothing to look at; what else
/// OBS does not tell stays unknown.
pub open spec fn ready_step(st: ReadyV, reply: BatchV) -> (ReadyV, ReadyNextV) {
    let got = replies(reply);
    match st.stage {
        ReadyStage::Head => match reply {
            Ok(head) => {
                let inputs = listed(inputs_told(head));
                (
                    ReadyV { stage: ReadyStage::Mutes, head, inputs, ..st },
                    ReadyNextV::Ask(input_questions("GetInputMute"@, "inputName"@, inputs)),
                )
            },
            Err(e) => (
                ReadyV { stage: ReadyStage::Over, ..st },
                ReadyNextV::Refused(api::failure("Не удалось опросить OBS"@, e)),
            ),
        },
        ReadyStage::Mutes => (
            ReadyV { stage: ReadyStage::Activity, mutes: got, ..st },
            ReadyNextV::Ask(input_questions("GetSourceActive"@, "sourceName"@, st.inputs)),
        ),
        ReadyStage::Activity => match scene_on_air(st.head) {
            Some(scene) => (
                ReadyV { stage: ReadyStage::Scene, activity: got, ..st },
                ReadyNextV::Ask(
                    seq![("GetSceneItemList"@, obs::one_text("sceneName"@, scene))],
                ),
            ),
            None => (
                ReadyV { stage: ReadyStage::Over, activity: got, ..st },
                ReadyNextV::Gathered,
            ),
        },
        ReadyStage::Scene => {
            let items = audio::items_in(got, 0);
            looking(ReadyV { items, ..st }, items)
        },
        ReadyStage::Nested => looking(
            ReadyV { lists: lists_with(st.lists, st.asked, got), ..st },
            items_together(got, st.asked.len() as int),
        ),
        ReadyStage::Sources => (
            ReadyV {
                stage: ReadyStage::Over,
                active: active_table(
                    json::texts_of(st.seen, "sourceName"@),
                    got,
                    json::texts_of(st.seen, "sourceName"@).len() as int,
                ),
                ..st
            },
            ReadyNextV::Gathered,
        ),
        ReadyStage::Over => (st, ReadyNextV::Gathered),
    }
}

fn copy_items_at(results: &Vec<Json>, i: usize) -> (r: Vec<Json>)
    ensures
        json::items_view(r@) == audio::items_in(json::items_view(results@), i as int),
{
    match obs::response_at(results, i) {
        Some(v) => obs::copy_items(v, "sceneItems"),
        None => {
            let none: Vec<Json> = Vec::new();
            assert(json::items_view(none@) =~= Seq::empty());
            none
        },
    }
}

fn copy_told_items(results: &Vec<Json>, i: usize) -> (r: Option<Vec<Json>>)
    ensures
        told_view(r) == items_told(json::items_view(results@), i as int),
{
    match obs::response_at(results, i) {
        Some(v) => match v.get_array("sceneItems") {
            Some(_) => Some(obs::copy_items(v, "sceneItems")),
            None => None,
        },
        None => None,
    }
}

fn append_copies(out: &mut Vec<Json>, more: &Vec<Json>)
    ensures
        json::items_view(final(out)@) == json::items_view(old(out)@) + json::items_view(more@),
{
    let ghost before = json::items_view(out@);
    let ghost all = json::items_view(more@);
    let mut i: usize = 0;
    assert(json::items_view(out@) =~= before + all.take(0));
    while i < more.len()
        invariant
            i <= more@.len(),
            all == json::items_view(more@),
            json::items_view(out@) == before + all.take(i as int),
        decreases more.len() - i,
    {
        let ghost held = json::items_view(out@);
        let v = more[i].copy();
        let ghost own = v@;
        out.push(v);
        assert(json::items_view(out@) =~= held.push(own));
        assert(all.take(i + 1) =~= all.take(i as int).push(own));
        assert(json::items_view(out@) =~= before + all.take(i + 1));
        i = i + 1;
    }
    assert(all.take(i as int) =~= all);
}

fn names_seen(seen: &Vec<Json>) -> (r: Vec<String>)
    ensures
        text::views(r@) == json::texts_of(json::items_view(seen@), "sourceName"@),
{
    let ghost all = json::items_view(seen@);
    let mut out: Vec<String> = Vec::new();
    assert(text::views(out@) =~= Seq::empty());
    let mut i: usize = 0;
    while i < seen.len()
        invariant
            i <= seen@.len(),
            all == json::items_view(seen@),
            text::views(out@) == json::texts_of(all.take(i as int), "sourceName"@),
        decreases seen.len() - i,
    {
        proof {
            assert(all.take(i + 1).drop_last() =~= all.take(i as int));
            assert(all.take(i + 1).last() == seen@[i as int]@);
        }
        let ghost before = text::views(out@);
        if let Some(name) = seen[i].get_text("sourceName") {
            let ghost own = name@;
            out.push(name);
            assert(text::views(out@) =~= before + seq![own]);
        } else {
            assert(text::views(out@) =~= before + Seq::<Seq<char>>::empty());
        }
        i = i + 1;
    }
    assert(all.take(i as int) =~= all);
    out
}

fn table_of_activity(names: &Vec<String>, results: &Vec<Json>) -> (r: Table<Verdict>)
    ensures
        r.wf(),
        r@ == active_table(
            text::views(names@),
            json::items_view(results@),
            names@.len() as int,
        ),
{
    let ghost all = text::views(names@);
    let ghost got = json::items_view(results@);
    let mut out: Table<Verdict> = Table::new();
    let mut i: usize = 0;
    while i < names.len()
        invariant
            i <= names@.len(),
            out.wf(),
            all == text::views(names@),
            got == json::items_view(results@),
            out@ == active_table(all, got, i as int),
        decreases names.len() - i,
    {
        assert(all[i as int] == names@[i as int]@);
        out.put(names[i].as_str(), active_verdict(obs::response_at(results, i)));
        i = i + 1;
    }
    out
}

fn question_items(list: &Vec<NestedQuestion>) -> (r: Vec<BatchItem>)
    ensures
        obs::asked_all(r@) == asked_items(nested_views(list@)),
{
    let mut out: Vec<BatchItem> = Vec::new();
    let mut i: usize = 0;
    while i < list.len()
        invariant
            i <= list@.len(),
            out@.len() == i,
            forall|k: int| 0 <= k < i ==> obs::asked(#[trigger] out@[k]) == obs::asked(list@[k].item),
        decreases list.len() - i,
    {
        let item = &list[i].item;
        out.push(BatchItem::new(item.request_type.as_str(), item.request_data.copy()));
        i = i + 1;
    }
    assert(obs::asked_all(out@) =~= asked_items(nested_views(list@)));
    out
}

/// The content of nested scenes and groups, out of the replies, and all their items together.
fn take_lists(lists: &mut Vec<SceneList>, asked: &Vec<NestedQuestion>, results: &Vec<Json>) -> (r: Vec<
    Json,
>)
    ensures
        list_views(final(lists)@) == lists_with(
            list_views(old(lists)@),
            nested_views(asked@),
            json::items_view(results@),
        ),
        json::items_view(r@) == items_together(json::items_view(results@), asked@.len() as int),
{
    let ghost before = list_views(lists@);
    let ghost got = json::items_view(results@);
    let mut fresh: Vec<Json> = Vec::new();
    assert(json::items_view(fresh@) =~= Seq::empty());
    let mut i: usize = 0;
    while i < asked.len()
        invariant
            i <= asked@.len(),
            got == json::items_view(results@),
            list_views(lists@).len() == before.len() + i,
            forall|k: int| 0 <= k < before.len() ==> list_views(lists@)[k] == before[k],
            forall|k: int|
                0 <= k < i ==> (#[trigger] list_views(lists@)[before.len() + k]) == (
                    asked@[k].name@,
                    items_told(got, k),
                ),
            json::items_view(fresh@) == items_together(got, i as int),
        decreases asked.len() - i,
    {
        let items = copy_told_items(results, i);
        let ghost before_fresh = json::items_view(fresh@);
        if let Some(told) = &items {
            append_copies(&mut fresh, told);
        } else {
            assert(before_fresh + Seq::<json::JsonV>::empty() =~= before_fresh);
        }
        let list = SceneList { name: asked[i].name.as_str().to_owned(), items };
        let ghost held = list_views(lists@);
        let ghost own: ListV = (list.name@, told_view(list.items));
        lists.push(list);
        assert(list_views(lists@) =~= held.push(own));
        i = i + 1;
    }
    proof {
        let whole = list_views(lists@);
        let expected = lists_with(before, nested_views(asked@), got);
        assert(nested_views(asked@).len() == asked@.len());
        assert forall|k: int| 0 <= k < whole.len() implies whole[k] == expected[k] by {
            if k >= before.len() {
                let j = k - before.len();
                assert(whole[before.len() + j] == (asked@[j].name@, items_told(got, j)));
                assert(nested_views(asked@)[j].0 == asked@[j].name@);
            }
        }
        assert(whole =~= expected);
    }
    fresh
}

impl ReadyWork {
    /// The table is sound.
    pub open spec fn wf(self) -> bool {
        self.active.wf()
    }

    /// Begins with what needs nothing to be known before.
    pub fn preflight() -> (r: (ReadyWork, Vec<BatchItem>))
        ensures
            r.0.wf(),
            r.0@ == (ReadyV {
                stage: ReadyStage::Head,
                head: Seq::empty(),
                inputs: Seq::empty(),
                mutes: Seq::empty(),
                activity: Seq::empty(),
                items: Seq::empty(),
                seen: Seq::empty(),
                lists: Seq::empty(),
                asked: Seq::empty(),
                active: Map::empty(),
            }),
            obs::asked_all(r.1@) == head_questions(),
    {
        let work = ReadyWork {
            stage: ReadyStage::Head,
            head: Vec::new(),
            inputs: Vec::new(),
            mutes: Vec::new(),
            activity: Vec::new(),
            items: Vec::new(),
            seen: Vec::new(),
            lists: Vec::new(),
            asked: Vec::new(),
            active: Table::new(),
        };
        assert(work@.head =~= Seq::empty());
        assert(work@.inputs =~= Seq::empty());
        assert(work@.mutes =~= Seq::empty());
        assert(work@.activity =~= Seq::empty());
        assert(work@.items =~= Seq::empty());
        assert(work@.seen =~= Seq::empty());
        assert(work@.lists =~= Seq::empty());
        assert(work@.asked =~= Seq::empty());
        (work, readiness_head())
    }

    fn look(&mut self, fresh: &Vec<Json>) -> (r: ReadyNext)
        requires
            old(self).wf(),
        ensures
            final(self).wf(),
            (final(self)@, r@) == looking(old(self)@, json::items_view(fresh@)),
    {
        append_copies(&mut self.seen, fresh);
        self.asked = nested_questions(fresh, &self.lists);
        assert(json::items_view(fresh@).len() == fresh@.len());
        assert(nested_views(self.asked@).len() == self.asked@.len());
        if self.asked.len() == 0 {
            self.stage = ReadyStage::Sources;
            let names = names_seen(&self.seen);
            ReadyNext::Ask(obs::ask_each("GetSourceActive", "sourceName", &names))
        } else {
            self.stage = ReadyStage::Nested;
            ReadyNext::Ask(question_items(&self.asked))
        }
    }

    /// Takes what OBS said and says what to do next.
    pub fn advance(&mut self, reply: Result<Vec<Json>, String>) -> (r: ReadyNext)
        requires
            old(self).wf(),
        ensures
            final(self).wf(),
            (final(self)@, r@) == ready_step(old(self)@, batch_view(reply)),
    {
        if let ReadyStage::Head = self.stage {
            return match reply {
                Ok(head) => {
                    self.inputs = listed_inputs(&head);
                    self.head = head;
                    self.stage = ReadyStage::Mutes;
                    ReadyNext::Ask(mute_questions(&self.inputs))
                },
                Err(e) => {
                    self.stage = ReadyStage::Over;
                    ReadyNext::Refused(api::err("Не удалось опросить OBS", e.as_str()))
                },
            };
        }
        let got: Vec<Json> = match reply {
            Ok(list) => list,
            Err(_) => Vec::new(),
        };
        assert(json::items_view(got@) =~= replies(batch_view(reply)));
        match self.stage {
            ReadyStage::Head => ReadyNext::Gathered,
            ReadyStage::Mutes => {
                self.mutes = got;
                self.stage = ReadyStage::Activity;
                ReadyNext::Ask(activity_questions(&self.inputs))
            },
            ReadyStage::Activity => {
                self.activity = got;
                match current_scene(&self.head) {
                    Some(scene) => {
                        self.stage = ReadyStage::Scene;
                        let mut ask: Vec<BatchItem> = Vec::new();
                        ask.push(
                            BatchItem::new(
                                "GetSceneItemList",
                                obs::with_text("sceneName", scene.as_str()),
                            ),
                        );
                        assert(obs::asked_all(ask@) =~= seq![
                            ("GetSceneItemList"@, obs::one_text("sceneName"@, scene@)),
                        ]);
                        ReadyNext::Ask(ask)
                    },
                    None => {
                        self.stage = ReadyStage::Over;
                        ReadyNext::Gathered
                    },
                }
            },
            ReadyStage::Scene => {
                let items = copy_items_at(&got, 0);
                let mut own: Vec<Json> = Vec::new();
                append_copies(&mut own, &items);
                assert(json::items_view(own@) =~= json::items_view(items@));
                self.items = own;
                self.look(&items)
            },
            ReadyStage::Nested => {
                let fresh = take_lists(&mut self.lists, &self.asked, &got);
                assert(nested_views(self.asked@).len() == self.asked@.len());
                self.look(&fresh)
            },
            ReadyStage::Sources => {
                let names = names_seen(&self.seen);
                assert(text::views(names@).len() == names@.len());
                self.active = table_of_activity(&names, &got);
                self.stage = ReadyStage::Over;
                ReadyNext::Gathered
            },
            ReadyStage::Over => ReadyNext::Gathered,
        }
    }

    /// The sources of the scene on air, with what is nested in it.
    pub fn sources(&self) -> (r: Vec<SceneSource>)
        requires
            self.wf(),
        ensures
            depicts(
                self@.items,
                self@.items.len() as int,
                self@.lists,
                self@.active,
                self@.lists.len(),
                r@,
            ),
    {
        assert(json::items_view(self.items@).len() == self.items@.len());
        assert(list_views(self.lists@).len() == self.lists@.len());
        scene_sources(&self.items, &self.lists, &self.active, self.lists.len())
    }

    /// The audio inputs.
    pub fn audio(&self, assigned: &SourceRoles, levels: &Table<Reading>) -> (r: Vec<AudioInput>)
        requires
            levels.wf(),
        ensures
            input_views(r@) == sounding(
                self@.inputs,
                self@.inputs.len() as int,
                (SoundV {
                    assigned: assigned@,
                    special: obs::data_at(self@.head, 2),
                    mutes: self@.mutes,
                    activity: self@.activity,
                    levels: levels@,
                }),
            ),
    {
        assert(listed_views(self.inputs@).len() == self.inputs@.len());
        audio_inputs(&self.inputs, assigned, &self.head, &self.mutes, &self.activity, levels)
    }
}

// ---------------------------------------------------------------------------------------------
// The snapshot
// ---------------------------------------------------------------------------------------------
/// The number in a field, or zero where there is none.
pub open spec fn measured(v: Option<json::JsonV>, key: Seq<char>) -> Reading {
    match v {
        Some(j) => match j.field(key) {
            Some(n) => match n.reading() {
                Some(q) => q,
                None => Reading { bits: 0 },
            },
            None => Reading { bits: 0 },
        },
        None => Reading { bits: 0 },
    }
}

/// The number in a field, or zero where there is none.
pub fn reading_at(v: Option<&Json>, key: &str) -> (r: Reading)
    ensures
        r == measured(json::opt_model(v), key@),
{
    if let Some(j) = v {
        if let Some(n) = j.get(key) {
            if let Some(q) = n.reading() {
                return q;
            }
        }
    }
    Reading::zero()
}

/// Whether a field is `true`.
pub open spec fn flag(v: Option<json::JsonV>, key: Seq<char>) -> bool {
    match v {
        Some(j) => j.bool_at(key) == Some(true),
        None => false,
    }
}

/// Whether a field is `true`.
pub fn flag_at(v: Option<&Json>, key: &str) -> (r: bool)
    ensures
        r == flag(json::opt_model(v), key@),
{
    match v {
        Some(j) => match j.get_bool(key) {
            Some(b) => b,
            None => false,
        },
        None => false,
    }
}

/// Whether the broadcasting service has a stream key.
pub open spec fn has_stream_key(v: Option<json::JsonV>) -> bool {
    match v {
        Some(j) => match j.field("streamServiceSettings"@) {
            Some(settings) => match settings.text_at("key"@) {
                Some(key) => text::trimmed(key).len() > 0,
                None => false,
            },
            None => false,
        },
        None => false,
    }
}

fn stream_key_set(v: Option<&Json>) -> (r: bool)
    ensures
        r == has_stream_key(json::opt_model(v)),
{
    match v {
        Some(j) => match j.get("streamServiceSettings") {
            Some(settings) => match settings.get_str("key") {
                Some(key) => !text::is_blank(key),
                None => false,
            },
            None => false,
        },
        None => false,
    }
}

/// The donation overlay as the check looks at it. The verdicts are taken as they are.
pub fn donation_overlay_state(verified: &DonationVerification) -> (r: OverlayState)
    ensures
        r.present_in_scenes == verified.in_overlay_scene,
        r.on_top == verified.on_top_everywhere,
        r.audible == verified.audible,
{
    OverlayState {
        present_in_scenes: verified.in_overlay_scene,
        on_top: verified.on_top_everywhere,
        audible: verified.audible,
    }
}

/// The snapshot, from the first replies and what was gathered besides.
pub fn snapshot(
    obs_version: Option<String>,
    head: &Vec<Json>,
    sources: Vec<SceneSource>,
    audio: Vec<AudioInput>,
    assigned: &SourceRoles,
    donation_overlay: Option<OverlayState>,
    twitch_connected: bool,
) -> (r: Snapshot)
    ensures
        r.obs_connected,
        r.obs_version == obs_version,
        text::opt_view(r.current_scene) == scene_on_air(json::items_view(head@)),
        r.sources@ == sources@,
        r.audio@ == audio@,
        r.free_disk_mb == measured(
            obs::data_at(json::items_view(head@), 3),
            "availableDiskSpace"@,
        ),
        r.streaming == flag(obs::data_at(json::items_view(head@), 4), "outputActive"@),
        r.recording == flag(obs::data_at(json::items_view(head@), 5), "outputActive"@),
        r.stream_service_configured == has_stream_key(
            obs::data_at(json::items_view(head@), 6),
        ),
        r.donation_overlay == donation_overlay,
        r.twitch_connected == twitch_connected,
        text::opt_view(r.camera) == roles::normal(assigned@.camera),
{
    let camera = match &assigned.camera {
        Some(c) => if text::is_blank(c.as_str()) {
            None
        } else {
            Some(text::trim(c.as_str()))
        },
        None => None,
    };
    Snapshot {
        obs_connected: true,
        obs_version,
        current_scene: current_scene(head),
        sources,
        audio,
        free_disk_mb: reading_at(obs::response_at(head, 3), "availableDiskSpace"),
        streaming: flag_at(obs::response_at(head, 4), "outputActive"),
        recording: flag_at(obs::response_at(head, 5), "outputActive"),
        stream_service_configured: stream_key_set(obs::response_at(head, 6)),
        donation_overlay,
        twitch_connected,
        camera,
    }
}

// ---------------------------------------------------------------------------------------------
// The answer
// ---------------------------------------------------------------------------------------------
/// How serious a finding is, in one word.
pub open spec fn severity_word(s: Severity) -> Seq<char> {
    match s {
        Severity::Good => "ok"@,
        Severity::Warning => "warning"@,
        Severity::Critical => "critical"@,
    }
}

fn severity_name(s: &Severity) -> (r: &'static str)
    ensures
        r@ == severity_word(*s),
{
    match s {
        Severity::Good => "ok",
        Severity::Warning => "warning",
        Severity::Critical => "critical",
    }
}

/// A finding as the panel gets it.
pub open spec fn check_value(c: preflight::CheckV) -> json::JsonV {
    let base = map![
        "title"@ => json::JsonV::Str(c.title),
        "severity"@ => json::JsonV::Str(severity_word(c.severity)),
        "detail"@ => json::JsonV::Str(c.detail),
    ];
    json::JsonV::Object(
        match c.fix {
            Some(fix) => base.insert("fix"@, json::JsonV::Str(fix)),
            None => base,
        },
    )
}

fn check_json(c: &Check) -> (r: Json)
    ensures
        r@ == check_value(c@),
{
    let fields = Fields::new().put("title", Json::text(c.title.as_str())).put(
        "severity",
        Json::text(severity_name(&c.severity)),
    ).put("detail", Json::text(c.detail.as_str()));
    match &c.fix {
        Some(fix) => fields.put("fix", Json::text(fix.as_str())).json(),
        None => fields.json(),
    }
}

/// The answer of the check: a summary, and the findings.
pub open spec fn answer_value(checks: Seq<preflight::CheckV>) -> json::JsonV {
    json::JsonV::Object(
        map![
            "summary"@ => json::JsonV::Str(
                preflight::summary_text(
                    preflight::count_of(checks, Severity::Critical),
                    preflight::count_of(checks, Severity::Warning),
                ),
            ),
            "checks"@ => json::JsonV::Array(
                checks.map_values(|c: preflight::CheckV| check_value(c)),
            ),
        ],
    )
}

/// Looks at a snapshot and answers whether the broadcast may start.
pub fn readiness_answer(snapshot: &Snapshot) -> (r: Json)
    ensures
        r@ == answer_value(preflight::findings(*snapshot)),
{
    let checks = preflight::evaluate(snapshot);
    let ghost all = preflight::check_views(checks@);
    let mut values: Vec<Json> = Vec::new();
    let mut i: usize = 0;
    while i < checks.len()
        invariant
            i <= checks@.len(),
            values@.len() == i,
            forall|k: int| 0 <= k < i ==> (#[trigger] values@[k])@ == check_value(checks@[k]@),
        decreases checks.len() - i,
    {
        values.push(check_json(&checks[i]));
        i = i + 1;
    }
    proof {
        json::lemma_array_model(values);
        assert(json::items_view(values@) =~= all.map_values(
            |c: preflight::CheckV| check_value(c),
        ));
    }
    let summary = preflight::summary(&checks);
    Fields::new().put("summary", Json::Str(summary)).put("checks", Json::Array(values)).json()
}

/// The answer without a connection to OBS: nothing is guessed.
pub fn readiness_without_obs() -> (r: Json)
    ensures
        r@ == answer_value(seq![preflight::no_connection()]),
{
    let snapshot = Snapshot::default();
    assert(preflight::findings(snapshot) =~= seq![preflight::no_connection()]);
    readiness_answer(&snapshot)
}

// ---------------------------------------------------------------------------------------------
// Laws
// ---------------------------------------------------------------------------------------------
/// The microphone that the owner assigned is the microphone of the check, whatever roles OBS gives;
/// and no other input is.
pub proof fn law_the_owners_microphone_is_checked(
    assigned: roles::RolesV,
    special: Option<json::JsonV>,
    name: Seq<char>,
)
    requires
        roles::normal(assigned.microphone) is Some,
    ensures
        role_for(assigned, special, name) == Some("mic"@) <==> roles::normal(assigned.microphone)
            == Some(name),
{
    reveal_strlit("mic");
    reveal_strlit("desktop");
    assert("mic"@.len() == 3);
    assert("desktop"@.len() == 7);
}

/// Every input that can be muted is looked at, as it is.
pub proof fn law_every_muteable_input_is_looked_at(
    inputs: Seq<ListedV>,
    upto: int,
    sound: SoundV,
    i: int,
)
    requires
        0 <= i < upto <= inputs.len(),
        muted_at(sound.mutes, i) is Some,
    ensures
        sounding(inputs, upto, sound).contains(
            heard_input(inputs, i, sound, muted_at(sound.mutes, i)->0),
        ),
    decreases upto,
{
    let list = sounding(inputs, upto, sound);
    let front = sounding(inputs, upto - 1, sound);
    let own = heard_input(inputs, i, sound, muted_at(sound.mutes, i)->0);
    if i == upto - 1 {
        assert(list[list.len() - 1] == own);
    } else {
        law_every_muteable_input_is_looked_at(inputs, upto - 1, sound, i);
        let k = choose|k: int| 0 <= k < front.len() && front[k] == own;
        assert(list[k] == front[k]);
    }
}

/// An input that cannot be muted has no sound and plays no part in the check.
pub proof fn law_only_muteable_inputs_are_looked_at(
    inputs: Seq<ListedV>,
    upto: int,
    sound: SoundV,
    k: int,
)
    requires
        0 <= upto <= inputs.len(),
        0 <= k < sounding(inputs, upto, sound).len(),
    ensures
        exists|i: int|
            0 <= i < upto && (#[trigger] muted_at(sound.mutes, i)) == Some(
                sounding(inputs, upto, sound)[k].muted,
            ) && sounding(inputs, upto, sound)[k].name == inputs[i].0,
    decreases upto,
{
    let list = sounding(inputs, upto, sound);
    if upto > 0 {
        let front = sounding(inputs, upto - 1, sound);
        if k < front.len() {
            law_only_muteable_inputs_are_looked_at(inputs, upto - 1, sound, k);
            let i = choose|i: int|
                0 <= i < upto - 1 && (#[trigger] muted_at(sound.mutes, i)) == Some(front[k].muted)
                    && front[k].name == inputs[i].0;
            assert(list[k] == front[k]);
            assert(muted_at(sound.mutes, i) == Some(list[k].muted));
        } else {
            assert(muted_at(sound.mutes, upto - 1) == Some(list[k].muted));
        }
    }
}

/// A capture of the sound of the system that is not muted is warned of, unless OBS says that it does
/// not take part in the program output: silence of OBS is no all-clear.
pub proof fn law_unknown_capture_is_warned_of(
    inputs: Seq<ListedV>,
    sound: SoundV,
    list: Seq<AudioInput>,
    i: int,
)
    requires
        input_views(list) == sounding(inputs, inputs.len() as int, sound),
        0 <= i < inputs.len(),
        inputs[i].1 matches Some(kind) && preflight::is_system_audio(kind),
        muted_at(sound.mutes, i) == Some(false),
        activity(obs::data_at(sound.activity, i)) != Verdict::Broken,
    ensures
        preflight::desktop_finding(list).severity == Severity::Warning,
{
    law_every_muteable_input_is_looked_at(inputs, inputs.len() as int, sound, i);
    let own = heard_input(inputs, i, sound, false);
    let views = input_views(list);
    let k = choose|k: int| 0 <= k < views.len() && views[k] == own;
    assert(input_view(list[k]) == own);
    preflight::law_screen_reader_is_never_passed_over(list, k);
}

/// Nothing but a plain "yes" of OBS makes a source active: silence does not.
pub proof fn law_silence_is_not_activity(reply: Option<json::JsonV>)
    ensures
        activity(reply) == Verdict::Good <==> flag(reply, "videoActive"@),
        activity(None) == Verdict::Unknown,
{
}

/// Nested scenes and groups are asked for at most once, however deep and often they are nested: what
/// is asked for is neither known nor asked for twice.
pub proof fn law_nothing_is_asked_twice(
    items: Seq<json::JsonV>,
    upto: int,
    known: Seq<Seq<char>>,
    i: int,
    j: int,
)
    requires
        0 <= upto <= items.len(),
        0 <= i < j < open_questions(items, upto, known).len(),
    ensures
        open_questions(items, upto, known)[i].0 != open_questions(items, upto, known)[j].0,
        !known.contains(open_questions(items, upto, known)[j].0),
        !known.contains(open_questions(items, upto, known)[i].0),
    decreases upto,
{
    if upto > 0 {
        let before = open_questions(items, upto - 1, known);
        let after = open_questions(items, upto, known);
        if after.len() == before.len() {
            assert(after == before);
            law_nothing_is_asked_twice(items, upto - 1, known, i, j);
        } else {
            assert(after.drop_last() =~= before);
            if j < before.len() {
                law_nothing_is_asked_twice(items, upto - 1, known, i, j);
            } else {
                assert(asked_names(before)[i] == before[i].0);
                lemma_open_is_unknown(items, upto - 1, known, i);
            }
        }
    }
}

proof fn lemma_open_is_unknown(items: Seq<json::JsonV>, upto: int, known: Seq<Seq<char>>, i: int)
    requires
        0 <= upto <= items.len(),
        0 <= i < open_questions(items, upto, known).len(),
    ensures
        !known.contains(open_questions(items, upto, known)[i].0),
    decreases upto,
{
    if upto > 0 {
        let before = open_questions(items, upto - 1, known);
        if i < before.len() {
            lemma_open_is_unknown(items, upto - 1, known, i);
        }
    }
}

/// Only a failure of the very first batch ends the check without an answer.
pub proof fn law_one_silence_does_not_end_the_check(st: ReadyV, reply: BatchV)
    ensures
        ready_step(st, reply).1 is Refused <==> st.stage == ReadyStage::Head && reply is Err,
{
}

/// Whether a scene item is shown and is, or holds, a nested scene or group whose content OBS did not
/// tell.
pub open spec fn unknown_at(item: json::JsonV, lists: Seq<ListV>, depth: nat) -> bool
    decreases depth, 0nat,
{
    &&& item.text_at("sourceName"@) is Some
    &&& item.bool_at("sceneItemEnabled"@) != Some(false)
    &&& is_nested(item)
    &&& if depth > 0 && content_of(lists, item.text_at("sourceName"@)->0) is Some {
        unknown_within(
            content_of(lists, item.text_at("sourceName"@)->0)->0,
            lists,
            (depth - 1) as nat,
        )
    } else {
        true
    }
}

/// Whether one of several scene items is such a one.
pub open spec fn unknown_within(items: Seq<json::JsonV>, lists: Seq<ListV>, depth: nat) -> bool
    decreases depth, 1nat,
{
    exists|i: int| 0 <= i < items.len() && unknown_at(#[trigger] items[i], lists, depth)
}

proof fn lemma_unknown_is_seen(
    items: Seq<json::JsonV>,
    upto: int,
    i: int,
    lists: Seq<ListV>,
    active: Map<Seq<char>, Verdict>,
    depth: nat,
    sources: Seq<SceneSource>,
) -> (j: int)
    requires
        depicts(items, upto, lists, active, depth, sources),
        0 <= i < upto <= items.len(),
        unknown_at(items[i], lists, depth),
    ensures
        0 <= j < preflight::visuals_of(sources, true).len(),
        preflight::visuals_of(sources, true)[j].enabled,
        preflight::visuals_of(sources, true)[j].active == Verdict::Unknown,
    decreases depth, upto,
{
    let item = items[upto - 1];
    match item.text_at("sourceName"@) {
        Some(name) => {
            let before = preflight::visuals_of(sources.drop_last(), true);
            if i < upto - 1 {
                lemma_unknown_is_seen(items, upto - 1, i, lists, active, depth, sources.drop_last())
            } else {
                let children = sources.last().children@;
                assert(sources.last().visuals(true) == preflight::visuals_of(children, true));
                if depth > 0 && content_of(lists, name) is Some {
                    let inner = content_of(lists, name)->0;
                    let k = choose|k: int|
                        0 <= k < inner.len() && unknown_at(
                            #[trigger] inner[k],
                            lists,
                            (depth - 1) as nat,
                        );
                    let j = lemma_unknown_is_seen(
                        inner,
                        inner.len() as int,
                        k,
                        lists,
                        active,
                        (depth - 1) as nat,
                        children,
                    );
                    before.len() + j
                } else {
                    assert(children.drop_last() =~= Seq::empty());
                    assert(preflight::visuals_of(children.drop_last(), true).len() == 0);
                    assert(children.last().is_picture());
                    assert(children.last().visuals(true).len() == 1);
                    before.len() as int
                }
            }
        },
        None => lemma_unknown_is_seen(items, upto - 1, i, lists, active, depth, sources),
    }
}

/// A scene that shows a nested scene or group whose content OBS did not tell is never reported as
/// being in order, however deep it is nested.
pub proof fn law_unknown_content_is_never_green(st: ReadyV, sources: Seq<SceneSource>)
    requires
        depicts(st.items, st.items.len() as int, st.lists, st.active, st.lists.len(), sources),
        unknown_within(st.items, st.lists, st.lists.len()),
    ensures
        preflight::scene_finding(sources).severity != preflight::Severity::Good,
{
    let i = choose|i: int|
        0 <= i < st.items.len() && unknown_at(#[trigger] st.items[i], st.lists, st.lists.len());
    let j = lemma_unknown_is_seen(
        st.items,
        st.items.len() as int,
        i,
        st.lists,
        st.active,
        st.lists.len(),
        sources,
    );
    if preflight::scene_finding(sources).severity == preflight::Severity::Good {
        preflight::law_scene_green_only_if_all_active(sources, j);
    }
}


/// The first batch asks for seven things, and each reply is read as the answer to its own question:
/// the scene on air, the inputs, the roles, the disk, the broadcast, the recording and the service.
pub proof fn law_the_first_batch_asks_for_seven_things(head: Seq<json::JsonV>, v: json::JsonV)
    ensures
        head_questions().len() == 7,
        head_questions()[0].0 == "GetCurrentProgramScene"@,
        head_questions()[1].0 == "GetInputList"@,
        head_questions()[2].0 == "GetSpecialInputs"@,
        head_questions()[3].0 == "GetStats"@,
        head_questions()[4].0 == "GetStreamStatus"@,
        head_questions()[5].0 == "GetRecordStatus"@,
        head_questions()[6].0 == "GetStreamServiceSettings"@,
        obs::data_at(head, 0) == Some(v) && v.text_at("currentProgramSceneName"@) is Some
            ==> scene_on_air(head) == v.text_at("currentProgramSceneName"@),
        obs::data_at(head, 1) == Some(v) ==> inputs_told(head) == v.items_at("inputs"@),
        obs::data_at(head, 0) is None ==> scene_on_air(head) is None,
        obs::data_at(head, 1) is None ==> inputs_told(head).len() == 0,
{
}

/// The name of a scene is read under its newer field, and under the older one where there is none.
pub proof fn law_both_names_of_a_scene_are_read(v: json::JsonV, key: Seq<char>, name: Seq<char>)
    ensures
        v.text_at(key) == Some(name) ==> scene_name_in(v, key) == Some(name),
        v.field(key) is None ==> scene_name_in(v, key) == v.text_at("sceneName"@),
{
}

/// Every input that has a name is listed, in order, with its kind.
pub proof fn law_every_named_input_is_listed(inputs: Seq<json::JsonV>, input: json::JsonV)
    ensures
        input.text_at("inputName"@) matches Some(name) ==> listed(inputs.push(input)) == listed(
            inputs,
        ).push((name, input.text_at("inputKind"@))),
        input.text_at("inputName"@) is None ==> listed(inputs.push(input)) == listed(inputs),
        listed(Seq::empty()).len() == 0,
{
    assert(inputs.push(input).drop_last() =~= inputs);
    assert(listed(inputs) + Seq::<ListedV>::empty() =~= listed(inputs));
    if input.text_at("inputName"@) is Some {
        let one = (input.text_at("inputName"@)->0, input.text_at("inputKind"@));
        assert(listed(inputs) + seq![one] =~= listed(inputs).push(one));
    }
}

/// The same question is asked about every input, by its name, in the order of the inputs.
pub proof fn law_each_input_is_asked(
    request_type: Seq<char>,
    key: Seq<char>,
    inputs: Seq<ListedV>,
    i: int,
)
    ensures
        input_questions(request_type, key, inputs).len() == inputs.len(),
        0 <= i < inputs.len() ==> input_questions(request_type, key, inputs)[i].0 == request_type
            && input_questions(request_type, key, inputs)[i].1.text_at(key) == Some(inputs[i].0),
{
}

/// A source is active if OBS says that it is on air, inactive if OBS says that it is not, and
/// otherwise it is not known.
pub proof fn law_activity_is_what_obs_says(v: json::JsonV)
    ensures
        v.bool_at("videoActive"@) == Some(true) <==> activity(Some(v)) == Verdict::Good,
        v.bool_at("videoActive"@) == Some(false) <==> activity(Some(v)) == Verdict::Broken,
        activity(None) == Verdict::Unknown,
{
}

/// Without an assignment of the owner an input has the role that OBS gave it. With one, no other
/// input is a microphone, and the sound of the system stays what it is.
pub proof fn law_roles_of_obs_count_where_the_owner_is_silent(
    assigned: roles::RolesV,
    special: json::JsonV,
    name: Seq<char>,
    mic: Seq<char>,
)
    ensures
        roles::normal(assigned.microphone) is None ==> {
            &&& audio::role_of(special, name) == Some(audio::InputRole::Mic) <==> role_for(
                assigned,
                Some(special),
                name,
            ) == Some("mic"@)
            &&& audio::role_of(special, name) == Some(audio::InputRole::Desktop) <==> role_for(
                assigned,
                Some(special),
                name,
            ) == Some("desktop"@)
            &&& role_for(assigned, None, name) is None
        },
        roles::normal(assigned.microphone) == Some(mic) && mic != name ==> {
            &&& audio::role_of(special, name) == Some(audio::InputRole::Desktop) <==> role_for(
                assigned,
                Some(special),
                name,
            ) == Some("desktop"@)
            &&& audio::role_of(special, name) != Some(audio::InputRole::Desktop) ==> role_for(
                assigned,
                Some(special),
                name,
            ) is None
        },
{
    reveal_strlit("mic");
    reveal_strlit("desktop");
    assert("mic"@.len() == 3);
    assert("desktop"@.len() == 7);
}

/// What is said of an input is what was told of this very input: its name and kind, whether it is
/// muted, its own level, and that it is on air unless OBS says that it is not.
pub proof fn law_an_input_is_described_by_its_own_replies(
    inputs: Seq<ListedV>,
    i: int,
    sound: SoundV,
    muted: bool,
    v: json::JsonV,
    level: Reading,
)
    ensures
        ({
            let a = heard_input(inputs, i, sound, muted);
            &&& a.name == inputs[i].0
            &&& a.kind == inputs[i].1
            &&& a.muted == muted
            &&& obs::data_at(sound.activity, i) == Some(v) ==> (a.in_program_output <==> v.bool_at(
                "videoActive"@,
            ) != Some(false))
            &&& obs::data_at(sound.activity, i) is None ==> a.in_program_output
            &&& sound.levels.contains_pair(inputs[i].0, level) ==> a.level_db == Some(level)
            &&& !sound.levels.contains_key(inputs[i].0) ==> a.level_db is None
        }),
        obs::data_at(sound.mutes, i) == Some(v) ==> muted_at(sound.mutes, i) == v.bool_at(
            "inputMuted"@,
        ),
        obs::data_at(sound.mutes, i) is None ==> muted_at(sound.mutes, i) is None,
{
}

/// A group and a nested scene are recognised, and asked for their content by name, each with its own
/// request; nothing else is.
pub proof fn law_nested_content_is_asked_for(item: json::JsonV, name: Seq<char>)
    requires
        item.text_at("sourceName"@) == Some(name),
    ensures
        item.bool_at("isGroup"@) == Some(true) ==> is_nested(item) && (content_question(
            item,
        ) matches Some(q) && q.0 == "GetGroupSceneItemList"@ && q.1.text_at("sceneName"@) == Some(
            name,
        )),
        item.bool_at("isGroup"@) != Some(true) && item.text_at("sourceType"@) == Some(
            "OBS_SOURCE_TYPE_SCENE"@,
        ) ==> is_nested(item) && (content_question(item) matches Some(q) && q.0
            == "GetSceneItemList"@ && q.1.text_at("sceneName"@) == Some(name)),
        item.bool_at("isGroup"@) != Some(true) && item.text_at("sourceType"@) != Some(
            "OBS_SOURCE_TYPE_SCENE"@,
        ) ==> !is_nested(item) && content_question(item) is None,
{
}

/// The content of a nested scene or group is the first that was told of it, wherever that stands, and
/// it is not known where none was told.
pub proof fn law_the_first_content_told_counts(lists: Seq<ListV>, name: Seq<char>, i: int)
    ensures
        0 <= i < lists.len() && lists[i].0 == name && lists[i].1 is Some && (forall|j: int|
            0 <= j < i ==> (#[trigger] lists[j]).0 != name || lists[j].1 is None) ==> content_of(
            lists,
            name,
        ) == lists[i].1,
        (forall|j: int|
            0 <= j < lists.len() ==> (#[trigger] lists[j]).0 != name || lists[j].1 is None)
            ==> content_of(lists, name) is None,
    decreases lists.len(),
{
    if lists.len() > 0 {
        let front = lists.drop_last();
        law_the_first_content_told_counts(front, name, i);
        law_the_first_content_told_counts(front, name, -1);
        assert(forall|j: int| 0 <= j < front.len() ==> #[trigger] front[j] == lists[j]);
        assert(lists.last() == lists[lists.len() - 1]);
        if forall|j: int|
            0 <= j < lists.len() ==> (#[trigger] lists[j]).0 != name || lists[j].1 is None {
            assert forall|j: int| 0 <= j < front.len() implies (#[trigger] front[j]).0 != name
                || front[j].1 is None by {
                assert(lists[j].0 != name || lists[j].1 is None);
            }
        }
        if 0 <= i < lists.len() && lists[i].0 == name && lists[i].1 is Some && (forall|j: int|
            0 <= j < i ==> (#[trigger] lists[j]).0 != name || lists[j].1 is None) {
            assert forall|j: int| 0 <= j < i implies (#[trigger] front[j]).0 != name
                || front[j].1 is None by {
                assert(lists[j].0 != name || lists[j].1 is None);
            }
            if i < front.len() {
                assert(front[i] == lists[i]);
            }
        }
    }
}

/// Every scene item that has a name is depicted: under its name, shown unless OBS says it is hidden,
/// with its kind, and as active as OBS says it is.
pub proof fn law_every_item_is_depicted(
    items: Seq<json::JsonV>,
    upto: int,
    lists: Seq<ListV>,
    active: Map<Seq<char>, Verdict>,
    depth: nat,
    sources: Seq<SceneSource>,
    i: int,
    name: Seq<char>,
) -> (k: int)
    requires
        depicts(items, upto, lists, active, depth, sources),
        0 <= i < upto <= items.len(),
        items[i].text_at("sourceName"@) == Some(name),
    ensures
        0 <= k < sources.len(),
        k <= i,
        sources[k].name@ == name,
        sources[k].enabled <==> items[i].bool_at("sceneItemEnabled"@) != Some(false),
        text::opt_view(sources[k].kind) == items[i].text_at("inputKind"@),
        sources[k].is_scene_or_group <==> items[i].bool_at("isGroup"@) == Some(true)
            || items[i].text_at("sourceType"@) == Some("OBS_SOURCE_TYPE_SCENE"@),
        active.contains_key(name) ==> sources[k].active == active[name],
        !active.contains_key(name) ==> sources[k].active == Verdict::Unknown,
        !is_nested(items[i]) ==> sources[k].children@.len() == 0,
        is_nested(items[i]) && depth > 0 ==> (content_of(lists, name) matches Some(content)
            ==> depicts(
            content,
            content.len() as int,
            lists,
            active,
            (depth - 1) as nat,
            sources[k].children@,
        )),
    decreases upto,
{
    let item = items[upto - 1];
    lemma_depicted_are_few(items, upto, lists, active, depth, sources);
    if i == upto - 1 {
        sources.len() - 1
    } else if item.text_at("sourceName"@) is Some {
        let k = law_every_item_is_depicted(
            items,
            upto - 1,
            lists,
            active,
            depth,
            sources.drop_last(),
            i,
            name,
        );
        assert(sources.drop_last()[k] == sources[k]);
        k
    } else {
        law_every_item_is_depicted(items, upto - 1, lists, active, depth, sources, i, name)
    }
}

/// Nothing is depicted that is no item of the scene: there are at most as many sources as items.
pub proof fn lemma_depicted_are_few(
    items: Seq<json::JsonV>,
    upto: int,
    lists: Seq<ListV>,
    active: Map<Seq<char>, Verdict>,
    depth: nat,
    sources: Seq<SceneSource>,
)
    requires
        depicts(items, upto, lists, active, depth, sources),
        0 <= upto <= items.len(),
    ensures
        sources.len() <= upto,
    decreases upto,
{
    if upto > 0 {
        if items[upto - 1].text_at("sourceName"@) is Some {
            lemma_depicted_are_few(items, upto - 1, lists, active, depth, sources.drop_last());
        } else {
            lemma_depicted_are_few(items, upto - 1, lists, active, depth, sources);
        }
    }
}

/// Every nested scene or group whose content is not known is asked for, and every question asks for
/// the content of what it is about.
pub proof fn law_all_unknown_content_is_asked_for(
    items: Seq<json::JsonV>,
    upto: int,
    known: Seq<Seq<char>>,
    i: int,
    name: Seq<char>,
)
    requires
        0 <= i < upto <= items.len(),
        items[i].text_at("sourceName"@) == Some(name),
        is_nested(items[i]),
        !known.contains(name),
    ensures
        exists|k: int|
            0 <= k < open_questions(items, upto, known).len() && (#[trigger] open_questions(
                items,
                upto,
                known,
            )[k]).0 == name && open_questions(items, upto, known)[k].1.1.text_at("sceneName"@)
                == Some(name),
    decreases upto,
{
    let before = open_questions(items, upto - 1, known);
    let after = open_questions(items, upto, known);
    if i < upto - 1 {
        law_all_unknown_content_is_asked_for(items, upto - 1, known, i, name);
        let k = choose|k: int|
            0 <= k < before.len() && (#[trigger] before[k]).0 == name && before[k].1.1.text_at(
                "sceneName"@,
            ) == Some(name);
        assert(after[k] == before[k]);
    } else if asked_names(before).contains(name) {
        let k = choose|k: int| 0 <= k < asked_names(before).len() && asked_names(before)[k] == name;
        lemma_questions_ask_their_own(items, upto - 1, known, k);
        assert(after[k].0 == name);
    } else {
        assert(after[before.len() as int].0 == name);
    }
}

proof fn lemma_questions_ask_their_own(
    items: Seq<json::JsonV>,
    upto: int,
    known: Seq<Seq<char>>,
    k: int,
)
    requires
        0 <= upto <= items.len(),
        0 <= k < open_questions(items, upto, known).len(),
    ensures
        open_questions(items, upto, known)[k].1.1.text_at("sceneName"@) == Some(
            open_questions(items, upto, known)[k].0,
        ),
    decreases upto,
{
    if upto > 0 && k < open_questions(items, upto - 1, known).len() {
        lemma_questions_ask_their_own(items, upto - 1, known, k);
    }
}

/// The check goes on step by step, and each reply is kept as what it was asked for: the first
/// replies, who is muted, who is active, the items of the scene on air.
pub proof fn law_each_reply_is_kept_for_what_it_is(
    st: ReadyV,
    got: Seq<json::JsonV>,
    scene: Seq<char>,
    v: json::JsonV,
)
    ensures
        ({
            let after = ready_step(ReadyV { stage: ReadyStage::Head, ..st }, Ok(got));
            &&& after.0.stage == ReadyStage::Mutes && after.0.head == got
            &&& after.0.inputs == listed(inputs_told(got))
            &&& after.1 == ReadyNextV::Ask(
                input_questions("GetInputMute"@, "inputName"@, after.0.inputs),
            )
        }),
        ({
            let after = ready_step(ReadyV { stage: ReadyStage::Mutes, ..st }, Ok(got));
            &&& after.0.stage == ReadyStage::Activity && after.0.mutes == got
            &&& after.0.head == st.head && after.0.inputs == st.inputs
            &&& after.1 == ReadyNextV::Ask(
                input_questions("GetSourceActive"@, "sourceName"@, st.inputs),
            )
        }),
        ({
            let after = ready_step(ReadyV { stage: ReadyStage::Activity, ..st }, Ok(got));
            &&& after.0.activity == got && after.0.mutes == st.mutes && after.0.inputs == st.inputs
            &&& scene_on_air(st.head) == Some(scene) ==> after.0.stage == ReadyStage::Scene && (
            after.1 matches ReadyNextV::Ask(q) && q.len() == 1 && q[0].0 == "GetSceneItemList"@
                && q[0].1.text_at("sceneName"@) == Some(scene))
            &&& scene_on_air(st.head) is None ==> after.0.stage == ReadyStage::Over && after.1
                == ReadyNextV::Gathered
        }),
        obs::data_at(got, 0) == Some(v) ==> ready_step(
            ReadyV { stage: ReadyStage::Scene, ..st },
            Ok(got),
        ).0.items == v.items_at("sceneItems"@),
        ({
            let after = ready_step(ReadyV { stage: ReadyStage::Sources, ..st }, Ok(got));
            &&& after.0.stage == ReadyStage::Over && after.1 == ReadyNextV::Gathered
            &&& after.0.items == st.items && after.0.lists == st.lists
        }),
{
}

/// What OBS said when it could not be asked at all reaches the panel.
pub proof fn law_the_panel_learns_why_obs_was_not_asked(st: ReadyV, e: Seq<char>)
    requires
        st.stage == ReadyStage::Head,
    ensures
        ready_step(st, Err(e)).1 matches ReadyNextV::Refused(r) && r.status == 500 && r.error.message
            == "Не удалось опросить OBS"@ && r.error.detail == Some(e),
{
}

/// After new items what is nested in them is asked for; only if nothing is left to ask, all sources
/// that were seen are asked whether they are active.
pub proof fn law_all_that_was_seen_is_asked_about(st: ReadyV, fresh: Seq<json::JsonV>, i: int)
    ensures
        ({
            let after = looking(st, fresh);
            let open = open_questions(fresh, fresh.len() as int, list_names(st.lists));
            let names = json::texts_of(st.seen + fresh, "sourceName"@);
            &&& after.0.seen == st.seen + fresh
            &&& after.0.lists == st.lists && after.0.items == st.items
            &&& after.0.asked == open
            &&& open.len() > 0 ==> after.0.stage == ReadyStage::Nested && (
            after.1 matches ReadyNextV::Ask(q) && q.len() == open.len() && (0 <= i < open.len()
                ==> q[i] == open[i].1))
            &&& open.len() == 0 ==> after.0.stage == ReadyStage::Sources && (
            after.1 matches ReadyNextV::Ask(q) && q.len() == names.len() && (0 <= i < names.len()
                ==> q[i].0 == "GetSourceActive"@ && q[i].1.text_at("sourceName"@) == Some(names[i])))
        }),
{
}

/// The content of each nested scene or group is taken from the reply to the question about it, and
/// what OBS did not tell stays unknown.
pub proof fn law_content_goes_to_its_own_scene(
    lists: Seq<ListV>,
    asked: Seq<NestedV>,
    results: Seq<json::JsonV>,
    k: int,
    v: json::JsonV,
)
    requires
        0 <= k < asked.len(),
    ensures
        lists_with(lists, asked, results).len() == lists.len() + asked.len(),
        lists_with(lists, asked, results).take(lists.len() as int) == lists,
        lists_with(lists, asked, results)[lists.len() + k].0 == asked[k].0,
        obs::data_at(results, k) == Some(v) ==> lists_with(lists, asked, results)[lists.len() + k].1
            == v.array_at("sceneItems"@),
        obs::data_at(results, k) is None ==> lists_with(lists, asked, results)[lists.len() + k].1
            is None,
{
    assert(lists_with(lists, asked, results).take(lists.len() as int) =~= lists);
}

/// All items of all replies come together, in order.
pub proof fn law_no_reply_is_left_out(results: Seq<json::JsonV>, n: int, v: json::JsonV)
    requires
        n >= 0,
    ensures
        obs::data_at(results, n) == Some(v) ==> items_together(results, n + 1) == items_together(
            results,
            n,
        ) + v.items_at("sceneItems"@),
        obs::data_at(results, n) is None ==> items_together(results, n + 1) == items_together(
            results,
            n,
        ),
        items_together(results, 0).len() == 0,
{
    assert(items_together(results, n) + Seq::<json::JsonV>::empty() =~= items_together(results, n));
}

/// Each source has the activity of its own reply: of the last one, where it was asked about several
/// times. Nothing is known of a source that was not asked about.
pub proof fn law_activity_goes_to_its_own_source(
    names: Seq<Seq<char>>,
    results: Seq<json::JsonV>,
    upto: int,
    i: int,
    name: Seq<char>,
)
    requires
        0 <= upto <= names.len(),
    ensures
        0 <= i < upto && names[i] == name && (forall|j: int|
            i < j < upto ==> #[trigger] names[j] != name) ==> active_of(
            active_table(names, results, upto),
            name,
        ) == activity(obs::data_at(results, i)),
        (forall|j: int| 0 <= j < upto ==> #[trigger] names[j] != name) ==> active_of(
            active_table(names, results, upto),
            name,
        ) == Verdict::Unknown,
    decreases upto,
{
    if upto > 0 {
        law_activity_goes_to_its_own_source(names, results, upto - 1, i, name);
        assert(names[upto - 1] == names[upto - 1]);
    }
}

/// A figure is the number in its field, and zero where there is none; a state is on only where OBS
/// says so.
pub proof fn law_figures_and_states_are_read(
    v: json::JsonV,
    key: Seq<char>,
    digits: Seq<char>,
    bits: u64,
)
    ensures
        v.field(key) == Some(json::JsonV::Real(digits, bits)) ==> measured(Some(v), key).bits == bits,
        v.field(key) is None ==> measured(Some(v), key).bits == 0,
        measured(None, key).bits == 0,
        flag(Some(v), key) <==> v.bool_at(key) == Some(true),
        !flag(None, key),
{
}

/// The service counts as set up only if it has a key that is not blank.
pub proof fn law_the_service_needs_a_key(v: json::JsonV, settings: json::JsonV, key: Seq<char>)
    requires
        v.field("streamServiceSettings"@) == Some(settings),
    ensures
        settings.text_at("key"@) == Some(key) ==> (has_stream_key(Some(v)) <==> text::trimmed(
            key,
        ).len() > 0),
        settings.text_at("key"@) is None ==> !has_stream_key(Some(v)),
        !has_stream_key(None),
{
}

/// The panel gets every finding, in order, as it is: its title, how serious it is, what was found and
/// what to do, and a summary that counts the serious ones.
pub proof fn law_the_panel_gets_every_finding(checks: Seq<preflight::CheckV>, i: int)
    requires
        0 <= i < checks.len(),
    ensures
        ({
            let v = answer_value(checks).items_at("checks"@);
            &&& v.len() == checks.len()
            &&& v[i].text_at("title"@) == Some(checks[i].title)
            &&& v[i].text_at("detail"@) == Some(checks[i].detail)
            &&& v[i].text_at("fix"@) == checks[i].fix
            &&& checks[i].severity == Severity::Good <==> v[i].text_at("severity"@) == Some("ok"@)
            &&& checks[i].severity == Severity::Warning <==> v[i].text_at("severity"@) == Some(
                "warning"@,
            )
            &&& checks[i].severity == Severity::Critical <==> v[i].text_at("severity"@) == Some(
                "critical"@,
            )
        }),
        answer_value(checks).text_at("summary"@) == Some(
            preflight::summary_text(
                preflight::count_of(checks, Severity::Critical),
                preflight::count_of(checks, Severity::Warning),
            ),
        ),
{
    reveal_strlit("summary");
    reveal_strlit("checks");
    reveal_strlit("title");
    reveal_strlit("detail");
    reveal_strlit("fix");
    reveal_strlit("severity");
    assert("summary"@.len() == 7);
    assert("checks"@.len() == 6);
    assert("title"@.len() == 5);
    assert("detail"@.len() == 6);
    assert("fix"@.len() == 3);
    assert("severity"@.len() == 8);
    assert("checks"@[0] != "detail"@[0]);
    reveal_strlit("ok");
    reveal_strlit("warning");
    reveal_strlit("critical");
    assert("ok"@.len() == 2);
    assert("warning"@.len() == 7);
    assert("critical"@.len() == 8);
}

} // verus!
