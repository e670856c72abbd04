//! The mixer: which inputs sound, how loud, and where else they are used.
use vstd::prelude::*;
use crate::api;
use crate::api::Refusal;
use crate::donations;
use crate::donations::ObsReply;
use crate::json;
use crate::json::{Fields, Json};
use crate::obs;
use crate::obs::BatchItem;
use crate::table::Table;
use crate::text;

verus! {

// ---------------------------------------------------------------------------------------------
// Roles that OBS itself gives
// ---------------------------------------------------------------------------------------------
/// What an input is for.
#[derive(Debug, Clone, Copy, PartialEq, Eq, Structural)]
pub enum InputRole {
    /// The sound of the system.
    Desktop,
    /// A microphone.
    Mic,
}

impl InputRole {
    /// The name of the role.
    pub open spec fn word(self) -> Seq<char> {
        match self {
            InputRole::Desktop => "desktop"@,
            InputRole::Mic => "mic"@,
        }
    }

    /// The name of the role.
    pub fn name(&self) -> (r: &'static str)
        ensures
            r@ == self.word(),
    {
        match self {
            InputRole::Desktop => "desktop",
            InputRole::Mic => "mic",
        }
    }
}

/// Whether a slot holds an input of that name. An empty slot holds nothing.
pub open spec fn slot_holds(special: json::JsonV, slot: Seq<char>, name: Seq<char>) -> bool {
    special.text_at(slot) == Some(name) && name.len() > 0
}

/// Whether OBS uses an input as a microphone.
pub open spec fn is_mic(special: json::JsonV, name: Seq<char>) -> bool {
    ||| slot_holds(special, "mic1"@, name)
    ||| slot_holds(special, "mic2"@, name)
    ||| slot_holds(special, "mic3"@, name)
    ||| slot_holds(special, "mic4"@, name)
}

/// Whether OBS uses an input for the sound of the system.
pub open spec fn is_desktop(special: json::JsonV, name: Seq<char>) -> bool {
    ||| slot_holds(special, "desktop1"@, name)
    ||| slot_holds(special, "desktop2"@, name)
}

/// The role that OBS gives to an input, by the slots. The name of the input plays no part.
pub open spec fn role_of(special: json::JsonV, name: Seq<char>) -> Option<InputRole> {
    if is_mic(special, name) {
        Some(InputRole::Mic)
    } else if is_desktop(special, name) {
        Some(InputRole::Desktop)
    } else {
        None
    }
}

/// Whether a table says of each name what its role is.
pub open spec fn labels(roles: Map<Seq<char>, InputRole>, special: json::JsonV) -> bool {
    forall|name: Seq<char>|
        #![trigger roles.contains_key(name)]
        #![trigger role_of(special, name)]
        match role_of(special, name) {
            Some(role) => roles.contains_key(name) && roles[name] == role,
            None => !roles.contains_key(name),
        }
}

/// The table after a slot was looked at.
spec fn with_slot(
    roles: Map<Seq<char>, InputRole>,
    special: json::JsonV,
    slot: Seq<char>,
    role: InputRole,
) -> Map<Seq<char>, InputRole> {
    match special.text_at(slot) {
        Some(name) => if name.len() > 0 {
            roles.insert(name, role)
        } else {
            roles
        },
        None => roles,
    }
}

fn label_slot(roles: &mut Table<InputRole>, special: &Json, slot: &str, role: InputRole)
    requires
        old(roles).wf(),
    ensures
        final(roles).wf(),
        final(roles)@ == with_slot(old(roles)@, special@, slot@, role),
{
    if let Some(name) = special.get_str(slot) {
        if !text::same(name, "") {
            proof {
                reveal_strlit("");
                assert(name@.len() > 0) by {
                    if name@.len() == 0 {
                        assert(name@ =~= ""@);
                    }
                }
            }
            roles.put(name, role);
        } else {
            proof {
                reveal_strlit("");
            }
        }
    }
}

/// The roles that OBS itself gives to inputs. A name is no guide: it can be changed at will.
pub fn special_input_roles(special: &Json) -> (r: Table<InputRole>)
    ensures
        r.wf(),
        labels(r@, special@),
{
    let mut roles: Table<InputRole> = Table::new();
    label_slot(&mut roles, special, "desktop1", InputRole::Desktop);
    label_slot(&mut roles, special, "desktop2", InputRole::Desktop);
    label_slot(&mut roles, special, "mic1", InputRole::Mic);
    label_slot(&mut roles, special, "mic2", InputRole::Mic);
    label_slot(&mut roles, special, "mic3", InputRole::Mic);
    label_slot(&mut roles, special, "mic4", InputRole::Mic);
    roles
}

/// The roles, if OBS told them.
pub open spec fn known_role(special: Option<json::JsonV>, name: Seq<char>) -> Option<InputRole> {
    match special {
        Some(v) => role_of(v, name),
        None => None,
    }
}

/// The role of one input, if OBS told the roles.
pub fn role_among(special: Option<&Json>, name: &str) -> (r: Option<InputRole>)
    ensures
        r == known_role(json::opt_model(special), name@),
{
    match special {
        Some(v) => {
            let roles = special_input_roles(v);
            proof {
                let _ = role_of(v@, name@);
            }
            roles.get(name)
        },
        None => None,
    }
}

// ---------------------------------------------------------------------------------------------
// Sources that may sound
// ---------------------------------------------------------------------------------------------
/// A source that may sound.
#[derive(Debug)]
pub struct AudioSource {
    pub name: String,
    pub kind: Json,
    /// The number of the item in the scene; null without a scene.
    pub item_id: Json,
    /// Whether the item is shown; null without a scene.
    pub item_enabled: Json,
}

/// What a source that may sound is.
#[verifier::ext_equal]
pub struct SourceV {
    pub name: Seq<char>,
    pub kind: json::JsonV,
    pub item_id: json::JsonV,
    pub item_enabled: json::JsonV,
}

impl View for AudioSource {
    type V = SourceV;

    open spec fn view(&self) -> SourceV {
        SourceV {
            name: self.name@,
            kind: self.kind@,
            item_id: self.item_id@,
            item_enabled: self.item_enabled@,
        }
    }
}

/// What a list of sources is.
pub open spec fn source_views(list: Seq<AudioSource>) -> Seq<SourceV> {
    list.map_values(|s: AudioSource| s@)
}

/// A field, or null.
pub open spec fn field_or_null(v: json::JsonV, key: Seq<char>) -> json::JsonV {
    match v.field(key) {
        Some(value) => value,
        None => json::JsonV::Null,
    }
}

/// A field, or null.
pub fn copy_field(v: &Json, key: &str) -> (r: Json)
    ensures
        r@ == field_or_null(v@, key@),
{
    match v.get(key) {
        Some(value) => value.copy(),
        None => Json::Null,
    }
}

/// The source of a scene item, if it has a name.
pub open spec fn item_source(item: json::JsonV) -> Option<SourceV> {
    match item.text_at("sourceName"@) {
        Some(name) => Some(
            SourceV {
                name,
                kind: field_or_null(item, "inputKind"@),
                item_id: field_or_null(item, "sceneItemId"@),
                item_enabled: field_or_null(item, "sceneItemEnabled"@),
            },
        ),
        None => None,
    }
}

/// The sources of scene items.
pub open spec fn item_sources(items: Seq<json::JsonV>) -> Seq<SourceV>
    decreases items.len(),
{
    if items.len() == 0 {
        Seq::empty()
    } else {
        item_sources(items.drop_last()) + (match item_source(items.last()) {
            Some(s) => seq![s],
            None => Seq::empty(),
        })
    }
}

fn source_of(item: &Json) -> (r: Option<AudioSource>)
    ensures
        (match r {
            Some(s) => Some(s@),
            None => None,
        }) == item_source(item@),
{
    match item.get_text("sourceName") {
        Some(name) => Some(
            AudioSource {
                name,
                kind: copy_field(item, "inputKind"),
                item_id: copy_field(item, "sceneItemId"),
                item_enabled: copy_field(item, "sceneItemEnabled"),
            },
        ),
        None => None,
    }
}

/// The sources of a scene, from the list of its items.
pub fn scene_audio_names(items: &Json) -> (r: Vec<AudioSource>)
    ensures
        source_views(r@) == item_sources(items@.items_at("sceneItems"@)),
{
    let mut out: Vec<AudioSource> = Vec::new();
    assert(source_views(out@) =~= Seq::empty());
    if let Some(list) = items.get_array("sceneItems") {
        let ghost all = json::items_view(list@);
        let mut i: usize = 0;
        while i < list.len()
            invariant
                i <= list@.len(),
                all == json::items_view(list@),
                source_views(out@) == item_sources(all.take(i as int)),
            decreases list.len() - i,
        {
            proof {
                assert(all.take(i + 1).drop_last() =~= all.take(i as int));
                assert(all.take(i + 1).last() == list@[i as int]@);
            }
            let ghost before = source_views(out@);
            if let Some(s) = source_of(&list[i]) {
                let ghost own = s@;
                out.push(s);
                assert(source_views(out@) =~= before + seq![own]);
            } else {
                assert(source_views(out@) =~= before + Seq::<SourceV>::empty());
            }
            i = i + 1;
        }
        assert(all.take(i as int) =~= all);
    }
    out
}

// ---------------------------------------------------------------------------------------------
// Inputs by name
// ---------------------------------------------------------------------------------------------
/// Whether an input of that name comes at a place or later.
pub open spec fn named_from(inputs: Seq<json::JsonV>, from: int, name: Seq<char>) -> bool {
    exists|j: int|
        from <= j < inputs.len() && (#[trigger] inputs[j]).text_at("inputName"@) == Some(name)
}

/// The last input of a name.
pub open spec fn last_named(inputs: Seq<json::JsonV>, name: Seq<char>) -> Option<json::JsonV>
    decreases inputs.len(),
{
    if inputs.len() == 0 {
        None
    } else if inputs.last().text_at("inputName"@) == Some(name) {
        Some(inputs.last())
    } else {
        last_named(inputs.drop_last(), name)
    }
}

/// The kind of an input, by its name; null if there is none.
pub open spec fn kind_by_name(inputs: Seq<json::JsonV>, name: Seq<char>) -> json::JsonV {
    match last_named(inputs, name) {
        Some(input) => field_or_null(input, "inputKind"@),
        None => json::JsonV::Null,
    }
}

/// The inputs up to a place, each name once, with the kind that comes last.
pub open spec fn inputs_once(inputs: Seq<json::JsonV>, upto: int) -> Seq<SourceV>
    decreases upto,
{
    if upto <= 0 {
        Seq::empty()
    } else {
        inputs_once(inputs, upto - 1) + (match inputs[upto - 1].text_at("inputName"@) {
            Some(name) => if named_from(inputs, upto, name) {
                Seq::empty()
            } else {
                seq![
                    SourceV {
                        name,
                        kind: field_or_null(inputs[upto - 1], "inputKind"@),
                        item_id: json::JsonV::Null,
                        item_enabled: json::JsonV::Null,
                    },
                ]
            },
            None => Seq::empty(),
        })
    }
}

fn comes_from(inputs: &Vec<Json>, from: usize, name: &str) -> (r: bool)
    requires
        from <= inputs@.len(),
    ensures
        r == named_from(json::items_view(inputs@), from as int, name@),
{
    let ghost all = json::items_view(inputs@);
    let mut j: usize = from;
    while j < inputs.len()
        invariant
            from <= j <= inputs@.len(),
            all == json::items_view(inputs@),
            forall|k: int|
                from <= k < j ==> (#[trigger] all[k]).text_at("inputName"@) != Some(name@),
        decreases inputs.len() - j,
    {
        assert(all[j as int] == inputs@[j as int]@);
        if let Some(s) = inputs[j].get_str("inputName") {
            if text::same(s, name) {
                return true;
            }
        }
        j = j + 1;
    }
    false
}

fn kind_named(inputs: &Vec<Json>, name: &str) -> (r: Json)
    ensures
        r@ == kind_by_name(json::items_view(inputs@), name@),
{
    let ghost all = json::items_view(inputs@);
    let mut n: usize = inputs.len();
    assert(all.take(n as int) =~= all);
    while n > 0
        invariant
            n <= inputs@.len(),
            all == json::items_view(inputs@),
            last_named(all, name@) == last_named(all.take(n as int), name@),
        decreases n,
    {
        proof {
            assert(all.take(n as int).drop_last() =~= all.take(n - 1));
            assert(all.take(n as int).last() == inputs@[n - 1]@);
        }
        let input = &inputs[n - 1];
        if let Some(s) = input.get_str("inputName") {
            if text::same(s, name) {
                return copy_field(input, "inputKind");
            }
        }
        n = n - 1;
    }
    Json::Null
}

/// All inputs, each name once.
fn all_inputs(inputs: &Vec<Json>) -> (r: Vec<AudioSource>)
    ensures
        source_views(r@) == inputs_once(json::items_view(inputs@), inputs@.len() as int),
{
    let ghost all = json::items_view(inputs@);
    let mut out: Vec<AudioSource> = Vec::new();
    assert(source_views(out@) =~= Seq::empty());
    let mut i: usize = 0;
    while i < inputs.len()
        invariant
            i <= inputs@.len(),
            all == json::items_view(inputs@),
            source_views(out@) == inputs_once(all, i as int),
        decreases inputs.len() - i,
    {
        assert(all[i as int] == inputs@[i as int]@);
        let ghost before = source_views(out@);
        let mut added = false;
        if let Some(name) = inputs[i].get_text("inputName") {
            if !comes_from(inputs, i + 1, name.as_str()) {
                let s = AudioSource {
                    name,
                    kind: copy_field(&inputs[i], "inputKind"),
                    item_id: Json::Null,
                    item_enabled: Json::Null,
                };
                let ghost own = s@;
                out.push(s);
                added = true;
                assert(source_views(out@) =~= before + seq![own]);
            }
        }
        if !added {
            assert(source_views(out@) =~= before + Seq::<SourceV>::empty());
        }
        i = i + 1;
    }
    out
}

/// A source, with its kind from the list of inputs where the scene does not tell it.
pub open spec fn with_kind(s: SourceV, inputs: Seq<json::JsonV>) -> SourceV {
    if s.kind == json::JsonV::Null {
        SourceV { kind: kind_by_name(inputs, s.name), ..s }
    } else {
        s
    }
}

/// The sources to show: those of the scene, or all inputs where none is chosen.
pub open spec fn sources_to_show(
    inputs: Seq<json::JsonV>,
    scene_items: Option<json::JsonV>,
) -> Seq<SourceV> {
    match scene_items {
        Some(items) => item_sources(items.items_at("sceneItems"@)).map_values(
            |s: SourceV| with_kind(s, inputs),
        ),
        None => inputs_once(inputs, inputs.len() as int),
    }
}

fn is_null(v: &Json) -> (r: bool)
    ensures
        r == (v@ == json::JsonV::Null),
{
    match v {
        Json::Null => true,
        _ => false,
    }
}

fn fill_kinds(list: Vec<AudioSource>, inputs: &Vec<Json>) -> (r: Vec<AudioSource>)
    ensures
        source_views(r@) == source_views(list@).map_values(
            |s: SourceV| with_kind(s, json::items_view(inputs@)),
        ),
{
    let ghost known = json::items_view(inputs@);
    let ghost start = list@;
    let mut list = list;
    let mut i: usize = 0;
    while i < list.len()
        invariant
            i <= list@.len(),
            known == json::items_view(inputs@),
            list@.len() == start.len(),
            forall|k: int| 0 <= k < i ==> (#[trigger] list@[k])@ == with_kind(start[k]@, known),
            forall|k: int| i <= k < list@.len() ==> (#[trigger] list@[k]) == start[k],
        decreases list.len() - i,
    {
        if is_null(&list[i].kind) {
            let s = AudioSource {
                name: list[i].name.as_str().to_owned(),
                kind: kind_named(inputs, list[i].name.as_str()),
                item_id: list[i].item_id.copy(),
                item_enabled: list[i].item_enabled.copy(),
            };
            assert(s@ == with_kind(start[i as int]@, known));
            list.set(i, s);
        }
        i = i + 1;
    }
    assert(source_views(list@) =~= source_views(start).map_values(
        |s: SourceV| with_kind(s, known),
    ));
    list
}

/// The first questions: which inputs are there, and which roles do they have?
pub fn audio_head() -> (r: Vec<BatchItem>)
    ensures
        asked_for_head(r@),
{
    let mut out: Vec<BatchItem> = Vec::new();
    out.push(BatchItem::new("GetInputList", obs::no_fields()));
    out.push(BatchItem::new("GetSpecialInputs", obs::no_fields()));
    out
}

/// The two first questions.
pub open spec fn asked_for_head(batch: Seq<BatchItem>) -> bool {
    obs::asked_all(batch) =~= seq![
        ("GetInputList"@, obs::empty_object()),
        ("GetSpecialInputs"@, obs::empty_object()),
    ]
}

/// The inputs in the reply to the first question.
pub open spec fn inputs_in(head: Seq<json::JsonV>) -> Seq<json::JsonV> {
    match obs::data_at(head, 0) {
        Some(v) => v.items_at("inputs"@),
        None => Seq::empty(),
    }
}

/// The sources to show: those of the scene, or all inputs where none is chosen.
pub fn audio_sources(head: &Vec<Json>, scene_items: Option<&Json>) -> (r: Vec<AudioSource>)
    ensures
        source_views(r@) == sources_to_show(
            inputs_in(json::items_view(head@)),
            json::opt_model(scene_items),
        ),
{
    let none: Vec<Json> = Vec::new();
    assert(json::items_view(none@) =~= Seq::empty());
    let inputs: &Vec<Json> = match obs::response_at(head, 0) {
        Some(v) => match v.get_array("inputs") {
            Some(list) => list,
            None => &none,
        },
        None => &none,
    };
    assert(json::items_view(inputs@) == inputs_in(json::items_view(head@)));
    match scene_items {
        Some(items) => fill_kinds(scene_audio_names(items), inputs),
        None => all_inputs(inputs),
    }
}

// ---------------------------------------------------------------------------------------------
// In how many places a source is used
// ---------------------------------------------------------------------------------------------
/// How often a source occurs among scene items.
pub open spec fn uses_in(items: Seq<json::JsonV>, name: Seq<char>) -> nat
    decreases items.len(),
{
    if items.len() == 0 {
        0
    } else {
        uses_in(items.drop_last(), name) + (if items.last().text_at("sourceName"@) == Some(name) {
            1nat
        } else {
            0nat
        })
    }
}

/// The items in the reply of one scene; none if the scene could not be asked.
pub open spec fn items_in(results: Seq<json::JsonV>, i: int) -> Seq<json::JsonV> {
    match obs::data_at(results, i) {
        Some(v) => v.items_at("sceneItems"@),
        None => Seq::empty(),
    }
}

/// How often a source occurs in the first so many scenes.
pub open spec fn uses(results: Seq<json::JsonV>, scenes: int, name: Seq<char>) -> nat
    decreases scenes,
{
    if scenes <= 0 {
        0
    } else {
        uses(results, scenes - 1, name) + uses_in(items_in(results, scenes - 1), name)
    }
}

/// Counting stops at the largest number that can be told.
pub open spec fn capped(n: nat) -> i64 {
    if n <= i64::MAX {
        n as i64
    } else {
        i64::MAX
    }
}

fn add_uses(count: i64, items: &Vec<Json>, name: &str, Ghost(before): Ghost<nat>) -> (r: i64)
    requires
        count == capped(before),
    ensures
        r == capped(before + uses_in(json::items_view(items@), name@)),
{
    let ghost all = json::items_view(items@);
    let mut count: i64 = count;
    let mut i: usize = 0;
    while i < items.len()
        invariant
            i <= items@.len(),
            all == json::items_view(items@),
            count == capped(before + uses_in(all.take(i as int), name@)),
        decreases items.len() - i,
    {
        proof {
            assert(all.take(i + 1).drop_last() =~= all.take(i as int));
            assert(all.take(i + 1).last() == items@[i as int]@);
        }
        if let Some(s) = items[i].get_str("sourceName") {
            if text::same(s, name) && count < i64::MAX {
                count = count + 1;
            }
        }
        i = i + 1;
    }
    assert(all.take(i as int) =~= all);
    count
}

/// How often a source is used, from the replies of all scenes.
pub fn use_count(results: &Vec<Json>, name: &str) -> (r: i64)
    ensures
        r == capped(uses(json::items_view(results@), results@.len() as int, name@)),
{
    let ghost all = json::items_view(results@);
    let mut count: i64 = 0;
    let mut i: usize = 0;
    while i < results.len()
        invariant
            i <= results@.len(),
            all == json::items_view(results@),
            count == capped(uses(all, i as int, name@)),
        decreases results.len() - i,
    {
        let mut added: i64 = count;
        assert(uses_in(Seq::empty(), name@) == 0);
        if let Some(v) = obs::response_at(results, i) {
            if let Some(items) = v.get_array("sceneItems") {
                added = add_uses(count, items, name, Ghost(uses(all, i as int, name@)));
            }
        }
        count = added;
        i = i + 1;
    }
    count
}

/// The questions by which the use of sources is counted: the items of every scene.
pub fn scene_source_counts(scenes: &Json) -> (r: Vec<BatchItem>)
    ensures
        obs::asked_all(r@) == obs::one_each(
            "GetSceneItemList"@,
            "sceneName"@,
            json::texts_of(scenes@.items_at("scenes"@), "sceneName"@),
        ),
{
    let names = scenes.collect_texts("scenes", "sceneName");
    obs::ask_each("GetSceneItemList", "sceneName", &names)
}

// ---------------------------------------------------------------------------------------------
// The rows of the mixer
// ---------------------------------------------------------------------------------------------
/// The questions about each source: how loud, and is it muted?
pub open spec fn sound_questions(sources: Seq<SourceV>) -> Seq<(Seq<char>, json::JsonV)>
    decreases sources.len(),
{
    if sources.len() == 0 {
        Seq::empty()
    } else {
        sound_questions(sources.drop_last()) + seq![
            ("GetInputVolume"@, obs::one_text("inputName"@, sources.last().name)),
            ("GetInputMute"@, obs::one_text("inputName"@, sources.last().name)),
        ]
    }
}

/// The questions about each source: how loud, and is it muted?
pub fn audio_batch(sources: &Vec<AudioSource>) -> (r: Vec<BatchItem>)
    ensures
        obs::asked_all(r@) == sound_questions(source_views(sources@)),
{
    let ghost all = source_views(sources@);
    let mut out: Vec<BatchItem> = Vec::new();
    assert(obs::asked_all(out@) =~= Seq::empty());
    let mut i: usize = 0;
    while i < sources.len()
        invariant
            i <= sources@.len(),
            all == source_views(sources@),
            obs::asked_all(out@) == sound_questions(all.take(i as int)),
        decreases sources.len() - i,
    {
        proof {
            assert(all.take(i + 1).drop_last() =~= all.take(i as int));
            assert(all.take(i + 1).last() == sources@[i as int]@);
        }
        let ghost before = obs::asked_all(out@);
        let name = sources[i].name.as_str();
        out.push(BatchItem::new("GetInputVolume", obs::with_text("inputName", name)));
        out.push(BatchItem::new("GetInputMute", obs::with_text("inputName", name)));
        assert(obs::asked_all(out@) =~= before + seq![
            ("GetInputVolume"@, obs::one_text("inputName"@, name@)),
            ("GetInputMute"@, obs::one_text("inputName"@, name@)),
        ]);
        i = i + 1;
    }
    assert(all.take(i as int) =~= all);
    out
}

/// From what the volume in decibels is to be taken.
#[derive(Debug)]
pub enum Volume {
    /// OBS told it.
    Decibels(Json),
    /// OBS told only the multiplier.
    Multiplier(Json),
    /// OBS told neither: zero decibels are shown.
    Unknown,
}

/// From what the volume in decibels is to be taken.
pub enum VolumeV {
    Decibels(json::JsonV),
    Multiplier(json::JsonV),
    Unknown,
}

impl View for Volume {
    type V = VolumeV;

    open spec fn view(&self) -> VolumeV {
        match *self {
            Volume::Decibels(v) => VolumeV::Decibels(v@),
            Volume::Multiplier(v) => VolumeV::Multiplier(v@),
            Volume::Unknown => VolumeV::Unknown,
        }
    }
}

/// A number in a field.
pub open spec fn number_at(v: json::JsonV, key: Seq<char>) -> Option<json::JsonV> {
    match v.field(key) {
        Some(n) => if n.is_number() {
            Some(n)
        } else {
            None
        },
        None => None,
    }
}

/// What the reply about the volume tells.
pub open spec fn volume_in(volume: Option<json::JsonV>) -> VolumeV {
    match volume {
        Some(v) => match number_at(v, "inputVolumeDb"@) {
            Some(db) => VolumeV::Decibels(db),
            None => match number_at(v, "inputVolumeMul"@) {
                Some(mul) => VolumeV::Multiplier(mul),
                None => VolumeV::Unknown,
            },
        },
        None => VolumeV::Unknown,
    }
}

fn copy_number(v: &Json, key: &str) -> (r: Option<Json>)
    ensures
        json::opt_model(match r {
            Some(n) => Some(&n),
            None => None,
        }) == number_at(v@, key@),
{
    match v.get(key) {
        Some(n) => match n {
            Json::Int(_) | Json::Large(_) | Json::Real(_) => Some(n.copy()),
            _ => None,
        },
        None => None,
    }
}

fn read_volume(volume: Option<&Json>) -> (r: Volume)
    ensures
        r@ == volume_in(json::opt_model(volume)),
{
    match volume {
        Some(v) => match copy_number(v, "inputVolumeDb") {
            Some(db) => Volume::Decibels(db),
            None => match copy_number(v, "inputVolumeMul") {
                Some(mul) => Volume::Multiplier(mul),
                None => Volume::Unknown,
            },
        },
        None => Volume::Unknown,
    }
}

/// A row of the mixer.
#[derive(Debug)]
pub struct AudioRow {
    pub source: AudioSource,
    pub role: Option<InputRole>,
    pub muted: Json,
    pub volume: Volume,
    pub volume_mul: Json,
    /// How often the source is used over all scenes.
    pub uses: i64,
}

/// What a row of the mixer is.
#[verifier::ext_equal]
pub struct RowV {
    pub source: SourceV,
    pub role: Option<InputRole>,
    pub muted: json::JsonV,
    pub volume: VolumeV,
    pub volume_mul: json::JsonV,
    pub uses: i64,
}

impl View for AudioRow {
    type V = RowV;

    open spec fn view(&self) -> RowV {
        RowV {
            source: self.source@,
            role: self.role,
            muted: self.muted@,
            volume: self.volume@,
            volume_mul: self.volume_mul@,
            uses: self.uses,
        }
    }
}

/// What the rows of the mixer are.
pub open spec fn row_views(list: Seq<AudioRow>) -> Seq<RowV> {
    list.map_values(|r: AudioRow| r@)
}

/// A field of a reply, or null.
pub open spec fn told(reply: Option<json::JsonV>, key: Seq<char>) -> json::JsonV {
    match reply {
        Some(v) => field_or_null(v, key),
        None => json::JsonV::Null,
    }
}

fn copy_told(reply: Option<&Json>, key: &str) -> (r: Json)
    ensures
        r@ == told(json::opt_model(reply), key@),
{
    match reply {
        Some(v) => copy_field(v, key),
        None => Json::Null,
    }
}

/// The row of a source. A source that answers neither question has no sound, and no row.
pub open spec fn row_of(
    source: SourceV,
    special: Option<json::JsonV>,
    volume: Option<json::JsonV>,
    mute: Option<json::JsonV>,
    uses: i64,
) -> Option<RowV> {
    if volume is None && mute is None {
        None
    } else {
        Some(
            RowV {
                source,
                role: known_role(special, source.name),
                muted: told(mute, "inputMuted"@),
                volume: volume_in(volume),
                volume_mul: told(volume, "inputVolumeMul"@),
                uses,
            },
        )
    }
}

/// The rows of the first so many sources.
pub open spec fn rows_of(
    sources: Seq<SourceV>,
    upto: int,
    special: Option<json::JsonV>,
    results: Seq<json::JsonV>,
    scenes: Seq<json::JsonV>,
) -> Seq<RowV>
    decreases upto,
{
    if upto <= 0 {
        Seq::empty()
    } else {
        rows_of(sources, upto - 1, special, results, scenes) + (match row_of(
            sources[upto - 1],
            special,
            obs::data_at(results, 2 * (upto - 1)),
            obs::data_at(results, 2 * (upto - 1) + 1),
            capped(uses(scenes, scenes.len() as int, sources[upto - 1].name)),
        ) {
            Some(row) => seq![row],
            None => Seq::empty(),
        })
    }
}

fn copy_source(s: &AudioSource) -> (r: AudioSource)
    ensures
        r@ == s@,
{
    AudioSource {
        name: s.name.as_str().to_owned(),
        kind: s.kind.copy(),
        item_id: s.item_id.copy(),
        item_enabled: s.item_enabled.copy(),
    }
}

/// The data of one of the two replies about a source.
fn reply_about(results: &Vec<Json>, i: usize, second: bool) -> (r: Option<&Json>)
    ensures
        json::opt_model(r) == obs::data_at(
            json::items_view(results@),
            2 * i + (if second {
                1int
            } else {
                0int
            }),
        ),
{
    let count: usize = results.len();
    if i > count / 2 {
        return None;
    }
    let at: usize = i + i;
    if second {
        if at == count {
            return None;
        }
        obs::response_at(results, at + 1)
    } else {
        obs::response_at(results, at)
    }
}

/// The rows of the mixer: for each source with sound its volume, whether it is muted, its role
/// and how often it is used.
pub fn audio_rows(
    sources: &Vec<AudioSource>,
    head: &Vec<Json>,
    results: &Vec<Json>,
    scenes: &Vec<Json>,
) -> (r: Vec<AudioRow>)
    ensures
        row_views(r@) == rows_of(
            source_views(sources@),
            sources@.len() as int,
            obs::data_at(json::items_view(head@), 1),
            json::items_view(results@),
            json::items_view(scenes@),
        ),
{
    let special = obs::response_at(head, 1);
    let ghost all = source_views(sources@);
    let ghost slots = obs::data_at(json::items_view(head@), 1);
    let ghost replies = json::items_view(results@);
    let ghost listed = json::items_view(scenes@);
    let mut out: Vec<AudioRow> = Vec::new();
    assert(row_views(out@) =~= Seq::empty());
    let mut i: usize = 0;
    while i < sources.len()
        invariant
            i <= sources@.len(),
            all == source_views(sources@),
            slots == json::opt_model(special),
            replies == json::items_view(results@),
            listed == json::items_view(scenes@),
            row_views(out@) == rows_of(all, i as int, slots, replies, listed),
        decreases sources.len() - i,
    {
        let volume = reply_about(results, i, false);
        let mute = reply_about(results, i, true);
        assert(all[i as int] == sources@[i as int]@);
        let ghost before = row_views(out@);
        if volume.is_none() && mute.is_none() {
            assert(row_views(out@) =~= before + Seq::<RowV>::empty());
        } else {
            let name = sources[i].name.as_str();
            let row = AudioRow {
                source: copy_source(&sources[i]),
                role: role_among(special, name),
                muted: copy_told(mute, "inputMuted"),
                volume: read_volume(volume),
                volume_mul: copy_told(volume, "inputVolumeMul"),
                uses: use_count(scenes, name),
            };
            let ghost own = row@;
            out.push(row);
            assert(row_views(out@) =~= before + seq![own]);
        }
        i = i + 1;
    }
    out
}

/// A row as the panel gets it, with the volume in decibels.
pub open spec fn row_value(row: RowV, volume_db: json::JsonV) -> json::JsonV {
    json::JsonV::Object(
        map![
            "inputName"@ => json::JsonV::Str(row.source.name),
            "inputKind"@ => row.source.kind,
            "role"@ => match row.role {
                Some(role) => json::JsonV::Str(role.word()),
                None => json::JsonV::Null,
            },
            "muted"@ => row.muted,
            "volumeDb"@ => volume_db,
            "volumeMul"@ => row.volume_mul,
            "sceneItemId"@ => row.source.item_id,
            "sceneItemEnabled"@ => row.source.item_enabled,
            "sceneUseCount"@ => json::JsonV::Int(row.uses),
        ],
    )
}

impl AudioRow {
    /// The row as the panel gets it, with the volume in decibels.
    pub fn value(&self, volume_db: Json) -> (r: Json)
        ensures
            r@ == row_value(self@, volume_db@),
    {
        let role = match &self.role {
            Some(role) => Json::text(role.name()),
            None => Json::Null,
        };
        Fields::new().put("inputName", Json::text(self.source.name.as_str())).put(
            "inputKind",
            self.source.kind.copy(),
        ).put("role", role).put("muted", self.muted.copy()).put("volumeDb", volume_db).put(
            "volumeMul",
            self.volume_mul.copy(),
        ).put("sceneItemId", self.source.item_id.copy()).put(
            "sceneItemEnabled",
            self.source.item_enabled.copy(),
        ).put("sceneUseCount", Json::Int(self.uses)).json()
    }
}

/// The scene that was chosen; an empty name chooses none.
pub open spec fn chosen_scene(asked: Option<Seq<char>>) -> Option<Seq<char>> {
    match asked {
        Some(s) => if text::trimmed(s).len() == 0 {
            None
        } else {
            Some(text::trimmed(s))
        },
        None => None,
    }
}

/// The scene that was chosen; an empty name chooses none.
pub fn scene_filter(asked: Option<&str>) -> (r: Option<String>)
    ensures
        text::opt_view(r) == chosen_scene(text::opt_str(asked)),
{
    match asked {
        Some(s) => if text::is_blank(s) {
            None
        } else {
            Some(text::trim(s))
        },
        None => None,
    }
}

/// The answer of the mixer.
pub fn audio_answer(rows: Vec<Json>, scene: Option<&str>) -> (r: Json)
    ensures
        r@ == json::JsonV::Object(
            map![
                "audio"@ => json::JsonV::Array(json::items_view(rows@)),
                "scene"@ => match scene {
                    Some(s) => json::JsonV::Str(s@),
                    None => json::JsonV::Null,
                },
            ],
        ),
{
    proof {
        json::lemma_array_model(rows);
    }
    let scene = match scene {
        Some(s) => Json::text(s),
        None => Json::Null,
    };
    Fields::new().put("audio", Json::Array(rows)).put("scene", scene).json()
}

// ---------------------------------------------------------------------------------------------
// Putting the mixer together
// ---------------------------------------------------------------------------------------------
/// What OBS said: to one request, or to a batch.
pub enum Heard {
    One(ObsReply),
    Many(Result<Vec<Json>, String>),
}

/// What OBS said: to one request, or to a batch.
pub enum HeardV {
    One(donations::ReplyV),
    Many(Result<Seq<json::JsonV>, Seq<char>>),
}

impl View for Heard {
    type V = HeardV;

    open spec fn view(&self) -> HeardV {
        match *self {
            Heard::One(r) => HeardV::One(donations::reply_view(r)),
            Heard::Many(Ok(list)) => HeardV::Many(Ok(json::items_view(list@))),
            Heard::Many(Err(e)) => HeardV::Many(Err(e@)),
        }
    }
}

/// What is being waited for.
#[derive(Debug, Clone, Copy, PartialEq, Eq, Structural)]
pub enum AudioStage {
    /// The inputs and the roles.
    Head,
    /// The list of scenes.
    Scenes,
    /// The items of all scenes.
    Counts,
    /// The items of the chosen scene.
    Items,
    /// The sound of each source.
    Rows,
    /// Nothing: the work is over.
    Over,
}

/// The work of putting the mixer together.
#[derive(Debug)]
pub struct AudioWork {
    pub stage: AudioStage,
    /// The chosen scene, if any.
    pub scene: Option<String>,
    pub head: Vec<Json>,
    /// The replies of all scenes.
    pub scenes: Vec<Json>,
    pub sources: Vec<AudioSource>,
}

/// What the work is.
#[verifier::ext_equal]
pub struct AudioV {
    pub stage: AudioStage,
    pub scene: Option<Seq<char>>,
    pub head: Seq<json::JsonV>,
    pub scenes: Seq<json::JsonV>,
    pub sources: Seq<SourceV>,
}

impl View for AudioWork {
    type V = AudioV;

    open spec fn view(&self) -> AudioV {
        AudioV {
            stage: self.stage,
            scene: text::opt_view(self.scene),
            head: json::items_view(self.head@),
            scenes: json::items_view(self.scenes@),
            sources: source_views(self.sources@),
        }
    }
}

/// What is to be done next.
pub enum AudioNext {
    /// Send this request.
    Ask(BatchItem),
    /// Send these requests in one batch.
    AskAll(Vec<BatchItem>),
    /// These are the rows, or why there are none.
    Done(Result<Vec<AudioRow>, Refusal>),
}

/// What is to be done next.
#[verifier::ext_equal]
pub enum AudioNextV {
    Ask(Seq<char>, json::JsonV),
    AskAll(Seq<(Seq<char>, json::JsonV)>),
    Done(Result<Seq<RowV>, api::RefusalV>),
}

impl View for AudioNext {
    type V = AudioNextV;

    open spec fn view(&self) -> AudioNextV {
        match *self {
            AudioNext::Ask(item) => AudioNextV::Ask(obs::asked(item).0, obs::asked(item).1),
            AudioNext::AskAll(items) => AudioNextV::AskAll(obs::asked_all(items@)),
            AudioNext::Done(Ok(rows)) => AudioNextV::Done(Ok(row_views(rows@))),
            AudioNext::Done(Err(e)) => AudioNextV::Done(Err(e@)),
        }
    }
}

/// The work is over, for a reason that is told.
pub open spec fn given_up(st: AudioV, complaint: Seq<char>, e: Seq<char>) -> (AudioV, AudioNextV) {
    (
        AudioV { stage: AudioStage::Over, ..st },
        AudioNextV::Done(Err(api::failure(complaint, e))),
    )
}

/// The items of the chosen scene are asked for.
pub open spec fn asking_items(st: AudioV, scenes: Seq<json::JsonV>) -> (AudioV, AudioNextV) {
    (
        AudioV { stage: AudioStage::Items, scenes, ..st },
        AudioNextV::Ask(
            "GetSceneItemList"@,
            obs::one_text("sceneName"@, obs::or_empty(st.scene)),
        ),
    )
}

/// The sources are known: their sound is asked for, if there are any.
pub open spec fn asking_sound(st: AudioV, items: Option<json::JsonV>) -> (AudioV, AudioNextV) {
    let sources = sources_to_show(inputs_in(st.head), items);
    if sources.len() == 0 {
        (AudioV { stage: AudioStage::Over, sources, ..st }, AudioNextV::Done(Ok(Seq::empty())))
    } else {
        (
            AudioV { stage: AudioStage::Rows, sources, ..st },
            AudioNextV::AskAll(sound_questions(sources)),
        )
    }
}

/// What follows what OBS said. That the use of sources could not be counted is no reason to give
/// up; that the sources or their sound are not known is one.
pub open spec fn audio_step(st: AudioV, heard: HeardV) -> (AudioV, AudioNextV) {
    match (st.stage, heard) {
        (AudioStage::Head, HeardV::Many(Ok(head))) => {
            let known = AudioV { head, ..st };
            if st.scene is None {
                asking_sound(known, None)
            } else {
                (
                    AudioV { stage: AudioStage::Scenes, ..known },
                    AudioNextV::Ask("GetSceneList"@, obs::empty_object()),
                )
            }
        },
        (AudioStage::Head, HeardV::Many(Err(e))) => given_up(
            st,
            "Не удалось получить список источников"@,
            e,
        ),
        (AudioStage::Scenes, HeardV::One(Ok(list))) => (
            AudioV { stage: AudioStage::Counts, ..st },
            AudioNextV::AskAll(
                obs::one_each(
                    "GetSceneItemList"@,
                    "sceneName"@,
                    json::texts_of(list.items_at("scenes"@), "sceneName"@),
                ),
            ),
        ),
        (AudioStage::Scenes, HeardV::One(Err(_))) => asking_items(st, Seq::empty()),
        (AudioStage::Counts, HeardV::Many(Ok(scenes))) => asking_items(st, scenes),
        (AudioStage::Counts, HeardV::Many(Err(_))) => asking_items(st, Seq::empty()),
        (AudioStage::Items, HeardV::One(Ok(items))) => asking_sound(st, Some(items)),
        (AudioStage::Items, HeardV::One(Err(e))) => given_up(
            st,
            "Не удалось получить источники выбранной сцены"@,
            e,
        ),
        (AudioStage::Rows, HeardV::Many(Ok(results))) => (
            AudioV { stage: AudioStage::Over, ..st },
            AudioNextV::Done(
                Ok(
                    rows_of(
                        st.sources,
                        st.sources.len() as int,
                        obs::data_at(st.head, 1),
                        results,
                        st.scenes,
                    ),
                ),
            ),
        ),
        (AudioStage::Rows, HeardV::Many(Err(e))) => given_up(
            st,
            "Не удалось получить состояние аудио"@,
            e,
        ),
        _ => (st, AudioNextV::Done(Err(api::failure("Не удалось получить состояние аудио"@, ""@)))),
    }
}

/// Whether what OBS said is what is being waited for.
pub open spec fn fits(stage: AudioStage, heard: HeardV) -> bool {
    match stage {
        AudioStage::Head => heard is Many,
        AudioStage::Scenes => heard is One,
        AudioStage::Counts => heard is Many,
        AudioStage::Items => heard is One,
        AudioStage::Rows => heard is Many,
        AudioStage::Over => false,
    }
}

impl AudioWork {
    /// Begins with the inputs and the roles, in one batch.
    pub fn obs_audio(scene: Option<&str>) -> (r: (AudioWork, Vec<BatchItem>))
        ensures
            r.0@ == (AudioV {
                stage: AudioStage::Head,
                scene: chosen_scene(text::opt_str(scene)),
                head: Seq::empty(),
                scenes: Seq::empty(),
                sources: Seq::empty(),
            }),
            asked_for_head(r.1@),
    {
        let work = AudioWork {
            stage: AudioStage::Head,
            scene: scene_filter(scene),
            head: Vec::new(),
            scenes: Vec::new(),
            sources: Vec::new(),
        };
        assert(work@.head =~= Seq::empty());
        assert(work@.scenes =~= Seq::empty());
        assert(work@.sources =~= Seq::empty());
        (work, audio_head())
    }

    fn give_up(&mut self, complaint: &str, e: &str) -> (r: AudioNext)
        ensures
            (final(self)@, r@) == given_up(old(self)@, complaint@, e@),
    {
        self.stage = AudioStage::Over;
        AudioNext::Done(Err(api::err(complaint, e)))
    }

    fn ask_items(&mut self, scenes: Vec<Json>) -> (r: AudioNext)
        ensures
            (final(self)@, r@) == asking_items(old(self)@, json::items_view(scenes@)),
    {
        let data = match &self.scene {
            Some(scene) => obs::with_text("sceneName", scene.as_str()),
            None => {
                let none = String::new();
                obs::with_text("sceneName", none.as_str())
            },
        };
        self.scenes = scenes;
        self.stage = AudioStage::Items;
        AudioNext::Ask(BatchItem::new("GetSceneItemList", data))
    }

    fn ask_sound(&mut self, items: Option<&Json>) -> (r: AudioNext)
        ensures
            (final(self)@, r@) == asking_sound(old(self)@, json::opt_model(items)),
    {
        self.sources = audio_sources(&self.head, items);
        assert(source_views(self.sources@).len() == self.sources@.len());
        if self.sources.len() == 0 {
            self.stage = AudioStage::Over;
            let none: Vec<AudioRow> = Vec::new();
            assert(row_views(none@) =~= Seq::empty());
            return AudioNext::Done(Ok(none));
        }
        self.stage = AudioStage::Rows;
        AudioNext::AskAll(audio_batch(&self.sources))
    }

    /// Takes what OBS said and says what to do next.
    pub fn advance(&mut self, heard: Heard) -> (r: AudioNext)
        requires
            fits(old(self)@.stage, heard@),
        ensures
            (final(self)@, r@) == audio_step(old(self)@, heard@),
    {
        match self.stage {
            AudioStage::Head => match heard {
                Heard::Many(Ok(head)) => {
                    self.head = head;
                    if self.scene.is_none() {
                        return self.ask_sound(None);
                    }
                    self.stage = AudioStage::Scenes;
                    AudioNext::Ask(BatchItem::new("GetSceneList", obs::no_fields()))
                },
                Heard::Many(Err(e)) => self.give_up(
                    "Не удалось получить список источников",
                    e.as_str(),
                ),
                _ => self.give_up("Не удалось получить состояние аудио", ""),
            },
            AudioStage::Scenes => match heard {
                Heard::One(Ok(list)) => {
                    self.stage = AudioStage::Counts;
                    AudioNext::AskAll(scene_source_counts(&list))
                },
                _ => {
                    let none: Vec<Json> = Vec::new();
                    assert(json::items_view(none@) =~= Seq::empty());
                    self.ask_items(none)
                },
            },
            AudioStage::Counts => match heard {
                Heard::Many(Ok(scenes)) => self.ask_items(scenes),
                _ => {
                    let none: Vec<Json> = Vec::new();
                    assert(json::items_view(none@) =~= Seq::empty());
                    self.ask_items(none)
                },
            },
            AudioStage::Items => match heard {
                Heard::One(Ok(items)) => self.ask_sound(Some(&items)),
                Heard::One(Err(e)) => self.give_up(
                    "Не удалось получить источники выбранной сцены",
                    e.as_str(),
                ),
                _ => self.give_up("Не удалось получить состояние аудио", ""),
            },
            AudioStage::Rows => match heard {
                Heard::Many(Ok(results)) => {
                    self.stage = AudioStage::Over;
                    let rows = audio_rows(&self.sources, &self.head, &results, &self.scenes);
                    assert(source_views(self.sources@).len() == self.sources@.len());
                    AudioNext::Done(Ok(rows))
                },
                Heard::Many(Err(e)) => self.give_up(
                    "Не удалось получить состояние аудио",
                    e.as_str(),
                ),
                _ => self.give_up("Не удалось получить состояние аудио", ""),
            },
            AudioStage::Over => self.give_up("Не удалось получить состояние аудио", ""),
        }
    }
}

/// Whether a field of the special inputs is a slot with a role.
pub open spec fn is_slot(field: Seq<char>) -> bool {
    ||| field == "desktop1"@
    ||| field == "desktop2"@
    ||| field == "mic1"@
    ||| field == "mic2"@
    ||| field == "mic3"@
    ||| field == "mic4"@
}

/// The role of an input depends on the slots that it stands in, and on nothing else: an input that
/// is renamed and stands in the same slots has the same role.
pub proof fn law_role_follows_the_slot(
    before: json::JsonV,
    name: Seq<char>,
    after: json::JsonV,
    renamed: Seq<char>,
)
    requires
        forall|slot: Seq<char>|
            is_slot(slot) ==> #[trigger] slot_holds(before, slot, name) == slot_holds(
                after,
                slot,
                renamed,
            ),
    ensures
        role_of(before, name) == role_of(after, renamed),
{
    assert(is_slot("desktop1"@) && is_slot("desktop2"@));
    assert(is_slot("mic1"@) && is_slot("mic2"@) && is_slot("mic3"@) && is_slot("mic4"@));
}

/// An empty slot gives no role to the empty name.
pub proof fn law_empty_slots_label_nothing(special: json::JsonV)
    ensures
        role_of(special, Seq::empty()) is None,
{
}

/// Whether a source answered at least one of the two questions about it.
pub open spec fn answered(results: Seq<json::JsonV>, i: int) -> bool {
    obs::data_at(results, 2 * i) is Some || obs::data_at(results, 2 * i + 1) is Some
}

/// A source that answers at least one question has a row.
pub proof fn law_every_sounding_source_is_listed(
    sources: Seq<SourceV>,
    upto: int,
    special: Option<json::JsonV>,
    results: Seq<json::JsonV>,
    scenes: Seq<json::JsonV>,
    i: int,
)
    requires
        0 <= i < upto <= sources.len(),
        answered(results, i),
    ensures
        exists|k: int|
            0 <= k < rows_of(sources, upto, special, results, scenes).len() && (
            #[trigger] rows_of(sources, upto, special, results, scenes)[k]).source == sources[i],
    decreases upto,
{
    let rows = rows_of(sources, upto, special, results, scenes);
    let front = rows_of(sources, upto - 1, special, results, scenes);
    if i == upto - 1 {
        assert(rows[rows.len() - 1].source == sources[i]);
    } else {
        law_every_sounding_source_is_listed(sources, upto - 1, special, results, scenes, i);
        let k = choose|k: int| 0 <= k < front.len() && (#[trigger] front[k]).source == sources[i];
        assert(rows[k] == front[k]);
    }
}

/// A row belongs to a source that answered at least one question.
pub proof fn law_only_sounding_sources_are_listed(
    sources: Seq<SourceV>,
    upto: int,
    special: Option<json::JsonV>,
    results: Seq<json::JsonV>,
    scenes: Seq<json::JsonV>,
    k: int,
)
    requires
        0 <= upto <= sources.len(),
        0 <= k < rows_of(sources, upto, special, results, scenes).len(),
    ensures
        exists|i: int|
            0 <= i < upto && #[trigger] answered(results, i) && rows_of(
                sources,
                upto,
                special,
                results,
                scenes,
            )[k].source == sources[i],
    decreases upto,
{
    let rows = rows_of(sources, upto, special, results, scenes);
    if upto > 0 {
        let front = rows_of(sources, upto - 1, special, results, scenes);
        if k < front.len() {
            law_only_sounding_sources_are_listed(sources, upto - 1, special, results, scenes, k);
            let i = choose|i: int|
                0 <= i < upto - 1 && #[trigger] answered(results, i) && front[k].source
                    == sources[i];
            assert(rows[k] == front[k]);
            assert(answered(results, i) && rows[k].source == sources[i]);
        } else {
            assert(answered(results, upto - 1) && rows[k].source == sources[upto - 1]);
        }
    }
}

/// The order of the stages.
pub open spec fn steps_left(stage: AudioStage) -> nat {
    match stage {
        AudioStage::Head => 5,
        AudioStage::Scenes => 4,
        AudioStage::Counts => 3,
        AudioStage::Items => 2,
        AudioStage::Rows => 1,
        AudioStage::Over => 0,
    }
}

/// Whatever OBS says, the work comes to an end: every answer brings it nearer, and it ends with rows
/// or with a reason.
pub proof fn law_the_mixer_gets_done(st: AudioV, heard: HeardV)
    requires
        fits(st.stage, heard),
    ensures
        steps_left(audio_step(st, heard).0.stage) < steps_left(st.stage),
        audio_step(st, heard).0.stage == AudioStage::Over <==> audio_step(st, heard).1 is Done,
{
}

/// A failure to count how often sources are used does not keep the mixer from being shown.
pub proof fn law_counting_is_not_vital(st: AudioV, heard: HeardV)
    requires
        st.stage == AudioStage::Scenes || st.stage == AudioStage::Counts,
        fits(st.stage, heard),
    ensures
        !(audio_step(st, heard).1 is Done),
{
}


/// The slots of OBS give the roles: its four microphones are microphones, its two captures of the
/// system are the sound of the system unless they are microphones too, and what stands in none of
/// the six has no role.
pub proof fn law_each_slot_has_its_role(special: json::JsonV, name: Seq<char>)
    requires
        name.len() > 0,
    ensures
        special.text_at("mic1"@) == Some(name) || special.text_at("mic2"@) == Some(name)
            || special.text_at("mic3"@) == Some(name) || special.text_at("mic4"@) == Some(name)
            <==> role_of(special, name) == Some(InputRole::Mic),
        (special.text_at("desktop1"@) == Some(name) || special.text_at("desktop2"@) == Some(name))
            && role_of(special, name) != Some(InputRole::Mic) <==> role_of(special, name) == Some(
            InputRole::Desktop,
        ),
        known_role(Some(special), name) == role_of(special, name),
        known_role(None, name) is None,
        InputRole::Mic.word() == "mic"@,
        InputRole::Desktop.word() == "desktop"@,
{
}

/// A table of roles holds exactly the names that stand in a slot, each with its role.
pub proof fn law_the_table_of_roles_is_complete(
    roles: Map<Seq<char>, InputRole>,
    special: json::JsonV,
    name: Seq<char>,
)
    requires
        labels(roles, special),
        name.len() > 0,
    ensures
        special.text_at("mic1"@) == Some(name) ==> roles.contains_key(name) && roles[name]
            == InputRole::Mic,
        roles.contains_key(name) && roles[name] == InputRole::Desktop ==> special.text_at(
            "desktop1"@,
        ) == Some(name) || special.text_at("desktop2"@) == Some(name),
        role_of(special, name) is None <==> !roles.contains_key(name),
{
}

/// Every item of a scene that names its source is shown, in order, with the number of the item and
/// whether it is shown as OBS told them.
pub proof fn law_every_named_item_is_shown(items: Seq<json::JsonV>, item: json::JsonV)
    ensures
        item.text_at("sourceName"@) is None ==> item_sources(items.push(item)) == item_sources(items),
        item.text_at("sourceName"@) matches Some(name) ==> ({
            let all = item_sources(items.push(item));
            &&& all.len() == item_sources(items).len() + 1
            &&& all.drop_last() == item_sources(items)
            &&& all.last().name == name
            &&& item.field("sceneItemId"@) matches Some(id) ==> all.last().item_id == id
            &&& item.field("sceneItemEnabled"@) matches Some(on) ==> all.last().item_enabled == on
            &&& item.field("inputKind"@) matches Some(kind) ==> all.last().kind == kind
            &&& item.field("sceneItemId"@) is None ==> all.last().item_id == json::JsonV::Null
            &&& item.field("sceneItemEnabled"@) is None ==> all.last().item_enabled
                == json::JsonV::Null
            &&& item.field("inputKind"@) is None ==> all.last().kind == json::JsonV::Null
        }),
        item_sources(Seq::empty()).len() == 0,
{
    assert(items.push(item).drop_last() =~= items);
    assert(item_sources(items) + Seq::<SourceV>::empty() =~= item_sources(items));
    if item.text_at("sourceName"@) is Some {
        let all = item_sources(items.push(item));
        assert(all.drop_last() =~= item_sources(items));
    }
}

/// Of several inputs of one name the last one counts.
pub proof fn law_the_last_input_of_a_name_counts(
    inputs: Seq<json::JsonV>,
    name: Seq<char>,
    i: int,
)
    ensures
        0 <= i < inputs.len() && inputs[i].text_at("inputName"@) == Some(name) && (forall|j: int|
            i < j < inputs.len() ==> (#[trigger] inputs[j]).text_at("inputName"@) != Some(name))
            ==> last_named(inputs, name) == Some(inputs[i]) && (inputs[i].field("inputKind"@) matches Some(
            kind,
        ) ==> kind_by_name(inputs, name) == kind),
        (forall|j: int|
            0 <= j < inputs.len() ==> (#[trigger] inputs[j]).text_at("inputName"@) != Some(name))
            ==> last_named(inputs, name) is None && kind_by_name(inputs, name) == json::JsonV::Null,
    decreases inputs.len(),
{
    if inputs.len() > 0 {
        let front = inputs.drop_last();
        law_the_last_input_of_a_name_counts(front, name, i);
        assert(inputs.last() == inputs[inputs.len() - 1]);
        assert(forall|j: int| 0 <= j < front.len() ==> #[trigger] front[j] == inputs[j]);
        if 0 <= i < inputs.len() - 1 && inputs[i].text_at("inputName"@) == Some(name) && (forall|j: int|
            i < j < inputs.len() ==> (#[trigger] inputs[j]).text_at("inputName"@) != Some(name)) {
            assert(inputs[inputs.len() - 1].text_at("inputName"@) != Some(name));
            assert forall|j: int| i < j < front.len() implies (#[trigger] front[j]).text_at(
                "inputName"@,
            ) != Some(name) by {
                assert(inputs[j].text_at("inputName"@) != Some(name));
            }
            assert(front[i] == inputs[i]);
        }
        if forall|j: int|
            0 <= j < inputs.len() ==> (#[trigger] inputs[j]).text_at("inputName"@) != Some(name) {
            assert(inputs[inputs.len() - 1].text_at("inputName"@) != Some(name));
            assert forall|j: int| 0 <= j < front.len() implies (#[trigger] front[j]).text_at(
                "inputName"@,
            ) != Some(name) by {
                assert(inputs[j].text_at("inputName"@) != Some(name));
            }
        }
    }
}

proof fn lemma_inputs_once(inputs: Seq<json::JsonV>, upto: int, k: int) -> (i: int)
    requires
        0 <= upto <= inputs.len(),
        0 <= k < inputs_once(inputs, upto).len(),
    ensures
        0 <= i < upto,
        inputs[i].text_at("inputName"@) == Some(inputs_once(inputs, upto)[k].name),
        inputs_once(inputs, upto)[k].kind == field_or_null(inputs[i], "inputKind"@),
        !named_from(inputs, i + 1, inputs_once(inputs, upto)[k].name),
        k < inputs_once(inputs, i + 1).len(),
        k >= inputs_once(inputs, i).len(),
        inputs_once(inputs, upto)[k].item_id == json::JsonV::Null,
        inputs_once(inputs, upto)[k].item_enabled == json::JsonV::Null,
    decreases upto,
{
    let before = inputs_once(inputs, upto - 1);
    if k < before.len() {
        lemma_inputs_once(inputs, upto - 1, k)
    } else {
        upto - 1
    }
}

proof fn lemma_once_grows(inputs: Seq<json::JsonV>, a: int, b: int)
    requires
        0 <= a <= b <= inputs.len(),
    ensures
        inputs_once(inputs, a).len() <= inputs_once(inputs, b).len(),
    decreases b,
{
    if a < b {
        lemma_once_grows(inputs, a, b - 1);
    }
}

proof fn lemma_once_has(inputs: Seq<json::JsonV>, upto: int, i: int)
    requires
        0 <= i < upto <= inputs.len(),
        inputs[i].text_at("inputName"@) is Some,
        !named_from(inputs, i + 1, inputs[i].text_at("inputName"@)->0),
    ensures
        exists|k: int|
            0 <= k < inputs_once(inputs, upto).len() && (#[trigger] inputs_once(inputs, upto)[k]).name
                == inputs[i].text_at("inputName"@)->0,
    decreases upto,
{
    let before = inputs_once(inputs, upto - 1);
    let name = inputs[i].text_at("inputName"@)->0;
    if i == upto - 1 {
        assert(inputs_once(inputs, upto)[before.len() as int].name == name);
    } else {
        lemma_once_has(inputs, upto - 1, i);
        let k = choose|k: int| 0 <= k < before.len() && (#[trigger] before[k]).name == name;
        assert(inputs_once(inputs, upto)[k].name == name);
    }
}

/// Without a chosen scene every input that has a name is shown, and each name once.
pub proof fn law_every_input_is_shown_once(inputs: Seq<json::JsonV>, i: int, j: int, k: int)
    requires
        0 <= i < inputs.len(),
        inputs[i].text_at("inputName"@) is Some,
    ensures
        ({
            let all = sources_to_show(inputs, None);
            &&& exists|m: int|
                0 <= m < all.len() && (#[trigger] all[m]).name == inputs[i].text_at("inputName"@)->0
            &&& 0 <= j < k < all.len() ==> all[j].name != all[k].name
            &&& 0 <= j < all.len() ==> all[j].kind == kind_by_name(inputs, all[j].name)
                && all[j].item_id == json::JsonV::Null && all[j].item_enabled == json::JsonV::Null
        }),
{
    let all = sources_to_show(inputs, None);
    let n = inputs.len() as int;
    let name = inputs[i].text_at("inputName"@)->0;
    let last = lemma_last_of(inputs, name, i);
    lemma_once_has(inputs, n, last);
    if 0 <= j < all.len() {
        let a = lemma_inputs_once(inputs, n, j);
        assert forall|m: int| a < m < inputs.len() implies (#[trigger] inputs[m]).text_at(
            "inputName"@,
        ) != Some(all[j].name) by {
            if inputs[m].text_at("inputName"@) == Some(all[j].name) {
                assert(named_from(inputs, a + 1, all[j].name));
            }
        }
        law_the_last_input_of_a_name_counts(inputs, all[j].name, a);
        if j < k < all.len() {
            let b = lemma_inputs_once(inputs, n, k);
            if b <= a {
                lemma_once_grows(inputs, b + 1, a + 1);
                if b < a {
                    lemma_once_grows(inputs, b + 1, a);
                } else {
                    assert(inputs_once(inputs, a + 1).len() <= inputs_once(inputs, a).len() + 1);
                }
                assert(false);
            }
            if all[j].name == all[k].name {
                assert(inputs[b].text_at("inputName"@) == Some(all[j].name));
                assert(named_from(inputs, a + 1, all[j].name));
            }
        }
    }
}

proof fn lemma_last_of(inputs: Seq<json::JsonV>, name: Seq<char>, i: int) -> (last: int)
    requires
        0 <= i < inputs.len(),
        inputs[i].text_at("inputName"@) == Some(name),
    ensures
        i <= last < inputs.len(),
        inputs[last].text_at("inputName"@) == Some(name),
        !named_from(inputs, last + 1, name),
    decreases inputs.len() - i,
{
    if named_from(inputs, i + 1, name) {
        let j = choose|j: int|
            i + 1 <= j < inputs.len() && (#[trigger] inputs[j]).text_at("inputName"@) == Some(name);
        lemma_last_of(inputs, name, j)
    } else {
        i
    }
}

/// With a chosen scene its sources are shown, one for one; a kind that the scene tells is kept, and
/// one that it does not tell is taken from the inputs.
pub proof fn law_the_sources_of_the_scene_are_shown(
    inputs: Seq<json::JsonV>,
    items: json::JsonV,
    i: int,
)
    ensures
        ({
            let shown = sources_to_show(inputs, Some(items));
            let told = item_sources(items.items_at("sceneItems"@));
            &&& shown.len() == told.len()
            &&& 0 <= i < told.len() ==> {
                &&& shown[i].name == told[i].name
                &&& shown[i].item_id == told[i].item_id
                &&& shown[i].item_enabled == told[i].item_enabled
                &&& told[i].kind != json::JsonV::Null ==> shown[i].kind == told[i].kind
                &&& told[i].kind == json::JsonV::Null ==> shown[i].kind == kind_by_name(
                    inputs,
                    told[i].name,
                )
            }
        }),
{
}

/// Every place of a source counts, in every scene that could be asked, and only those do.
pub proof fn law_every_place_counts(
    results: Seq<json::JsonV>,
    items: Seq<json::JsonV>,
    item: json::JsonV,
    name: Seq<char>,
    n: int,
    v: json::JsonV,
)
    requires
        n >= 0,
    ensures
        item.text_at("sourceName"@) == Some(name) ==> uses_in(items.push(item), name) == uses_in(
            items,
            name,
        ) + 1,
        item.text_at("sourceName"@) != Some(name) ==> uses_in(items.push(item), name) == uses_in(
            items,
            name,
        ),
        uses_in(Seq::empty(), name) == 0,
        obs::data_at(results, n) == Some(v) ==> uses(results, n + 1, name) == uses(results, n, name)
            + uses_in(v.items_at("sceneItems"@), name),
        obs::data_at(results, n) is None ==> uses(results, n + 1, name) == uses(results, n, name),
        uses(results, 0, name) == 0,
        capped(uses(results, n, name)) as int == if uses(results, n, name) <= i64::MAX {
            uses(results, n, name) as int
        } else {
            i64::MAX as int
        },
{
    assert(items.push(item).drop_last() =~= items);
}

/// Each source is asked for its volume and then whether it is muted, by its name.
pub proof fn law_each_source_is_asked_twice(sources: Seq<SourceV>, i: int)
    requires
        0 <= i < sources.len(),
    ensures
        sound_questions(sources).len() == 2 * sources.len(),
        sound_questions(sources)[2 * i].0 == "GetInputVolume"@,
        sound_questions(sources)[2 * i].1.text_at("inputName"@) == Some(sources[i].name),
        sound_questions(sources)[2 * i + 1].0 == "GetInputMute"@,
        sound_questions(sources)[2 * i + 1].1.text_at("inputName"@) == Some(sources[i].name),
    decreases sources.len(),
{
    let front = sources.drop_last();
    lemma_two_each(front);
    if i < front.len() {
        law_each_source_is_asked_twice(front, i);
    }
}

proof fn lemma_two_each(sources: Seq<SourceV>)
    ensures
        sound_questions(sources).len() == 2 * sources.len(),
    decreases sources.len(),
{
    if sources.len() > 0 {
        lemma_two_each(sources.drop_last());
    }
}

/// The volume is shown in decibels as OBS told it; where it told the multiplier only, that is
/// reckoned from; and nothing else counts as a volume.
pub proof fn law_the_volume_is_what_obs_told(v: json::JsonV)
    ensures
        v.field("inputVolumeDb"@) matches Some(db) ==> (db.is_number() ==> volume_in(Some(v))
            == VolumeV::Decibels(db)),
        (v.field("inputVolumeDb"@) matches Some(db) ==> !db.is_number()) ==> (v.field(
            "inputVolumeMul"@,
        ) matches Some(mul) ==> (mul.is_number() ==> volume_in(Some(v)) == VolumeV::Multiplier(mul))),
        volume_in(Some(v)) matches VolumeV::Decibels(db) ==> v.field("inputVolumeDb"@) == Some(db),
        volume_in(Some(v)) matches VolumeV::Multiplier(mul) ==> v.field("inputVolumeMul"@) == Some(mul),
        volume_in(None) is Unknown,
{
}

/// A source that answers has a row of its own: with its volume and its mute from its own two replies,
/// with the role that OBS gave it, and with the number of its places.
pub proof fn law_each_row_tells_its_own_source(
    sources: Seq<SourceV>,
    upto: int,
    special: Option<json::JsonV>,
    results: Seq<json::JsonV>,
    scenes: Seq<json::JsonV>,
    i: int,
) -> (k: int)
    requires
        0 <= i < upto <= sources.len(),
        obs::data_at(results, 2 * i) is Some || obs::data_at(results, 2 * i + 1) is Some,
    ensures
        0 <= k < rows_of(sources, upto, special, results, scenes).len(),
        k <= i,
        ({
            let row = rows_of(sources, upto, special, results, scenes)[k];
            &&& row.source == sources[i]
            &&& row.role == known_role(special, sources[i].name)
            &&& row.uses == capped(uses(scenes, scenes.len() as int, sources[i].name))
            &&& obs::data_at(results, 2 * i) matches Some(v) ==> row.volume == volume_in(Some(v))
                && (v.field("inputVolumeMul"@) matches Some(mul) ==> row.volume_mul == mul)
            &&& obs::data_at(results, 2 * i) is None ==> row.volume is Unknown && row.volume_mul
                == json::JsonV::Null
            &&& obs::data_at(results, 2 * i + 1) matches Some(v) ==> (v.field(
                "inputMuted"@,
            ) matches Some(muted) ==> row.muted == muted)
            &&& obs::data_at(results, 2 * i + 1) is None ==> row.muted == json::JsonV::Null
        }),
    decreases upto,
{
    let before = rows_of(sources, upto - 1, special, results, scenes);
    lemma_rows_are_few(sources, upto - 1, special, results, scenes);
    if i == upto - 1 {
        before.len() as int
    } else {
        law_each_row_tells_its_own_source(sources, upto - 1, special, results, scenes, i)
    }
}

proof fn lemma_rows_are_few(
    sources: Seq<SourceV>,
    upto: int,
    special: Option<json::JsonV>,
    results: Seq<json::JsonV>,
    scenes: Seq<json::JsonV>,
)
    requires
        0 <= upto,
    ensures
        rows_of(sources, upto, special, results, scenes).len() <= upto,
    decreases upto,
{
    if upto > 0 {
        lemma_rows_are_few(sources, upto - 1, special, results, scenes);
    }
}

/// There is at most one row for each source.
pub proof fn law_no_source_has_two_rows(
    sources: Seq<SourceV>,
    upto: int,
    special: Option<json::JsonV>,
    results: Seq<json::JsonV>,
    scenes: Seq<json::JsonV>,
)
    requires
        0 <= upto <= sources.len(),
    ensures
        rows_of(sources, upto, special, results, scenes).len() <= upto,
{
    lemma_rows_are_few(sources, upto, special, results, scenes);
}

/// The panel gets a row as it is, each part under its own name.
pub proof fn law_the_panel_gets_the_row(row: RowV, volume_db: json::JsonV)
    ensures
        ({
            let v = row_value(row, volume_db);
            &&& v.text_at("inputName"@) == Some(row.source.name)
            &&& v.field("inputKind"@) == Some(row.source.kind)
            &&& row.role == Some(InputRole::Mic) ==> v.text_at("role"@) == Some("mic"@)
            &&& row.role == Some(InputRole::Desktop) ==> v.text_at("role"@) == Some("desktop"@)
            &&& row.role is None ==> v.field("role"@) == Some(json::JsonV::Null)
            &&& v.field("muted"@) == Some(row.muted)
            &&& v.field("volumeDb"@) == Some(volume_db)
            &&& v.field("volumeMul"@) == Some(row.volume_mul)
            &&& v.field("sceneItemId"@) == Some(row.source.item_id)
            &&& v.field("sceneItemEnabled"@) == Some(row.source.item_enabled)
            &&& v.int_at("sceneUseCount"@) == Some(row.uses)
        }),
{
    reveal_strlit("inputName");
    reveal_strlit("inputKind");
    reveal_strlit("role");
    reveal_strlit("muted");
    reveal_strlit("volumeDb");
    reveal_strlit("volumeMul");
    reveal_strlit("sceneItemId");
    reveal_strlit("sceneItemEnabled");
    reveal_strlit("sceneUseCount");
    assert("inputName"@.len() == 9);
    assert("inputKind"@.len() == 9);
    assert("role"@.len() == 4);
    assert("muted"@.len() == 5);
    assert("volumeDb"@.len() == 8);
    assert("volumeMul"@.len() == 9);
    assert("sceneItemId"@.len() == 11);
    assert("sceneItemEnabled"@.len() == 16);
    assert("sceneUseCount"@.len() == 13);
    assert("inputName"@[5] != "inputKind"@[5]);
    assert("inputName"@[0] != "volumeMul"@[0]);
    assert("inputKind"@[0] != "volumeMul"@[0]);
}

/// A scene is chosen by its name without the white space around it; a blank name chooses none.
pub proof fn law_a_blank_scene_is_no_choice(asked: Seq<char>)
    ensures
        chosen_scene(None) is None,
        text::trimmed(asked).len() == 0 <==> chosen_scene(Some(asked)) is None,
        chosen_scene(Some(asked)) matches Some(name) ==> name == text::trimmed(asked),
{
}

/// The mixer is put together step by step: the inputs and the roles; with a chosen scene the list of
/// scenes, the items of each of them and the items of the chosen one; then the sound of each source.
/// What was heard is kept for the rows.
pub proof fn law_the_mixer_asks_in_turn(
    st: AudioV,
    scene: Seq<char>,
    list: json::JsonV,
    got: Seq<json::JsonV>,
    i: int,
)
    requires
        st.scene == Some(scene),
    ensures
        ({
            let after = audio_step(AudioV { stage: AudioStage::Head, ..st }, HeardV::Many(Ok(got)));
            &&& after.0.head == got && after.0.stage == AudioStage::Scenes && after.0.scene == st.scene
            &&& after.1 matches AudioNextV::Ask(question, _) && question == "GetSceneList"@
        }),
        ({
            let after = audio_step(AudioV { stage: AudioStage::Scenes, ..st }, HeardV::One(Ok(list)));
            let names = json::texts_of(list.items_at("scenes"@), "sceneName"@);
            &&& after.0.stage == AudioStage::Counts && after.0.head == st.head
            &&& after.1 matches AudioNextV::AskAll(questions) && questions.len() == names.len() && (0
                <= i < names.len() ==> questions[i].0 == "GetSceneItemList"@ && questions[i].1.text_at(
                "sceneName"@,
            ) == Some(names[i]))
        }),
        ({
            let after = audio_step(AudioV { stage: AudioStage::Counts, ..st }, HeardV::Many(Ok(got)));
            &&& after.0.stage == AudioStage::Items && after.0.scenes == got && after.0.head == st.head
            &&& after.1 matches AudioNextV::Ask(question, data) && question == "GetSceneItemList"@
                && data.text_at("sceneName"@) == Some(scene)
        }),
        ({
            let after = audio_step(AudioV { stage: AudioStage::Items, ..st }, HeardV::One(Ok(list)));
            &&& after.0.head == st.head && after.0.scenes == st.scenes
            &&& after.0.sources == sources_to_show(inputs_in(st.head), Some(list))
            &&& after.0.sources.len() > 0 ==> after.0.stage == AudioStage::Rows && after.1
                == AudioNextV::AskAll(sound_questions(after.0.sources))
            &&& after.0.sources.len() == 0 ==> (after.1 matches AudioNextV::Done(Ok(rows))
                && rows.len() == 0)
        }),
        ({
            let after = audio_step(AudioV { stage: AudioStage::Rows, ..st }, HeardV::Many(Ok(got)));
            after.1 == AudioNextV::Done(
                Ok(
                    rows_of(
                        st.sources,
                        st.sources.len() as int,
                        obs::data_at(st.head, 1),
                        got,
                        st.scenes,
                    ),
                ),
            )
        }),
{
}

/// Without a chosen scene all inputs are shown at once, and no scene is asked for.
pub proof fn law_without_a_scene_all_inputs_are_asked(st: AudioV, got: Seq<json::JsonV>, v: json::JsonV)
    requires
        st.stage == AudioStage::Head,
        st.scene is None,
        obs::data_at(got, 0) == Some(v),
    ensures
        ({
            let after = audio_step(st, HeardV::Many(Ok(got)));
            &&& after.0.sources == sources_to_show(v.items_at("inputs"@), None)
            &&& after.0.sources.len() > 0 ==> after.1 == AudioNextV::AskAll(
                sound_questions(after.0.sources),
            )
        }),
{
}

/// Where OBS does not tell the inputs, the items of the scene or the sound, the panel is told which
/// of them is missing, and what OBS said.
pub proof fn law_the_panel_is_told_what_is_missing(st: AudioV, e: Seq<char>)
    ensures
        ({
            let after = audio_step(AudioV { stage: AudioStage::Head, ..st }, HeardV::Many(Err(e)));
            after.1 matches AudioNextV::Done(Err(r)) && r.status == 500 && r.error.message
                == "Не удалось получить список источников"@ && r.error.detail == Some(e)
        }),
        ({
            let after = audio_step(AudioV { stage: AudioStage::Items, ..st }, HeardV::One(Err(e)));
            after.1 matches AudioNextV::Done(Err(r)) && r.status == 500 && r.error.message
                == "Не удалось получить источники выбранной сцены"@ && r.error.detail == Some(e)
        }),
        ({
            let after = audio_step(AudioV { stage: AudioStage::Rows, ..st }, HeardV::Many(Err(e)));
            after.1 matches AudioNextV::Done(Err(r)) && r.status == 500 && r.error.message
                == "Не удалось получить состояние аудио"@ && r.error.detail == Some(e)
        }),
{
}


/// The mixer first asks which inputs there are and which roles they have, in this order, and the
/// replies are read in the same order.
pub proof fn law_the_mixer_begins_with_inputs_and_roles(
    batch: Seq<BatchItem>,
    head: Seq<json::JsonV>,
    v: json::JsonV,
)
    requires
        asked_for_head(batch),
    ensures
        batch.len() == 2,
        batch[0].request_type@ == "GetInputList"@,
        batch[1].request_type@ == "GetSpecialInputs"@,
        obs::data_at(head, 0) == Some(v) ==> inputs_in(head) == v.items_at("inputs"@),
        obs::data_at(head, 0) is None ==> inputs_in(head).len() == 0,
{
    let all = obs::asked_all(batch);
    assert(all.len() == batch.len());
    assert(all[0] == obs::asked(batch[0]));
    assert(all[1] == obs::asked(batch[1]));
}

} // verus!
