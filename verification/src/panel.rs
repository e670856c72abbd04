//! The commands of the panel: what each asks of OBS, and what it refuses.
use vstd::prelude::*;
use crate::api;
use crate::api::{ApiError, Refusal};
use crate::audio;
use crate::donations;
use crate::donations::ObsReply;
use crate::json;
use crate::json::{Fields, Json};
use crate::oauth;
use crate::obs;
use crate::obs::BatchItem;
use crate::readiness;
use crate::text;

verus! {

/// A command that is accepted, or why it is refused.
pub type Accepted = Result<BatchItem, Refusal>;

/// What an accepted command asks, or why it is refused.
pub type AcceptedV = Result<(Seq<char>, json::JsonV), api::RefusalV>;

/// What an accepted command asks, or why it is refused.
pub open spec fn accepted_view(r: Accepted) -> AcceptedV {
    match r {
        Ok(item) => Ok(obs::asked(item)),
        Err(e) => Err(e@),
    }
}

/// What the panel answers to a reply of OBS: its data, or the complaint with what OBS said.
pub open spec fn concluded(complaint: Seq<char>, reply: donations::ReplyV) -> Result<
    json::JsonV,
    api::RefusalV,
> {
    match reply {
        Ok(v) => Ok(v),
        Err(e) => Err(api::failure(complaint, e)),
    }
}

/// What the panel answers to a reply of OBS.
pub fn conclude(complaint: &str, reply: ObsReply) -> (r: Result<Json, Refusal>)
    ensures
        api::answer_view(r) == concluded(complaint@, donations::reply_view(reply)),
{
    match reply {
        Ok(v) => Ok(v),
        Err(e) => Err(api::err(complaint, e.as_str())),
    }
}

// ---------------------------------------------------------------------------------------------
// Commands without parameters
// ---------------------------------------------------------------------------------------------
/// A command without parameters.
#[derive(Debug, Clone, Copy, PartialEq, Eq, Structural)]
pub enum SimpleCommand {
    Scenes,
    StreamStart,
    StreamStop,
    RecordStart,
    RecordStop,
    RecordPause,
    RecordResume,
    Stats,
    StudioTransition,
    VirtualCam,
    VirtualCamStart,
    VirtualCamStop,
    ReplayStart,
    ReplayStop,
    ReplaySave,
    Profiles,
    Collections,
    Transitions,
}

impl SimpleCommand {
    /// What is asked of OBS.
    pub open spec fn question(self) -> Seq<char> {
        match self {
            SimpleCommand::Scenes => "GetSceneList"@,
            SimpleCommand::StreamStart => "StartStream"@,
            SimpleCommand::StreamStop => "StopStream"@,
            SimpleCommand::RecordStart => "StartRecord"@,
            SimpleCommand::RecordStop => "StopRecord"@,
            SimpleCommand::RecordPause => "PauseRecord"@,
            SimpleCommand::RecordResume => "ResumeRecord"@,
            SimpleCommand::Stats => "GetStats"@,
            SimpleCommand::StudioTransition => "TriggerStudioModeTransition"@,
            SimpleCommand::VirtualCam => "GetVirtualCamStatus"@,
            SimpleCommand::VirtualCamStart => "StartVirtualCam"@,
            SimpleCommand::VirtualCamStop => "StopVirtualCam"@,
            SimpleCommand::ReplayStart => "StartReplayBuffer"@,
            SimpleCommand::ReplayStop => "StopReplayBuffer"@,
            SimpleCommand::ReplaySave => "SaveReplayBuffer"@,
            SimpleCommand::Profiles => "GetProfileList"@,
            SimpleCommand::Collections => "GetSceneCollectionList"@,
            SimpleCommand::Transitions => "GetSceneTransitionList"@,
        }
    }

    /// What is said when OBS refuses.
    pub open spec fn complaint(self) -> Seq<char> {
        match self {
            SimpleCommand::Scenes => "Не удалось получить сцены OBS"@,
            SimpleCommand::StreamStart => "Не удалось начать эфир"@,
            SimpleCommand::StreamStop => "Не удалось остановить эфир"@,
            SimpleCommand::RecordStart => "Не удалось начать запись"@,
            SimpleCommand::RecordStop => "Не удалось остановить запись"@,
            SimpleCommand::RecordPause => "Не удалось поставить запись на паузу"@,
            SimpleCommand::RecordResume => "Не удалось продолжить запись"@,
            SimpleCommand::Stats => "Не удалось получить статистику OBS"@,
            SimpleCommand::StudioTransition => "Не удалось выполнить переход"@,
            SimpleCommand::VirtualCam => "Не удалось узнать состояние виртуальной камеры"@,
            SimpleCommand::VirtualCamStart => "Не удалось включить виртуальную камеру"@,
            SimpleCommand::VirtualCamStop => "Не удалось выключить виртуальную камеру"@,
            SimpleCommand::ReplayStart => "Не удалось включить буфер повтора"@,
            SimpleCommand::ReplayStop => "Не удалось выключить буфер повтора"@,
            SimpleCommand::ReplaySave => "Не удалось сохранить повтор"@,
            SimpleCommand::Profiles => "Не удалось получить список профилей"@,
            SimpleCommand::Collections => "Не удалось получить список коллекций сцен"@,
            SimpleCommand::Transitions => "Не удалось получить список переходов"@,
        }
    }

    /// What is asked of OBS.
    pub fn request(&self) -> (r: BatchItem)
        ensures
            obs::asked(r) == (self.question(), obs::empty_object()),
    {
        let request_type = match self {
            SimpleCommand::Scenes => "GetSceneList",
            SimpleCommand::StreamStart => "StartStream",
            SimpleCommand::StreamStop => "StopStream",
            SimpleCommand::RecordStart => "StartRecord",
            SimpleCommand::RecordStop => "StopRecord",
            SimpleCommand::RecordPause => "PauseRecord",
            SimpleCommand::RecordResume => "ResumeRecord",
            SimpleCommand::Stats => "GetStats",
            SimpleCommand::StudioTransition => "TriggerStudioModeTransition",
            SimpleCommand::VirtualCam => "GetVirtualCamStatus",
            SimpleCommand::VirtualCamStart => "StartVirtualCam",
            SimpleCommand::VirtualCamStop => "StopVirtualCam",
            SimpleCommand::ReplayStart => "StartReplayBuffer",
            SimpleCommand::ReplayStop => "StopReplayBuffer",
            SimpleCommand::ReplaySave => "SaveReplayBuffer",
            SimpleCommand::Profiles => "GetProfileList",
            SimpleCommand::Collections => "GetSceneCollectionList",
            SimpleCommand::Transitions => "GetSceneTransitionList",
        };
        BatchItem::new(request_type, obs::no_fields())
    }

    /// What the panel answers.
    pub fn answer(&self, reply: ObsReply) -> (r: Result<Json, Refusal>)
        ensures
            api::answer_view(r) == concluded(self.complaint(), donations::reply_view(reply)),
    {
        let complaint = match self {
            SimpleCommand::Scenes => "Не удалось получить сцены OBS",
            SimpleCommand::StreamStart => "Не удалось начать эфир",
            SimpleCommand::StreamStop => "Не удалось остановить эфир",
            SimpleCommand::RecordStart => "Не удалось начать запись",
            SimpleCommand::RecordStop => "Не удалось остановить запись",
            SimpleCommand::RecordPause => "Не удалось поставить запись на паузу",
            SimpleCommand::RecordResume => "Не удалось продолжить запись",
            SimpleCommand::Stats => "Не удалось получить статистику OBS",
            SimpleCommand::StudioTransition => "Не удалось выполнить переход",
            SimpleCommand::VirtualCam => "Не удалось узнать состояние виртуальной камеры",
            SimpleCommand::VirtualCamStart => "Не удалось включить виртуальную камеру",
            SimpleCommand::VirtualCamStop => "Не удалось выключить виртуальную камеру",
            SimpleCommand::ReplayStart => "Не удалось включить буфер повтора",
            SimpleCommand::ReplayStop => "Не удалось выключить буфер повтора",
            SimpleCommand::ReplaySave => "Не удалось сохранить повтор",
            SimpleCommand::Profiles => "Не удалось получить список профилей",
            SimpleCommand::Collections => "Не удалось получить список коллекций сцен",
            SimpleCommand::Transitions => "Не удалось получить список переходов",
        };
        conclude(complaint, reply)
    }
}

// ---------------------------------------------------------------------------------------------
// Choosing something by its name
// ---------------------------------------------------------------------------------------------
/// A command that chooses something by its name.
#[derive(Debug, Clone, Copy, PartialEq, Eq, Structural)]
pub enum Choice {
    ProgramScene,
    PreviewScene,
    Profile,
    Collection,
    Transition,
}

impl Choice {
    /// What is asked of OBS.
    pub open spec fn question(self) -> Seq<char> {
        match self {
            Choice::ProgramScene => "SetCurrentProgramScene"@,
            Choice::PreviewScene => "SetCurrentPreviewScene"@,
            Choice::Profile => "SetCurrentProfile"@,
            Choice::Collection => "SetCurrentSceneCollection"@,
            Choice::Transition => "SetCurrentSceneTransition"@,
        }
    }

    /// The field that holds the name.
    pub open spec fn field(self) -> Seq<char> {
        match self {
            Choice::ProgramScene => "sceneName"@,
            Choice::PreviewScene => "sceneName"@,
            Choice::Profile => "profileName"@,
            Choice::Collection => "sceneCollectionName"@,
            Choice::Transition => "transitionName"@,
        }
    }

    /// What is said when OBS refuses.
    pub open spec fn complaint(self) -> Seq<char> {
        match self {
            Choice::ProgramScene => "Не удалось переключить сцену"@,
            Choice::PreviewScene => "Не удалось выбрать сцену предпросмотра"@,
            Choice::Profile => "Не удалось переключить профиль"@,
            Choice::Collection => "Не удалось переключить коллекцию сцен"@,
            Choice::Transition => "Не удалось выбрать переход"@,
        }
    }

    /// What is asked of OBS, or that the name is missing.
    pub open spec fn accepted(self, body: json::JsonV) -> AcceptedV {
        match body.text_at(self.field()) {
            Some(name) => Ok((self.question(), obs::one_text(self.field(), name))),
            None => Err(api::bad_request(self.field() + " обязателен"@)),
        }
    }

    /// What is asked of OBS, or that the name is missing.
    pub fn request(&self, body: &Json) -> (r: Accepted)
        ensures
            accepted_view(r) == self.accepted(body@),
    {
        let (request_type, field) = match self {
            Choice::ProgramScene => ("SetCurrentProgramScene", "sceneName"),
            Choice::PreviewScene => ("SetCurrentPreviewScene", "sceneName"),
            Choice::Profile => ("SetCurrentProfile", "profileName"),
            Choice::Collection => ("SetCurrentSceneCollection", "sceneCollectionName"),
            Choice::Transition => ("SetCurrentSceneTransition", "transitionName"),
        };
        match body.get_str(field) {
            Some(name) => Ok(BatchItem::new(request_type, obs::with_text(field, name))),
            None => {
                let message = text::join2(field, " обязателен");
                Err(api::bad(message.as_str()))
            },
        }
    }

    /// What the panel answers.
    pub fn answer(&self, reply: ObsReply) -> (r: Result<Json, Refusal>)
        ensures
            api::answer_view(r) == concluded(self.complaint(), donations::reply_view(reply)),
    {
        let complaint = match self {
            Choice::ProgramScene => "Не удалось переключить сцену",
            Choice::PreviewScene => "Не удалось выбрать сцену предпросмотра",
            Choice::Profile => "Не удалось переключить профиль",
            Choice::Collection => "Не удалось переключить коллекцию сцен",
            Choice::Transition => "Не удалось выбрать переход",
        };
        conclude(complaint, reply)
    }
}

// ---------------------------------------------------------------------------------------------
// Commands with parameters
// ---------------------------------------------------------------------------------------------
/// A command with parameters of its own.
#[derive(Debug, Clone, Copy, PartialEq, Eq, Structural)]
pub enum Errand {
    Raw,
    SceneCreate,
    Sources,
    InputKinds,
    Settings,
    SettingsSet,
    Visibility,
    Mute,
    Volume,
    StudioSet,
    WidgetRefresh,
    WidgetMute,
    WidgetVolume,
}

impl Errand {
    /// What is said when OBS refuses.
    pub open spec fn complaint(self) -> Seq<char> {
        match self {
            Errand::Raw => "Команда OBS не выполнена"@,
            Errand::SceneCreate => "Не удалось создать сцену"@,
            Errand::Sources => "Не удалось получить источники сцены"@,
            Errand::InputKinds => "Не удалось получить типы источников OBS"@,
            Errand::Settings => "Не удалось получить настройки источника"@,
            Errand::SettingsSet => "Не удалось сохранить настройки источника"@,
            Errand::Visibility => "Не удалось изменить видимость источника"@,
            Errand::Mute => "Не удалось изменить mute"@,
            Errand::Volume => "Не удалось изменить громкость"@,
            Errand::StudioSet => "Не удалось переключить Studio Mode"@,
            Errand::WidgetRefresh => "Не удалось обновить виджет"@,
            Errand::WidgetMute => "Не удалось изменить mute DonationAlerts"@,
            Errand::WidgetVolume => "Не удалось изменить громкость DonationAlerts"@,
        }
    }

    /// What the panel answers.
    pub fn answer(&self, reply: ObsReply) -> (r: Result<Json, Refusal>)
        ensures
            api::answer_view(r) == concluded(self.complaint(), donations::reply_view(reply)),
    {
        let complaint = match self {
            Errand::Raw => "Команда OBS не выполнена",
            Errand::SceneCreate => "Не удалось создать сцену",
            Errand::Sources => "Не удалось получить источники сцены",
            Errand::InputKinds => "Не удалось получить типы источников OBS",
            Errand::Settings => "Не удалось получить настройки источника",
            Errand::SettingsSet => "Не удалось сохранить настройки источника",
            Errand::Visibility => "Не удалось изменить видимость источника",
            Errand::Mute => "Не удалось изменить mute",
            Errand::Volume => "Не удалось изменить громкость",
            Errand::StudioSet => "Не удалось переключить Studio Mode",
            Errand::WidgetRefresh => "Не удалось обновить виджет",
            Errand::WidgetMute => "Не удалось изменить mute DonationAlerts",
            Errand::WidgetVolume => "Не удалось изменить громкость DonationAlerts",
        };
        conclude(complaint, reply)
    }
}

// ---------------------------------------------------------------------------------------------
// The raw endpoint
// ---------------------------------------------------------------------------------------------
/// The requests that may be passed to OBS as they are: two that only read.
pub open spec fn is_allowed(request_type: Seq<char>) -> bool {
    request_type == "GetStreamStatus"@ || request_type == "GetRecordStatus"@
}

/// Whether a request may be passed to OBS as it is.
pub fn raw_obs_allowed(request_type: &str) -> (r: bool)
    ensures
        r == is_allowed(request_type@),
{
    text::same(request_type, "GetStreamStatus") || text::same(request_type, "GetRecordStatus")
}

/// What to say to a request that may not be passed on.
pub open spec fn not_allowed() -> Seq<char> {
    "Эта OBS-команда не разрешена через raw endpoint. Используйте специализированную API-ручку Remote Stream Control."@
}

/// What a raw request asks, or why it is refused.
pub open spec fn raw_request(body: json::JsonV) -> AcceptedV {
    match body.text_at("requestType"@) {
        Some(rt) => if is_allowed(rt) {
            Ok(
                (
                    rt,
                    match body.field("requestData"@) {
                        Some(data) => data,
                        None => obs::empty_object(),
                    },
                ),
            )
        } else {
            Err(
                api::RefusalV {
                    status: 403,
                    error: api::ErrorV { message: not_allowed(), detail: None },
                },
            )
        },
        None => Err(api::bad_request("requestType обязателен"@)),
    }
}

/// Takes a raw request.
pub fn obs_request(body: &Json) -> (r: Accepted)
    ensures
        accepted_view(r) == raw_request(body@),
{
    let rt = match body.get_str("requestType") {
        Some(rt) => rt,
        None => {
            return Err(api::bad("requestType обязателен"));
        },
    };
    if !raw_obs_allowed(rt) {
        return Err(
            Refusal {
                status: 403,
                error: ApiError::new(
                    "Эта OBS-команда не разрешена через raw endpoint. Используйте специализированную API-ручку Remote Stream Control.",
                ),
            },
        );
    }
    let data = match body.get("requestData") {
        Some(data) => data.copy(),
        None => obs::no_fields(),
    };
    Ok(BatchItem::new(rt, data))
}

// ---------------------------------------------------------------------------------------------
// Scenes and sources
// ---------------------------------------------------------------------------------------------
/// What a command about a named thing asks; a blank name is refused.
pub open spec fn named_command(
    body: json::JsonV,
    field: Seq<char>,
    missing: Seq<char>,
    request_type: Seq<char>,
    key: Seq<char>,
) -> AcceptedV {
    match oauth::required(body, field) {
        Some(name) => Ok((request_type, obs::one_text(key, name))),
        None => Err(api::bad_request(missing)),
    }
}

fn ask_named(body: &Json, field: &str, missing: &str, request_type: &str, key: &str) -> (r: Accepted)
    ensures
        accepted_view(r) == named_command(body@, field@, missing@, request_type@, key@),
{
    match oauth::required_trimmed(body, field, missing) {
        Ok(name) => Ok(BatchItem::new(request_type, obs::with_text(key, name.as_str()))),
        Err(e) => Err(api::bad(e.as_str())),
    }
}

/// Creates a scene.
pub fn obs_scene_create(body: &Json) -> (r: Accepted)
    ensures
        accepted_view(r) == named_command(
            body@,
            "sceneName"@,
            "Название сцены обязательно"@,
            "CreateScene"@,
            "sceneName"@,
        ),
{
    ask_named(body, "sceneName", "Название сцены обязательно", "CreateScene", "sceneName")
}

/// Lists the items of a scene.
pub fn obs_sources(scene: Option<&str>) -> (r: Accepted)
    ensures
        accepted_view(r) == (match scene {
            Some(s) => Ok(("GetSceneItemList"@, obs::one_text("sceneName"@, s@))),
            None => Err(api::bad_request("scene обязателен"@)),
        }),
{
    match scene {
        Some(s) => Ok(BatchItem::new("GetSceneItemList", obs::with_text("sceneName", s))),
        None => Err(api::bad("scene обязателен")),
    }
}

/// Lists the kinds of inputs.
pub fn obs_input_kinds() -> (r: BatchItem)
    ensures
        obs::asked(r) == (
            "GetInputKindList"@,
            json::JsonV::Object(map!["unversioned"@ => json::JsonV::Bool(false)]),
        ),
{
    BatchItem::new(
        "GetInputKindList",
        Fields::new().put("unversioned", Json::Bool(false)).json(),
    )
}

/// Opens the properties of a source in the window of OBS.
pub fn obs_source_properties(body: &Json) -> (r: Accepted)
    ensures
        accepted_view(r) == named_command(
            body@,
            "sourceName"@,
            "Название источника обязательно"@,
            "OpenInputPropertiesDialog"@,
            "inputName"@,
        ),
{
    ask_named(
        body,
        "sourceName",
        "Название источника обязательно",
        "OpenInputPropertiesDialog",
        "inputName",
    )
}

/// What is answered once the properties are open.
pub fn properties_answer(source: &str, reply: ObsReply) -> (r: Result<Json, Refusal>)
    ensures
        api::answer_view(r) == (match donations::reply_view(reply) {
            Ok(v) => Ok(
                json::JsonV::Object(
                    map!["inputName"@ => json::JsonV::Str(source@), "obs"@ => v],
                ),
            ),
            Err(e) => Err(api::failure("OBS не смог открыть окно свойств источника"@, e)),
        }),
{
    match reply {
        Ok(v) => Ok(Fields::new().put("inputName", Json::text(source)).put("obs", v).json()),
        Err(e) => Err(api::err("OBS не смог открыть окно свойств источника", e.as_str())),
    }
}

/// Reads the settings of a source.
pub fn obs_source_settings(source: Option<&str>) -> (r: Accepted)
    ensures
        accepted_view(r) == (match audio::chosen_scene(text::opt_str(source)) {
            Some(s) => Ok(("GetInputSettings"@, obs::one_text("inputName"@, s))),
            None => Err(api::bad_request("source обязателен"@)),
        }),
{
    match audio::scene_filter(source) {
        Some(s) => Ok(
            BatchItem::new("GetInputSettings", obs::with_text("inputName", s.as_str())),
        ),
        None => Err(api::bad("source обязателен")),
    }
}

/// What a change of settings asks.
pub open spec fn settings_command(body: json::JsonV) -> AcceptedV {
    match oauth::required(body, "sourceName"@) {
        Some(source) => match body.field("inputSettings"@) {
            Some(settings) => if settings is Object {
                Ok(
                    (
                        "SetInputSettings"@,
                        json::JsonV::Object(
                            map![
                                "inputName"@ => json::JsonV::Str(source),
                                "inputSettings"@ => settings,
                                "overlay"@ => json::JsonV::Bool(true),
                            ],
                        ),
                    ),
                )
            } else {
                Err(api::bad_request("inputSettings должен быть объектом"@))
            },
            None => Err(api::bad_request("inputSettings должен быть объектом"@)),
        },
        None => Err(api::bad_request("Название источника обязательно"@)),
    }
}

/// Changes settings of a source; those not named stay.
pub fn obs_source_settings_set(body: &Json) -> (r: Accepted)
    ensures
        accepted_view(r) == settings_command(body@),
{
    let source = match oauth::required_trimmed(
        body,
        "sourceName",
        "Название источника обязательно",
    ) {
        Ok(s) => s,
        Err(e) => {
            return Err(api::bad(e.as_str()));
        },
    };
    if let Some(settings) = body.get("inputSettings") {
        if settings.is_object() {
            let data = Fields::new().put("inputName", Json::text(source.as_str())).put(
                "inputSettings",
                settings.copy(),
            ).put("overlay", Json::Bool(true)).json();
            return Ok(BatchItem::new("SetInputSettings", data));
        }
    }
    Err(api::bad("inputSettings должен быть объектом"))
}

/// How the visibility of an item is to be changed.
pub enum Visibility {
    /// The item is known: ask this.
    Ready(BatchItem),
    /// The item is known by the name of its source: look it up in the scene first.
    Lookup { scene: String, source: String, enabled: bool },
}

/// How the visibility of an item is to be changed.
#[verifier::ext_equal]
pub enum VisibilityV {
    Ready(Seq<char>, json::JsonV),
    Lookup(Seq<char>, Seq<char>, bool),
}

impl View for Visibility {
    type V = VisibilityV;

    open spec fn view(&self) -> VisibilityV {
        match *self {
            Visibility::Ready(item) => VisibilityV::Ready(
                obs::asked(item).0,
                obs::asked(item).1,
            ),
            Visibility::Lookup { scene, source, enabled } => VisibilityV::Lookup(
                scene@,
                source@,
                enabled,
            ),
        }
    }
}

/// The data by which an item is shown or hidden.
pub open spec fn visibility_data(scene: Seq<char>, id: i64, enabled: bool) -> json::JsonV {
    json::JsonV::Object(
        map![
            "sceneName"@ => json::JsonV::Str(scene),
            "sceneItemId"@ => json::JsonV::Int(id),
            "sceneItemEnabled"@ => json::JsonV::Bool(enabled),
        ],
    )
}

/// What a change of visibility asks.
pub open spec fn visibility_command(body: json::JsonV) -> Result<VisibilityV, api::RefusalV> {
    match (body.text_at("sceneName"@), body.bool_at("enabled"@)) {
        (None, _) => Err(api::bad_request("sceneName обязателен"@)),
        (Some(_), None) => Err(api::bad_request("enabled обязателен"@)),
        (Some(scene), Some(enabled)) => match body.int_at("sceneItemId"@) {
            Some(id) => Ok(
                VisibilityV::Ready(
                    "SetSceneItemEnabled"@,
                    visibility_data(scene, id, enabled),
                ),
            ),
            None => match body.text_at("sourceName"@) {
                Some(source) => Ok(VisibilityV::Lookup(scene, source, enabled)),
                None => Err(api::bad_request("sourceName или sceneItemId обязателен"@)),
            },
        },
    }
}

fn set_visibility(scene: &str, id: i64, enabled: bool) -> (r: BatchItem)
    ensures
        obs::asked(r) == ("SetSceneItemEnabled"@, visibility_data(scene@, id, enabled)),
{
    BatchItem::new(
        "SetSceneItemEnabled",
        Fields::new().put("sceneName", Json::text(scene)).put("sceneItemId", Json::Int(id)).put(
            "sceneItemEnabled",
            Json::Bool(enabled),
        ).json(),
    )
}

/// What a change of visibility is, or why it is refused.
pub open spec fn visibility_view(r: Result<Visibility, Refusal>) -> Result<
    VisibilityV,
    api::RefusalV,
> {
    match r {
        Ok(v) => Ok(v@),
        Err(e) => Err(e@),
    }
}

/// Shows or hides a source in a scene.
pub fn obs_source_visibility(body: &Json) -> (r: Result<Visibility, Refusal>)
    ensures
        visibility_view(r) == visibility_command(body@),
{
    let scene = match body.get_str("sceneName") {
        Some(s) => s,
        None => {
            return Err(api::bad("sceneName обязателен"));
        },
    };
    let enabled = match body.get_bool("enabled") {
        Some(b) => b,
        None => {
            return Err(api::bad("enabled обязателен"));
        },
    };
    if let Some(id) = body.get_int("sceneItemId") {
        return Ok(Visibility::Ready(set_visibility(scene, id, enabled)));
    }
    match body.get_text("sourceName") {
        Some(source) => Ok(Visibility::Lookup { scene: scene.to_owned(), source, enabled }),
        None => Err(api::bad("sourceName или sceneItemId обязателен")),
    }
}

/// The number of a source in a scene, or that it is not there.
pub fn find_scene_item_id(list: &Json, scene: &str, source: &str) -> (r: Result<i64, String>)
    ensures
        match r {
            Ok(id) => donations::item_id(list@, source@) == Some(id),
            Err(e) => donations::item_id(list@, source@) is None && e@ == source@
                + " отсутствует в "@ + scene@,
        },
{
    match donations::find_item_id(list, source) {
        Some(id) => Ok(id),
        None => Err(text::join3(source, " отсутствует в ", scene)),
    }
}

/// Shows or hides a source that had to be looked up.
pub fn visibility_found(scene: &str, source: &str, enabled: bool, reply: &ObsReply) -> (r: Accepted)
    ensures
        accepted_view(r) == (match donations::reply_view(*reply) {
            Ok(list) => match donations::item_id(list, source@) {
                Some(id) => Ok(("SetSceneItemEnabled"@, visibility_data(scene@, id, enabled))),
                None => Err(
                    api::failure("Источник не найден"@, source@ + " отсутствует в "@ + scene@),
                ),
            },
            Err(e) => Err(api::failure("Источник не найден"@, e)),
        }),
{
    match reply {
        Ok(list) => match find_scene_item_id(list, scene, source) {
            Ok(id) => Ok(set_visibility(scene, id, enabled)),
            Err(e) => Err(api::err("Источник не найден", e.as_str())),
        },
        Err(e) => Err(api::err("Источник не найден", e.as_str())),
    }
}

// ---------------------------------------------------------------------------------------------
// Sound
// ---------------------------------------------------------------------------------------------
/// What muting asks.
pub open spec fn mute_command(body: json::JsonV) -> AcceptedV {
    match (body.text_at("inputName"@), body.bool_at("muted"@)) {
        (None, _) => Err(api::bad_request("inputName обязателен"@)),
        (Some(_), None) => Err(api::bad_request("muted обязателен"@)),
        (Some(name), Some(muted)) => Ok(
            (
                "SetInputMute"@,
                json::JsonV::Object(
                    map![
                        "inputName"@ => json::JsonV::Str(name),
                        "inputMuted"@ => json::JsonV::Bool(muted),
                    ],
                ),
            ),
        ),
    }
}

/// Mutes an input, or ends that.
pub fn obs_audio_mute(body: &Json) -> (r: Accepted)
    ensures
        accepted_view(r) == mute_command(body@),
{
    let name = match body.get_str("inputName") {
        Some(s) => s,
        None => {
            return Err(api::bad("inputName обязателен"));
        },
    };
    match body.get_bool("muted") {
        Some(muted) => Ok(
            BatchItem::new(
                "SetInputMute",
                Fields::new().put("inputName", Json::text(name)).put(
                    "inputMuted",
                    Json::Bool(muted),
                ).json(),
            ),
        ),
        None => Err(api::bad("muted обязателен")),
    }
}

/// A volume that is asked for: of which input, and how many decibels.
pub struct VolumeRequest {
    pub name: String,
    pub db: Json,
}

/// What a change of volume asks, or why it is refused.
pub open spec fn volume_command(body: json::JsonV) -> Result<
    (Seq<char>, json::JsonV),
    api::RefusalV,
> {
    match body.text_at("inputName"@) {
        Some(name) => volume_command_of(name, body),
        None => Err(api::bad_request("inputName обязателен"@)),
    }
}

/// What a change of the volume of one input asks, or why it is refused.
pub open spec fn volume_command_of(name: Seq<char>, body: json::JsonV) -> Result<
    (Seq<char>, json::JsonV),
    api::RefusalV,
> {
    match audio::number_at(body, "volumeDb"@) {
        Some(db) => Ok((name, db)),
        None => Err(api::bad_request("volumeDb обязателен"@)),
    }
}

/// What is asked, or why it is refused.
pub open spec fn volume_view(r: Result<VolumeRequest, Refusal>) -> Result<
    (Seq<char>, json::JsonV),
    api::RefusalV,
> {
    match r {
        Ok(v) => Ok((v.name@, v.db@)),
        Err(e) => Err(e@),
    }
}

/// Changes the volume of one input.
pub fn volume_of(name: String, body: &Json) -> (r: Result<VolumeRequest, Refusal>)
    ensures
        volume_view(r) == volume_command_of(name@, body@),
{
    if let Some(db) = body.get("volumeDb") {
        match db {
            Json::Int(_) | Json::Large(_) | Json::Real(_) => {
                return Ok(VolumeRequest { name, db: db.copy() });
            },
            _ => {},
        }
    }
    Err(api::bad("volumeDb обязателен"))
}

/// Changes the volume of an input.
pub fn obs_audio_volume(body: &Json) -> (r: Result<VolumeRequest, Refusal>)
    ensures
        volume_view(r) == volume_command(body@),
{
    match body.get_text("inputName") {
        Some(name) => volume_of(name, body),
        None => Err(api::bad("inputName обязателен")),
    }
}

/// What is asked of OBS to change a volume, with the multiplier.
pub fn set_volume(name: &str, mul: Json) -> (r: BatchItem)
    ensures
        obs::asked(r) == (
            "SetInputVolume"@,
            json::JsonV::Object(
                map!["inputName"@ => json::JsonV::Str(name@), "inputVolumeMul"@ => mul@],
            ),
        ),
{
    BatchItem::new(
        "SetInputVolume",
        Fields::new().put("inputName", Json::text(name)).put("inputVolumeMul", mul).json(),
    )
}

// ---------------------------------------------------------------------------------------------
// The replay buffer, the picture and Studio Mode
// ---------------------------------------------------------------------------------------------
/// What is said of a replay buffer that is switched off in the settings. That is no failure: to
/// alarm the owner with an error would be wrong.
pub open spec fn replay_is_off() -> json::JsonV {
    json::JsonV::Object(
        map![
            "available"@ => json::JsonV::Bool(false),
            "outputActive"@ => json::JsonV::Bool(false),
            "message"@ => json::JsonV::Str(
                "Буфер повтора выключен в настройках OBS у актёра (Настройки → Вывод → Буфер повтора)."@,
            ),
        ],
    )
}

/// What is answered about the replay buffer.
pub open spec fn replay_answer(reply: donations::ReplyV) -> Result<json::JsonV, api::RefusalV> {
    match reply {
        Ok(v) => Ok(
            json::JsonV::Object(
                map![
                    "available"@ => json::JsonV::Bool(true),
                    "outputActive"@ => match v.field("outputActive"@) {
                        Some(active) => active,
                        None => json::JsonV::Bool(false),
                    },
                ],
            ),
        ),
        Err(e) => if text::holds_text(e, "not available"@) {
            Ok(replay_is_off())
        } else {
            Err(api::failure("Не удалось узнать состояние повтора"@, e))
        },
    }
}

/// Answers about the replay buffer.
pub fn obs_replay(reply: &ObsReply) -> (r: Result<Json, Refusal>)
    ensures
        api::answer_view(r) == replay_answer(donations::reply_view(*reply)),
{
    match reply {
        Ok(v) => {
            let active = match v.get("outputActive") {
                Some(active) => active.copy(),
                None => Json::Bool(false),
            };
            Ok(
                Fields::new().put("available", Json::Bool(true)).put(
                    "outputActive",
                    active,
                ).json(),
            )
        },
        Err(e) => if text::contains(e.as_str(), "not available") {
            Ok(
                Fields::new().put("available", Json::Bool(false)).put(
                    "outputActive",
                    Json::Bool(false),
                ).put(
                    "message",
                    Json::text(
                        "Буфер повтора выключен в настройках OBS у актёра (Настройки → Вывод → Буфер повтора).",
                    ),
                ).json(),
            )
        } else {
            Err(api::err("Не удалось узнать состояние повтора", e.as_str()))
        },
    }
}

/// The width of a picture: what is asked for, within limits.
pub open spec fn picture_width(asked: Option<Seq<char>>) -> i64 {
    let wanted = match asked {
        Some(s) => match text::whole_number(s) {
            Some(n) => n,
            None => 480,
        },
        None => 480,
    };
    if wanted < 96 {
        96
    } else if wanted > 1920 {
        1920
    } else {
        wanted
    }
}

/// The width of a picture: what is asked for, within limits.
pub fn preview_width(asked: Option<&str>) -> (r: i64)
    ensures
        r == picture_width(text::opt_str(asked)),
        96 <= r <= 1920,
{
    let wanted: i64 = match asked {
        Some(s) => match text::parse_whole_number(s) {
            Some(n) => n,
            None => 480,
        },
        None => 480,
    };
    if wanted < 96 {
        96
    } else if wanted > 1920 {
        1920
    } else {
        wanted
    }
}

/// The data by which a picture of a scene is asked for.
pub open spec fn picture_data(scene: Seq<char>, width: i64) -> json::JsonV {
    json::JsonV::Object(
        map![
            "sourceName"@ => json::JsonV::Str(scene),
            "imageFormat"@ => json::JsonV::Str("jpg"@),
            "imageWidth"@ => json::JsonV::Int(width),
            "imageCompressionQuality"@ => json::JsonV::Int(55),
        ],
    )
}

/// A picture that is asked for: of which scene, and how.
pub struct PictureRequest {
    pub scene: String,
    pub item: BatchItem,
}

/// Asks for a picture of the scene on air.
pub fn obs_preview(current: &ObsReply, width: i64) -> (r: Result<PictureRequest, Refusal>)
    ensures
        match (donations::reply_view(*current), r) {
            (Err(e), Err(refusal)) => refusal@ == api::failure(
                "Не удалось узнать текущую сцену"@,
                e,
            ),
            (Ok(v), Ok(p)) => readiness::scene_name_in(v, "currentProgramSceneName"@) == Some(
                p.scene@,
            ) && obs::asked(p.item) == ("GetSourceScreenshot"@, picture_data(p.scene@, width)),
            (Ok(v), Err(refusal)) => readiness::scene_name_in(v, "currentProgramSceneName"@)
                is None && refusal@ == api::bad_request("OBS не сообщил имя текущей сцены"@),
            (Err(_), Ok(_)) => false,
        },
{
    let v = match current {
        Ok(v) => v,
        Err(e) => {
            return Err(api::err("Не удалось узнать текущую сцену", e.as_str()));
        },
    };
    match readiness::scene_name(v, "currentProgramSceneName") {
        Some(scene) => {
            let data = Fields::new().put("sourceName", Json::text(scene.as_str())).put(
                "imageFormat",
                Json::text("jpg"),
            ).put("imageWidth", Json::Int(width)).put(
                "imageCompressionQuality",
                Json::Int(55),
            ).json();
            Ok(PictureRequest { scene, item: BatchItem::new("GetSourceScreenshot", data) })
        },
        None => Err(api::bad("OBS не сообщил имя текущей сцены")),
    }
}

/// A value with one more field, if it is an object.
pub open spec fn with_field(v: json::JsonV, key: Seq<char>, value: json::JsonV) -> json::JsonV {
    match v {
        json::JsonV::Object(m) => json::JsonV::Object(m.insert(key, value)),
        _ => v,
    }
}

/// A value with one more field, if it is an object.
pub fn add_field(v: Json, key: &str, value: Json) -> (r: Json)
    ensures
        r@ == with_field(v@, key@, value@),
{
    match v {
        Json::Object(pairs) => Fields { pairs }.put(key, value).json(),
        other => other,
    }
}

/// What is answered with the picture: the picture, and the scene that it shows.
pub fn preview_answer(scene: &str, reply: ObsReply) -> (r: Result<Json, Refusal>)
    ensures
        api::answer_view(r) == (match donations::reply_view(reply) {
            Ok(v) => Ok(with_field(v, "sceneName"@, json::JsonV::Str(scene@))),
            Err(e) => Err(api::failure("Не удалось получить кадр"@, e)),
        }),
{
    match reply {
        Ok(v) => Ok(add_field(v, "sceneName", Json::text(scene))),
        Err(e) => Err(api::err("Не удалось получить кадр", e.as_str())),
    }
}

/// Whether Studio Mode is on.
pub fn studio_enabled(reply: &ObsReply) -> (r: Result<bool, Refusal>)
    ensures
        (match r {
            Ok(b) => Ok(b),
            Err(e) => Err(e@),
        }) == (match donations::reply_view(*reply) {
            Ok(v) => Ok(v.bool_at("studioModeEnabled"@) == Some(true)),
            Err(e) => Err(api::failure("Не удалось узнать состояние Studio Mode"@, e)),
        }),
{
    match reply {
        Ok(v) => Ok(
            match v.get_bool("studioModeEnabled") {
                Some(b) => b,
                None => false,
            },
        ),
        Err(e) => Err(api::err("Не удалось узнать состояние Studio Mode", e.as_str())),
    }
}

/// The scene in the preview, if OBS told one.
pub open spec fn preview_scene(reply: Option<donations::ReplyV>) -> json::JsonV {
    match reply {
        Some(Ok(v)) => match readiness::scene_name_in(v, "currentPreviewSceneName"@) {
            Some(name) => json::JsonV::Str(name),
            None => json::JsonV::Null,
        },
        _ => json::JsonV::Null,
    }
}

/// Answers about Studio Mode. There is a scene in the preview only while it is on; then its reply is
/// given.
pub fn obs_studio(enabled: bool, preview: Option<ObsReply>) -> (r: Json)
    ensures
        r@ == json::JsonV::Object(
            map![
                "enabled"@ => json::JsonV::Bool(enabled),
                "previewScene"@ => preview_scene(
                    match preview {
                        Some(reply) => Some(donations::reply_view(reply)),
                        None => None,
                    },
                ),
            ],
        ),
{
    let scene = match preview {
        Some(Ok(v)) => match readiness::scene_name(&v, "currentPreviewSceneName") {
            Some(name) => Json::Str(name),
            None => Json::Null,
        },
        _ => Json::Null,
    };
    Fields::new().put("enabled", Json::Bool(enabled)).put("previewScene", scene).json()
}

/// Switches Studio Mode on or off.
pub fn obs_studio_set(body: &Json) -> (r: Accepted)
    ensures
        accepted_view(r) == (match body@.bool_at("enabled"@) {
            Some(enabled) => Ok(
                (
                    "SetStudioModeEnabled"@,
                    json::JsonV::Object(
                        map!["studioModeEnabled"@ => json::JsonV::Bool(enabled)],
                    ),
                ),
            ),
            None => Err(api::bad_request("enabled обязателен"@)),
        }),
{
    match body.get_bool("enabled") {
        Some(enabled) => Ok(
            BatchItem::new(
                "SetStudioModeEnabled",
                Fields::new().put("studioModeEnabled", Json::Bool(enabled)).json(),
            ),
        ),
        None => Err(api::bad("enabled обязателен")),
    }
}

// ---------------------------------------------------------------------------------------------
// Starting OBS
// ---------------------------------------------------------------------------------------------
/// What is answered to the command to start OBS. After a start the pause before the next attempt to
/// connect is cut short.
pub fn obs_launch(started: &Result<bool, String>) -> (r: Result<Json, Refusal>)
    ensures
        api::answer_view(r) == (match *started {
            Ok(true) => Ok(
                json::JsonV::Object(
                    map![
                        "started"@ => json::JsonV::Bool(true),
                        "message"@ => json::JsonV::Str(
                            "OBS запускается. Связь появится через несколько секунд."@,
                        ),
                    ],
                ),
            ),
            Ok(false) => Ok(
                json::JsonV::Object(
                    map![
                        "started"@ => json::JsonV::Bool(false),
                        "message"@ => json::JsonV::Str("OBS уже запущен."@),
                    ],
                ),
            ),
            Err(e) => Err(api::failure("Не удалось запустить OBS"@, e@)),
        }),
{
    match started {
        Ok(true) => Ok(
            Fields::new().put("started", Json::Bool(true)).put(
                "message",
                Json::text("OBS запускается. Связь появится через несколько секунд."),
            ).json(),
        ),
        Ok(false) => Ok(
            Fields::new().put("started", Json::Bool(false)).put(
                "message",
                Json::text("OBS уже запущен."),
            ).json(),
        ),
        Err(e) => Err(api::err("Не удалось запустить OBS", e.as_str())),
    }
}

// ---------------------------------------------------------------------------------------------
// Laws
// ---------------------------------------------------------------------------------------------
/// Nothing but the two reading requests passes through the raw endpoint; all else is refused before
/// OBS hears of it.
pub proof fn law_raw_endpoint_only_reads(body: json::JsonV)
    ensures
        raw_request(body) is Ok ==> {
            let rt = raw_request(body)->Ok_0.0;
            rt == "GetStreamStatus"@ || rt == "GetRecordStatus"@
        },
        body.text_at("requestType"@) is Some && !is_allowed(body.text_at("requestType"@)->0)
            ==> raw_request(body) is Err && raw_request(body)->Err_0.status == 403,
{
}

/// A picture has between 96 and 1920 columns, whatever is asked for.
pub proof fn law_picture_width_is_bounded(asked: Option<Seq<char>>)
    ensures
        96 <= picture_width(asked) <= 1920,
        asked is Some && text::whole_number(asked->0) is Some && 96 <= text::whole_number(
            asked->0,
        )->0 <= 1920 ==> picture_width(asked) == text::whole_number(asked->0)->0,
{
}

/// Every command without parameters asks OBS for the request that obs-websocket has for it, and no
/// two commands ask for the same.
pub proof fn law_each_command_asks_its_own_request(a: SimpleCommand, b: SimpleCommand)
    ensures
        SimpleCommand::Scenes.question() == "GetSceneList"@,
        SimpleCommand::StreamStart.question() == "StartStream"@,
        SimpleCommand::StreamStop.question() == "StopStream"@,
        SimpleCommand::RecordStart.question() == "StartRecord"@,
        SimpleCommand::RecordStop.question() == "StopRecord"@,
        SimpleCommand::RecordPause.question() == "PauseRecord"@,
        SimpleCommand::RecordResume.question() == "ResumeRecord"@,
        SimpleCommand::Stats.question() == "GetStats"@,
        SimpleCommand::StudioTransition.question() == "TriggerStudioModeTransition"@,
        SimpleCommand::VirtualCam.question() == "GetVirtualCamStatus"@,
        SimpleCommand::VirtualCamStart.question() == "StartVirtualCam"@,
        SimpleCommand::VirtualCamStop.question() == "StopVirtualCam"@,
        SimpleCommand::ReplayStart.question() == "StartReplayBuffer"@,
        SimpleCommand::ReplayStop.question() == "StopReplayBuffer"@,
        SimpleCommand::ReplaySave.question() == "SaveReplayBuffer"@,
        SimpleCommand::Profiles.question() == "GetProfileList"@,
        SimpleCommand::Collections.question() == "GetSceneCollectionList"@,
        SimpleCommand::Transitions.question() == "GetSceneTransitionList"@,
        a.question() == b.question() ==> a == b,
{
    reveal_strlit("GetSceneList");
    reveal_strlit("StartStream");
    reveal_strlit("StopStream");
    reveal_strlit("StartRecord");
    reveal_strlit("StopRecord");
    reveal_strlit("PauseRecord");
    reveal_strlit("ResumeRecord");
    reveal_strlit("GetStats");
    reveal_strlit("TriggerStudioModeTransition");
    reveal_strlit("GetVirtualCamStatus");
    reveal_strlit("StartVirtualCam");
    reveal_strlit("StopVirtualCam");
    reveal_strlit("StartReplayBuffer");
    reveal_strlit("StopReplayBuffer");
    reveal_strlit("SaveReplayBuffer");
    reveal_strlit("GetProfileList");
    reveal_strlit("GetSceneCollectionList");
    reveal_strlit("GetSceneTransitionList");
    assert("GetSceneList"@.len() == 12);
    assert("StartStream"@.len() == 11);
    assert("StopStream"@.len() == 10);
    assert("StartRecord"@.len() == 11);
    assert("StopRecord"@.len() == 10);
    assert("PauseRecord"@.len() == 11);
    assert("ResumeRecord"@.len() == 12);
    assert("GetStats"@.len() == 8);
    assert("TriggerStudioModeTransition"@.len() == 27);
    assert("GetVirtualCamStatus"@.len() == 19);
    assert("StartVirtualCam"@.len() == 15);
    assert("StopVirtualCam"@.len() == 14);
    assert("StartReplayBuffer"@.len() == 17);
    assert("StopReplayBuffer"@.len() == 16);
    assert("SaveReplayBuffer"@.len() == 16);
    assert("GetProfileList"@.len() == 14);
    assert("GetSceneCollectionList"@.len() == 22);
    assert("GetSceneTransitionList"@.len() == 22);
    assert("GetSceneList"@[0] != "ResumeRecord"@[0]);
    assert("StartStream"@[5] != "StartRecord"@[5]);
    assert("StartStream"@[0] != "PauseRecord"@[0]);
    assert("StartRecord"@[0] != "PauseRecord"@[0]);
    assert("StopStream"@[4] != "StopRecord"@[4]);
    assert("StopVirtualCam"@[0] != "GetProfileList"@[0]);
    assert("StopReplayBuffer"@[1] != "SaveReplayBuffer"@[1]);
    assert("GetSceneCollectionList"@[8] != "GetSceneTransitionList"@[8]);
}

/// What is said when OBS refuses names the thing and what was to be done with it: the operator
/// hears nothing else.
pub proof fn law_complaints_name_what_failed()
    ensures
        text::holds_text(SimpleCommand::StreamStart.complaint(), "начать эфир"@),
        text::holds_text(SimpleCommand::StreamStop.complaint(), "остановить эфир"@),
        text::holds_text(SimpleCommand::RecordStart.complaint(), "начать запись"@),
        text::holds_text(SimpleCommand::RecordStop.complaint(), "остановить запись"@),
        text::holds_text(SimpleCommand::RecordPause.complaint(), "запись на паузу"@),
        text::holds_text(SimpleCommand::RecordResume.complaint(), "продолжить запись"@),
        text::holds_text(SimpleCommand::VirtualCamStart.complaint(), "включить виртуальную"@),
        text::holds_text(SimpleCommand::VirtualCamStop.complaint(), "выключить виртуальную"@),
        text::holds_text(SimpleCommand::ReplayStart.complaint(), "включить буфер"@),
        text::holds_text(SimpleCommand::ReplayStop.complaint(), "выключить буфер"@),
        text::holds_text(SimpleCommand::ReplaySave.complaint(), "сохранить повтор"@),
        text::holds_text(Choice::ProgramScene.complaint(), "переключить сцену"@),
        text::holds_text(Choice::PreviewScene.complaint(), "предпросмотра"@),
        text::holds_text(Choice::Profile.complaint(), "профиль"@),
        text::holds_text(Choice::Collection.complaint(), "коллекцию"@),
        text::holds_text(Choice::Transition.complaint(), "переход"@),
        text::holds_text(Errand::SceneCreate.complaint(), "создать сцену"@),
        text::holds_text(Errand::Settings.complaint(), "получить настройки"@),
        text::holds_text(Errand::SettingsSet.complaint(), "сохранить настройки"@),
        text::holds_text(Errand::Visibility.complaint(), "видимость"@),
        text::holds_text(Errand::Mute.complaint(), "mute"@),
        text::holds_text(Errand::Volume.complaint(), "громкость"@),
        text::holds_text(Errand::StudioSet.complaint(), "Studio Mode"@),
        text::holds_text(Errand::WidgetMute.complaint(), "mute DonationAlerts"@),
        text::holds_text(Errand::WidgetVolume.complaint(), "громкость DonationAlerts"@),
{
    reveal_strlit("Не удалось начать эфир");
    reveal_strlit("начать эфир");
    text::lemma_holds_at("Не удалось начать эфир"@, "начать эфир"@, 11);
    reveal_strlit("Не удалось остановить эфир");
    reveal_strlit("остановить эфир");
    text::lemma_holds_at("Не удалось остановить эфир"@, "остановить эфир"@, 11);
    reveal_strlit("Не удалось начать запись");
    reveal_strlit("начать запись");
    text::lemma_holds_at("Не удалось начать запись"@, "начать запись"@, 11);
    reveal_strlit("Не удалось остановить запись");
    reveal_strlit("остановить запись");
    text::lemma_holds_at("Не удалось остановить запись"@, "остановить запись"@, 11);
    reveal_strlit("Не удалось поставить запись на паузу");
    reveal_strlit("запись на паузу");
    text::lemma_holds_at("Не удалось поставить запись на паузу"@, "запись на паузу"@, 21);
    reveal_strlit("Не удалось продолжить запись");
    reveal_strlit("продолжить запись");
    text::lemma_holds_at("Не удалось продолжить запись"@, "продолжить запись"@, 11);
    reveal_strlit("Не удалось включить виртуальную камеру");
    reveal_strlit("включить виртуальную");
    text::lemma_holds_at("Не удалось включить виртуальную камеру"@, "включить виртуальную"@, 11);
    reveal_strlit("Не удалось выключить виртуальную камеру");
    reveal_strlit("выключить виртуальную");
    text::lemma_holds_at("Не удалось выключить виртуальную камеру"@, "выключить виртуальную"@, 11);
    reveal_strlit("Не удалось включить буфер повтора");
    reveal_strlit("включить буфер");
    text::lemma_holds_at("Не удалось включить буфер повтора"@, "включить буфер"@, 11);
    reveal_strlit("Не удалось выключить буфер повтора");
    reveal_strlit("выключить буфер");
    text::lemma_holds_at("Не удалось выключить буфер повтора"@, "выключить буфер"@, 11);
    reveal_strlit("Не удалось сохранить повтор");
    reveal_strlit("сохранить повтор");
    text::lemma_holds_at("Не удалось сохранить повтор"@, "сохранить повтор"@, 11);
    reveal_strlit("Не удалось переключить сцену");
    reveal_strlit("переключить сцену");
    text::lemma_holds_at("Не удалось переключить сцену"@, "переключить сцену"@, 11);
    reveal_strlit("Не удалось выбрать сцену предпросмотра");
    reveal_strlit("предпросмотра");
    text::lemma_holds_at("Не удалось выбрать сцену предпросмотра"@, "предпросмотра"@, 25);
    reveal_strlit("Не удалось переключить профиль");
    reveal_strlit("профиль");
    text::lemma_holds_at("Не удалось переключить профиль"@, "профиль"@, 23);
    reveal_strlit("Не удалось переключить коллекцию сцен");
    reveal_strlit("коллекцию");
    text::lemma_holds_at("Не удалось переключить коллекцию сцен"@, "коллекцию"@, 23);
    reveal_strlit("Не удалось выбрать переход");
    reveal_strlit("переход");
    text::lemma_holds_at("Не удалось выбрать переход"@, "переход"@, 19);
    reveal_strlit("Не удалось создать сцену");
    reveal_strlit("создать сцену");
    text::lemma_holds_at("Не удалось создать сцену"@, "создать сцену"@, 11);
    reveal_strlit("Не удалось получить настройки источника");
    reveal_strlit("получить настройки");
    text::lemma_holds_at("Не удалось получить настройки источника"@, "получить настройки"@, 11);
    reveal_strlit("Не удалось сохранить настройки источника");
    reveal_strlit("сохранить настройки");
    text::lemma_holds_at("Не удалось сохранить настройки источника"@, "сохранить настройки"@, 11);
    reveal_strlit("Не удалось изменить видимость источника");
    reveal_strlit("видимость");
    text::lemma_holds_at("Не удалось изменить видимость источника"@, "видимость"@, 20);
    reveal_strlit("Не удалось изменить mute");
    reveal_strlit("mute");
    text::lemma_holds_at("Не удалось изменить mute"@, "mute"@, 20);
    reveal_strlit("Не удалось изменить громкость");
    reveal_strlit("громкость");
    text::lemma_holds_at("Не удалось изменить громкость"@, "громкость"@, 20);
    reveal_strlit("Не удалось переключить Studio Mode");
    reveal_strlit("Studio Mode");
    text::lemma_holds_at("Не удалось переключить Studio Mode"@, "Studio Mode"@, 23);
    reveal_strlit("Не удалось изменить mute DonationAlerts");
    reveal_strlit("mute DonationAlerts");
    text::lemma_holds_at("Не удалось изменить mute DonationAlerts"@, "mute DonationAlerts"@, 20);
    reveal_strlit("Не удалось изменить громкость DonationAlerts");
    reveal_strlit("громкость DonationAlerts");
    text::lemma_holds_at(
        "Не удалось изменить громкость DonationAlerts"@,
        "громкость DonationAlerts"@,
        20,
    );
}

/// What OBS replies reaches the panel as it is, and what OBS says against a command reaches it as
/// the detail of an error of the server, under the complaint.
pub proof fn law_replies_reach_the_panel(
    complaint: Seq<char>,
    v: json::JsonV,
    e: Seq<char>,
)
    ensures
        concluded(complaint, Ok(v)) == Ok::<json::JsonV, api::RefusalV>(v),
        concluded(complaint, Err(e)) is Err,
        concluded(complaint, Err(e))->Err_0.status == 500,
        concluded(complaint, Err(e))->Err_0.error.message == complaint,
        concluded(complaint, Err(e))->Err_0.error.detail == Some(e),
{
}

/// Choosing a scene, a profile, a collection or a transition hands OBS exactly the name that the
/// panel sent, under the field that obs-websocket has for it, and nothing besides. Without a name
/// nothing is asked.
pub proof fn law_a_choice_hands_on_the_name(c: Choice, body: json::JsonV, name: Seq<char>)
    ensures
        body.text_at("sceneName"@) == Some(name) ==> {
            &&& Choice::ProgramScene.accepted(body) matches Ok(r) && r.0
                == "SetCurrentProgramScene"@ && r.1.text_at("sceneName"@) == Some(name)
            &&& Choice::PreviewScene.accepted(body) matches Ok(r) && r.0
                == "SetCurrentPreviewScene"@ && r.1.text_at("sceneName"@) == Some(name)
        },
        body.text_at("profileName"@) == Some(name) ==> (Choice::Profile.accepted(body) matches Ok(r)
            && r.0 == "SetCurrentProfile"@ && r.1.text_at("profileName"@) == Some(name)),
        body.text_at("sceneCollectionName"@) == Some(name) ==> (Choice::Collection.accepted(
            body,
        ) matches Ok(r) && r.0 == "SetCurrentSceneCollection"@ && r.1.text_at(
            "sceneCollectionName"@,
        ) == Some(name)),
        body.text_at("transitionName"@) == Some(name) ==> (Choice::Transition.accepted(
            body,
        ) matches Ok(r) && r.0 == "SetCurrentSceneTransition"@ && r.1.text_at("transitionName"@)
            == Some(name)),
        body.text_at("sceneName"@) is None ==> Choice::ProgramScene.accepted(body) is Err
            && Choice::PreviewScene.accepted(body) is Err,
        body.text_at("profileName"@) is None ==> Choice::Profile.accepted(body) is Err,
        body.text_at("sceneCollectionName"@) is None ==> Choice::Collection.accepted(body) is Err,
        body.text_at("transitionName"@) is None ==> Choice::Transition.accepted(body) is Err,
        c.accepted(body) matches Ok(r) ==> r.1 is Object && r.1->Object_0.dom().len() == 1,
        c.accepted(body) matches Err(e) ==> e.status == 400,
{
    if c.accepted(body) is Ok {
        let r = c.accepted(body)->Ok_0;
        assert(r.1->Object_0.dom() =~= Set::empty().insert(c.field()));
    }
}

/// A reading request goes to OBS with the data that came with it; without data, with none.
pub proof fn law_raw_data_is_passed_on(body: json::JsonV, data: json::JsonV)
    requires
        body.text_at("requestType"@) == Some("GetStreamStatus"@) || body.text_at("requestType"@)
            == Some("GetRecordStatus"@),
    ensures
        raw_request(body) is Ok,
        Some(raw_request(body)->Ok_0.0) == body.text_at("requestType"@),
        body.field("requestData"@) == Some(data) ==> raw_request(body)->Ok_0.1 == data,
        body.field("requestData"@) is None ==> raw_request(body)->Ok_0.1 == json::JsonV::Object(
            Map::empty(),
        ),
{
}

/// Without the name of a request the raw endpoint asks nothing.
pub proof fn law_a_nameless_raw_request_is_refused(body: json::JsonV)
    requires
        body.text_at("requestType"@) is None,
    ensures
        raw_request(body) matches Err(e) && e.status == 400,
{
}

/// A command about a named thing carries the name without the blanks around it, in the field asked
/// for and in no other; a blank name is refused.
pub proof fn law_a_named_command_carries_the_name(
    body: json::JsonV,
    field: Seq<char>,
    missing: Seq<char>,
    request_type: Seq<char>,
    key: Seq<char>,
    name: Seq<char>,
)
    requires
        body.text_at(field) == Some(name),
    ensures
        text::trimmed(name).len() > 0 ==> (named_command(
            body,
            field,
            missing,
            request_type,
            key,
        ) matches Ok(r) && r.0 == request_type && r.1.text_at(key) == Some(text::trimmed(name))
            && forall|k: Seq<char>| #[trigger] r.1.field(k) is Some ==> k == key),
        text::trimmed(name).len() == 0 ==> (named_command(
            body,
            field,
            missing,
            request_type,
            key,
        ) matches Err(e) && e.status == 400 && e.error.message == missing),
{
}

/// A change of settings reaches OBS with the source that was named and the settings that were sent,
/// and leaves the other settings of the source as they are.
pub proof fn law_settings_are_handed_on(body: json::JsonV, name: Seq<char>, settings: json::JsonV)
    requires
        body.text_at("sourceName"@) == Some(name),
        text::trimmed(name).len() > 0,
        body.field("inputSettings"@) == Some(settings),
    ensures
        settings is Object ==> (settings_command(body) matches Ok(r) && r.0 == "SetInputSettings"@
            && r.1.text_at("inputName"@) == Some(text::trimmed(name)) && r.1.field(
            "inputSettings"@,
        ) == Some(settings) && r.1.bool_at("overlay"@) == Some(true)),
        !(settings is Object) ==> settings_command(body) is Err,
{
    reveal_strlit("inputName");
    reveal_strlit("inputSettings");
    reveal_strlit("overlay");
    assert("inputName"@.len() == 9);
    assert("inputSettings"@.len() == 13);
    assert("overlay"@.len() == 7);
}

/// Showing or hiding an item keeps the scene, the number of the item and the wish as they were
/// asked for: what is to be shown is never hidden instead. A source that is known by its name is
/// looked up with the same scene and the same wish.
pub proof fn law_visibility_keeps_the_wish(
    body: json::JsonV,
    scene: Seq<char>,
    enabled: bool,
    id: i64,
    source: Seq<char>,
)
    requires
        body.text_at("sceneName"@) == Some(scene),
        body.bool_at("enabled"@) == Some(enabled),
    ensures
        body.int_at("sceneItemId"@) == Some(id) ==> (visibility_command(body) matches Ok(
            VisibilityV::Ready(q, data),
        ) && q == "SetSceneItemEnabled"@ && data.text_at("sceneName"@) == Some(scene)
            && data.int_at("sceneItemId"@) == Some(id) && data.bool_at("sceneItemEnabled"@) == Some(
            enabled,
        )),
        body.int_at("sceneItemId"@) is None && body.text_at("sourceName"@) == Some(source) ==> (
        visibility_command(body) matches Ok(VisibilityV::Lookup(s, n, e)) && s == scene && n
            == source && e == enabled),
        body.int_at("sceneItemId"@) is None && body.text_at("sourceName"@) is None
            ==> visibility_command(body) is Err,
{
    lemma_visibility_data(scene, id, enabled);
}

/// The request that shows or hides an item says which one, where, and which of the two.
pub proof fn lemma_visibility_data(scene: Seq<char>, id: i64, enabled: bool)
    ensures
        visibility_data(scene, id, enabled).text_at("sceneName"@) == Some(scene),
        visibility_data(scene, id, enabled).int_at("sceneItemId"@) == Some(id),
        visibility_data(scene, id, enabled).bool_at("sceneItemEnabled"@) == Some(enabled),
{
    reveal_strlit("sceneName");
    reveal_strlit("sceneItemId");
    reveal_strlit("sceneItemEnabled");
    assert("sceneName"@.len() == 9);
    assert("sceneItemId"@.len() == 11);
    assert("sceneItemEnabled"@.len() == 16);
}

/// Visibility is not changed on a request that does not say of which scene, or which way.
pub proof fn law_unclear_visibility_is_refused(body: json::JsonV)
    ensures
        body.text_at("sceneName"@) is None || body.bool_at("enabled"@) is None
            ==> visibility_command(body) is Err,
        visibility_command(body) matches Err(e) ==> e.status == 400,
{
}

/// Muting does what was asked of the input that was named: a request to mute never unmutes.
pub proof fn law_mute_keeps_the_wish(body: json::JsonV, name: Seq<char>, muted: bool)
    ensures
        body.text_at("inputName"@) == Some(name) && body.bool_at("muted"@) == Some(muted) ==> (
        mute_command(body) matches Ok(r) && r.0 == "SetInputMute"@ && r.1.text_at("inputName"@)
            == Some(name) && r.1.bool_at("inputMuted"@) == Some(muted)),
        body.text_at("inputName"@) is None || body.bool_at("muted"@) is None ==> (mute_command(
            body,
        ) matches Err(e) && e.status == 400),
{
    reveal_strlit("inputName");
    reveal_strlit("inputMuted");
    assert("inputName"@.len() == 9);
    assert("inputMuted"@.len() == 10);
}

/// A volume is set for the input that was named, to the number that was sent; anything but a number
/// is refused.
pub proof fn law_volume_keeps_the_wish(body: json::JsonV, name: Seq<char>, db: json::JsonV)
    ensures
        body.text_at("inputName"@) == Some(name) && body.field("volumeDb"@) == Some(db) && (db is Int
            || db is Large || db is Real) ==> volume_command(body) == Ok::<
            (Seq<char>, json::JsonV),
            api::RefusalV,
        >((name, db)),
        body.field("volumeDb"@) == Some(db) && !(db is Int || db is Large || db is Real)
            ==> volume_command(body) is Err,
        body.field("volumeDb"@) is None ==> volume_command(body) is Err,
        body.text_at("inputName"@) is None ==> volume_command(body) is Err,
{
}

/// A replay buffer that OBS knows of is available, and active as OBS says. One that is switched off
/// in the settings is no failure: it is told as not available. Any other trouble is a failure.
pub proof fn law_a_missing_replay_buffer_is_no_failure(v: json::JsonV, e: Seq<char>, on: bool)
    ensures
        replay_answer(Ok(v)) matches Ok(r) && r.bool_at("available"@) == Some(true),
        v.bool_at("outputActive"@) == Some(on) ==> (replay_answer(Ok(v)) matches Ok(r) && r.bool_at(
            "outputActive"@,
        ) == Some(on)),
        v.field("outputActive"@) is None ==> (replay_answer(Ok(v)) matches Ok(r) && r.bool_at(
            "outputActive"@,
        ) == Some(false)),
        text::holds_text(e, "not available"@) ==> (replay_answer(Err(e)) matches Ok(r) && r.bool_at(
            "available"@,
        ) == Some(false) && r.bool_at("outputActive"@) == Some(false) && r.text_at("message"@)
            is Some),
        !text::holds_text(e, "not available"@) ==> (replay_answer(Err(e)) matches Err(r)
            && r.error.detail == Some(e)),
{
    reveal_strlit("available");
    reveal_strlit("outputActive");
    reveal_strlit("message");
    assert("available"@.len() == 9);
    assert("outputActive"@.len() == 12);
    assert("message"@.len() == 7);
}

/// Without a width, or with one that is no number, a picture has 480 columns; a width below the
/// limits gives the least one, a width above them the largest.
pub proof fn law_picture_width_has_a_default(asked: Seq<char>, n: i64)
    ensures
        picture_width(None) == 480,
        text::whole_number(asked) is None ==> picture_width(Some(asked)) == 480,
        text::whole_number(asked) == Some(n) && n < 96 ==> picture_width(Some(asked)) == 96,
        text::whole_number(asked) == Some(n) && n > 1920 ==> picture_width(Some(asked)) == 1920,
{
}

/// The picture that is asked for is one of the scene that was named, in the width that was asked.
pub proof fn law_the_picture_shows_the_scene(scene: Seq<char>, width: i64)
    ensures
        picture_data(scene, width).text_at("sourceName"@) == Some(scene),
        picture_data(scene, width).int_at("imageWidth"@) == Some(width),
        picture_data(scene, width).text_at("imageFormat"@) == Some("jpg"@),
        picture_data(scene, width).int_at("imageCompressionQuality"@) == Some(55i64),
{
    reveal_strlit("sourceName");
    reveal_strlit("imageFormat");
    reveal_strlit("imageWidth");
    reveal_strlit("imageCompressionQuality");
    assert("sourceName"@.len() == 10);
    assert("imageFormat"@.len() == 11);
    assert("imageWidth"@.len() == 10);
    assert("imageCompressionQuality"@.len() == 23);
    assert("sourceName"@[0] != "imageWidth"@[0]);
}

/// A field that is added to an object is there, and the others stay; what is no object stays as it
/// is.
pub proof fn law_adding_a_field_keeps_the_others(
    m: Map<Seq<char>, json::JsonV>,
    key: Seq<char>,
    value: json::JsonV,
    other: Seq<char>,
)
    ensures
        with_field(json::JsonV::Object(m), key, value).field(key) == Some(value),
        other != key ==> with_field(json::JsonV::Object(m), key, value).field(other)
            == json::JsonV::Object(m).field(other),
{
}

/// The preview of Studio Mode is the scene that OBS names; without a reply, or without a name in it,
/// there is none.
pub proof fn law_the_preview_is_what_obs_names(v: json::JsonV, name: Seq<char>, e: Seq<char>)
    ensures
        v.text_at("currentPreviewSceneName"@) == Some(name) ==> preview_scene(Some(Ok(v)))
            == json::JsonV::Str(name),
        v.field("currentPreviewSceneName"@) is None && v.text_at("sceneName"@) == Some(name)
            ==> preview_scene(Some(Ok(v))) == json::JsonV::Str(name),
        v.field("currentPreviewSceneName"@) is None && v.text_at("sceneName"@) is None
            ==> preview_scene(Some(Ok(v))) is Null,
        preview_scene(Some(Err(e))) is Null,
        preview_scene(None) is Null,
{
}

} // verus!
