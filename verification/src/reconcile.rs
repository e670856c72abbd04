//! Bringing OBS into the state in which donations are seen and heard.
//!
//! The work is a conversation: each step says what to ask of OBS, and takes the reply. Whoever runs
//! it sends the requests. The steps are: an overlay scene, a browser source with the widget and the
//! right settings, that source inside the overlay scene, its sound switched on, and the overlay on
//! top of every scene of the user. At the end OBS is read back.
use vstd::prelude::*;
use crate::config::DonationAlertsConfig;
use crate::donations;
use crate::donations::{DonationVerification, ObsReply};
use crate::json;
use crate::json::{Fields, Json};
use crate::obs;
use crate::obs::BatchItem;
use crate::text;

verus! {

/// What is being waited for.
#[derive(Debug, Clone, Copy, PartialEq, Eq, Structural)]
pub enum Stage {
    /// The list of scenes.
    ListScenes,
    /// The overlay scene being created.
    CreateScene,
    /// The size of the picture.
    VideoSettings,
    /// The list of inputs; the size of the picture is known.
    ListInputs { width: i64, height: i64 },
    /// The source being created or set.
    ApplySettings,
    /// The items of the overlay scene.
    FindItem,
    /// The source being put into the overlay scene.
    CreateItem,
    /// The source being shown there.
    EnableItem,
    /// The sound being restored.
    RestoreSound,
    /// The list of scenes once more.
    ListUserScenes,
    /// The items of a scene of the user.
    SceneItems,
    /// The overlay being put into that scene.
    AddOverlay,
    /// The items of that scene once more; the overlay has an id there.
    RaiseList { id: i64 },
    /// The overlay being raised to the top.
    RaiseSet,
    /// All was sent; OBS is to be read back.
    Done,
    /// A step failed.
    Failed,
}

/// How far the work has come.
#[derive(Debug)]
pub struct Reconcile {
    pub stage: Stage,
    /// Whether the source was created.
    pub created: bool,
    /// Whether it had to be put into the overlay scene.
    pub restored: bool,
    /// The scenes of the user.
    pub scenes: Vec<String>,
    /// Which of them is at work.
    pub at: usize,
    /// How many of them got the overlay.
    pub added: usize,
    /// How many of them had it.
    pub present: usize,
}

/// How far the work has come.
#[verifier::ext_equal]
pub struct ReconcileV {
    pub stage: Stage,
    pub created: bool,
    pub restored: bool,
    pub scenes: Seq<Seq<char>>,
    pub at: nat,
    pub added: nat,
    pub present: nat,
}

impl View for Reconcile {
    type V = ReconcileV;

    open spec fn view(&self) -> ReconcileV {
        ReconcileV {
            stage: self.stage,
            created: self.created,
            restored: self.restored,
            scenes: text::views(self.scenes@),
            at: self.at as nat,
            added: self.added as nat,
            present: self.present as nat,
        }
    }
}

impl ReconcileV {
    /// Every scene before the one at work got the overlay or had it; once the one at work has it,
    /// it counts too.
    pub open spec fn wf(self) -> bool {
        match self.stage {
            Stage::SceneItems | Stage::AddOverlay => self.at < self.scenes.len() && self.added
                + self.present == self.at,
            Stage::RaiseList { .. } | Stage::RaiseSet => self.at < self.scenes.len() && self.added
                + self.present == self.at + 1,
            Stage::Done => self.added + self.present == self.scenes.len(),
            Stage::Failed => true,
            _ => self.scenes.len() == 0 && self.at == 0 && self.added == 0 && self.present == 0,
        }
    }

    /// Whether the work is over.
    pub open spec fn over(self) -> bool {
        self.stage is Done || self.stage is Failed
    }
}

/// What is to be done next.
pub enum Action {
    /// Send this request.
    Request { request_type: &'static str, data: Json },
    /// Switch the sound of the source on: unmute it, set its volume and its monitoring. Whether
    /// that worked shows when OBS is read back.
    RestoreSound,
    /// Read OBS back.
    Verify,
    /// Give up, for this reason.
    Fail(String),
}

/// What is to be done next.
#[verifier::ext_equal]
pub enum ActionV {
    Request(Seq<char>, json::JsonV),
    RestoreSound,
    Verify,
    Fail(Seq<char>),
}

impl View for Action {
    type V = ActionV;

    open spec fn view(&self) -> ActionV {
        match *self {
            Action::Request { request_type, data } => ActionV::Request(request_type@, data@),
            Action::RestoreSound => ActionV::RestoreSound,
            Action::Verify => ActionV::Verify,
            Action::Fail(e) => ActionV::Fail(e@),
        }
    }
}

// ---------------------------------------------------------------------------------------------
// Requests
// ---------------------------------------------------------------------------------------------
/// A request without data.
pub open spec fn plain(request_type: Seq<char>) -> ActionV {
    ActionV::Request(request_type, obs::empty_object())
}

/// A request about a scene.
pub open spec fn about_scene(request_type: Seq<char>, scene: Seq<char>) -> ActionV {
    ActionV::Request(
        request_type,
        json::JsonV::Object(map!["sceneName"@ => json::JsonV::Str(scene)]),
    )
}

/// The settings of the source. Without `reroute_audio` the sound of an alert would bypass the
/// mixer, and the audience would not hear it.
pub open spec fn source_settings(
    cfg: DonationAlertsConfig,
    url: Seq<char>,
    width: i64,
    height: i64,
) -> json::JsonV {
    json::JsonV::Object(
        map![
            "url"@ => json::JsonV::Str(url),
            "width"@ => json::JsonV::Int(width),
            "height"@ => json::JsonV::Int(height),
            "reroute_audio"@ => json::JsonV::Bool(cfg.reroute_audio),
            "shutdown"@ => json::JsonV::Bool(false),
            "restart_when_active"@ => json::JsonV::Bool(false),
        ],
    )
}

/// The request that sets an existing source.
pub open spec fn set_source(input: Seq<char>, settings: json::JsonV) -> ActionV {
    ActionV::Request(
        "SetInputSettings"@,
        json::JsonV::Object(
            map![
                "inputName"@ => json::JsonV::Str(input),
                "inputSettings"@ => settings,
                "overlay"@ => json::JsonV::Bool(true),
            ],
        ),
    )
}

/// The request that creates the source in the overlay scene.
pub open spec fn create_source(
    scene: Seq<char>,
    input: Seq<char>,
    settings: json::JsonV,
) -> ActionV {
    ActionV::Request(
        "CreateInput"@,
        json::JsonV::Object(
            map![
                "sceneName"@ => json::JsonV::Str(scene),
                "inputName"@ => json::JsonV::Str(input),
                "inputKind"@ => json::JsonV::Str("browser_source"@),
                "inputSettings"@ => settings,
                "sceneItemEnabled"@ => json::JsonV::Bool(true),
            ],
        ),
    )
}

/// The request that puts a source into a scene.
pub open spec fn add_to_scene(scene: Seq<char>, source: Seq<char>) -> ActionV {
    ActionV::Request(
        "CreateSceneItem"@,
        json::JsonV::Object(
            map![
                "sceneName"@ => json::JsonV::Str(scene),
                "sourceName"@ => json::JsonV::Str(source),
                "sceneItemEnabled"@ => json::JsonV::Bool(true),
            ],
        ),
    )
}

/// The request that shows an item of a scene.
pub open spec fn show_item(scene: Seq<char>, id: i64) -> ActionV {
    ActionV::Request(
        "SetSceneItemEnabled"@,
        json::JsonV::Object(
            map![
                "sceneName"@ => json::JsonV::Str(scene),
                "sceneItemId"@ => json::JsonV::Int(id),
                "sceneItemEnabled"@ => json::JsonV::Bool(true),
            ],
        ),
    )
}

/// The request that moves an item of a scene to a layer.
pub open spec fn move_item(scene: Seq<char>, id: i64, index: i64) -> ActionV {
    ActionV::Request(
        "SetSceneItemIndex"@,
        json::JsonV::Object(
            map![
                "sceneName"@ => json::JsonV::Str(scene),
                "sceneItemId"@ => json::JsonV::Int(id),
                "sceneItemIndex"@ => json::JsonV::Int(index),
            ],
        ),
    )
}

fn request_plain(request_type: &'static str) -> (r: Action)
    ensures
        r@ == plain(request_type@),
{
    Action::Request { request_type, data: obs::no_fields() }
}

fn request_about_scene(request_type: &'static str, scene: &str) -> (r: Action)
    ensures
        r@ == about_scene(request_type@, scene@),
{
    Action::Request {
        request_type,
        data: Fields::new().put("sceneName", Json::text(scene)).json(),
    }
}

fn request_add_to_scene(scene: &str, source: &str) -> (r: Action)
    ensures
        r@ == add_to_scene(scene@, source@),
{
    Action::Request {
        request_type: "CreateSceneItem",
        data: Fields::new().put("sceneName", Json::text(scene)).put(
            "sourceName",
            Json::text(source),
        ).put("sceneItemEnabled", Json::Bool(true)).json(),
    }
}

fn request_show_item(scene: &str, id: i64) -> (r: Action)
    ensures
        r@ == show_item(scene@, id),
{
    Action::Request {
        request_type: "SetSceneItemEnabled",
        data: Fields::new().put("sceneName", Json::text(scene)).put(
            "sceneItemId",
            Json::Int(id),
        ).put("sceneItemEnabled", Json::Bool(true)).json(),
    }
}

fn request_move_item(scene: &str, id: i64, index: i64) -> (r: Action)
    ensures
        r@ == move_item(scene@, id, index),
{
    Action::Request {
        request_type: "SetSceneItemIndex",
        data: Fields::new().put("sceneName", Json::text(scene)).put(
            "sceneItemId",
            Json::Int(id),
        ).put("sceneItemIndex", Json::Int(index)).json(),
    }
}

fn make_settings(cfg: &DonationAlertsConfig, url: &str, width: i64, height: i64) -> (r: Json)
    ensures
        r@ == source_settings(*cfg, url@, width, height),
{
    Fields::new().put("url", Json::text(url)).put("width", Json::Int(width)).put(
        "height",
        Json::Int(height),
    ).put("reroute_audio", Json::Bool(cfg.reroute_audio)).put("shutdown", Json::Bool(false)).put(
        "restart_when_active",
        Json::Bool(false),
    ).json()
}

fn request_set_source(input: &str, settings: Json) -> (r: Action)
    ensures
        r@ == set_source(input@, settings@),
{
    Action::Request {
        request_type: "SetInputSettings",
        data: Fields::new().put("inputName", Json::text(input)).put("inputSettings", settings).put(
            "overlay",
            Json::Bool(true),
        ).json(),
    }
}

fn request_create_source(scene: &str, input: &str, settings: Json) -> (r: Action)
    ensures
        r@ == create_source(scene@, input@, settings@),
{
    Action::Request {
        request_type: "CreateInput",
        data: Fields::new().put("sceneName", Json::text(scene)).put(
            "inputName",
            Json::text(input),
        ).put("inputKind", Json::text("browser_source")).put("inputSettings", settings).put(
            "sceneItemEnabled",
            Json::Bool(true),
        ).json(),
    }
}

// ---------------------------------------------------------------------------------------------
// What follows a reply
// ---------------------------------------------------------------------------------------------
/// The next state and action.
pub type StepV = (ReconcileV, ActionV);

/// The same progress at another stage.
pub open spec fn at_stage(p: ReconcileV, stage: Stage) -> ReconcileV {
    ReconcileV { stage, ..p }
}

/// Giving up.
pub open spec fn give_up(p: ReconcileV, reason: Seq<char>) -> StepV {
    (at_stage(p, Stage::Failed), ActionV::Fail(reason))
}

/// After the first list of scenes: the overlay scene is created unless it exists.
pub open spec fn after_scenes(
    p: ReconcileV,
    cfg: DonationAlertsConfig,
    list: json::JsonV,
) -> StepV {
    if json::first_with_text(list.items_at("scenes"@), "sceneName"@, cfg.overlay_scene_name@)
        is Some {
        (at_stage(p, Stage::VideoSettings), plain("GetVideoSettings"@))
    } else {
        (at_stage(p, Stage::CreateScene), about_scene("CreateScene"@, cfg.overlay_scene_name@))
    }
}

/// A whole number of a reply, or a default where it is missing or the request failed.
pub open spec fn number_or(reply: donations::ReplyV, key: Seq<char>, default: i64) -> i64 {
    match reply {
        Ok(v) => match v.int_at(key) {
            Some(n) => n,
            None => default,
        },
        Err(_) => default,
    }
}

/// What to say when the name of the source is taken.
pub open spec fn name_taken(input: Seq<char>) -> Seq<char> {
    "Имя "@ + input
        + " уже занято источником другого типа. Переименуйте его в OBS или измените input_name в config/host.json."@
}

/// After the list of inputs: the source is set if it exists, created if not. A source of another
/// kind under its name is left alone.
pub open spec fn after_inputs(
    p: ReconcileV,
    cfg: DonationAlertsConfig,
    url: Seq<char>,
    width: i64,
    height: i64,
    list: json::JsonV,
) -> StepV {
    let settings = source_settings(cfg, url, width, height);
    match json::first_with_text(list.items_at("inputs"@), "inputName"@, cfg.input_name@) {
        Some(input) => if input.text_at("inputKind"@) == Some("browser_source"@) {
            (
                ReconcileV { stage: Stage::ApplySettings, created: false, ..p },
                set_source(cfg.input_name@, settings),
            )
        } else {
            give_up(p, name_taken(cfg.input_name@))
        },
        None => (
            ReconcileV { stage: Stage::ApplySettings, created: true, ..p },
            create_source(cfg.overlay_scene_name@, cfg.input_name@, settings),
        ),
    }
}

/// After the items of the overlay scene: the source is shown if it lies there, put there if not.
/// That a source exists says nothing about where it lies.
pub open spec fn after_overlay_items(
    p: ReconcileV,
    cfg: DonationAlertsConfig,
    items: json::JsonV,
) -> StepV {
    match donations::item_id(items, cfg.input_name@) {
        Some(id) => (
            ReconcileV { stage: Stage::EnableItem, restored: false, ..p },
            show_item(cfg.overlay_scene_name@, id),
        ),
        None => (
            at_stage(p, Stage::CreateItem),
            add_to_scene(cfg.overlay_scene_name@, cfg.input_name@),
        ),
    }
}

/// What to say when a created item has no id.
pub open spec fn no_item_id() -> Seq<char> {
    "OBS не вернул id созданного элемента сцены"@
}

/// After the source was put into the overlay scene: it is shown.
pub open spec fn after_item_created(
    p: ReconcileV,
    cfg: DonationAlertsConfig,
    created: json::JsonV,
) -> StepV {
    match created.int_at("sceneItemId"@) {
        Some(id) => (
            ReconcileV { stage: Stage::EnableItem, restored: true, ..p },
            show_item(cfg.overlay_scene_name@, id),
        ),
        None => give_up(p, no_item_id()),
    }
}

/// The scene at work, or the end if there is none left.
pub open spec fn next_scene(p: ReconcileV) -> StepV {
    if p.at < p.scenes.len() {
        (at_stage(p, Stage::SceneItems), about_scene("GetSceneItemList"@, p.scenes[p.at as int]))
    } else {
        (at_stage(p, Stage::Done), ActionV::Verify)
    }
}

/// After the items of a scene: the overlay is raised if it lies there, put there if not.
pub open spec fn after_scene_items(
    p: ReconcileV,
    cfg: DonationAlertsConfig,
    items: json::JsonV,
) -> StepV {
    match donations::item_id(items, cfg.overlay_scene_name@) {
        Some(id) => (
            ReconcileV { stage: Stage::RaiseList { id }, present: p.present + 1, ..p },
            about_scene("GetSceneItemList"@, p.scenes[p.at as int]),
        ),
        None => (
            at_stage(p, Stage::AddOverlay),
            add_to_scene(p.scenes[p.at as int], cfg.overlay_scene_name@),
        ),
    }
}

/// After the overlay was put into a scene: it is raised.
pub open spec fn after_overlay_added(p: ReconcileV, created: json::JsonV) -> StepV {
    match created.int_at("sceneItemId"@) {
        Some(id) => (
            ReconcileV { stage: Stage::RaiseList { id }, added: p.added + 1, ..p },
            about_scene("GetSceneItemList"@, p.scenes[p.at as int]),
        ),
        None => give_up(p, no_item_id()),
    }
}

/// On to the scene after the one at work.
pub open spec fn past_scene(p: ReconcileV) -> StepV {
    next_scene(ReconcileV { at: p.at + 1, ..p })
}

/// What follows a reply. A failure ends the work with its reason, except where the state is read
/// back at the end anyway: showing the source, its sound, raising the overlay, and the size of the
/// picture, which has a default.
pub open spec fn advanced(
    p: ReconcileV,
    cfg: DonationAlertsConfig,
    url: Seq<char>,
    reply: donations::ReplyV,
) -> StepV {
    match (p.stage, reply) {
        (Stage::VideoSettings, _) => (
            at_stage(
                p,
                Stage::ListInputs {
                    width: number_or(reply, "baseWidth"@, 1920),
                    height: number_or(reply, "baseHeight"@, 1080),
                },
            ),
            plain("GetInputList"@),
        ),
        (Stage::EnableItem, _) => (at_stage(p, Stage::RestoreSound), ActionV::RestoreSound),
        (Stage::RestoreSound, _) => if cfg.enforce_overlays {
            (at_stage(p, Stage::ListUserScenes), plain("GetSceneList"@))
        } else {
            (at_stage(p, Stage::Done), ActionV::Verify)
        },
        (Stage::RaiseList { id }, Ok(items)) => (
            at_stage(p, Stage::RaiseSet),
            move_item(
                p.scenes[p.at as int],
                id,
                donations::top_index(items.items_at("sceneItems"@).len()) as i64,
            ),
        ),
        (Stage::RaiseList { .. }, Err(_)) => past_scene(p),
        (Stage::RaiseSet, _) => past_scene(p),
        (_, Err(e)) => give_up(p, e),
        (Stage::ListScenes, Ok(v)) => after_scenes(p, cfg, v),
        (Stage::CreateScene, Ok(_)) => (
            at_stage(p, Stage::VideoSettings),
            plain("GetVideoSettings"@),
        ),
        (Stage::ListInputs { width, height }, Ok(v)) => after_inputs(p, cfg, url, width, height, v),
        (Stage::ApplySettings, Ok(_)) => (
            at_stage(p, Stage::FindItem),
            about_scene("GetSceneItemList"@, cfg.overlay_scene_name@),
        ),
        (Stage::FindItem, Ok(v)) => after_overlay_items(p, cfg, v),
        (Stage::CreateItem, Ok(v)) => after_item_created(p, cfg, v),
        (Stage::ListUserScenes, Ok(v)) => next_scene(
            ReconcileV { scenes: donations::user_scenes(v, cfg.overlay_scene_name@), ..p },
        ),
        (Stage::SceneItems, Ok(v)) => after_scene_items(p, cfg, v),
        (Stage::AddOverlay, Ok(v)) => after_overlay_added(p, v),
        (_, Ok(_)) => (p, ActionV::Verify),
    }
}

/// The state in which the work starts.
pub open spec fn begun() -> ReconcileV {
    ReconcileV {
        stage: Stage::ListScenes,
        created: false,
        restored: false,
        scenes: Seq::empty(),
        at: 0,
        added: 0,
        present: 0,
    }
}

impl Reconcile {
    /// Starts the work. Without the address of the widget there is nothing to do.
    pub fn start(widget_url: Option<&str>) -> (r: Result<(Reconcile, Action), String>)
        ensures
            match r {
                Ok(step) => widget_url is Some && step.0@ == begun() && step.0@.wf() && step.1@
                    == plain("GetSceneList"@),
                Err(e) => widget_url is None && e@
                    == "DonationAlerts Alerts Widget URL ещё не настроен"@,
            },
    {
        if widget_url.is_none() {
            return Err("DonationAlerts Alerts Widget URL ещё не настроен".to_owned());
        }
        let p = Reconcile {
            stage: Stage::ListScenes,
            created: false,
            restored: false,
            scenes: Vec::new(),
            at: 0,
            added: 0,
            present: 0,
        };
        assert(p@ =~= begun());
        Ok((p, request_plain("GetSceneList")))
    }

    fn to_stage(self, stage: Stage) -> (r: Reconcile)
        ensures
            r@ == at_stage(self@, stage),
    {
        let r = Reconcile { stage, ..self };
        assert(r@ =~= at_stage(self@, stage));
        r
    }

    fn fail(self, reason: String) -> (r: (Reconcile, Action))
        ensures
            (r.0@, r.1@) == give_up(self@, reason@),
    {
        (self.to_stage(Stage::Failed), Action::Fail(reason))
    }

    fn to_scene(self) -> (r: (Reconcile, Action))
        requires
            self.at <= self.scenes.len(),
        ensures
            (r.0@, r.1@) == next_scene(self@),
    {
        if self.at < self.scenes.len() {
            let action = request_about_scene("GetSceneItemList", self.scenes[self.at].as_str());
            (self.to_stage(Stage::SceneItems), action)
        } else {
            (self.to_stage(Stage::Done), Action::Verify)
        }
    }

    fn leave_scene(self) -> (r: (Reconcile, Action))
        requires
            self.at < self.scenes.len(),
        ensures
            (r.0@, r.1@) == past_scene(self@),
    {
        let p = Reconcile { at: self.at + 1, ..self };
        assert(p@ =~= (ReconcileV { at: self@.at + 1, ..self@ }));
        p.to_scene()
    }

    fn after_scene_list(self, cfg: &DonationAlertsConfig, v: &Json) -> (r: (Reconcile, Action))
        ensures
            (r.0@, r.1@) == after_scenes(self@, *cfg, v@),
    {
        let overlay = cfg.overlay_scene_name.as_str();
        if v.find_with_text("scenes", "sceneName", overlay).is_some() {
            (self.to_stage(Stage::VideoSettings), request_plain("GetVideoSettings"))
        } else {
            (self.to_stage(Stage::CreateScene), request_about_scene("CreateScene", overlay))
        }
    }

    fn after_input_list(
        self,
        cfg: &DonationAlertsConfig,
        url: &str,
        width: i64,
        height: i64,
        v: &Json,
    ) -> (r: (Reconcile, Action))
        ensures
            (r.0@, r.1@) == after_inputs(self@, *cfg, url@, width, height, v@),
    {
        let settings = make_settings(cfg, url, width, height);
        match v.find_with_text("inputs", "inputName", cfg.input_name.as_str()) {
            Some(input) => {
                let browser = match input.get_str("inputKind") {
                    Some(kind) => text::same(kind, "browser_source"),
                    None => false,
                };
                if !browser {
                    return self.fail(
                        text::join3(
                            "Имя ",
                            cfg.input_name.as_str(),
                            " уже занято источником другого типа. Переименуйте его в OBS или измените input_name в config/host.json.",
                        ),
                    );
                }
                let p = Reconcile { stage: Stage::ApplySettings, created: false, ..self };
                assert(p@ =~= (ReconcileV {
                    stage: Stage::ApplySettings,
                    created: false,
                    ..self@
                }));
                (p, request_set_source(cfg.input_name.as_str(), settings))
            },
            None => {
                let p = Reconcile { stage: Stage::ApplySettings, created: true, ..self };
                assert(p@ =~= (ReconcileV {
                    stage: Stage::ApplySettings,
                    created: true,
                    ..self@
                }));
                (
                    p,
                    request_create_source(
                        cfg.overlay_scene_name.as_str(),
                        cfg.input_name.as_str(),
                        settings,
                    ),
                )
            },
        }
    }

    fn after_overlay_list(self, cfg: &DonationAlertsConfig, v: &Json) -> (r: (Reconcile, Action))
        ensures
            (r.0@, r.1@) == after_overlay_items(self@, *cfg, v@),
    {
        match donations::find_item_id(v, cfg.input_name.as_str()) {
            Some(id) => {
                let p = Reconcile { stage: Stage::EnableItem, restored: false, ..self };
                assert(p@ =~= (ReconcileV { stage: Stage::EnableItem, restored: false, ..self@ }));
                (p, request_show_item(cfg.overlay_scene_name.as_str(), id))
            },
            None => (
                self.to_stage(Stage::CreateItem),
                request_add_to_scene(cfg.overlay_scene_name.as_str(), cfg.input_name.as_str()),
            ),
        }
    }

    fn after_item_reply(self, cfg: &DonationAlertsConfig, v: &Json) -> (r: (Reconcile, Action))
        ensures
            (r.0@, r.1@) == after_item_created(self@, *cfg, v@),
    {
        match v.get_int("sceneItemId") {
            Some(id) => {
                let p = Reconcile { stage: Stage::EnableItem, restored: true, ..self };
                assert(p@ =~= (ReconcileV { stage: Stage::EnableItem, restored: true, ..self@ }));
                (p, request_show_item(cfg.overlay_scene_name.as_str(), id))
            },
            None => self.fail("OBS не вернул id созданного элемента сцены".to_owned()),
        }
    }

    fn after_scene_list_of_user(self, cfg: &DonationAlertsConfig, v: &Json) -> (r: (
        Reconcile,
        Action,
    ))
        requires
            self.at == 0,
        ensures
            (r.0@, r.1@) == next_scene(
                ReconcileV {
                    scenes: donations::user_scenes(v@, cfg.overlay_scene_name@),
                    ..self@
                },
            ),
    {
        let scenes = donations::list_user_scenes(v, cfg.overlay_scene_name.as_str());
        let p = Reconcile { scenes, ..self };
        assert(p@ =~= (ReconcileV {
            scenes: donations::user_scenes(v@, cfg.overlay_scene_name@),
            ..self@
        }));
        p.to_scene()
    }

    fn after_items_of_scene(self, cfg: &DonationAlertsConfig, v: &Json) -> (r: (Reconcile, Action))
        requires
            self@.wf(),
            self.stage is SceneItems,
        ensures
            (r.0@, r.1@) == after_scene_items(self@, *cfg, v@),
    {
        let overlay = cfg.overlay_scene_name.as_str();
        assert(self.at < self.scenes.len() && self.added + self.present == self.at);
        match donations::find_item_id(v, overlay) {
            Some(id) => {
                let action = request_about_scene("GetSceneItemList", self.scenes[self.at].as_str());
                let p = Reconcile {
                    stage: Stage::RaiseList { id },
                    present: self.present + 1,
                    ..self
                };
                assert(p@ =~= (ReconcileV {
                    stage: Stage::RaiseList { id },
                    present: self@.present + 1,
                    ..self@
                }));
                (p, action)
            },
            None => {
                let action = request_add_to_scene(self.scenes[self.at].as_str(), overlay);
                (self.to_stage(Stage::AddOverlay), action)
            },
        }
    }

    fn after_overlay_reply(self, v: &Json) -> (r: (Reconcile, Action))
        requires
            self@.wf(),
            self.stage is AddOverlay,
        ensures
            (r.0@, r.1@) == after_overlay_added(self@, v@),
    {
        assert(self.at < self.scenes.len() && self.added + self.present == self.at);
        match v.get_int("sceneItemId") {
            Some(id) => {
                let action = request_about_scene("GetSceneItemList", self.scenes[self.at].as_str());
                let p = Reconcile {
                    stage: Stage::RaiseList { id },
                    added: self.added + 1,
                    ..self
                };
                assert(p@ =~= (ReconcileV {
                    stage: Stage::RaiseList { id },
                    added: self@.added + 1,
                    ..self@
                }));
                (p, action)
            },
            None => self.fail("OBS не вернул id созданного элемента сцены".to_owned()),
        }
    }

    fn raise(self, id: i64, v: &Json) -> (r: (Reconcile, Action))
        requires
            self.at < self.scenes.len(),
        ensures
            r.0@ == at_stage(self@, Stage::RaiseSet),
            r.1@ == move_item(
                self@.scenes[self@.at as int],
                id,
                donations::top_index(v@.items_at("sceneItems"@).len()) as i64,
            ),
    {
        let count: usize = match v.get_array("sceneItems") {
            Some(items) => {
                assert(json::items_view(items@).len() == items@.len());
                items.len()
            },
            None => 0,
        };
        let action = request_move_item(
            self.scenes[self.at].as_str(),
            id,
            donations::top_scene_item_index(count),
        );
        (self.to_stage(Stage::RaiseSet), action)
    }

    /// Takes a reply and says what to do next. To the action that restores the sound any reply may
    /// be given.
    pub fn advance(self, cfg: &DonationAlertsConfig, widget_url: &str, reply: &ObsReply) -> (r: (
        Reconcile,
        Action,
    ))
        requires
            self@.wf(),
            !self@.over(),
        ensures
            (r.0@, r.1@) == advanced(self@, *cfg, widget_url@, donations::reply_view(*reply)),
            r.0@.wf(),
    {
        proof {
            law_progress_is_kept(self@, *cfg, widget_url@, donations::reply_view(*reply));
        }
        match self.stage {
            Stage::VideoSettings => {
                let width: i64 = match reply {
                    Ok(v) => match v.get_int("baseWidth") {
                        Some(n) => n,
                        None => 1920,
                    },
                    Err(_) => 1920,
                };
                let height: i64 = match reply {
                    Ok(v) => match v.get_int("baseHeight") {
                        Some(n) => n,
                        None => 1080,
                    },
                    Err(_) => 1080,
                };
                return (
                    self.to_stage(Stage::ListInputs { width, height }),
                    request_plain("GetInputList"),
                );
            },
            Stage::EnableItem => {
                return (self.to_stage(Stage::RestoreSound), Action::RestoreSound);
            },
            Stage::RestoreSound => {
                return if cfg.enforce_overlays {
                    (self.to_stage(Stage::ListUserScenes), request_plain("GetSceneList"))
                } else {
                    (self.to_stage(Stage::Done), Action::Verify)
                };
            },
            Stage::RaiseSet => {
                return self.leave_scene();
            },
            _ => {},
        }
        match reply {
            Err(e) => match self.stage {
                Stage::RaiseList { .. } => self.leave_scene(),
                _ => self.fail(e.clone()),
            },
            Ok(v) => match self.stage {
                Stage::ListScenes => self.after_scene_list(cfg, v),
                Stage::CreateScene => (
                    self.to_stage(Stage::VideoSettings),
                    request_plain("GetVideoSettings"),
                ),
                Stage::ListInputs { width, height } => self.after_input_list(
                    cfg,
                    widget_url,
                    width,
                    height,
                    v,
                ),
                Stage::ApplySettings => (
                    self.to_stage(Stage::FindItem),
                    request_about_scene("GetSceneItemList", cfg.overlay_scene_name.as_str()),
                ),
                Stage::FindItem => self.after_overlay_list(cfg, v),
                Stage::CreateItem => self.after_item_reply(cfg, v),
                Stage::ListUserScenes => self.after_scene_list_of_user(cfg, v),
                Stage::SceneItems => self.after_items_of_scene(cfg, v),
                Stage::AddOverlay => self.after_overlay_reply(v),
                Stage::RaiseList { id } => self.raise(id, v),
                _ => (self, Action::Verify),
            },
        }
    }
}

/// What the owner is told at the end. It is ready only if OBS was read back and all was in order.
/// The address of the widget holds a secret and is not repeated.
pub open spec fn report_value(
    p: ReconcileV,
    cfg: DonationAlertsConfig,
    verified: DonationVerification,
) -> json::JsonV {
    json::JsonV::Object(
        map![
            "ready"@ => json::JsonV::Bool(verified.ready()),
            "problems"@ => json::JsonV::Array(
                text::views(verified.problems@).map_values(|s: Seq<char>| json::JsonV::Str(s)),
            ),
            "overlay_scene"@ => json::JsonV::Str(cfg.overlay_scene_name@),
            "input_name"@ => json::JsonV::Str(cfg.input_name@),
            "widget_url"@ => json::JsonV::Str("configured"@),
            "reroute_audio"@ => json::JsonV::Bool(cfg.reroute_audio),
            "input_created"@ => json::JsonV::Bool(p.created),
            "overlay_item_restored"@ => json::JsonV::Bool(p.restored),
            "scenes_already_had_overlay"@ => json::JsonV::Int(p.present as i64),
            "scenes_added_overlay"@ => json::JsonV::Int(p.added as i64),
        ],
    )
}

/// What restores the sound of the source: it is not muted, as loud as configured, and put out as
/// configured. The volume is given as a multiplier.
pub open spec fn sound_restored(cfg: DonationAlertsConfig, mul: json::JsonV) -> Seq<
    (Seq<char>, json::JsonV),
> {
    let name = json::JsonV::Str(cfg.input_name@);
    seq![
        (
            "SetInputMute"@,
            json::JsonV::Object(
                map!["inputName"@ => name, "inputMuted"@ => json::JsonV::Bool(false)],
            ),
        ),
        (
            "SetInputVolume"@,
            json::JsonV::Object(map!["inputName"@ => name, "inputVolumeMul"@ => mul]),
        ),
        (
            "SetInputAudioMonitorType"@,
            json::JsonV::Object(
                map![
                    "inputName"@ => name,
                    "monitorType"@ => json::JsonV::Str(
                        donations::monitoring_of(cfg.monitoring@),
                    ),
                ],
            ),
        ),
    ]
}

/// What restores the sound of the source, in one batch.
pub fn sound_requests(cfg: &DonationAlertsConfig, mul: Json) -> (r: Vec<BatchItem>)
    ensures
        obs::asked_all(r@) == sound_restored(*cfg, mul@),
{
    let name = cfg.input_name.as_str();
    let ghost given = mul@;
    let mut out: Vec<BatchItem> = Vec::new();
    out.push(
        BatchItem::new(
            "SetInputMute",
            Fields::new().put("inputName", Json::text(name)).put(
                "inputMuted",
                Json::Bool(false),
            ).json(),
        ),
    );
    out.push(
        BatchItem::new(
            "SetInputVolume",
            Fields::new().put("inputName", Json::text(name)).put("inputVolumeMul", mul).json(),
        ),
    );
    out.push(
        BatchItem::new(
            "SetInputAudioMonitorType",
            Fields::new().put("inputName", Json::text(name)).put(
                "monitorType",
                Json::text(donations::monitor_type(cfg.monitoring.as_str())),
            ).json(),
        ),
    );
    assert(obs::asked_all(out@) =~= sound_restored(*cfg, given));
    out
}

/// What the owner is told at the end.
pub fn report(p: &Reconcile, cfg: &DonationAlertsConfig, verified: &DonationVerification) -> (r: Json)
    ensures
        r@ == report_value(p@, *cfg, *verified),
{
    Fields::new().put("ready", Json::Bool(verified.is_ready())).put(
        "problems",
        Json::texts(&verified.problems),
    ).put("overlay_scene", Json::text(cfg.overlay_scene_name.as_str())).put(
        "input_name",
        Json::text(cfg.input_name.as_str()),
    ).put("widget_url", Json::text("configured")).put(
        "reroute_audio",
        Json::Bool(cfg.reroute_audio),
    ).put("input_created", Json::Bool(p.created)).put(
        "overlay_item_restored",
        Json::Bool(p.restored),
    ).put("scenes_already_had_overlay", Json::Int(p.present as i64)).put(
        "scenes_added_overlay",
        Json::Int(p.added as i64),
    ).json()
}

// ---------------------------------------------------------------------------------------------
// Laws
// ---------------------------------------------------------------------------------------------
/// Every step keeps the account of the scenes. In particular, when all was sent, every scene of the
/// user had the overlay or got it.
pub proof fn law_progress_is_kept(
    p: ReconcileV,
    cfg: DonationAlertsConfig,
    url: Seq<char>,
    reply: donations::ReplyV,
)
    requires
        p.wf(),
        !p.over(),
    ensures
        advanced(p, cfg, url, reply).0.wf(),
{
}

/// How much is left to do at most: the stage counts down, and each scene takes four steps.
pub open spec fn steps_left(p: ReconcileV) -> (nat, nat) {
    match p.stage {
        Stage::ListScenes => (9, 0),
        Stage::CreateScene => (8, 0),
        Stage::VideoSettings => (7, 0),
        Stage::ListInputs { .. } => (6, 0),
        Stage::ApplySettings => (5, 0),
        Stage::FindItem => (4, 1),
        Stage::CreateItem => (4, 0),
        Stage::EnableItem => (3, 0),
        Stage::RestoreSound => (2, 1),
        Stage::ListUserScenes => (2, 0),
        Stage::SceneItems => (1, (4 * (p.scenes.len() - p.at) + 3) as nat),
        Stage::AddOverlay => (1, (4 * (p.scenes.len() - p.at) + 2) as nat),
        Stage::RaiseList { .. } => (1, (4 * (p.scenes.len() - p.at) + 1) as nat),
        Stage::RaiseSet => (1, (4 * (p.scenes.len() - p.at)) as nat),
        Stage::Done => (0, 0),
        Stage::Failed => (0, 0),
    }
}

/// Whatever OBS replies, the work comes to an end.
pub proof fn law_work_ends(
    p: ReconcileV,
    cfg: DonationAlertsConfig,
    url: Seq<char>,
    reply: donations::ReplyV,
)
    requires
        p.wf(),
        !p.over(),
    ensures
        ({
            let before = steps_left(p);
            let after = steps_left(advanced(p, cfg, url, reply).0);
            after.0 < before.0 || (after.0 == before.0 && after.1 < before.1)
        }),
{
}

/// OBS is read back exactly when the work is done, and giving up has its reason.
pub proof fn law_only_finished_work_is_verified(
    p: ReconcileV,
    cfg: DonationAlertsConfig,
    url: Seq<char>,
    reply: donations::ReplyV,
)
    requires
        p.wf(),
        !p.over(),
    ensures
        advanced(p, cfg, url, reply).1 is Verify <==> advanced(p, cfg, url, reply).0.stage is Done,
        advanced(p, cfg, url, reply).1 is Fail <==> advanced(p, cfg, url, reply).0.stage is Failed,
{
}

/// The sound is restored on every run that gets as far as the scenes of the user, whether the
/// source was created or was there before: the only way there leads through that step.
pub proof fn law_sound_is_always_restored(
    p: ReconcileV,
    cfg: DonationAlertsConfig,
    url: Seq<char>,
    reply: donations::ReplyV,
)
    requires
        p.wf(),
        !p.over(),
        steps_left(p).0 >= 3,
    ensures
        steps_left(advanced(p, cfg, url, reply).0).0 >= 3 || advanced(
            p,
            cfg,
            url,
            reply,
        ).1 is RestoreSound || advanced(p, cfg, url, reply).1 is Fail,
{
}

/// When the overlay is on a scene it is moved to the last layer, which is the top one.
pub proof fn law_overlay_goes_to_the_top(
    p: ReconcileV,
    cfg: DonationAlertsConfig,
    url: Seq<char>,
    id: i64,
    items: json::JsonV,
)
    requires
        p.wf(),
        p.stage == (Stage::RaiseList { id }),
        0 < items.items_at("sceneItems"@).len() <= i64::MAX,
    ensures
        advanced(p, cfg, url, Ok(items)).1 == move_item(
            p.scenes[p.at as int],
            id,
            (items.items_at("sceneItems"@).len() - 1) as i64,
        ),
{
}

/// Whether no object of a list has a text in a field.
pub open spec fn nobody_is_called(list: Seq<json::JsonV>, key: Seq<char>, name: Seq<char>) -> bool {
    forall|i: int| 0 <= i < list.len() ==> (#[trigger] list[i]).text_at(key) != Some(name)
}

/// The widget is set up as it was configured, with the address and the size that are given: its sound
/// goes through the mixer exactly if that is configured, it is not shut down when it is out of sight
/// and not reloaded when it comes into sight. It is created in the overlay scene, and shown there, if
/// no input has its name; if a browser source has it, that one is set and keeps its other settings.
pub proof fn law_the_widget_is_set_as_configured(
    p: ReconcileV,
    cfg: DonationAlertsConfig,
    url: Seq<char>,
    width: i64,
    height: i64,
    list: json::JsonV,
)
    requires
        p.stage == (Stage::ListInputs { width, height }),
    ensures
        advanced(p, cfg, url, Ok(list)).1 is Fail || (advanced(
            p,
            cfg,
            url,
            Ok(list),
        ).1 matches ActionV::Request(q, data) && data.text_at("inputName"@) == Some(
            cfg.input_name@,
        ) && (data.field("inputSettings"@) matches Some(s) && s.text_at("url"@) == Some(url)
            && s.int_at("width"@) == Some(width) && s.int_at("height"@) == Some(height) && s.bool_at(
            "reroute_audio"@,
        ) == Some(cfg.reroute_audio) && s.bool_at("shutdown"@) == Some(false) && s.bool_at(
            "restart_when_active"@,
        ) == Some(false))),
        nobody_is_called(list.items_at("inputs"@), "inputName"@, cfg.input_name@) ==> (advanced(
            p,
            cfg,
            url,
            Ok(list),
        ).1 matches ActionV::Request(q, data) && q == "CreateInput"@ && data.text_at("sceneName"@)
            == Some(cfg.overlay_scene_name@) && data.text_at("inputKind"@) == Some(
            "browser_source"@,
        ) && data.bool_at("sceneItemEnabled"@) == Some(true) && advanced(
            p,
            cfg,
            url,
            Ok(list),
        ).0.created),
{
    let settings = source_settings(cfg, url, width, height);
    reveal_strlit("url");
    reveal_strlit("width");
    reveal_strlit("height");
    reveal_strlit("reroute_audio");
    reveal_strlit("shutdown");
    reveal_strlit("restart_when_active");
    assert("url"@.len() == 3);
    assert("width"@.len() == 5);
    assert("height"@.len() == 6);
    assert("reroute_audio"@.len() == 13);
    assert("shutdown"@.len() == 8);
    assert("restart_when_active"@.len() == 19);
    reveal_strlit("inputName");
    reveal_strlit("inputSettings");
    reveal_strlit("overlay");
    reveal_strlit("sceneName");
    reveal_strlit("inputKind");
    reveal_strlit("sceneItemEnabled");
    assert("inputName"@.len() == 9);
    assert("inputSettings"@.len() == 13);
    assert("overlay"@.len() == 7);
    assert("sceneName"@.len() == 9);
    assert("inputKind"@.len() == 9);
    assert("sceneItemEnabled"@.len() == 16);
    assert("inputName"@[0] != "sceneName"@[0]);
    assert("inputName"@[5] != "inputKind"@[5]);
    assert("sceneName"@[0] != "inputKind"@[0]);
    json::law_the_first_with_a_text_is_found(
        list.items_at("inputs"@),
        "inputName"@,
        cfg.input_name@,
        0,
    );
}

/// A browser source that already has the name is set, not created anew; a source of any other kind
/// under that name is left alone, and the work ends with a reason that names it.
pub proof fn law_a_source_under_the_name_is_respected(
    p: ReconcileV,
    cfg: DonationAlertsConfig,
    url: Seq<char>,
    width: i64,
    height: i64,
    list: json::JsonV,
    i: int,
)
    requires
        p.stage == (Stage::ListInputs { width, height }),
        0 <= i < list.items_at("inputs"@).len(),
        list.items_at("inputs"@)[i].text_at("inputName"@) == Some(cfg.input_name@),
        nobody_is_called(list.items_at("inputs"@).take(i), "inputName"@, cfg.input_name@),
    ensures
        list.items_at("inputs"@)[i].text_at("inputKind"@) == Some("browser_source"@) ==> (advanced(
            p,
            cfg,
            url,
            Ok(list),
        ).1 matches ActionV::Request(q, data) && q == "SetInputSettings"@ && data.bool_at(
            "overlay"@,
        ) == Some(true) && !advanced(p, cfg, url, Ok(list)).0.created),
        list.items_at("inputs"@)[i].text_at("inputKind"@) != Some("browser_source"@) ==> (advanced(
            p,
            cfg,
            url,
            Ok(list),
        ).1 matches ActionV::Fail(e) && text::holds_text(e, cfg.input_name@)),
{
    let inputs = list.items_at("inputs"@);
    assert forall|j: int| 0 <= j < i implies (#[trigger] inputs[j]).text_at("inputName"@) != Some(
        cfg.input_name@,
    ) by {
        assert(inputs.take(i)[j] == inputs[j]);
    }
    json::law_the_first_with_a_text_is_found(inputs, "inputName"@, cfg.input_name@, i);
    reveal_strlit("inputName");
    reveal_strlit("inputSettings");
    reveal_strlit("overlay");
    assert("inputName"@.len() == 9);
    assert("inputSettings"@.len() == 13);
    assert("overlay"@.len() == 7);
    text::lemma_part_is_held(
        "Имя "@,
        cfg.input_name@,
        " уже занято источником другого типа. Переименуйте его в OBS или измените input_name в config/host.json."@,
    );
}

/// The widget gets the size of the canvas that OBS tells; where OBS does not tell it, that of full
/// high definition. The list of inputs is asked for next.
pub proof fn law_the_widget_fills_the_canvas(
    p: ReconcileV,
    cfg: DonationAlertsConfig,
    url: Seq<char>,
    v: json::JsonV,
    e: Seq<char>,
    width: i64,
    height: i64,
)
    requires
        p.stage is VideoSettings,
    ensures
        v.int_at("baseWidth"@) == Some(width) && v.int_at("baseHeight"@) == Some(height)
            ==> advanced(p, cfg, url, Ok(v)).0.stage == (Stage::ListInputs { width, height }),
        v.int_at("baseWidth"@) is None && v.int_at("baseHeight"@) is None ==> advanced(
            p,
            cfg,
            url,
            Ok(v),
        ).0.stage == (Stage::ListInputs { width: 1920, height: 1080 }),
        advanced(p, cfg, url, Err(e)).0.stage == (Stage::ListInputs { width: 1920, height: 1080 }),
        advanced(p, cfg, url, Ok(v)).1 == ActionV::Request(
            "GetInputList"@,
            json::JsonV::Object(Map::empty()),
        ),
{
}

/// The overlay scene is created under the configured name exactly if no scene has that name.
pub proof fn law_the_overlay_scene_is_created_once(
    p: ReconcileV,
    cfg: DonationAlertsConfig,
    url: Seq<char>,
    list: json::JsonV,
)
    requires
        p.stage is ListScenes,
    ensures
        nobody_is_called(list.items_at("scenes"@), "sceneName"@, cfg.overlay_scene_name@) ==> (
        advanced(p, cfg, url, Ok(list)).1 matches ActionV::Request(q, data) && q == "CreateScene"@
            && data.text_at("sceneName"@) == Some(cfg.overlay_scene_name@)),
        !nobody_is_called(list.items_at("scenes"@), "sceneName"@, cfg.overlay_scene_name@) ==> (
        advanced(p, cfg, url, Ok(list)).1 matches ActionV::Request(q, data) && q
            == "GetVideoSettings"@),
{
    let scenes = list.items_at("scenes"@);
    let name = cfg.overlay_scene_name@;
    json::law_the_first_with_a_text_is_found(scenes, "sceneName"@, name, 0);
    if !nobody_is_called(scenes, "sceneName"@, name) {
        let i = choose|i: int| 0 <= i < scenes.len() && (#[trigger] scenes[i]).text_at(
            "sceneName"@,
        ) == Some(name);
        lemma_somebody_is_found(scenes, "sceneName"@, name, i);
    }
}

proof fn lemma_somebody_is_found(
    list: Seq<json::JsonV>,
    key: Seq<char>,
    name: Seq<char>,
    i: int,
)
    requires
        0 <= i < list.len(),
        list[i].text_at(key) == Some(name),
    ensures
        json::first_with_text(list, key, name) is Some,
    decreases i,
{
    if forall|j: int| 0 <= j < i ==> (#[trigger] list[j]).text_at(key) != Some(name) {
        json::law_the_first_with_a_text_is_found(list, key, name, i);
    } else {
        let j = choose|j: int| 0 <= j < i && (#[trigger] list[j]).text_at(key) == Some(name);
        lemma_somebody_is_found(list, key, name, j);
    }
}

/// The widget is put into the overlay scene if it does not lie there, and then shown there; if it
/// lies there, it is shown under the number that it has.
pub proof fn law_the_widget_is_shown_in_the_overlay_scene(
    p: ReconcileV,
    cfg: DonationAlertsConfig,
    url: Seq<char>,
    v: json::JsonV,
    id: i64,
)
    ensures
        p.stage is FindItem && donations::item_id(v, cfg.input_name@) == Some(id) ==> (advanced(
            p,
            cfg,
            url,
            Ok(v),
        ).1 matches ActionV::Request(q, data) && q == "SetSceneItemEnabled"@ && data.text_at(
            "sceneName"@,
        ) == Some(cfg.overlay_scene_name@) && data.int_at("sceneItemId"@) == Some(id)
            && data.bool_at("sceneItemEnabled"@) == Some(true)),
        p.stage is FindItem && donations::item_id(v, cfg.input_name@) is None ==> (advanced(
            p,
            cfg,
            url,
            Ok(v),
        ).1 matches ActionV::Request(q, data) && q == "CreateSceneItem"@ && data.text_at(
            "sceneName"@,
        ) == Some(cfg.overlay_scene_name@) && data.text_at("sourceName"@) == Some(cfg.input_name@)
            && data.bool_at("sceneItemEnabled"@) == Some(true)),
        p.stage is CreateItem && v.int_at("sceneItemId"@) == Some(id) ==> (advanced(
            p,
            cfg,
            url,
            Ok(v),
        ).1 matches ActionV::Request(q, data) && q == "SetSceneItemEnabled"@ && data.text_at(
            "sceneName"@,
        ) == Some(cfg.overlay_scene_name@) && data.int_at("sceneItemId"@) == Some(id)
            && data.bool_at("sceneItemEnabled"@) == Some(true) && advanced(
            p,
            cfg,
            url,
            Ok(v),
        ).0.restored),
        p.stage is CreateItem && v.int_at("sceneItemId"@) is None ==> advanced(
            p,
            cfg,
            url,
            Ok(v),
        ).1 is Fail,
        p.stage is ApplySettings ==> (advanced(p, cfg, url, Ok(v)).1 matches ActionV::Request(
            q,
            data,
        ) && q == "GetSceneItemList"@ && data.text_at("sceneName"@) == Some(
            cfg.overlay_scene_name@,
        )),
{
    reveal_strlit("sceneName");
    reveal_strlit("sceneItemId");
    reveal_strlit("sceneItemEnabled");
    reveal_strlit("sourceName");
    assert("sceneName"@.len() == 9);
    assert("sceneItemId"@.len() == 11);
    assert("sceneItemEnabled"@.len() == 16);
    assert("sourceName"@.len() == 10);
}

/// With overlays enforced the scenes of the user are listed next, else OBS is read back at once.
pub proof fn law_overlays_are_enforced_if_configured(
    p: ReconcileV,
    cfg: DonationAlertsConfig,
    url: Seq<char>,
    reply: donations::ReplyV,
)
    requires
        p.stage is RestoreSound,
    ensures
        cfg.enforce_overlays ==> (advanced(p, cfg, url, reply).1 matches ActionV::Request(q, data)
            && q == "GetSceneList"@),
        !cfg.enforce_overlays ==> advanced(p, cfg, url, reply).1 is Verify,
{
}

/// A scene of the user that lacks the overlay gets it, shown; one that has it keeps it. Either way it
/// is counted, and its items are asked for once more so that the overlay can be raised.
pub proof fn law_every_scene_gets_the_overlay(
    p: ReconcileV,
    cfg: DonationAlertsConfig,
    url: Seq<char>,
    v: json::JsonV,
    id: i64,
)
    requires
        p.at < p.scenes.len(),
    ensures
        p.stage is SceneItems && donations::item_id(v, cfg.overlay_scene_name@) is None ==> (
        advanced(p, cfg, url, Ok(v)).1 matches ActionV::Request(q, data) && q
            == "CreateSceneItem"@ && data.text_at("sceneName"@) == Some(p.scenes[p.at as int])
            && data.text_at("sourceName"@) == Some(cfg.overlay_scene_name@) && data.bool_at(
            "sceneItemEnabled"@,
        ) == Some(true)),
        p.stage is SceneItems && donations::item_id(v, cfg.overlay_scene_name@) == Some(id) ==> (
        advanced(p, cfg, url, Ok(v)).1 matches ActionV::Request(q, data) && q
            == "GetSceneItemList"@ && data.text_at("sceneName"@) == Some(p.scenes[p.at as int])
            && advanced(p, cfg, url, Ok(v)).0.stage == (Stage::RaiseList { id }) && advanced(
            p,
            cfg,
            url,
            Ok(v),
        ).0.present == p.present + 1 && advanced(p, cfg, url, Ok(v)).0.added == p.added),
        p.stage is AddOverlay && v.int_at("sceneItemId"@) == Some(id) ==> (advanced(
            p,
            cfg,
            url,
            Ok(v),
        ).1 matches ActionV::Request(q, data) && q == "GetSceneItemList"@ && data.text_at(
            "sceneName"@,
        ) == Some(p.scenes[p.at as int]) && advanced(p, cfg, url, Ok(v)).0.stage == (
        Stage::RaiseList { id }) && advanced(p, cfg, url, Ok(v)).0.added == p.added + 1 && advanced(
            p,
            cfg,
            url,
            Ok(v),
        ).0.present == p.present),
{
    reveal_strlit("sceneName");
    reveal_strlit("sourceName");
    reveal_strlit("sceneItemEnabled");
    assert("sceneName"@.len() == 9);
    assert("sourceName"@.len() == 10);
    assert("sceneItemEnabled"@.len() == 16);
}

/// The overlay is raised by its own number, in the scene at work, to the layer above all others.
pub proof fn law_the_overlay_is_raised(
    p: ReconcileV,
    cfg: DonationAlertsConfig,
    url: Seq<char>,
    id: i64,
    items: json::JsonV,
)
    requires
        p.stage == (Stage::RaiseList { id }),
        0 < items.items_at("sceneItems"@).len() <= i64::MAX,
    ensures
        advanced(p, cfg, url, Ok(items)).1 matches ActionV::Request(q, data) && q
            == "SetSceneItemIndex"@ && data.text_at("sceneName"@) == Some(p.scenes[p.at as int])
            && data.int_at("sceneItemId"@) == Some(id) && data.int_at("sceneItemIndex"@) == Some(
            (items.items_at("sceneItems"@).len() - 1) as i64,
        ),
{
    reveal_strlit("sceneName");
    reveal_strlit("sceneItemId");
    reveal_strlit("sceneItemIndex");
    assert("sceneName"@.len() == 9);
    assert("sceneItemId"@.len() == 11);
    assert("sceneItemIndex"@.len() == 14);
}

/// The work goes from one scene of the user to the next and leaves none out: after the overlay of a
/// scene is raised, or could not be, the next scene is asked for, and after the last OBS is read back.
pub proof fn law_no_scene_is_left_out(
    p: ReconcileV,
    cfg: DonationAlertsConfig,
    url: Seq<char>,
    reply: donations::ReplyV,
)
    requires
        p.stage is RaiseSet,
    ensures
        advanced(p, cfg, url, reply).0.scenes == p.scenes,
        p.at + 1 < p.scenes.len() ==> advanced(p, cfg, url, reply).0.at == p.at + 1 && (advanced(
            p,
            cfg,
            url,
            reply,
        ).1 matches ActionV::Request(q, data) && q == "GetSceneItemList"@ && data.text_at(
            "sceneName"@,
        ) == Some(p.scenes[(p.at + 1) as int])),
        p.at + 1 >= p.scenes.len() ==> advanced(p, cfg, url, reply).1 is Verify,
{
}

/// The scenes that get the overlay are those that OBS lists, but for the overlay scene itself.
pub proof fn law_the_scenes_of_the_user_are_listed(
    p: ReconcileV,
    cfg: DonationAlertsConfig,
    url: Seq<char>,
    list: json::JsonV,
    i: int,
)
    requires
        p.stage is ListUserScenes,
        0 <= i < list.items_at("scenes"@).len(),
        list.items_at("scenes"@)[i].text_at("sceneName"@) is Some,
    ensures
        list.items_at("scenes"@)[i].text_at("sceneName"@)->0 != cfg.overlay_scene_name@ ==> advanced(
            p,
            cfg,
            url,
            Ok(list),
        ).0.scenes.contains(list.items_at("scenes"@)[i].text_at("sceneName"@)->0),
        !advanced(p, cfg, url, Ok(list)).0.scenes.contains(cfg.overlay_scene_name@),
{
    donations::law_user_scenes_are_all_but_the_overlay(list, cfg.overlay_scene_name@, i);
}

/// Where a step that must succeed fails, the work ends with what OBS said.
pub proof fn law_a_failed_step_ends_the_work(
    p: ReconcileV,
    cfg: DonationAlertsConfig,
    url: Seq<char>,
    e: Seq<char>,
)
    requires
        p.stage is ListScenes || p.stage is CreateScene || p.stage is ListInputs || p.stage
            is ApplySettings || p.stage is FindItem || p.stage is CreateItem || p.stage
            is ListUserScenes || p.stage is SceneItems || p.stage is AddOverlay,
    ensures
        advanced(p, cfg, url, Err(e)).1 == ActionV::Fail(e),
{
}

/// The sound of the widget is restored by unmuting it, setting the volume that is given and the
/// monitoring that is configured, all of the configured source.
pub proof fn law_sound_is_restored_as_configured(cfg: DonationAlertsConfig, mul: json::JsonV)
    ensures
        sound_restored(cfg, mul).len() == 3,
        sound_restored(cfg, mul)[0].0 == "SetInputMute"@ && sound_restored(cfg, mul)[0].1.text_at(
            "inputName"@,
        ) == Some(cfg.input_name@) && sound_restored(cfg, mul)[0].1.bool_at("inputMuted"@) == Some(
            false,
        ),
        sound_restored(cfg, mul)[1].0 == "SetInputVolume"@ && sound_restored(cfg, mul)[1].1.text_at(
            "inputName"@,
        ) == Some(cfg.input_name@) && sound_restored(cfg, mul)[1].1.field("inputVolumeMul"@) == Some(
            mul,
        ),
        sound_restored(cfg, mul)[2].0 == "SetInputAudioMonitorType"@ && sound_restored(
            cfg,
            mul,
        )[2].1.text_at("inputName"@) == Some(cfg.input_name@) && sound_restored(
            cfg,
            mul,
        )[2].1.text_at("monitorType"@) == Some(donations::monitoring_of(cfg.monitoring@)),
{
    reveal_strlit("inputName");
    reveal_strlit("inputMuted");
    reveal_strlit("inputVolumeMul");
    reveal_strlit("monitorType");
    assert("inputName"@.len() == 9);
    assert("inputMuted"@.len() == 10);
    assert("inputVolumeMul"@.len() == 14);
    assert("monitorType"@.len() == 11);
}

/// The owner is told what was read back and what was done: ready only if all was in order, every
/// problem, and how many scenes had the overlay or got it. The address of the widget is not told.
pub proof fn law_the_report_tells_what_was_done(
    p: ReconcileV,
    cfg: DonationAlertsConfig,
    verified: DonationVerification,
    i: int,
)
    ensures
        report_value(p, cfg, verified).bool_at("ready"@) == Some(
            verified.audible == crate::preflight::Verdict::Good && verified.in_overlay_scene
                == crate::preflight::Verdict::Good && verified.on_top_everywhere
                == crate::preflight::Verdict::Good,
        ),
        report_value(p, cfg, verified).items_at("problems"@).len() == verified.problems@.len(),
        0 <= i < verified.problems@.len() ==> report_value(p, cfg, verified).items_at(
            "problems"@,
        )[i] == json::JsonV::Str(verified.problems@[i]@),
        report_value(p, cfg, verified).text_at("overlay_scene"@) == Some(cfg.overlay_scene_name@),
        report_value(p, cfg, verified).text_at("input_name"@) == Some(cfg.input_name@),
        report_value(p, cfg, verified).text_at("widget_url"@) == Some("configured"@),
        report_value(p, cfg, verified).bool_at("reroute_audio"@) == Some(cfg.reroute_audio),
        report_value(p, cfg, verified).bool_at("input_created"@) == Some(p.created),
        report_value(p, cfg, verified).bool_at("overlay_item_restored"@) == Some(p.restored),
        report_value(p, cfg, verified).int_at("scenes_already_had_overlay"@) == Some(
            p.present as i64,
        ),
        report_value(p, cfg, verified).int_at("scenes_added_overlay"@) == Some(p.added as i64),
{
    reveal_strlit("ready");
    reveal_strlit("problems");
    reveal_strlit("overlay_scene");
    reveal_strlit("input_name");
    reveal_strlit("widget_url");
    reveal_strlit("reroute_audio");
    reveal_strlit("input_created");
    reveal_strlit("overlay_item_restored");
    reveal_strlit("scenes_already_had_overlay");
    reveal_strlit("scenes_added_overlay");
    assert("ready"@.len() == 5);
    assert("problems"@.len() == 8);
    assert("overlay_scene"@.len() == 13);
    assert("input_name"@.len() == 10);
    assert("widget_url"@.len() == 10);
    assert("reroute_audio"@.len() == 13);
    assert("input_created"@.len() == 13);
    assert("overlay_item_restored"@.len() == 21);
    assert("scenes_already_had_overlay"@.len() == 26);
    assert("scenes_added_overlay"@.len() == 20);
    assert("overlay_scene"@[0] != "reroute_audio"@[0]);
    assert("overlay_scene"@[0] != "input_created"@[0]);
    assert("reroute_audio"@[0] != "input_created"@[0]);
    assert("input_name"@[0] != "widget_url"@[0]);
}

} // verus!
