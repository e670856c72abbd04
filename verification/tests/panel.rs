//! The commands of the panel and what it is told.
use accessible_obs::api::{Refusal, ApiError};
use accessible_obs::audio::{
    audio_answer, special_input_roles, AudioNext, AudioStage, AudioWork, Heard, Volume,
};
use accessible_obs::config::{HostConfig, RuntimeMode};
use accessible_obs::donations::ObsReply;
use accessible_obs::events::{
    alert_event, health_answer, health_questions, health_sample, levels_event, listen_addresses,
    note_levels, public_ping, resync_event, runtime_info, status_json, Forward, Forwarder,
    HealthFacts, StatusWatch, LEVELS_INTERVAL_MS,
};
use accessible_obs::health::Alert;
use accessible_obs::json::{Fields, Json};
use accessible_obs::number::Reading;
use accessible_obs::obs::ObsStatus;
use accessible_obs::panel::{
    conclude, find_scene_item_id, obs_audio_mute, obs_audio_volume, obs_input_kinds, obs_launch,
    obs_preview, obs_replay, obs_request, obs_scene_create, obs_source_properties,
    obs_source_settings, obs_source_settings_set, obs_source_visibility, obs_sources, obs_studio,
    obs_studio_set, preview_answer, preview_width, properties_answer, raw_obs_allowed, set_volume,
    studio_enabled, visibility_found, Choice, Errand, SimpleCommand, Visibility,
};
use accessible_obs::preflight::{Severity, Verdict};
use accessible_obs::readiness::{
    active_verdict, donation_overlay_state, readiness_answer, readiness_without_obs, snapshot,
    ReadyNext, ReadyStage, ReadyWork,
};
use accessible_obs::roles::SourceRoles;
use accessible_obs::sources::{
    create_advance, existing_input_kind, input_kind_exists, obs_source_create, CreateStage,
    CreateStep,
};
use accessible_obs::table::Table;
use accessible_obs::twitch::{
    connected_answer, device_code, device_form, held_access, refresh_form, refresh_twitch_tokens,
    refreshed_access, stored_tokens, twitch_config_get, twitch_config_set, twitch_device_check,
    twitch_device_start, twitch_json, twitch_marker, twitch_status_value, twitch_user_refreshed,
    update_answer, validate_twitch_access, DeviceCheck, UserStep,
};
use accessible_obs::TwitchConfig;

fn json(s: &str) -> Json {
    Json::parse(s).unwrap()
}

fn ok(s: &str) -> ObsReply {
    Ok(json(s))
}

fn message(r: &Refusal) -> &str {
    r.error.message.as_str()
}

fn success(data: &str) -> Json {
    json(&format!(
        r#"{{"requestStatus":{{"result":true}},"responseData":{data}}}"#
    ))
}

fn failure() -> Json {
    json(r#"{"requestStatus":{"result":false,"comment":"нет"}}"#)
}

// --- the raw endpoint ---

fn only_reading_requests_pass() {
    assert!(raw_obs_allowed("GetStreamStatus"));
    assert!(raw_obs_allowed("GetRecordStatus"));
    assert!(!raw_obs_allowed("SetCurrentProgramScene"));
    assert!(!raw_obs_allowed("SetStreamServiceSettings"));
}

#[test]
fn host_agent_raw_obs_endpoint_is_allowlisted() {
    only_reading_requests_pass();
}

#[test]
fn main_raw_obs_endpoint_is_allowlisted() {
    only_reading_requests_pass();
}

#[test]
fn raw_requests_are_passed_or_refused() {
    let passed = obs_request(&json(r#"{"requestType":"GetStreamStatus"}"#)).unwrap();
    assert_eq!(passed.request_type, "GetStreamStatus");
    assert_eq!(passed.request_data.to_text(), "{}");
    let refused = obs_request(&json(r#"{"requestType":"StopStream"}"#)).unwrap_err();
    assert_eq!(refused.status, 403);
    let missing = obs_request(&json("{}")).unwrap_err();
    assert_eq!(missing.status, 400);
    assert_eq!(message(&missing), "requestType обязателен");
    assert_eq!(
        missing.body().to_text(),
        r#"{"error":{"message":"requestType обязателен"}}"#
    );
}

// --- adding sources ---

#[test]
fn input_kind_exists_matches_obs_list() {
    let kinds = json(r#"{"inputKinds": ["browser_source", "dshow_input"]}"#);
    assert!(input_kind_exists(&kinds, "browser_source"));
    assert!(input_kind_exists(&kinds, "dshow_input"));
    assert!(!input_kind_exists(&kinds, "not_from_obs"));
}

const WANTED: &str = r#"{"sceneName":"Игра","sourceName":"Окно","inputKind":"window_capture"}"#;

#[test]
fn a_new_source_is_created() {
    let (req, step) = obs_source_create(&json(WANTED)).unwrap();
    assert!(matches!(step, CreateStep::Ask { request_type: "GetInputKindList", .. }));
    let step = create_advance(&req, CreateStage::Kinds, &ok(r#"{"inputKinds":["window_capture"]}"#));
    assert!(matches!(step, CreateStep::Ask { request_type: "GetInputList", .. }));
    match create_advance(&req, CreateStage::Inputs, &ok(r#"{"inputs":[]}"#)) {
        CreateStep::Ask { request_type, data, next } => {
            assert_eq!(request_type, "CreateInput");
            assert_eq!(data.get_str("sceneName"), Some("Игра"));
            assert_eq!(data.get_bool("sceneItemEnabled"), Some(true));
            assert_eq!(next, CreateStage::Create);
        }
        _ => panic!("it is created"),
    }
    match create_advance(&req, CreateStage::Create, &ok(r#"{"sceneItemId":5}"#)) {
        CreateStep::Done(Ok(v)) => {
            assert_eq!(v.get_int("sceneItemId"), Some(5));
            assert_eq!(v.get_bool("createdInput"), Some(true));
            assert_eq!(v.get_bool("alreadyExisted"), Some(false));
        }
        _ => panic!("done"),
    }
}

#[test]
fn an_existing_source_is_added_only_with_the_same_kind() {
    let (req, _) = obs_source_create(&json(WANTED)).unwrap();
    let same = ok(r#"{"inputs":[{"inputName":"Окно","inputKind":"window_capture"}]}"#);
    assert!(matches!(
        create_advance(&req, CreateStage::Inputs, &same),
        CreateStep::Ask { request_type: "GetSceneItemList", .. }
    ));
    let other = ok(r#"{"inputs":[{"inputName":"Окно","inputKind":"browser_source"}]}"#);
    match create_advance(&req, CreateStage::Inputs, &other) {
        CreateStep::Done(Err(e)) => {
            assert_eq!(e.status, 409);
            assert_eq!(
                message(&e),
                "Имя «Окно» уже занято источником типа browser_source, а вы создаёте window_capture. Выберите другое имя или добавьте существующий источник в сцену."
            );
        }
        _ => panic!("a conflict"),
    }
    match create_advance(
        &req,
        CreateStage::Items,
        &ok(r#"{"sceneItems":[{"sourceName":"Окно","sceneItemId":3}]}"#),
    ) {
        CreateStep::Done(Ok(v)) => {
            assert_eq!(v.get_int("sceneItemId"), Some(3));
            assert_eq!(v.get_bool("createdSceneItem"), Some(false));
            assert_eq!(v.get_bool("alreadyExisted"), Some(true));
        }
        _ => panic!("it lies there already"),
    }
    assert!(matches!(
        create_advance(&req, CreateStage::AddItem, &ok("{}")),
        CreateStep::Done(Err(e)) if e.error.detail.as_deref() == Some("OBS не вернул id созданного элемента сцены")
    ));
    assert_eq!(
        existing_input_kind(&json(r#"{"inputs":[{"inputName":"a","inputKind":"k"}]}"#), "a").as_deref(),
        Some("k")
    );
}

#[test]
fn a_source_of_an_unknown_kind_is_refused() {
    let (req, _) = obs_source_create(&json(WANTED)).unwrap();
    match create_advance(&req, CreateStage::Kinds, &ok(r#"{"inputKinds":[]}"#)) {
        CreateStep::Done(Err(e)) => {
            assert_eq!(e.status, 400);
            assert!(message(&e).contains("window_capture"));
        }
        _ => panic!("refused"),
    }
    let blank = obs_source_create(&json(r#"{"sceneName":"Игра","sourceName":"  "}"#));
    match blank {
        Err(e) => assert_eq!(message(&e), "Название источника обязательно"),
        Ok(_) => panic!("refused"),
    }
}

// --- roles and the mixer ---

fn roles_of_slots() -> Table<accessible_obs::audio::InputRole> {
    special_input_roles(&json(
        r#"{
        "desktop1": "Звук раб. стола",
        "desktop2": "",
        "mic1": "Петличка Васи",
        "mic2": "Запасной",
        "mic3": "",
        "mic4": ""
    }"#,
    ))
}

fn slots_are_labelled() {
    let roles = roles_of_slots();
    assert_eq!(roles.get("Петличка Васи").map(|r| r.name()), Some("mic"));
    assert_eq!(roles.get("Запасной").map(|r| r.name()), Some("mic"));
    assert_eq!(roles.get("Звук раб. стола").map(|r| r.name()), Some("desktop"));
    assert_eq!(roles.len(), 3);
    assert!(!roles.contains_key(""));
}

fn missing_slots_are_tolerated() {
    assert!(special_input_roles(&json("{}")).is_empty());
    assert!(special_input_roles(&Json::Null).is_empty());
}

#[test]
fn host_agent_special_inputs_are_labelled_by_obs_not_by_name() {
    slots_are_labelled();
}

#[test]
fn main_special_inputs_are_labelled_by_obs_not_by_name() {
    slots_are_labelled();
}

#[test]
fn host_agent_special_inputs_tolerate_missing_slots() {
    missing_slots_are_tolerated();
}

#[test]
fn main_special_inputs_tolerate_missing_slots() {
    missing_slots_are_tolerated();
}

fn mixer_head() -> Vec<Json> {
    vec![
        success(
            r#"{"inputs":[{"inputName":"Микрофон","inputKind":"wasapi_input_capture"},
                {"inputName":"Картинка","inputKind":"image_source"}]}"#,
        ),
        success(r#"{"mic1":"Микрофон"}"#),
    ]
}

#[test]
fn the_mixer_shows_all_inputs_with_sound() {
    let (mut work, head) = AudioWork::obs_audio(Some("  "));
    assert_eq!(head.len(), 2);
    match work.advance(Heard::Many(Ok(mixer_head()))) {
        AudioNext::AskAll(batch) => {
            assert_eq!(batch.len(), 4);
            assert_eq!(batch[0].request_type, "GetInputVolume");
            assert_eq!(batch[3].request_type, "GetInputMute");
            assert_eq!(batch[3].request_data.get_str("inputName"), Some("Картинка"));
        }
        _ => panic!("the sound is asked for"),
    }
    let replies = vec![
        success(r#"{"inputVolumeMul":0.5,"inputVolumeDb":-6.0}"#),
        success(r#"{"inputMuted":false}"#),
        failure(),
        failure(),
    ];
    match work.advance(Heard::Many(Ok(replies))) {
        AudioNext::Done(Ok(rows)) => {
            assert_eq!(rows.len(), 1);
            assert!(matches!(rows[0].volume, Volume::Decibels(_)));
            let row = rows[0].value(Json::Int(-6));
            assert_eq!(row.get_str("inputName"), Some("Микрофон"));
            assert_eq!(row.get_str("role"), Some("mic"));
            assert_eq!(row.get_bool("muted"), Some(false));
            assert_eq!(row.get_int("sceneUseCount"), Some(0));
            let answer = audio_answer(vec![row], None);
            assert_eq!(answer.get_array("audio").unwrap().len(), 1);
            assert!(matches!(answer.get("scene"), Some(Json::Null)));
        }
        _ => panic!("the rows"),
    }
    assert_eq!(work.stage, AudioStage::Over);
}

#[test]
fn the_mixer_of_a_scene_counts_uses() {
    let (mut work, _) = AudioWork::obs_audio(Some(" Игра "));
    match work.advance(Heard::Many(Ok(mixer_head()))) {
        AudioNext::Ask(item) => assert_eq!(item.request_type, "GetSceneList"),
        _ => panic!("scenes"),
    }
    match work.advance(Heard::One(ok(
        r#"{"scenes":[{"sceneName":"Игра"},{"sceneName":"Пауза"}]}"#,
    ))) {
        AudioNext::AskAll(batch) => assert_eq!(batch.len(), 2),
        _ => panic!("items of all scenes"),
    }
    let items = r#"{"sceneItems":[{"sourceName":"Микрофон","sceneItemId":4,"sceneItemEnabled":true}]}"#;
    match work.advance(Heard::Many(Ok(vec![success(items), success(items)]))) {
        AudioNext::Ask(item) => {
            assert_eq!(item.request_data.get_str("sceneName"), Some("Игра"))
        }
        _ => panic!("items of the scene"),
    }
    assert!(matches!(
        work.advance(Heard::One(ok(items))),
        AudioNext::AskAll(_)
    ));
    match work.advance(Heard::Many(Ok(vec![
        success(r#"{"inputVolumeMul":1}"#),
        failure(),
    ]))) {
        AudioNext::Done(Ok(rows)) => {
            assert_eq!(rows[0].uses, 2);
            assert!(matches!(rows[0].volume, Volume::Multiplier(_)));
            // The scene does not tell the kind, the list of inputs does.
            assert_eq!(rows[0].source.kind.as_str(), Some("wasapi_input_capture"));
            assert_eq!(rows[0].value(Json::Int(0)).get_int("sceneItemId"), Some(4));
        }
        _ => panic!("the rows"),
    }
}

#[test]
fn the_mixer_gives_up_only_for_a_reason() {
    let (mut work, _) = AudioWork::obs_audio(None);
    match work.advance(Heard::Many(Err("нет связи".into()))) {
        AudioNext::Done(Err(e)) => {
            assert_eq!(e.status, 500);
            assert_eq!(message(&e), "Не удалось получить список источников");
            assert_eq!(e.error.detail.as_deref(), Some("нет связи"));
        }
        _ => panic!("given up"),
    }
    let (mut work, _) = AudioWork::obs_audio(None);
    match work.advance(Heard::Many(Ok(vec![success(r#"{"inputs":[]}"#)]))) {
        AudioNext::Done(Ok(rows)) => assert!(rows.is_empty()),
        _ => panic!("nothing to ask"),
    }
    let (mut work, _) = AudioWork::obs_audio(Some("Игра"));
    work.advance(Heard::Many(Ok(mixer_head())));
    // That the uses cannot be counted does not matter.
    assert!(matches!(
        work.advance(Heard::One(Err("нет".into()))),
        AudioNext::Ask(_)
    ));
    assert!(matches!(
        work.advance(Heard::One(Err("нет".into()))),
        AudioNext::Done(Err(_))
    ));
}

// --- readiness ---

#[test]
fn without_a_connection_the_check_says_only_that() {
    let v = readiness_without_obs();
    assert_eq!(v.get_array("checks").unwrap().len(), 1);
    assert_eq!(
        v.get_array("checks").unwrap()[0].get_str("severity"),
        Some("critical")
    );
}

#[test]
fn the_check_follows_nested_scenes_and_asks_what_is_active() {
    let (mut work, head) = ReadyWork::preflight();
    assert_eq!(head.len(), 7);
    let replies = vec![
        success(r#"{"currentProgramSceneName":"Игра"}"#),
        success(r#"{"inputs":[{"inputName":"Петличка","inputKind":"wasapi_input_capture"},
            {"inputName":"Окно","inputKind":"window_capture"}]}"#),
        success(r#"{"mic1":"Другой"}"#),
        success(r#"{"availableDiskSpace":80000.5}"#),
        success(r#"{"outputActive":false}"#),
        success(r#"{"outputActive":true}"#),
        success(r#"{"streamServiceSettings":{"key":" k "}}"#),
    ];
    match work.advance(Ok(replies)) {
        ReadyNext::Ask(batch) => {
            assert_eq!(batch.len(), 2);
            assert_eq!(batch[0].request_type, "GetInputMute");
        }
        _ => panic!("mutes"),
    }
    work.advance(Ok(vec![success(r#"{"inputMuted":false}"#), failure()]));
    match work.advance(Ok(vec![success(r#"{"videoActive":true}"#), failure()])) {
        ReadyNext::Ask(batch) => {
            assert_eq!(batch[0].request_type, "GetSceneItemList");
            assert_eq!(batch[0].request_data.get_str("sceneName"), Some("Игра"));
        }
        _ => panic!("items"),
    }
    let items = r#"{"sceneItems":[
        {"sourceName":"Окно","inputKind":"window_capture","sceneItemEnabled":true},
        {"sourceName":"Группа","isGroup":true},
        {"sourceName":"Сцена","sourceType":"OBS_SOURCE_TYPE_SCENE"},
        {"sourceName":"Сцена","sourceType":"OBS_SOURCE_TYPE_SCENE"}]}"#;
    match work.advance(Ok(vec![success(items)])) {
        ReadyNext::Ask(batch) => {
            assert_eq!(batch.len(), 2);
            assert_eq!(batch[0].request_type, "GetGroupSceneItemList");
            assert_eq!(batch[1].request_type, "GetSceneItemList");
        }
        _ => panic!("nested"),
    }
    assert_eq!(work.stage, ReadyStage::Nested);
    let inner = r#"{"sceneItems":[{"sourceName":"Камера","inputKind":"dshow_input"}]}"#;
    match work.advance(Ok(vec![success(inner), failure()])) {
        ReadyNext::Ask(batch) => {
            assert!(batch.iter().all(|q| q.request_type == "GetSourceActive"));
            assert_eq!(batch.len(), 5);
        }
        _ => panic!("activity"),
    }
    let active = vec![
        success(r#"{"videoActive":true}"#),
        failure(),
        failure(),
        failure(),
        success(r#"{"videoActive":false}"#),
    ];
    assert!(matches!(work.advance(Ok(active)), ReadyNext::Gathered));

    let sources = work.sources();
    assert_eq!(sources.len(), 4);
    assert_eq!(sources[0].active, Verdict::Good);
    assert_eq!(sources[1].children.len(), 1);
    assert_eq!(sources[1].children[0].name, "Камера");
    assert_eq!(sources[1].children[0].active, Verdict::Broken);
    // OBS did not tell what the nested scene holds: there may be a picture, nobody knows.
    assert_eq!(sources[2].children.len(), 1);
    assert_eq!(sources[2].children[0].active, Verdict::Unknown);
    assert_eq!(sources[2].children[0].name, "");

    let roles = SourceRoles {
        microphone: Some(" Петличка ".into()),
        camera: Some("Камера".into()),
    };
    let mut levels: Table<Reading> = Table::new();
    levels.put("Петличка", Reading { bits: (-20.0f64).to_bits() });
    let audio = work.audio(&roles, &levels);
    assert_eq!(audio.len(), 1);
    assert_eq!(audio[0].role.as_deref(), Some("mic"));
    assert!(audio[0].in_program_output);

    let s = snapshot(
        Some("32.2.1".into()),
        &work.head,
        sources,
        audio,
        &roles,
        None,
        true,
    );
    assert_eq!(s.current_scene.as_deref(), Some("Игра"));
    assert!(s.stream_service_configured && s.recording && !s.streaming);
    assert_eq!(s.free_disk_mb.bits, 80_000.5f64.to_bits());
    assert_eq!(s.camera.as_deref(), Some("Камера"));
    let v = readiness_answer(&s);
    let checks = v.get_array("checks").unwrap();
    assert!(checks
        .iter()
        .any(|c| c.get_str("detail") == Some("Петличка включён")));
    assert!(v.get_str("summary").is_some());
}

#[test]
fn only_the_first_batch_is_vital_to_the_check() {
    let (mut work, _) = ReadyWork::preflight();
    match work.advance(Err("нет связи".into())) {
        ReadyNext::Refused(e) => assert_eq!(message(&e), "Не удалось опросить OBS"),
        _ => panic!("refused"),
    }
    let (mut work, _) = ReadyWork::preflight();
    work.advance(Ok(vec![]));
    work.advance(Err("x".into()));
    // Without a scene on air there is nothing more to ask.
    assert!(matches!(work.advance(Err("x".into())), ReadyNext::Gathered));
    assert_eq!(active_verdict(None), Verdict::Unknown);
    assert_eq!(Severity::Good, Severity::Good);
}

#[test]
fn verdicts_about_the_overlay_are_taken_as_they_are() {
    let v = accessible_obs::donations::DonationVerification {
        audible: Verdict::Broken,
        in_overlay_scene: Verdict::Unknown,
        on_top_everywhere: Verdict::Good,
        problems: vec![],
    };
    let o = donation_overlay_state(&v);
    assert_eq!(o.audible, Verdict::Broken);
    assert_eq!(o.present_in_scenes, Verdict::Unknown);
    assert_eq!(o.on_top, Verdict::Good);
}

// --- other commands ---

#[test]
fn simple_commands_ask_and_complain() {
    let start = SimpleCommand::StreamStart.request();
    assert_eq!(start.request_type, "StartStream");
    assert_eq!(start.request_data.to_text(), "{}");
    let e = SimpleCommand::StreamStart.answer(Err("занято".into())).unwrap_err();
    assert_eq!(
        e.body().to_text(),
        r#"{"error":{"detail":"занято","message":"Не удалось начать эфир"}}"#
    );
    assert!(SimpleCommand::Transitions.answer(ok("{}")).is_ok());
    assert!(conclude("x", ok("1")).is_ok());
    let chosen = Choice::Profile.request(&json(r#"{"profileName":"p"}"#)).unwrap();
    assert_eq!(chosen.request_type, "SetCurrentProfile");
    assert_eq!(chosen.request_data.to_text(), r#"{"profileName":"p"}"#);
    let e = Choice::Collection.request(&json("{}")).unwrap_err();
    assert_eq!(message(&e), "sceneCollectionName обязателен");
    assert!(Choice::Transition.answer(Err("x".into())).is_err());
}

#[test]
fn scenes_and_sources_are_named() {
    assert_eq!(
        obs_scene_create(&json(r#"{"sceneName":" Игра "}"#)).unwrap().request_data.to_text(),
        r#"{"sceneName":"Игра"}"#
    );
    assert_eq!(
        message(&obs_scene_create(&json("{}")).unwrap_err()),
        "Название сцены обязательно"
    );
    assert!(obs_sources(None).is_err());
    assert_eq!(obs_sources(Some("a")).unwrap().request_type, "GetSceneItemList");
    assert_eq!(obs_input_kinds().request_data.to_text(), r#"{"unversioned":false}"#);
    assert_eq!(
        obs_source_properties(&json(r#"{"sourceName":"s"}"#)).unwrap().request_type,
        "OpenInputPropertiesDialog"
    );
    assert_eq!(
        properties_answer("s", ok("{}")).unwrap().to_text(),
        r#"{"inputName":"s","obs":{}}"#
    );
    assert!(obs_source_settings(Some(" ")).is_err());
    let set = obs_source_settings_set(&json(r#"{"sourceName":"s","inputSettings":{"a":1}}"#)).unwrap();
    assert_eq!(
        set.request_data.to_text(),
        r#"{"inputName":"s","inputSettings":{"a":1},"overlay":true}"#
    );
    let e = obs_source_settings_set(&json(r#"{"sourceName":"s","inputSettings":[]}"#)).unwrap_err();
    assert_eq!(message(&e), "inputSettings должен быть объектом");
}

#[test]
fn visibility_goes_by_number_or_by_name() {
    match obs_source_visibility(&json(r#"{"sceneName":"s","enabled":true,"sceneItemId":4}"#)) {
        Ok(Visibility::Ready(item)) => assert_eq!(
            item.request_data.to_text(),
            r#"{"sceneItemEnabled":true,"sceneItemId":4,"sceneName":"s"}"#
        ),
        _ => panic!("ready"),
    }
    assert!(matches!(
        obs_source_visibility(&json(r#"{"sceneName":"s","enabled":true,"sourceName":"x"}"#)),
        Ok(Visibility::Lookup { .. })
    ));
    for (body, complaint) in [
        ("{}", "sceneName обязателен"),
        (r#"{"sceneName":"s"}"#, "enabled обязателен"),
        (r#"{"sceneName":"s","enabled":false}"#, "sourceName или sceneItemId обязателен"),
    ] {
        match obs_source_visibility(&json(body)) {
            Err(e) => assert_eq!(message(&e), complaint),
            Ok(_) => panic!("refused"),
        }
    }
    let list = ok(r#"{"sceneItems":[{"sourceName":"x","sceneItemId":8}]}"#);
    assert_eq!(
        visibility_found("s", "x", false, &list).unwrap().request_data.get_int("sceneItemId"),
        Some(8)
    );
    let e = visibility_found("s", "y", false, &list).unwrap_err();
    assert_eq!(e.error.detail.as_deref(), Some("y отсутствует в s"));
    assert!(find_scene_item_id(&Json::Null, "s", "y").is_err());
}

#[test]
fn sound_is_changed_by_name() {
    assert_eq!(
        obs_audio_mute(&json(r#"{"inputName":"a","muted":true}"#)).unwrap().request_data.to_text(),
        r#"{"inputMuted":true,"inputName":"a"}"#
    );
    assert_eq!(message(&obs_audio_mute(&json(r#"{"inputName":"a"}"#)).unwrap_err()), "muted обязателен");
    let v = obs_audio_volume(&json(r#"{"inputName":"a","volumeDb":-6.5}"#));
    match v {
        Ok(v) => match v.db {
            Json::Real(x) => assert_eq!(f64::from_bits(x.bits), -6.5),
            _ => panic!("a fraction"),
        },
        Err(_) => panic!("accepted"),
    }
    assert!(obs_audio_volume(&json(r#"{"inputName":"a","volumeDb":"x"}"#)).is_err());
    assert_eq!(
        set_volume("a", Json::Int(1)).request_data.to_text(),
        r#"{"inputName":"a","inputVolumeMul":1}"#
    );
}

#[test]
fn replay_preview_studio_and_start_answer() {
    assert_eq!(
        obs_replay(&ok("{}")).unwrap().to_text(),
        r#"{"available":true,"outputActive":false}"#
    );
    assert_eq!(
        obs_replay(&Err("Replay buffer is not available.".into())).unwrap().get_bool("available"),
        Some(false)
    );
    assert!(obs_replay(&Err("другое".into())).is_err());
    assert_eq!(preview_width(None), 480);
    assert_eq!(preview_width(Some("5")), 96);
    assert_eq!(preview_width(Some("99999")), 1920);
    assert_eq!(preview_width(Some("+640")), 640);
    assert_eq!(preview_width(Some("x")), 480);
    let p = obs_preview(&ok(r#"{"sceneName":"Игра"}"#), 640);
    match p {
        Ok(p) => assert_eq!(
            p.item.request_data.to_text(),
            r#"{"imageCompressionQuality":55,"imageFormat":"jpg","imageWidth":640,"sourceName":"Игра"}"#
        ),
        Err(_) => panic!("asked"),
    }
    assert!(obs_preview(&ok("{}"), 640).is_err());
    assert_eq!(
        preview_answer("Игра", ok(r#"{"imageData":"x"}"#)).unwrap().to_text(),
        r#"{"imageData":"x","sceneName":"Игра"}"#
    );
    assert!(studio_enabled(&ok(r#"{"studioModeEnabled":true}"#)).unwrap());
    assert_eq!(
        obs_studio(true, Some(ok(r#"{"currentPreviewSceneName":"P"}"#))).to_text(),
        r#"{"enabled":true,"previewScene":"P"}"#
    );
    assert_eq!(obs_studio(false, None).to_text(), r#"{"enabled":false,"previewScene":null}"#);
    assert_eq!(
        obs_studio_set(&json(r#"{"enabled":true}"#)).unwrap().request_type,
        "SetStudioModeEnabled"
    );
    assert_eq!(obs_launch(&Ok(true)).unwrap().get_bool("started"), Some(true));
    assert_eq!(obs_launch(&Ok(false)).unwrap().get_bool("started"), Some(false));
    assert!(obs_launch(&Err("нет".into())).is_err());
}

#[test]
fn errors_carry_message_and_detail() {
    let plain = ApiError::new("m");
    assert_eq!(plain.message, "m");
    assert!(plain.detail.is_none());
    assert_eq!(ApiError::detail("m", "d").detail.as_deref(), Some("d"));
}

// --- events ---

#[test]
fn levels_are_thinned_out_and_events_are_not() {
    let mut f = Forwarder::new();
    let meters = json(r#"{"eventType":"InputVolumeMeters"}"#);
    let scene = json(r#"{"eventType":"CurrentProgramSceneChanged"}"#);
    assert!(matches!(f.take(&meters, 1_000), Forward::Levels));
    assert!(matches!(f.take(&meters, 1_000 + LEVELS_INTERVAL_MS - 1), Forward::Skip));
    match f.take(&scene, 1_001) {
        Forward::Tell(v) => assert_eq!(
            v.to_text(),
            r#"{"event":{"eventType":"CurrentProgramSceneChanged"},"type":"obs"}"#
        ),
        _ => panic!("passed on"),
    }
    assert!(matches!(f.take(&meters, 1_000 + LEVELS_INTERVAL_MS), Forward::Levels));

    let mut store: Table<Reading> = Table::new();
    note_levels(
        &mut store,
        &vec![
            ("a".into(), Reading { bits: (-30.0f64).to_bits() }),
            ("b".into(), Reading { bits: (-9.0f64).to_bits() }),
            ("a".into(), Reading { bits: (-20.0f64).to_bits() }),
        ],
    );
    assert_eq!(store.len(), 2);
    assert_eq!(store.get("a").unwrap().bits, (-20.0f64).to_bits());
    assert!(levels_event(Fields::new()).is_none());
    assert_eq!(
        levels_event(Fields::new().put("a", Json::Int(-20))).unwrap().to_text(),
        r#"{"levels":{"a":-20},"type":"levels"}"#
    );
    assert_eq!(resync_event(3).to_text(), r#"{"lost":3,"type":"resync_required"}"#);
    assert_eq!(
        resync_event(u64::MAX).to_text(),
        r#"{"lost":18446744073709551615,"type":"resync_required"}"#
    );
}

#[test]
fn only_changes_of_the_connection_are_told() {
    let mut w = StatusWatch::new();
    let down = ObsStatus::default();
    let up = ObsStatus {
        connected: true,
        obs_version: Some("32".into()),
        ..ObsStatus::default()
    };
    assert!(w.take(&down).is_some());
    assert!(w.take(&down).is_none());
    let told = w.take(&up).unwrap();
    assert_eq!(
        told.to_text(),
        r#"{"status":{"connected":true,"obs_version":"32"},"type":"obs_status"}"#
    );
    assert_eq!(status_json(&down).to_text(), r#"{"connected":false}"#);
}

#[test]
fn counters_become_samples_and_alerts_events() {
    assert_eq!(health_questions().len(), 2);
    let s = health_sample(&vec![
        success(r#"{"availableDiskSpace":1000}"#),
        success(r#"{"outputTotalFrames":600,"outputSkippedFrames":30,"outputActive":true}"#),
    ]);
    assert!(s.streaming);
    assert_eq!(s.free_disk_mb.bits, 1000.0f64.to_bits());
    assert_eq!(s.total_frames.bits, 600.0f64.to_bits());
    let none = health_sample(&vec![]);
    assert!(!none.streaming);
    assert_eq!(none.total_frames.bits, 0);
    let v = alert_event(
        &Alert::FramesDropping { percent: Reading { bits: 5.0f64.to_bits() } },
        Json::Int(5),
    );
    assert_eq!(v.get("alert").unwrap().to_text(), r#"{"kind":"frames_dropping","percent":5}"#);
    assert_eq!(v.get_bool("urgent"), Some(true));
    let v = alert_event(&Alert::DiskRecovered, Json::Null);
    assert_eq!(v.get("alert").unwrap().to_text(), r#"{"kind":"disk_recovered"}"#);
}

#[test]
fn the_agent_says_how_it_runs() {
    assert_eq!(
        public_ping(&RuntimeMode::Local).to_text(),
        r#"{"app":"Accessible OBS","mode":"local","ok":true}"#
    );
    let mut cfg = HostConfig::default();
    assert_eq!(
        runtime_info(&cfg).to_text(),
        r#"{"loopback_only":false,"mode":"remote","tailscale_required":true}"#
    );
    assert_eq!(
        listen_addresses(&cfg, Some("100.64.0.5".into())),
        vec!["127.0.0.1", "100.64.0.5"]
    );
    cfg.runtime_mode = RuntimeMode::Local;
    assert_eq!(listen_addresses(&cfg, Some("100.64.0.5".into())), vec!["127.0.0.1"]);
    let facts = HealthFacts {
        tailscale_ip: None,
        tailscale_running: false,
        autostart: true,
        obs_process_running: false,
        obs_crashed_last_run: false,
    };
    let v = health_answer(&facts, &ObsStatus::default(), Json::Null, Json::Null);
    assert_eq!(v.get_str("tailscale"), Some("not_detected"));
    assert_eq!(v.get_bool("obs_controllable"), Some(false));
}

// --- Twitch ---

#[test]
fn a_refusal_of_twitch_is_never_a_success() {
    let e = twitch_json(401, r#"{"error":"Unauthorized","message":"Invalid token"}"#, "Создание метки")
        .unwrap_err();
    assert_eq!(e.status, 502);
    assert_eq!(
        message(&e),
        "Создание метки: Twitch ответил 401. Токен Twitch истёк — подключите Twitch заново."
    );
    assert_eq!(e.error.detail.as_deref(), Some("Invalid token"));
    let e = twitch_json(500, " сбой ", "X").unwrap_err();
    assert_eq!(message(&e), "X: Twitch ответил 500.");
    assert_eq!(e.error.detail.as_deref(), Some("сбой"));
    assert_eq!(twitch_json(204, "", "X").unwrap().to_text(), r#"{"ok":true}"#);
    assert_eq!(twitch_json(200, r#"{"a":1}"#, "X").unwrap().to_text(), r#"{"a":1}"#);
}

#[test]
fn the_code_of_twitch_is_waited_for() {
    let cfg = TwitchConfig { client_id: "c".into(), ..TwitchConfig::default() };
    let form = twitch_device_start(&cfg).unwrap();
    assert_eq!(form[0], ("client_id".to_string(), "c".to_string()));
    let empty = TwitchConfig { client_id: String::new(), ..TwitchConfig::default() };
    assert!(twitch_device_start(&empty).is_err());
    assert_eq!(device_code(&json(r#"{"device_code":"d"}"#)).as_deref(), Some("d"));
    assert!(device_form(&cfg, None).is_err());
    assert_eq!(device_form(&cfg, Some("d")).unwrap()[1].1, "d");
    match twitch_device_check(r#"{"access_token":"a"}"#) {
        DeviceCheck::Connected(v) => assert_eq!(v.get_str("access_token"), Some("a")),
        _ => panic!("connected"),
    }
    match twitch_device_check(r#"{"status":400,"message":"authorization_pending"}"#) {
        DeviceCheck::Waiting(v) => assert_eq!(v.get_str("status"), Some("pending")),
        _ => panic!("pending"),
    }
    match twitch_device_check(r#"{"message":"code expired"}"#) {
        DeviceCheck::Waiting(v) => assert_eq!(v.get_str("status"), Some("expired")),
        _ => panic!("expired"),
    }
    match twitch_device_check(" сбой ") {
        DeviceCheck::Refused(e) => {
            assert_eq!(e.status, 502);
            assert_eq!(e.error.detail.as_deref(), Some("сбой"));
        }
        _ => panic!("refused"),
    }
    assert_eq!(connected_answer().to_text(), r#"{"status":"connected"}"#);
}

#[test]
fn tokens_of_twitch_are_used_or_refreshed() {
    assert_eq!(stored_tokens(None).unwrap_err(), "Twitch не подключён");
    let tokens = stored_tokens(Some(r#"{"access_token":"a","refresh_token":"r"}"#)).unwrap();
    assert_eq!(held_access(&tokens).unwrap(), "a");
    assert_eq!(
        validate_twitch_access(true, "200 OK", r#"{"user_id":"7"}"#).unwrap(),
        "7"
    );
    assert_eq!(
        validate_twitch_access(false, "401 Unauthorized", r#"{"message":"bad"}"#).unwrap_err(),
        "Twitch token не прошёл validate: 401 Unauthorized bad"
    );
    assert!(validate_twitch_access(true, "200 OK", "{}").is_err());
    assert!(matches!(
        twitch_user_refreshed(&tokens, Ok("7".into())),
        UserStep::Use(u) if u == "7"
    ));
    assert!(matches!(
        twitch_user_refreshed(&tokens, Err("e".into())),
        UserStep::Refresh(r) if r == "r"
    ));
    assert!(matches!(
        twitch_user_refreshed(&json("{}"), Err("e".into())),
        UserStep::Fail(e) if e == "e"
    ));
    assert_eq!(refresh_form(&TwitchConfig::default(), "r")[2].1, "r");
    assert_eq!(
        refresh_twitch_tokens(false, "400 Bad Request", "x").unwrap_err(),
        "Twitch refresh_token отклонён: 400 Bad Request x"
    );
    assert_eq!(
        refresh_twitch_tokens(true, "200 OK", "{}").unwrap_err(),
        "Twitch не вернул access_token при обновлении"
    );
    assert_eq!(refreshed_access(&json(r#"{"access_token":"b"}"#)).unwrap(), "b");
    assert_eq!(
        twitch_marker("7", &json(r#"{"description":"м"}"#)).to_text(),
        r#"{"description":"м","user_id":"7"}"#
    );
}

#[test]
fn the_settings_of_twitch_are_checked() {
    let current = TwitchConfig { client_id: "old".into(), ..TwitchConfig::default() };
    assert!(twitch_config_set(&json("{}"), &current).is_err());
    let u = twitch_config_set(&json(r#"{"clientId":" new ","scopes":["a"]}"#), &current).unwrap();
    assert!(u.forget_tokens);
    assert_eq!(
        update_answer(&u).to_text(),
        r#"{"client_id":"new","ok":true,"scopes":["a"]}"#
    );
    assert!(!twitch_config_set(&json(r#"{"clientId":"old"}"#), &current).unwrap().forget_tokens);
    assert_eq!(twitch_config_get(&current).get_str("client_id"), Some("old"));
    let none = TwitchConfig { client_id: String::new(), ..TwitchConfig::default() };
    assert_eq!(twitch_status_value(&none, None).get_bool("configured"), Some(false));
    assert_eq!(
        twitch_status_value(&current, Some(Ok(()))).to_text(),
        r#"{"configured":true,"connected":true,"enabled":true}"#
    );
    assert_eq!(
        twitch_status_value(&current, Some(Err("x".into()))).get_str("message"),
        Some("x")
    );
}

#[test]
fn errands_complain_in_their_own_words() {
    assert_eq!(
        Errand::Raw.answer(ok(r#"{"a":1}"#)).unwrap().to_text(),
        r#"{"a":1}"#
    );
    for (errand, complaint) in [
        (Errand::Raw, "Команда OBS не выполнена"),
        (Errand::SceneCreate, "Не удалось создать сцену"),
        (Errand::Sources, "Не удалось получить источники сцены"),
        (Errand::InputKinds, "Не удалось получить типы источников OBS"),
        (Errand::Settings, "Не удалось получить настройки источника"),
        (Errand::SettingsSet, "Не удалось сохранить настройки источника"),
        (Errand::Visibility, "Не удалось изменить видимость источника"),
        (Errand::Mute, "Не удалось изменить mute"),
        (Errand::Volume, "Не удалось изменить громкость"),
        (Errand::StudioSet, "Не удалось переключить Studio Mode"),
        (Errand::WidgetRefresh, "Не удалось обновить виджет"),
        (Errand::WidgetMute, "Не удалось изменить mute DonationAlerts"),
        (Errand::WidgetVolume, "Не удалось изменить громкость DonationAlerts"),
    ] {
        let e = errand.answer(Err("нет".into())).unwrap_err();
        assert_eq!(message(&e), complaint);
        assert_eq!(e.error.detail.as_deref(), Some("нет"));
    }
}

/// A check with one capture of the sound of the system, of which OBS says this much.
fn capture_check(activity: Json) -> String {
    let (mut work, _) = ReadyWork::preflight();
    let mut head = vec![failure(), failure(), failure(), failure(), failure(), failure(), failure()];
    head[1] = success(
        r#"{"inputs":[{"inputName":"Звук","inputKind":"wasapi_output_capture"}]}"#,
    );
    work.advance(Ok(head));
    work.advance(Ok(vec![success(r#"{"inputMuted":false}"#)]));
    work.advance(Ok(vec![activity]));
    let none = SourceRoles {
        microphone: None,
        camera: None,
    };
    let audio = work.audio(&none, &Table::new());
    let s = snapshot(None, &work.head, vec![], audio, &none, None, false);
    let answer = readiness_answer(&s);
    let checks = answer.get_array("checks").unwrap();
    checks
        .iter()
        .find(|c| c.get_str("title") == Some("Звук рабочего стола"))
        .and_then(|c| c.get_text("severity"))
        .unwrap()
}

#[test]
fn an_unknown_capture_of_the_system_is_warned_of() {
    assert_eq!(capture_check(success(r#"{"videoActive":true}"#)), "warning");
    assert_eq!(capture_check(failure()), "warning");
    assert_eq!(capture_check(success(r#"{"videoActive":false}"#)), "ok");
}

/// The finding about the content of the scene, after OBS answered a question about a nested one.
fn content_finding(inner: Json) -> String {
    let (mut work, _) = ReadyWork::preflight();
    work.advance(Ok(vec![success(r#"{"currentProgramSceneName":"Игра"}"#)]));
    work.advance(Ok(vec![]));
    work.advance(Ok(vec![]));
    let items = r#"{"sceneItems":[
        {"sourceName":"Окно","inputKind":"window_capture"},
        {"sourceName":"Сцена","sourceType":"OBS_SOURCE_TYPE_SCENE"}]}"#;
    work.advance(Ok(vec![success(items)]));
    work.advance(Ok(vec![inner]));
    let active = r#"{"videoActive":true}"#;
    work.advance(Ok(vec![success(active), success(active)]));
    let roles = SourceRoles::default();
    let s = snapshot(None, &work.head, work.sources(), Vec::new(), &roles, None, true);
    let v = readiness_answer(&s);
    let checks = v.get_array("checks").unwrap();
    let check = checks
        .iter()
        .find(|c| c.get_str("title") == Some("Содержимое сцены"))
        .unwrap();
    check.get_str("severity").unwrap().to_string()
}

#[test]
fn a_nested_scene_that_obs_did_not_tell_of_is_no_green_light() {
    assert_eq!(content_finding(failure()), "warning");
    assert_eq!(content_finding(success("{}")), "warning");
    assert_eq!(content_finding(success(r#"{"sceneItems":[]}"#)), "ok");
}
