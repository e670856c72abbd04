//! Donations: the widget in OBS, the list, the connection to DonationAlerts.
use accessible_obs::config::DonationAlertsConfig;
use accessible_obs::donationalerts::{
    access_token, channel_of, channel_token, client_of, connect_frame, da_recent, da_widget_mute, da_widget_volume,
    donationalerts_status_value, extract_donations, frame_messages, heard_by_owner, held_access,
    read_account, read_reply, refreshed_access, stored_tokens, widget_refresh,
    widget_refresh_fallback, Awaited, DonationFeed, Endpoint, FeedAction, FeedHeard, FeedSession,
    FeedStatus, StatusFacts, TokenStep, Worker, IDLE_POLL_MS, MAX_RECENT, RETRY_MAX_MS,
    RETRY_MIN_MS,
};
use accessible_obs::donations::{
    audible_verdict, find_item_id, list_user_scenes, monitor_type, top_scene_item_index,
    verify_donationalerts, verify_overlay_on_top, DonationVerification, SoundReplies,
    VerificationReplies,
};
use accessible_obs::json::Json;
use accessible_obs::oauth::{
    apply_update, authorize_url, begin_callback, da_config_get, da_config_set, da_oauth_start,
    da_widget_url, exchange_form, exchange_outcome, finish_oauth, html_escape_text, refresh_form,
    start_with_state, stored_note, token_error_detail, update_response, CallbackQuery,
    CallbackStep, TokenOutcome,
};
use accessible_obs::preflight::Verdict;
use accessible_obs::reconcile::{report, Action, Reconcile, Stage};

fn json(s: &str) -> Json {
    Json::parse(s).unwrap()
}

fn configured() -> DonationAlertsConfig {
    DonationAlertsConfig {
        client_id: "id 1".into(),
        client_secret: "тайна".into(),
        redirect_uri: "http://127.0.0.1:8787/cb".into(),
        ..DonationAlertsConfig::default()
    }
}

// --- the widget in OBS ---

#[test]
fn owner_hears_donations_by_default() {
    for value in ["", "both", "on", "yes", "чепуха", "MONITOR_AND_OUTPUT"] {
        assert_eq!(
            monitor_type(value),
            "OBS_MONITORING_TYPE_MONITOR_AND_OUTPUT",
            "значение: {value:?}"
        );
    }
}

#[test]
fn silence_for_the_owner_must_be_asked_for_explicitly() {
    for value in ["off", "none", "OFF", " None ", "output"] {
        assert_eq!(
            monitor_type(value),
            "OBS_MONITORING_TYPE_NONE",
            "значение: {value:?}"
        );
    }
}

#[test]
fn monitor_only_keeps_alerts_out_of_the_stream() {
    for value in ["monitor", "monitor_only", "Monitor_Only"] {
        assert_eq!(
            monitor_type(value),
            "OBS_MONITORING_TYPE_MONITOR_ONLY",
            "значение: {value:?}"
        );
    }
}

#[test]
fn host_agent_top_index_is_the_last_position_not_zero() {
    assert_eq!(top_scene_item_index(3), 2);
    assert_eq!(top_scene_item_index(1), 0);
    assert_eq!(top_scene_item_index(0), 0);
}

#[test]
fn main_top_index_is_the_last_position_not_zero() {
    assert_eq!(top_scene_item_index(3), 2);
    assert_eq!(top_scene_item_index(1), 0);
    assert_eq!(top_scene_item_index(0), 0);
}

fn good_sound() -> SoundReplies {
    SoundReplies {
        mute: Ok(json(r#"{"inputMuted":false}"#)),
        volume: Ok(json(r#"{"inputVolumeMul":0.5}"#)),
        monitoring: Ok(json(
            r#"{"monitorType":"OBS_MONITORING_TYPE_MONITOR_AND_OUTPUT"}"#,
        )),
        settings: Ok(json(
            r#"{"inputSettings":{"reroute_audio":true,"url":"https://da.example/x"}}"#,
        )),
    }
}

#[test]
fn a_widget_in_order_can_be_heard() {
    let found = audible_verdict("RSC_DonationAlerts", &good_sound());
    assert_eq!(found.verdict, Verdict::Good);
    assert!(found.problems.is_empty());
}

#[test]
fn each_way_to_lose_the_sound_is_found() {
    let muted = SoundReplies {
        mute: Ok(json(r#"{"inputMuted":true}"#)),
        ..good_sound()
    };
    assert_eq!(audible_verdict("w", &muted).verdict, Verdict::Broken);
    let quiet = SoundReplies {
        volume: Ok(json(r#"{"inputVolumeMul":0.00001}"#)),
        ..good_sound()
    };
    assert_eq!(audible_verdict("w", &quiet).verdict, Verdict::Broken);
    let monitor = SoundReplies {
        monitoring: Ok(json(r#"{"monitorType":"OBS_MONITORING_TYPE_MONITOR_ONLY"}"#)),
        ..good_sound()
    };
    assert_eq!(audible_verdict("w", &monitor).verdict, Verdict::Broken);
    let silent = SoundReplies {
        settings: Err("нет ответа".into()),
        ..good_sound()
    };
    let found = audible_verdict("w", &silent);
    assert_eq!(found.verdict, Verdict::Unknown);
    assert_eq!(found.problems.len(), 1);
}

#[test]
fn scenes_of_the_user_leave_the_overlay_out() {
    let list = json(r#"{"scenes":[{"sceneName":"Игра"},{"sceneName":"RSC_OVERLAYS"},{"x":1}]}"#);
    assert_eq!(list_user_scenes(&list, "RSC_OVERLAYS"), vec!["Игра".to_string()]);
    let items = json(r#"{"sceneItems":[{"sourceName":"a","sceneItemId":4}]}"#);
    assert_eq!(find_item_id(&items, "a"), Some(4));
    assert_eq!(find_item_id(&items, "b"), None);
}

#[test]
fn an_overlay_below_another_layer_is_reported() {
    let list = Ok(json(r#"{"scenes":[{"sceneName":"Игра"}]}"#));
    let below = vec![Ok(json(
        r#"{"sceneItems":[
            {"sourceName":"RSC_OVERLAYS","sceneItemIndex":0,"sceneItemEnabled":true},
            {"sourceName":"Захват","sceneItemIndex":1,"sceneItemEnabled":true}]}"#,
    ))];
    let found = verify_overlay_on_top("RSC_OVERLAYS", &list, &below);
    assert_eq!(found.verdict, Verdict::Broken);
    let unanswered = vec![Err("нет".to_string())];
    let found = verify_overlay_on_top("RSC_OVERLAYS", &list, &unanswered);
    assert_eq!(found.verdict, Verdict::Unknown);
}

#[test]
fn nothing_is_ready_before_all_was_looked_at() {
    let cfg = DonationAlertsConfig::default();
    let replies = VerificationReplies {
        sound: good_sound(),
        overlay_items: Err("нет".into()),
        item_enabled: Err("нет".into()),
        scene_list: Err("нет".into()),
        scenes: vec![],
    };
    let v = verify_donationalerts(&cfg, &replies);
    assert_eq!(v.audible, Verdict::Good);
    assert_eq!(v.in_overlay_scene, Verdict::Unknown);
    assert_eq!(v.on_top_everywhere, Verdict::Unknown);
    assert!(!v.is_ready());
    assert!(DonationVerification {
        audible: Verdict::Good,
        in_overlay_scene: Verdict::Good,
        on_top_everywhere: Verdict::Good,
        problems: vec![],
    }
    .is_ready());
}

#[test]
fn the_overlay_is_built_up_step_by_step() {
    let cfg = DonationAlertsConfig::default();
    let url = "https://da.example/widget";
    assert!(Reconcile::start(None).is_err());
    let (mut work, mut action) = Reconcile::start(Some(url)).unwrap();
    let mut asked: Vec<String> = Vec::new();
    for _ in 0..40 {
        let reply = match &action {
            Action::Request { request_type, .. } => {
                asked.push(request_type.to_string());
                match request_type.to_string().as_str() {
                    "GetSceneList" => Ok(json(r#"{"scenes":[{"sceneName":"Игра"}]}"#)),
                    "GetVideoSettings" => Ok(json(r#"{"baseWidth":1920,"baseHeight":1080}"#)),
                    "GetInputList" => Ok(json(r#"{"inputs":[]}"#)),
                    "GetSceneItemList" => Ok(json(
                        r#"{"sceneItems":[{"sourceName":"Захват","sceneItemId":1}]}"#,
                    )),
                    "CreateSceneItem" => Ok(json(r#"{"sceneItemId":9}"#)),
                    _ => Ok(json("{}")),
                }
            }
            Action::RestoreSound => Ok(Json::Null),
            _ => break,
        };
        let (next, then) = work.advance(&cfg, url, &reply);
        work = next;
        action = then;
    }
    assert_eq!(work.stage, Stage::Done);
    assert!(matches!(action, Action::Verify));
    assert_eq!(work.added, 1);
    assert!(work.created);
    assert!(asked.contains(&"CreateScene".to_string()));
    assert!(asked.contains(&"SetSceneItemIndex".to_string()));
    let verified = DonationVerification {
        audible: Verdict::Good,
        in_overlay_scene: Verdict::Good,
        on_top_everywhere: Verdict::Good,
        problems: vec![],
    };
    assert_eq!(report(&work, &cfg, &verified).get_bool("ready"), Some(true));
}

#[test]
fn a_name_taken_by_another_kind_stops_the_work() {
    let cfg = DonationAlertsConfig::default();
    let (mut work, _) = Reconcile::start(Some("https://x")).unwrap();
    for reply in [
        r#"{"scenes":[{"sceneName":"RSC_OVERLAYS"}]}"#,
        "{}",
        r#"{"inputs":[{"inputName":"RSC_DonationAlerts","inputKind":"image_source"}]}"#,
    ] {
        let (next, action) = work.advance(&cfg, "https://x", &Ok(json(reply)));
        work = next;
        if let Action::Fail(e) = action {
            assert!(e.contains("уже занято"), "{e}");
        }
    }
    assert_eq!(work.stage, Stage::Failed);
}

// --- the list ---

#[test]
fn extracts_donation_from_centrifugo_push() {
    let frame = r#"{"result":{"channel":"$alerts:donation_1","data":{"data":{"id":42,"username":"Гость","amount":100,"currency":"RUB","message":"Привет"}}}}"#;
    let out = extract_donations(frame);
    assert_eq!(out.len(), 1);
    assert_eq!(out[0].get_int("id"), Some(42));
    assert_eq!(out[0].get_str("username"), Some("Гость"));
}

#[test]
fn ignores_command_replies_and_blank_lines() {
    let frame = "{\"id\":2,\"result\":{}}\n\n{\"id\":1,\"result\":{\"client\":\"abc\"}}";
    assert!(extract_donations(frame).is_empty());
}

#[test]
fn handles_multiple_pushes_in_one_frame() {
    let frame = concat_lines(
        r#"{"result":{"channel":"c","data":{"data":{"id":1}}}}"#,
        r#"{"result":{"channel":"c","data":{"data":{"id":2}}}}"#,
    );
    let out = extract_donations(&frame);
    assert_eq!(out.len(), 2);
    assert_eq!(out[1].get_int("id"), Some(2));
}

fn concat_lines(a: &str, b: &str) -> String {
    format!("{a}\n{b}")
}

#[test]
fn feed_keeps_newest_first_and_caps_history() {
    let mut feed = DonationFeed::new();
    for i in 0..(MAX_RECENT + 10) {
        feed.push(json(&format!("{{\"id\": {i}}}")));
    }
    let recent = feed.recent();
    assert_eq!(recent.len(), MAX_RECENT);
    assert_eq!(recent[0].get_int("id"), Some(MAX_RECENT as i64 + 9));
}

#[test]
fn status_change_is_broadcast_once() {
    let mut feed = DonationFeed::new();
    let connected = || FeedStatus {
        connected: true,
        user_name: Some("tester".into()),
        error: None,
    };
    let msg = feed.set_status(connected()).expect("статус разослан");
    assert_eq!(msg.get_str("type"), Some("donationalerts_status"));
    assert_eq!(
        msg.get("status").unwrap().get_bool("connected"),
        Some(true)
    );
    assert!(feed.set_status(connected()).is_none());
    assert_eq!(feed.status().user_name.as_deref(), Some("tester"));
}

#[test]
fn a_donation_is_told_and_listed() {
    let mut feed = DonationFeed::new();
    let told = feed.push(json(r#"{"id":7}"#));
    assert_eq!(told.get_str("type"), Some("donation"));
    assert_eq!(told.get("donation").unwrap().get_int("id"), Some(7));
    let list = da_recent(&feed);
    assert_eq!(list.get_array("donations").unwrap().len(), 1);
    assert_eq!(list.to_text(), r#"{"donations":[{"id":7}]}"#);
}

#[test]
fn replies_are_found_by_their_number() {
    let frame = "{\"result\":{\"data\":{}}}\nмусор\n{\"id\":1,\"result\":{\"client\":\"abc\"}}";
    match read_reply(frame, 1) {
        Awaited::Done(v) => assert_eq!(client_of(&v).unwrap(), "abc"),
        _ => panic!("the reply is there"),
    }
    assert!(matches!(read_reply(frame, 2), Awaited::NotYet));
    match read_reply(r#"{"id":2,"error":{"message":"нет"}}"#, 2) {
        Awaited::Refused(e) => assert_eq!(e, "Centrifugo отклонил команду 2: нет"),
        _ => panic!("refused"),
    }
    assert_eq!(frame_messages(frame).len(), 2);
}

#[test]
fn a_subscription_goes_its_course() {
    let mut session = FeedSession::new();
    let user = json(
        r#"{"data":{"id":77,"socket_connection_token":"tok","name":"Вася"}}"#,
    );
    let account = read_account(&user).unwrap();
    assert_eq!(channel_of(&account), "$alerts:donation_77");
    assert_eq!(connect_frame(&account).to_text(), r#"{"id":1,"params":{"token":"tok"}}"#);
    match session.session(FeedHeard::Reply(Ok(user))) {
        FeedAction::Open(v) => assert_eq!(v.get_int("id"), Some(1)),
        _ => panic!("open"),
    }
    // A push that comes in between does not matter.
    let push = r#"{"result":{"data":{"data":{"id":1}}}}"#;
    assert!(matches!(
        session.session(FeedHeard::Messages(frame_messages(push))),
        FeedAction::Wait
    ));
    match session.session(FeedHeard::Messages(frame_messages(
        r#"{"id":1,"result":{"client":"c-1"}}"#,
    ))) {
        FeedAction::Sign(v) => assert_eq!(
            v.to_text(),
            r#"{"channels":["$alerts:donation_77"],"client":"c-1"}"#
        ),
        _ => panic!("sign"),
    }
    match session.session(FeedHeard::Reply(Ok(json(
        r#"{"channels":[{"token":"signed"}]}"#,
    )))) {
        FeedAction::Send(v) => {
            let params = v.get("params").unwrap();
            assert_eq!(params.get_str("channel"), Some("$alerts:donation_77"));
            assert_eq!(params.get_str("token"), Some("signed"));
            assert_eq!(v.get_int("method"), Some(1));
        }
        _ => panic!("subscribe"),
    }
    match session.session(FeedHeard::Messages(frame_messages(r#"{"id":2,"result":{}}"#))) {
        FeedAction::Announce(s) => {
            assert!(s.connected);
            assert_eq!(s.user_name.as_deref(), Some("Вася"));
        }
        _ => panic!("announce"),
    }
    match session.session(FeedHeard::Messages(frame_messages(push))) {
        FeedAction::Donations(list) => assert_eq!(list.len(), 1),
        _ => panic!("donations"),
    }
    match session.session(FeedHeard::Tick) {
        FeedAction::Send(v) => assert_eq!(v.to_text(), r#"{"id":101,"method":7}"#),
        _ => panic!("ping"),
    }
    match session.session(FeedHeard::Closed) {
        FeedAction::End(s) => assert!(!s.connected && s.error.is_none()),
        _ => panic!("end"),
    }
    assert!(matches!(session.session(FeedHeard::Tick), FeedAction::Wait));
}

#[test]
fn every_failure_of_a_subscription_is_named() {
    let fail = |first: &str, then: FeedHeard| -> String {
        let mut session = FeedSession::new();
        let mut action = session.session(FeedHeard::Reply(Ok(json(first))));
        if let FeedAction::Open(_) = action {
            action = session.session(then);
        }
        match action {
            FeedAction::End(s) => s.error.unwrap(),
            _ => panic!("it fails"),
        }
    };
    let good = r#"{"data":{"id":1,"socket_connection_token":"t"}}"#;
    assert_eq!(
        fail("{}", FeedHeard::Tick),
        "DonationAlerts не вернул id пользователя"
    );
    assert_eq!(
        fail(r#"{"data":{"id":1}}"#, FeedHeard::Tick),
        "DonationAlerts не вернул socket_connection_token"
    );
    assert_eq!(fail(good, FeedHeard::Late), "Centrifugo не ответил на команду 1");
    assert_eq!(fail(good, FeedHeard::Closed), "Centrifugo закрыл соединение");
    assert_eq!(fail(good, FeedHeard::Broken("сеть".into())), "сеть");
    assert_eq!(
        fail(good, FeedHeard::Messages(vec![json(r#"{"id":1,"result":{}}"#)])),
        "Centrifugo не вернул client id"
    );
    assert!(channel_token(&json(r#"{"channels":[]}"#)).is_err());
    assert_eq!(channel_token(&json(r#"{"channels":{"0":{"token":"x"}}}"#)).unwrap(), "x");
}

#[test]
fn tokens_are_used_or_refreshed() {
    assert_eq!(
        stored_tokens(None).unwrap_err(),
        "DonationAlerts OAuth ещё не пройден"
    );
    assert!(stored_tokens(Some("{"))
        .unwrap_err()
        .starts_with("повреждённые токены DonationAlerts: "));
    let tokens = stored_tokens(Some(r#"{"access_token":"a","refresh_token":"r"}"#)).unwrap();
    assert_eq!(held_access(&tokens).unwrap(), "a");
    assert_eq!(
        held_access(&json("{}")).unwrap_err(),
        "в сохранённых данных нет access_token"
    );
    let cfg = configured();
    assert!(matches!(
        access_token(&cfg, &tokens, "a".into(), true),
        TokenStep::Use(s) if s == "a"
    ));
    match access_token(&cfg, &tokens, "a".into(), false) {
        TokenStep::Refresh(form) => {
            assert_eq!(form[0], ("grant_type".to_string(), "refresh_token".to_string()));
            assert_eq!(form[1].1, "r");
        }
        _ => panic!("refresh"),
    }
    match access_token(&cfg, &json("{}"), "a".into(), false) {
        TokenStep::Fail(e) => assert_eq!(e, "access_token истёк, а refresh_token не сохранён"),
        _ => panic!("fail"),
    }
    assert!(matches!(
        access_token(&DonationAlertsConfig::default(), &tokens, "a".into(), false),
        TokenStep::Fail(_)
    ));
    assert_eq!(
        refreshed_access(&json("{}")).unwrap_err(),
        "DonationAlerts не вернул новый access_token"
    );
}

#[test]
fn http_replies_are_judged_by_their_status_first() {
    assert_eq!(
        Endpoint::User.outcome(false, "401 Unauthorized", r#"{"data":1}"#).unwrap_err(),
        "DonationAlerts /user/oauth вернул 401 Unauthorized"
    );
    assert!(Endpoint::Subscribe
        .outcome(true, "200 OK", "<html>")
        .unwrap_err()
        .starts_with("непонятный ответ subscribe: error decoding response body: "));
    assert_eq!(
        Endpoint::Token.outcome(true, "200 OK", "{}").unwrap().to_text(),
        "{}"
    );
    assert_eq!(
        Endpoint::Token.cannot_reach("сеть"),
        "token endpoint DonationAlerts недоступен: сеть"
    );
}

#[test]
fn the_worker_waits_longer_each_time() {
    let mut worker = Worker::new();
    assert_eq!(worker.pause(false, false), IDLE_POLL_MS);
    assert_eq!(worker.pause(true, false), RETRY_MIN_MS);
    assert_eq!(worker.pause(true, false), 2 * RETRY_MIN_MS);
    for _ in 0..8 {
        worker.pause(true, false);
    }
    assert_eq!(worker.pause(true, false), RETRY_MAX_MS);
    assert_eq!(worker.pause(true, true), RETRY_MIN_MS);
}

#[test]
fn the_state_of_donations_holds_no_secret() {
    let facts = StatusFacts {
        mute: Ok(json(r#"{"inputMuted":true}"#)),
        monitoring: Ok(json(r#"{"monitorType":"OBS_MONITORING_TYPE_MONITOR_AND_OUTPUT"}"#)),
        volume_db: None,
        oauth_note: Some("Подключение выполнено".into()),
        widget_url_stored: true,
        tokens_stored: false,
        realtime: FeedStatus::default(),
    };
    let v = donationalerts_status_value(&configured(), &facts);
    assert_eq!(v.get_bool("heard_by_owner"), Some(true));
    assert_eq!(v.get_bool("widget_muted"), Some(true));
    assert_eq!(v.get_bool("oauth_configured"), Some(true));
    assert!(!v.to_text().contains("тайна"));
    assert!(matches!(heard_by_owner(&Err("x".into())), Json::Null));
}

#[test]
fn the_widget_is_reloaded_and_muted_by_name() {
    let item = widget_refresh("w");
    assert_eq!(item.request_type, "PressInputPropertiesButton");
    assert_eq!(item.request_data.get_str("propertyName"), Some("refreshnocache"));
    let other = widget_refresh_fallback("w");
    assert_eq!(other.request_type, "SetInputSettings");
    assert_eq!(other.request_data.get_bool("overlay"), Some(true));
    let mute = da_widget_mute("w", &json(r#"{"muted":true}"#)).unwrap();
    assert_eq!(mute.request_data.get_bool("inputMuted"), Some(true));
    assert_eq!(da_widget_mute("w", &json("{}")).unwrap_err().status, 400);
}

// --- the connection to DonationAlerts ---

#[test]
fn error_message_is_taken_from_the_response() {
    assert_eq!(
        token_error_detail(
            r#"{"error":"invalid_client","message":"Client authentication failed"}"#
        ),
        "Client authentication failed"
    );
    assert_eq!(
        token_error_detail(r#"{"error_description":"Redirect URI mismatch"}"#),
        "Redirect URI mismatch"
    );
    assert_eq!(
        token_error_detail(r#"{"error":"invalid_grant"}"#),
        "invalid_grant"
    );
}

#[test]
fn non_json_and_empty_bodies_still_say_something() {
    assert_eq!(token_error_detail("  "), "пустой ответ");
    assert_eq!(
        token_error_detail("<html>502 Bad Gateway</html>"),
        "<html>502 Bad Gateway</html>"
    );
}

#[test]
fn long_bodies_are_cut_to_stay_readable() {
    let detail = token_error_detail(&"x".repeat(5000));
    assert_eq!(detail.chars().count(), 300);
}

#[test]
fn markup_in_the_message_cannot_reach_the_page_as_markup() {
    assert_eq!(
        html_escape_text("<script>alert(1)</script>"),
        "&lt;script&gt;alert(1)&lt;/script&gt;"
    );
}

#[test]
fn the_way_to_donationalerts_is_encoded() {
    let cfg = DonationAlertsConfig {
        oauth_scopes: vec!["a-b".into(), "c".into()],
        ..configured()
    };
    assert_eq!(
        authorize_url(&cfg, "s/t"),
        "https://www.donationalerts.com/oauth/authorize?client_id=id%201&redirect_uri=http%3A%2F%2F127.0.0.1%3A8787%2Fcb&response_type=code&scope=a-b%20c&state=s%2Ft"
    );
    let started = start_with_state(&cfg, "st".into()).unwrap();
    assert_eq!(started.state, "st");
    assert!(started.authorize_url.ends_with("&state=st"));
    assert!(start_with_state(&DonationAlertsConfig::default(), "st".into()).is_err());
    let random = da_oauth_start(&cfg).unwrap();
    assert_eq!(random.state.len(), 22);
}

fn query(code: Option<&str>, state: Option<&str>, error: Option<&str>) -> CallbackQuery {
    CallbackQuery {
        error: error.map(String::from),
        error_description: None,
        code: code.map(String::from),
        state: state.map(String::from),
    }
}

#[test]
fn only_the_connection_that_was_started_is_finished() {
    let mut expected = Some("st".to_string());
    match begin_callback(&query(Some("c"), Some("st"), None), &mut expected) {
        CallbackStep::Exchange { code } => assert_eq!(code, "c"),
        _ => panic!("the state matches"),
    }
    assert!(expected.is_none());
    // The same answer a second time is refused.
    assert!(matches!(
        begin_callback(&query(Some("c"), Some("st"), None), &mut expected),
        CallbackStep::Refused(e) if e.contains("уже было завершено")
    ));
    let mut expected = Some("st".to_string());
    assert!(matches!(
        begin_callback(&query(Some("c"), Some("other"), None), &mut expected),
        CallbackStep::Refused(e) if e.contains("state")
    ));
    let mut expected = Some("st".to_string());
    assert!(matches!(
        begin_callback(&query(None, None, Some("access_denied")), &mut expected),
        CallbackStep::Refused(e) if e.contains("access_denied")
    ));
    assert!(matches!(
        begin_callback(&query(None, Some("st"), None), &mut expected),
        CallbackStep::Refused(e) if e.contains("authorization code")
    ));
    assert_eq!(expected.as_deref(), Some("st"));
}

#[test]
fn a_code_is_exchanged_for_tokens_or_the_refusal_is_told() {
    let form = exchange_form(&configured(), "c");
    assert_eq!(form[0].1, "authorization_code");
    assert_eq!(form[4], ("code".to_string(), "c".to_string()));
    match exchange_outcome(200, r#"{"access_token":"a"}"#) {
        TokenOutcome::Store(v) => assert_eq!(v.get_str("access_token"), Some("a")),
        _ => panic!("tokens"),
    }
    match exchange_outcome(401, r#"{"message":"нет"}"#) {
        TokenOutcome::Refused(e) => {
            assert_eq!(e, "DonationAlerts вернул 401 и не выдал токен: нет")
        }
        _ => panic!("refused"),
    }
    assert!(refresh_form(&DonationAlertsConfig::default(), "r").is_err());
    let (ok, note) = stored_note(&Ok(()));
    assert!(ok);
    let shown = finish_oauth(ok, &note);
    assert_eq!(shown.event.get_bool("oauth_ok"), Some(true));
    assert!(shown.page.contains("<h1>DonationAlerts подключён</h1>"));
    let (ok, note) = stored_note(&Err("диск".into()));
    assert!(!ok && note.contains("диск"));
    assert!(finish_oauth(false, "<b>").page.contains("&lt;b&gt;"));
}

#[test]
fn settings_from_the_panel_are_checked() {
    let current = DonationAlertsConfig::default();
    assert_eq!(
        da_config_set(&json("{}"), &current).unwrap_err(),
        "DonationAlerts client_id обязателен"
    );
    assert_eq!(
        da_config_set(&json(r#"{"clientId":"i"}"#), &current).unwrap_err(),
        "DonationAlerts redirect URI обязателен"
    );
    assert_eq!(
        da_config_set(&json(r#"{"clientId":"i","redirectUri":"u"}"#), &current).unwrap_err(),
        "DonationAlerts client_secret обязателен при первой настройке."
    );
    let update = da_config_set(
        &json(r#"{"clientId":" i ","redirectUri":"u","clientSecret":" s ","scopes":"a, b"}"#),
        &current,
    )
    .unwrap();
    assert_eq!(update.client_id, "i");
    assert_eq!(update.client_secret.as_deref(), Some("s"));
    assert_eq!(update.scopes, vec!["a".to_string(), "b".to_string()]);
    let mut cfg = configured();
    apply_update(&mut cfg, &update);
    assert_eq!(cfg.client_secret, "");
    assert!(cfg.oauth_enabled);
    let told = update_response(&update, &current);
    assert_eq!(told.get_bool("client_secret_configured"), Some(true));
    assert!(da_config_get(&configured()).get("client_secret").is_none());
}

#[test]
fn only_an_https_widget_is_accepted() {
    assert_eq!(
        da_widget_url(&json(r#"{"url":" https://x "}"#)).unwrap(),
        "https://x"
    );
    assert!(da_widget_url(&json(r#"{"url":"http://x"}"#)).is_err());
    assert!(da_widget_url(&json("{}")).is_err());
}

#[test]
fn the_volume_of_the_widget_needs_a_number() {
    match da_widget_volume("W", &Json::parse(r#"{"volumeDb":-3}"#).unwrap()) {
        Ok(asked) => {
            assert_eq!(asked.name, "W");
            assert!(matches!(asked.db, Json::Int(-3)));
        }
        Err(_) => panic!("accepted"),
    }
    match da_widget_volume("W", &Json::parse(r#"{"volumeDb":"x"}"#).unwrap()) {
        Err(e) => assert_eq!(e.error.message, "volumeDb обязателен"),
        Ok(_) => panic!("refused"),
    }
}
