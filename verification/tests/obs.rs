//! Messages of OBS.
use accessible_obs::json::Json;
use accessible_obs::obs::{
    ask_each, close_error, deadline_from, dispatch, dispatch_value, friendly_obs_error,
    handshake_text, handshake_value, meter_inputs, note_version, obs_auth, parse_response,
    request_obs_version, response_at, response_data, send_command, submit, version_probe,
    worth_asking, BatchItem, Command, Delivery, Handshake, HandshakeStep, NoReply, ObsStatus, Pending, Queue, ReplyKind,
    SessionEnd, Submitted, Supervisor, EVENT_SUBSCRIPTIONS, PENDING_MAX, RECONNECT_MAX_MS,
    RECONNECT_MIN_MS, REQUEST_TIMEOUT_MS, SUB_INPUTS, SUB_OUTPUTS, SUB_SCENES, SUB_SCENE_ITEMS,
};
use base64::Engine;

fn json(s: &str) -> Json {
    Json::parse(s).unwrap()
}

fn waiting(id: &str, kind: ReplyKind, deadline: u64) -> Pending<u32> {
    Pending {
        id: id.into(),
        kind,
        reply: 1,
        deadline,
    }
}

#[test]
fn obs_auth_matches_protocol_shape() {
    let value = obs_auth("password", "salt", "challenge");
    assert!(!value.is_empty());
    assert!(base64::engine::general_purpose::STANDARD
        .decode(value)
        .is_ok());
}

#[test]
fn obs_auth_has_the_value_of_the_protocol() {
    // base64(sha256(base64(sha256("password" + "salt")) + "challenge"))
    assert_eq!(
        obs_auth("password", "salt", "challenge"),
        "zTM5ki6L2vVvBQiTG9ckH1Lh64AbnCf6XZ226UmnkIA="
    );
}

#[test]
fn event_subscriptions_cover_panel_needs() {
    assert_eq!(EVENT_SUBSCRIPTIONS & SUB_SCENES, SUB_SCENES);
    assert_eq!(EVENT_SUBSCRIPTIONS & SUB_INPUTS, SUB_INPUTS);
    assert_eq!(EVENT_SUBSCRIPTIONS & SUB_OUTPUTS, SUB_OUTPUTS);
    assert_eq!(EVENT_SUBSCRIPTIONS & SUB_SCENE_ITEMS, SUB_SCENE_ITEMS);
}

#[test]
fn successful_response_yields_data() {
    let d = json(
        r#"{
        "requestId": "x",
        "requestStatus": {"result": true, "code": 100},
        "responseData": {"sceneName": "Main"}
    }"#,
    );
    let out = parse_response(&d).expect("успешный ответ");
    assert_eq!(out.get_str("sceneName"), Some("Main"));
}

#[test]
fn failed_response_surfaces_obs_comment() {
    let d = json(
        r#"{
        "requestId": "x",
        "requestStatus": {"result": false, "code": 600, "comment": "No such scene"}
    }"#,
    );
    let err = parse_response(&d).expect_err("ошибка OBS");
    assert!(err.contains("No such scene"));
}

#[test]
fn response_data_skips_failed_batch_entries() {
    let ok = json(r#"{"requestStatus": {"result": true}, "responseData": {"inputMuted": false}}"#);
    let failed = json(r#"{"requestStatus": {"result": false, "comment": "gone"}}"#);
    assert_eq!(
        response_data(&ok).unwrap().get_bool("inputMuted"),
        Some(false)
    );
    assert!(response_data(&failed).is_none());
}

#[test]
fn events_reach_subscribers_during_handshake_reads() {
    let event = r#"{"op":5,"d":{"eventType":"CurrentProgramSceneChanged"}}"#;
    match handshake_text(&Handshake::Greeting, event, "pw") {
        HandshakeStep::Forward(e) => {
            assert_eq!(e.get_str("eventType"), Some("CurrentProgramSceneChanged"))
        }
        _ => panic!("an event during the handshake is passed on"),
    }
}

#[test]
fn dispatch_delivers_response_to_the_waiting_request() {
    let mut pending = Queue::new();
    pending.insert(waiting("req-1", ReplyKind::Single, 15_000));

    let delivery = dispatch(
        r#"{"op": 7, "d": {
            "requestId": "req-1",
            "requestStatus": {"result": true, "code": 100},
            "responseData": {"obsVersion": "32.2.1"}
        }}"#,
        &mut pending,
    );

    match delivery {
        Delivery::Reply { to, outcome } => {
            assert_eq!(to, 1);
            let data = outcome.expect("успех");
            assert_eq!(data.get_str("obsVersion"), Some("32.2.1"));
        }
        _ => panic!("ответ дошёл"),
    }
    assert_eq!(pending.len(), 0, "выполненный запрос убран из очереди");
}

#[test]
fn dispatch_passes_obs_refusal_to_the_caller() {
    let mut pending = Queue::new();
    pending.insert(waiting("req-2", ReplyKind::Single, 15_000));

    let delivery = dispatch(
        r#"{"op": 7, "d": {
            "requestId": "req-2",
            "requestStatus": {"result": false, "comment": "Сцена не найдена"}
        }}"#,
        &mut pending,
    );

    match delivery {
        Delivery::Reply { outcome, .. } => {
            let err = outcome.expect_err("отказ OBS");
            assert!(err.contains("Сцена не найдена"));
        }
        _ => panic!("ответ дошёл"),
    }
}

#[test]
fn dispatch_broadcasts_events_to_the_panel() {
    let mut pending: Queue<u32> = Queue::new();
    let delivery = dispatch(
        r#"{"op": 5, "d": {
            "eventType": "InputMuteStateChanged",
            "eventData": {"inputName": "Микрофон", "inputMuted": true}
        }}"#,
        &mut pending,
    );
    match delivery {
        Delivery::Event(event) => {
            assert_eq!(event.get_str("eventType"), Some("InputMuteStateChanged"));
            assert_eq!(
                event.get("eventData").unwrap().get_bool("inputMuted"),
                Some(true)
            );
        }
        _ => panic!("событие ушло в панель"),
    }
}

#[test]
fn dispatch_returns_batch_results_in_order() {
    let mut pending = Queue::new();
    pending.insert(waiting("batch-1", ReplyKind::Batch, 15_000));

    let delivery = dispatch(
        r#"{"op": 9, "d": {
            "requestId": "batch-1",
            "results": [
                {"requestStatus": {"result": true}, "responseData": {"inputVolumeDb": -6.0}},
                {"requestStatus": {"result": true}, "responseData": {"inputMuted": false}}
            ]
        }}"#,
        &mut pending,
    );

    match delivery {
        Delivery::BatchReply { results, .. } => {
            assert_eq!(results.len(), 2);
            let db = response_data(&results[0]).unwrap().get("inputVolumeDb").unwrap();
            match db {
                Json::Real(x) => assert_eq!(f64::from_bits(x.bits), -6.0),
                _ => panic!("a number with a fraction"),
            }
            assert_eq!(
                response_data(&results[1]).unwrap().get_bool("inputMuted"),
                Some(false)
            );
        }
        _ => panic!("ответ дошёл"),
    }
}

#[test]
fn dispatch_ignores_response_without_a_waiting_request() {
    let mut pending: Queue<u32> = Queue::new();
    let delivery = dispatch(
        r#"{"op": 7, "d": {
            "requestId": "давно-забытый",
            "requestStatus": {"result": true}
        }}"#,
        &mut pending,
    );
    assert!(matches!(delivery, Delivery::Nothing));
    assert_eq!(pending.len(), 0);
}

#[test]
fn stale_pending_entries_are_swept() {
    let now = 60_000;
    let mut pending = Queue::new();
    pending.insert(waiting("протухший", ReplyKind::Single, now - 1_000));
    pending.insert(waiting("свежий", ReplyKind::Single, deadline_from(now)));

    let swept = pending.sweep(now);

    assert_eq!(swept, 1);
    assert_eq!(pending.len(), 1);
    assert!(pending.remove("свежий").is_some());
}

#[test]
fn pending_deadline_outlives_caller_timeout() {
    let now = 60_000;
    assert!(deadline_from(now) > now + REQUEST_TIMEOUT_MS);
}

#[test]
fn dispatch_survives_garbage_from_the_socket() {
    let mut pending: Queue<u32> = Queue::new();
    for junk in ["не json", "{}", r#"{"op": 42}"#, r#"{"op": 7}"#] {
        assert!(matches!(dispatch(junk, &mut pending), Delivery::Nothing));
    }
}

#[test]
fn wrong_password_close_tells_the_user_what_to_run() {
    let msg = close_error(Some((4009, "Authentication failed")));
    assert!(msg.contains("пароль"), "названа причина: {msg}");
    assert!(msg.contains("AccessibleOBS.exe"), "названо решение: {msg}");
}

#[test]
fn unknown_close_code_keeps_code_and_reason_visible() {
    let msg = close_error(Some((1001, "Server stopping")));
    assert!(msg.contains("1001"));
    assert!(msg.contains("Server stopping"));
}

#[test]
fn close_without_frame_still_reports_disconnect() {
    assert!(close_error(None).contains("закрыл соединение"));
}

#[test]
fn replies_find_their_requests_in_any_order() {
    let mut pending: Queue<u32> = Queue::new();
    for (id, to) in [("a", 1), ("b", 2), ("c", 3)] {
        let cmd = Command::Request {
            request_type: "Echo".into(),
            request_data: Json::Null,
            reply: to,
        };
        match submit(&mut pending, cmd, id.into(), 0) {
            Submitted::Frame(frame) => {
                assert_eq!(frame.get_int("op"), Some(6));
                let d = frame.get("d").unwrap();
                assert_eq!(d.get_str("requestId"), Some(id));
                assert_eq!(d.get_str("requestType"), Some("Echo"));
            }
            _ => panic!("accepted"),
        }
    }
    for (id, expected) in [("b", 2), ("c", 3), ("a", 1)] {
        let raw = format!(
            r#"{{"op":7,"d":{{"requestId":"{id}","requestStatus":{{"result":true}}}}}}"#
        );
        match dispatch(&raw, &mut pending) {
            Delivery::Reply { to, .. } => assert_eq!(to, expected),
            _ => panic!("the reply of {id}"),
        }
    }
}

#[test]
fn every_command_gets_an_id_of_its_own() {
    let mut pending: Queue<u32> = Queue::new();
    for to in 0..3 {
        let cmd = Command::Batch {
            requests: vec![
                BatchItem::new("GetStats", json("{}")),
                BatchItem::new("GetStreamStatus", json("{}")),
            ],
            reply: to,
        };
        match send_command(&mut pending, cmd, 0) {
            Submitted::Frame(frame) => {
                assert_eq!(frame.get_int("op"), Some(8));
                let list = frame.get("d").unwrap().get_array("requests").unwrap();
                assert_eq!(list.len(), 2);
                assert_eq!(list[1].get_str("requestType"), Some("GetStreamStatus"));
            }
            _ => panic!("accepted"),
        }
    }
    assert_eq!(pending.len(), 3);
    let frame = request_obs_version(&mut pending, 9, 0);
    assert_eq!(frame.get("d").unwrap().get_str("requestType"), Some("GetVersion"));
    let ids: Vec<String> = pending.entries.iter().map(|p| p.id.clone()).collect();
    assert_eq!(pending.len(), 4);
    for (i, a) in ids.iter().enumerate() {
        assert_eq!(a.len(), 36);
        assert!(ids[i + 1..].iter().all(|b| a != b));
    }
}

#[test]
fn a_full_queue_refuses_until_something_expires() {
    let mut pending: Queue<u32> = Queue::new();
    for i in 0..PENDING_MAX {
        pending.insert(waiting(&format!("{i}"), ReplyKind::Single, 1_000));
    }
    let cmd = || Command::Request {
        request_type: "Echo".into(),
        request_data: Json::Null,
        reply: 7,
    };
    match submit(&mut pending, cmd(), "new".into(), 500) {
        Submitted::Rejected { reply, reason } => {
            assert_eq!(reply, 7);
            assert_eq!(reason, "OBS не отвечает: слишком много запросов в очереди");
        }
        _ => panic!("the queue is full"),
    }
    assert!(matches!(
        submit(&mut pending, cmd(), "new".into(), 1_000),
        Submitted::Frame(_)
    ));
    assert_eq!(pending.len(), 1);
    assert_eq!(pending.drain().len(), 1);
    assert_eq!(pending.len(), 0);
}

#[test]
fn the_handshake_answers_the_challenge_and_reports_the_version() {
    let hello = json(
        r#"{"op":0,"d":{"obsWebSocketVersion":"5.7.4","rpcVersion":1,
            "authentication":{"challenge":"вызов","salt":"соль"}}}"#,
    );
    let next = match handshake_value(&Handshake::Greeting, &hello, "тестовый-пароль") {
        HandshakeStep::Identify { frame, next } => {
            assert_eq!(frame.get_int("op"), Some(1));
            let d = frame.get("d").unwrap();
            assert_eq!(d.get_int("rpcVersion"), Some(1));
            assert_eq!(
                d.get_str("authentication").map(str::to_string),
                Some(obs_auth("тестовый-пароль", "соль", "вызов"))
            );
            next
        }
        _ => panic!("Hello is answered"),
    };
    match handshake_text(&next, r#"{"op":2,"d":{"negotiatedRpcVersion":1}}"#, "x") {
        HandshakeStep::Connected(status) => {
            assert!(status.connected);
            assert_eq!(status.websocket_version.as_deref(), Some("5.7.4"));
            assert!(status.obs_version.is_none());
        }
        _ => panic!("the connection stands"),
    }
}

#[test]
fn a_missing_password_is_named() {
    let hello = r#"{"op":0,"d":{"authentication":{"challenge":"c","salt":"s"}}}"#;
    match handshake_text(&Handshake::Greeting, hello, "") {
        HandshakeStep::Failed(e) => assert!(e.contains("пароль"), "{e}"),
        _ => panic!("without a password there is no connection"),
    }
}

#[test]
fn pauses_grow_until_a_connection_stood() {
    let mut s = Supervisor::new();
    let mut last = 0;
    for _ in 0..10 {
        let pause = s.session_ended(SessionEnd::Failed("x".into())).unwrap();
        assert!(pause >= last && (RECONNECT_MIN_MS..=RECONNECT_MAX_MS).contains(&pause));
        last = pause;
        s.pause_over(false);
    }
    assert_eq!(last, RECONNECT_MAX_MS);
    assert!(s.status.error.is_some());
    assert!(s.session_ended(SessionEnd::HandleDropped).is_none());
    // A wake-up starts the pauses anew.
    s.pause_over(true);
    assert_eq!(
        s.session_ended(SessionEnd::Failed("x".into())),
        Some(RECONNECT_MIN_MS)
    );
}

#[test]
fn a_refused_connection_is_explained() {
    assert_ne!(friendly_obs_error("Connection refused"), "Connection refused");
    assert_eq!(friendly_obs_error("нечто"), "нечто");
}

#[test]
fn the_version_is_asked_for_a_few_times_only() {
    let (tries, ask) = version_probe(0, false);
    assert!(ask);
    assert_eq!(tries, 1);
    let (_, ask) = version_probe(1, true);
    assert!(!ask);
    let mut status = ObsStatus {
        connected: true,
        ..ObsStatus::default()
    };
    note_version(&mut status, &json(r#"{"obsVersion":"32.2.1"}"#));
    assert_eq!(status.obs_version.as_deref(), Some("32.2.1"));
}

#[test]
fn meter_levels_skip_inputs_without_audio() {
    let levels = meter_inputs(&json(
        r#"{
        "inputs": [
            {"inputName": "Захват экрана", "inputLevelsMul": []},
            {"inputName": "Микрофон", "inputLevelsMul": [[0.25, 0.25, 0.25]]}
        ]
    }"#,
    ));
    assert_eq!(levels.len(), 1);
    assert_eq!(levels[0].name, "Микрофон");
    assert_eq!(levels[0].levels.len(), 3);
}

#[test]
fn meter_levels_tolerate_missing_fields() {
    assert!(meter_inputs(&Json::Null).is_empty());
    assert!(meter_inputs(&json(r#"{"inputs": []}"#)).is_empty());
    assert!(meter_inputs(&json(r#"{"inputs": [{"inputName": "Без уровней"}]}"#)).is_empty());
}

#[test]
fn questions_are_asked_name_by_name() {
    let batch = ask_each("GetInputMute", "inputName", &vec!["a".into(), "b".into()]);
    assert_eq!(batch.len(), 2);
    assert_eq!(batch[1].request_type, "GetInputMute");
    assert_eq!(batch[1].request_data.get_str("inputName"), Some("b"));
    assert!(response_at(&vec![Json::Null], 5).is_none());
}

#[test]
fn a_reply_that_nobody_waits_for_changes_nothing() {
    let mut pending = Queue::new();
    pending.insert(waiting("x", ReplyKind::Single, 1));
    let v = json(r#"{"op":7,"d":{"requestId":"y","requestStatus":{"result":true}}}"#);
    assert!(matches!(dispatch_value(&v, &mut pending), Delivery::Nothing));
    assert_eq!(pending.len(), 1);
}

#[test]
fn a_command_without_a_reply_is_told_why() {
    assert_eq!(NoReply::Stopped.reason(), "OBS-клиент остановлен");
    assert_eq!(NoReply::NotConnected.reason(), "OBS не подключён");
    assert_eq!(NoReply::Closed.reason(), "Соединение с OBS закрыто");
    assert_eq!(
        NoReply::Broken.reason(),
        "Соединение с OBS разорвано во время запроса"
    );
    assert_eq!(NoReply::Late.reason(), "OBS не ответил за 10 секунд");
    assert!(!worth_asking(&vec![]));
    assert!(worth_asking(&ask_each("A", "k", &vec!["x".into()])));
}

#[test]
fn the_handshake_ends_without_a_version_too() {
    let next = match handshake_text(&Handshake::Greeting, r#"{"op":0,"d":{"rpcVersion":1}}"#, "") {
        HandshakeStep::Identify { next, .. } => next,
        _ => panic!("identify"),
    };
    assert!(matches!(&next, Handshake::Identifying { websocket_version: None }));
    match handshake_text(&next, r#"{"op":2,"d":{}}"#, "") {
        HandshakeStep::Connected(status) => assert!(status.websocket_version.is_none()),
        _ => panic!("connected"),
    }
}

#[test]
fn a_command_gets_a_random_id() {
    let mut pending: Queue<u32> = Queue::new();
    request_obs_version(&mut pending, 1, 0);
    request_obs_version(&mut pending, 2, 0);
    let ids: Vec<&str> = pending.entries.iter().map(|p| p.id.as_str()).collect();
    assert_eq!(ids.len(), 2);
    assert_ne!(ids[0], ids[1]);
    for id in ids {
        let cs: Vec<char> = id.chars().collect();
        assert_eq!(cs.len(), 36);
        assert_eq!(cs[14], '4');
        for (i, c) in cs.iter().enumerate() {
            if [8, 13, 18, 23].contains(&i) {
                assert_eq!(*c, '-');
            } else {
                assert!(c.is_ascii_digit() || ('a'..='f').contains(c));
            }
        }
    }
}
