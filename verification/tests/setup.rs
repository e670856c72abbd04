//! Setting up: settings, secrets, installers, the start page, other programs.
use accessible_obs::config::{
    default_friend_name, default_web_port, effective_twitch_config, ensure_pairing_secret,
    load_runtime_donationalerts_secret, password_or_generated, resolve_donationalerts_config,
    runtime_obs_password, read_scopes, runtime_or_existing_obs_password, scopes_from_body, secret_scopes,
    split_scopes, strip_bom, ControllerConfig, DonationAlertsConfig, HostConfig, InterfaceMode,
    RuntimeMode, StoredDonationAlerts, TwitchConfig, DA_INPUT, OVERLAY_SCENE,
};
use accessible_obs::installers::{
    check_digest, sha256_file, to_hex, verify_installer, InstallerEntry,
};
use accessible_obs::json::Json;
use accessible_obs::launcher::{
    arg_present, autostart_page, candidate_urls, command_page, html_escape, judge_ping,
    launcher_allowed, launcher_page, launcher_refused, launcher_url, local_start, login_url,
    mode_page, ping_url, result_page, tailscale_up_args, task, LocalStart, Ping, Task,
};
use accessible_obs::logs::{log_tail, newest_log_file, no_log, tail_start, LogFile, NoLog};
use accessible_obs::paths::{
    app_root, autostart_shortcut, config_dir, desktop_dir, installers_dir, needed_dirs,
    obs_sentinel_dir, obs_websocket_config_path, roles_path, secret_path, ExeDir, Place,
    RootChoice,
};
use accessible_obs::secrets::{
    protect, random_secret_b64, redact, secret_of, secret_string, unprotect,
};
use accessible_obs::system::{
    autostart_made, autostart_registered, clear_obs_crash_sentinel, default_obs_paths, find_obs,
    obs_crashed_last_run, obs_is_running, parse_backend_running, process_running, ps_quote,
    register_autostart, run_marks, shortcut_script, start_obs_if_needed, tailscale_exe,
    tailscale_ip, CrashRecord, ObsFound, StartObs,
};
use accessible_obs::websocket_config::{
    desired_obs_websocket_config, ensure_obs_websocket_config, existing_obs_websocket_password,
    merge_config, must_close_obs, obs_websocket_config_matches,
};

fn json(s: &str) -> Json {
    Json::parse(s).unwrap()
}

// --- settings ---

#[test]
fn host_config_defaults_match_expected_ports_and_reserved_names() {
    let cfg = HostConfig::default();
    assert_eq!(cfg.obs_websocket_host, "127.0.0.1");
    assert_eq!(cfg.obs_websocket_port, 4455);
    assert_eq!(cfg.web_port, 8787);
    assert_eq!(cfg.runtime_mode, RuntimeMode::Remote);
    assert_eq!(cfg.listen_mode, "tailscale_only");
    assert_eq!(cfg.donationalerts.overlay_scene_name, OVERLAY_SCENE);
    assert_eq!(cfg.donationalerts.input_name, DA_INPUT);
    assert!(cfg.donationalerts.reroute_audio);
}

#[test]
fn controller_config_defaults_use_magicdns_first() {
    let cfg = ControllerConfig {
        friend_machine_name: default_friend_name(),
        friend_tailscale_ip_fallback: String::new(),
        web_port: default_web_port(),
        auto_open_browser: true,
    };
    assert_eq!(cfg.friend_machine_name, "friend-pc");
    assert_eq!(cfg.web_port, 8787);
}

#[test]
fn the_default_volume_of_alerts_is_minus_eight_decibels() {
    let cfg = DonationAlertsConfig::default();
    assert_eq!(f64::from_bits(cfg.initial_volume_db.bits), -8.0);
}

#[test]
fn scopes_come_as_text_or_as_a_list() {
    let old = vec!["old".to_string()];
    assert_eq!(split_scopes(" a,b  c "), vec!["a", "b", "c"]);
    assert_eq!(
        scopes_from_body(&json(r#"{"s":"a b"}"#), "s", &old),
        vec!["a", "b"]
    );
    assert_eq!(
        scopes_from_body(&json(r#"{"s":["a b",5,"c"]}"#), "s", &old),
        vec!["a", "b", "c"]
    );
    assert_eq!(scopes_from_body(&json(r#"{"s":" "}"#), "s", &old), old);
    assert_eq!(
        secret_scopes(Some(r#"["x"]"#.into()), &old),
        vec!["x".to_string()]
    );
    assert_eq!(secret_scopes(Some("[]".into()), &old), old);
    assert_eq!(secret_scopes(Some("мусор".into()), &old), old);
}

#[test]
fn stored_settings_are_laid_over_the_file() {
    let base = DonationAlertsConfig {
        client_id: "file".into(),
        redirect_uri: "uri".into(),
        ..DonationAlertsConfig::default()
    };
    let cfg = resolve_donationalerts_config(
        &base,
        StoredDonationAlerts {
            client_id: Some("store".into()),
            client_secret: Some("  ".into()),
            redirect_uri: None,
            oauth_scopes: None,
        },
    );
    assert_eq!(cfg.client_id, "store");
    assert_eq!(cfg.client_secret, "");
    assert_eq!(cfg.redirect_uri, "uri");
    let twitch = effective_twitch_config(&TwitchConfig::default(), Some("t".into()), None);
    assert_eq!(twitch.client_id, "t");
    assert_eq!(strip_bom("\u{feff}\u{feff}{}"), "{}");
}

#[test]
fn a_secret_in_the_file_moves_into_the_store() {
    let moved = load_runtime_donationalerts_secret(" тайна ", Some("старая".into()));
    assert_eq!(moved.client_secret, "тайна");
    assert_eq!(moved.save.as_deref(), Some("тайна"));
    let kept = load_runtime_donationalerts_secret("", Some("старая".into()));
    assert_eq!(kept.client_secret, "старая");
    assert!(kept.save.is_none());
}

#[test]
fn the_password_of_obs_is_taken_over_before_one_is_made() {
    let stored = runtime_obs_password(Some("s".into()), "c", Some("e".into()));
    assert_eq!(stored.password, "s");
    assert!(!stored.save);
    let configured = runtime_obs_password(None, "c", Some("e".into()));
    assert_eq!(configured.password, "c");
    assert!(configured.save);
    let existing = runtime_or_existing_obs_password(None, "  ", Some("e".into()));
    assert_eq!(existing.password, "e");
    assert!(existing.save);
    let none = runtime_obs_password(None, "", None);
    assert_eq!(none.password, "");
    assert!(!none.save);
    let made = runtime_or_existing_obs_password(None, "", None);
    assert_eq!(made.password.len(), 32);
    assert!(made.save);
    let given = password_or_generated(None, "", None, "g".into());
    assert_eq!(given.password, "g");
    let pairing = ensure_pairing_secret(None);
    assert_eq!(pairing.password.len(), 14);
    assert!(pairing.save);
    assert!(!ensure_pairing_secret(Some("p".into())).save);
}

// --- secrets ---

#[test]
fn random_secret_uses_urlsafe_base64_without_padding() {
    let secret = random_secret_b64(24);
    assert!(secret.len() >= 32);
    assert!(!secret.contains('='));
    assert!(secret
        .chars()
        .all(|c| c.is_ascii_alphanumeric() || c == '-' || c == '_'));
}

#[test]
fn redact_does_not_leak_middle_of_long_secret() {
    assert_eq!(redact("short"), "***");
    assert_eq!(redact("abcdefghijklmnop"), "abcd...mnop");
}

#[test]
fn secrets_are_encoded_sealed_and_opened() {
    assert_eq!(secret_of(&vec![0xfb, 0xff, 0xfe]), "-__-");
    assert_eq!(secret_of(&vec![1]), "AQ");
    let sealed = protect("тайна".as_bytes()).unwrap();
    assert_eq!(unprotect(&sealed).unwrap(), "тайна".as_bytes());
    assert_eq!(secret_string(Some(" ".into())), None);
    assert_eq!(secret_string(Some(" x".into())).as_deref(), Some(" x"));
    assert_eq!(redact("абвгдежзи"), "абвг...ежзи");
}

// --- obs-websocket ---

#[test]
fn websocket_config_enables_server_with_our_password() {
    let desired = desired_obs_websocket_config("s3cret", 4455);
    assert_eq!(desired.get_bool("server_enabled"), Some(true));
    assert_eq!(desired.get_bool("auth_required"), Some(true));
    assert_eq!(desired.get_int("server_port"), Some(4455));
    assert_eq!(desired.get_str("server_password"), Some("s3cret"));
    assert_eq!(desired.get_bool("first_load"), Some(false));
}

#[test]
fn merge_keeps_unrelated_user_settings() {
    let current = json(
        r#"{
        "alerts_enabled": true,
        "auth_required": true,
        "first_load": false,
        "server_enabled": false,
        "server_password": "их-пароль",
        "server_port": 4455
    }"#,
    );
    let (merged, changed) = merge_config(current, &desired_obs_websocket_config("наш", 4455));
    assert!(changed);
    assert_eq!(merged.get_bool("server_enabled"), Some(true));
    assert_eq!(merged.get_str("server_password"), Some("наш"));
    assert_eq!(merged.get_bool("alerts_enabled"), Some(true));
}

#[test]
fn merge_reports_no_change_when_already_correct() {
    let desired = desired_obs_websocket_config("pw", 4455);
    let (_, changed) = merge_config(desired.copy(), &desired);
    assert!(!changed);
}

#[test]
fn merge_recovers_from_corrupted_config() {
    let (merged, changed) = merge_config(
        json("\"не объект\""),
        &desired_obs_websocket_config("pw", 4455),
    );
    assert!(changed);
    assert_eq!(merged.get_str("server_password"), Some("pw"));
}

#[test]
fn the_written_settings_are_the_needed_ones() {
    let raw = "\u{feff}{\"alerts_enabled\":true,\"server_password\":\"их\"}";
    assert_eq!(existing_obs_websocket_password(Some(raw)).as_deref(), Some("их"));
    assert!(!obs_websocket_config_matches(Some(raw), "pw", 4455));
    let text = ensure_obs_websocket_config(Some(raw), "pw", 4455).unwrap();
    assert!(text.contains("\n  \"alerts_enabled\": true"));
    assert!(obs_websocket_config_matches(Some(&text), "pw", 4455));
    assert!(ensure_obs_websocket_config(Some(&text), "pw", 4455).is_none());
    assert_eq!(existing_obs_websocket_password(Some("{}")), None);
    assert_eq!(existing_obs_websocket_password(None), None);
    assert!(must_close_obs(false, true));
    assert!(!must_close_obs(true, true));
}

// --- installers ---

fn entry(digest: &str) -> InstallerEntry {
    InstallerEntry {
        file: "obs.exe".into(),
        version: "1".into(),
        url: "https://x".into(),
        sha256: digest.into(),
    }
}

#[test]
fn only_the_installer_of_the_manifest_is_accepted() {
    let content = b"abc".to_vec();
    let digest = "ba7816bf8f01cfea414140de5dae2223b00361a396177a9cb410ff61f20015ad";
    assert_eq!(sha256_file(&content), digest);
    assert!(verify_installer("p", &content, &entry(&digest.to_uppercase())).is_ok());
    let e = verify_installer("p/obs.exe", &b"abd".to_vec(), &entry(digest)).unwrap_err();
    assert!(e.starts_with("контрольная сумма p/obs.exe не совпала."), "{e}");
    assert!(e.contains(digest));
    assert_eq!(
        verify_installer("p", &content, &entry("  ")).unwrap_err(),
        "в манифесте нет контрольной суммы для obs.exe; запускать непроверенный установщик нельзя"
    );
    assert!(check_digest("p", &entry("AB"), "ab").is_ok());
    assert_eq!(to_hex(&vec![0, 15, 255]), "000fff");
}

// --- the start page ---

#[test]
fn launcher_accepts_only_its_own_page() {
    let nonce = "правильный";
    let own = Some("http://127.0.0.1:8786");
    assert!(launcher_allowed(nonce, own, None, "правильный"));
    assert!(!launcher_allowed(nonce, own, None, "устаревший"));
    let foreign = Some("https://evil.example");
    assert!(!launcher_allowed(nonce, foreign, None, "правильный"));
}

#[test]
fn without_an_origin_the_host_decides() {
    assert!(launcher_allowed("n", None, Some("127.0.0.1:8786"), "n"));
    assert!(!launcher_allowed("n", None, Some("evil.example"), "n"));
    assert!(!launcher_allowed("n", None, None, "n"));
}

#[test]
fn pages_show_text_and_not_markup() {
    assert_eq!(html_escape("<a href=\"&\">"), "&lt;a href=&quot;&amp;&quot;&gt;");
    let page = result_page("<T>", "m", Some("http://x"));
    assert!(page.contains("<title>&lt;T&gt;</title>"));
    assert!(page.contains("<p><a href=\"http://x\">Back to launcher</a></p>"));
    assert!(!result_page("T", "m", None).contains("Back to launcher"));
    assert_eq!(launcher_url(), "http://127.0.0.1:8786/");
    let start = launcher_page(&InterfaceMode::Accessible, "тайна\"");
    assert_eq!(start.matches("name=\"nonce\" value=\"тайна&quot;\"").count(), 6);
    assert!(start.contains("<strong>доступный, для незрячего</strong>"));
    assert!(!start.contains("{NONCE}") && !start.contains("{MODE}"));
    assert!(start.starts_with("<!doctype html>") && start.ends_with("</html>"));
    assert!(launcher_refused().contains("Действие отклонено"));
    assert!(mode_page(&InterfaceMode::Standard, &Ok(())).contains("Выбран обычный режим"));
    assert!(mode_page(&InterfaceMode::Standard, &Err("диск".into())).contains("диск"));
    assert!(command_page("Actor setup", &Err("нет".into()))
        .contains("Could not start command: нет"));
    assert!(autostart_page(&Ok(())).contains("Autostart removed"));
}

fn controller_cfg(name: &str, fallback: &str) -> ControllerConfig {
    ControllerConfig {
        friend_machine_name: name.into(),
        friend_tailscale_ip_fallback: fallback.into(),
        web_port: 8787,
        auto_open_browser: false,
    }
}

#[test]
fn magicdns_name_gets_local_variant() {
    let urls = candidate_urls(&controller_cfg("friend-pc", ""));
    assert_eq!(urls[0], "http://friend-pc:8787");
    assert_eq!(urls[1], "http://friend-pc.local:8787");
}

#[test]
fn full_ts_net_name_skips_local_variant() {
    let urls = candidate_urls(&controller_cfg("friend-pc.tail1234.ts.net", ""));
    assert_eq!(urls.len(), 1);
    assert_eq!(urls[0], "http://friend-pc.tail1234.ts.net:8787");
}

#[test]
fn ip_fallback_is_appended_last() {
    let urls = candidate_urls(&controller_cfg("friend-pc", " 100.64.0.5 "));
    assert_eq!(urls.last().unwrap(), "http://100.64.0.5:8787");
}

#[test]
fn only_the_agent_itself_is_followed() {
    let ours = r#"{"ok":true,"app":"Accessible OBS","mode":"remote"}"#;
    assert!(matches!(judge_ping(Some((true, ours))), Ping::Ours(m) if m == "remote"));
    assert!(matches!(
        judge_ping(Some((true, r#"{"app":"other"}"#))),
        Ping::Foreign
    ));
    assert!(matches!(judge_ping(Some((true, "<html>"))), Ping::Garbled));
    assert!(matches!(judge_ping(Some((false, ours))), Ping::Silent));
    assert!(matches!(judge_ping(None), Ping::Silent));
    assert_eq!(ping_url("http://x:1//"), "http://x:1/api/public/ping");
    assert_eq!(local_start(Some("local")), LocalStart::AlreadyRunning);
    assert_eq!(local_start(Some("remote")), LocalStart::BlockedByRemote);
    assert_eq!(local_start(None), LocalStart::Start);
}

#[test]
fn arguments_choose_the_task() {
    assert_eq!(task(None), Task::Launcher);
    assert_eq!(task(Some("--install")), Task::Launcher);
    assert_eq!(task(Some("--host")), Task::Host);
    assert_eq!(task(Some("--controller")), Task::Controller);
    assert_eq!(task(Some("--local")), Task::Local);
    assert_eq!(task(Some("--remove-autostart")), Task::RemoveAutostart);
    assert_eq!(task(Some("чепуха")), Task::Help);
    assert!(arg_present(&vec!["--local".into()], "--local"));
    assert!(!arg_present(&vec![], "--local"));
}

#[test]
fn the_login_page_is_found_in_what_tailscale_prints() {
    assert_eq!(
        login_url("To authenticate, visit:\n\n\thttps://login.tailscale.com/a/1.\n").as_deref(),
        Some("https://login.tailscale.com/a/1")
    );
    assert_eq!(login_url("nothing here"), None);
    assert_eq!(tailscale_up_args(true), vec!["up", "--unattended=true"]);
    assert_eq!(tailscale_up_args(false), vec!["up"]);
}

// --- other programs ---

#[test]
fn tailscale_state_is_parsed_not_matched_as_text() {
    assert!(parse_backend_running(r#"{"BackendState":"Running"}"#));
    assert!(parse_backend_running(
        "{\n  \"Version\": \"1.0\",\n  \"BackendState\" : \"Running\"\n}"
    ));
    assert!(!parse_backend_running(r#"{"BackendState":"Stopped"}"#));
    assert!(!parse_backend_running(r#"{"BackendState":"NeedsLogin"}"#));
}

#[test]
fn tailscale_garbage_output_means_not_running() {
    assert!(!parse_backend_running(""));
    assert!(!parse_backend_running("tailscale: command failed"));
    assert!(!parse_backend_running("{}"));
}

#[test]
fn programs_are_found_and_seen_running() {
    assert_eq!(tailscale_ip("100.64.0.5\r\nfd7a::1\n").as_deref(), Some("100.64.0.5"));
    assert_eq!(tailscale_ip("not logged in"), None);
    assert_eq!(tailscale_ip(""), None);
    assert_eq!(tailscale_exe(Some("t".into()), true).as_deref(), Some("t"));
    assert_eq!(
        tailscale_exe(None, true).as_deref(),
        Some(r"C:\Program Files\Tailscale\tailscale.exe")
    );
    assert_eq!(tailscale_exe(None, false), None);
    assert!(process_running(Some("OBS64.EXE   1234 Console"), "obs64.exe"));
    assert!(!process_running(Some("INFO: No tasks"), "obs64.exe"));
    assert!(obs_is_running(None, Some("obs.exe 1")));
    assert!(!obs_is_running(None, None));
}

fn nowhere() -> ObsFound {
    ObsFound {
        configured: false,
        usual: vec![false, false],
        obs64: None,
        obs: None,
    }
}

#[test]
fn obs_is_looked_for_in_order() {
    let paths = default_obs_paths();
    assert_eq!(paths.len(), 2);
    assert_eq!(find_obs("D:\\obs.exe", &nowhere()), None);
    let configured = ObsFound {
        configured: true,
        usual: vec![true, true],
        ..nowhere()
    };
    assert_eq!(find_obs("D:\\obs.exe", &configured).as_deref(), Some("D:\\obs.exe"));
    assert_eq!(find_obs("", &configured).as_ref(), Some(&paths[0]));
    let second = ObsFound {
        usual: vec![false, true],
        obs64: Some("o64".into()),
        ..nowhere()
    };
    assert_eq!(find_obs("", &second).as_ref(), Some(&paths[1]));
    let by_name = ObsFound {
        obs64: Some("o64".into()),
        obs: Some("o".into()),
        ..nowhere()
    };
    assert_eq!(find_obs("", &by_name).as_deref(), Some("o64"));
    assert!(matches!(
        start_obs_if_needed(true, "", &nowhere()),
        StartObs::Running
    ));
    assert!(matches!(
        start_obs_if_needed(false, "", &by_name),
        StartObs::Launch(p) if p == "o64"
    ));
    assert!(matches!(
        start_obs_if_needed(false, "", &nowhere()),
        StartObs::Missing(e) if e.contains("не найден")
    ));
}

#[test]
fn a_run_that_broke_off_is_remembered() {
    let names = vec!["run_1".to_string(), "other".into(), "run_2".into()];
    assert_eq!(run_marks(&names), vec!["run_1", "run_2"]);
    let mut record = CrashRecord { crashed: false };
    assert!(!clear_obs_crash_sentinel(&mut record, &vec![false]));
    assert!(!obs_crashed_last_run(&record));
    assert!(clear_obs_crash_sentinel(&mut record, &vec![false, true]));
    assert!(!clear_obs_crash_sentinel(&mut record, &vec![]));
    assert!(obs_crashed_last_run(&record));
}

#[test]
fn shortcuts_are_quoted() {
    assert_eq!(ps_quote("C:\\it's"), "C:\\it''s");
    assert_eq!(
        shortcut_script("a'b", "t", Some("--local"), "r", "d"),
        "$s = (New-Object -ComObject WScript.Shell).CreateShortcut('a''b'); $s.TargetPath = 't'; $s.Arguments = '--local'; $s.WorkingDirectory = 'r'; $s.Description = 'd'; $s.Save()"
    );
    let script = register_autostart(Some("s.lnk"), "agent.exe", true, "root").unwrap();
    assert!(script.contains("$s.Description = 'Accessible OBS host agent'"));
    assert!(!script.contains("Arguments"));
    assert_eq!(
        register_autostart(Some("s.lnk"), "agent.exe", false, "root").unwrap_err(),
        "agent.exe не найден"
    );
    assert_eq!(
        register_autostart(None, "agent.exe", true, "root").unwrap_err(),
        "не удалось определить папку автозагрузки"
    );
    assert!(autostart_registered(false, true));
    assert!(!autostart_registered(false, false));
    assert!(autostart_made(true, "x").is_ok());
    assert_eq!(
        autostart_made(false, " нет \n").unwrap_err(),
        "ярлык автозагрузки не создан: нет"
    );
}

// --- places and logs ---

fn names(p: &Place) -> String {
    format!("{}|{}", p.base, p.names.join("|"))
}

#[test]
fn places_lie_below_the_root() {
    assert_eq!(names(&config_dir("r")), "r|config");
    assert_eq!(names(&roles_path("r")), "r|config|roles.json");
    assert_eq!(names(&secret_path("r", "x")), "r|config|secrets|x.dpapi");
    assert_eq!(names(&installers_dir("r")), "r|third_party|installers");
    assert_eq!(needed_dirs("r").len(), 5);
    assert!(autostart_shortcut(None).is_none());
    assert_eq!(
        names(&autostart_shortcut(Some("A")).unwrap()),
        "A|Microsoft\\Windows\\Start Menu\\Programs\\Startup|Accessible OBS.lnk"
    );
    assert_eq!(
        names(&obs_websocket_config_path(Some("A")).unwrap()),
        "A|obs-studio|plugin_config|obs-websocket|config.json"
    );
    assert_eq!(
        obs_websocket_config_path(None).unwrap_err(),
        "переменная APPDATA не задана"
    );
    assert_eq!(names(&obs_sentinel_dir("A")), "A|obs-studio|.sentinel");
    assert_eq!(names(&desktop_dir(Some("P"), true).unwrap()), "P|OneDrive|Desktop");
    assert_eq!(names(&desktop_dir(Some("P"), false).unwrap()), "P|Desktop");
}

#[test]
fn the_root_goes_by_the_program_file() {
    let dir = |has_bin, has_web, name: &str| {
        Some(ExeDir {
            has_bin,
            has_web,
            name: Some(name.into()),
            has_parent: true,
        })
    };
    assert_eq!(app_root(&dir(true, true, "x")), RootChoice::ExeDir);
    assert_eq!(app_root(&dir(false, true, "BIN")), RootChoice::ExeParent);
    assert_eq!(app_root(&dir(false, false, "debug")), RootChoice::WorkingDir);
    assert_eq!(app_root(&None), RootChoice::WorkingDir);
}

#[test]
fn the_tail_of_the_newest_log_is_shown() {
    let file = |name: &str, modified| LogFile {
        name: name.into(),
        modified,
    };
    let files = vec![
        file("host.log.1", Some(5)),
        file("other.log", Some(99)),
        file("host.log.2", Some(7)),
        file("host.log.3", Some(7)),
        file("host.log.4", None),
    ];
    assert_eq!(newest_log_file(&files, "host.log"), Some(2));
    assert_eq!(newest_log_file(&files, "none"), None);
    assert_eq!(tail_start(10), 0);
    assert_eq!(tail_start(262_144 + 5), 5);
    assert_eq!(log_tail("a\r\nb\nc\n", false, 2), "b\nc");
    assert_eq!(log_tail("torn\nb\nc", true, 9), "b\nc");
    assert_eq!(log_tail("", true, 9), "");
    assert_eq!(no_log(NoLog::Missing), "лог ещё не создан");
}

#[test]
fn a_second_run_finds_nothing_to_write() {
    let deep = format!("{}1.5{}", "[".repeat(126), "]".repeat(126));
    let files = [
        r#"{"a":0.1,"b":1e300,"server_port":1}"#.to_string(),
        format!("{{\"deep\":{deep}}}"),
        r#"{"a":[{"b":1.7976931348623157e308}]}"#.to_string(),
        r#"{"имя":"\u0000","server_password":"\u0041"}"#.to_string(),
        "не JSON".to_string(),
    ];
    for raw in files {
        let text = ensure_obs_websocket_config(Some(&raw), "pw", 4455).unwrap();
        assert!(obs_websocket_config_matches(Some(&text), "pw", 4455), "{raw}");
        assert!(ensure_obs_websocket_config(Some(&text), "pw", 4455).is_none());
    }
    let text = ensure_obs_websocket_config(None, "pw", 4455).unwrap();
    assert!(obs_websocket_config_matches(Some(&text), "pw", 4455));
}

#[test]
fn scopes_are_read_as_a_list_of_texts_only() {
    let old: Vec<String> = vec!["старое".into()];
    let marked = r#"{"$serde_json::private::RawValue":"[\"x\"]"}"#;
    assert_eq!(secret_scopes(Some(marked.into()), &old), old);
    assert_eq!(secret_scopes(Some(r#"["x",1]"#.into()), &old), old);
    assert_eq!(
        secret_scopes(Some(r#" ["x","\u0079"] "#.into()), &old),
        vec!["x".to_string(), "y".to_string()]
    );
    assert_eq!(read_scopes(Some(vec![]), &old), old);
    assert_eq!(read_scopes(Some(vec!["n".into()]), &old), vec!["n".to_string()]);
}
