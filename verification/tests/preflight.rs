//! Whether the broadcast may start.
use accessible_obs::number::Reading;
use accessible_obs::preflight::{
    evaluate, summary, AudioInput, Check, OverlayState, SceneSource, Severity, Snapshot, Verdict,
};

/// A number as the library holds it.
fn reading(x: f64) -> Reading {
    Reading { bits: x.to_bits() }
}


fn mic(muted: bool, level: Option<f64>) -> AudioInput {
    AudioInput {
        name: "Микрофон".into(),
        role: Some("mic".into()),
        kind: Some("wasapi_input_capture".into()),
        muted,
        in_program_output: true,
        level_db: level.map(reading),
    }
}

fn desktop(muted: bool) -> AudioInput {
    AudioInput {
        name: "Звук раб. стола".into(),
        role: Some("desktop".into()),
        kind: Some("wasapi_output_capture".into()),
        muted,
        in_program_output: false,
        level_db: None,
    }
}

fn visual(name: &str, enabled: bool, active: Verdict) -> SceneSource {
    SceneSource {
        name: name.into(),
        enabled,
        kind: Some("game_capture".into()),
        is_scene_or_group: false,
        active,
        children: Vec::new(),
    }
}

fn audio_source(name: &str, kind: &str) -> SceneSource {
    SceneSource {
        name: name.into(),
        enabled: true,
        kind: Some(kind.into()),
        is_scene_or_group: false,
        active: Verdict::Unknown,
        children: Vec::new(),
    }
}

fn camera_source(name: &str, enabled: bool) -> SceneSource {
    SceneSource {
        name: name.into(),
        enabled,
        kind: Some("dshow_input".into()),
        is_scene_or_group: false,
        active: Verdict::Good,
        children: Vec::new(),
    }
}

fn nested(name: &str, enabled: bool, children: Vec<SceneSource>) -> SceneSource {
    SceneSource {
        name: name.into(),
        enabled,
        kind: None,
        is_scene_or_group: true,
        active: Verdict::Unknown,
        children,
    }
}

fn healthy() -> Snapshot {
    Snapshot {
        obs_connected: true,
        obs_version: Some("32.2.1".into()),
        current_scene: Some("Игра".into()),
        sources: vec![visual("Захват игры", true, Verdict::Good)],
        audio: vec![mic(false, Some(-20.0)), desktop(true)],
        free_disk_mb: reading(80_000.0),
        streaming: false,
        recording: false,
        stream_service_configured: true,
        donation_overlay: Some(OverlayState {
            present_in_scenes: Verdict::Good,
            on_top: Verdict::Good,
            audible: Verdict::Good,
        }),
        twitch_connected: true,
        camera: None,
    }
}

fn find<'a>(checks: &'a [Check], title: &str) -> &'a Check {
    checks
        .iter()
        .find(|c| c.title == title)
        .unwrap_or_else(|| panic!("нет проверки «{title}»"))
}

#[test]
fn healthy_setup_has_no_complaints() {
    let checks = evaluate(&healthy());
    assert!(
        checks.iter().all(|c| c.severity == Severity::Good),
        "неожиданные замечания: {:?}",
        checks
            .iter()
            .filter(|c| c.severity != Severity::Good)
            .map(|c| &c.title)
            .collect::<Vec<_>>()
    );
    assert_eq!(summary(&checks), "Всё готово к эфиру");
}

#[test]
fn without_obs_we_do_not_guess_the_rest() {
    let checks = evaluate(&Snapshot::default());
    assert_eq!(checks.len(), 1);
    assert_eq!(checks[0].severity, Severity::Critical);
}

#[test]
fn desktop_audio_warns_about_screen_reader_in_the_stream() {
    let mut s = healthy();
    s.audio = vec![mic(false, Some(-20.0)), desktop(false)];
    let checks = evaluate(&s);
    let check = find(&checks, "Звук рабочего стола");
    assert_eq!(check.severity, Severity::Warning);
    assert!(check.detail.contains("диктора"), "{}", check.detail);
    assert!(
        check
            .fix
            .as_ref()
            .unwrap()
            .contains("Захват звука приложения")
    );
}

#[test]
fn muted_desktop_audio_is_fine() {
    let checks = evaluate(&healthy());
    let check = find(&checks, "Звук рабочего стола");
    assert_eq!(check.severity, Severity::Good);
    assert!(check.detail.contains("Заглушен"), "{}", check.detail);
}

#[test]
fn absent_desktop_audio_is_not_called_muted() {
    let mut s = healthy();
    s.audio = vec![mic(false, Some(-20.0))];
    let checks = evaluate(&s);
    let check = find(&checks, "Звук рабочего стола");
    assert_eq!(check.severity, Severity::Good);
    assert!(check.detail.contains("не настроен"), "{}", check.detail);
}

#[test]
fn muted_microphone_blocks_the_stream() {
    let mut s = healthy();
    s.audio = vec![mic(true, Some(-100.0)), desktop(true)];
    let checks = evaluate(&s);
    assert_eq!(find(&checks, "Микрофон").severity, Severity::Critical);
    assert_eq!(find(&checks, "Сигнал микрофона").severity, Severity::Good);
}

#[test]
fn silent_microphone_is_only_a_warning() {
    let mut s = healthy();
    s.audio = vec![mic(false, Some(-100.0)), desktop(true)];
    let checks = evaluate(&s);
    assert_eq!(
        find(&checks, "Сигнал микрофона").severity,
        Severity::Warning
    );
}

#[test]
fn camera_is_not_checked_until_a_role_is_assigned() {
    let s = healthy();
    assert!(s.camera.is_none());
    assert!(evaluate(&s).iter().all(|c| c.title != "Камера"));
}

#[test]
fn hidden_camera_is_reported() {
    let mut s = healthy();
    s.camera = Some("Sony".into());
    s.sources.push(camera_source("Sony", false));
    let checks = evaluate(&s);
    let check = find(&checks, "Камера");
    assert_eq!(check.severity, Severity::Warning);
    assert!(check.detail.contains("скрыта"), "{}", check.detail);
}

#[test]
fn camera_missing_from_scene_is_reported() {
    let mut s = healthy();
    s.camera = Some("Sony".into());
    let checks = evaluate(&s);
    let check = find(&checks, "Камера");
    assert_eq!(check.severity, Severity::Warning);
    assert!(check.detail.contains("отсутствует"), "{}", check.detail);
}

#[test]
fn camera_inside_a_nested_scene_is_found() {
    let mut s = healthy();
    s.camera = Some("Sony".into());
    s.sources.push(nested(
        "Группа камеры",
        true,
        vec![camera_source("Sony", true)],
    ));
    assert_eq!(find(&evaluate(&s), "Камера").severity, Severity::Good);
}

#[test]
fn unassigned_microphone_is_critical_and_explains_where_to_fix() {
    let mut s = healthy();
    s.audio = vec![desktop(true)];
    let checks = evaluate(&s);
    let check = find(&checks, "Микрофон");
    assert_eq!(check.severity, Severity::Critical);
    let fix = check.fix.as_ref().unwrap();
    assert!(fix.contains("Роли источников"), "{fix}");
    assert!(fix.contains("Аудио"), "{fix}");
}

#[test]
fn scene_with_only_audio_sources_is_a_black_screen() {
    let mut s = healthy();
    s.sources = vec![
        audio_source("Микрофон", "wasapi_input_capture"),
        audio_source("Звук игры", "wasapi_process_output_capture"),
    ];
    let checks = evaluate(&s);
    let check = find(&checks, "Содержимое сцены");
    assert_eq!(check.severity, Severity::Critical);
    assert!(check.detail.contains("чёрный экран"), "{}", check.detail);
    assert!(summary(&checks).starts_with("Начинать нельзя"));
}

#[test]
fn audio_sources_do_not_pad_the_visible_count() {
    let mut s = healthy();
    s.sources = vec![
        visual("Захват игры", true, Verdict::Good),
        audio_source("Микрофон", "wasapi_input_capture"),
        audio_source("Звук приложения", "wasapi_process_output_capture"),
    ];
    let checks = evaluate(&s);
    let check = find(&checks, "Содержимое сцены");
    assert_eq!(check.severity, Severity::Good);
    assert!(check.detail.contains("1 из 1"), "{}", check.detail);
}

#[test]
fn nested_scene_counts_its_real_picture_children() {
    let mut s = healthy();
    s.sources = vec![nested(
        "Игра во вложенной сцене",
        true,
        vec![visual("Захват игры", true, Verdict::Good)],
    )];
    assert_eq!(
        find(&evaluate(&s), "Содержимое сцены").severity,
        Severity::Good
    );
}

#[test]
fn empty_nested_scene_is_not_a_picture() {
    let mut s = healthy();
    s.sources = vec![nested("Пустая вложенная сцена", true, vec![])];
    let checks = evaluate(&s);
    let check = find(&checks, "Содержимое сцены");
    assert_eq!(check.severity, Severity::Critical);
    assert!(check.detail.contains("чёрный экран"), "{}", check.detail);
}

#[test]
fn group_with_only_audio_children_is_a_black_screen() {
    let mut s = healthy();
    s.sources = vec![nested(
        "Группа звука",
        true,
        vec![audio_source("Микрофон", "wasapi_input_capture")],
    )];
    let check_owner = evaluate(&s);
    let check = find(&check_owner, "Содержимое сцены");
    assert_eq!(check.severity, Severity::Critical);
    assert!(check.detail.contains("чёрный экран"), "{}", check.detail);
}

#[test]
fn enabled_visual_source_must_be_active_or_showing() {
    let mut s = healthy();
    s.sources = vec![visual("Захват игры", true, Verdict::Broken)];
    let check_owner = evaluate(&s);
    let check = find(&check_owner, "Содержимое сцены");
    assert_eq!(check.severity, Severity::Critical);
    assert!(check.detail.contains("не активны"), "{}", check.detail);
}

#[test]
fn unknown_active_state_is_not_reported_as_green() {
    let mut s = healthy();
    s.sources = vec![visual("Захват игры", true, Verdict::Unknown)];
    let check_owner = evaluate(&s);
    let check = find(&check_owner, "Содержимое сцены");
    assert_eq!(check.severity, Severity::Warning);
    assert!(
        check.detail.contains("не дал проверить"),
        "{}",
        check.detail
    );
}

#[test]
fn system_audio_capture_without_role_still_warns() {
    let mut s = healthy();
    s.audio = vec![
        mic(false, Some(-20.0)),
        AudioInput {
            name: "Захват выходного аудиопотока".into(),
            role: None,
            kind: Some("wasapi_output_capture".into()),
            muted: false,
            in_program_output: true,
            level_db: None,
        },
    ];
    let check_owner = evaluate(&s);
    let check = find(&check_owner, "Звук рабочего стола");
    assert_eq!(check.severity, Severity::Warning);
    assert!(check.detail.contains("диктора"), "{}", check.detail);
}

#[test]
fn system_audio_capture_outside_program_output_does_not_warn() {
    let mut s = healthy();
    s.audio = vec![
        mic(false, Some(-20.0)),
        AudioInput {
            name: "Старый системный звук".into(),
            role: None,
            kind: Some("wasapi_output_capture".into()),
            muted: false,
            in_program_output: false,
            level_db: None,
        },
    ];
    let check_owner = evaluate(&s);
    let check = find(&check_owner, "Звук рабочего стола");
    assert_eq!(check.severity, Severity::Good);
    assert!(check.detail.contains("не настроен"), "{}", check.detail);
}

#[test]
fn application_audio_capture_is_not_a_screen_reader_risk() {
    let mut s = healthy();
    s.audio = vec![
        mic(false, Some(-20.0)),
        AudioInput {
            name: "Звук игры".into(),
            role: None,
            kind: Some("wasapi_process_output_capture".into()),
            muted: false,
            in_program_output: true,
            level_db: None,
        },
    ];
    assert_eq!(
        find(&evaluate(&s), "Звук рабочего стола").severity,
        Severity::Good
    );
}

#[test]
fn empty_scene_means_black_screen() {
    let mut s = healthy();
    s.sources = vec![];
    assert_eq!(
        find(&evaluate(&s), "Содержимое сцены").severity,
        Severity::Critical
    );
}

#[test]
fn all_sources_hidden_is_as_bad_as_empty_scene() {
    let mut s = healthy();
    s.sources = vec![
        visual("Захват игры", false, Verdict::Broken),
        visual("Камера", false, Verdict::Broken),
    ];
    let checks = evaluate(&s);
    let check = find(&checks, "Содержимое сцены");
    assert_eq!(check.severity, Severity::Critical);
    assert!(check.detail.contains("чёрный экран"));
}

#[test]
fn missing_stream_key_blocks_the_stream() {
    let mut s = healthy();
    s.stream_service_configured = false;
    assert_eq!(
        find(&evaluate(&s), "Сервис вещания").severity,
        Severity::Critical
    );
}

#[test]
fn low_disk_is_critical_only_while_recording() {
    let mut s = healthy();
    s.free_disk_mb = reading(1000.0);
    assert_eq!(
        find(&evaluate(&s), "Свободно на диске").severity,
        Severity::Warning
    );

    s.recording = true;
    let checks = evaluate(&s);
    let check = find(&checks, "Свободно на диске");
    assert_eq!(check.severity, Severity::Critical);
    assert!(check.detail.contains("оборваться"));
}

#[test]
fn donation_overlay_problems_are_reported_separately() {
    let mut s = healthy();
    s.donation_overlay = Some(OverlayState {
        present_in_scenes: Verdict::Good,
        on_top: Verdict::Broken,
        audible: Verdict::Good,
    });
    let checks = evaluate(&s);
    let check = find(&checks, "DonationAlerts");
    assert_eq!(check.severity, Severity::Warning);
    assert!(check.detail.contains("перекроет"));
}

#[test]
fn unverified_overlay_is_not_reported_as_working() {
    let mut s = healthy();
    s.donation_overlay = Some(OverlayState {
        present_in_scenes: Verdict::Unknown,
        on_top: Verdict::Unknown,
        audible: Verdict::Good,
    });
    let checks = evaluate(&s);
    let check = find(&checks, "DonationAlerts");
    assert_eq!(check.severity, Severity::Warning);
    assert!(
        check.detail.contains("Не удалось проверить"),
        "{}",
        check.detail
    );
}

#[test]
fn broken_overlay_outweighs_unverified_parts() {
    let mut s = healthy();
    s.donation_overlay = Some(OverlayState {
        present_in_scenes: Verdict::Unknown,
        on_top: Verdict::Broken,
        audible: Verdict::Unknown,
    });
    let checks = evaluate(&s);
    assert!(find(&checks, "DonationAlerts").detail.contains("перекроет"));
}

#[test]
fn verdict_combination_never_upgrades_to_ok() {
    let good = Verdict::Good;
    let unknown = Verdict::Unknown;
    let broken = Verdict::Broken;
    assert_eq!(good.min_known(unknown), unknown);
    assert_eq!(unknown.min_known(good), unknown);
    assert_eq!(unknown.min_known(broken), broken);
    assert_eq!(broken.min_known(good), broken);
    assert_eq!(good.min_known(good), good);
}

#[test]
fn donationalerts_absent_is_not_mentioned_at_all() {
    let mut s = healthy();
    s.donation_overlay = None;
    assert!(evaluate(&s).iter().all(|c| c.title != "DonationAlerts"));
}

#[test]
fn summary_counts_both_kinds() {
    let mut s = healthy();
    s.audio = vec![mic(true, None), desktop(false)];
    s.stream_service_configured = false;
    let text = summary(&evaluate(&s));
    assert!(text.starts_with("Начинать нельзя"), "{text}");
    assert!(text.contains("критических"), "{text}");
    assert!(text.contains("предупреждений"), "{text}");
}

#[test]
fn warnings_alone_still_allow_streaming() {
    let mut s = healthy();
    s.twitch_connected = false;
    assert!(summary(&evaluate(&s)).starts_with("Можно начинать"));
}

#[test]
fn unknown_disk_space_is_no_green_light() {
    let mut s = healthy();
    s.free_disk_mb = reading(0.0);
    let checks = evaluate(&s);
    let check = find(&checks, "Свободно на диске");
    assert_eq!(check.severity, Severity::Warning);
    assert_eq!(check.detail, "OBS не сообщил объём");
}
