//! Alerts about the health of the broadcast.
use accessible_obs::health::{Alert, HealthWatch, Sample};
use accessible_obs::number::Reading;

/// A number as the library holds it.
fn reading(x: f64) -> Reading {
    Reading { bits: x.to_bits() }
}

fn streaming(total: f64, skipped: f64) -> Sample {
    Sample {
        total_frames: reading(total),
        skipped_frames: reading(skipped),
        free_disk_mb: reading(100_000.0),
        streaming: true,
    }
}

#[test]
fn first_sample_cannot_alert() {
    let mut watch = HealthWatch::new();
    assert!(watch.observe(streaming(1000.0, 500.0)).is_empty());
}

#[test]
fn steady_stream_stays_quiet() {
    let mut watch = HealthWatch::new();
    watch.observe(streaming(1000.0, 0.0));
    assert!(watch.observe(streaming(1600.0, 0.0)).is_empty());
}

#[test]
fn fresh_burst_of_drops_raises_alert() {
    let mut watch = HealthWatch::new();
    watch.observe(streaming(1000.0, 0.0));
    let alerts = watch.observe(streaming(1600.0, 30.0));
    assert_eq!(alerts.len(), 1);
    match &alerts[0] {
        Alert::FramesDropping { percent } => assert!((f64::from_bits(percent.bits) - 5.0).abs() < 0.01),
        other => panic!("ожидалась тревога о кадрах, получено {other:?}"),
    }
}

#[test]
fn old_drops_do_not_keep_alerting() {
    let mut watch = HealthWatch::new();
    watch.observe(streaming(1000.0, 0.0));
    watch.observe(streaming(1600.0, 60.0));
    assert!(watch.frames_alerted);

    let alerts = watch.observe(streaming(2200.0, 60.0));
    assert_eq!(alerts, vec![Alert::FramesRecovered]);
    assert!(!watch.frames_alerted);
}

#[test]
fn alert_fires_once_while_trouble_continues() {
    let mut watch = HealthWatch::new();
    watch.observe(streaming(1000.0, 0.0));
    assert_eq!(watch.observe(streaming(1600.0, 60.0)).len(), 1);
    assert!(watch.observe(streaming(2200.0, 120.0)).is_empty());
    assert!(watch.observe(streaming(2800.0, 180.0)).is_empty());
}

#[test]
fn hysteresis_prevents_flapping_at_the_threshold() {
    let mut watch = HealthWatch::new();
    watch.observe(streaming(1000.0, 0.0));
    watch.observe(streaming(2000.0, 15.0));
    assert!(watch.frames_alerted);
    assert!(watch.observe(streaming(3000.0, 20.0)).is_empty());
    assert!(watch.frames_alerted);
}

#[test]
fn restarted_stream_resets_counters_without_false_alert() {
    let mut watch = HealthWatch::new();
    watch.observe(streaming(100_000.0, 500.0));
    assert!(watch.observe(streaming(10.0, 0.0)).is_empty());
}

#[test]
fn stopping_stream_clears_frame_alert() {
    let mut watch = HealthWatch::new();
    watch.observe(streaming(1000.0, 0.0));
    watch.observe(streaming(1600.0, 60.0));
    assert!(watch.frames_alerted);

    let mut stopped = streaming(1600.0, 60.0);
    stopped.streaming = false;
    watch.observe(stopped);
    assert!(!watch.frames_alerted, "после остановки эфира тревога снята");
}

#[test]
fn low_disk_alerts_once_and_recovers_with_margin() {
    let mut watch = HealthWatch::new();
    let sample = |free: f64| Sample {
        free_disk_mb: reading(free),
        ..Default::default()
    };
    assert_eq!(
        watch.observe(sample(1000.0)),
        vec![Alert::DiskLow { free_mb: reading(1000.0) }]
    );
    assert!(watch.observe(sample(900.0)).is_empty());
    assert!(watch.observe(sample(3000.0)).is_empty());
    assert_eq!(watch.observe(sample(5000.0)), vec![Alert::DiskRecovered]);
}

#[test]
fn missing_disk_reading_is_ignored() {
    let mut watch = HealthWatch::new();
    assert!(watch.observe(Sample::default()).is_empty());
}

#[test]
fn messages_name_the_cause_not_just_the_symptom() {
    let dropping = Alert::FramesDropping { percent: reading(3.5) }.message();
    assert!(dropping.contains("3.5"));
    assert!(dropping.contains("интернета") || dropping.contains("процессора"));

    let disk = Alert::DiskLow { free_mb: reading(1536.0) }.message();
    assert!(
        disk.contains("1.5"),
        "гигабайты читаются легче мегабайт: {disk}"
    );
}

#[test]
fn only_problems_are_urgent() {
    assert!(Alert::FramesDropping { percent: reading(2.0) }.is_urgent());
    assert!(Alert::DiskLow { free_mb: reading(100.0) }.is_urgent());
    assert!(!Alert::FramesRecovered.is_urgent());
    assert!(!Alert::DiskRecovered.is_urgent());
}

#[test]
fn messages_are_rounded_to_one_place() {
    let dropping = Alert::FramesDropping { percent: reading(100.0 / 30.0) };
    assert_eq!(
        dropping.message(),
        "Эфир теряет кадры: 3.3 % за последние 10 секунд. Обычно это нехватка интернета или процессора у актёра."
    );
    let disk = Alert::DiskLow { free_mb: reading(1000.0) };
    assert_eq!(
        disk.message(),
        "На диске у актёра осталось 1.0 ГБ. Запись может оборваться."
    );
    assert_eq!(Alert::FramesRecovered.message(), "Потеря кадров прекратилась");
    assert_eq!(Alert::DiskRecovered.message(), "Места на диске снова достаточно");
}

#[test]
fn the_limits_themselves_raise_and_clear_the_alert() {
    let mut watch = HealthWatch::new();
    watch.observe(streaming(0.0, 0.0));
    // Exactly one percent raises it, exactly two in a thousand clear it.
    assert_eq!(watch.observe(streaming(1000.0, 10.0)).len(), 1);
    assert_eq!(watch.observe(streaming(2000.0, 12.0)), vec![Alert::FramesRecovered]);
    // Just below one percent nothing is said.
    assert!(watch.observe(streaming(3000.0, 21.9)).is_empty());
}

/// What the watch says of so many lost out of so many frames, and what the arithmetic of doubles says.
fn both(total: [f64; 2], skipped: [f64; 2]) -> (Vec<Alert>, Option<f64>) {
    let mut watch = HealthWatch::new();
    watch.observe(streaming(total[0], skipped[0]));
    let alerts = watch.observe(streaming(total[1], skipped[1]));
    let frames = total[1] - total[0];
    let lost = skipped[1] - skipped[0];
    if frames <= 0.0 || lost < 0.0 {
        return (alerts, None);
    }
    let percent = (lost / frames) * 100.0;
    (alerts, if percent >= 1.0 { Some(percent) } else { None })
}

#[test]
fn the_share_is_that_of_double_precision() {
    let mut cases = vec![
        ([0.0, 2000.0], [0.0, 23.0]),
        ([0.0, 100.0], [0.5000000002, 1.5000000001]),
        ([0.0, 9e15], [0.0, 1e14]),
        ([0.0, 1e300], [0.0, 1e299]),
        ([-1e308, 1e308], [0.0, 1e308]),
        ([0.0, 5e-324], [0.0, 1e300]),
        ([10.0, 5.0], [0.0, 1.0]),
        ([0.0, 700.0], [0.0, 7.0]),
        ([0.1, 0.3], [0.1, 0.2]),
    ];
    for i in 0..200u32 {
        let n = f64::from(i * 37 + 11);
        cases.push(([n * 0.7, n * 13.3], [n * 0.1, n * 0.1 + f64::from(i) * 0.3]));
    }
    for (total, skipped) in cases {
        let (alerts, percent) = both(total, skipped);
        match percent {
            Some(p) => {
                assert_eq!(alerts, vec![Alert::FramesDropping { percent: reading(p) }]);
                assert!(alerts[0].message().contains(&format!("{p:.1} %")), "{p}");
            }
            None => assert!(alerts.is_empty(), "{total:?} {skipped:?}"),
        }
    }
    // The double below 1.15 stands for 23 of 2000.
    let (alerts, _) = both([0.0, 2000.0], [0.0, 23.0]);
    assert!(alerts[0].message().contains("1.1 %"));
}

#[test]
fn gigabytes_are_rounded_from_the_number_itself() {
    let disk = Alert::DiskLow { free_mb: reading(51.2) };
    assert_eq!(disk.message(), "На диске у актёра осталось 0.1 ГБ. Запись может оборваться.");
    for i in 1..300u32 {
        let mb = f64::from(i) * 51.2;
        let said = Alert::DiskLow { free_mb: reading(mb) }.message();
        assert!(said.contains(&format!(" {:.1} ГБ", mb / 1024.0)), "{mb}");
    }
}
