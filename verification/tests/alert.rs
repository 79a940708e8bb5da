use memguard::alert::{Alert, AlertConfig, AlertSink};
use memguard::event::Event;
use memguard::poison::PoisonAnalyzer;

fn tagged(data: &str) -> Event {
    Event {
        timestamp: 61_000,
        source: "memwrite".to_string(),
        pid: 7,
        comm: "python3".to_string(),
        data: serde_json::from_str(data).unwrap(),
    }
}

#[test]
fn initial_configuration_sends_nothing() {
    let config = AlertConfig::new();
    assert!(!config.enabled());
    assert!(config.wecom_key().is_none());
    assert!(config.serverchan_key().is_none());
    assert!(config.base_url().is_none());
    assert!(!config.is_dry_run());
    assert_eq!(config.interval(), 10);
    assert_eq!(AlertConfig::default().interval(), 10);
    assert!(!AlertConfig::default().enabled());
}

#[test]
fn any_key_or_a_dry_run_enables() {
    assert!(AlertConfig::new().wecom("k").enabled());
    assert!(AlertConfig::new().serverchan(String::from("k")).enabled());
    assert!(AlertConfig::new().dry_run(true).enabled());
    assert!(!AlertConfig::new().dry_run(true).dry_run(false).enabled());
    assert!(!AlertConfig::new().base("http://h").enabled());
}

#[test]
fn builders_keep_the_other_settings() {
    let config = AlertConfig::new()
        .wecom("w")
        .serverchan("s")
        .base("http://h/")
        .dry_run(true)
        .interval_secs(3);
    let copy = config.clone();
    assert_eq!(copy.wecom_key().unwrap(), "w");
    assert_eq!(copy.serverchan_key().unwrap(), "s");
    assert_eq!(copy.base_url().unwrap(), "http://h/");
    assert!(copy.is_dry_run());
    assert_eq!(copy.interval(), 3);
}

#[test]
fn interval_is_at_least_one_second() {
    assert_eq!(AlertConfig::new().interval_secs(0).interval(), 1);
    assert_eq!(AlertConfig::new().interval_secs(1).interval(), 1);
    assert_eq!(AlertConfig::new().interval_secs(u64::MAX).interval(), u64::MAX);
}

#[test]
fn untagged_events_give_no_alert() {
    let sink = AlertSink::new(AlertConfig::new().dry_run(true));
    assert!(sink.process(&tagged("{\"event\":\"MEM_WRITE\"}")).is_none());
    assert!(sink.process(&tagged("\"poison\"")).is_none());
}

#[test]
fn tag_is_read_into_the_alert() {
    let sink = AlertSink::new(AlertConfig::new().wecom("k"));
    let alert = sink
        .process(&tagged(
            "{\"poison\":{\"matched\":[\"a\",1,\"b\",null],\"severity\":\"CRITICAL\",\"file\":\"/f\"}}",
        ))
        .unwrap();
    assert_eq!(alert.ts_ms, 61_000);
    assert_eq!(alert.severity, "CRITICAL");
    assert_eq!(alert.pid, 7);
    assert_eq!(alert.comm, "python3");
    assert_eq!(alert.file, "/f");
    assert_eq!(alert.signatures, "a,b");
}

#[test]
fn gaps_in_the_tag_are_filled() {
    let sink = AlertSink::new(AlertConfig::new().wecom("k"));
    for data in [
        "{\"poison\":null}",
        "{\"poison\":{\"matched\":\"a\",\"severity\":3,\"file\":[]}}",
    ] {
        let alert = sink.process(&tagged(data)).unwrap();
        assert_eq!(alert.severity, "HIGH");
        assert_eq!(alert.file, "");
        assert_eq!(alert.signatures, "");
    }
}

#[test]
fn disabled_sink_drops_alerts() {
    let sink = AlertSink::new(AlertConfig::new());
    assert!(sink.process(&tagged("{\"poison\":{}}")).is_none());
    let alert = Alert {
        ts_ms: 0,
        severity: "HIGH".to_string(),
        pid: 1,
        comm: "c".to_string(),
        file: "f".to_string(),
        signatures: "s".to_string(),
    };
    assert!(sink.push(alert.clone()).is_none());
    let sink = AlertSink::new(AlertConfig::new().dry_run(true));
    assert_eq!(sink.push(alert).unwrap().signatures, "s");
}

#[test]
fn detection_gives_the_alert_that_reports_it() {
    let analyzer = PoisonAnalyzer::new("");
    let event = tagged("{\"event\":\"MEM_WRITE\",\"head\":\"trusted source, no validation\",\"path\":\"/m\"}");
    let out = analyzer.analyze(event, None);
    let alert = AlertSink::new(AlertConfig::new().dry_run(true)).process(&out.event).unwrap();
    assert_eq!(alert.severity, "HIGH");
    assert_eq!(alert.file, "/m");
    assert_eq!(alert.signatures, "trusted source,no validation");
}
