use memguard::alert::{Alert, AlertConfig};
use memguard::delivery::Delivery;
use memguard::flusher::{Flusher, Input, Step};

fn alert(n: u32) -> Alert {
    Alert {
        ts_ms: 0,
        severity: "HIGH".to_string(),
        pid: n,
        comm: "c".to_string(),
        file: "f".to_string(),
        signatures: "s".to_string(),
    }
}

fn pids(step: Step) -> Vec<String> {
    match step.delivery {
        None => Vec::new(),
        Some(Delivery::DryRun(line)) => line
            .split('\n')
            .skip(2)
            .map(|l| l.split("pid=").nth(1).unwrap().split(' ').next().unwrap().to_string())
            .collect(),
        Some(Delivery::Send(_)) => panic!("sent"),
    }
}

#[test]
fn alerts_leave_together_on_a_tick() {
    let mut flusher = Flusher::new(AlertConfig::new().dry_run(true));
    assert!(flusher.step(Input::Tick).delivery.is_none());
    assert!(flusher.step(Input::Received(alert(1))).delivery.is_none());
    assert!(flusher.step(Input::Received(alert(2))).delivery.is_none());
    let step = flusher.step(Input::Tick);
    assert!(!step.finished);
    assert_eq!(pids(step), vec!["1", "2"]);
    assert!(flusher.step(Input::Tick).delivery.is_none());
}

#[test]
fn end_sends_what_waits() {
    let mut flusher = Flusher::new(AlertConfig::new().dry_run(true));
    flusher.step(Input::Received(alert(1)));
    flusher.step(Input::Tick);
    flusher.step(Input::Received(alert(2)));
    let step = flusher.step(Input::Closed);
    assert!(step.finished);
    assert_eq!(pids(step), vec!["2"]);
}

#[test]
fn end_without_alerts_sends_nothing() {
    let mut flusher = Flusher::new(AlertConfig::new().dry_run(true));
    let step = flusher.step(Input::Closed);
    assert!(step.finished);
    assert!(step.delivery.is_none());
}

#[test]
fn every_alert_leaves_once_and_in_order() {
    let mut flusher = Flusher::new(AlertConfig::new().dry_run(true));
    let mut seen: Vec<String> = Vec::new();
    for n in 0..10 {
        seen.extend(pids(flusher.step(Input::Received(alert(n)))));
        if n % 3 == 1 {
            seen.extend(pids(flusher.step(Input::Tick)));
        }
    }
    seen.extend(pids(flusher.step(Input::Closed)));
    let expected: Vec<String> = (0..10).map(|n: u32| n.to_string()).collect();
    assert_eq!(seen, expected);
}

#[test]
fn disabled_flusher_drops_everything() {
    let mut flusher = Flusher::new(AlertConfig::new());
    flusher.step(Input::Received(alert(1)));
    assert!(flusher.step(Input::Tick).delivery.is_none());
    flusher.step(Input::Received(alert(2)));
    let step = flusher.step(Input::Closed);
    assert!(step.finished);
    assert!(step.delivery.is_none());
}

#[test]
fn batch_goes_to_the_channels() {
    let mut flusher = Flusher::new(AlertConfig::new().wecom("w"));
    flusher.step(Input::Received(alert(1)));
    flusher.step(Input::Received(alert(2)));
    match flusher.step(Input::Tick).delivery {
        Some(Delivery::Send(pushes)) => {
            assert_eq!(pushes.len(), 1);
            let body = String::from_utf8(pushes[0].request.as_ref().unwrap().body.clone()).unwrap();
            assert!(body.contains("MemGuard 告警 2条"));
        }
        _ => panic!("nothing sent"),
    }
}
