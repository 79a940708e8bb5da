use memguard::alert::{Alert, AlertConfig};
use memguard::delivery::{
    build_body, build_title, flush_alerts, get_request, get_url, post_json, post_request, Delivery,
    HttpRequest, Method, Push, PushError,
};

fn alert(ts_ms: u64, signatures: &str) -> Alert {
    Alert {
        ts_ms,
        severity: "CRITICAL".to_string(),
        pid: 356001,
        comm: "python3".to_string(),
        file: "/tmp/memguard-demo/ehragent_memory.db".to_string(),
        signatures: signatures.to_string(),
    }
}

const DEMO_LINE: &str = "[17:07:39] CRITICAL pid=356001 comm=python3 file=/tmp/memguard-demo/ehragent_memory.db sig=trusted source,pre-approved,bypass validation";

fn demo() -> Vec<Alert> {
    vec![alert(61_659_000, "trusted source,pre-approved,bypass validation")]
}

fn sent(delivery: Delivery) -> Vec<Push> {
    match delivery {
        Delivery::Send(pushes) => pushes,
        Delivery::DryRun(_) => panic!("dry run"),
    }
}

fn ready(push: Push) -> HttpRequest {
    push.request.unwrap()
}

#[test]
fn title_counts_the_alerts() {
    assert_eq!(build_title(&demo()), "MemGuard 告警 1条 「记忆库写入×1」");
    let many: Vec<Alert> = (0..120).map(|i| alert(i, "s")).collect();
    assert_eq!(build_title(&many), "MemGuard 告警 120条 「记忆库写入×120」");
}

#[test]
fn body_has_a_line_for_each_alert() {
    assert_eq!(build_body(&demo()), DEMO_LINE);
    let two = vec![alert(0, "a"), alert(u64::MAX / 2, "b")];
    let body = build_body(&two);
    let lines: Vec<&str> = body.split('\n').collect();
    assert_eq!(lines.len(), 2);
    assert!(lines[0].starts_with("[00:00:00] CRITICAL pid=356001"));
    assert!(lines[1].starts_with("[??:??:??] "));
    assert!(lines[1].ends_with("sig=b"));
    assert_eq!(build_body(&[]), "");
}

#[test]
fn wecom_gets_a_markdown_post() {
    let config = AlertConfig::new().wecom("fakekey123").base("http://127.0.0.1:18099");
    let mut pushes = sent(flush_alerts(&config, &demo()));
    assert_eq!(pushes.len(), 1);
    let push = pushes.remove(0);
    assert_eq!(push.channel, "wecom");
    let request = ready(push);
    assert_eq!(request.method, Method::Post);
    assert_eq!(
        request.url,
        "http://127.0.0.1:18099/qyapi.weixin.qq.com/cgi-bin/webhook/send?key=fakekey123"
    );
    assert_eq!(request.content_type.unwrap(), "application/json");
    let expected = format!(
        "{{\"markdown\":{{\"content\":\"**MemGuard 告警 1条 「记忆库写入×1」**\\n{}\"}},\"msgtype\":\"markdown\"}}",
        DEMO_LINE
    );
    assert_eq!(String::from_utf8(request.body).unwrap(), expected);
}

#[test]
fn serverchan_gets_the_message_in_the_query() {
    let config = AlertConfig::new().serverchan("SCT1");
    let mut pushes = sent(flush_alerts(&config, &demo()));
    assert_eq!(pushes.len(), 1);
    let push = pushes.remove(0);
    assert_eq!(push.channel, "serverchan");
    let request = ready(push);
    assert_eq!(request.method, Method::Get);
    assert!(request.content_type.is_none());
    assert!(request.body.is_empty());
    assert!(request.url.starts_with(
        "https://sctapi.ftqq.com/SCT1.send?title=MemGuard%20%E5%91%8A%E8%AD%A6%201%E6%9D%A1%20"
    ));
    assert!(request.url.contains("&desp=%5B17%3A07%3A39%5D%20CRITICAL%20pid%3D356001"));
    assert_eq!(request.url.matches('&').count(), 1);
    assert_eq!(request.url.matches('?').count(), 1);
}

#[test]
fn both_channels_in_order_without_base() {
    let config = AlertConfig::new().serverchan("s").wecom("w");
    let pushes = sent(flush_alerts(&config, &demo()));
    assert_eq!(pushes.len(), 2);
    assert_eq!(pushes[0].channel, "wecom");
    assert_eq!(
        pushes[0].request.as_ref().unwrap().url,
        "https://qyapi.weixin.qq.com/cgi-bin/webhook/send?key=w"
    );
    assert_eq!(pushes[1].channel, "serverchan");
}

#[test]
fn base_changes_nothing_but_the_host() {
    let config = AlertConfig::new().wecom("w").serverchan("s");
    let plain = sent(flush_alerts(&config, &demo()));
    let moved = sent(flush_alerts(&config.base("http://echo:1//"), &demo()));
    assert_eq!(plain.len(), moved.len());
    for (p, m) in plain.into_iter().zip(moved) {
        assert_eq!(p.channel, m.channel);
        let (p, m) = (ready(p), ready(m));
        assert_eq!(m.url, format!("http://echo:1/{}", p.url.strip_prefix("https://").unwrap()));
        assert_eq!(m.method, p.method);
        assert_eq!(m.content_type, p.content_type);
        assert_eq!(m.body, p.body);
    }
}

#[test]
fn dry_run_logs_and_sends_nothing() {
    let config = AlertConfig::new().wecom("w").serverchan("s").dry_run(true);
    match flush_alerts(&config, &demo()) {
        Delivery::DryRun(line) => assert_eq!(
            line,
            format!("[MemGuard][dry-run] MemGuard 告警 1条 「记忆库写入×1」\n---\n{}", DEMO_LINE)
        ),
        Delivery::Send(_) => panic!("sent"),
    }
}

#[test]
fn no_channel_no_message() {
    assert!(sent(flush_alerts(&AlertConfig::new(), &demo())).is_empty());
}

#[test]
fn invalid_address_is_a_bad_request() {
    match get_url("http://bad host/") {
        Err(PushError::BadRequest(url)) => assert_eq!(url, "http://bad host/"),
        _ => panic!("accepted"),
    }
    assert!(get_url("http://good-host/").is_ok());
    match post_json("", &serde_json::Value::Null) {
        Err(PushError::BadRequest(url)) => assert_eq!(url, ""),
        _ => panic!("accepted"),
    }
    let config = AlertConfig::new().wecom("has space");
    let pushes = sent(flush_alerts(&config, &demo()));
    assert!(matches!(pushes[0].request, Err(PushError::BadRequest(_))));
}

#[test]
fn too_long_an_address_is_a_bad_request() {
    let many: Vec<Alert> = (0..1000).map(|i| alert(i, "trusted source")).collect();
    let pushes = sent(flush_alerts(&AlertConfig::new().serverchan("s"), &many));
    assert!(matches!(pushes[0].request, Err(PushError::BadRequest(_))));
}

#[test]
fn message_that_cannot_be_written_counts_first() {
    let broken = || serde_json::from_str::<serde_json::Value>("{").unwrap_err();
    assert!(matches!(
        post_request("", Err(broken()), false),
        Err(PushError::Serialize(_))
    ));
    assert!(matches!(
        post_request("http://h/", Err(broken()), true),
        Err(PushError::Serialize(_))
    ));
    assert!(matches!(
        post_request("u", Ok(vec![1]), false),
        Err(PushError::BadRequest(_))
    ));
    let request = post_request("u", Ok(vec![1, 2]), true).unwrap();
    assert_eq!(request.body, vec![1, 2]);
    assert_eq!(request.url, "u");
}

#[test]
fn plain_request_by_validity() {
    assert!(get_request("u", false).is_err());
    let request = get_request("u", true).unwrap();
    assert_eq!(request.method, Method::Get);
    assert_eq!(request.url, "u");
    assert!(request.body.is_empty());
}
