//! What a batch of alerts becomes: the message, and the requests that carry it.
use vstd::prelude::*;

use crate::alert::{Alert, AlertConfig, AlertView, ConfigView};
use crate::clock;
use crate::json;
use crate::json::Json;
use crate::text;
use crate::url;

verus! {

/// Where the WeCom bot takes messages.
pub const WECOM_API: &'static str = "https://qyapi.weixin.qq.com/cgi-bin/webhook/send";

/// Where ServerChan takes messages.
pub const SERVERCHAN_API: &'static str = "https://sctapi.ftqq.com";

// ---------------------------------------------------------------------------
// The message
// ---------------------------------------------------------------------------

/// Alerts by what they hold.
pub open spec fn alert_views(alerts: Seq<Alert>) -> Seq<AlertView> {
    Seq::new(alerts.len(), |i: int| alerts[i]@)
}

/// The title for a batch of `n` alerts.
pub open spec fn title_for(n: nat) -> Seq<char> {
    "MemGuard 告警 "@ + text::decimal(n) + "条 「记忆库写入×"@ + text::decimal(n) + "」"@
}

/// The line for one alert.
pub open spec fn alert_line(alert: AlertView) -> Seq<char> {
    "["@ + clock::shown_time(alert.ts_ms) + "] "@ + alert.severity + " pid="@ + text::decimal(
        alert.pid as nat,
    ) + " comm="@ + alert.comm + " file="@ + alert.file + " sig="@ + alert.signatures
}

/// The lines for a batch of alerts.
pub open spec fn alert_lines(alerts: Seq<AlertView>) -> Seq<Seq<char>> {
    Seq::new(alerts.len(), |i: int| alert_line(alerts[i]))
}

/// The body for a batch of alerts: one line for each.
pub open spec fn body_for(alerts: Seq<AlertView>) -> Seq<char> {
    text::joined(alert_lines(alerts), "\n"@)
}

/// The title of a batch.
pub fn build_title(pending: &[Alert]) -> (r: String)
    ensures
        r@ == title_for(pending@.len()),
{
    let n = text::decimal_text(pending.len() as u64);
    let mut title = String::from("MemGuard 告警 ");
    title.append(n.as_str());
    title.append("条 「记忆库写入×");
    title.append(n.as_str());
    title.append("」");
    title
}

fn line_for(alert: &Alert) -> (r: String)
    ensures
        r@ == alert_line(alert@),
{
    let mut line = String::from("[");
    line.append(clock::format_ts(alert.ts_ms).as_str());
    line.append("] ");
    line.append(alert.severity.as_str());
    line.append(" pid=");
    line.append(text::decimal_text(alert.pid as u64).as_str());
    line.append(" comm=");
    line.append(alert.comm.as_str());
    line.append(" file=");
    line.append(alert.file.as_str());
    line.append(" sig=");
    line.append(alert.signatures.as_str());
    line
}

/// The body of a batch.
pub fn build_body(pending: &[Alert]) -> (r: String)
    ensures
        r@ == body_for(alert_views(pending@)),
{
    let mut lines: Vec<String> = Vec::new();
    let mut i: usize = 0;
    while i < pending.len()
        invariant
            i <= pending@.len(),
            lines@.len() == i,
            forall|k: int| 0 <= k < i ==> #[trigger] lines@[k]@ == alert_line(pending@[k]@),
        decreases pending@.len() - i,
    {
        lines.push(line_for(&pending[i]));
        i = i + 1;
    }
    assert(text::views(lines@) =~= alert_lines(alert_views(pending@)));
    text::join(&lines, "\n")
}

// ---------------------------------------------------------------------------
// Requests
// ---------------------------------------------------------------------------

/// How a request asks.
#[derive(Debug, Clone, Copy, PartialEq, Eq, Structural)]
pub enum Method {
    Get,
    Post,
}

/// A request to send.
#[derive(Debug)]
pub struct HttpRequest {
    pub method: Method,
    pub url: String,
    pub content_type: Option<String>,
    pub body: Vec<u8>,
}

/// Why a request cannot be sent.
#[derive(Debug)]
pub enum PushError {
    /// The message could not be written as JSON.
    Serialize(serde_json::Error),
    /// The address, which is given, is no valid address.
    BadRequest(String),
}

/// A request by what it holds.
pub struct RequestView {
    pub method: Method,
    pub url: Seq<char>,
    pub content_type: Option<Seq<char>>,
    pub body: Seq<u8>,
}

impl View for HttpRequest {
    type V = RequestView;

    open spec fn view(&self) -> RequestView {
        RequestView {
            method: self.method,
            url: self.url@,
            content_type: crate::alert::option_view(self.content_type),
            body: self.body@,
        }
    }
}

/// What comes of a message for one channel.
pub enum PushView {
    Ready(RequestView),
    NotSerialized(serde_json::Error),
    BadRequest(Seq<char>),
}

/// A result by what it holds.
pub open spec fn push_view(result: Result<HttpRequest, PushError>) -> PushView {
    match result {
        Ok(request) => PushView::Ready(request@),
        Err(PushError::Serialize(e)) => PushView::NotSerialized(e),
        Err(PushError::BadRequest(url)) => PushView::BadRequest(url@),
    }
}

/// Whether `hyper::Uri` takes a text for an address.
pub uninterp spec fn uri_accepted(url: Seq<char>) -> bool;

/// `hyper::Uri::try_from` takes a text for an address or refuses it; which of
/// the two depends on the text alone.
#[verifier::external_body]
pub(crate) fn is_uri(url: &str) -> (r: bool)
    ensures
        r == uri_accepted(url@),
{
    hyper::Uri::try_from(url).is_ok()
}

/// What comes of posting a message, given its bytes, if it could be written,
/// and whether the address is valid.
pub open spec fn post_result(
    url: Seq<char>,
    bytes: Result<Seq<u8>, serde_json::Error>,
    valid: bool,
) -> PushView {
    match bytes {
        Err(e) => PushView::NotSerialized(e),
        Ok(body) => if valid {
            PushView::Ready(
                RequestView {
                    method: Method::Post,
                    url,
                    content_type: Some("application/json"@),
                    body,
                },
            )
        } else {
            PushView::BadRequest(url)
        },
    }
}

/// What comes of a plain request for an address.
pub open spec fn get_result(url: Seq<char>, valid: bool) -> PushView {
    if valid {
        PushView::Ready(
            RequestView { method: Method::Get, url, content_type: None, body: Seq::empty() },
        )
    } else {
        PushView::BadRequest(url)
    }
}

/// A written message by what it holds, or why it could not be written.
pub open spec fn bytes_view(body: Result<Vec<u8>, serde_json::Error>) -> Result<
    Seq<u8>,
    serde_json::Error,
> {
    match body {
        Ok(bytes) => Ok(bytes@),
        Err(e) => Err(e),
    }
}

/// A request that posts `body`; a body that could not be written counts before
/// an address that is not valid.
pub fn post_request(
    url: &str,
    body: Result<Vec<u8>, serde_json::Error>,
    valid: bool,
) -> (r: Result<HttpRequest, PushError>)
    ensures
        push_view(r) == post_result(url@, bytes_view(body), valid),
        r is Ok <==> body is Ok && valid,
        r matches Ok(request) ==> {
            &&& request.method == Method::Post
            &&& request.url@ == url@
            &&& request.content_type matches Some(kind) && kind@ == "application/json"@
            &&& body matches Ok(bytes) && request.body@ == bytes@
        },
        body matches Err(e) ==> (r matches Err(PushError::Serialize(given)) && given == e),
        body is Ok && !valid ==> (r matches Err(PushError::BadRequest(address)) && address@ == url@),
{
    let body = match body {
        Ok(body) => body,
        Err(e) => {
            return Err(PushError::Serialize(e));
        },
    };
    if !valid {
        return Err(PushError::BadRequest(url.to_string()));
    }
    Ok(
        HttpRequest {
            method: Method::Post,
            url: url.to_string(),
            content_type: Some(String::from("application/json")),
            body,
        },
    )
}

/// A request for an address.
pub fn get_request(url: &str, valid: bool) -> (r: Result<HttpRequest, PushError>)
    ensures
        push_view(r) == get_result(url@, valid),
        r is Ok <==> valid,
        r matches Ok(request) ==> {
            &&& request.method == Method::Get
            &&& request.url@ == url@
            &&& request.content_type is None
            &&& request.body@.len() == 0
        },
        !valid ==> (r matches Err(PushError::BadRequest(address)) && address@ == url@),
{
    if !valid {
        return Err(PushError::BadRequest(url.to_string()));
    }
    let body: Vec<u8> = Vec::new();
    assert(body@ =~= Seq::empty());
    Ok(HttpRequest { method: Method::Get, url: url.to_string(), content_type: None, body })
}

/// The request that posts `payload` as JSON to `url`.
pub fn post_json(url: &str, payload: &serde_json::Value) -> (r: Result<HttpRequest, PushError>)
    ensures
        push_view(r) == post_result(
            url@,
            Ok(json::json_bytes(json::content(*payload))),
            uri_accepted(url@),
        ),
        r is Ok <==> uri_accepted(url@),
        r matches Ok(request) ==> {
            &&& request.method == Method::Post
            &&& request.url@ == url@
            &&& request.content_type matches Some(kind) && kind@ == "application/json"@
            &&& request.body@ == json::json_bytes(json::content(*payload))
        },
        r is Err ==> (r matches Err(PushError::BadRequest(address)) && address@ == url@),
{
    let body = json::to_bytes(payload);
    let valid = is_uri(url);
    post_request(url, body, valid)
}

/// The request for `url`.
pub fn get_url(url: &str) -> (r: Result<HttpRequest, PushError>)
    ensures
        push_view(r) == get_result(url@, uri_accepted(url@)),
        r is Ok <==> uri_accepted(url@),
        r matches Ok(request) ==> {
            &&& request.method == Method::Get
            &&& request.url@ == url@
            &&& request.content_type is None
            &&& request.body@.len() == 0
        },
        r is Err ==> (r matches Err(PushError::BadRequest(address)) && address@ == url@),
{
    let valid = is_uri(url);
    get_request(url, valid)
}

// ---------------------------------------------------------------------------
// Channels
// ---------------------------------------------------------------------------

/// The address of an API with a suffix, moved under the base if there is one.
pub open spec fn channel_url(base: Option<Seq<char>>, api: Seq<char>, suffix: Seq<char>) -> Seq<
    char,
> {
    match base {
        Some(b) => url::moved_url(b, api, suffix),
        None => api + suffix,
    }
}

/// The address of the WeCom bot with `key`.
pub open spec fn wecom_url(base: Option<Seq<char>>, key: Seq<char>) -> Seq<char> {
    channel_url(base, WECOM_API@, "?key="@ + key)
}

/// The message for the WeCom bot.
pub open spec fn wecom_payload(title: Seq<char>, body: Seq<char>) -> Json {
    Json::Object(
        json::no_fields().insert("msgtype"@, Json::Text("markdown"@)).insert(
            "markdown"@,
            Json::Object(
                json::no_fields().insert(
                    "content"@,
                    Json::Text("**"@ + title + "**\n"@ + body),
                ),
            ),
        ),
    )
}

/// The query that carries a message to ServerChan.
pub open spec fn query_for(title: Seq<char>, body: Seq<char>) -> Seq<char> {
    "?title="@ + url::percent_encoded(vstd::utf8::encode_utf8(title)) + "&desp="@
        + url::percent_encoded(vstd::utf8::encode_utf8(body))
}

/// The address that carries a message to ServerChan with `key`.
pub open spec fn serverchan_url(
    base: Option<Seq<char>>,
    key: Seq<char>,
    title: Seq<char>,
    body: Seq<char>,
) -> Seq<char> {
    channel_url(base, SERVERCHAN_API@, "/"@ + key + ".send"@) + query_for(title, body)
}

fn api_url(base: Option<&String>, api: &str, suffix: &str) -> (r: String)
    ensures
        r@ == channel_url(
            match base {
                Some(b) => Some(b@),
                None => None,
            },
            api@,
            suffix@,
        ),
{
    match base {
        Some(b) => url::override_url(b.as_str(), api, suffix),
        None => {
            let mut whole = api.to_string();
            whole.append(suffix);
            whole
        },
    }
}

fn wecom_value(title: &str, body: &str) -> (r: serde_json::Value)
    ensures
        json::content(r) == wecom_payload(title@, body@),
{
    let mut content = String::from("**");
    content.append(title);
    content.append("**\n");
    content.append(body);
    let mut markdown = serde_json::Map::new();
    markdown.insert(String::from("content"), json::text_value(content));
    let mut payload = serde_json::Map::new();
    payload.insert(String::from("msgtype"), json::text_value(String::from("markdown")));
    payload.insert(String::from("markdown"), json::object_value(markdown));
    json::object_value(payload)
}

/// A message for one channel.
#[derive(Debug)]
pub struct Push {
    pub channel: String,
    pub request: Result<HttpRequest, PushError>,
}

/// What is done with a batch of alerts.
#[derive(Debug)]
pub enum Delivery {
    /// The message is logged and nothing is sent.
    DryRun(String),
    /// The messages are sent, in this order.
    Send(Vec<Push>),
}

/// What is done with a batch of alerts, by what it holds: channel and request
/// of each message.
pub enum DeliveryView {
    DryRun(Seq<char>),
    Send(Seq<(Seq<char>, PushView)>),
}

/// Messages by what they hold.
pub open spec fn push_views(pushes: Seq<Push>) -> Seq<(Seq<char>, PushView)> {
    Seq::new(pushes.len(), |i: int| (pushes[i].channel@, push_view(pushes[i].request)))
}

impl View for Delivery {
    type V = DeliveryView;

    open spec fn view(&self) -> DeliveryView {
        match self {
            Delivery::DryRun(line) => DeliveryView::DryRun(line@),
            Delivery::Send(pushes) => DeliveryView::Send(push_views(pushes@)),
        }
    }
}

/// What is logged in place of a message.
pub open spec fn dry_run_line(title: Seq<char>, body: Seq<char>) -> Seq<char> {
    "[MemGuard][dry-run] "@ + title + "\n---\n"@ + body
}

/// The message for the WeCom bot, if there is a key for it.
pub open spec fn wecom_pushes(config: ConfigView, title: Seq<char>, body: Seq<char>) -> Seq<
    (Seq<char>, PushView),
> {
    match config.wecom_key {
        Some(key) => seq![
            (
                "wecom"@,
                post_result(
                    wecom_url(config.base, key),
                    Ok(json::json_bytes(wecom_payload(title, body))),
                    uri_accepted(wecom_url(config.base, key)),
                ),
            ),
        ],
        None => Seq::empty(),
    }
}

/// The message for ServerChan, if there is a key for it.
pub open spec fn serverchan_pushes(config: ConfigView, title: Seq<char>, body: Seq<char>) -> Seq<
    (Seq<char>, PushView),
> {
    match config.serverchan_key {
        Some(key) => seq![
            (
                "serverchan"@,
                get_result(
                    serverchan_url(config.base, key, title, body),
                    uri_accepted(serverchan_url(config.base, key, title, body)),
                ),
            ),
        ],
        None => Seq::empty(),
    }
}

/// What is done with a batch of alerts under a configuration.
pub open spec fn delivery_for(config: ConfigView, alerts: Seq<AlertView>) -> DeliveryView {
    let title = title_for(alerts.len());
    let body = body_for(alerts);
    if config.dry_run {
        DeliveryView::DryRun(dry_run_line(title, body))
    } else {
        DeliveryView::Send(
            wecom_pushes(config, title, body) + serverchan_pushes(config, title, body),
        )
    }
}

/// What is done with a batch of alerts.
pub fn flush_alerts(config: &AlertConfig, pending: &[Alert]) -> (r: Delivery)
    ensures
        r@ == delivery_for(config@, alert_views(pending@)),
{
    let title = build_title(pending);
    let body = build_body(pending);
    if config.is_dry_run() {
        let mut line = String::from("[MemGuard][dry-run] ");
        line.append(title.as_str());
        line.append("\n---\n");
        line.append(body.as_str());
        return Delivery::DryRun(line);
    }
    let mut pushes: Vec<Push> = Vec::new();
    assert(push_views(pushes@) =~= Seq::empty());
    if let Some(key) = config.wecom_key() {
        let mut suffix = String::from("?key=");
        suffix.append(key.as_str());
        let target = api_url(config.base_url(), WECOM_API, suffix.as_str());
        let payload = wecom_value(title.as_str(), body.as_str());
        let request = post_json(target.as_str(), &payload);
        pushes.push(Push { channel: String::from("wecom"), request });
    }
    assert(push_views(pushes@) =~= wecom_pushes(config@, title@, body@));
    let ghost before = pushes@;
    if let Some(key) = config.serverchan_key() {
        let mut suffix = String::from("/");
        suffix.append(key.as_str());
        suffix.append(".send");
        let mut target = api_url(config.base_url(), SERVERCHAN_API, suffix.as_str());
        let mut query = String::from("?title=");
        query.append(url::urlencode(title.as_str()).as_str());
        query.append("&desp=");
        query.append(url::urlencode(body.as_str()).as_str());
        target.append(query.as_str());
        let request = get_url(target.as_str());
        pushes.push(Push { channel: String::from("serverchan"), request });
    }
    assert(push_views(pushes@) =~= push_views(before) + serverchan_pushes(config@, title@, body@));
    Delivery::Send(pushes)
}

} // verus!
