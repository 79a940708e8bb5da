//! What holds from a detection to the message that reports it.
use vstd::prelude::*;
use vstd::utf8::*;

use crate::alert;
use crate::alert::{Alert, AlertView, ConfigView};
use crate::clock;
use crate::delivery;
use crate::delivery::{
    Delivery,
    DeliveryView,
    HttpRequest,
    Method,
    Push,
    PushError,
    PushView,
    RequestView,
};
use crate::event::EventView;
use crate::json;
use crate::json::Json;
use crate::tagging;
use crate::text;
use crate::text_laws;
use crate::url;

verus! {

/// A write that was tagged gives an alert that says what the tag says: when it
/// was, which process it is about, which file, how severe, and all that matched.
pub proof fn law_tagged_write_gives_alert(event: EventView, matched: Seq<Seq<char>>)
    requires
        tagging::is_write(event),
    ensures
        alert::alert_for(tagging::tagged(event, matched)) == Some(
            AlertView {
                ts_ms: event.timestamp,
                severity: tagging::severity_of(matched.len()),
                pid: event.pid,
                comm: event.comm,
                file: tagging::file_of(event),
                signatures: text::joined(matched, ","@),
            },
        ),
{
    reveal_strlit("matched");
    reveal_strlit("severity");
    reveal_strlit("file");
    assert("matched"@.len() == 7 && "severity"@.len() == 8 && "file"@.len() == 4);
    tagging::law_tag_reports(event, matched);
}

/// An event without a tag gives no alert.
pub proof fn law_untagged_gives_no_alert(event: EventView)
    requires
        event.data.field("poison"@) is None,
    ensures
        alert::alert_for(event) is None,
{
}

/// A dry run sends nothing, whatever keys there are.
pub proof fn law_dry_run_sends_nothing(config: ConfigView, alerts: Seq<AlertView>)
    requires
        config.dry_run,
    ensures
        delivery::delivery_for(config, alerts) is DryRun,
{
}

/// Each channel that has a key gets one message for the whole batch, the WeCom
/// bot first, and no other channel gets any.
pub proof fn law_one_message_to_a_channel(config: ConfigView, alerts: Seq<AlertView>)
    requires
        !config.dry_run,
    ensures
        ({
            let sent = delivery::delivery_for(config, alerts);
            &&& sent matches DeliveryView::Send(pushes)
            &&& pushes.len() == (if config.wecom_key is Some {
                1int
            } else {
                0
            }) + (if config.serverchan_key is Some {
                1int
            } else {
                0
            })
            &&& config.wecom_key is Some ==> pushes[0].0 == "wecom"@
            &&& config.serverchan_key is Some ==> pushes.last().0 == "serverchan"@
        }),
{
}

/// The address that a message is meant for, if it got as far as having one.
pub open spec fn address_of(push: PushView) -> Option<Seq<char>> {
    match push {
        PushView::Ready(request) => Some(request.url),
        PushView::BadRequest(address) => Some(address),
        PushView::NotSerialized(_) => None,
    }
}

/// An address that begins with `https://`, moved under a base: the base without
/// slashes at its end, a slash, and what follows the scheme.
pub open spec fn under_base(base: Seq<char>, address: Seq<char>) -> Seq<char> {
    text::without_trailing(base, '/') + "/"@ + address.skip("https://"@.len() as int)
}

/// `moved` is the message `push` with nothing but its address moved under the
/// base. Whether the one address or the other is valid is left open.
pub open spec fn only_moved(push: PushView, moved: PushView, base: Seq<char>) -> bool {
    &&& address_of(push) matches Some(address) ==> {
        &&& "https://"@.is_prefix_of(address)
        &&& address_of(moved) == Some(under_base(base, address))
    }
    &&& address_of(push) is None ==> moved == push
    &&& push matches PushView::Ready(request) ==> (moved matches PushView::Ready(other) ==> {
        &&& other.method == request.method
        &&& other.content_type == request.content_type
        &&& other.body == request.body
    })
}

proof fn lemma_apis_are_https()
    ensures
        "https://"@.len() == 8,
        "https://"@.is_prefix_of(delivery::WECOM_API@),
        "https://"@.is_prefix_of(delivery::SERVERCHAN_API@),
        url::without_scheme(delivery::WECOM_API@) == delivery::WECOM_API@.skip(8),
        url::without_scheme(delivery::SERVERCHAN_API@) == delivery::SERVERCHAN_API@.skip(8),
{
    reveal_strlit("https://");
    reveal_strlit("https://qyapi.weixin.qq.com/cgi-bin/webhook/send");
    reveal_strlit("https://sctapi.ftqq.com");
    let scheme = "https://"@;
    let wecom = delivery::WECOM_API@;
    let serverchan = delivery::SERVERCHAN_API@;
    assert(scheme =~= seq!['h', 't', 't', 'p', 's', ':', '/', '/']);
    assert(wecom.subrange(0, 8) =~= scheme);
    assert(serverchan.subrange(0, 8) =~= scheme);
    lemma_https_ends_at_eight(wecom);
    lemma_https_ends_at_eight(serverchan);
}

proof fn lemma_https_ends_at_eight(api: Seq<char>)
    requires
        api.len() >= 8,
        api.subrange(0, 8) == seq!['h', 't', 't', 'p', 's', ':', '/', '/'],
    ensures
        url::without_scheme(api) == api.skip(8),
{
    let first = api.subrange(0, 8);
    assert forall|i: int| 0 <= i < 8 implies api[i] == #[trigger] first[i] by {}
    assert(api[0] == first[0] && api[1] == first[1] && api[2] == first[2] && api[3] == first[3]);
    assert(api[4] == first[4] && api[5] == first[5] && api[6] == first[6] && api[7] == first[7]);
    reveal_with_fuel(url::after_double_slash, 8);
    assert(api.skip(1).skip(1) =~= api.skip(2));
    assert(api.skip(2).skip(1) =~= api.skip(3));
    assert(api.skip(3).skip(1) =~= api.skip(4));
    assert(api.skip(4).skip(1) =~= api.skip(5));
    assert(api.skip(5).skip(1) =~= api.skip(6));
    assert(api.skip(6).skip(2) =~= api.skip(8));
}

proof fn lemma_moved(base: Seq<char>, api: Seq<char>, suffix: Seq<char>)
    requires
        "https://"@.len() == 8,
        "https://"@.is_prefix_of(api),
        url::without_scheme(api) == api.skip(8),
    ensures
        "https://"@.is_prefix_of(api + suffix),
        url::moved_url(base, api, suffix) == under_base(base, api + suffix),
{
    assert((api + suffix).subrange(0, 8) =~= api.subrange(0, 8));
    assert((api + suffix).skip(8) =~= api.skip(8) + suffix);
    assert(url::moved_url(base, api, suffix) =~= under_base(base, api + suffix));
}

/// A base takes the place of the hosts and changes nothing else: the same
/// messages go to the same channels, and each address is the base, a slash, and
/// the address that it would be without a base, less its scheme.
pub proof fn law_base_takes_the_host(config: ConfigView, base: Seq<char>, alerts: Seq<AlertView>)
    requires
        config.base is None,
    ensures
        ({
            let plain = delivery::delivery_for(config, alerts);
            let moved = delivery::delivery_for(ConfigView { base: Some(base), ..config }, alerts);
            match plain {
                DeliveryView::DryRun(_) => moved == plain,
                DeliveryView::Send(pushes) => {
                    &&& moved matches DeliveryView::Send(others)
                    &&& others.len() == pushes.len()
                    &&& forall|i: int|
                        0 <= i < pushes.len() ==> (#[trigger] others[i]).0 == pushes[i].0
                            && only_moved(pushes[i].1, others[i].1, base)
                },
            }
        }),
{
    lemma_apis_are_https();
    let title = delivery::title_for(alerts.len());
    let body = delivery::body_for(alerts);
    if let Some(key) = config.wecom_key {
        lemma_moved(base, delivery::WECOM_API@, "?key="@ + key);
    }
    if let Some(key) = config.serverchan_key {
        let suffix = "/"@ + key + ".send"@;
        let query = delivery::query_for(title, body);
        let api = delivery::SERVERCHAN_API@;
        lemma_moved(base, api, suffix + query);
        assert(api + (suffix + query) =~= api + suffix + query);
        assert(url::moved_url(base, api, suffix + query) =~= url::moved_url(base, api, suffix)
            + query);
    }
}

/// A message can always be written: what can keep it from becoming a request is
/// its address alone.
pub proof fn law_messages_are_written(config: ConfigView, alerts: Seq<AlertView>)
    ensures
        delivery::delivery_for(config, alerts) matches DeliveryView::Send(pushes) ==> forall|i: int|
            0 <= i < pushes.len() ==> !((#[trigger] pushes[i]).1 is NotSerialized),
{
}

/// No text in the alert holds a line break.
pub open spec fn has_no_break(alert: AlertView) -> bool {
    &&& !alert.severity.contains('\n')
    &&& !alert.comm.contains('\n')
    &&& !alert.file.contains('\n')
    &&& !alert.signatures.contains('\n')
}

proof fn lemma_neither_has(a: Seq<char>, b: Seq<char>, c: char)
    requires
        !a.contains(c),
        !b.contains(c),
    ensures
        !(a + b).contains(c),
{
    if (a + b).contains(c) {
        let at = choose|at: int| 0 <= at < (a + b).len() && (a + b)[at] == c;
        if at < a.len() {
            assert(a[at] == c);
        } else {
            assert(b[at - a.len()] == c);
        }
    }
}

proof fn lemma_decimal_has_no_break(n: nat)
    ensures
        !text::decimal(n).contains('\n'),
    decreases n,
{
    let all = text::decimal(n);
    if n >= 10 {
        lemma_decimal_has_no_break(n / 10);
    }
    if all.contains('\n') {
        let at = choose|at: int| 0 <= at < all.len() && all[at] == '\n';
        if at < all.len() - 1 {
            assert(text::decimal(n / 10)[at] == '\n');
        }
    }
}

proof fn lemma_time_has_no_break(ts_ms: u64)
    ensures
        !clock::shown_time(ts_ms).contains('\n'),
{
    reveal_strlit(":");
    reveal_strlit("??:??:??");
}

proof fn lemma_line_has_no_break(alert: AlertView)
    requires
        has_no_break(alert),
    ensures
        !delivery::alert_line(alert).contains('\n'),
{
    reveal_strlit("[");
    reveal_strlit("] ");
    reveal_strlit(" pid=");
    reveal_strlit(" comm=");
    reveal_strlit(" file=");
    reveal_strlit(" sig=");
    lemma_time_has_no_break(alert.ts_ms);
    lemma_decimal_has_no_break(alert.pid as nat);
    let time = "["@ + clock::shown_time(alert.ts_ms);
    let severity = time + "] "@ + alert.severity;
    let pid = severity + " pid="@ + text::decimal(alert.pid as nat);
    let comm = pid + " comm="@ + alert.comm;
    let file = comm + " file="@ + alert.file;
    lemma_neither_has("["@, clock::shown_time(alert.ts_ms), '\n');
    lemma_neither_has(time, "] "@, '\n');
    lemma_neither_has(time + "] "@, alert.severity, '\n');
    lemma_neither_has(severity, " pid="@, '\n');
    lemma_neither_has(severity + " pid="@, text::decimal(alert.pid as nat), '\n');
    lemma_neither_has(pid, " comm="@, '\n');
    lemma_neither_has(pid + " comm="@, alert.comm, '\n');
    lemma_neither_has(comm, " file="@, '\n');
    lemma_neither_has(comm + " file="@, alert.file, '\n');
    lemma_neither_has(file, " sig="@, '\n');
    lemma_neither_has(file + " sig="@, alert.signatures, '\n');
}

/// The body has one line for each alert, in order, as long as the texts in the
/// alerts hold no line break.
pub proof fn law_one_line_to_an_alert(alerts: Seq<AlertView>)
    requires
        alerts.len() > 0,
        forall|i: int| 0 <= i < alerts.len() ==> has_no_break(#[trigger] alerts[i]),
    ensures
        text::pieces(delivery::body_for(alerts), '\n') == delivery::alert_lines(alerts),
{
    reveal_strlit("\n");
    assert("\n"@ =~= seq!['\n']);
    let lines = delivery::alert_lines(alerts);
    assert forall|i: int| 0 <= i < lines.len() implies !(#[trigger] lines[i]).contains('\n') by {
        assert(has_no_break(alerts[i]));
        lemma_line_has_no_break(alerts[i]);
    }
    text::law_split_undoes_join(lines, '\n');
}

/// Whoever parses the query of a message for ServerChan finds two fields, and in
/// them the title and the body as they were.
pub proof fn law_query_carries_the_message(title: Seq<char>, body: Seq<char>)
    ensures
        url::query_fields(delivery::query_for(title, body)) == seq![
            ("title"@, encode_utf8(title)),
            ("desp"@, encode_utf8(body)),
        ],
        decode_utf8(encode_utf8(title)) == title,
        decode_utf8(encode_utf8(body)) == body,
{
    encode_utf8_decode_utf8(title);
    encode_utf8_decode_utf8(body);
    let t = url::percent_encoded(encode_utf8(title));
    let b = url::percent_encoded(encode_utf8(body));
    reveal_strlit("?title=");
    reveal_strlit("&desp=");
    reveal_strlit("title");
    reveal_strlit("desp");
    let first = "title"@.push('=') + t;
    let second = "desp"@.push('=') + b;
    assert(delivery::query_for(title, body).skip(1) =~= first.push('&') + second);
    assert(!first.contains('&')) by {
        if first.contains('&') {
            let at = choose|at: int| 0 <= at < first.len() && first[at] == '&';
            assert(at >= 6);
            assert(t[at - 6] == '&');
            url::law_encoded_is_inert(encode_utf8(title), '&');
        }
    }
    assert(!second.contains('&')) by {
        if second.contains('&') {
            let at = choose|at: int| 0 <= at < second.len() && second[at] == '&';
            assert(at >= 5);
            assert(b[at - 5] == '&');
            url::law_encoded_is_inert(encode_utf8(body), '&');
        }
    }
    text::lemma_one_piece(first, '&');
    text::lemma_one_piece(second, '&');
    text::lemma_pieces_of_two(first, second, '&');
    assert(seq![first] + seq![second] =~= seq![first, second]);
    url::lemma_field(("title")@, encode_utf8(title));
    url::lemma_field(("desp")@, encode_utf8(body));
    assert(url::query_fields(delivery::query_for(title, body)) =~= seq![
        ("title"@, encode_utf8(title)),
        ("desp"@, encode_utf8(body)),
    ]);
}

// ---------------------------------------------------------------------------
// What a message says
// ---------------------------------------------------------------------------

/// The title says how many alerts there are, twice.
pub proof fn law_title_says_how_many(n: nat)
    ensures
        delivery::title_for(n) == "MemGuard 告警 "@ + text::decimal(n) + "条 「记忆库写入×"@
            + text::decimal(n) + "」"@,
        !delivery::title_for(n).contains('\n'),
{
    reveal_strlit("MemGuard 告警 ");
    reveal_strlit("条 「记忆库写入×");
    reveal_strlit("」");
    let count = text::decimal(n);
    lemma_decimal_has_no_break(n);
    lemma_neither_has("MemGuard 告警 "@, count, '\n');
    lemma_neither_has("MemGuard 告警 "@ + count, "条 「记忆库写入×"@, '\n');
    lemma_neither_has("MemGuard 告警 "@ + count + "条 「记忆库写入×"@, count, '\n');
    lemma_neither_has("MemGuard 告警 "@ + count + "条 「记忆库写入×"@ + count, "」"@, '\n');
}

/// The body for two batches is the body of the one, a line break, and the body of
/// the other: no alert is left out and the order is kept.
pub proof fn law_body_of_two(one: Seq<AlertView>, other: Seq<AlertView>)
    requires
        one.len() > 0,
        other.len() > 0,
    ensures
        delivery::body_for(one + other) == delivery::body_for(one).push('\n') + delivery::body_for(
            other,
        ),
        delivery::body_for(Seq::empty()).len() == 0,
{
    reveal_strlit("\n");
    let first = delivery::alert_lines(one);
    let rest = delivery::alert_lines(other);
    assert(delivery::alert_lines(one + other) =~= first + rest);
    text_laws::law_join_of_two(first, rest, "\n"@);
    assert(delivery::body_for(one) + "\n"@ =~= delivery::body_for(one).push('\n'));
}

/// The body for one alert shows its time in brackets, then how severe it is, and
/// then process, file and signatures, each behind its name.
pub proof fn law_body_of_one(alert: AlertView)
    ensures
        ({
            let line = delivery::body_for(seq![alert]);
            &&& line.len() >= 11
            &&& line[0] == '['
            &&& line.subrange(1, 9) == clock::shown_time(alert.ts_ms)
            &&& line[9] == ']' && line[10] == ' '
            &&& line.skip(11) == alert.severity + " pid="@ + text::decimal(alert.pid as nat)
                + " comm="@ + alert.comm + " file="@ + alert.file + " sig="@ + alert.signatures
        }),
{
    reveal_strlit("[");
    reveal_strlit("] ");
    clock::law_shown_time_has_eight_characters(alert.ts_ms);
    assert(delivery::alert_lines(seq![alert]) =~= seq![delivery::alert_line(alert)]);
    let line = delivery::body_for(seq![alert]);
    assert(line == delivery::alert_line(alert));
    assert(line.subrange(1, 9) =~= clock::shown_time(alert.ts_ms));
    assert(line.skip(11) =~= alert.severity + " pid="@ + text::decimal(alert.pid as nat) + " comm="@
        + alert.comm + " file="@ + alert.file + " sig="@ + alert.signatures);
}

/// The message for the WeCom bot is of kind `markdown`, and its one field
/// `content` holds the title in bold, a line break, and the whole body.
pub proof fn law_wecom_message_holds_title_and_body(
    title: Seq<char>,
    body: Seq<char>,
    key: Seq<char>,
)
    ensures
        ({
            let message = delivery::wecom_payload(title, body);
            &&& message.field("msgtype"@) == Some(Json::Text("markdown"@))
            &&& message.field("markdown"@) matches Some(inner)
            &&& inner.field("content"@) matches Some(Json::Text(content))
            &&& content.len() == title.len() + body.len() + 5
            &&& content.subrange(0, 2) == seq!['*', '*']
            &&& content.subrange(2, 2int + title.len()) == title
            &&& content.subrange(2int + title.len(), 5int + title.len()) == seq!['*', '*', '\n']
            &&& content.skip(5int + title.len()) == body
            &&& message.field(key) is Some ==> key == "msgtype"@ || key == "markdown"@
            &&& inner.field(key) is Some ==> key == "content"@
        }),
{
    reveal_strlit("msgtype");
    reveal_strlit("markdown");
    reveal_strlit("**");
    reveal_strlit("**\n");
    assert("msgtype"@.len() == 7 && "markdown"@.len() == 8);
    let content = "**"@ + title + "**\n"@ + body;
    assert(content.subrange(0, 2) =~= seq!['*', '*']);
    assert(content.subrange(2, 2int + title.len()) =~= title);
    assert(content.subrange(2int + title.len(), 5int + title.len()) =~= seq!['*', '*', '\n']);
    assert(content.skip(5int + title.len()) =~= body);
}

/// Cut at line breaks, what the WeCom bot gets is the title in bold and then one
/// line for each alert of the batch, in order, as long as the texts in the alerts
/// hold no line break.
pub proof fn law_wecom_message_lists_every_alert(alerts: Seq<AlertView>)
    requires
        alerts.len() > 0,
        forall|i: int| 0 <= i < alerts.len() ==> has_no_break(#[trigger] alerts[i]),
    ensures
        ({
            let title = delivery::title_for(alerts.len());
            let message = delivery::wecom_payload(title, delivery::body_for(alerts));
            &&& message.field("markdown"@) matches Some(inner)
            &&& inner.field("content"@) matches Some(Json::Text(content))
            &&& text::pieces(content, '\n').len() == alerts.len() + 1
            &&& text::pieces(content, '\n')[0] == seq!['*', '*'] + title + seq!['*', '*']
            &&& forall|i: int|
                0 <= i < alerts.len() ==> text::pieces(content, '\n')[i + 1] == delivery::body_for(
                    seq![#[trigger] alerts[i]],
                )
        }),
{
    let title = delivery::title_for(alerts.len());
    let body = delivery::body_for(alerts);
    let content = "**"@ + title + "**\n"@ + body;
    law_title_says_how_many(alerts.len());
    lemma_lines_under_title(title, body);
    law_one_line_to_an_alert(alerts);
    lemma_wecom_content(title, body);
    assert forall|i: int| 0 <= i < alerts.len() implies text::pieces(content, '\n')[i + 1]
        == delivery::body_for(seq![#[trigger] alerts[i]]) by {
        lemma_line_is_body_of_one(alerts[i]);
        assert(delivery::alert_lines(alerts)[i] == delivery::alert_line(alerts[i]));
    }
}

proof fn lemma_wecom_content(title: Seq<char>, body: Seq<char>)
    ensures
        delivery::wecom_payload(title, body).field("markdown"@) matches Some(inner)
            && inner.field("content"@) == Some(Json::Text("**"@ + title + "**\n"@ + body)),
{
}

proof fn lemma_line_is_body_of_one(alert: AlertView)
    ensures
        delivery::body_for(seq![alert]) == delivery::alert_line(alert),
{
    assert(delivery::alert_lines(seq![alert]) =~= seq![delivery::alert_line(alert)]);
}

proof fn lemma_lines_under_title(title: Seq<char>, body: Seq<char>)
    requires
        !title.contains('\n'),
    ensures
        text::pieces("**"@ + title + "**\n"@ + body, '\n') == seq![
            seq!['*', '*'] + title + seq!['*', '*'],
        ] + text::pieces(body, '\n'),
{
    reveal_strlit("**");
    reveal_strlit("**\n");
    let top = seq!['*', '*'] + title + seq!['*', '*'];
    assert("**"@ + title + "**\n"@ + body =~= top.push('\n') + body);
    lemma_neither_has(seq!['*', '*'], title, '\n');
    lemma_neither_has(seq!['*', '*'] + title, seq!['*', '*'], '\n');
    text::lemma_one_piece(top, '\n');
    text::lemma_pieces_of_two(top, body, '\n');
}

// ---------------------------------------------------------------------------
// What is sent
// ---------------------------------------------------------------------------

/// The views of alerts, requests and messages leave nothing out.
pub proof fn law_views_hold_everything(alerts: Seq<Alert>, request: HttpRequest, pushes: Seq<Push>)
    ensures
        delivery::alert_views(alerts).len() == alerts.len(),
        forall|i: int|
            0 <= i < alerts.len() ==> #[trigger] delivery::alert_views(alerts)[i] == alerts[i]@,
        request@.method == request.method,
        request@.url == request.url@,
        request.content_type matches Some(kind) ==> request@.content_type == Some(kind@),
        request.content_type is None ==> request@.content_type is None,
        request@.body == request.body@,
        delivery::push_views(pushes).len() == pushes.len(),
        forall|i: int|
            0 <= i < pushes.len() ==> {
                &&& (#[trigger] delivery::push_views(pushes)[i]).0 == pushes[i].channel@
                &&& pushes[i].request matches Ok(sent) ==> delivery::push_views(pushes)[i].1
                    == PushView::Ready(sent@)
                &&& pushes[i].request matches Err(PushError::BadRequest(address))
                    ==> delivery::push_views(pushes)[i].1 == PushView::BadRequest(address@)
                &&& pushes[i].request matches Err(PushError::Serialize(e))
                    ==> delivery::push_views(pushes)[i].1 == PushView::NotSerialized(e)
            },
{
}

/// The view of a delivery says whether it is sent, and what.
pub proof fn law_delivery_view_holds_everything(result: Delivery)
    ensures
        result matches Delivery::DryRun(line) ==> result@ == DeliveryView::DryRun(line@),
        result matches Delivery::Send(pushes) ==> result@ == DeliveryView::Send(
            delivery::push_views(pushes@),
        ),
{
}

/// A dry run logs title and body of the whole batch.
pub proof fn law_dry_run_logs_the_message(config: ConfigView, alerts: Seq<AlertView>)
    requires
        config.dry_run,
    ensures
        delivery::delivery_for(config, alerts) == DeliveryView::DryRun(
            "[MemGuard][dry-run] "@ + delivery::title_for(alerts.len()) + "\n---\n"@
                + delivery::body_for(alerts),
        ),
{
}

/// With a key for it, the WeCom bot gets the title and body of the whole batch,
/// as JSON, posted to the address of the bot with that key.
pub proof fn law_wecom_gets_the_batch(config: ConfigView, alerts: Seq<AlertView>, key: Seq<char>)
    requires
        !config.dry_run,
        config.wecom_key == Some(key),
    ensures
        ({
            let api = "https://qyapi.weixin.qq.com/cgi-bin/webhook/send"@;
            let address = match config.base {
                None => api + "?key="@ + key,
                Some(base) => url::moved_url(base, api, "?key="@ + key),
            };
            &&& delivery::delivery_for(config, alerts) matches DeliveryView::Send(pushes)
            &&& pushes.len() > 0
            &&& pushes[0].0 == "wecom"@
            &&& !delivery::uri_accepted(address) ==> pushes[0].1 == PushView::BadRequest(address)
            &&& delivery::uri_accepted(address) ==> pushes[0].1 == PushView::Ready(
                RequestView {
                    method: Method::Post,
                    url: address,
                    content_type: Some("application/json"@),
                    body: json::json_bytes(
                        delivery::wecom_payload(
                            delivery::title_for(alerts.len()),
                            delivery::body_for(alerts),
                        ),
                    ),
                },
            )
        }),
{
    let api = "https://qyapi.weixin.qq.com/cgi-bin/webhook/send"@;
    assert(api + ("?key="@ + key) =~= api + "?key="@ + key);
}

/// With a key for it, ServerChan is asked for the address with that key, whose
/// query carries title and body of the whole batch, both percent-encoded.
pub proof fn law_serverchan_gets_the_batch(
    config: ConfigView,
    alerts: Seq<AlertView>,
    key: Seq<char>,
)
    requires
        !config.dry_run,
        config.serverchan_key == Some(key),
    ensures
        ({
            let api = "https://sctapi.ftqq.com"@;
            let place = match config.base {
                None => api + "/"@ + key + ".send"@,
                Some(base) => url::moved_url(base, api, "/"@ + key + ".send"@),
            };
            let address = place + "?title="@ + url::percent_encoded(
                encode_utf8(delivery::title_for(alerts.len())),
            ) + "&desp="@ + url::percent_encoded(encode_utf8(delivery::body_for(alerts)));
            &&& delivery::delivery_for(config, alerts) matches DeliveryView::Send(pushes)
            &&& pushes.len() > 0
            &&& pushes.last().0 == "serverchan"@
            &&& !delivery::uri_accepted(address) ==> pushes.last().1 == PushView::BadRequest(address)
            &&& delivery::uri_accepted(address) ==> pushes.last().1 == PushView::Ready(
                RequestView {
                    method: Method::Get,
                    url: address,
                    content_type: None,
                    body: Seq::empty(),
                },
            )
        }),
{
    let api = "https://sctapi.ftqq.com"@;
    let place = delivery::channel_url(config.base, api, "/"@ + key + ".send"@);
    assert(api + ("/"@ + key + ".send"@) =~= api + "/"@ + key + ".send"@);
    let title = url::percent_encoded(encode_utf8(delivery::title_for(alerts.len())));
    let body = url::percent_encoded(encode_utf8(delivery::body_for(alerts)));
    assert(place + ("?title="@ + title + "&desp="@ + body) =~= place + "?title="@ + title
        + "&desp="@ + body);
}

} // verus!
