//! Alerts: what they say, how they are configured, and which events give one.
use vstd::prelude::*;

use crate::event::{Event, EventView};
use crate::json;
use crate::json::Json;
use crate::tagging;
use crate::text;

verus! {

/// How many seconds alerts are gathered for, unless another number is given.
pub const DEFAULT_INTERVAL_SECS: u64 = 10;

/// One alert that waits to be sent.
#[derive(Debug)]
pub struct Alert {
    /// Milliseconds since the Unix epoch.
    pub ts_ms: u64,
    pub severity: String,
    pub pid: u32,
    pub comm: String,
    pub file: String,
    pub signatures: String,
}

/// An alert by what it holds.
pub struct AlertView {
    pub ts_ms: u64,
    pub severity: Seq<char>,
    pub pid: u32,
    pub comm: Seq<char>,
    pub file: Seq<char>,
    pub signatures: Seq<char>,
}

impl View for Alert {
    type V = AlertView;

    open spec fn view(&self) -> AlertView {
        AlertView {
            ts_ms: self.ts_ms,
            severity: self.severity@,
            pid: self.pid,
            comm: self.comm@,
            file: self.file@,
            signatures: self.signatures@,
        }
    }
}

impl Clone for Alert {
    fn clone(&self) -> (r: Self)
        ensures
            r@ == self@,
    {
        Alert {
            ts_ms: self.ts_ms,
            severity: self.severity.clone(),
            pid: self.pid,
            comm: self.comm.clone(),
            file: self.file.clone(),
            signatures: self.signatures.clone(),
        }
    }
}

/// Where alerts go, and how they are gathered.
#[derive(Debug)]
pub struct AlertConfig {
    wecom_key: Option<String>,
    serverchan_key: Option<String>,
    base: Option<String>,
    dry_run: bool,
    interval_secs: u64,
}

/// A configuration by what it holds.
pub struct ConfigView {
    pub wecom_key: Option<Seq<char>>,
    pub serverchan_key: Option<Seq<char>>,
    /// An address that stands in for the hosts of the two services.
    pub base: Option<Seq<char>>,
    pub dry_run: bool,
    pub interval_secs: u64,
}

impl ConfigView {
    /// Nothing configured.
    pub open spec fn initial() -> ConfigView {
        ConfigView {
            wecom_key: None,
            serverchan_key: None,
            base: None,
            dry_run: false,
            interval_secs: DEFAULT_INTERVAL_SECS,
        }
    }

    /// Alerts go somewhere.
    pub open spec fn enabled(self) -> bool {
        self.dry_run || self.wecom_key is Some || self.serverchan_key is Some
    }
}

/// An optional string by what it holds.
pub open spec fn option_view(s: Option<String>) -> Option<Seq<char>> {
    match s {
        Some(s) => Some(s@),
        None => None,
    }
}

impl View for AlertConfig {
    type V = ConfigView;

    closed spec fn view(&self) -> ConfigView {
        ConfigView {
            wecom_key: option_view(self.wecom_key),
            serverchan_key: option_view(self.serverchan_key),
            base: option_view(self.base),
            dry_run: self.dry_run,
            interval_secs: self.interval_secs,
        }
    }
}

impl AlertConfig {
    #[verifier::type_invariant]
    spec fn well_formed(self) -> bool {
        self.interval_secs >= 1
    }

    /// A configuration that sends nothing.
    pub fn new() -> (r: Self)
        ensures
            r@ == ConfigView::initial(),
    {
        AlertConfig {
            wecom_key: None,
            serverchan_key: None,
            base: None,
            dry_run: false,
            interval_secs: DEFAULT_INTERVAL_SECS,
        }
    }

    /// Sends to the WeCom bot with this key.
    pub fn wecom<K: Into<String>>(self, key: K) -> (r: Self)
        ensures
            exists|k: String| #[trigger]
                call_ensures(K::into, (key,), k) && r@ == (ConfigView {
                    wecom_key: Some(k@),
                    ..self@
                }),
    {
        proof {
            use_type_invariant(&self);
        }
        AlertConfig {
            wecom_key: Some(key.into()),
            serverchan_key: self.serverchan_key,
            base: self.base,
            dry_run: self.dry_run,
            interval_secs: self.interval_secs,
        }
    }

    /// Sends to ServerChan with this key.
    pub fn serverchan<K: Into<String>>(self, key: K) -> (r: Self)
        ensures
            exists|k: String| #[trigger]
                call_ensures(K::into, (key,), k) && r@ == (ConfigView {
                    serverchan_key: Some(k@),
                    ..self@
                }),
    {
        proof {
            use_type_invariant(&self);
        }
        AlertConfig {
            wecom_key: self.wecom_key,
            serverchan_key: Some(key.into()),
            base: self.base,
            dry_run: self.dry_run,
            interval_secs: self.interval_secs,
        }
    }

    /// Sends to this address in place of the hosts of the two services.
    pub fn base<K: Into<String>>(self, url: K) -> (r: Self)
        ensures
            exists|k: String| #[trigger]
                call_ensures(K::into, (url,), k) && r@ == (ConfigView {
                    base: Some(k@),
                    ..self@
                }),
    {
        proof {
            use_type_invariant(&self);
        }
        AlertConfig {
            wecom_key: self.wecom_key,
            serverchan_key: self.serverchan_key,
            base: Some(url.into()),
            dry_run: self.dry_run,
            interval_secs: self.interval_secs,
        }
    }

    /// Whether alerts are logged instead of sent.
    pub fn dry_run(self, v: bool) -> (r: Self)
        ensures
            r@ == (ConfigView { dry_run: v, ..self@ }),
    {
        proof {
            use_type_invariant(&self);
        }
        AlertConfig {
            wecom_key: self.wecom_key,
            serverchan_key: self.serverchan_key,
            base: self.base,
            dry_run: v,
            interval_secs: self.interval_secs,
        }
    }

    /// Gathers alerts for this many seconds, and for one at the least.
    pub fn interval_secs(self, secs: u64) -> (r: Self)
        ensures
            r@ == (ConfigView {
                interval_secs: if secs >= 1 {
                    secs
                } else {
                    1
                },
                ..self@
            }),
    {
        AlertConfig {
            wecom_key: self.wecom_key,
            serverchan_key: self.serverchan_key,
            base: self.base,
            dry_run: self.dry_run,
            interval_secs: if secs >= 1 {
                secs
            } else {
                1
            },
        }
    }

    /// Whether alerts go anywhere.
    pub fn enabled(&self) -> (r: bool)
        ensures
            r == self@.enabled(),
    {
        self.dry_run || self.wecom_key.is_some() || self.serverchan_key.is_some()
    }

    /// The key of the WeCom bot.
    pub fn wecom_key(&self) -> (r: Option<&String>)
        ensures
            r matches Some(key) ==> self@.wecom_key == Some(key@),
            r is None ==> self@.wecom_key is None,
    {
        self.wecom_key.as_ref()
    }

    /// The key for ServerChan.
    pub fn serverchan_key(&self) -> (r: Option<&String>)
        ensures
            r matches Some(key) ==> self@.serverchan_key == Some(key@),
            r is None ==> self@.serverchan_key is None,
    {
        self.serverchan_key.as_ref()
    }

    /// The address that stands in for the hosts of the two services.
    pub fn base_url(&self) -> (r: Option<&String>)
        ensures
            r matches Some(url) ==> self@.base == Some(url@),
            r is None ==> self@.base is None,
    {
        self.base.as_ref()
    }

    /// Whether alerts are logged instead of sent.
    pub fn is_dry_run(&self) -> (r: bool)
        ensures
            r == self@.dry_run,
    {
        self.dry_run
    }

    /// How many seconds alerts are gathered for; never zero.
    pub fn interval(&self) -> (r: u64)
        ensures
            r == self@.interval_secs,
            r >= 1,
    {
        proof {
            use_type_invariant(self);
        }
        self.interval_secs
    }
}

fn copy_of(s: &Option<String>) -> (r: Option<String>)
    ensures
        option_view(r) == option_view(*s),
{
    match s {
        Some(s) => Some(s.clone()),
        None => None,
    }
}

impl Clone for AlertConfig {
    fn clone(&self) -> (r: Self)
        ensures
            r@ == self@,
    {
        proof {
            use_type_invariant(self);
        }
        AlertConfig {
            wecom_key: copy_of(&self.wecom_key),
            serverchan_key: copy_of(&self.serverchan_key),
            base: copy_of(&self.base),
            dry_run: self.dry_run,
            interval_secs: self.interval_secs,
        }
    }
}

impl Default for AlertConfig {
    fn default() -> (r: Self)
        ensures
            r@ == ConfigView::initial(),
    {
        AlertConfig::new()
    }
}

// ---------------------------------------------------------------------------
// From events to alerts
// ---------------------------------------------------------------------------

/// The text of a field, or `default` where there is none.
pub open spec fn text_or(value: Json, key: Seq<char>, default: Seq<char>) -> Seq<char> {
    match value.text_field(key) {
        Some(text) => text,
        None => default,
    }
}

/// The alert that a tagged event gives; an event without a tag gives none.
pub open spec fn alert_for(event: EventView) -> Option<AlertView> {
    match event.data.field("poison"@) {
        Some(poison) => Some(
            AlertView {
                ts_ms: event.timestamp,
                severity: text_or(poison, "severity"@, "HIGH"@),
                pid: event.pid,
                comm: event.comm,
                file: text_or(poison, "file"@, ""@),
                signatures: text::joined(tagging::listed(poison), ","@),
            },
        ),
        None => None,
    }
}

fn field_or(value: &serde_json::Value, key: &str, default: &str) -> (r: String)
    ensures
        r@ == text_or(json::content(*value), key@, default@),
{
    match json::get_text(value, key) {
        Some(text) => text.to_string(),
        None => default.to_string(),
    }
}

fn listed_signatures(poison: &serde_json::Value) -> (r: Vec<String>)
    ensures
        text::views(r@) == tagging::listed(json::content(*poison)),
{
    if let Some(matched) = json::get(poison, "matched") {
        if let Some(items) = matched.as_array() {
            return json::texts_of(items);
        }
    }
    let none: Vec<String> = Vec::new();
    assert(text::views(none@) =~= Seq::empty());
    none
}

/// Turns tagged events into alerts.
pub struct AlertSink {
    config: AlertConfig,
}

impl View for AlertSink {
    type V = ConfigView;

    closed spec fn view(&self) -> ConfigView {
        self.config@
    }
}

impl AlertSink {
    /// A sink for the given configuration.
    pub fn new(config: AlertConfig) -> (r: Self)
        ensures
            r@ == config@,
    {
        AlertSink { config }
    }

    /// Takes an alert on its way: it is handed back to be queued where alerts go
    /// anywhere, and dropped where they do not.
    pub fn push(&self, alert: Alert) -> (r: Option<Alert>)
        ensures
            r == (if self@.enabled() {
                Some(alert)
            } else {
                None
            }),
    {
        if !self.config.enabled() {
            return None;
        }
        Some(alert)
    }

    /// The alert to queue for an event, if there is one. The event itself is
    /// only looked at.
    pub fn process(&self, event: &Event) -> (r: Option<Alert>)
        ensures
            r is Some <==> self@.enabled() && alert_for(event@) is Some,
            r matches Some(alert) ==> alert_for(event@) == Some(alert@),
    {
        let poison = match json::get(&event.data, "poison") {
            Some(poison) => poison,
            None => {
                return None;
            },
        };
        let signatures = listed_signatures(poison);
        let alert = Alert {
            ts_ms: event.timestamp,
            severity: field_or(poison, "severity", "HIGH"),
            pid: event.pid,
            comm: event.comm.clone(),
            file: field_or(poison, "file", ""),
            signatures: text::join(&signatures, ","),
        };
        self.push(alert)
    }
}

// ---------------------------------------------------------------------------
// What holds of alerts
// ---------------------------------------------------------------------------

/// The view of an alert leaves nothing of it out.
pub proof fn law_view_holds_everything(alert: Alert)
    ensures
        alert@.ts_ms == alert.ts_ms,
        alert@.severity == alert.severity@,
        alert@.pid == alert.pid,
        alert@.comm == alert.comm@,
        alert@.file == alert.file@,
        alert@.signatures == alert.signatures@,
{
}

/// Alerts go somewhere as soon as one channel has a key, or they are logged; a
/// configuration that was not touched sends nothing and gathers for ten seconds.
pub proof fn law_any_channel_enables(config: ConfigView)
    ensures
        config.wecom_key is Some ==> config.enabled(),
        config.serverchan_key is Some ==> config.enabled(),
        config.dry_run ==> config.enabled(),
        config.wecom_key is None && config.serverchan_key is None && !config.dry_run
            ==> !config.enabled(),
        !ConfigView::initial().enabled(),
        ConfigView::initial().base is None,
        ConfigView::initial().interval_secs == 10,
{
}

/// Every event with a tag gives an alert, whatever process it is about, and the
/// alert says when it was and which process it is about as the event does. How
/// severe it is and which file it is about are what the tag says, with `HIGH` and
/// the empty text where it says neither.
pub proof fn law_alert_says_what_the_tag_says(event: EventView, poison: Json)
    requires
        event.data.field("poison"@) == Some(poison),
    ensures
        alert_for(event) is Some,
        ({
            let alert = alert_for(event)->0;
            &&& alert.ts_ms == event.timestamp
            &&& alert.pid == event.pid
            &&& alert.comm == event.comm
            &&& poison.field("severity"@) matches Some(Json::Text(s)) ==> alert.severity == s
            &&& !(poison.field("severity"@) matches Some(Json::Text(_))) ==> alert.severity
                == "HIGH"@
            &&& poison.field("file"@) matches Some(Json::Text(s)) ==> alert.file == s
            &&& !(poison.field("file"@) matches Some(Json::Text(_))) ==> alert.file.len() == 0
        }),
{
    reveal_strlit("");
}

/// The signatures of an alert are the texts that the tag lists, with a comma
/// between neighbours; a tag without a list gives none.
pub proof fn law_alert_lists_the_signatures(
    event: EventView,
    poison: Json,
    texts: Seq<Seq<char>>,
)
    requires
        event.data.field("poison"@) == Some(poison),
    ensures
        alert_for(event) is Some,
        poison.field("matched"@) matches Some(Json::List(items)) ==> (json::texts_in(items) == texts
            ==> alert_for(event)->0.signatures == text::joined(texts, seq![','])),
        !(poison.field("matched"@) matches Some(Json::List(_))) ==> alert_for(
            event,
        )->0.signatures.len() == 0,
{
    reveal_strlit(",");
    assert(","@ =~= seq![',']);
}

} // verus!
