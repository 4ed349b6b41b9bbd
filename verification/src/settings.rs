//! Application settings: plain, non-sensitive configuration.
//!
//! Settings are readable while the wallet is locked; the embedding program
//! mirrors them to a plain JSON file through the encode and decode
//! functions here.

use vstd::prelude::*;
use crate::json::{Json, JsonValue, spec_get};

verus! {

/// OpenTelemetry configuration.
pub struct OtelSettings {
    /// Whether telemetry is enabled.
    pub enabled: bool,
    /// The OTLP endpoint URL.
    pub endpoint: Option<String>,
    /// The service name for traces and metrics.
    pub service_name: Option<String>,
    /// An authorization header value for the collector.
    pub auth_header: Option<String>,
    /// Whether traces are exported.
    pub export_traces: bool,
    /// Whether metrics are exported.
    pub export_metrics: bool,
}

impl OtelSettings {
    /// The service name in effect: the configured one, or the default.
    pub fn effective_service_name(&self) -> (r: &str)
        ensures
            match self.service_name {
                Some(s) => r@ == s@,
                None => r@ == "symbia-mcp-wallet"@,
            },
    {
        match &self.service_name {
            Some(s) => s.as_str(),
            None => "symbia-mcp-wallet",
        }
    }
}

/// Application settings.
pub struct Settings {
    /// Settings format version.
    pub version: u32,
    /// Auto-lock timeout in minutes; zero means never.
    pub auto_lock_timeout_minutes: u32,
    /// Telemetry configuration.
    pub otel: OtelSettings,
}

impl Settings {
    /// The default settings: version 1, a 15-minute auto-lock, telemetry
    /// off but set to export both signals when enabled.
    pub fn new() -> (r: Settings)
        ensures
            r.version == 1,
            r.auto_lock_timeout_minutes == 15,
            !r.otel.enabled,
            r.otel.endpoint is None,
            r.otel.service_name matches Some(s) && s@ == "symbia-mcp-wallet"@,
            r.otel.auth_header is None,
            r.otel.export_traces,
            r.otel.export_metrics,
    {
        Settings {
            version: 1,
            auto_lock_timeout_minutes: 15,
            otel: OtelSettings {
                enabled: false,
                endpoint: None,
                service_name: Some("symbia-mcp-wallet".to_owned()),
                auth_header: None,
                export_traces: true,
                export_metrics: true,
            },
        }
    }
}

impl Default for Settings {
    /// The default settings.
    fn default() -> (r: Settings)
        ensures
            r.version == 1,
            r.auto_lock_timeout_minutes == 15,
            !r.otel.enabled,
    {
        Settings::new()
    }
}

/// The settings holder; the embedding program persists its value.
pub struct SettingsManager {
    settings: Settings,
}

impl SettingsManager {
    /// The current settings.
    pub closed spec fn spec_settings(&self) -> Settings {
        self.settings
    }

    /// A manager holding the default settings.
    pub fn new() -> (r: SettingsManager)
        ensures
            r.spec_settings().version == 1,
            r.spec_settings().auto_lock_timeout_minutes == 15,
            !r.spec_settings().otel.enabled,
    {
        SettingsManager { settings: Settings::new() }
    }

    /// The current settings.
    pub fn get(&self) -> (r: &Settings)
        ensures
            *r == self.spec_settings(),
    {
        &self.settings
    }

    /// The current settings, for mutation.
    pub fn get_mut(&mut self) -> (r: &mut Settings)
        ensures
            *r == old(self).spec_settings(),
            final(self).spec_settings() == *final(r),
    {
        &mut self.settings
    }

    /// Replace the settings.
    pub fn update(&mut self, settings: Settings)
        ensures
            final(self).spec_settings() == settings,
    {
        self.settings = settings;
    }

    /// The telemetry settings.
    pub fn get_otel(&self) -> (r: &OtelSettings)
        ensures
            *r == self.spec_settings().otel,
    {
        &self.settings.otel
    }

    /// Replace the telemetry settings.
    pub fn update_otel(&mut self, otel: OtelSettings)
        ensures
            final(self).spec_settings().otel == otel,
            final(self).spec_settings().version == old(self).spec_settings().version,
            final(self).spec_settings().auto_lock_timeout_minutes == old(
                self,
            ).spec_settings().auto_lock_timeout_minutes,
    {
        self.settings.otel = otel;
    }

    /// The auto-lock timeout, in minutes.
    pub fn get_auto_lock_timeout(&self) -> (r: u32)
        ensures
            r == self.spec_settings().auto_lock_timeout_minutes,
    {
        self.settings.auto_lock_timeout_minutes
    }

    /// Set the auto-lock timeout, in minutes.
    pub fn set_auto_lock_timeout(&mut self, minutes: u32)
        ensures
            final(self).spec_settings().auto_lock_timeout_minutes == minutes,
    {
        self.settings.auto_lock_timeout_minutes = minutes;
    }

    /// Reset to the defaults, as a wallet reset does.
    pub fn reset(&mut self)
        ensures
            final(self).spec_settings().version == 1,
            final(self).spec_settings().auto_lock_timeout_minutes == 15,
            !final(self).spec_settings().otel.enabled,
    {
        self.settings = Settings::new();
    }
}

/// Encode settings as a JSON record with camelCase field names.
pub fn encode_settings(s: &Settings) -> (r: JsonValue) {
    let mut otel_fields: Vec<(String, JsonValue)> = Vec::new();
    otel_fields.push(("enabled".to_owned(), JsonValue::Bool(s.otel.enabled)));
    match &s.otel.endpoint {
        Some(e) => {
            otel_fields.push(("endpoint".to_owned(), JsonValue::Text(e.clone())));
        },
        None => {},
    }
    match &s.otel.service_name {
        Some(sn) => {
            otel_fields.push(("serviceName".to_owned(), JsonValue::Text(sn.clone())));
        },
        None => {},
    }
    match &s.otel.auth_header {
        Some(a) => {
            otel_fields.push(("authHeader".to_owned(), JsonValue::Text(a.clone())));
        },
        None => {},
    }
    otel_fields.push(("exportTraces".to_owned(), JsonValue::Bool(s.otel.export_traces)));
    otel_fields.push(("exportMetrics".to_owned(), JsonValue::Bool(s.otel.export_metrics)));
    let mut fields: Vec<(String, JsonValue)> = Vec::new();
    fields.push(("version".to_owned(), JsonValue::Number(crate::credential::u64_string(s.version as u64))));
    fields.push(
        (
            "autoLockTimeoutMinutes".to_owned(),
            JsonValue::Number(crate::credential::u64_string(s.auto_lock_timeout_minutes as u64)),
        ),
    );
    fields.push(("otel".to_owned(), JsonValue::Object(otel_fields)));
    JsonValue::Object(fields)
}

/// Decode settings from a JSON record; missing fields take their defaults.
pub fn decode_settings(v: &JsonValue) -> (r: Settings) {
    let mut s = Settings::new();
    match v.get("version") {
        Some(JsonValue::Number(tok)) => {
            match crate::credential::parse_u64(tok.as_str()) {
                Some(n) => {
                    if n <= u32::MAX as u64 {
                        s.version = n as u32;
                    }
                },
                None => {},
            }
        },
        _ => {},
    }
    match v.get("autoLockTimeoutMinutes") {
        Some(JsonValue::Number(tok)) => {
            match crate::credential::parse_u64(tok.as_str()) {
                Some(n) => {
                    if n <= u32::MAX as u64 {
                        s.auto_lock_timeout_minutes = n as u32;
                    }
                },
                None => {},
            }
        },
        _ => {},
    }
    match v.get("otel") {
        Some(o) => {
            match o.get("enabled") {
                Some(JsonValue::Bool(b)) => {
                    s.otel.enabled = *b;
                },
                _ => {},
            }
            s.otel.endpoint = text_of(o, "endpoint");
            match text_of(o, "serviceName") {
                Some(sn) => {
                    s.otel.service_name = Some(sn);
                },
                None => {},
            }
            s.otel.auth_header = text_of(o, "authHeader");
            match o.get("exportTraces") {
                Some(JsonValue::Bool(b)) => {
                    s.otel.export_traces = *b;
                },
                _ => {},
            }
            match o.get("exportMetrics") {
                Some(JsonValue::Bool(b)) => {
                    s.otel.export_metrics = *b;
                },
                _ => {},
            }
        },
        None => {},
    }
    s
}

/// Read a field's string content, if the field is a string.
fn text_of(v: &JsonValue, name: &str) -> (r: Option<String>)
    ensures
        r matches Some(s) ==> spec_get(v.deep_view(), name@) == Some(Json::Text(s@)),
{
    match v.get(name) {
        Some(f) => match f.as_text() {
            Some(t) => Some(t.clone()),
            None => None,
        },
        None => None,
    }
}

} // verus!
