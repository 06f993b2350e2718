//! Configuration model: the sections of the BBS configuration, their default
//! values, and the rules that a dashboard configuration must obey.
//!
//! Reading and writing the TOML file is left to the caller; this module holds
//! the values themselves.
use vstd::prelude::*;
use crate::text::{to_owned_string, push_str, str_eq, write_decimal, decimal_spec};

verus! {

/// Core BBS settings.
#[derive(Debug, Clone)]
pub struct BbsConfig {
    pub name: String,
    pub sysop: String,
    pub location: String,
    pub description: String,
    pub max_users: u32,
    /// Minutes of inactivity before a session ends.
    pub session_timeout: u32,
    pub welcome_message: String,
    pub sysop_password_hash: Option<String>,
    /// Public command prefix, one of a fixed set of symbols ("^" when unset).
    pub public_command_prefix: Option<String>,
    /// Whether LOGIN is accepted on the public channel.
    pub allow_public_login: bool,
    /// Public help keyword: "HELP", "MENU" or "INFO".
    pub help_command: String,
}

/// The value `allow_public_login` takes when the file leaves it out.
pub fn default_allow_public_login() -> (r: bool)
    ensures
        r,
{
    true
}

/// The value `help_command` takes when the file leaves it out.
pub fn default_help_command() -> (r: String)
    ensures
        r@ == "HELP"@,
{
    to_owned_string("HELP")
}

/// Device communication settings.
#[derive(Debug, Clone)]
pub struct MeshtasticConfig {
    pub port: String,
    pub baud_rate: u32,
    pub node_id: String,
    pub channel: u8,
    /// Exit at startup when the device cannot be opened.
    pub require_device_at_startup: bool,
    /// Minimum gap between consecutive text sends (ms), at least 2000.
    pub min_send_gap_ms: Option<u64>,
    /// Retransmit schedule in seconds, such as `[4, 8, 16]`.
    pub dm_resend_backoff_seconds: Option<Vec<u64>>,
    /// Extra delay for a broadcast right after a reliable DM (ms).
    pub post_dm_broadcast_gap_ms: Option<u64>,
    /// Minimum gap between two reliable DMs (ms).
    pub dm_to_dm_gap_ms: Option<u64>,
    /// Delay of the public HELP broadcast after its DM is queued (ms).
    pub help_broadcast_delay_ms: Option<u64>,
    pub scheduler_max_queue: Option<usize>,
    pub scheduler_aging_threshold_ms: Option<u64>,
    pub scheduler_stats_interval_ms: Option<u64>,
}

/// Data persistence settings.
#[derive(Debug, Clone)]
pub struct StorageConfig {
    pub data_dir: String,
    pub max_message_size: usize,
    /// Mark the parts of a multi-part message with `[n/total]`.
    pub show_chunk_markers: bool,
}

/// One message topic: its display name and the levels needed to read and post.
#[derive(Debug, Clone)]
pub struct MessageTopicConfig {
    pub name: String,
    pub description: String,
    pub read_level: u8,
    pub post_level: u8,
}

/// Logging settings.
#[derive(Debug, Clone)]
pub struct LoggingConfig {
    pub level: String,
    pub file: Option<String>,
    pub security_file: Option<String>,
}

/// Toggles of the built-in games.
#[derive(Debug, Clone)]
pub struct GamesConfig {
    pub tinyhack_enabled: bool,
    pub tinymush_enabled: bool,
    /// Database path of TinyMUSH; `<data_dir>/tinymush` when unset.
    pub tinymush_db_path: Option<String>,
}

impl Default for GamesConfig {
    fn default() -> (r: Self)
        ensures
            !r.tinyhack_enabled,
            !r.tinymush_enabled,
            r.tinymush_db_path is None,
    {
        GamesConfig { tinyhack_enabled: false, tinymush_enabled: false, tinymush_db_path: None }
    }
}

/// Password hashing parameters; each unset one keeps the hasher's default.
#[derive(Debug, Clone, Copy)]
pub struct Argon2Config {
    pub memory_kib: Option<u32>,
    pub time_cost: Option<u32>,
    pub parallelism: Option<u32>,
}

impl Default for Argon2Config {
    fn default() -> (r: Self)
        ensures
            r.memory_kib is None,
            r.time_cost is None,
            r.parallelism is None,
    {
        Argon2Config { memory_kib: None, time_cost: None, parallelism: None }
    }
}

/// Security settings.
#[derive(Debug, Clone, Copy)]
pub struct SecurityConfig {
    pub argon2: Option<Argon2Config>,
}

impl Default for SecurityConfig {
    fn default() -> (r: Self)
        ensures
            r.argon2 is None,
    {
        SecurityConfig { argon2: None }
    }
}

/// The periodic station identification beacon.
#[derive(Debug, Clone)]
pub struct IdentBeaconConfig {
    pub enabled: bool,
    /// One of "5min", "15min", "30min", "1hour", "2hours", "4hours".
    pub frequency: String,
}

/// The beacon settings a new configuration starts with.
pub open spec fn is_default_ident_beacon(c: IdentBeaconConfig) -> bool {
    c.enabled && c.frequency@ == "15min"@
}

impl Default for IdentBeaconConfig {
    fn default() -> (r: Self)
        ensures
            is_default_ident_beacon(r),
    {
        IdentBeaconConfig { enabled: true, frequency: to_owned_string("15min") }
    }
}

/// Minutes between beacons for a frequency name; 15 for any other name.
pub open spec fn frequency_minutes_spec(f: Seq<char>) -> u32 {
    if f == "5min"@ {
        5
    } else if f == "15min"@ {
        15
    } else if f == "30min"@ {
        30
    } else if f == "1hour"@ {
        60
    } else if f == "2hours"@ {
        120
    } else if f == "4hours"@ {
        240
    } else {
        15
    }
}

impl IdentBeaconConfig {
    /// Minutes between beacons: 5, 15, 30, 60, 120 or 240; an unknown
    /// frequency counts as 15.
    pub fn frequency_minutes(&self) -> (m: u32)
        ensures
            m == frequency_minutes_spec(self.frequency@),
    {
        let f = self.frequency.as_str();
        if str_eq(f, "5min") {
            5
        } else if str_eq(f, "15min") {
            15
        } else if str_eq(f, "30min") {
            30
        } else if str_eq(f, "1hour") {
            60
        } else if str_eq(f, "2hours") {
            120
        } else if str_eq(f, "4hours") {
            240
        } else {
            15
        }
    }
}

/// Weather lookups.
#[derive(Debug, Clone)]
pub struct WeatherConfig {
    pub api_key: String,
    /// City name, zip code or city id.
    pub default_location: String,
    /// "city", "zipcode" or "city_id".
    pub location_type: String,
    pub country_code: Option<String>,
    pub cache_ttl_minutes: u32,
    pub timeout_seconds: u32,
    pub enabled: bool,
}

/// The weather settings a new configuration starts with.
pub open spec fn is_default_weather(c: WeatherConfig) -> bool {
    &&& c.api_key@ == Seq::<char>::empty()
    &&& c.default_location@ == "Los Angeles"@
    &&& c.location_type@ == "city"@
    &&& c.country_code matches Some(cc) && cc@ == "US"@
    &&& c.cache_ttl_minutes == 10
    &&& c.timeout_seconds == 5
    &&& !c.enabled
}

impl Default for WeatherConfig {
    fn default() -> (r: Self)
        ensures
            is_default_weather(r),
    {
        WeatherConfig {
            api_key: String::new(),
            default_location: to_owned_string("Los Angeles"),
            location_type: to_owned_string("city"),
            country_code: Some(to_owned_string("US")),
            cache_ttl_minutes: 10,
            timeout_seconds: 5,
            enabled: false,
        }
    }
}

/// A role of the dashboard: a range of BBS levels and how it is shown.
#[derive(Debug, Clone)]
pub struct RoleDefinition {
    pub name: String,
    /// Lowest BBS level of the role (inclusive).
    pub min_level: u8,
    /// Highest BBS level of the role (inclusive).
    pub max_level: u8,
    /// CSS color name or hex code.
    pub color: Option<String>,
    pub icon: Option<String>,
    pub description: Option<String>,
}

/// Settings of the admin web dashboard.
#[derive(Debug, Clone)]
pub struct AdminDashboardConfig {
    pub enabled: bool,
    /// Addresses with ports to listen on, such as "0.0.0.0:9885".
    pub bind_addresses: Vec<String>,
    /// Session token lifetime in seconds.
    pub session_timeout: u64,
    pub require_admin_level: u8,
    /// "self_signed", "letsencrypt", "custom" or "disabled".
    pub tls_mode: String,
    pub tls_cert: Option<String>,
    pub tls_key: Option<String>,
    pub letsencrypt_domain: Option<String>,
    pub letsencrypt_email: Option<String>,
    pub rate_limit_enabled: bool,
    pub login_attempts_per_ip: u32,
    /// Seconds.
    pub login_attempt_window: u64,
    pub api_requests_per_session: u32,
    /// Seconds.
    pub api_request_window: u64,
    pub max_sessions_per_admin: u32,
    pub session_token_rotation: bool,
    pub enforce_token_expiry: bool,
    pub audit_log_enabled: bool,
    pub audit_log_file: String,
    pub audit_log_directory: Option<String>,
    /// "debug", "info", "warn" or "error".
    pub audit_log_level: String,
    /// "daily", "weekly" or "size".
    pub audit_log_rotation: String,
    pub audit_log_max_size_mb: u64,
    pub features_content_manager: bool,
    pub features_player_management: bool,
    pub features_system_monitor: bool,
    pub features_config_editor: bool,
    pub features_json_editor: bool,
    pub features_analytics: bool,
    /// Roles by BBS level; their ranges must not overlap.
    pub roles: Vec<RoleDefinition>,
}

/// Whether `r` is the role with the given name, range and presentation.
pub open spec fn role_is(r: RoleDefinition, name: Seq<char>, min: u8, max: u8, color: Seq<char>, icon: Seq<char>, description: Seq<char>) -> bool {
    &&& r.name@ == name
    &&& r.min_level == min
    &&& r.max_level == max
    &&& r.color matches Some(c) && c@ == color
    &&& r.icon matches Some(i) && i@ == icon
    &&& r.description matches Some(d) && d@ == description
}

/// The dashboard settings a new configuration starts with.
pub open spec fn is_default_dashboard(c: AdminDashboardConfig) -> bool {
    &&& !c.enabled
    &&& c.bind_addresses@.len() == 2
    &&& c.bind_addresses@[0]@ == "0.0.0.0:9885"@
    &&& c.bind_addresses@[1]@ == "[::]:9885"@
    &&& c.session_timeout == 86400
    &&& c.require_admin_level == 10
    &&& c.tls_mode@ == "self_signed"@
    &&& c.tls_cert is None && c.tls_key is None
    &&& c.letsencrypt_domain is None && c.letsencrypt_email is None
    &&& c.rate_limit_enabled
    &&& c.login_attempts_per_ip == 5
    &&& c.login_attempt_window == 900
    &&& c.api_requests_per_session == 1000
    &&& c.api_request_window == 60
    &&& c.max_sessions_per_admin == 3
    &&& c.session_token_rotation && c.enforce_token_expiry
    &&& c.audit_log_enabled
    &&& c.audit_log_file@ == "admin_dashboard.log"@
    &&& c.audit_log_directory is None
    &&& c.audit_log_level@ == "info"@
    &&& c.audit_log_rotation@ == "daily"@
    &&& c.audit_log_max_size_mb == 100
    &&& c.features_content_manager && c.features_player_management && c.features_system_monitor
    &&& c.features_config_editor && c.features_json_editor && c.features_analytics
    &&& c.roles@.len() == 4
    &&& role_is(c.roles@[0], "Sysop"@, 10, 10, "#dc2626"@, "\u{1F451}"@, "System operator with full access"@)
    &&& role_is(c.roles@[1], "Admin"@, 6, 9, "#f97316"@, "\u{26A1}"@, "Administrator with elevated privileges"@)
    &&& role_is(c.roles@[2], "Moderator"@, 3, 5, "#3b82f6"@, "\u{1F6E1}\u{FE0F}"@, "Moderator with content management access"@)
    &&& role_is(c.roles@[3], "User"@, 1, 2, "#6b7280"@, "\u{1F464}"@, "Regular user"@)
}

fn make_role(name: &str, min_level: u8, max_level: u8, color: &str, icon: &str, description: &str) -> (r: RoleDefinition)
    ensures
        role_is(r, name@, min_level, max_level, color@, icon@, description@),
{
    RoleDefinition {
        name: to_owned_string(name),
        min_level,
        max_level,
        color: Some(to_owned_string(color)),
        icon: Some(to_owned_string(icon)),
        description: Some(to_owned_string(description)),
    }
}

impl Default for AdminDashboardConfig {
    fn default() -> (r: Self)
        ensures
            is_default_dashboard(r),
    {
        let mut bind_addresses: Vec<String> = Vec::new();
        bind_addresses.push(to_owned_string("0.0.0.0:9885"));
        bind_addresses.push(to_owned_string("[::]:9885"));
        let mut roles: Vec<RoleDefinition> = Vec::new();
        roles.push(make_role("Sysop", 10, 10, "#dc2626", "\u{1F451}", "System operator with full access"));
        roles.push(make_role("Admin", 6, 9, "#f97316", "\u{26A1}", "Administrator with elevated privileges"));
        roles.push(make_role("Moderator", 3, 5, "#3b82f6", "\u{1F6E1}\u{FE0F}", "Moderator with content management access"));
        roles.push(make_role("User", 1, 2, "#6b7280", "\u{1F464}", "Regular user"));
        AdminDashboardConfig {
            enabled: false,
            bind_addresses,
            session_timeout: 86400,
            require_admin_level: 10,
            tls_mode: to_owned_string("self_signed"),
            tls_cert: None,
            tls_key: None,
            letsencrypt_domain: None,
            letsencrypt_email: None,
            rate_limit_enabled: true,
            login_attempts_per_ip: 5,
            login_attempt_window: 900,
            api_requests_per_session: 1000,
            api_request_window: 60,
            max_sessions_per_admin: 3,
            session_token_rotation: true,
            enforce_token_expiry: true,
            audit_log_enabled: true,
            audit_log_file: to_owned_string("admin_dashboard.log"),
            audit_log_directory: None,
            audit_log_level: to_owned_string("info"),
            audit_log_rotation: to_owned_string("daily"),
            audit_log_max_size_mb: 100,
            features_content_manager: true,
            features_player_management: true,
            features_system_monitor: true,
            features_config_editor: true,
            features_json_editor: true,
            features_analytics: true,
            roles,
        }
    }
}

/// Whether two level ranges share a level.
pub open spec fn roles_overlap(a: RoleDefinition, b: RoleDefinition) -> bool {
    a.min_level <= b.max_level && b.min_level <= a.max_level
}

/// The error for a role whose range is empty.
pub open spec fn inverted_role_message(r: RoleDefinition) -> Seq<char> {
    "Role '"@ + r.name@ + "' has min_level > max_level"@
}

/// The error for two roles whose ranges overlap.
pub open spec fn overlap_message(a: RoleDefinition, b: RoleDefinition) -> Seq<char> {
    "Role '"@ + a.name@ + "' (levels "@ + decimal_spec(a.min_level as nat) + "-"@ + decimal_spec(a.max_level as nat)
        + ") overlaps with role '"@ + b.name@ + "' (levels "@ + decimal_spec(b.min_level as nat) + "-"@
        + decimal_spec(b.max_level as nat) + ")"@
}

/// The first role at or after index `j` whose range overlaps that of role `i`.
pub open spec fn first_overlap_from(roles: Seq<RoleDefinition>, i: int, j: int) -> Option<int>
    decreases roles.len() - j,
{
    if j < 0 || j >= roles.len() {
        None
    } else if roles_overlap(roles[i], roles[j]) {
        Some(j)
    } else {
        first_overlap_from(roles, i, j + 1)
    }
}

/// The first fault among the roles from index `i` on, taken in order: an
/// inverted range, or an overlap with a later role.
pub open spec fn role_error_from(roles: Seq<RoleDefinition>, i: int) -> Option<Seq<char>>
    decreases roles.len() - i,
{
    if i < 0 || i >= roles.len() {
        None
    } else if roles[i].min_level > roles[i].max_level {
        Some(inverted_role_message(roles[i]))
    } else {
        match first_overlap_from(roles, i, i + 1) {
            Some(j) => Some(overlap_message(roles[i], roles[j])),
            None => role_error_from(roles, i + 1),
        }
    }
}

/// The first rule that a dashboard configuration breaks, with its message, or
/// `None` when it obeys them all.
pub open spec fn dashboard_error(c: AdminDashboardConfig) -> Option<Seq<char>> {
    let tls = c.tls_mode@;
    if !(tls == "self_signed"@ || tls == "letsencrypt"@ || tls == "custom"@ || tls == "disabled"@) {
        Some("Invalid tls_mode: must be 'self_signed', 'letsencrypt', 'custom', or 'disabled'"@)
    } else if tls == "custom"@ && (c.tls_cert is None || c.tls_key is None) {
        Some("Custom TLS mode requires tls_cert and tls_key paths"@)
    } else if tls == "letsencrypt"@ && (c.letsencrypt_domain is None || c.letsencrypt_email is None) {
        Some("Let's Encrypt mode requires letsencrypt_domain and letsencrypt_email"@)
    } else if c.bind_addresses@.len() == 0 {
        Some("At least one bind address required"@)
    } else if !(c.audit_log_level@ == "debug"@ || c.audit_log_level@ == "info"@ || c.audit_log_level@ == "warn"@
        || c.audit_log_level@ == "error"@) {
        Some("Invalid audit_log_level: must be 'debug', 'info', 'warn', or 'error'"@)
    } else if !(c.audit_log_rotation@ == "daily"@ || c.audit_log_rotation@ == "weekly"@ || c.audit_log_rotation@
        == "size"@) {
        Some("Invalid audit_log_rotation: must be 'daily', 'weekly', or 'size'"@)
    } else if c.session_timeout == 0 {
        Some("session_timeout must be greater than 0"@)
    } else if c.rate_limit_enabled && c.login_attempts_per_ip == 0 {
        Some("login_attempts_per_ip must be greater than 0"@)
    } else if c.rate_limit_enabled && c.login_attempt_window == 0 {
        Some("login_attempt_window must be greater than 0"@)
    } else if c.rate_limit_enabled && c.api_requests_per_session == 0 {
        Some("api_requests_per_session must be greater than 0"@)
    } else if c.rate_limit_enabled && c.api_request_window == 0 {
        Some("api_request_window must be greater than 0"@)
    } else if c.roles@.len() == 0 {
        Some("At least one role definition required"@)
    } else {
        role_error_from(c.roles@, 0)
    }
}

/// The first role whose range holds `level`, searching from index `k`.
pub open spec fn role_index_from(roles: Seq<RoleDefinition>, level: u8, k: int) -> Option<int>
    decreases roles.len() - k,
{
    if k < 0 || k >= roles.len() {
        None
    } else if roles[k].min_level <= level <= roles[k].max_level {
        Some(k)
    } else {
        role_index_from(roles, level, k + 1)
    }
}

fn error_text(msg: &str) -> (r: Result<(), String>)
    ensures
        r matches Err(e) && e@ == msg@,
{
    Err(to_owned_string(msg))
}

fn write_role_range(s: &mut String, r: &RoleDefinition)
    ensures
        final(s)@ == old(s)@ + "' (levels "@ + decimal_spec(r.min_level as nat) + "-"@ + decimal_spec(r.max_level as nat),
{
    push_str(s, "' (levels ");
    write_decimal(s, r.min_level as u64);
    push_str(s, "-");
    write_decimal(s, r.max_level as u64);
}

fn overlap_text(a: &RoleDefinition, b: &RoleDefinition) -> (r: String)
    ensures
        r@ == overlap_message(*a, *b),
{
    let mut s = to_owned_string("Role '");
    push_str(&mut s, a.name.as_str());
    write_role_range(&mut s, a);
    push_str(&mut s, ") overlaps with role '");
    push_str(&mut s, b.name.as_str());
    write_role_range(&mut s, b);
    push_str(&mut s, ")");
    proof {
        assert(s@ =~= overlap_message(*a, *b));
    }
    s
}

impl AdminDashboardConfig {
    /// Checks the settings: a known TLS mode with the paths or the domain and
    /// email it needs, a bind address, a known audit level and rotation, a
    /// session timeout, positive rate limits when limiting is on, and at least
    /// one role, no role with an inverted range and no two overlapping. The
    /// error names the first rule broken.
    pub fn validate(&self) -> (r: Result<(), String>)
        ensures
            r is Ok <==> dashboard_error(*self) is None,
            r matches Err(e) ==> dashboard_error(*self) == Some(e@),
    {
        let tls = self.tls_mode.as_str();
        if !(str_eq(tls, "self_signed") || str_eq(tls, "letsencrypt") || str_eq(tls, "custom") || str_eq(tls, "disabled")) {
            return error_text("Invalid tls_mode: must be 'self_signed', 'letsencrypt', 'custom', or 'disabled'");
        }
        if str_eq(tls, "custom") && (self.tls_cert.is_none() || self.tls_key.is_none()) {
            return error_text("Custom TLS mode requires tls_cert and tls_key paths");
        }
        if str_eq(tls, "letsencrypt") && (self.letsencrypt_domain.is_none() || self.letsencrypt_email.is_none()) {
            return error_text("Let's Encrypt mode requires letsencrypt_domain and letsencrypt_email");
        }
        if self.bind_addresses.len() == 0 {
            return error_text("At least one bind address required");
        }
        let lvl = self.audit_log_level.as_str();
        if !(str_eq(lvl, "debug") || str_eq(lvl, "info") || str_eq(lvl, "warn") || str_eq(lvl, "error")) {
            return error_text("Invalid audit_log_level: must be 'debug', 'info', 'warn', or 'error'");
        }
        let rot = self.audit_log_rotation.as_str();
        if !(str_eq(rot, "daily") || str_eq(rot, "weekly") || str_eq(rot, "size")) {
            return error_text("Invalid audit_log_rotation: must be 'daily', 'weekly', or 'size'");
        }
        if self.session_timeout == 0 {
            return error_text("session_timeout must be greater than 0");
        }
        if self.rate_limit_enabled {
            if self.login_attempts_per_ip == 0 {
                return error_text("login_attempts_per_ip must be greater than 0");
            }
            if self.login_attempt_window == 0 {
                return error_text("login_attempt_window must be greater than 0");
            }
            if self.api_requests_per_session == 0 {
                return error_text("api_requests_per_session must be greater than 0");
            }
            if self.api_request_window == 0 {
                return error_text("api_request_window must be greater than 0");
            }
        }
        let n = self.roles.len();
        if n == 0 {
            return error_text("At least one role definition required");
        }
        let mut i: usize = 0;
        while i < n
            invariant
                i <= n,
                n == self.roles@.len(),
                dashboard_error(*self) == role_error_from(self.roles@, i as int),
            decreases n - i,
        {
            let r1 = &self.roles[i];
            if r1.min_level > r1.max_level {
                let mut s = to_owned_string("Role '");
                push_str(&mut s, r1.name.as_str());
                push_str(&mut s, "' has min_level > max_level");
                proof {
                    assert(s@ =~= inverted_role_message(self.roles@[i as int]));
                }
                return Err(s);
            }
            let mut j: usize = i + 1;
            while j < n
                invariant
                    i < j <= n,
                    n == self.roles@.len(),
                    *r1 == self.roles@[i as int],
                    self.roles@[i as int].min_level <= self.roles@[i as int].max_level,
                    dashboard_error(*self) == role_error_from(self.roles@, i as int),
                    first_overlap_from(self.roles@, i as int, i + 1) == first_overlap_from(self.roles@, i as int, j as int),
                decreases n - j,
            {
                let r2 = &self.roles[j];
                if r1.min_level <= r2.max_level && r2.min_level <= r1.max_level {
                    proof {
                        assert(first_overlap_from(self.roles@, i as int, j as int) == Some(j as int));
                    }
                    return Err(overlap_text(r1, r2));
                }
                j = j + 1;
            }
            i = i + 1;
        }
        Ok(())
    }

    /// The name of the role whose range holds `level`, the first such in
    /// order, or "Unknown".
    pub fn level_to_role(&self, level: u8) -> (name: String)
        ensures
            match role_index_from(self.roles@, level, 0) {
                Some(k) => name@ == self.roles@[k].name@,
                None => name@ == "Unknown"@,
            },
    {
        match self.get_role_definition(level) {
            Some(r) => r.name.clone(),
            None => to_owned_string("Unknown"),
        }
    }

    /// The first role whose range holds `level`.
    pub fn get_role_definition(&self, level: u8) -> (r: Option<&RoleDefinition>)
        ensures
            match role_index_from(self.roles@, level, 0) {
                Some(k) => r == Some(&self.roles@[k]),
                None => r is None,
            },
    {
        let n = self.roles.len();
        let mut k: usize = 0;
        while k < n
            invariant
                k <= n,
                n == self.roles@.len(),
                role_index_from(self.roles@, level, 0) == role_index_from(self.roles@, level, k as int),
            decreases n - k,
        {
            let r = &self.roles[k];
            if level >= r.min_level && level <= r.max_level {
                return Some(r);
            }
            k = k + 1;
        }
        None
    }
}

/// The greeting of newcomers.
#[derive(Debug, Clone, Copy)]
pub struct WelcomeConfig {
    pub enabled: bool,
    /// Greet a new node on the public channel.
    pub public_greeting: bool,
    /// Send a new node a private guide.
    pub private_guide: bool,
    /// Minutes between two greetings.
    pub cooldown_minutes: u32,
    pub max_welcomes_per_node: u32,
}

impl Default for WelcomeConfig {
    fn default() -> (r: Self)
        ensures
            !r.enabled,
            r.public_greeting,
            r.private_guide,
            r.cooldown_minutes == 5,
            r.max_welcomes_per_node == 1,
    {
        WelcomeConfig { enabled: false, public_greeting: true, private_guide: true, cooldown_minutes: 5, max_welcomes_per_node: 1 }
    }
}

/// An app that is only switched on or off.
#[derive(Debug, Clone, Copy)]
pub struct AppToggle {
    pub enabled: bool,
}

/// The apps of the dashboard, each with the settings that drive it.
#[derive(Debug, Clone)]
pub struct AppsConfig {
    pub fortune: AppToggle,
    pub eightball: AppToggle,
    pub slotmachine: AppToggle,
    pub tinyhack: AppToggle,
    pub tinymush: AppToggle,
    pub weather: WeatherConfig,
    pub ident_beacon: IdentBeaconConfig,
    pub welcome: WelcomeConfig,
}

/// The app settings a new configuration starts with: the public games and
/// TinyHack on, TinyMUSH, weather and greetings off, the beacon every 15 minutes.
pub open spec fn is_default_apps(a: AppsConfig) -> bool {
    &&& a.fortune.enabled && a.eightball.enabled && a.slotmachine.enabled && a.tinyhack.enabled
    &&& !a.tinymush.enabled
    &&& is_default_weather(a.weather)
    &&& is_default_ident_beacon(a.ident_beacon)
    &&& !a.welcome.enabled
}

impl Default for AppsConfig {
    fn default() -> (r: Self)
        ensures
            is_default_apps(r),
    {
        AppsConfig {
            fortune: AppToggle { enabled: true },
            eightball: AppToggle { enabled: true },
            slotmachine: AppToggle { enabled: true },
            tinyhack: AppToggle { enabled: true },
            tinymush: AppToggle { enabled: false },
            weather: WeatherConfig::default(),
            ident_beacon: IdentBeaconConfig::default(),
            welcome: WelcomeConfig::default(),
        }
    }
}

/// The whole configuration.
#[derive(Debug, Clone)]
pub struct Config {
    pub bbs: BbsConfig,
    pub meshtastic: MeshtasticConfig,
    pub storage: StorageConfig,
    /// Message topics by key; no key occurs twice.
    pub message_topics: Vec<(String, MessageTopicConfig)>,
    pub logging: LoggingConfig,
    pub security: Option<SecurityConfig>,
    pub ident_beacon: IdentBeaconConfig,
    pub weather: WeatherConfig,
    pub games: GamesConfig,
    pub welcome: WelcomeConfig,
    pub admin_dashboard: AdminDashboardConfig,
    pub apps: AppsConfig,
}

/// Whether `t` is the topic with the given key, name and description, open to all.
pub open spec fn topic_is(t: (String, MessageTopicConfig), key: Seq<char>, name: Seq<char>, description: Seq<char>) -> bool {
    &&& t.0@ == key
    &&& t.1.name@ == name
    &&& t.1.description@ == description
    &&& t.1.read_level == 0
    &&& t.1.post_level == 0
}

/// The core settings a new configuration starts with.
pub open spec fn is_default_bbs(b: BbsConfig) -> bool {
    &&& b.name@ == "meshbbs Station"@
    &&& b.sysop@ == "sysop"@
    &&& b.location@ == "Your Location"@
    &&& b.description@ == "A bulletin board system for mesh networks"@
    &&& b.max_users == 100
    &&& b.session_timeout == 10
    &&& b.welcome_message@ == Seq::<char>::empty()
    &&& b.sysop_password_hash is None
    &&& b.public_command_prefix matches Some(p) && p@ == "^"@
    &&& b.allow_public_login
    &&& b.help_command@ == "HELP"@
}

/// The device settings a new configuration starts with.
pub open spec fn is_default_meshtastic(m: MeshtasticConfig) -> bool {
    &&& m.port@ == "/dev/ttyUSB0"@
    &&& m.baud_rate == 115200
    &&& m.node_id@ == Seq::<char>::empty()
    &&& m.channel == 0
    &&& !m.require_device_at_startup
    &&& m.min_send_gap_ms == Some(2000u64)
    &&& m.dm_resend_backoff_seconds matches Some(b) && b@ == seq![4u64, 8u64, 16u64]
    &&& m.post_dm_broadcast_gap_ms == Some(1200u64)
    &&& m.dm_to_dm_gap_ms == Some(600u64)
    &&& m.help_broadcast_delay_ms == Some(3500u64)
    &&& m.scheduler_max_queue == Some(512usize)
    &&& m.scheduler_aging_threshold_ms == Some(5000u64)
    &&& m.scheduler_stats_interval_ms == Some(10000u64)
}

/// The configuration a new installation starts with.
pub open spec fn is_default_config(c: Config) -> bool {
    &&& is_default_bbs(c.bbs)
    &&& is_default_meshtastic(c.meshtastic)
    &&& c.storage.data_dir@ == "./data"@
    &&& c.storage.max_message_size == 200
    &&& !c.storage.show_chunk_markers
    &&& c.message_topics@.len() == 3
    &&& topic_is(c.message_topics@[0], "general"@, "General"@, "General discussions"@)
    &&& topic_is(c.message_topics@[1], "community"@, "Community"@, "Events, meet-ups, and community discussions"@)
    &&& topic_is(c.message_topics@[2], "technical"@, "Technical"@, "Tech, hardware, and administrative discussions"@)
    &&& c.logging.level@ == "info"@
    &&& c.logging.file matches Some(f) && f@ == "meshbbs.log"@
    &&& c.logging.security_file matches Some(f) && f@ == "meshbbs-security.log"@
    &&& c.security matches Some(sec) && sec.argon2 is None
    &&& is_default_ident_beacon(c.ident_beacon)
    &&& is_default_weather(c.weather)
    &&& !c.games.tinyhack_enabled && !c.games.tinymush_enabled && c.games.tinymush_db_path is None
    &&& !c.welcome.enabled && c.welcome.public_greeting && c.welcome.private_guide
    &&& c.welcome.cooldown_minutes == 5 && c.welcome.max_welcomes_per_node == 1
    &&& is_default_dashboard(c.admin_dashboard)
    &&& is_default_apps(c.apps)
}

fn make_topic(key: &str, name: &str, description: &str) -> (t: (String, MessageTopicConfig))
    ensures
        topic_is(t, key@, name@, description@),
{
    (to_owned_string(key), MessageTopicConfig {
        name: to_owned_string(name),
        description: to_owned_string(description),
        read_level: 0,
        post_level: 0,
    })
}

impl Default for Config {
    fn default() -> (r: Self)
        ensures
            is_default_config(r),
    {
        let mut message_topics: Vec<(String, MessageTopicConfig)> = Vec::new();
        message_topics.push(make_topic("general", "General", "General discussions"));
        message_topics.push(make_topic("community", "Community", "Events, meet-ups, and community discussions"));
        message_topics.push(make_topic("technical", "Technical", "Tech, hardware, and administrative discussions"));
        let mut backoff: Vec<u64> = Vec::new();
        backoff.push(4);
        backoff.push(8);
        backoff.push(16);
        proof {
            assert(backoff@ =~= seq![4u64, 8u64, 16u64]);
        }
        Config {
            bbs: BbsConfig {
                name: to_owned_string("meshbbs Station"),
                sysop: to_owned_string("sysop"),
                location: to_owned_string("Your Location"),
                description: to_owned_string("A bulletin board system for mesh networks"),
                max_users: 100,
                session_timeout: 10,
                welcome_message: String::new(),
                sysop_password_hash: None,
                public_command_prefix: Some(to_owned_string("^")),
                allow_public_login: default_allow_public_login(),
                help_command: default_help_command(),
            },
            meshtastic: MeshtasticConfig {
                port: to_owned_string("/dev/ttyUSB0"),
                baud_rate: 115200,
                node_id: String::new(),
                channel: 0,
                require_device_at_startup: false,
                min_send_gap_ms: Some(2000),
                dm_resend_backoff_seconds: Some(backoff),
                post_dm_broadcast_gap_ms: Some(1200),
                dm_to_dm_gap_ms: Some(600),
                help_broadcast_delay_ms: Some(3500),
                scheduler_max_queue: Some(512),
                scheduler_aging_threshold_ms: Some(5000),
                scheduler_stats_interval_ms: Some(10000),
            },
            storage: StorageConfig { data_dir: to_owned_string("./data"), max_message_size: 200, show_chunk_markers: false },
            message_topics,
            logging: LoggingConfig {
                level: to_owned_string("info"),
                file: Some(to_owned_string("meshbbs.log")),
                security_file: Some(to_owned_string("meshbbs-security.log")),
            },
            security: Some(SecurityConfig::default()),
            ident_beacon: IdentBeaconConfig::default(),
            weather: WeatherConfig::default(),
            games: GamesConfig::default(),
            welcome: WelcomeConfig::default(),
            admin_dashboard: AdminDashboardConfig::default(),
            apps: AppsConfig::default(),
        }
    }
}

/// The default dashboard settings pass validation: their TLS mode, audit
/// settings, limits and four role ranges (10, 6-9, 3-5, 1-2) obey every rule.
pub proof fn lemma_default_dashboard_valid(c: AdminDashboardConfig)
    requires
        is_default_dashboard(c),
    ensures
        dashboard_error(c) is None,
{
    reveal_strlit("self_signed");
    reveal_strlit("custom");
    reveal_strlit("letsencrypt");
    assert("self_signed"@ != "custom"@ && "self_signed"@ != "letsencrypt"@) by {
        assert("self_signed"@[0] != "custom"@[0]);
        assert("self_signed"@[0] != "letsencrypt"@[0]);
    }
    let r = c.roles@;
    assert(first_overlap_from(r, 3, 4) is None);
    assert(role_error_from(r, 4) is None);
    assert(role_error_from(r, 3) is None);
    assert(first_overlap_from(r, 2, 4) is None);
    assert(first_overlap_from(r, 2, 3) is None);
    assert(role_error_from(r, 2) is None);
    assert(first_overlap_from(r, 1, 4) is None);
    assert(first_overlap_from(r, 1, 3) is None);
    assert(first_overlap_from(r, 1, 2) is None);
    assert(role_error_from(r, 1) is None);
    assert(first_overlap_from(r, 0, 4) is None);
    assert(first_overlap_from(r, 0, 3) is None);
    assert(first_overlap_from(r, 0, 2) is None);
    assert(first_overlap_from(r, 0, 1) is None);
    assert(role_error_from(r, 0) is None);
}

} // verus!
