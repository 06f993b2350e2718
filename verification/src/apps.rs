//! The app catalogue of the admin dashboard: one descriptor per built-in app,
//! built from the app settings, with runtime figures added, and the switches
//! that turn an app on or off.
use vstd::prelude::*;
use crate::text::{to_owned_string, push_str, str_eq, opt_view, string_views};
use crate::config::{AppsConfig, AppToggle, WeatherConfig, IdentBeaconConfig, WelcomeConfig};
use crate::fortune::{FortuneStore, fortune_count};

verus! {

/// How an app is started.
#[derive(Debug, Clone)]
pub struct AppCommand {
    pub syntax: Option<String>,
    pub display: Option<String>,
    pub channel: Option<String>,
    pub description: Option<String>,
}

/// Usage figures of an app.
#[derive(Debug, Clone)]
pub struct AppMetrics {
    pub sessions_total: Option<u64>,
    pub sessions_7d: Option<u64>,
    pub last_activity: Option<String>,
}

impl Default for AppMetrics {
    fn default() -> (m: Self)
        ensures
            m.sessions_total is None,
            m.sessions_7d is None,
            m.last_activity is None,
    {
        AppMetrics { sessions_total: None, sessions_7d: None, last_activity: None }
    }
}

/// A button of an app card.
#[derive(Debug, Clone)]
pub struct AppAction {
    pub label: String,
    pub kind: Option<String>,
    pub target: Option<String>,
    pub endpoint: Option<String>,
    pub method: Option<String>,
    pub primary: bool,
    pub disabled: bool,
}

/// One app as the dashboard lists it.
#[derive(Debug, Clone)]
pub struct AppDescriptor {
    pub id: String,
    pub name: String,
    pub category: String,
    pub description: String,
    pub summary: Option<String>,
    /// "online" or "offline".
    pub status: String,
    pub status_detail: Option<String>,
    pub enabled: bool,
    pub planned: bool,
    pub tags: Vec<String>,
    pub commands: Vec<AppCommand>,
    pub data_paths: Vec<String>,
    pub metrics: Option<AppMetrics>,
    pub config_keys: Vec<String>,
    pub actions: Vec<AppAction>,
    pub notes: Option<String>,
}

impl Default for AppDescriptor {
    fn default() -> (d: Self)
        ensures
            d.id@.len() == 0 && d.name@.len() == 0 && d.description@.len() == 0,
            d.category@ == "App"@,
            d.status@ == "unknown"@,
            d.summary is None && d.status_detail is None && d.metrics is None && d.notes is None,
            !d.enabled && !d.planned,
            d.tags@.len() == 0 && d.commands@.len() == 0 && d.data_paths@.len() == 0,
            d.config_keys@.len() == 0 && d.actions@.len() == 0,
    {
        AppDescriptor {
            id: String::new(),
            name: String::new(),
            category: to_owned_string("App"),
            description: String::new(),
            summary: None,
            status: to_owned_string("unknown"),
            status_detail: None,
            enabled: false,
            planned: false,
            tags: Vec::new(),
            commands: Vec::new(),
            data_paths: Vec::new(),
            metrics: None,
            config_keys: Vec::new(),
            actions: Vec::new(),
            notes: None,
        }
    }
}

/// Where the catalogue came from.
#[derive(Debug, Clone)]
pub struct AppSource {
    pub kind: String,
    pub path: Option<String>,
    pub description: Option<String>,
}

/// The catalogue as the dashboard receives it.
#[derive(Debug, Clone)]
pub struct AppsResponse {
    pub generated_at: String,
    pub source: AppSource,
    pub apps: Vec<AppDescriptor>,
}

/// A request to switch an app on or off through its setting.
#[derive(Debug, Clone)]
pub struct ConfigToggleRequest {
    pub app_id: String,
    pub target: String,
    pub enabled: bool,
}

/// The app after a switch.
#[derive(Debug, Clone)]
pub struct ConfigToggleResponse {
    pub app: AppDescriptor,
}

/// The setting that switches app `id`: `apps.<id>.enabled`.
pub open spec fn enable_key(id: Seq<char>) -> Seq<char> {
    "apps."@ + id + ".enabled"@
}

/// The status of an app: "online" when enabled, else "offline".
pub open spec fn status_text(enabled: bool) -> Seq<char> {
    if enabled { "online"@ } else { "offline"@ }
}

/// Whether `c` is a command with the given fields.
pub open spec fn command_is(c: AppCommand, syntax: Option<Seq<char>>, channel: Seq<char>, description: Seq<char>, display: Seq<char>) -> bool {
    &&& opt_view(c.syntax) == syntax
    &&& opt_view(c.channel) == Some(channel)
    &&& opt_view(c.description) == Some(description)
    &&& opt_view(c.display) == Some(display)
}

/// Whether `d` describes app `id` with the given fields: its status follows
/// `enabled`, it is switched by `apps.<id>.enabled`, it is not planned, has
/// no metrics, and has one action, a primary config toggle labelled `label`.
pub open spec fn descriptor_is(
    d: AppDescriptor,
    id: Seq<char>,
    name: Seq<char>,
    category: Seq<char>,
    description: Seq<char>,
    summary: Seq<char>,
    enabled: bool,
    tags: Seq<Seq<char>>,
    data_paths: Seq<Seq<char>>,
    config_keys: Seq<Seq<char>>,
    label: Seq<char>,
    notes: Option<Seq<char>>,
) -> bool {
    &&& d.id@ == id
    &&& d.name@ == name
    &&& d.category@ == category
    &&& d.description@ == description
    &&& opt_view(d.summary) == Some(summary)
    &&& d.status@ == status_text(enabled)
    &&& opt_view(d.status_detail) == Some("Toggle via "@ + enable_key(id))
    &&& d.enabled == enabled
    &&& !d.planned
    &&& string_views(d.tags@) == tags
    &&& string_views(d.data_paths@) == data_paths
    &&& d.metrics is None
    &&& string_views(d.config_keys@) == config_keys
    &&& d.actions@.len() == 1
    &&& d.actions@[0].label@ == label
    &&& opt_view(d.actions@[0].kind) == Some("config-toggle"@)
    &&& opt_view(d.actions@[0].target) == Some(enable_key(id))
    &&& d.actions@[0].endpoint is None && d.actions@[0].method is None
    &&& d.actions@[0].primary && !d.actions@[0].disabled
    &&& opt_view(d.notes) == notes
}

fn strings(items: &[&str]) -> (r: Vec<String>)
    ensures
        r@.len() == items@.len(),
        forall|i: int| 0 <= i < items@.len() ==> #[trigger] r@[i]@ == items@[i]@,
{
    let mut out: Vec<String> = Vec::new();
    let n = items.len();
    let mut i: usize = 0;
    while i < n
        invariant
            i <= n,
            n == items@.len(),
            out@.len() == i,
            forall|k: int| 0 <= k < i ==> #[trigger] out@[k]@ == items@[k]@,
        decreases n - i,
    {
        out.push(to_owned_string(items[i]));
        i = i + 1;
    }
    out
}

fn opt_string(s: Option<&str>) -> (r: Option<String>)
    ensures
        opt_view(r) == match s {
            Some(t) => Some(t@),
            None => None,
        },
{
    match s {
        Some(t) => Some(to_owned_string(t)),
        None => None,
    }
}

fn enable_key_of(id: &str) -> (r: String)
    ensures
        r@ == enable_key(id@),
{
    let mut k = to_owned_string("apps.");
    push_str(&mut k, id);
    push_str(&mut k, ".enabled");
    k
}

fn make_command(syntax: Option<&str>, channel: &str, description: &str, display: &str) -> (c: AppCommand)
    ensures
        command_is(c, match syntax {
            Some(t) => Some(t@),
            None => None,
        }, channel@, description@, display@),
{
    AppCommand {
        syntax: opt_string(syntax),
        display: Some(to_owned_string(display)),
        channel: Some(to_owned_string(channel)),
        description: Some(to_owned_string(description)),
    }
}

fn make_app(
    id: &str,
    name: &str,
    category: &str,
    description: &str,
    summary: String,
    enabled: bool,
    tags: &[&str],
    commands: Vec<AppCommand>,
    data_paths: &[&str],
    config_keys: &[&str],
    label: &str,
    notes: Option<&str>,
) -> (d: AppDescriptor)
    ensures
        descriptor_is(d, id@, name@, category@, description@, summary@, enabled, tags@.map_values(|t: &str| t@),
            data_paths@.map_values(|t: &str| t@), config_keys@.map_values(|t: &str| t@), label@, match notes {
                Some(t) => Some(t@),
                None => None,
            }),
        d.commands == commands,
{
    let key = enable_key_of(id);
    let mut detail = to_owned_string("Toggle via ");
    push_str(&mut detail, key.as_str());
    let mut actions: Vec<AppAction> = Vec::new();
    actions.push(AppAction {
        label: to_owned_string(label),
        kind: Some(to_owned_string("config-toggle")),
        target: Some(key),
        endpoint: None,
        method: None,
        primary: true,
        disabled: false,
    });
    let t = strings(tags);
    let p = strings(data_paths);
    let k = strings(config_keys);
    let d = AppDescriptor {
        id: to_owned_string(id),
        name: to_owned_string(name),
        category: to_owned_string(category),
        description: to_owned_string(description),
        summary: Some(summary),
        status: if enabled { to_owned_string("online") } else { to_owned_string("offline") },
        status_detail: Some(detail),
        enabled,
        planned: false,
        tags: t,
        commands,
        data_paths: p,
        metrics: None,
        config_keys: k,
        actions,
        notes: opt_string(notes),
    };
    proof {
        assert(string_views(d.tags@) =~= tags@.map_values(|t: &str| t@));
        assert(string_views(d.data_paths@) =~= data_paths@.map_values(|t: &str| t@));
        assert(string_views(d.config_keys@) =~= config_keys@.map_values(|t: &str| t@));
    }
    d
}

fn one_command(c: AppCommand) -> (v: Vec<AppCommand>)
    ensures
        v@ == seq![c],
{
    let mut v: Vec<AppCommand> = Vec::new();
    v.push(c);
    v
}

/// The catalogue built from the app settings: Fortune Teller, TinyHack,
/// TinyMUSH, Magic 8-Ball, Slot Machine, Weather Reports, Identity Beacon and
/// Welcome Messages, in that order, each online exactly when its setting
/// enables it.
pub fn build_apps_from_config(apps_config: &AppsConfig) -> (apps: Vec<AppDescriptor>)
    ensures
        apps@.len() == 8,
        descriptor_is(apps@[0], "fortune"@, "Fortune Teller"@, "Utility"@,
            "Broadcast classic Unix fortunes to the public channel."@,
            "Broadcast Unix fortunes over the public channel."@, apps_config.fortune.enabled,
            seq!["wisdom"@, "entertainment"@], seq!["data/fortunes.json"@], seq!["apps.fortune.enabled"@],
            "Toggle Fortune"@, None),
        apps@[0].commands@.len() == 1 && command_is(apps@[0].commands@[0], Some("^FORTUNE"@), "Public"@,
            "Broadcast a random fortune using the configured prefix."@, "FORTUNE"@),
        descriptor_is(apps@[1], "tinyhack"@, "TinyHack"@, "Games"@,
            "Turn-based ASCII roguelike delivered via direct messages."@,
            "Launch from the in-game Games menu."@, apps_config.tinyhack.enabled, seq![], seq![],
            seq!["apps.tinyhack.enabled"@], "Toggle TinyHack"@, None),
        apps@[1].commands@.len() == 1 && command_is(apps@[1].commands@[0], None, "Games menu"@,
            "Select TinyHack from the Games list to start a session."@, "Games menu → TinyHack"@),
        descriptor_is(apps@[2], "tinymush"@, "TinyMUSH"@, "Games"@,
            "Persistent TinyMUSH experience with seed-driven content."@,
            "Enable to expose TinyMUSH through the Games menu."@, apps_config.tinymush.enabled, seq![], seq![],
            seq!["apps.tinymush.enabled"@], "Toggle TinyMUSH"@, None),
        apps@[2].commands@.len() == 1 && command_is(apps@[2].commands@[0], None, "Games menu"@,
            "Select TinyMUSH from the Games list when enabled."@, "Games menu → TinyMUSH"@),
        descriptor_is(apps@[3], "eightball"@, "Magic 8-Ball"@, "Games"@,
            "Ask a yes/no question and receive mystical guidance from the Magic 8-Ball."@,
            "Responds to questions with classic 8-ball answers."@, apps_config.eightball.enabled,
            seq!["fun"@, "divination"@], seq!["data/8ball_responses.json"@], seq!["apps.eightball.enabled"@],
            "Toggle 8-Ball"@, None),
        apps@[3].commands@.len() == 1 && command_is(apps@[3].commands@[0], Some("^8BALL <question>"@), "Public"@,
            "Ask a yes/no question and receive an 8-ball response."@, "8BALL <your question>"@),
        descriptor_is(apps@[4], "slotmachine"@, "Slot Machine"@, "Games"@,
            "Try your luck with a virtual slot machine. Spin the reels for a chance to win!"@,
            "Spin the slots and test your fortune."@, apps_config.slotmachine.enabled,
            seq!["casino"@, "gambling"@], seq![], seq!["apps.slotmachine.enabled"@], "Toggle Slots"@, None),
        apps@[4].commands@.len() == 1 && command_is(apps@[4].commands@[0], Some("^SLOTS"@), "Public"@,
            "Pull the lever and spin the slot machine reels."@, "SLOTS"@),
        descriptor_is(apps@[5], "weather"@, "Weather Reports"@, "Utility"@,
            "Get current weather conditions and forecasts for configured locations."@,
            "Location: "@ + apps_config.weather.default_location@, apps_config.weather.enabled,
            seq!["information"@, "api"@], seq![],
            seq!["apps.weather.enabled"@, "apps.weather.location"@, "apps.weather.api_key"@], "Toggle Weather"@,
            Some("Requires valid OpenWeatherMap API key in configuration."@)),
        apps@[5].commands@.len() == 1 && command_is(apps@[5].commands@[0], Some("^WEATHER"@), "Public"@,
            "Get current weather for the configured location."@, "WEATHER"@),
        descriptor_is(apps@[6], "ident_beacon"@, "Identity Beacon"@, "System"@,
            "Periodically broadcasts BBS identification and status information to the mesh."@,
            "Broadcasts every "@ + apps_config.ident_beacon.frequency@ + " seconds"@,
            apps_config.ident_beacon.enabled, seq!["broadcast"@, "system"@], seq![],
            seq!["apps.ident_beacon.enabled"@, "apps.ident_beacon.frequency"@], "Toggle Beacon"@,
            Some("Helps other nodes discover this BBS on the mesh network."@)),
        apps@[6].commands@.len() == 0,
        descriptor_is(apps@[7], "welcome"@, "Welcome Messages"@, "System"@,
            "Automatically sends welcome messages to new users joining the BBS."@,
            "Greets first-time users with helpful information."@, apps_config.welcome.enabled,
            seq!["onboarding"@, "automation"@], seq!["data/welcome_queue.json"@, "data/welcomed_nodes.json"@],
            seq!["apps.welcome.enabled"@], "Toggle Welcome"@,
            Some("Tracks welcomed nodes to avoid duplicate messages."@)),
        apps@[7].commands@.len() == 0,
{
    let mut entries: Vec<AppDescriptor> = Vec::new();
    let tags = ["wisdom", "entertainment"];
    let paths = ["data/fortunes.json"];
    let keys = ["apps.fortune.enabled"];
    let d = make_app(
        "fortune",
        "Fortune Teller",
        "Utility",
        "Broadcast classic Unix fortunes to the public channel.",
        to_owned_string("Broadcast Unix fortunes over the public channel."),
        apps_config.fortune.enabled,
        &tags,
        one_command(make_command(Some("^FORTUNE"), "Public", "Broadcast a random fortune using the configured prefix.", "FORTUNE")),
        &paths,
        &keys,
        "Toggle Fortune",
        None,
    );
    proof {
        assert(tags@.map_values(|t: &str| t@) =~= seq!["wisdom"@, "entertainment"@]);
        assert(paths@.map_values(|t: &str| t@) =~= seq!["data/fortunes.json"@]);
        assert(keys@.map_values(|t: &str| t@) =~= seq!["apps.fortune.enabled"@]);
    }
    entries.push(d);
    let tags: [&str; 0] = [];
    let paths: [&str; 0] = [];
    let keys = ["apps.tinyhack.enabled"];
    let d = make_app(
        "tinyhack",
        "TinyHack",
        "Games",
        "Turn-based ASCII roguelike delivered via direct messages.",
        to_owned_string("Launch from the in-game Games menu."),
        apps_config.tinyhack.enabled,
        &tags,
        one_command(make_command(None, "Games menu", "Select TinyHack from the Games list to start a session.", "Games menu → TinyHack")),
        &paths,
        &keys,
        "Toggle TinyHack",
        None,
    );
    proof {
        assert(tags@.map_values(|t: &str| t@) =~= seq![]);
        assert(paths@.map_values(|t: &str| t@) =~= seq![]);
        assert(keys@.map_values(|t: &str| t@) =~= seq!["apps.tinyhack.enabled"@]);
    }
    entries.push(d);
    let tags: [&str; 0] = [];
    let paths: [&str; 0] = [];
    let keys = ["apps.tinymush.enabled"];
    let d = make_app(
        "tinymush",
        "TinyMUSH",
        "Games",
        "Persistent TinyMUSH experience with seed-driven content.",
        to_owned_string("Enable to expose TinyMUSH through the Games menu."),
        apps_config.tinymush.enabled,
        &tags,
        one_command(make_command(None, "Games menu", "Select TinyMUSH from the Games list when enabled.", "Games menu → TinyMUSH")),
        &paths,
        &keys,
        "Toggle TinyMUSH",
        None,
    );
    proof {
        assert(tags@.map_values(|t: &str| t@) =~= seq![]);
        assert(paths@.map_values(|t: &str| t@) =~= seq![]);
        assert(keys@.map_values(|t: &str| t@) =~= seq!["apps.tinymush.enabled"@]);
    }
    entries.push(d);
    let tags = ["fun", "divination"];
    let paths = ["data/8ball_responses.json"];
    let keys = ["apps.eightball.enabled"];
    let d = make_app(
        "eightball",
        "Magic 8-Ball",
        "Games",
        "Ask a yes/no question and receive mystical guidance from the Magic 8-Ball.",
        to_owned_string("Responds to questions with classic 8-ball answers."),
        apps_config.eightball.enabled,
        &tags,
        one_command(make_command(Some("^8BALL <question>"), "Public", "Ask a yes/no question and receive an 8-ball response.", "8BALL <your question>")),
        &paths,
        &keys,
        "Toggle 8-Ball",
        None,
    );
    proof {
        assert(tags@.map_values(|t: &str| t@) =~= seq!["fun"@, "divination"@]);
        assert(paths@.map_values(|t: &str| t@) =~= seq!["data/8ball_responses.json"@]);
        assert(keys@.map_values(|t: &str| t@) =~= seq!["apps.eightball.enabled"@]);
    }
    entries.push(d);
    let tags = ["casino", "gambling"];
    let paths: [&str; 0] = [];
    let keys = ["apps.slotmachine.enabled"];
    let d = make_app(
        "slotmachine",
        "Slot Machine",
        "Games",
        "Try your luck with a virtual slot machine. Spin the reels for a chance to win!",
        to_owned_string("Spin the slots and test your fortune."),
        apps_config.slotmachine.enabled,
        &tags,
        one_command(make_command(Some("^SLOTS"), "Public", "Pull the lever and spin the slot machine reels.", "SLOTS")),
        &paths,
        &keys,
        "Toggle Slots",
        None,
    );
    proof {
        assert(tags@.map_values(|t: &str| t@) =~= seq!["casino"@, "gambling"@]);
        assert(paths@.map_values(|t: &str| t@) =~= seq![]);
        assert(keys@.map_values(|t: &str| t@) =~= seq!["apps.slotmachine.enabled"@]);
    }
    entries.push(d);
    let mut weather_summary = to_owned_string("Location: ");
    push_str(&mut weather_summary, apps_config.weather.default_location.as_str());
    let tags = ["information", "api"];
    let paths: [&str; 0] = [];
    let keys = ["apps.weather.enabled", "apps.weather.location", "apps.weather.api_key"];
    let d = make_app(
        "weather",
        "Weather Reports",
        "Utility",
        "Get current weather conditions and forecasts for configured locations.",
        weather_summary,
        apps_config.weather.enabled,
        &tags,
        one_command(make_command(Some("^WEATHER"), "Public", "Get current weather for the configured location.", "WEATHER")),
        &paths,
        &keys,
        "Toggle Weather",
        Some("Requires valid OpenWeatherMap API key in configuration."),
    );
    proof {
        assert(tags@.map_values(|t: &str| t@) =~= seq!["information"@, "api"@]);
        assert(paths@.map_values(|t: &str| t@) =~= seq![]);
        assert(keys@.map_values(|t: &str| t@) =~= seq!["apps.weather.enabled"@, "apps.weather.location"@, "apps.weather.api_key"@]);
    }
    entries.push(d);
    let mut beacon_summary = to_owned_string("Broadcasts every ");
    push_str(&mut beacon_summary, apps_config.ident_beacon.frequency.as_str());
    push_str(&mut beacon_summary, " seconds");
    let tags = ["broadcast", "system"];
    let paths: [&str; 0] = [];
    let keys = ["apps.ident_beacon.enabled", "apps.ident_beacon.frequency"];
    let d = make_app(
        "ident_beacon",
        "Identity Beacon",
        "System",
        "Periodically broadcasts BBS identification and status information to the mesh.",
        beacon_summary,
        apps_config.ident_beacon.enabled,
        &tags,
        Vec::new(),
        &paths,
        &keys,
        "Toggle Beacon",
        Some("Helps other nodes discover this BBS on the mesh network."),
    );
    proof {
        assert(tags@.map_values(|t: &str| t@) =~= seq!["broadcast"@, "system"@]);
        assert(paths@.map_values(|t: &str| t@) =~= seq![]);
        assert(keys@.map_values(|t: &str| t@) =~= seq!["apps.ident_beacon.enabled"@, "apps.ident_beacon.frequency"@]);
    }
    entries.push(d);
    let tags = ["onboarding", "automation"];
    let paths = ["data/welcome_queue.json", "data/welcomed_nodes.json"];
    let keys = ["apps.welcome.enabled"];
    let d = make_app(
        "welcome",
        "Welcome Messages",
        "System",
        "Automatically sends welcome messages to new users joining the BBS.",
        to_owned_string("Greets first-time users with helpful information."),
        apps_config.welcome.enabled,
        &tags,
        Vec::new(),
        &paths,
        &keys,
        "Toggle Welcome",
        Some("Tracks welcomed nodes to avoid duplicate messages."),
    );
    proof {
        assert(tags@.map_values(|t: &str| t@) =~= seq!["onboarding"@, "automation"@]);
        assert(paths@.map_values(|t: &str| t@) =~= seq!["data/welcome_queue.json"@, "data/welcomed_nodes.json"@]);
        assert(keys@.map_values(|t: &str| t@) =~= seq!["apps.welcome.enabled"@]);
    }
    entries.push(d);
    entries
}

/// Index of the first app with id `id`.
pub open spec fn first_app_index(apps: Seq<AppDescriptor>, id: Seq<char>, k: int) -> Option<int>
    decreases apps.len() - k,
{
    if k < 0 || k >= apps.len() {
        None
    } else if apps[k].id@ == id {
        Some(k)
    } else {
        first_app_index(apps, id, k + 1)
    }
}

/// The metrics of the fortune app after the runtime figures are added: the
/// number of loaded fortunes as the total, the weekly count kept or 0, and
/// the last activity kept or a note that the data set is local.
pub open spec fn fortune_metrics_ok(before: Option<AppMetrics>, after: Option<AppMetrics>, count: nat) -> bool {
    after matches Some(m) && {
        &&& m.sessions_total == Some(count as u64)
        &&& m.sessions_7d == match before {
            Some(b) => match b.sessions_7d {
                Some(x) => Some(x),
                None => Some(0u64),
            },
            None => Some(0u64),
        }
        &&& opt_view(m.last_activity) == match before {
            Some(b) => match b.last_activity {
                Some(x) => Some(x@),
                None => Some("Always available (local dataset)"@),
            },
            None => Some("Always available (local dataset)"@),
        }
    }
}

/// Adds the runtime figures to the first app with id "fortune"; the other
/// apps are left as they are.
pub fn augment_runtime_metrics(apps: &mut Vec<AppDescriptor>, fortunes: &FortuneStore)
    ensures
        final(apps)@.len() == old(apps)@.len(),
        match first_app_index(old(apps)@, "fortune"@, 0) {
            Some(i) => {
                &&& forall|k: int| 0 <= k < old(apps)@.len() && k != i ==> #[trigger] final(apps)@[k] == old(apps)@[k]
                &&& final(apps)@[i] == (AppDescriptor { metrics: final(apps)@[i].metrics, ..old(apps)@[i] })
                &&& fortune_metrics_ok(old(apps)@[i].metrics, final(apps)@[i].metrics, crate::fortune::loaded_count(fortunes@))
            },
            None => final(apps)@ == old(apps)@,
        },
{
    let n = apps.len();
    let mut i: usize = 0;
    while i < n
        invariant
            i <= n,
            n == apps@.len(),
            apps@ == old(apps)@,
            first_app_index(apps@, "fortune"@, 0) == first_app_index(apps@, "fortune"@, i as int),
        decreases n - i,
    {
        if str_eq(apps[i].id.as_str(), "fortune") {
            let count = fortune_count(fortunes);
            let mut d = apps.remove(i);
            let before = d.metrics.clone();
            let mut m = match d.metrics {
                Some(m) => m,
                None => AppMetrics::default(),
            };
            m.sessions_total = Some(count as u64);
            if m.sessions_7d.is_none() {
                m.sessions_7d = Some(0);
            }
            if m.last_activity.is_none() {
                m.last_activity = Some(to_owned_string("Always available (local dataset)"));
            }
            d.metrics = Some(m);
            apps.insert(i, d);
            proof {
                assert(apps@ =~= old(apps)@.update(i as int, apps@[i as int]));
            }
            return;
        }
        i = i + 1;
    }
}

/// The app settings with the app named by the setting `target`
/// (`apps.<id>.enabled`) switched to `enabled`; `None` when `target` names no app.
pub open spec fn with_app_enabled(a: AppsConfig, target: Seq<char>, enabled: bool) -> Option<AppsConfig> {
    if target == "apps.fortune.enabled"@ {
        Some(AppsConfig { fortune: AppToggle { enabled }, ..a })
    } else if target == "apps.eightball.enabled"@ {
        Some(AppsConfig { eightball: AppToggle { enabled }, ..a })
    } else if target == "apps.slotmachine.enabled"@ {
        Some(AppsConfig { slotmachine: AppToggle { enabled }, ..a })
    } else if target == "apps.weather.enabled"@ {
        Some(AppsConfig { weather: WeatherConfig { enabled, ..a.weather }, ..a })
    } else if target == "apps.tinyhack.enabled"@ {
        Some(AppsConfig { tinyhack: AppToggle { enabled }, ..a })
    } else if target == "apps.tinymush.enabled"@ {
        Some(AppsConfig { tinymush: AppToggle { enabled }, ..a })
    } else if target == "apps.ident_beacon.enabled"@ {
        Some(AppsConfig { ident_beacon: IdentBeaconConfig { enabled, ..a.ident_beacon }, ..a })
    } else if target == "apps.welcome.enabled"@ {
        Some(AppsConfig { welcome: WelcomeConfig { enabled, ..a.welcome }, ..a })
    } else {
        None
    }
}

/// Switches the app that the setting `target` names on or off; returns
/// whether `target` names an app (see [`with_app_enabled`]).
pub fn set_app_enabled(apps: &mut AppsConfig, target: &str, enabled: bool) -> (handled: bool)
    ensures
        match with_app_enabled(*old(apps), target@, enabled) {
            Some(a) => handled && *final(apps) == a,
            None => !handled && *final(apps) == *old(apps),
        },
{
    if str_eq(target, "apps.fortune.enabled") {
        apps.fortune.enabled = enabled;
        true
    } else if str_eq(target, "apps.eightball.enabled") {
        apps.eightball.enabled = enabled;
        true
    } else if str_eq(target, "apps.slotmachine.enabled") {
        apps.slotmachine.enabled = enabled;
        true
    } else if str_eq(target, "apps.weather.enabled") {
        apps.weather.enabled = enabled;
        true
    } else if str_eq(target, "apps.tinyhack.enabled") {
        apps.tinyhack.enabled = enabled;
        true
    } else if str_eq(target, "apps.tinymush.enabled") {
        apps.tinymush.enabled = enabled;
        true
    } else if str_eq(target, "apps.ident_beacon.enabled") {
        apps.ident_beacon.enabled = enabled;
        true
    } else if str_eq(target, "apps.welcome.enabled") {
        apps.welcome.enabled = enabled;
        true
    } else {
        false
    }
}

} // verus!
