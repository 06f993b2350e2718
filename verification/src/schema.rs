//! Entity schemas for the admin dashboard: for each kind of record (user,
//! message, topic) its fields, their types, validation rules and display
//! hints, so that the dashboard can lay out forms and tables from data.
use vstd::prelude::*;
use crate::text::{to_owned_string, str_eq, string_views};
use crate::text::opt_view;

verus! {

/// The type of a field, with its bounds where it has any.
#[derive(Debug, PartialEq)]
pub enum FieldType {
    /// Text of at least `min_length` and at most `max_length` characters.
    String { min_length: Option<usize>, max_length: Option<usize> },
    /// A signed integer within the bounds.
    Integer { min: Option<i64>, max: Option<i64> },
    /// An unsigned integer within the bounds.
    UnsignedInteger { min: Option<u64>, max: Option<u64> },
    Boolean,
    /// An ISO 8601 date and time.
    DateTime,
    /// One of the listed values.
    Enum { values: Vec<String> },
    /// A list of values of one type.
    Array { item_type: Box<FieldType> },
    /// A nested record of the named schema.
    Object { schema: String },
    /// Any JSON value.
    Json,
}

impl Clone for FieldType {
    fn clone(&self) -> (r: Self)
        decreases self,
    {
        match self {
            FieldType::String { min_length, max_length } => FieldType::String { min_length: *min_length, max_length: *max_length },
            FieldType::Integer { min, max } => FieldType::Integer { min: *min, max: *max },
            FieldType::UnsignedInteger { min, max } => FieldType::UnsignedInteger { min: *min, max: *max },
            FieldType::Boolean => FieldType::Boolean,
            FieldType::DateTime => FieldType::DateTime,
            FieldType::Enum { values } => FieldType::Enum { values: values.clone() },
            FieldType::Array { item_type } => {
                let inner: &FieldType = item_type;
                FieldType::Array { item_type: Box::new(inner.clone()) }
            },
            FieldType::Object { schema } => FieldType::Object { schema: schema.clone() },
            FieldType::Json => FieldType::Json,
        }
    }
}

/// One choice of a select widget.
#[derive(Debug, Clone)]
pub struct SelectOption {
    pub value: String,
    pub label: String,
    pub icon: Option<String>,
    pub color: Option<String>,
}

/// How a field is shown and edited in the dashboard.
#[derive(Debug, Clone)]
pub struct DisplayHints {
    /// "text", "textarea", "select", "number", "checkbox", "date", "badge", ...
    pub widget: String,
    pub placeholder: Option<String>,
    pub options: Option<Vec<SelectOption>>,
    pub css_class: Option<String>,
    pub icon: Option<String>,
    pub format: Option<String>,
}

/// What a value of a field must satisfy.
#[derive(Debug, Clone)]
pub struct ValidationRules {
    /// A regular expression that text must match.
    pub pattern: Option<String>,
    /// The least value.
    pub min: Option<i64>,
    /// The greatest value.
    pub max: Option<i64>,
    /// Further rules, described for the user.
    pub custom_rules: Vec<String>,
}

/// One stored field of an entity.
#[derive(Debug, Clone)]
pub struct FieldDefinition {
    /// The field's name, as in the record's JSON form.
    pub name: String,
    pub display_name: String,
    pub field_type: FieldType,
    pub required: bool,
    pub readonly: bool,
    pub searchable: bool,
    pub sortable: bool,
    pub validation: Option<ValidationRules>,
    pub display: Option<DisplayHints>,
    pub help_text: Option<String>,
}

/// A field derived from other fields, not stored.
#[derive(Debug, Clone)]
pub struct ComputedFieldDefinition {
    pub name: String,
    pub display_name: String,
    /// How the value is derived.
    pub description: String,
    pub field_type: FieldType,
    /// The stored fields it is derived from.
    pub depends_on: Vec<String>,
    pub display: Option<DisplayHints>,
}

/// The schema of one kind of record.
#[derive(Debug, Clone)]
pub struct SchemaDefinition {
    /// The entity's name: "user", "message", "topic".
    pub name: String,
    pub display_name: String,
    pub description: String,
    pub fields: Vec<FieldDefinition>,
    /// The field that identifies a record.
    pub primary_key: String,
    /// What the dashboard may do with a record: "read", "update", "delete".
    pub actions: Vec<String>,
    pub computed_fields: Vec<ComputedFieldDefinition>,
}

/// A select option as plain values.
pub struct OptionView {
    pub value: Seq<char>,
    pub label: Seq<char>,
    pub icon: Option<Seq<char>>,
    pub color: Option<Seq<char>>,
}

/// Display hints as plain values.
pub struct HintsView {
    pub widget: Seq<char>,
    pub placeholder: Option<Seq<char>>,
    pub options: Option<Seq<OptionView>>,
    pub css_class: Option<Seq<char>>,
    pub icon: Option<Seq<char>>,
    pub format: Option<Seq<char>>,
}

/// Validation rules as plain values.
pub struct RulesView {
    pub pattern: Option<Seq<char>>,
    pub min: Option<i64>,
    pub max: Option<i64>,
    pub custom_rules: Seq<Seq<char>>,
}

/// A stored field as plain values.
pub struct FieldView {
    pub name: Seq<char>,
    pub display_name: Seq<char>,
    pub field_type: FieldType,
    pub required: bool,
    pub readonly: bool,
    pub searchable: bool,
    pub sortable: bool,
    pub validation: Option<RulesView>,
    pub display: Option<HintsView>,
    pub help_text: Option<Seq<char>>,
}

/// A computed field as plain values.
pub struct ComputedView {
    pub name: Seq<char>,
    pub display_name: Seq<char>,
    pub description: Seq<char>,
    pub field_type: FieldType,
    pub depends_on: Seq<Seq<char>>,
    pub display: Option<HintsView>,
}

/// A schema as plain values.
pub struct SchemaView {
    pub name: Seq<char>,
    pub display_name: Seq<char>,
    pub description: Seq<char>,
    pub fields: Seq<FieldView>,
    pub primary_key: Seq<char>,
    pub actions: Seq<Seq<char>>,
    pub computed_fields: Seq<ComputedView>,
}

impl View for SelectOption {
    type V = OptionView;

    open spec fn view(&self) -> OptionView {
        OptionView { value: self.value@, label: self.label@, icon: opt_view(self.icon), color: opt_view(self.color) }
    }
}

impl View for DisplayHints {
    type V = HintsView;

    open spec fn view(&self) -> HintsView {
        HintsView {
            widget: self.widget@,
            placeholder: opt_view(self.placeholder),
            options: match self.options {
                Some(v) => Some(v@.map_values(|o: SelectOption| o@)),
                None => None,
            },
            css_class: opt_view(self.css_class),
            icon: opt_view(self.icon),
            format: opt_view(self.format),
        }
    }
}

impl View for ValidationRules {
    type V = RulesView;

    open spec fn view(&self) -> RulesView {
        RulesView { pattern: opt_view(self.pattern), min: self.min, max: self.max, custom_rules: string_views(self.custom_rules@) }
    }
}

/// The view of optional display hints.
pub open spec fn hints_view(h: Option<DisplayHints>) -> Option<HintsView> {
    match h {
        Some(x) => Some(x@),
        None => None,
    }
}

/// The view of optional validation rules.
pub open spec fn rules_view(r: Option<ValidationRules>) -> Option<RulesView> {
    match r {
        Some(x) => Some(x@),
        None => None,
    }
}

impl View for FieldDefinition {
    type V = FieldView;

    open spec fn view(&self) -> FieldView {
        FieldView {
            name: self.name@,
            display_name: self.display_name@,
            field_type: self.field_type,
            required: self.required,
            readonly: self.readonly,
            searchable: self.searchable,
            sortable: self.sortable,
            validation: rules_view(self.validation),
            display: hints_view(self.display),
            help_text: opt_view(self.help_text),
        }
    }
}

impl View for ComputedFieldDefinition {
    type V = ComputedView;

    open spec fn view(&self) -> ComputedView {
        ComputedView {
            name: self.name@,
            display_name: self.display_name@,
            description: self.description@,
            field_type: self.field_type,
            depends_on: string_views(self.depends_on@),
            display: hints_view(self.display),
        }
    }
}

impl View for SchemaDefinition {
    type V = SchemaView;

    open spec fn view(&self) -> SchemaView {
        SchemaView {
            name: self.name@,
            display_name: self.display_name@,
            description: self.description@,
            fields: self.fields@.map_values(|f: FieldDefinition| f@),
            primary_key: self.primary_key@,
            actions: string_views(self.actions@),
            computed_fields: self.computed_fields@.map_values(|c: ComputedFieldDefinition| c@),
        }
    }
}


/// The view of an optional string literal.
pub open spec fn lit_view(t: Option<&str>) -> Option<Seq<char>> {
    match t {
        Some(x) => Some(x@),
        None => None,
    }
}

/// Display hints without select options.
pub open spec fn hints_spec(
    widget: Seq<char>,
    placeholder: Option<Seq<char>>,
    css_class: Option<Seq<char>>,
    icon: Option<Seq<char>>,
    format: Option<Seq<char>>,
) -> HintsView {
    HintsView { widget, placeholder, options: None, css_class, icon, format }
}

/// A stored field with the given values.
pub open spec fn field_spec(
    name: Seq<char>,
    display_name: Seq<char>,
    field_type: FieldType,
    required: bool,
    readonly: bool,
    searchable: bool,
    sortable: bool,
    validation: Option<RulesView>,
    display: Option<HintsView>,
    help_text: Option<Seq<char>>,
) -> FieldView {
    FieldView { name, display_name, field_type, required, readonly, searchable, sortable, validation, display, help_text }
}

/// Text with the given length bounds.
pub open spec fn text_type(min_length: Option<usize>, max_length: Option<usize>) -> FieldType {
    FieldType::String { min_length, max_length }
}

/// An unsigned integer with the given bounds.
pub open spec fn unsigned_type(min: Option<u64>, max: Option<u64>) -> FieldType {
    FieldType::UnsignedInteger { min, max }
}

/// The schema of a user account.
pub open spec fn user_schema_view() -> SchemaView {
    SchemaView {
        name: "user"@,
        display_name: "User"@,
        description: "BBS user account with authentication and profile data"@,
        primary_key: "username"@,
        actions: seq!["read"@, "update"@, "delete"@],
        fields: seq![
            field_spec("username"@, "Username"@, text_type(Some(3), Some(32)), true, true, true, true,
                Some(RulesView {
                    pattern: Some("^[a-zA-Z0-9_-]+$"@),
                    min: None,
                    max: None,
                    custom_rules: seq!["Must contain only letters, numbers, underscores, and hyphens"@],
                }),
                Some(hints_spec("text"@, Some("Username"@), Some("font-mono"@), Some("👤"@), None)),
                Some("Unique identifier for this user account"@)),
            field_spec("longname"@, "Display Name"@, text_type(None, Some(64)), false, false, true, true, None,
                Some(hints_spec("text"@, Some("Display name"@), None, None, None)),
                Some("Full name or display name for this user"@)),
            field_spec("level"@, "Access Level"@, unsigned_type(Some(1), Some(10)), true, false, true, true,
                Some(RulesView {
                    pattern: None,
                    min: Some(1),
                    max: Some(10),
                    custom_rules: seq!["Level 1-2: Regular User"@, "Level 3-5: Moderator"@, "Level 6-9: Admin"@,
                        "Level 10: Sysop"@],
                }),
                Some(hints_spec("number"@, None, None, Some("🔢"@), None)),
                Some("BBS access level (1-10)"@)),
            field_spec("last_on"@, "Last Login"@, unsigned_type(None, None), false, true, false, true, None,
                Some(hints_spec("date"@, None, None, Some("🕐"@), Some("timestamp"@))),
                Some("Unix timestamp of last login"@)),
            field_spec("created"@, "Created"@, unsigned_type(None, None), false, true, false, true, None,
                Some(hints_spec("date"@, None, None, Some("📅"@), Some("timestamp"@))),
                Some("Unix timestamp of account creation"@)),
            field_spec("has_password"@, "Password Set"@, FieldType::Boolean, false, true, true, true, None,
                Some(hints_spec("checkbox"@, None, None, Some("🔐"@), None)),
                Some("Whether this user has a password configured"@)),
        ],
        computed_fields: seq![
            ComputedView {
                name: "role"@,
                display_name: "Role"@,
                description: "User role derived from access level"@,
                field_type: text_type(None, None),
                depends_on: seq!["level"@],
                display: Some(hints_spec("badge"@, None, Some("role-badge"@), None, None)),
            },
        ],
    }
}

/// The schema of a message.
pub open spec fn message_schema_view() -> SchemaView {
    SchemaView {
        name: "message"@,
        display_name: "Message"@,
        description: "BBS message/post in a topic"@,
        primary_key: "id"@,
        actions: seq!["read"@, "delete"@],
        fields: seq![
            field_spec("id"@, "Message ID"@, text_type(None, None), true, true, true, true, None,
                Some(hints_spec("text"@, None, Some("font-mono text-sm"@), Some("🔑"@), None)),
                Some("Unique message identifier"@)),
            field_spec("author"@, "Author"@, text_type(None, None), true, true, true, true, None,
                Some(hints_spec("text"@, None, Some("font-semibold"@), Some("✍️"@), None)),
                Some("Username of message author"@)),
            field_spec("subject"@, "Subject"@, text_type(None, Some(256)), false, true, true, true, None,
                Some(hints_spec("text"@, None, Some("font-medium"@), Some("📋"@), None)),
                Some("Message subject line"@)),
            field_spec("body"@, "Message Body"@, text_type(None, None), true, true, true, false, None,
                Some(hints_spec("textarea"@, None, Some("whitespace-pre-wrap"@), Some("📄"@), None)),
                Some("Message content"@)),
            field_spec("timestamp"@, "Posted"@, unsigned_type(None, None), true, true, false, true, None,
                Some(hints_spec("date"@, None, None, Some("🕐"@), Some("timestamp"@))),
                Some("Unix timestamp when message was posted"@)),
            field_spec("reply_to"@, "Reply To"@, text_type(None, None), false, true, true, false, None,
                Some(hints_spec("text"@, None, Some("font-mono text-sm"@), Some("↩️"@), None)),
                Some("Message ID this is replying to (if any)"@)),
            field_spec("pinned"@, "Pinned"@, FieldType::Boolean, false, false, true, true, None,
                Some(hints_spec("checkbox"@, None, None, Some("📌"@), None)),
                Some("Whether this message is pinned to top of topic"@)),
        ],
        computed_fields: seq![],
    }
}

/// The schema of a topic.
pub open spec fn topic_schema_view() -> SchemaView {
    SchemaView {
        name: "topic"@,
        display_name: "Topic"@,
        description: "BBS discussion topic/board"@,
        primary_key: "name"@,
        actions: seq!["read"@],
        fields: seq![
            field_spec("name"@, "Topic Name"@, text_type(Some(1), Some(64)), true, true, true, true,
                Some(RulesView {
                    pattern: Some("^[a-z][a-z0-9_-]*$"@),
                    min: None,
                    max: None,
                    custom_rules: seq!["Lowercase letters, numbers, underscores, hyphens only"@,
                        "Must start with a letter"@],
                }),
                Some(hints_spec("text"@, None, Some("font-mono"@), Some("💬"@), None)),
                Some("Topic identifier (used in URLs)"@)),
            field_spec("message_count"@, "Messages"@, unsigned_type(Some(0), None), false, true, false, true, None,
                Some(hints_spec("number"@, None, None, Some("💬"@), None)),
                Some("Total number of messages in this topic"@)),
            field_spec("last_activity"@, "Last Activity"@, unsigned_type(None, None), false, true, false, true, None,
                Some(hints_spec("date"@, None, None, Some("🕐"@), Some("timestamp"@))),
                Some("Unix timestamp of most recent message"@)),
        ],
        computed_fields: seq![],
    }
}

fn opt_str(t: Option<&str>) -> (r: Option<String>)
    ensures
        opt_view(r) == lit_view(t),
{
    match t {
        Some(x) => Some(to_owned_string(x)),
        None => None,
    }
}

fn strs(items: &[&str]) -> (r: Vec<String>)
    ensures
        string_views(r@) == items@.map_values(|t: &str| t@),
{
    let mut out: Vec<String> = Vec::new();
    let n = items.len();
    let mut i: usize = 0;
    while i < n
        invariant
            i <= n,
            n == items@.len(),
            out@.len() == i,
            forall|k: int| 0 <= k < i ==> #[trigger] out@[k]@ == items@[k]@,
        decreases n - i,
    {
        out.push(to_owned_string(items[i]));
        i = i + 1;
    }
    proof {
        assert(string_views(out@) =~= items@.map_values(|t: &str| t@));
    }
    out
}

fn hints(widget: &str, placeholder: Option<&str>, css_class: Option<&str>, icon: Option<&str>, format: Option<&str>) -> (h: DisplayHints)
    ensures
        h@ == hints_spec(widget@, lit_view(placeholder), lit_view(css_class), lit_view(icon), lit_view(format)),
{
    DisplayHints {
        widget: to_owned_string(widget),
        placeholder: opt_str(placeholder),
        options: None,
        css_class: opt_str(css_class),
        icon: opt_str(icon),
        format: opt_str(format),
    }
}

fn rules(pattern: Option<&str>, min: Option<i64>, max: Option<i64>, custom_rules: &[&str]) -> (r: ValidationRules)
    ensures
        r@ == (RulesView {
            pattern: lit_view(pattern),
            min,
            max,
            custom_rules: custom_rules@.map_values(|t: &str| t@),
        }),
{
    ValidationRules { pattern: opt_str(pattern), min, max, custom_rules: strs(custom_rules) }
}

fn field(
    name: &str,
    display_name: &str,
    field_type: FieldType,
    required: bool,
    readonly: bool,
    searchable: bool,
    sortable: bool,
    validation: Option<ValidationRules>,
    display: DisplayHints,
    help_text: &str,
) -> (f: FieldDefinition)
    ensures
        f@ == field_spec(name@, display_name@, field_type, required, readonly, searchable, sortable,
            rules_view(validation), Some(display@), Some(help_text@)),
{
    FieldDefinition {
        name: to_owned_string(name),
        display_name: to_owned_string(display_name),
        field_type,
        required,
        readonly,
        searchable,
        sortable,
        validation,
        display: Some(display),
        help_text: Some(to_owned_string(help_text)),
    }
}

fn text(min_length: Option<usize>, max_length: Option<usize>) -> (t: FieldType)
    ensures
        t == text_type(min_length, max_length),
{
    FieldType::String { min_length, max_length }
}

fn unsigned(min: Option<u64>, max: Option<u64>) -> (t: FieldType)
    ensures
        t == unsigned_type(min, max),
{
    FieldType::UnsignedInteger { min, max }
}

fn schema(
    name: &str,
    display_name: &str,
    description: &str,
    fields: Vec<FieldDefinition>,
    primary_key: &str,
    actions: &[&str],
    computed_fields: Vec<ComputedFieldDefinition>,
) -> (s: SchemaDefinition)
    ensures
        s@ == (SchemaView {
            name: name@,
            display_name: display_name@,
            description: description@,
            fields: fields@.map_values(|f: FieldDefinition| f@),
            primary_key: primary_key@,
            actions: actions@.map_values(|t: &str| t@),
            computed_fields: computed_fields@.map_values(|c: ComputedFieldDefinition| c@),
        }),
{
    SchemaDefinition {
        name: to_owned_string(name),
        display_name: to_owned_string(display_name),
        description: to_owned_string(description),
        fields,
        primary_key: to_owned_string(primary_key),
        actions: strs(actions),
        computed_fields,
    }
}

/// Builds the schema of a user account.
fn user_schema() -> (s: SchemaDefinition)
    ensures
        s@ == user_schema_view(),
{
    let mut fields: Vec<FieldDefinition> = Vec::new();
    let username_rules = ["Must contain only letters, numbers, underscores, and hyphens"];
    fields.push(field("username", "Username", text(Some(3), Some(32)), true, true, true, true,
        Some(rules(Some("^[a-zA-Z0-9_-]+$"), None, None, &username_rules)),
        hints("text", Some("Username"), Some("font-mono"), Some("👤"), None),
        "Unique identifier for this user account"));
    fields.push(field("longname", "Display Name", text(None, Some(64)), false, false, true, true, None,
        hints("text", Some("Display name"), None, None, None),
        "Full name or display name for this user"));
    let level_rules = ["Level 1-2: Regular User", "Level 3-5: Moderator", "Level 6-9: Admin", "Level 10: Sysop"];
    fields.push(field("level", "Access Level", unsigned(Some(1), Some(10)), true, false, true, true,
        Some(rules(None, Some(1), Some(10), &level_rules)),
        hints("number", None, None, Some("🔢"), None),
        "BBS access level (1-10)"));
    fields.push(field("last_on", "Last Login", unsigned(None, None), false, true, false, true, None,
        hints("date", None, None, Some("🕐"), Some("timestamp")),
        "Unix timestamp of last login"));
    fields.push(field("created", "Created", unsigned(None, None), false, true, false, true, None,
        hints("date", None, None, Some("📅"), Some("timestamp")),
        "Unix timestamp of account creation"));
    fields.push(field("has_password", "Password Set", FieldType::Boolean, false, true, true, true, None,
        hints("checkbox", None, None, Some("🔐"), None),
        "Whether this user has a password configured"));
    let depends = ["level"];
    let mut computed: Vec<ComputedFieldDefinition> = Vec::new();
    computed.push(ComputedFieldDefinition {
        name: to_owned_string("role"),
        display_name: to_owned_string("Role"),
        description: to_owned_string("User role derived from access level"),
        field_type: text(None, None),
        depends_on: strs(&depends),
        display: Some(hints("badge", None, Some("role-badge"), None, None)),
    });
    let actions = ["read", "update", "delete"];
    let s = schema("user", "User", "BBS user account with authentication and profile data", fields, "username",
        &actions, computed);
    proof {
        assert(username_rules@.map_values(|t: &str| t@) =~= seq!["Must contain only letters, numbers, underscores, and hyphens"@]);
        assert(level_rules@.map_values(|t: &str| t@) =~= seq!["Level 1-2: Regular User"@, "Level 3-5: Moderator"@,
            "Level 6-9: Admin"@, "Level 10: Sysop"@]);
        assert(depends@.map_values(|t: &str| t@) =~= seq!["level"@]);
        assert(actions@.map_values(|t: &str| t@) =~= seq!["read"@, "update"@, "delete"@]);
        assert(s@.fields =~= user_schema_view().fields);
        assert(s@.computed_fields =~= user_schema_view().computed_fields);
    }
    s
}

/// Builds the schema of a message.
fn message_schema() -> (s: SchemaDefinition)
    ensures
        s@ == message_schema_view(),
{
    let mut fields: Vec<FieldDefinition> = Vec::new();
    fields.push(field("id", "Message ID", text(None, None), true, true, true, true, None,
        hints("text", None, Some("font-mono text-sm"), Some("🔑"), None),
        "Unique message identifier"));
    fields.push(field("author", "Author", text(None, None), true, true, true, true, None,
        hints("text", None, Some("font-semibold"), Some("✍️"), None),
        "Username of message author"));
    fields.push(field("subject", "Subject", text(None, Some(256)), false, true, true, true, None,
        hints("text", None, Some("font-medium"), Some("📋"), None),
        "Message subject line"));
    fields.push(field("body", "Message Body", text(None, None), true, true, true, false, None,
        hints("textarea", None, Some("whitespace-pre-wrap"), Some("📄"), None),
        "Message content"));
    fields.push(field("timestamp", "Posted", unsigned(None, None), true, true, false, true, None,
        hints("date", None, None, Some("🕐"), Some("timestamp")),
        "Unix timestamp when message was posted"));
    fields.push(field("reply_to", "Reply To", text(None, None), false, true, true, false, None,
        hints("text", None, Some("font-mono text-sm"), Some("↩️"), None),
        "Message ID this is replying to (if any)"));
    fields.push(field("pinned", "Pinned", FieldType::Boolean, false, false, true, true, None,
        hints("checkbox", None, None, Some("📌"), None),
        "Whether this message is pinned to top of topic"));
    let actions = ["read", "delete"];
    let s = schema("message", "Message", "BBS message/post in a topic", fields, "id", &actions, Vec::new());
    proof {
        assert(actions@.map_values(|t: &str| t@) =~= seq!["read"@, "delete"@]);
        assert(s@.fields =~= message_schema_view().fields);
        assert(s@.computed_fields =~= message_schema_view().computed_fields);
    }
    s
}

/// Builds the schema of a topic.
fn topic_schema() -> (s: SchemaDefinition)
    ensures
        s@ == topic_schema_view(),
{
    let mut fields: Vec<FieldDefinition> = Vec::new();
    let name_rules = ["Lowercase letters, numbers, underscores, hyphens only", "Must start with a letter"];
    fields.push(field("name", "Topic Name", text(Some(1), Some(64)), true, true, true, true,
        Some(rules(Some("^[a-z][a-z0-9_-]*$"), None, None, &name_rules)),
        hints("text", None, Some("font-mono"), Some("💬"), None),
        "Topic identifier (used in URLs)"));
    fields.push(field("message_count", "Messages", unsigned(Some(0), None), false, true, false, true, None,
        hints("number", None, None, Some("💬"), None),
        "Total number of messages in this topic"));
    fields.push(field("last_activity", "Last Activity", unsigned(None, None), false, true, false, true, None,
        hints("date", None, None, Some("🕐"), Some("timestamp")),
        "Unix timestamp of most recent message"));
    let actions = ["read"];
    let s = schema("topic", "Topic", "BBS discussion topic/board", fields, "name", &actions, Vec::new());
    proof {
        assert(name_rules@.map_values(|t: &str| t@) =~= seq!["Lowercase letters, numbers, underscores, hyphens only"@,
            "Must start with a letter"@]);
        assert(actions@.map_values(|t: &str| t@) =~= seq!["read"@]);
        assert(s@.fields =~= topic_schema_view().fields);
        assert(s@.computed_fields =~= topic_schema_view().computed_fields);
    }
    s
}


/// No two schemas share a name.
pub open spec fn names_distinct(s: Seq<SchemaView>) -> bool {
    forall|i: int, j: int| 0 <= i < s.len() && 0 <= j < s.len() && i != j ==> #[trigger] s[i].name != #[trigger] s[j].name
}

/// Whether some schema is named `name`.
pub open spec fn has_schema(s: Seq<SchemaView>, name: Seq<char>) -> bool {
    exists|i: int| 0 <= i < s.len() && #[trigger] s[i].name == name
}

/// The schema named `name`, if there is one.
pub open spec fn schema_named(s: Seq<SchemaView>, name: Seq<char>) -> Option<SchemaView> {
    if has_schema(s, name) {
        Some(s[choose|i: int| 0 <= i < s.len() && #[trigger] s[i].name == name])
    } else {
        None
    }
}

/// `s` with schema `x` added, in place of the one of the same name if there is one.
pub open spec fn put_schema(s: Seq<SchemaView>, x: SchemaView) -> Seq<SchemaView> {
    if has_schema(s, x.name) {
        s.update(choose|i: int| 0 <= i < s.len() && #[trigger] s[i].name == x.name, x)
    } else {
        s.push(x)
    }
}

/// The schemas of all kinds of record, each under its own name.
pub struct SchemaRegistry {
    schemas: Vec<SchemaDefinition>,
}

impl View for SchemaRegistry {
    type V = Seq<SchemaView>;

    closed spec fn view(&self) -> Seq<SchemaView> {
        self.schemas@.map_values(|s: SchemaDefinition| s@)
    }
}

proof fn lemma_named_index(s: Seq<SchemaView>, i: int)
    requires
        names_distinct(s),
        0 <= i < s.len(),
    ensures
        schema_named(s, s[i].name) == Some(s[i]),
{
    assert(has_schema(s, s[i].name));
}

proof fn lemma_put_distinct(s: Seq<SchemaView>, x: SchemaView)
    requires
        names_distinct(s),
    ensures
        names_distinct(put_schema(s, x)),
        put_schema(s, x).len() == if has_schema(s, x.name) { s.len() } else { s.len() + 1 },
{
    let t = put_schema(s, x);
    if has_schema(s, x.name) {
        let k = choose|i: int| 0 <= i < s.len() && #[trigger] s[i].name == x.name;
        assert forall|i: int, j: int| 0 <= i < t.len() && 0 <= j < t.len() && i != j implies #[trigger] t[i].name != #[trigger] t[j].name by {
            if i != k && j != k {
                assert(s[i].name != s[j].name);
            } else if i == k {
                assert(s[j].name != s[k].name);
            } else {
                assert(s[i].name != s[k].name);
            }
        }
    } else {
        assert forall|i: int, j: int| 0 <= i < t.len() && 0 <= j < t.len() && i != j implies #[trigger] t[i].name != #[trigger] t[j].name by {
            if i < s.len() && j < s.len() {
                assert(s[i].name != s[j].name);
            } else if i < s.len() {
                assert(s[i].name != x.name);
            } else {
                assert(s[j].name != x.name);
            }
        }
    }
}

/// The index of the schema named `name`, if there is one.
fn find_schema(schemas: &Vec<SchemaDefinition>, name: &str) -> (r: Option<usize>)
    ensures
        match r {
            Some(i) => i < schemas@.len() && schemas@[i as int].name@ == name@,
            None => !has_schema(schemas@.map_values(|d: SchemaDefinition| d@), name@),
        },
{
    let ghost vs = schemas@.map_values(|d: SchemaDefinition| d@);
    let n = schemas.len();
    let mut i: usize = 0;
    while i < n
        invariant
            i <= n,
            n == schemas@.len(),
            vs == schemas@.map_values(|d: SchemaDefinition| d@),
            forall|j: int| 0 <= j < i ==> #[trigger] vs[j].name != name@,
        decreases n - i,
    {
        if str_eq(schemas[i].name.as_str(), name) {
            return Some(i);
        }
        i = i + 1;
    }
    None
}

impl SchemaRegistry {
    #[verifier::type_invariant]
    spec fn wf(self) -> bool {
        names_distinct(self@)
    }

    /// A registry with the schemas of users, messages and topics.
    pub fn new() -> (r: Self)
        ensures
            r@ == seq![user_schema_view(), message_schema_view(), topic_schema_view()],
            schema_named(r@, "user"@) == Some(user_schema_view()),
            schema_named(r@, "message"@) == Some(message_schema_view()),
            schema_named(r@, "topic"@) == Some(topic_schema_view()),
    {
        let mut registry = SchemaRegistry { schemas: Vec::new() };
        proof {
            assert(registry@ =~= Seq::<SchemaView>::empty());
        }
        registry.register_user_schema();
        registry.register_message_schema();
        registry.register_topic_schema();
        proof {
            reveal_strlit("user");
            reveal_strlit("message");
            reveal_strlit("topic");
            assert(!has_schema(Seq::<SchemaView>::empty(), "user"@));
            let s1 = seq![user_schema_view()];
            assert(Seq::<SchemaView>::empty().push(user_schema_view()) =~= s1);
            assert(!has_schema(s1, "message"@)) by {
                if has_schema(s1, "message"@) {
                    let i = choose|i: int| 0 <= i < s1.len() && #[trigger] s1[i].name == "message"@;
                    assert(s1[i].name.len() == 4);
                }
            }
            let s2 = seq![user_schema_view(), message_schema_view()];
            assert(s1.push(message_schema_view()) =~= s2);
            assert(!has_schema(s2, "topic"@)) by {
                if has_schema(s2, "topic"@) {
                    let i = choose|i: int| 0 <= i < s2.len() && #[trigger] s2[i].name == "topic"@;
                    assert(s2[i].name.len() != 5);
                }
            }
            let s3 = seq![user_schema_view(), message_schema_view(), topic_schema_view()];
            assert(s2.push(topic_schema_view()) =~= s3);
            use_type_invariant(&registry);
            lemma_named_index(s3, 0);
            lemma_named_index(s3, 1);
            lemma_named_index(s3, 2);
        }
        registry
    }

    /// Adds `s`, in place of the schema of the same name if there is one.
    fn put(&mut self, s: SchemaDefinition)
        ensures
            final(self)@ == put_schema(old(self)@, s@),
    {
        proof {
            use_type_invariant(&*self);
            lemma_put_distinct(self@, s@);
        }
        let mut schemas: Vec<SchemaDefinition> = Vec::new();
        std::mem::swap(&mut schemas, &mut self.schemas);
        let ghost before = schemas@.map_values(|d: SchemaDefinition| d@);
        let found = find_schema(&schemas, s.name.as_str());
        let ghost sv = s@;
        match found {
            Some(k) => {
                proof {
                    assert(before[k as int] == schemas@[k as int]@);
                    assert(before[k as int].name == sv.name);
                    assert(has_schema(before, sv.name));
                }
                schemas.set(k, s);
                proof {
                    let c = choose|j: int| 0 <= j < before.len() && #[trigger] before[j].name == sv.name;
                    assert(c == k);
                    assert(schemas@.map_values(|d: SchemaDefinition| d@) =~= before.update(k as int, sv));
                }
            },
            None => {
                proof {
                    assert(!has_schema(before, sv.name));
                }
                schemas.push(s);
                proof {
                    assert(schemas@.map_values(|d: SchemaDefinition| d@) =~= before.push(sv));
                }
            },
        }
        self.schemas = schemas;
    }

    /// Adds the schema of a user account.
    fn register_user_schema(&mut self)
        ensures
            final(self)@ == put_schema(old(self)@, user_schema_view()),
    {
        let s = user_schema();
        self.put(s);
    }

    /// Adds the schema of a message.
    fn register_message_schema(&mut self)
        ensures
            final(self)@ == put_schema(old(self)@, message_schema_view()),
    {
        let s = message_schema();
        self.put(s);
    }

    /// Adds the schema of a topic.
    fn register_topic_schema(&mut self)
        ensures
            final(self)@ == put_schema(old(self)@, topic_schema_view()),
    {
        let s = topic_schema();
        self.put(s);
    }

    /// The schema named `name`, if there is one.
    pub fn get_schema(&self, name: &str) -> (r: Option<&SchemaDefinition>)
        ensures
            match r {
                Some(s) => schema_named(self@, name@) == Some(s@),
                None => schema_named(self@, name@) is None,
            },
    {
        proof {
            use_type_invariant(self);
        }
        match find_schema(&self.schemas, name) {
            Some(i) => {
                proof {
                    lemma_named_index(self@, i as int);
                }
                Some(&self.schemas[i])
            },
            None => None,
        }
    }

    /// The names of all schemas.
    pub fn list_schemas(&self) -> (r: Vec<String>)
        ensures
            string_views(r@) == self@.map_values(|s: SchemaView| s.name),
    {
        let mut out: Vec<String> = Vec::new();
        let n = self.schemas.len();
        let mut i: usize = 0;
        while i < n
            invariant
                i <= n,
                n == self@.len(),
                string_views(out@) == self@.take(i as int).map_values(|s: SchemaView| s.name),
            decreases n - i,
        {
            let ghost prev = out@;
            out.push(to_owned_string(self.schemas[i].name.as_str()));
            proof {
                assert(string_views(out@) =~= string_views(prev).push(self.schemas@[i as int].name@));
                assert(self@[i as int] == self.schemas@[i as int]@);
                assert(self@.take(i + 1) =~= self@.take(i as int).push(self@[i as int]));
                assert(string_views(out@) =~= self@.take(i + 1).map_values(|s: SchemaView| s.name));
            }
            i = i + 1;
        }
        proof {
            assert(self@.take(n as int) =~= self@);
        }
        out
    }

    /// All schemas.
    pub fn get_all_schemas(&self) -> (r: Vec<&SchemaDefinition>)
        ensures
            r@.map_values(|s: &SchemaDefinition| s@) == self@,
    {
        let mut out: Vec<&SchemaDefinition> = Vec::new();
        let n = self.schemas.len();
        let mut i: usize = 0;
        while i < n
            invariant
                i <= n,
                n == self@.len(),
                out@.map_values(|s: &SchemaDefinition| s@) == self@.take(i as int),
            decreases n - i,
        {
            out.push(&self.schemas[i]);
            proof {
                assert(self@[i as int] == self.schemas@[i as int]@);
                assert(self@.take(i + 1) =~= self@.take(i as int).push(self@[i as int]));
                assert(out@.map_values(|s: &SchemaDefinition| s@) =~= self@.take(i + 1));
            }
            i = i + 1;
        }
        proof {
            assert(self@.take(n as int) =~= self@);
        }
        out
    }
}

impl Default for SchemaRegistry {
    fn default() -> (r: Self)
        ensures
            r@ == seq![user_schema_view(), message_schema_view(), topic_schema_view()],
    {
        SchemaRegistry::new()
    }
}

} // verus!
