use meshbbs::schema::{FieldType, SchemaRegistry};

#[test]
fn registry_holds_the_three_entities() {
    let r = SchemaRegistry::new();
    assert_eq!(r.list_schemas(), vec!["user", "message", "topic"]);
    assert_eq!(r.get_all_schemas().len(), 3);
    assert!(r.get_schema("comment").is_none());
    let d = SchemaRegistry::default();
    assert_eq!(d.list_schemas().len(), 3);
}

#[test]
fn user_schema_fields() {
    let r = SchemaRegistry::new();
    let u = r.get_schema("user").unwrap();
    assert_eq!(u.primary_key, "username");
    assert_eq!(u.actions, vec!["read", "update", "delete"]);
    let names: Vec<&str> = u.fields.iter().map(|f| f.name.as_str()).collect();
    assert_eq!(names, vec!["username", "longname", "level", "last_on", "created", "has_password"]);
    let username = &u.fields[0];
    assert_eq!(username.field_type, FieldType::String { min_length: Some(3), max_length: Some(32) });
    assert!(username.required && username.readonly);
    assert_eq!(username.validation.as_ref().unwrap().pattern.as_deref(), Some("^[a-zA-Z0-9_-]+$"));
    let level = &u.fields[2];
    assert_eq!(level.field_type, FieldType::UnsignedInteger { min: Some(1), max: Some(10) });
    let rules = level.validation.as_ref().unwrap();
    assert_eq!((rules.min, rules.max), (Some(1), Some(10)));
    assert_eq!(rules.custom_rules.len(), 4);
    assert_eq!(level.display.as_ref().unwrap().widget, "number");
    assert_eq!(u.computed_fields.len(), 1);
    assert_eq!(u.computed_fields[0].depends_on, vec!["level"]);
}

#[test]
fn message_and_topic_schemas() {
    let r = SchemaRegistry::new();
    let m = r.get_schema("message").unwrap();
    assert_eq!(m.actions, vec!["read", "delete"]);
    assert_eq!(m.fields.len(), 7);
    assert_eq!(m.fields[3].name, "body");
    assert!(!m.fields[3].sortable);
    assert_eq!(m.fields[3].display.as_ref().unwrap().widget, "textarea");
    let t = r.get_schema("topic").unwrap();
    assert_eq!(t.primary_key, "name");
    assert_eq!(t.fields[0].field_type, FieldType::String { min_length: Some(1), max_length: Some(64) });
    assert_eq!(t.fields[1].field_type, FieldType::UnsignedInteger { min: Some(0), max: None });
    assert_eq!(t.fields[2].display.as_ref().unwrap().format.as_deref(), Some("timestamp"));
}
