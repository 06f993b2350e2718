use meshbbs::tinymush::{
    canonicalize_token, describe_tinymush_open_error, normalize_identifier, normalize_non_empty,
    parse_achievement_category_str, parse_companion_type_str, parse_direction, parse_npc_flag_str,
    parse_recipe_material_quantity, parse_room_flag_str, parse_room_owner_str, parse_room_visibility_str,
    clamp_capacity, clean_entries, dedupe_npc_flags, edit_target_id, dedupe_room_flags, normalize_recipe_materials, require_field,
    AchievementCategory, RecipeMaterial, CompanionType, Direction, NpcFlag, QuantityValue, RoomFlag, RoomOwner,
    RoomVisibility, StoreOpenError, TinyMushCollection, TinymushApiError,
};

fn validation_message(e: TinymushApiError) -> String {
    match e {
        TinymushApiError::Validation(m) => m,
        other => panic!("unexpected {:?}", other),
    }
}

#[test]
fn tokens_are_canonical() {
    assert_eq!(canonicalize_token("QuestGiver"), "quest_giver");
    assert_eq!(canonicalize_token("  Quest Giver "), "quest_giver");
    assert_eq!(canonicalize_token("quest--giver"), "quest_giver");
    assert_eq!(canonicalize_token("__TUTORIAL_NPC__"), "tutorial_npc");
    assert_eq!(canonicalize_token("pvpEnabled"), "pvp_enabled");
    assert_eq!(canonicalize_token(canonicalize_token("Housing Office").as_str()), "housing_office");
}

#[test]
fn names_parse_in_any_spelling() {
    assert_eq!(parse_npc_flag_str("Quest Giver"), Some(NpcFlag::QuestGiver));
    assert_eq!(parse_npc_flag_str("tutorialNpc"), Some(NpcFlag::TutorialNpc));
    assert_eq!(parse_npc_flag_str("merchant"), None);
    assert_eq!(parse_room_visibility_str(" HIDDEN "), Some(RoomVisibility::Hidden));
    assert_eq!(parse_direction("NE"), Some(Direction::Northeast));
    assert_eq!(parse_direction(" SW "), Some(Direction::Southwest));
    assert_eq!(parse_direction("south-west"), None);
    assert_eq!(parse_direction("sideways"), None);
    assert_eq!(parse_room_flag_str("NoTeleportOut"), Some(RoomFlag::NoTeleportOut));
    assert_eq!(parse_room_flag_str("housing office"), Some(RoomFlag::HousingOffice));
    assert_eq!(parse_companion_type_str("Familiar"), Some(CompanionType::Familiar));
    assert_eq!(parse_achievement_category_str("crafting"), Some(AchievementCategory::Crafting));
    assert_eq!(parse_achievement_category_str("fishing"), None);
}

#[test]
fn room_owners() {
    assert!(matches!(parse_room_owner_str(" World "), Ok(RoomOwner::World)));
    match parse_room_owner_str("Player: alice") {
        Ok(RoomOwner::Player { username }) => assert_eq!(username, "alice"),
        other => panic!("unexpected {:?}", other),
    }
    match parse_room_owner_str("bob") {
        Ok(RoomOwner::Player { username }) => assert_eq!(username, "bob"),
        other => panic!("unexpected {:?}", other),
    }
    assert_eq!(validation_message(parse_room_owner_str("  ").unwrap_err()), "Room owner cannot be blank");
    assert_eq!(validation_message(parse_room_owner_str("player/ ").unwrap_err()), "Player owner username cannot be blank");
}

#[test]
fn field_checks() {
    assert_eq!(normalize_identifier("id", "  room1 ").unwrap(), "room1");
    assert_eq!(validation_message(normalize_identifier("id", "   ").unwrap_err()), "Field 'id' cannot be empty");
    assert_eq!(validation_message(normalize_non_empty("name", "").unwrap_err()), "Field 'name' cannot be blank");
    assert_eq!(require_field(Some(3), "x").unwrap(), 3);
    assert_eq!(
        validation_message(require_field::<u32>(None, "room").unwrap_err()),
        "Field 'room' is required for TinyMUSH editing"
    );
}

#[test]
fn error_replies() {
    assert_eq!(TinymushApiError::Disabled.status_and_message(), (503, "TinyMUSH is disabled in configuration".to_string()));
    assert_eq!(
        TinymushApiError::UnknownCollection("foo".to_string()).status_and_message(),
        (404, "Unknown TinyMUSH collection 'foo'".to_string())
    );
    assert_eq!(TinymushApiError::Store("io".to_string()).status_and_message(), (500, "TinyMUSH storage error".to_string()));
    assert_eq!(TinymushApiError::Validation("bad".to_string()).status_and_message(), (400, "bad".to_string()));
}

#[test]
fn collections() {
    assert_eq!(TinyMushCollection::from(" NPCs "), Some(TinyMushCollection::Npcs));
    assert_eq!(TinyMushCollection::from("recipes"), Some(TinyMushCollection::Recipes));
    assert_eq!(TinyMushCollection::from("items"), None);
    assert_eq!(TinyMushCollection::Achievements.as_str(), "achievements");
}

#[test]
fn recipe_quantities() {
    assert_eq!(parse_recipe_material_quantity(QuantityValue::Number(Some(3))).unwrap(), 3);
    assert_eq!(parse_recipe_material_quantity(QuantityValue::Text(" 12 ".to_string())).unwrap(), 12);
    assert_eq!(
        validation_message(parse_recipe_material_quantity(QuantityValue::Number(Some(0))).unwrap_err()),
        "Recipe material quantity must be between 1 and 4294967295"
    );
    assert_eq!(
        validation_message(parse_recipe_material_quantity(QuantityValue::Number(None)).unwrap_err()),
        "Recipe material quantity must be a positive integer"
    );
    assert_eq!(
        validation_message(parse_recipe_material_quantity(QuantityValue::Text("x1".to_string())).unwrap_err()),
        "Invalid recipe material quantity 'x1'"
    );
    assert_eq!(
        validation_message(parse_recipe_material_quantity(QuantityValue::Text("0".to_string())).unwrap_err()),
        "Recipe material quantity must be at least 1"
    );
    assert_eq!(
        validation_message(parse_recipe_material_quantity(QuantityValue::Text(" ".to_string())).unwrap_err()),
        "Recipe material quantity cannot be blank"
    );
    assert!(parse_recipe_material_quantity(QuantityValue::Other).is_err());
}

#[test]
fn open_errors() {
    assert_eq!(
        describe_tinymush_open_error("db", &StoreOpenError::Engine("could not acquire lock on x".to_string())),
        "TinyMUSH database at db is currently locked by another process. Shut down the other process or remove the stale lock file before restarting the admin dashboard."
    );
    assert_eq!(
        describe_tinymush_open_error("db", &StoreOpenError::Other("denied".to_string())),
        "Unable to open TinyMUSH database at db: denied"
    );
    assert!(describe_tinymush_open_error("db", &StoreOpenError::WouldBlock).ends_with("before retrying."));
}

fn material(id: &str, quantity: u32) -> RecipeMaterial {
    RecipeMaterial { item_id: id.to_string(), quantity }
}

fn validation_text(r: Result<Vec<RecipeMaterial>, TinymushApiError>) -> String {
    match r {
        Err(TinymushApiError::Validation(m)) => m,
        other => panic!("expected a validation error, got {:?}", other),
    }
}

#[test]
fn recipe_materials_are_trimmed_and_checked() {
    let ok = normalize_recipe_materials(vec![material(" iron_ore ", 2), material("coal", 1)]).unwrap();
    assert_eq!(ok.len(), 2);
    assert_eq!(ok[0].item_id, "iron_ore");
    assert_eq!(ok[0].quantity, 2);
    assert_eq!(ok[1].item_id, "coal");
    assert_eq!(validation_text(normalize_recipe_materials(vec![])), "Recipes must include at least one material");
    assert_eq!(
        validation_text(normalize_recipe_materials(vec![material("a", 1), material("  ", 1)])),
        "Field 'materials.item_id' cannot be empty"
    );
    assert_eq!(
        validation_text(normalize_recipe_materials(vec![material("a", 0), material("a", 1)])),
        "Material 'a' must have quantity at least 1"
    );
    assert_eq!(
        validation_text(normalize_recipe_materials(vec![material("a", 1), material(" a", 3)])),
        "Duplicate material 'a' specified"
    );
}

#[test]
fn room_and_npc_fields_are_cleaned() {
    assert_eq!(
        dedupe_room_flags(vec![RoomFlag::Dark, RoomFlag::Safe, RoomFlag::Dark, RoomFlag::Shop, RoomFlag::Safe]),
        vec![RoomFlag::Dark, RoomFlag::Safe, RoomFlag::Shop]
    );
    assert_eq!(dedupe_npc_flags(vec![NpcFlag::Vendor, NpcFlag::Vendor]), vec![NpcFlag::Vendor]);
    assert_eq!(dedupe_npc_flags(vec![]), Vec::<NpcFlag>::new());
    assert_eq!(
        clean_entries(vec![" lamp ".to_string(), "   ".to_string(), "key".to_string(), String::new()]),
        vec!["lamp".to_string(), "key".to_string()]
    );
    assert_eq!(clamp_capacity(70_000), 65_535);
    assert_eq!(clamp_capacity(12), 12);
}

#[test]
fn edits_keep_the_record_id() {
    assert_eq!(edit_target_id("room", Some(" hall ".to_string()), None).unwrap(), "hall");
    assert_eq!(edit_target_id("room", Some("hall".to_string()), Some("hall")).unwrap(), "hall");
    assert_eq!(
        validation_message(edit_target_id("NPC", Some("bob".to_string()), Some("alice")).unwrap_err()),
        "Cannot change NPC id from 'alice' to 'bob'"
    );
    assert_eq!(
        validation_message(edit_target_id("quest", None, None).unwrap_err()),
        "Field 'id' is required for TinyMUSH editing"
    );
    assert_eq!(
        validation_message(edit_target_id("quest", Some("  ".to_string()), None).unwrap_err()),
        "Field 'id' cannot be empty"
    );
}

#[test]
fn canonical_tokens_of_plain_text_are_fixed_points() {
    for v in ["QuestGiver", "  Quest Giver ", "quest--giver", "__TUTORIAL_NPC__", "a\tB-c_d", "x"] {
        let t = canonicalize_token(v);
        assert_eq!(canonicalize_token(&t), t);
        assert!(!t.chars().any(|c| c.is_whitespace()));
    }
}

#[test]
fn vertical_tab_can_survive_one_canonicalization() {
    let t = canonicalize_token("_\u{0B}b");
    assert_eq!(t, "\u{0B}b");
    assert_eq!(canonicalize_token(&t), "b");
}
