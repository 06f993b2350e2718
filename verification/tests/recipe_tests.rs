use meshbbs::recipe::{apply_recipe_update, RecipePayload, RecipeRecord};
use meshbbs::tinymush::{RecipeMaterial, TinymushApiError};

fn fresh() -> RecipeRecord {
    RecipeRecord {
        id: String::new(),
        name: String::new(),
        description: String::new(),
        result_item_id: String::new(),
        result_quantity: 1,
        materials: Vec::new(),
        requires_station: None,
        skill_required: None,
        skill_level: 0,
        crafting_time_seconds: 0,
        created_at: 1_000,
        created_by: String::new(),
        schema_version: 3,
    }
}

fn mat(id: &str, quantity: u32) -> RecipeMaterial {
    RecipeMaterial { item_id: id.to_string(), quantity }
}

fn empty_payload() -> RecipePayload {
    RecipePayload {
        id: None,
        name: None,
        description: None,
        result_item_id: None,
        result_quantity: None,
        materials: None,
        requires_station: None,
        skill_required: None,
        skill_level: None,
        crafting_time_seconds: None,
        created_at: None,
        created_by: None,
        schema_version: None,
    }
}

fn new_payload() -> RecipePayload {
    RecipePayload {
        id: Some(" torch ".to_string()),
        name: Some(" Torch ".to_string()),
        description: Some("A light".to_string()),
        result_item_id: Some("torch_item".to_string()),
        materials: Some(vec![mat(" stick ", 1), mat("cloth", 2)]),
        ..empty_payload()
    }
}

fn message(r: Result<RecipeRecord, TinymushApiError>) -> String {
    match r {
        Err(TinymushApiError::Validation(m)) => m,
        other => panic!("expected a validation error, got {:?}", other),
    }
}

fn existing() -> RecipeRecord {
    apply_recipe_update(None, new_payload(), "alice", fresh()).unwrap()
}

#[test]
fn new_recipe_takes_trimmed_fields_and_creator() {
    let r = apply_recipe_update(None, new_payload(), " alice ", fresh()).unwrap();
    assert_eq!(r.id, "torch");
    assert_eq!(r.name, "Torch");
    assert_eq!(r.description, "A light");
    assert_eq!(r.result_item_id, "torch_item");
    assert_eq!(r.created_by, "alice");
    assert_eq!(r.result_quantity, 1);
    assert_eq!(r.materials.len(), 2);
    assert_eq!(r.materials[0].item_id, "stick");
    assert_eq!(r.materials[1].quantity, 2);
    assert_eq!(r.created_at, 1_000);
    assert_eq!(r.schema_version, 3);
}

#[test]
fn recipe_edit_needs_an_id() {
    let p = RecipePayload { id: None, ..new_payload() };
    assert_eq!(message(apply_recipe_update(None, p, "alice", fresh())), "Field 'id' is required for TinyMUSH editing");
    let p = RecipePayload { id: Some("  ".to_string()), ..new_payload() };
    assert_eq!(message(apply_recipe_update(None, p, "alice", fresh())), "Field 'id' cannot be empty");
}

#[test]
fn new_recipe_needs_materials() {
    let p = RecipePayload { materials: None, ..new_payload() };
    assert_eq!(message(apply_recipe_update(None, p, "alice", fresh())), "Field 'materials' is required for TinyMUSH editing");
    let p = RecipePayload { materials: Some(vec![]), ..new_payload() };
    assert_eq!(message(apply_recipe_update(None, p, "alice", fresh())), "Recipes must include at least one material");
}

#[test]
fn new_recipe_needs_name_description_result_and_creator() {
    let p = RecipePayload { name: None, ..new_payload() };
    assert_eq!(message(apply_recipe_update(None, p, "alice", fresh())), "Field 'name' is required for TinyMUSH editing");
    let p = RecipePayload { description: None, ..new_payload() };
    assert_eq!(
        message(apply_recipe_update(None, p, "alice", fresh())),
        "Field 'description' is required for TinyMUSH editing"
    );
    let p = RecipePayload { result_item_id: None, ..new_payload() };
    assert_eq!(
        message(apply_recipe_update(None, p, "alice", fresh())),
        "Field 'result_item_id' is required for TinyMUSH editing"
    );
    assert_eq!(message(apply_recipe_update(None, new_payload(), "  ", fresh())), "Cannot determine recipe creator");
    let p = RecipePayload { name: Some(" ".to_string()), ..new_payload() };
    assert_eq!(message(apply_recipe_update(None, p, "alice", fresh())), "Field 'name' cannot be blank");
    let p = RecipePayload { result_item_id: Some(" ".to_string()), ..new_payload() };
    assert_eq!(message(apply_recipe_update(None, p, "alice", fresh())), "Field 'result_item_id' cannot be empty");
}

#[test]
fn new_recipe_cannot_name_another_creator() {
    let p = RecipePayload { created_by: Some("bob".to_string()), ..new_payload() };
    assert_eq!(message(apply_recipe_update(None, p, "alice", fresh())), "Cannot override recipe creator");
    let p = RecipePayload { created_by: Some(" alice ".to_string()), ..new_payload() };
    assert!(apply_recipe_update(None, p, "alice", fresh()).is_ok());
    let p = RecipePayload { created_by: Some("  ".to_string()), ..new_payload() };
    assert!(apply_recipe_update(None, p, "alice", fresh()).is_ok());
}

#[test]
fn existing_recipe_keeps_id_and_creator() {
    let p = RecipePayload { id: Some("lamp".to_string()), ..empty_payload() };
    assert_eq!(
        message(apply_recipe_update(Some(existing()), p, "bob", fresh())),
        "Cannot change recipe id from 'torch' to 'lamp'"
    );
    let p = RecipePayload { id: Some("torch".to_string()), created_by: Some("bob".to_string()), ..empty_payload() };
    assert_eq!(message(apply_recipe_update(Some(existing()), p, "bob", fresh())), "Recipe 'created_by' cannot be modified");
}

#[test]
fn existing_recipe_takes_only_fields_sent() {
    let p = RecipePayload {
        id: Some("torch".to_string()),
        result_quantity: Some(4),
        requires_station: Some(Some(" forge ".to_string())),
        skill_level: Some(7),
        ..empty_payload()
    };
    let r = apply_recipe_update(Some(existing()), p, "bob", fresh()).unwrap();
    assert_eq!(r.name, "Torch");
    assert_eq!(r.created_by, "alice");
    assert_eq!(r.result_quantity, 4);
    assert_eq!(r.requires_station, Some("forge".to_string()));
    assert_eq!(r.skill_level, 7);
    assert_eq!(r.materials.len(), 2);
    let p = RecipePayload { id: Some("torch".to_string()), requires_station: Some(None), ..empty_payload() };
    let r = apply_recipe_update(Some(r), p, "bob", fresh()).unwrap();
    assert_eq!(r.requires_station, None);
}

#[test]
fn recipe_quantities_must_be_positive() {
    let p = RecipePayload { result_quantity: Some(0), ..new_payload() };
    assert_eq!(message(apply_recipe_update(None, p, "alice", fresh())), "Field 'result_quantity' must be at least 1");
    let p = RecipePayload { materials: Some(vec![mat("stick", 0)]), ..new_payload() };
    assert_eq!(message(apply_recipe_update(None, p, "alice", fresh())), "Material 'stick' must have quantity at least 1");
}

#[test]
fn recipe_materials_are_distinct_and_named() {
    let p = RecipePayload { materials: Some(vec![mat("stick", 1), mat(" stick", 2)]), ..new_payload() };
    assert_eq!(message(apply_recipe_update(None, p, "alice", fresh())), "Duplicate material 'stick' specified");
    let p = RecipePayload { materials: Some(vec![mat("  ", 1)]), ..new_payload() };
    assert_eq!(message(apply_recipe_update(None, p, "alice", fresh())), "Field 'materials.item_id' cannot be empty");
    let p = RecipePayload { skill_required: Some(Some(" ".to_string())), ..new_payload() };
    assert_eq!(message(apply_recipe_update(None, p, "alice", fresh())), "Field 'skill_required' cannot be empty");
}
