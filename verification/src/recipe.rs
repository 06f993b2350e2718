//! Applying an edit from the dashboard's TinyMUSH editor to a crafting recipe:
//! which fields an edit may set, which it must send for a new recipe, and the
//! checks that keep a recipe usable (its id and creator never change, it has
//! at least one material, each material once and at least one of it).
//!
//! Reading the edit from JSON happens outside; this module takes its fields.
use vstd::prelude::*;
use crate::text::{to_owned_string, push_str, trim, trim_spec, str_eq};
use crate::tinymush::{
    TinymushApiError, RecipeMaterial, normalize_recipe_materials, first_material_fault, normalize_identifier,
    normalize_non_empty, require_field,
};

verus! {

/// A crafting recipe as the TinyMUSH store keeps it.
#[derive(Debug)]
pub struct RecipeRecord {
    pub id: String,
    pub name: String,
    pub description: String,
    pub result_item_id: String,
    pub result_quantity: u32,
    pub materials: Vec<RecipeMaterial>,
    pub requires_station: Option<String>,
    pub skill_required: Option<String>,
    pub skill_level: u8,
    pub crafting_time_seconds: u32,
    /// Creation time (ms since the Unix epoch).
    pub created_at: i64,
    pub created_by: String,
    pub schema_version: u8,
}

/// The fields of a recipe edit; an absent field leaves the recipe's value as
/// it is. For the two optional fields, `Some(None)` clears them.
#[derive(Debug)]
pub struct RecipePayload {
    pub id: Option<String>,
    pub name: Option<String>,
    pub description: Option<String>,
    pub result_item_id: Option<String>,
    pub result_quantity: Option<u32>,
    pub materials: Option<Vec<RecipeMaterial>>,
    pub requires_station: Option<Option<String>>,
    pub skill_required: Option<Option<String>>,
    pub skill_level: Option<u8>,
    pub crafting_time_seconds: Option<u32>,
    pub created_at: Option<i64>,
    pub created_by: Option<String>,
    pub schema_version: Option<u8>,
}

/// A recipe as values.
pub struct RecipeView {
    pub id: Seq<char>,
    pub name: Seq<char>,
    pub description: Seq<char>,
    pub result_item_id: Seq<char>,
    pub result_quantity: u32,
    /// Item id and quantity of each material, in order.
    pub materials: Seq<(Seq<char>, u32)>,
    pub requires_station: Option<Seq<char>>,
    pub skill_required: Option<Seq<char>>,
    pub skill_level: u8,
    pub crafting_time_seconds: u32,
    pub created_at: i64,
    pub created_by: Seq<char>,
    pub schema_version: u8,
}

/// An optional text as a value.
pub open spec fn opt_text(o: Option<String>) -> Option<Seq<char>> {
    match o {
        Some(s) => Some(s@),
        None => None,
    }
}

/// Materials as (item id, quantity) pairs.
pub open spec fn materials_view(ms: Seq<RecipeMaterial>) -> Seq<(Seq<char>, u32)> {
    ms.map_values(|m: RecipeMaterial| (m.item_id@, m.quantity))
}

/// Materials with their item ids trimmed.
pub open spec fn trimmed_materials(ms: Seq<RecipeMaterial>) -> Seq<(Seq<char>, u32)> {
    ms.map_values(|m: RecipeMaterial| (trim_spec(m.item_id@), m.quantity))
}

impl View for RecipeRecord {
    type V = RecipeView;

    open spec fn view(&self) -> RecipeView {
        RecipeView {
            id: self.id@,
            name: self.name@,
            description: self.description@,
            result_item_id: self.result_item_id@,
            result_quantity: self.result_quantity,
            materials: materials_view(self.materials@),
            requires_station: opt_text(self.requires_station),
            skill_required: opt_text(self.skill_required),
            skill_level: self.skill_level,
            crafting_time_seconds: self.crafting_time_seconds,
            created_at: self.created_at,
            created_by: self.created_by@,
            schema_version: self.schema_version,
        }
    }
}

/// What an edit does to an optional identifier field `field` now holding
/// `current`: keeps it, clears it, or sets it trimmed (refused when blank).
pub open spec fn optional_id_spec(field: Seq<char>, edit: Option<Option<String>>, current: Option<Seq<char>>) -> Result<
    Option<Seq<char>>,
    Seq<char>,
> {
    match edit {
        None => Ok(current),
        Some(None) => Ok(None),
        Some(Some(s)) => if trim_spec(s@).len() > 0 {
            Ok(Some(trim_spec(s@)))
        } else {
            Err("Field '"@ + field + "' cannot be empty"@)
        },
    }
}

/// The message for a field a new recipe must send.
pub open spec fn required_message(field: Seq<char>) -> Seq<char> {
    "Field '"@ + field + "' is required for TinyMUSH editing"@
}

/// Whether an edit names a creator (`created_by` not blank once trimmed)
/// other than `who`.
pub open spec fn names_other_creator(created_by: Option<String>, who: Seq<char>) -> bool {
    created_by matches Some(c) && trim_spec(c@).len() > 0 && trim_spec(c@) != who
}

/// The recipe an edit starts from, or the message it is refused with. An
/// existing recipe keeps its id and creator. A new one needs a name, a
/// description, a result item and a creator (the editing user), each not
/// blank; it starts from `fresh`, the record the store makes for a new
/// recipe.
pub open spec fn recipe_base_spec(
    existing: Option<RecipeRecord>,
    p: RecipePayload,
    username: Seq<char>,
    fresh: RecipeRecord,
    id: Seq<char>,
) -> Result<RecipeView, Seq<char>> {
    match existing {
        Some(e) => if e.id@ != id {
            Err("Cannot change recipe id from '"@ + e.id@ + "' to '"@ + id + "'"@)
        } else if names_other_creator(p.created_by, e.created_by@) {
            Err("Recipe 'created_by' cannot be modified"@)
        } else {
            Ok(e@)
        },
        None => if names_other_creator(p.created_by, trim_spec(username)) {
            Err("Cannot override recipe creator"@)
        } else if p.name is None {
            Err(required_message("name"@))
        } else if p.description is None {
            Err(required_message("description"@))
        } else if p.result_item_id is None {
            Err(required_message("result_item_id"@))
        } else if trim_spec(username).len() == 0 {
            Err("Cannot determine recipe creator"@)
        } else if trim_spec(p.name->0@).len() == 0 {
            Err("Field '"@ + "name"@ + "' cannot be blank"@)
        } else if trim_spec(p.description->0@).len() == 0 {
            Err("Field '"@ + "description"@ + "' cannot be blank"@)
        } else if trim_spec(p.result_item_id->0@).len() == 0 {
            Err("Field '"@ + "result_item_id"@ + "' cannot be empty"@)
        } else {
            Ok(
                RecipeView {
                    id,
                    name: trim_spec(p.name->0@),
                    description: trim_spec(p.description->0@),
                    result_item_id: trim_spec(p.result_item_id->0@),
                    created_by: trim_spec(username),
                    ..fresh@
                },
            )
        },
    }
}

/// The materials an edit leaves a recipe with, before their checks: those
/// it sends, else those the recipe has.
pub open spec fn material_source(existing: Option<RecipeRecord>, p: RecipePayload, fresh: RecipeRecord) -> Seq<RecipeMaterial> {
    match p.materials {
        Some(ms) => ms@,
        None => match existing {
            Some(e) => e.materials@,
            None => fresh.materials@,
        },
    }
}

/// The edit's fields applied to the starting recipe `b`, or the message of
/// the first check that fails: a name or description sent must not be
/// blank, a result item or optional identifier sent not empty, a result
/// quantity sent at least 1; the recipe must keep at least one material,
/// each with an id, a quantity of at least 1, and an id no other material
/// has. Ids are trimmed; the schema version becomes `fresh`'s.
pub open spec fn recipe_fields_spec(
    b: RecipeView,
    existing: Option<RecipeRecord>,
    p: RecipePayload,
    fresh: RecipeRecord,
) -> Result<RecipeView, Seq<char>> {
    let src = material_source(existing, p, fresh);
    let station = optional_id_spec("requires_station"@, p.requires_station, b.requires_station);
    let skill = optional_id_spec("skill_required"@, p.skill_required, b.skill_required);
    if p.name matches Some(n) && trim_spec(n@).len() == 0 {
        Err("Field '"@ + "name"@ + "' cannot be blank"@)
    } else if p.description matches Some(d) && trim_spec(d@).len() == 0 {
        Err("Field '"@ + "description"@ + "' cannot be blank"@)
    } else if p.result_item_id matches Some(x) && trim_spec(x@).len() == 0 {
        Err("Field '"@ + "result_item_id"@ + "' cannot be empty"@)
    } else if p.result_quantity == Some(0u32) {
        Err("Field 'result_quantity' must be at least 1"@)
    } else if src.len() == 0 {
        Err("Recipes must include at least one material"@)
    } else if station is Err {
        Err(station->Err_0)
    } else if skill is Err {
        Err(skill->Err_0)
    } else if first_material_fault(src, 0) is Some {
        Err(first_material_fault(src, 0)->0)
    } else {
        Ok(
            RecipeView {
                name: match p.name {
                    Some(n) => trim_spec(n@),
                    None => b.name,
                },
                description: match p.description {
                    Some(d) => trim_spec(d@),
                    None => b.description,
                },
                result_item_id: match p.result_item_id {
                    Some(x) => trim_spec(x@),
                    None => b.result_item_id,
                },
                result_quantity: match p.result_quantity {
                    Some(q) => q,
                    None => b.result_quantity,
                },
                materials: trimmed_materials(src),
                requires_station: station->Ok_0,
                skill_required: skill->Ok_0,
                skill_level: match p.skill_level {
                    Some(v) => v,
                    None => b.skill_level,
                },
                crafting_time_seconds: match p.crafting_time_seconds {
                    Some(v) => v,
                    None => b.crafting_time_seconds,
                },
                created_at: match p.created_at {
                    Some(v) => v,
                    None => b.created_at,
                },
                schema_version: fresh.schema_version,
                ..b
            },
        )
    }
}

/// The outcome of a recipe edit: the recipe as saved, or the message it is
/// refused with. The id is required and not blank; a new recipe must send
/// materials, and materials sent must not be an empty list; then the
/// starting recipe (see [`recipe_base_spec`]) takes the edit's fields (see
/// [`recipe_fields_spec`]).
pub open spec fn recipe_update_spec(
    existing: Option<RecipeRecord>,
    p: RecipePayload,
    username: Seq<char>,
    fresh: RecipeRecord,
) -> Result<RecipeView, Seq<char>> {
    match p.id {
        None => Err(required_message("id"@)),
        Some(raw) => {
            let id = trim_spec(raw@);
            if id.len() == 0 {
                Err("Field '"@ + "id"@ + "' cannot be empty"@)
            } else if existing is None && p.materials is None {
                Err(required_message("materials"@))
            } else if p.materials matches Some(ms) && ms@.len() == 0 {
                Err("Recipes must include at least one material"@)
            } else {
                match recipe_base_spec(existing, p, username, fresh, id) {
                    Err(m) => Err(m),
                    Ok(b) => recipe_fields_spec(b, existing, p, fresh),
                }
            }
        },
    }
}

/// A refusal with message `m`.
fn refuse(m: &str) -> (e: TinymushApiError)
    ensures
        e matches TinymushApiError::Validation(x) && x@ == m@,
{
    TinymushApiError::Validation(to_owned_string(m))
}

/// The refusal of an edit of a new recipe that lacks field `field`.
fn missing(field: &str) -> (e: TinymushApiError)
    ensures
        e matches TinymushApiError::Validation(x) && x@ == required_message(field@),
{
    let mut m = to_owned_string("Field '");
    push_str(&mut m, field);
    push_str(&mut m, "' is required for TinyMUSH editing");
    TinymushApiError::Validation(m)
}

/// An optional identifier field after an edit (see [`optional_id_spec`]).
fn apply_optional_id(field: &str, edit: Option<Option<String>>, current: Option<String>) -> (r: Result<
    Option<String>,
    TinymushApiError,
>)
    ensures
        match optional_id_spec(field@, edit, opt_text(current)) {
            Ok(v) => r matches Ok(x) && opt_text(x) == v,
            Err(m) => r matches Err(TinymushApiError::Validation(x)) && x@ == m,
        },
{
    match edit {
        None => Ok(current),
        Some(None) => Ok(None),
        Some(Some(s)) => {
            let v = normalize_identifier(field, s.as_str())?;
            Ok(Some(v))
        },
    }
}

/// Applies an edit made by `username` to a recipe: to `existing`, or to a
/// new recipe made from `fresh` (the record the store makes for a new
/// recipe, whose schema version is the current one). Gives the recipe to
/// save, or the validation message the edit is refused with (see
/// [`recipe_update_spec`]).
pub fn apply_recipe_update(
    existing: Option<RecipeRecord>,
    payload: RecipePayload,
    username: &str,
    fresh: RecipeRecord,
) -> (r: Result<RecipeRecord, TinymushApiError>)
    ensures
        match recipe_update_spec(existing, payload, username@, fresh) {
            Ok(v) => r matches Ok(x) && x@ == v,
            Err(m) => r matches Err(TinymushApiError::Validation(x)) && x@ == m,
        },
{
    let ghost p = payload;
    let ghost ex = existing;
    let ghost fr = fresh;
    let schema_version = fresh.schema_version;
    let RecipePayload {
        id,
        name,
        description,
        result_item_id,
        result_quantity,
        materials,
        requires_station,
        skill_required,
        skill_level,
        crafting_time_seconds,
        created_at,
        created_by,
        schema_version: _,
    } = payload;
    let raw_id = require_field(id, "id")?;
    let id = normalize_identifier("id", raw_id.as_str())?;
    let is_new = existing.is_none();
    if is_new && materials.is_none() {
        return Err(missing("materials"));
    }
    match &materials {
        Some(ms) => {
            if ms.len() == 0 {
                return Err(refuse("Recipes must include at least one material"));
            }
        },
        None => {},
    }
    // The starting record.
    let mut rec = match existing {
        Some(e) => {
            if !str_eq(e.id.as_str(), id.as_str()) {
                let mut m = to_owned_string("Cannot change recipe id from '");
                push_str(&mut m, e.id.as_str());
                push_str(&mut m, "' to '");
                push_str(&mut m, id.as_str());
                push_str(&mut m, "'");
                return Err(TinymushApiError::Validation(m));
            }
            match &created_by {
                Some(c) => {
                    let t = trim(c.as_str());
                    if t.unicode_len() > 0 && !str_eq(t, e.created_by.as_str()) {
                        return Err(refuse("Recipe 'created_by' cannot be modified"));
                    }
                },
                None => {},
            }
            e
        },
        None => {
            let who = trim(username);
            match &created_by {
                Some(c) => {
                    let t = trim(c.as_str());
                    if t.unicode_len() > 0 && !str_eq(t, who) {
                        return Err(refuse("Cannot override recipe creator"));
                    }
                },
                None => {},
            }
            let name_required = match &name {
                Some(n) => n.as_str(),
                None => return Err(missing("name")),
            };
            let description_required = match &description {
                Some(d) => d.as_str(),
                None => return Err(missing("description")),
            };
            let result_required = match &result_item_id {
                Some(x) => x.as_str(),
                None => return Err(missing("result_item_id")),
            };
            if who.unicode_len() == 0 {
                return Err(refuse("Cannot determine recipe creator"));
            }
            let name_value = normalize_non_empty("name", name_required)?;
            let description_value = normalize_non_empty("description", description_required)?;
            let result_value = normalize_identifier("result_item_id", result_required)?;
            let mut f = fresh;
            f.id = id.clone();
            f.name = name_value;
            f.description = description_value;
            f.result_item_id = result_value;
            f.created_by = to_owned_string(who);
            f
        },
    };
    let ghost b = rec@;
    proof {
        assert(recipe_base_spec(ex, p, username@, fr, id@) == Ok::<RecipeView, Seq<char>>(b));
    }
    // The edit's fields.
    match name {
        Some(n) => {
            rec.name = normalize_non_empty("name", n.as_str())?;
        },
        None => {},
    }
    match description {
        Some(d) => {
            rec.description = normalize_non_empty("description", d.as_str())?;
        },
        None => {},
    }
    match result_item_id {
        Some(x) => {
            rec.result_item_id = normalize_identifier("result_item_id", x.as_str())?;
        },
        None => {},
    }
    match result_quantity {
        Some(q) => {
            if q == 0 {
                return Err(refuse("Field 'result_quantity' must be at least 1"));
            }
            rec.result_quantity = q;
        },
        None => {},
    }
    let src = match materials {
        Some(ms) => ms,
        None => {
            let mut tmp: Vec<RecipeMaterial> = Vec::new();
            std::mem::swap(&mut tmp, &mut rec.materials);
            tmp
        },
    };
    assert(src@ == material_source(ex, p, fr));
    if src.len() == 0 {
        return Err(refuse("Recipes must include at least one material"));
    }
    let current_station = rec.requires_station.take();
    rec.requires_station = apply_optional_id("requires_station", requires_station, current_station)?;
    let current_skill = rec.skill_required.take();
    rec.skill_required = apply_optional_id("skill_required", skill_required, current_skill)?;
    match skill_level {
        Some(v) => {
            rec.skill_level = v;
        },
        None => {},
    }
    match crafting_time_seconds {
        Some(v) => {
            rec.crafting_time_seconds = v;
        },
        None => {},
    }
    match created_at {
        Some(v) => {
            rec.created_at = v;
        },
        None => {},
    }
    let ghost src_view = src@;
    let out = normalize_recipe_materials(src)?;
    assert(materials_view(out@) =~= trimmed_materials(src_view));
    rec.materials = out;
    rec.schema_version = schema_version;
    Ok(rec)
}

} // verus!
