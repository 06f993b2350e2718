//! Reading the values that the dashboard's TinyMUSH editor sends: tokens in
//! any spelling ("Quest Giver", "quest-giver", "questGiver"), identifiers,
//! owners, quantities, and the collection names.
use vstd::prelude::*;
use crate::text::{
    to_owned_string, push_str, push_char, trim, trim_spec, str_eq, is_ascii_whitespace, is_ascii_whitespace_spec,
    ascii_lower, ascii_lower_spec, ascii_lower_seq, to_ascii_lowercase, starts_with, substring, parse_u32,
    parse_u32_spec, holds_text, is_whitespace_spec, no_whitespace, trim_start_spec, trim_end_spec,
};

verus! {

/// Errors of the TinyMUSH editor.
#[derive(Debug, Clone)]
pub enum TinymushApiError {
    Disabled,
    NotReady(String),
    UnknownCollection(String),
    /// The store failed; the text is its error message.
    Store(String),
    /// A value could not be (de)serialised; the text is the error message.
    Serialization(String),
    /// A background task failed; the text is the error message.
    Join(String),
    Validation(String),
}

/// The HTTP status and the message an editor error is answered with.
pub open spec fn error_reply(e: TinymushApiError) -> (u16, Seq<char>) {
    match e {
        TinymushApiError::Disabled => (503, "TinyMUSH is disabled in configuration"@),
        TinymushApiError::NotReady(r) => (503, r@),
        TinymushApiError::UnknownCollection(n) => (404, "Unknown TinyMUSH collection '"@ + n@ + "'"@),
        TinymushApiError::Store(_) => (500, "TinyMUSH storage error"@),
        TinymushApiError::Serialization(_) => (400, "Failed to serialize TinyMUSH data"@),
        TinymushApiError::Join(_) => (500, "TinyMUSH task failed"@),
        TinymushApiError::Validation(m) => (400, m@),
    }
}

impl TinymushApiError {
    /// The HTTP status and message of the reply (see [`error_reply`]).
    pub fn status_and_message(&self) -> (r: (u16, String))
        ensures
            r.0 == error_reply(*self).0,
            r.1@ == error_reply(*self).1,
    {
        match self {
            TinymushApiError::Disabled => (503, to_owned_string("TinyMUSH is disabled in configuration")),
            TinymushApiError::NotReady(r) => (503, r.clone()),
            TinymushApiError::UnknownCollection(n) => {
                let mut m = to_owned_string("Unknown TinyMUSH collection '");
                push_str(&mut m, n.as_str());
                push_str(&mut m, "'");
                (404, m)
            },
            TinymushApiError::Store(_) => (500, to_owned_string("TinyMUSH storage error")),
            TinymushApiError::Serialization(_) => (400, to_owned_string("Failed to serialize TinyMUSH data")),
            TinymushApiError::Join(_) => (500, to_owned_string("TinyMUSH task failed")),
            TinymushApiError::Validation(m) => (400, m.clone()),
        }
    }
}

fn validation(msg: String) -> (e: TinymushApiError)
    ensures
        e == TinymushApiError::Validation(msg),
{
    TinymushApiError::Validation(msg)
}

fn field_message(before: &str, field: &str, after: &str) -> (m: String)
    ensures
        m@ == before@ + field@ + after@,
{
    let mut m = to_owned_string(before);
    push_str(&mut m, field);
    push_str(&mut m, after);
    m
}

/// A value with surrounding whitespace removed; refused when nothing is left
/// ("Field '<field>' cannot be empty").
pub fn normalize_identifier(field: &str, value: &str) -> (r: Result<String, TinymushApiError>)
    ensures
        trim_spec(value@).len() > 0 ==> (r matches Ok(s) && s@ == trim_spec(value@)),
        trim_spec(value@).len() == 0 ==> (r matches Err(TinymushApiError::Validation(m)) && m@ == "Field '"@ + field@
            + "' cannot be empty"@),
{
    let t = trim(value);
    if t.unicode_len() == 0 {
        return Err(validation(field_message("Field '", field, "' cannot be empty")));
    }
    Ok(to_owned_string(t))
}

/// A value with surrounding whitespace removed; refused when nothing is left
/// ("Field '<field>' cannot be blank").
pub fn normalize_non_empty(field: &str, value: &str) -> (r: Result<String, TinymushApiError>)
    ensures
        trim_spec(value@).len() > 0 ==> (r matches Ok(s) && s@ == trim_spec(value@)),
        trim_spec(value@).len() == 0 ==> (r matches Err(TinymushApiError::Validation(m)) && m@ == "Field '"@ + field@
            + "' cannot be blank"@),
{
    let t = trim(value);
    if t.unicode_len() == 0 {
        return Err(validation(field_message("Field '", field, "' cannot be blank")));
    }
    Ok(to_owned_string(t))
}

/// A field the editor needs; its absence is a validation error.
pub fn require_field<T>(value: Option<T>, field: &str) -> (r: Result<T, TinymushApiError>)
    ensures
        match value {
            Some(v) => r == Ok::<T, TinymushApiError>(v),
            None => r matches Err(TinymushApiError::Validation(m)) && m@ == "Field '"@ + field@
                + "' is required for TinyMUSH editing"@,
        },
{
    match value {
        Some(v) => Ok(v),
        None => Err(validation(field_message("Field '", field, "' is required for TinyMUSH editing"))),
    }
}

/// Whether a token being built ends with an underscore.
pub open spec fn ends_with_underscore(t: Seq<char>) -> bool {
    t.len() > 0 && t.last() == '_'
}

/// `t` with one underscore appended, unless it ends with one.
pub open spec fn push_separator(t: Seq<char>) -> Seq<char> {
    if ends_with_underscore(t) { t } else { t.push('_') }
}

/// The token built from `s[i..]`, given the token `t` so far and whether the
/// last character taken was a lower-case one: whitespace, `-` and `_` become
/// one underscore; an upper-case ASCII letter after a lower-case character
/// starts a new word; letters are lower-cased.
pub open spec fn canon_from(s: Seq<char>, i: int, t: Seq<char>, prev_lower: bool) -> Seq<char>
    decreases s.len() - i,
{
    if i < 0 || i >= s.len() {
        t
    } else {
        let c = s[i];
        if is_ascii_whitespace_spec(c) || c == '-' || c == '_' {
            canon_from(s, i + 1, push_separator(t), false)
        } else if 'A' <= c && c <= 'Z' {
            let t2 = if prev_lower { push_separator(t) } else { t };
            canon_from(s, i + 1, t2.push(ascii_lower_spec(c)), false)
        } else {
            canon_from(s, i + 1, t.push(ascii_lower_spec(c)), true)
        }
    }
}

/// `t` without leading underscores.
pub open spec fn strip_leading_underscores(t: Seq<char>) -> Seq<char>
    decreases t.len(),
{
    if t.len() > 0 && t[0] == '_' {
        strip_leading_underscores(t.drop_first())
    } else {
        t
    }
}

/// `t` without trailing underscores.
pub open spec fn strip_trailing_underscores(t: Seq<char>) -> Seq<char>
    decreases t.len(),
{
    if t.len() > 0 && t.last() == '_' {
        strip_trailing_underscores(t.drop_last())
    } else {
        t
    }
}

/// The canonical token of a value: trimmed, words joined by single
/// underscores, lower case, without underscores at either end.
pub open spec fn canonical_token(value: Seq<char>) -> Seq<char> {
    strip_trailing_underscores(strip_leading_underscores(canon_from(trim_spec(value), 0, Seq::empty(), false)))
}

fn strip_underscores(t: &str) -> (r: String)
    ensures
        r@ == strip_trailing_underscores(strip_leading_underscores(t@)),
{
    let n = t.unicode_len();
    let mut i: usize = 0;
    assert(t@.subrange(0, n as int) =~= t@);
    while i < n && t.get_char(i) == '_'
        invariant
            i <= n,
            n == t@.len(),
            strip_leading_underscores(t@) == strip_leading_underscores(t@.subrange(i as int, n as int)),
        decreases n - i,
    {
        assert(t@.subrange(i as int, n as int).drop_first() =~= t@.subrange(i + 1, n as int));
        i = i + 1;
    }
    let mut j: usize = n;
    while j > i && t.get_char(j - 1) == '_'
        invariant
            i <= j <= n,
            n == t@.len(),
            strip_leading_underscores(t@) == t@.subrange(i as int, n as int),
            strip_trailing_underscores(t@.subrange(i as int, n as int)) == strip_trailing_underscores(
                t@.subrange(i as int, j as int),
            ),
        decreases j,
    {
        assert(t@.subrange(i as int, j as int).drop_last() =~= t@.subrange(i as int, j - 1));
        j = j - 1;
    }
    to_owned_string(substring(t, i, j))
}

/// The canonical token of a value (see [`canonical_token`]).
pub fn canonicalize_token(value: &str) -> (r: String)
    ensures
        r@ == canonical_token(value@),
{
    let s = trim(value);
    let n = s.unicode_len();
    let mut token = String::new();
    let mut prev_lower = false;
    let mut i: usize = 0;
    while i < n
        invariant
            i <= n,
            n == s@.len(),
            s@ == trim_spec(value@),
            canon_from(s@, 0, Seq::empty(), false) == canon_from(s@, i as int, token@, prev_lower),
        decreases n - i,
    {
        let c = s.get_char(i);
        let tn = token.as_str().unicode_len();
        let ends_us = tn > 0 && token.as_str().get_char(tn - 1) == '_';
        assert(ends_us == ends_with_underscore(token@));
        if is_ascii_whitespace(c) || c == '-' || c == '_' {
            if !ends_us {
                push_char(&mut token, '_');
            }
            prev_lower = false;
        } else if 'A' <= c && c <= 'Z' {
            if prev_lower && !ends_us {
                push_char(&mut token, '_');
            }
            push_char(&mut token, ascii_lower(c));
            prev_lower = false;
        } else {
            push_char(&mut token, ascii_lower(c));
            prev_lower = true;
        }
        i = i + 1;
    }
    strip_underscores(token.as_str())
}

/// Flags of a non-player character.
#[derive(Debug, Clone, Copy, PartialEq, Eq, Structural)]
pub enum NpcFlag {
    TutorialNpc,
    QuestGiver,
    Vendor,
    Guard,
    Immortal,
}

/// The flag a token names.
pub open spec fn npc_flag_spec(t: Seq<char>) -> Option<NpcFlag> {
    if t == "tutorial_npc"@ {
        Some(NpcFlag::TutorialNpc)
    } else if t == "quest_giver"@ {
        Some(NpcFlag::QuestGiver)
    } else if t == "vendor"@ {
        Some(NpcFlag::Vendor)
    } else if t == "guard"@ {
        Some(NpcFlag::Guard)
    } else if t == "immortal"@ {
        Some(NpcFlag::Immortal)
    } else {
        None
    }
}

/// The NPC flag a value names, in any spelling.
pub fn parse_npc_flag_str(value: &str) -> (r: Option<NpcFlag>)
    ensures
        r == npc_flag_spec(canonical_token(value@)),
{
    let t = canonicalize_token(value);
    let t = t.as_str();
    if str_eq(t, "tutorial_npc") {
        Some(NpcFlag::TutorialNpc)
    } else if str_eq(t, "quest_giver") {
        Some(NpcFlag::QuestGiver)
    } else if str_eq(t, "vendor") {
        Some(NpcFlag::Vendor)
    } else if str_eq(t, "guard") {
        Some(NpcFlag::Guard)
    } else if str_eq(t, "immortal") {
        Some(NpcFlag::Immortal)
    } else {
        None
    }
}

/// Who owns a room.
#[derive(Debug, Clone)]
pub enum RoomOwner {
    World,
    Player { username: String },
}

/// The owner a trimmed value names: the world, or a player named after an
/// optional `player:` or `player/` prefix (any case).
pub open spec fn room_owner_spec(text: Seq<char>) -> Result<Option<Seq<char>>, Seq<char>> {
    let t = trim_spec(text);
    if t.len() == 0 {
        Err("Room owner cannot be blank"@)
    } else if canonical_token(t) == "world"@ {
        Ok(None)
    } else {
        let lower = ascii_lower_seq(t);
        let name = if t.len() >= 7 && (lower.take(7) == "player:"@ || lower.take(7) == "player/"@) {
            trim_spec(t.skip(7))
        } else {
            t
        };
        if name.len() == 0 {
            Err("Player owner username cannot be blank"@)
        } else {
            Ok(Some(name))
        }
    }
}

/// The owner a value names (see [`room_owner_spec`]).
pub fn parse_room_owner_str(text: &str) -> (r: Result<RoomOwner, TinymushApiError>)
    ensures
        match room_owner_spec(text@) {
            Ok(None) => r matches Ok(RoomOwner::World),
            Ok(Some(name)) => r matches Ok(RoomOwner::Player { username }) && username@ == name,
            Err(m) => r matches Err(TinymushApiError::Validation(x)) && x@ == m,
        },
{
    let t = trim(text);
    let n = t.unicode_len();
    if n == 0 {
        return Err(validation(to_owned_string("Room owner cannot be blank")));
    }
    let canon = canonicalize_token(t);
    proof {
        lemma_trim_idempotent(text@);
    }
    if str_eq(canon.as_str(), "world") {
        return Ok(RoomOwner::World);
    }
    let lower = to_ascii_lowercase(t);
    let name = if n >= 7 && (starts_with(lower.as_str(), "player:") || starts_with(lower.as_str(), "player/")) {
        proof {
            reveal_strlit("player:");
            reveal_strlit("player/");
            assert(lower@.subrange(0, 7) =~= lower@.take(7));
        }
        let rest = substring(t, 7, n);
        assert(rest@ =~= t@.skip(7));
        trim(rest)
    } else {
        proof {
            reveal_strlit("player:");
            reveal_strlit("player/");
            if t@.len() >= 7 {
                assert(lower@.subrange(0, 7) =~= lower@.take(7));
            }
        }
        t
    };
    if name.unicode_len() == 0 {
        return Err(validation(to_owned_string("Player owner username cannot be blank")));
    }
    Ok(RoomOwner::Player { username: to_owned_string(name) })
}

/// Trimming twice is trimming once.
pub proof fn lemma_trim_idempotent(s: Seq<char>)
    ensures
        trim_spec(trim_spec(s)) == trim_spec(s),
{
    lemma_trim_start_result(s);
    let a = crate::text::trim_start_spec(s);
    lemma_trim_end_result(a);
    let b = crate::text::trim_end_spec(a);
    lemma_trim_end_keeps_start(a);
    assert(crate::text::trim_start_spec(b) == b);
    lemma_trim_end_result(b);
}

proof fn lemma_trim_start_result(s: Seq<char>)
    ensures
        crate::text::trim_start_spec(s).len() == 0 || !crate::text::is_whitespace_spec(crate::text::trim_start_spec(s)[0]),
    decreases s.len(),
{
    if s.len() > 0 && crate::text::is_whitespace_spec(s[0]) {
        lemma_trim_start_result(s.drop_first());
    }
}

proof fn lemma_trim_end_result(s: Seq<char>)
    ensures
        crate::text::trim_end_spec(s).len() == 0 || !crate::text::is_whitespace_spec(crate::text::trim_end_spec(s).last()),
        crate::text::trim_end_spec(crate::text::trim_end_spec(s)) == crate::text::trim_end_spec(s),
    decreases s.len(),
{
    if s.len() > 0 && crate::text::is_whitespace_spec(s.last()) {
        lemma_trim_end_result(s.drop_last());
    }
}

proof fn lemma_trim_end_keeps_start(s: Seq<char>)
    requires
        s.len() == 0 || !crate::text::is_whitespace_spec(s[0]),
    ensures
        crate::text::trim_start_spec(crate::text::trim_end_spec(s)) == crate::text::trim_end_spec(s),
    decreases s.len(),
{
    if s.len() > 0 && crate::text::is_whitespace_spec(s.last()) {
        if s.len() > 1 {
            assert(s.drop_last()[0] == s[0]);
        }
        lemma_trim_end_keeps_start(s.drop_last());
    }
}

/// Who can see a room.
#[derive(Debug, Clone, Copy, PartialEq, Eq, Structural)]
pub enum RoomVisibility {
    Public,
    Private,
    Hidden,
}

/// The visibility a canonical token names.
pub open spec fn room_visibility_spec(t: Seq<char>) -> Option<RoomVisibility> {
    if t == "public"@ {
        Some(RoomVisibility::Public)
    } else if t == "private"@ {
        Some(RoomVisibility::Private)
    } else if t == "hidden"@ {
        Some(RoomVisibility::Hidden)
    } else {
        None
    }
}

/// The visibility a value names, in any spelling.
pub fn parse_room_visibility_str(text: &str) -> (r: Option<RoomVisibility>)
    ensures
        r == room_visibility_spec(canonical_token(text@)),
{
    let t = canonicalize_token(text);
    let t = t.as_str();
    if str_eq(t, "public") {
        Some(RoomVisibility::Public)
    } else if str_eq(t, "private") {
        Some(RoomVisibility::Private)
    } else if str_eq(t, "hidden") {
        Some(RoomVisibility::Hidden)
    } else {
        None
    }
}

/// A direction of travel between rooms.
#[derive(Debug, Clone, Copy, PartialEq, Eq, Structural)]
pub enum Direction {
    North,
    South,
    East,
    West,
    Up,
    Down,
    Northeast,
    Northwest,
    Southeast,
    Southwest,
}

/// The direction a canonical token names.
pub open spec fn direction_spec(t: Seq<char>) -> Option<Direction> {
    if t == "north"@ || t == "n"@ {
        Some(Direction::North)
    } else if t == "south"@ || t == "s"@ {
        Some(Direction::South)
    } else if t == "east"@ || t == "e"@ {
        Some(Direction::East)
    } else if t == "west"@ || t == "w"@ {
        Some(Direction::West)
    } else if t == "up"@ || t == "u"@ {
        Some(Direction::Up)
    } else if t == "down"@ || t == "d"@ {
        Some(Direction::Down)
    } else if t == "northeast"@ || t == "ne"@ {
        Some(Direction::Northeast)
    } else if t == "northwest"@ || t == "nw"@ {
        Some(Direction::Northwest)
    } else if t == "southeast"@ || t == "se"@ {
        Some(Direction::Southeast)
    } else if t == "southwest"@ || t == "sw"@ {
        Some(Direction::Southwest)
    } else {
        None
    }
}

/// The direction a value names, in any spelling.
pub fn parse_direction(text: &str) -> (r: Option<Direction>)
    ensures
        r == direction_spec(canonical_token(text@)),
{
    let t = canonicalize_token(text);
    let t = t.as_str();
    if str_eq(t, "north") || str_eq(t, "n") {
        Some(Direction::North)
    } else if str_eq(t, "south") || str_eq(t, "s") {
        Some(Direction::South)
    } else if str_eq(t, "east") || str_eq(t, "e") {
        Some(Direction::East)
    } else if str_eq(t, "west") || str_eq(t, "w") {
        Some(Direction::West)
    } else if str_eq(t, "up") || str_eq(t, "u") {
        Some(Direction::Up)
    } else if str_eq(t, "down") || str_eq(t, "d") {
        Some(Direction::Down)
    } else if str_eq(t, "northeast") || str_eq(t, "ne") {
        Some(Direction::Northeast)
    } else if str_eq(t, "northwest") || str_eq(t, "nw") {
        Some(Direction::Northwest)
    } else if str_eq(t, "southeast") || str_eq(t, "se") {
        Some(Direction::Southeast)
    } else if str_eq(t, "southwest") || str_eq(t, "sw") {
        Some(Direction::Southwest)
    } else {
        None
    }
}

/// A property of a room.
#[derive(Debug, Clone, Copy, PartialEq, Eq, Structural)]
pub enum RoomFlag {
    Safe,
    Dark,
    Indoor,
    Shop,
    QuestLocation,
    PvpEnabled,
    PlayerCreated,
    Private,
    Moderated,
    Instanced,
    Crowded,
    HousingOffice,
    NoTeleportOut,
}

/// The room flag a canonical token names.
pub open spec fn room_flag_spec(t: Seq<char>) -> Option<RoomFlag> {
    if t == "safe"@ {
        Some(RoomFlag::Safe)
    } else if t == "dark"@ {
        Some(RoomFlag::Dark)
    } else if t == "indoor"@ {
        Some(RoomFlag::Indoor)
    } else if t == "shop"@ {
        Some(RoomFlag::Shop)
    } else if t == "quest_location"@ {
        Some(RoomFlag::QuestLocation)
    } else if t == "pvp_enabled"@ {
        Some(RoomFlag::PvpEnabled)
    } else if t == "player_created"@ {
        Some(RoomFlag::PlayerCreated)
    } else if t == "private"@ {
        Some(RoomFlag::Private)
    } else if t == "moderated"@ {
        Some(RoomFlag::Moderated)
    } else if t == "instanced"@ {
        Some(RoomFlag::Instanced)
    } else if t == "crowded"@ {
        Some(RoomFlag::Crowded)
    } else if t == "housing_office"@ {
        Some(RoomFlag::HousingOffice)
    } else if t == "no_teleport_out"@ {
        Some(RoomFlag::NoTeleportOut)
    } else {
        None
    }
}

/// The room flag a value names, in any spelling.
pub fn parse_room_flag_str(text: &str) -> (r: Option<RoomFlag>)
    ensures
        r == room_flag_spec(canonical_token(text@)),
{
    let t = canonicalize_token(text);
    let t = t.as_str();
    if str_eq(t, "safe") {
        Some(RoomFlag::Safe)
    } else if str_eq(t, "dark") {
        Some(RoomFlag::Dark)
    } else if str_eq(t, "indoor") {
        Some(RoomFlag::Indoor)
    } else if str_eq(t, "shop") {
        Some(RoomFlag::Shop)
    } else if str_eq(t, "quest_location") {
        Some(RoomFlag::QuestLocation)
    } else if str_eq(t, "pvp_enabled") {
        Some(RoomFlag::PvpEnabled)
    } else if str_eq(t, "player_created") {
        Some(RoomFlag::PlayerCreated)
    } else if str_eq(t, "private") {
        Some(RoomFlag::Private)
    } else if str_eq(t, "moderated") {
        Some(RoomFlag::Moderated)
    } else if str_eq(t, "instanced") {
        Some(RoomFlag::Instanced)
    } else if str_eq(t, "crowded") {
        Some(RoomFlag::Crowded)
    } else if str_eq(t, "housing_office") {
        Some(RoomFlag::HousingOffice)
    } else if str_eq(t, "no_teleport_out") {
        Some(RoomFlag::NoTeleportOut)
    } else {
        None
    }
}

/// The kind of a companion.
#[derive(Debug, Clone, Copy, PartialEq, Eq, Structural)]
pub enum CompanionType {
    Horse,
    Dog,
    Cat,
    Familiar,
    Mercenary,
    Construct,
}

/// The companion type a canonical token names.
pub open spec fn companion_type_spec(t: Seq<char>) -> Option<CompanionType> {
    if t == "horse"@ {
        Some(CompanionType::Horse)
    } else if t == "dog"@ {
        Some(CompanionType::Dog)
    } else if t == "cat"@ {
        Some(CompanionType::Cat)
    } else if t == "familiar"@ {
        Some(CompanionType::Familiar)
    } else if t == "mercenary"@ {
        Some(CompanionType::Mercenary)
    } else if t == "construct"@ {
        Some(CompanionType::Construct)
    } else {
        None
    }
}

/// The companion type a value names, in any spelling.
pub fn parse_companion_type_str(text: &str) -> (r: Option<CompanionType>)
    ensures
        r == companion_type_spec(canonical_token(text@)),
{
    let t = canonicalize_token(text);
    let t = t.as_str();
    if str_eq(t, "horse") {
        Some(CompanionType::Horse)
    } else if str_eq(t, "dog") {
        Some(CompanionType::Dog)
    } else if str_eq(t, "cat") {
        Some(CompanionType::Cat)
    } else if str_eq(t, "familiar") {
        Some(CompanionType::Familiar)
    } else if str_eq(t, "mercenary") {
        Some(CompanionType::Mercenary)
    } else if str_eq(t, "construct") {
        Some(CompanionType::Construct)
    } else {
        None
    }
}

/// The category of an achievement.
#[derive(Debug, Clone, Copy, PartialEq, Eq, Structural)]
pub enum AchievementCategory {
    Combat,
    Exploration,
    Social,
    Economic,
    Quest,
    Special,
    Crafting,
}

/// The achievement category a canonical token names.
pub open spec fn achievement_category_spec(t: Seq<char>) -> Option<AchievementCategory> {
    if t == "combat"@ {
        Some(AchievementCategory::Combat)
    } else if t == "exploration"@ {
        Some(AchievementCategory::Exploration)
    } else if t == "social"@ {
        Some(AchievementCategory::Social)
    } else if t == "economic"@ {
        Some(AchievementCategory::Economic)
    } else if t == "quest"@ {
        Some(AchievementCategory::Quest)
    } else if t == "special"@ {
        Some(AchievementCategory::Special)
    } else if t == "crafting"@ {
        Some(AchievementCategory::Crafting)
    } else {
        None
    }
}

/// The achievement category a value names, in any spelling.
pub fn parse_achievement_category_str(text: &str) -> (r: Option<AchievementCategory>)
    ensures
        r == achievement_category_spec(canonical_token(text@)),
{
    let t = canonicalize_token(text);
    let t = t.as_str();
    if str_eq(t, "combat") {
        Some(AchievementCategory::Combat)
    } else if str_eq(t, "exploration") {
        Some(AchievementCategory::Exploration)
    } else if str_eq(t, "social") {
        Some(AchievementCategory::Social)
    } else if str_eq(t, "economic") {
        Some(AchievementCategory::Economic)
    } else if str_eq(t, "quest") {
        Some(AchievementCategory::Quest)
    } else if str_eq(t, "special") {
        Some(AchievementCategory::Special)
    } else if str_eq(t, "crafting") {
        Some(AchievementCategory::Crafting)
    } else {
        None
    }
}

/// The collections the editor serves.
#[derive(Debug, Clone, Copy, PartialEq, Eq, Structural)]
pub enum TinyMushCollection {
    Npcs,
    Rooms,
    Companions,
    Achievements,
    Quests,
    Recipes,
}

/// The name of a collection.
pub open spec fn collection_name(c: TinyMushCollection) -> Seq<char> {
    match c {
        TinyMushCollection::Npcs => "npcs"@,
        TinyMushCollection::Rooms => "rooms"@,
        TinyMushCollection::Companions => "companions"@,
        TinyMushCollection::Achievements => "achievements"@,
        TinyMushCollection::Quests => "quests"@,
        TinyMushCollection::Recipes => "recipes"@,
    }
}

/// The collection a lower-cased name denotes.
pub open spec fn collection_spec(name: Seq<char>) -> Option<TinyMushCollection> {
    if name == "npcs"@ {
        Some(TinyMushCollection::Npcs)
    } else if name == "rooms"@ {
        Some(TinyMushCollection::Rooms)
    } else if name == "companions"@ {
        Some(TinyMushCollection::Companions)
    } else if name == "achievements"@ {
        Some(TinyMushCollection::Achievements)
    } else if name == "quests"@ {
        Some(TinyMushCollection::Quests)
    } else if name == "recipes"@ {
        Some(TinyMushCollection::Recipes)
    } else {
        None
    }
}

impl TinyMushCollection {
    /// The collection a name denotes, trimmed and in any ASCII case.
    pub fn from(value: &str) -> (r: Option<Self>)
        ensures
            r == collection_spec(ascii_lower_seq(trim_spec(value@))),
    {
        let l = to_ascii_lowercase(trim(value));
        let t = l.as_str();
        if str_eq(t, "npcs") {
            Some(TinyMushCollection::Npcs)
        } else if str_eq(t, "rooms") {
            Some(TinyMushCollection::Rooms)
        } else if str_eq(t, "companions") {
            Some(TinyMushCollection::Companions)
        } else if str_eq(t, "achievements") {
            Some(TinyMushCollection::Achievements)
        } else if str_eq(t, "quests") {
            Some(TinyMushCollection::Quests)
        } else if str_eq(t, "recipes") {
            Some(TinyMushCollection::Recipes)
        } else {
            None
        }
    }

    /// The name of the collection.
    pub fn as_str(self) -> (r: &'static str)
        ensures
            r@ == collection_name(self),
    {
        match self {
            TinyMushCollection::Npcs => "npcs",
            TinyMushCollection::Rooms => "rooms",
            TinyMushCollection::Companions => "companions",
            TinyMushCollection::Achievements => "achievements",
            TinyMushCollection::Quests => "quests",
            TinyMushCollection::Recipes => "recipes",
        }
    }
}

/// A material quantity as the editor receives it.
#[derive(Debug, Clone)]
pub enum QuantityValue {
    /// A JSON number: its value when it is a non-negative integer, else `None`.
    Number(Option<u64>),
    /// A JSON string.
    Text(String),
    /// Any other JSON value.
    Other,
}

/// The quantity a value gives, or the message it is refused with: a whole
/// number from 1 to 4294967295, or a string holding one.
pub open spec fn quantity_spec(v: QuantityValue) -> Result<u32, Seq<char>> {
    match v {
        QuantityValue::Number(None) => Err("Recipe material quantity must be a positive integer"@),
        QuantityValue::Number(Some(n)) => if n == 0 || n > u32::MAX {
            Err("Recipe material quantity must be between 1 and 4294967295"@)
        } else {
            Ok(n as u32)
        },
        QuantityValue::Text(t) => {
            let tr = trim_spec(t@);
            if tr.len() == 0 {
                Err("Recipe material quantity cannot be blank"@)
            } else {
                match parse_u32_spec(tr) {
                    None => Err("Invalid recipe material quantity '"@ + tr + "'"@),
                    Some(0) => Err("Recipe material quantity must be at least 1"@),
                    Some(n) => Ok(n),
                }
            }
        },
        QuantityValue::Other => Err("Recipe material quantity must be a positive integer"@),
    }
}

/// Reads a material quantity (see [`quantity_spec`]).
pub fn parse_recipe_material_quantity(value: QuantityValue) -> (r: Result<u32, TinymushApiError>)
    ensures
        match quantity_spec(value) {
            Ok(n) => r == Ok::<u32, TinymushApiError>(n),
            Err(m) => r matches Err(TinymushApiError::Validation(x)) && x@ == m,
        },
{
    match value {
        QuantityValue::Number(None) => Err(validation(to_owned_string("Recipe material quantity must be a positive integer"))),
        QuantityValue::Number(Some(n)) => {
            if n == 0 || n > u32::MAX as u64 {
                return Err(validation(to_owned_string("Recipe material quantity must be between 1 and 4294967295")));
            }
            Ok(n as u32)
        },
        QuantityValue::Text(t) => {
            let tr = trim(t.as_str());
            if tr.unicode_len() == 0 {
                return Err(validation(to_owned_string("Recipe material quantity cannot be blank")));
            }
            match parse_u32(tr) {
                None => Err(validation(field_message("Invalid recipe material quantity '", tr, "'"))),
                Some(n) => {
                    if n == 0 {
                        return Err(validation(to_owned_string("Recipe material quantity must be at least 1")));
                    }
                    Ok(n)
                },
            }
        },
        QuantityValue::Other => Err(validation(to_owned_string("Recipe material quantity must be a positive integer"))),
    }
}

/// The id an edit of a `kind` record (`NPC`, `room`, `companion`,
/// `achievement`, `quest`, `recipe`) works on, or the message it is refused
/// with: the submitted id is required and must not be blank once trimmed, and
/// an existing record keeps its id.
pub open spec fn edit_id_spec(kind: Seq<char>, raw_id: Option<Seq<char>>, existing_id: Option<Seq<char>>) -> Result<Seq<char>, Seq<char>> {
    match raw_id {
        None => Err("Field 'id' is required for TinyMUSH editing"@),
        Some(raw) => {
            let id = trim_spec(raw);
            if id.len() == 0 {
                Err("Field 'id' cannot be empty"@)
            } else {
                match existing_id {
                    Some(old) => if old != id {
                        Err("Cannot change "@ + kind + " id from '"@ + old + "' to '"@ + id + "'"@)
                    } else {
                        Ok(id)
                    },
                    None => Ok(id),
                }
            }
        },
    }
}

/// Checks the id of an edit (see [`edit_id_spec`]).
pub fn edit_target_id(kind: &str, raw_id: Option<String>, existing_id: Option<&str>) -> (r: Result<String, TinymushApiError>)
    ensures
        match edit_id_spec(kind@, match raw_id { Some(x) => Some(x@), None => None },
            match existing_id { Some(x) => Some(x@), None => None }) {
            Ok(id) => r matches Ok(x) && x@ == id,
            Err(m) => r matches Err(TinymushApiError::Validation(x)) && x@ == m,
        },
{
    proof {
        reveal_strlit("id");
        reveal_strlit("Field '");
        reveal_strlit("' is required for TinyMUSH editing");
        reveal_strlit("Field 'id' is required for TinyMUSH editing");
        reveal_strlit("' cannot be empty");
        reveal_strlit("Field 'id' cannot be empty");
        assert("Field '"@ + "id"@ + "' is required for TinyMUSH editing"@ =~= "Field 'id' is required for TinyMUSH editing"@);
        assert("Field '"@ + "id"@ + "' cannot be empty"@ =~= "Field 'id' cannot be empty"@);
    }
    let raw = require_field(raw_id, "id")?;
    let id = normalize_identifier("id", raw.as_str())?;
    match existing_id {
        Some(old) => {
            if !str_eq(old, id.as_str()) {
                let mut m = to_owned_string("Cannot change ");
                push_str(&mut m, kind);
                push_str(&mut m, " id from '");
                push_str(&mut m, old);
                push_str(&mut m, "' to '");
                push_str(&mut m, id.as_str());
                push_str(&mut m, "'");
                return Err(validation(m));
            }
            Ok(id)
        },
        None => Ok(id),
    }
}

/// One ingredient of a crafting recipe.
#[derive(Debug, Clone)]
pub struct RecipeMaterial {
    pub item_id: String,
    pub quantity: u32,
}

/// The fault of the material at `i` of a recipe whose earlier materials
/// passed: an item id that is blank once trimmed, a quantity of 0, or an item
/// id that an earlier material has already used.
pub open spec fn material_fault(ms: Seq<RecipeMaterial>, i: int) -> Option<Seq<char>> {
    let id = trim_spec(ms[i].item_id@);
    if id.len() == 0 {
        Some("Field 'materials.item_id' cannot be empty"@)
    } else if ms[i].quantity == 0 {
        Some("Material '"@ + id + "' must have quantity at least 1"@)
    } else if exists|j: int| 0 <= j < i && #[trigger] trim_spec(ms[j].item_id@) == id {
        Some("Duplicate material '"@ + id + "' specified"@)
    } else {
        None
    }
}

/// The first fault among the materials from `i` on.
pub open spec fn first_material_fault(ms: Seq<RecipeMaterial>, i: int) -> Option<Seq<char>>
    decreases ms.len() - i,
{
    if i < 0 || i >= ms.len() {
        None
    } else if material_fault(ms, i) is Some {
        material_fault(ms, i)
    } else {
        first_material_fault(ms, i + 1)
    }
}

/// When no material before `i` has a fault, the first fault from the start is
/// the first one from `i`.
proof fn lemma_first_fault_skip(ms: Seq<RecipeMaterial>, i: int)
    requires
        0 <= i <= ms.len(),
        forall|j: int| 0 <= j < i ==> #[trigger] material_fault(ms, j) is None,
    ensures
        first_material_fault(ms, 0) == first_material_fault(ms, i),
    decreases i,
{
    if i > 0 {
        lemma_first_fault_skip(ms, i - 1);
    }
}

/// The materials of a recipe with their item ids trimmed; refused when there
/// are none, or at the first material with a fault (see [`material_fault`]).
pub fn normalize_recipe_materials(materials: Vec<RecipeMaterial>) -> (r: Result<Vec<RecipeMaterial>, TinymushApiError>)
    ensures
        materials@.len() == 0 ==> (r matches Err(TinymushApiError::Validation(m))
            && m@ == "Recipes must include at least one material"@),
        materials@.len() > 0 ==> match first_material_fault(materials@, 0) {
            Some(f) => r matches Err(TinymushApiError::Validation(m)) && m@ == f,
            None => r matches Ok(out) && out@.len() == materials@.len() && forall|i: int| 0 <= i < out@.len()
                ==> (#[trigger] out@[i]).item_id@ == trim_spec(materials@[i].item_id@)
                && out@[i].quantity == materials@[i].quantity,
        },
{
    if materials.len() == 0 {
        return Err(validation(to_owned_string("Recipes must include at least one material")));
    }
    let mut out: Vec<RecipeMaterial> = Vec::new();
    let mut seen: Vec<String> = Vec::new();
    let mut i: usize = 0;
    while i < materials.len()
        invariant
            i <= materials@.len(),
            out@.len() == i,
            seen@.len() == i,
            forall|j: int| 0 <= j < i ==> (#[trigger] out@[j]).item_id@ == trim_spec(materials@[j].item_id@)
                && out@[j].quantity == materials@[j].quantity,
            forall|j: int| 0 <= j < i ==> (#[trigger] seen@[j])@ == trim_spec(materials@[j].item_id@),
            forall|j: int| 0 <= j < i ==> #[trigger] material_fault(materials@, j) is None,
        decreases materials@.len() - i,
    {
        let m = &materials[i];
        let id = match normalize_identifier("materials.item_id", m.item_id.as_str()) {
            Ok(id) => id,
            Err(e) => {
                proof {
                    reveal_strlit("materials.item_id");
                    reveal_strlit("Field '");
                    reveal_strlit("' cannot be empty");
                    reveal_strlit("Field 'materials.item_id' cannot be empty");
                    assert("Field '"@ + "materials.item_id"@ + "' cannot be empty"@
                        =~= "Field 'materials.item_id' cannot be empty"@);
                    lemma_first_fault_skip(materials@, i as int);
                }
                return Err(e);
            },
        };
        if m.quantity == 0 {
            proof {
                lemma_first_fault_skip(materials@, i as int);
            }
            return Err(validation(field_message("Material '", id.as_str(), "' must have quantity at least 1")));
        }
        if holds_text(&seen, id.as_str()) {
            proof {
                let j = choose|j: int| 0 <= j < seen@.len() && #[trigger] seen@[j]@ == id@;
                assert(trim_spec(materials@[j].item_id@) == id@);
                lemma_first_fault_skip(materials@, i as int);
            }
            return Err(validation(field_message("Duplicate material '", id.as_str(), "' specified")));
        }
        proof {
            assert forall|j: int| 0 <= j < i implies #[trigger] trim_spec(materials@[j].item_id@) != id@ by {
                assert(seen@[j]@ == trim_spec(materials@[j].item_id@));
            }
            assert(material_fault(materials@, i as int) is None);
        }
        seen.push(id.clone());
        out.push(RecipeMaterial { item_id: id, quantity: m.quantity });
        i = i + 1;
    }
    proof {
        lemma_first_fault_skip(materials@, i as int);
    }
    Ok(out)
}

/// `s` with every element that already occurred earlier left out: the first
/// occurrence of each stays, in order.
pub open spec fn first_occurrences<T>(s: Seq<T>) -> Seq<T>
    decreases s.len(),
{
    if s.len() == 0 {
        s
    } else if s.drop_last().contains(s.last()) {
        first_occurrences(s.drop_last())
    } else {
        first_occurrences(s.drop_last()).push(s.last())
    }
}

/// Room flags without repeats, each kept where it first occurs.
pub fn dedupe_room_flags(flags: Vec<RoomFlag>) -> (r: Vec<RoomFlag>)
    ensures
        r@ == first_occurrences(flags@),
{
    let mut out: Vec<RoomFlag> = Vec::new();
    let mut i: usize = 0;
    while i < flags.len()
        invariant
            i <= flags@.len(),
            out@ == first_occurrences(flags@.take(i as int)),
        decreases flags@.len() - i,
    {
        let f = flags[i];
        let mut seen = false;
        let mut j: usize = 0;
        while j < i
            invariant
                j <= i < flags@.len(),
                seen == exists|k: int| 0 <= k < j && flags@[k] == f,
            decreases i - j,
        {
            if flags[j] == f {
                seen = true;
            }
            j = j + 1;
        }
        proof {
            let next = flags@.take(i + 1);
            assert(next.drop_last() =~= flags@.take(i as int));
            assert(next.last() == f);
            if seen {
                let k = choose|k: int| 0 <= k < i && flags@[k] == f;
                assert(flags@.take(i as int)[k] == f);
            } else {
                assert forall|k: int| 0 <= k < i implies flags@.take(i as int)[k] != f by {
                    assert(flags@.take(i as int)[k] == flags@[k]);
                }
            }
        }
        if !seen {
            out.push(f);
        }
        i = i + 1;
    }
    assert(flags@.take(flags@.len() as int) =~= flags@);
    out
}

/// NPC flags without repeats, each kept where it first occurs.
pub fn dedupe_npc_flags(flags: Vec<NpcFlag>) -> (r: Vec<NpcFlag>)
    ensures
        r@ == first_occurrences(flags@),
{
    let mut out: Vec<NpcFlag> = Vec::new();
    let mut i: usize = 0;
    while i < flags.len()
        invariant
            i <= flags@.len(),
            out@ == first_occurrences(flags@.take(i as int)),
        decreases flags@.len() - i,
    {
        let f = flags[i];
        let mut seen = false;
        let mut j: usize = 0;
        while j < i
            invariant
                j <= i < flags@.len(),
                seen == exists|k: int| 0 <= k < j && flags@[k] == f,
            decreases i - j,
        {
            if flags[j] == f {
                seen = true;
            }
            j = j + 1;
        }
        proof {
            let next = flags@.take(i + 1);
            assert(next.drop_last() =~= flags@.take(i as int));
            assert(next.last() == f);
            if seen {
                let k = choose|k: int| 0 <= k < i && flags@[k] == f;
                assert(flags@.take(i as int)[k] == f);
            } else {
                assert forall|k: int| 0 <= k < i implies flags@.take(i as int)[k] != f by {
                    assert(flags@.take(i as int)[k] == flags@[k]);
                }
            }
        }
        if !seen {
            out.push(f);
        }
        i = i + 1;
    }
    assert(flags@.take(flags@.len() as int) =~= flags@);
    out
}

/// The entries with surrounding whitespace removed, blank ones left out.
pub open spec fn cleaned_entries(s: Seq<Seq<char>>) -> Seq<Seq<char>>
    decreases s.len(),
{
    if s.len() == 0 {
        Seq::empty()
    } else if trim_spec(s.last()).len() == 0 {
        cleaned_entries(s.drop_last())
    } else {
        cleaned_entries(s.drop_last()).push(trim_spec(s.last()))
    }
}

/// A room's items or housing tags as the editor stores them: trimmed, blank
/// ones left out.
pub fn clean_entries(entries: Vec<String>) -> (r: Vec<String>)
    ensures
        crate::text::string_views(r@) == cleaned_entries(crate::text::string_views(entries@)),
{
    let ghost views = crate::text::string_views(entries@);
    let mut out: Vec<String> = Vec::new();
    let mut i: usize = 0;
    while i < entries.len()
        invariant
            i <= entries@.len(),
            views == crate::text::string_views(entries@),
            crate::text::string_views(out@) == cleaned_entries(views.take(i as int)),
        decreases entries@.len() - i,
    {
        let t = trim(entries[i].as_str());
        proof {
            assert(views.take(i + 1).drop_last() =~= views.take(i as int));
            assert(views[i as int] == entries@[i as int]@);
        }
        if t.unicode_len() > 0 {
            let ghost before = out@;
            out.push(to_owned_string(t));
            assert(crate::text::string_views(out@) =~= crate::text::string_views(before).push(t@));
        }
        i = i + 1;
    }
    assert(views.take(entries@.len() as int) =~= views);
    out
}

/// A room capacity as stored: at most 65535.
pub fn clamp_capacity(capacity: u32) -> (r: u16)
    ensures
        r == if capacity > 0xFFFF { 0xFFFF } else { capacity },
{
    if capacity > 0xFFFF {
        0xFFFF
    } else {
        capacity as u16
    }
}

/// Why the TinyMUSH database could not be opened.
#[derive(Debug, Clone)]
pub enum StoreOpenError {
    /// The database engine failed, with its message.
    Engine(String),
    /// The operating system refused the lock (`WouldBlock`).
    WouldBlock,
    /// Any other failure, with its message.
    Other(String),
}

/// The message shown when the database at `path` cannot be opened: a lock
/// held by another process is named as such.
pub open spec fn open_error_text(path: Seq<char>, err: StoreOpenError) -> Seq<char> {
    match err {
        StoreOpenError::Engine(m) => if crate::text::contains_spec(m@, "could not acquire lock"@) {
            "TinyMUSH database at "@ + path
                + " is currently locked by another process. Shut down the other process or remove the stale lock file before restarting the admin dashboard."@
        } else {
            "Unable to open TinyMUSH database at "@ + path + ": "@ + m@
        },
        StoreOpenError::WouldBlock => "TinyMUSH database at "@ + path
            + " is currently locked by another process. Shut down the other process or remove the stale lock before retrying."@,
        StoreOpenError::Other(m) => "Unable to open TinyMUSH database at "@ + path + ": "@ + m@,
    }
}

/// The message shown when the database at `path` cannot be opened.
pub fn describe_tinymush_open_error(path: &str, err: &StoreOpenError) -> (r: String)
    ensures
        r@ == open_error_text(path@, *err),
{
    match err {
        StoreOpenError::Engine(m) => {
            if crate::text::contains(m.as_str(), "could not acquire lock") {
                field_message("TinyMUSH database at ", path,
                    " is currently locked by another process. Shut down the other process or remove the stale lock file before restarting the admin dashboard.")
            } else {
                let mut s = field_message("Unable to open TinyMUSH database at ", path, ": ");
                push_str(&mut s, m.as_str());
                s
            }
        },
        StoreOpenError::WouldBlock => field_message("TinyMUSH database at ", path,
            " is currently locked by another process. Shut down the other process or remove the stale lock before retrying."),
        StoreOpenError::Other(m) => {
            let mut s = field_message("Unable to open TinyMUSH database at ", path, ": ");
            push_str(&mut s, m.as_str());
            s
        },
    }
}

/// The shape of a canonical token: no ASCII capital, no ASCII whitespace or
/// hyphen, and never two underscores in a row.
pub open spec fn token_shape(t: Seq<char>) -> bool {
    &&& forall|i: int| 0 <= i < t.len() ==> !('A' <= #[trigger] t[i] && t[i] <= 'Z') && !is_ascii_whitespace_spec(t[i])
        && t[i] != '-'
    &&& forall|i: int| 0 <= i && i + 1 < t.len() ==> !(#[trigger] t[i] == '_' && t[i + 1] == '_')
}

proof fn lemma_push_separator_shape(t: Seq<char>)
    requires
        token_shape(t),
    ensures
        token_shape(push_separator(t)),
        ends_with_underscore(push_separator(t)),
{
    let u = push_separator(t);
    if !ends_with_underscore(t) {
        assert forall|i: int| 0 <= i && i + 1 < u.len() implies !(#[trigger] u[i] == '_' && u[i + 1] == '_') by {
            if i + 1 == u.len() - 1 {
                assert(u[i] == t[t.len() - 1]);
            } else {
                assert(u[i] == t[i] && u[i + 1] == t[i + 1]);
            }
        }
        assert forall|i: int| 0 <= i < u.len() implies !('A' <= #[trigger] u[i] && u[i] <= 'Z') && !is_ascii_whitespace_spec(u[i])
            && u[i] != '-' by {
            if i < t.len() {
                assert(u[i] == t[i]);
            }
        }
    }
}

proof fn lemma_push_letter_shape(t: Seq<char>, c: char)
    requires
        token_shape(t),
        !('A' <= c && c <= 'Z'),
        !is_ascii_whitespace_spec(c),
        c != '-',
        c != '_',
    ensures
        token_shape(t.push(c)),
{
    let u = t.push(c);
    assert forall|i: int| 0 <= i && i + 1 < u.len() implies !(#[trigger] u[i] == '_' && u[i + 1] == '_') by {
        if i + 1 < t.len() {
            assert(u[i] == t[i] && u[i + 1] == t[i + 1]);
        }
    }
    assert forall|i: int| 0 <= i < u.len() implies !('A' <= #[trigger] u[i] && u[i] <= 'Z') && !is_ascii_whitespace_spec(u[i])
        && u[i] != '-' by {
        if i < t.len() {
            assert(u[i] == t[i]);
        }
    }
}

proof fn lemma_canon_from_shape(s: Seq<char>, i: int, t: Seq<char>, prev_lower: bool)
    requires
        token_shape(t),
    ensures
        token_shape(canon_from(s, i, t, prev_lower)),
    decreases s.len() - i,
{
    if 0 <= i < s.len() {
        let c = s[i];
        if is_ascii_whitespace_spec(c) || c == '-' || c == '_' {
            lemma_push_separator_shape(t);
            lemma_canon_from_shape(s, i + 1, push_separator(t), false);
        } else if 'A' <= c && c <= 'Z' {
            let t2 = if prev_lower { push_separator(t) } else { t };
            lemma_push_separator_shape(t);
            let l = ascii_lower_spec(c);
            assert('a' <= l && l <= 'z') by {
                assert(l == ((c as u32) + 32) as char);
            }
            lemma_push_letter_shape(t2, l);
            lemma_canon_from_shape(s, i + 1, t2.push(l), false);
        } else {
            assert(ascii_lower_spec(c) == c);
            lemma_push_letter_shape(t, c);
            lemma_canon_from_shape(s, i + 1, t.push(c), true);
        }
    }
}

proof fn lemma_subrange_shape(t: Seq<char>, a: int, b: int)
    requires
        token_shape(t),
        0 <= a <= b <= t.len(),
    ensures
        token_shape(t.subrange(a, b)),
{
    let u = t.subrange(a, b);
    assert forall|i: int| 0 <= i && i + 1 < u.len() implies !(#[trigger] u[i] == '_' && u[i + 1] == '_') by {
        assert(u[i] == t[a + i] && u[i + 1] == t[a + i + 1]);
    }
    assert forall|i: int| 0 <= i < u.len() implies !('A' <= #[trigger] u[i] && u[i] <= 'Z') && !is_ascii_whitespace_spec(u[i])
        && u[i] != '-' by {
        assert(u[i] == t[a + i]);
    }
}

proof fn lemma_strip_leading(t: Seq<char>)
    ensures
        exists|a: int| 0 <= a <= t.len() && strip_leading_underscores(t) == #[trigger] t.subrange(a, t.len() as int),
        strip_leading_underscores(t).len() == 0 || strip_leading_underscores(t)[0] != '_',
    decreases t.len(),
{
    if t.len() > 0 && t[0] == '_' {
        lemma_strip_leading(t.drop_first());
        let a = choose|a: int| 0 <= a <= t.drop_first().len() && strip_leading_underscores(t.drop_first())
            == #[trigger] t.drop_first().subrange(a, t.drop_first().len() as int);
        assert(t.drop_first().subrange(a, t.drop_first().len() as int) =~= t.subrange(a + 1, t.len() as int));
    } else {
        assert(t.subrange(0, t.len() as int) =~= t);
    }
}

proof fn lemma_strip_trailing(t: Seq<char>)
    ensures
        exists|b: int| 0 <= b <= t.len() && strip_trailing_underscores(t) == #[trigger] t.subrange(0, b),
        strip_trailing_underscores(t).len() == 0 || strip_trailing_underscores(t).last() != '_',
    decreases t.len(),
{
    if t.len() > 0 && t.last() == '_' {
        lemma_strip_trailing(t.drop_last());
        let b = choose|b: int| 0 <= b <= t.drop_last().len() && strip_trailing_underscores(t.drop_last())
            == #[trigger] t.drop_last().subrange(0, b);
        assert(t.drop_last().subrange(0, b) =~= t.subrange(0, b));
    } else {
        assert(t.subrange(0, t.len() as int) =~= t);
    }
}

/// Every canonical token is lower-case as far as ASCII goes, has no ASCII
/// whitespace or hyphen, never two underscores in a row, and no underscore
/// at either end.
pub proof fn lemma_canonical_token_shape(value: Seq<char>)
    ensures
        token_shape(canonical_token(value)),
        canonical_token(value).len() == 0 || (canonical_token(value)[0] != '_' && canonical_token(value).last() != '_'),
{
    let raw = canon_from(trim_spec(value), 0, Seq::empty(), false);
    lemma_canon_from_shape(trim_spec(value), 0, Seq::empty(), false);
    lemma_strip_leading(raw);
    let lead = strip_leading_underscores(raw);
    let a = choose|a: int| 0 <= a <= raw.len() && lead == #[trigger] raw.subrange(a, raw.len() as int);
    lemma_subrange_shape(raw, a, raw.len() as int);
    lemma_strip_trailing(lead);
    let out = strip_trailing_underscores(lead);
    let b = choose|b: int| 0 <= b <= lead.len() && out == #[trigger] lead.subrange(0, b);
    lemma_subrange_shape(lead, 0, b);
    if out.len() > 0 {
        assert(out[0] == lead[0]);
    }
}

/// Reading a canonical token again from position `i` rebuilds it.
proof fn lemma_canon_fixed(t: Seq<char>, i: int, flag: bool)
    requires
        token_shape(t),
        t.len() == 0 || t[0] != '_',
        0 <= i <= t.len(),
    ensures
        canon_from(t, i, t.take(i), flag) == t,
    decreases t.len() - i,
{
    if i >= t.len() {
        assert(t.take(i) =~= t);
    } else {
        let c = t[i];
        assert(!('A' <= c && c <= 'Z') && !is_ascii_whitespace_spec(c) && c != '-');
        if c == '_' {
            assert(i > 0);
            assert(!(t[i - 1] == '_' && t[i] == '_'));
            assert(t.take(i).last() == t[i - 1]);
            assert(push_separator(t.take(i)) =~= t.take(i + 1));
            lemma_canon_fixed(t, i + 1, false);
        } else {
            assert(t.take(i).push(ascii_lower_spec(c)) =~= t.take(i + 1));
            lemma_canon_fixed(t, i + 1, true);
        }
    }
}

/// Canonicalizing is idempotent for every value whose canonical token has no
/// whitespace at either end: the token is read back as itself. (A token can
/// begin with whitespace outside ASCII, as that of `"_\u{2003}b"` does; the
/// next canonicalization trims it away.)
pub proof fn lemma_canonical_token_idempotent(value: Seq<char>)
    requires
        trim_spec(canonical_token(value)) == canonical_token(value),
    ensures
        canonical_token(canonical_token(value)) == canonical_token(value),
{
    let t = canonical_token(value);
    lemma_canonical_token_shape(value);
    lemma_canon_fixed(t, 0, false);
    assert(t.take(0) =~= Seq::<char>::empty());
}

/// Whether every whitespace character of `s` is ASCII whitespace as
/// `char::is_ascii_whitespace` counts it (so no vertical tab and no
/// whitespace beyond ASCII).
pub open spec fn only_ascii_whitespace(s: Seq<char>) -> bool {
    forall|i: int| 0 <= i < s.len() ==> #[trigger] is_whitespace_spec(s[i]) ==> is_ascii_whitespace_spec(s[i])
}

proof fn lemma_trim_keeps_plain(s: Seq<char>)
    requires
        only_ascii_whitespace(s),
    ensures
        only_ascii_whitespace(trim_start_spec(s)),
        only_ascii_whitespace(trim_end_spec(s)),
    decreases s.len(),
{
    if s.len() > 0 {
        let d = s.drop_first();
        assert forall|i: int| 0 <= i < d.len() && #[trigger] is_whitespace_spec(d[i]) implies is_ascii_whitespace_spec(d[i]) by {
            assert(d[i] == s[i + 1]);
        }
        let e = s.drop_last();
        assert forall|i: int| 0 <= i < e.len() && #[trigger] is_whitespace_spec(e[i]) implies is_ascii_whitespace_spec(e[i]) by {
            assert(e[i] == s[i]);
        }
        lemma_trim_keeps_plain(d);
        lemma_trim_keeps_plain(e);
    }
}

proof fn lemma_canon_from_no_whitespace(s: Seq<char>, i: int, t: Seq<char>, prev_lower: bool)
    requires
        only_ascii_whitespace(s),
        no_whitespace(t),
    ensures
        no_whitespace(canon_from(s, i, t, prev_lower)),
    decreases s.len() - i,
{
    if 0 <= i < s.len() {
        let c = s[i];
        if is_ascii_whitespace_spec(c) || c == '-' || c == '_' {
            let u = push_separator(t);
            assert forall|k: int| 0 <= k < u.len() implies !is_whitespace_spec(#[trigger] u[k]) by {
                if k < t.len() {
                    assert(u[k] == t[k]);
                }
            }
            lemma_canon_from_no_whitespace(s, i + 1, u, false);
        } else if 'A' <= c && c <= 'Z' {
            let t2 = if prev_lower { push_separator(t) } else { t };
            let l = ascii_lower_spec(c);
            assert('a' <= l && l <= 'z') by {
                assert(l == ((c as u32) + 32) as char);
            }
            let u = t2.push(l);
            assert forall|k: int| 0 <= k < u.len() implies !is_whitespace_spec(#[trigger] u[k]) by {
                if k < t.len() {
                    assert(u[k] == t[k]);
                }
            }
            lemma_canon_from_no_whitespace(s, i + 1, u, false);
        } else {
            assert(ascii_lower_spec(c) == c);
            assert(!is_whitespace_spec(c));
            let u = t.push(c);
            assert forall|k: int| 0 <= k < u.len() implies !is_whitespace_spec(#[trigger] u[k]) by {
                if k < t.len() {
                    assert(u[k] == t[k]);
                }
            }
            lemma_canon_from_no_whitespace(s, i + 1, u, true);
        }
    }
}

proof fn lemma_subrange_no_whitespace(t: Seq<char>, a: int, b: int)
    requires
        no_whitespace(t),
        0 <= a <= b <= t.len(),
    ensures
        no_whitespace(t.subrange(a, b)),
{
    let u = t.subrange(a, b);
    assert forall|k: int| 0 <= k < u.len() implies !is_whitespace_spec(#[trigger] u[k]) by {
        assert(u[k] == t[a + k]);
    }
}

/// Canonicalizing is idempotent for every value whose whitespace is all
/// ASCII whitespace (every ASCII value without a vertical tab among them),
/// and the token then holds no whitespace at all. With a vertical tab it
/// can fail: `"_\u{0B}b"` gives `"\u{0B}b"`, which gives `"b"`.
pub proof fn lemma_canonical_token_idempotent_plain(value: Seq<char>)
    requires
        only_ascii_whitespace(value),
    ensures
        no_whitespace(canonical_token(value)),
        canonical_token(canonical_token(value)) == canonical_token(value),
{
    let v = trim_spec(value);
    lemma_trim_keeps_plain(value);
    lemma_trim_keeps_plain(trim_start_spec(value));
    let raw = canon_from(v, 0, Seq::empty(), false);
    lemma_canon_from_no_whitespace(v, 0, Seq::empty(), false);
    lemma_strip_leading(raw);
    let lead = strip_leading_underscores(raw);
    let a = choose|a: int| 0 <= a <= raw.len() && lead == #[trigger] raw.subrange(a, raw.len() as int);
    lemma_subrange_no_whitespace(raw, a, raw.len() as int);
    lemma_strip_trailing(lead);
    let t = strip_trailing_underscores(lead);
    let b = choose|b: int| 0 <= b <= lead.len() && t == #[trigger] lead.subrange(0, b);
    lemma_subrange_no_whitespace(lead, 0, b);
    assert(t == canonical_token(value));
    if t.len() > 0 {
        assert(!is_whitespace_spec(t[0]));
        assert(!is_whitespace_spec(t.last()));
    }
    assert(trim_start_spec(t) == t);
    assert(trim_end_spec(t) == t);
    lemma_canonical_token_idempotent(value);
}

} // verus!
