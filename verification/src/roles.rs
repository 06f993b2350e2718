//! Privilege levels and their display names.
use vstd::prelude::*;

verus! {

/// Level of an ordinary registered user.
pub const LEVEL_USER: u8 = 1;
/// Level of a moderator.
pub const LEVEL_MODERATOR: u8 = 5;
/// Level of the system operator.
pub const LEVEL_SYSOP: u8 = 10;

/// Display name of a privilege level, as a sequence of characters.
pub open spec fn role_name_spec(level: u8) -> Seq<char> {
    if level == LEVEL_SYSOP {
        "Sysop"@
    } else if level == LEVEL_MODERATOR {
        "Moderator"@
    } else {
        "User"@
    }
}

/// Name of the role that a privilege level stands for.
pub fn role_name(level: u8) -> (name: &'static str)
    ensures
        name@ == role_name_spec(level),
{
    if level == LEVEL_SYSOP {
        "Sysop"
    } else if level == LEVEL_MODERATOR {
        "Moderator"
    } else {
        "User"
    }
}

} // verus!
