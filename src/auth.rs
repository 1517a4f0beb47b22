use vstd::prelude::*;
use vstd::string::StringExecFns;

use crate::message::{json_string_member, string_member};

verus! {

/// The guild role that makes a member an administrator.
pub const ADMIN_ROLE_ID: &'static str = "1206224912360939520";

/// The guild role that makes a member a moderator.
pub const MODERATOR_ROLE_ID: &'static str = "1206224912360939520";

/// The query of the OAuth callback: the authorization code.
pub struct AuthRequest {
    pub code: String,
}

/// What a chat token asserts about its bearer.
pub struct Claims {
    /// The user's identifier.
    pub sub: String,
    pub username: String,
    /// `Admin`, `Moderator` or `Member`.
    pub role: String,
    /// Expiry, in seconds since the Unix epoch.
    pub exp: usize,
}

/// A member's standing in the chat.
#[derive(Clone, Copy, Debug, PartialEq, Eq, Structural)]
pub enum Role {
    Admin,
    Moderator,
    Member,
}

/// The role's name as tokens carry it.
pub open spec fn role_name(r: Role) -> Seq<char> {
    match r {
        Role::Admin => "Admin"@,
        Role::Moderator => "Moderator"@,
        Role::Member => "Member"@,
    }
}

/// Whether one of `roles` is `id`.
pub open spec fn holds_role(roles: Seq<String>, id: Seq<char>) -> bool {
    exists|i: int| 0 <= i < roles.len() && (#[trigger] roles[i])@ == id
}

/// The role that a member with the guild roles `roles` gets: the
/// administrator role wins over the moderator role.
pub open spec fn role_of(roles: Seq<String>) -> Role {
    if holds_role(roles, ADMIN_ROLE_ID@) {
        Role::Admin
    } else if holds_role(roles, MODERATOR_ROLE_ID@) {
        Role::Moderator
    } else {
        Role::Member
    }
}

impl Role {
    /// The role's name as tokens carry it.
    pub fn as_str(&self) -> (r: &'static str)
        ensures
            r@ == role_name(*self),
    {
        match self {
            Role::Admin => "Admin",
            Role::Moderator => "Moderator",
            Role::Member => "Member",
        }
    }
}

fn holds(roles: &Vec<String>, id: &str) -> (r: bool)
    ensures
        r == holds_role(roles@, id@),
{
    let wanted = String::from_str(id);
    let mut i: usize = 0;
    while i < roles.len()
        invariant
            0 <= i <= roles@.len(),
            wanted@ == id@,
            forall|k: int| 0 <= k < i ==> (#[trigger] roles@[k])@ != id@,
        decreases roles@.len() - i,
    {
        if roles[i] == wanted {
            return true;
        }
        i += 1;
    }
    false
}

/// The role for a guild member with the role identifiers `roles`.
pub fn role_for(roles: &Vec<String>) -> (r: Role)
    ensures
        r == role_of(roles@),
{
    if holds(roles, ADMIN_ROLE_ID) {
        Role::Admin
    } else if holds(roles, MODERATOR_ROLE_ID) {
        Role::Moderator
    } else {
        Role::Member
    }
}

impl Claims {
    /// The claims for user `sub` named `username` with `role`, valid until `exp`.
    pub fn new(sub: String, username: String, role: Role, exp: usize) -> (r: Claims)
        ensures
            r.sub@ == sub@,
            r.username@ == username@,
            r.role@ == role_name(role),
            r.exp == exp,
    {
        Claims { sub, username, role: String::from_str(role.as_str()), exp }
    }
}

/// The token that the first frame of a connection carries in its `token`
/// member, if it is a JSON object with such a string member.
pub fn token_of(frame: &str) -> (r: Option<String>)
    ensures
        match r {
            Some(t) => json_string_member(frame@, "token"@) == Some(t@),
            None => json_string_member(frame@, "token"@).is_none(),
        },
{
    string_member(frame, "token")
}

} // verus!
