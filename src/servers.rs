use vstd::prelude::*;

use crate::http::{is_route, Method, Route};

use crate::permissions::{
    authorize, authorize_spec, channels_only, invites_only, users_only, Capabilities, Denied,
    Permissions,
};
use crate::registry::{create_spec, remove_spec, Registry};

verus! {

/// An invitation to join a server. Times are milliseconds since the Unix epoch;
/// an invite without `expires_at` never expires.
#[derive(Clone, Copy, Debug, PartialEq, Eq, Structural)]
pub struct Invite {
    pub invite_id: u128,
    pub server_id: u128,
    pub created_at: i64,
    pub expires_at: Option<i64>,
}

/// Why joining through an invite failed.
#[derive(Clone, Copy, Debug, PartialEq, Eq, Structural)]
pub enum JoinError {
    InviteNotExist,
    InviteExpired,
}

/// Why an administrative action was refused.
#[derive(Clone, Copy, Debug, PartialEq, Eq, Structural)]
pub enum PermissionError {
    /// The acting user is not a member of the server.
    NoEntry,
    /// The acting user is banned from the server.
    Banned,
    /// The acting user lacks the capability the action needs.
    MissingPermissions,
    /// The user to act upon does not exist.
    UserNoExist(u128),
}

pub open spec fn invite_valid_at(invite: Invite, now: i64) -> bool {
    match invite.expires_at {
        Some(e) => e > now,
        None => true,
    }
}

impl Invite {
    /// Whether the invite is still usable at time `now`.
    pub fn is_valid_at(&self, now: i64) -> (r: bool)
        ensures
            r == invite_valid_at(*self, now),
    {
        match self.expires_at {
            Some(e) => e > now,
            None => true,
        }
    }
}

/// The body text that reports a failed join.
pub open spec fn join_message(e: JoinError) -> Seq<char> {
    match e {
        JoinError::InviteNotExist => "This invite is invalid"@,
        JoinError::InviteExpired => "This Invite has expired"@,
    }
}

impl JoinError {
    /// The body text that reports this error.
    pub fn message(&self) -> (r: &'static str)
        ensures
            r@ == join_message(*self),
    {
        proof {
            reveal_strlit("This invite is invalid");
            reveal_strlit("This Invite has expired");
        }
        match self {
            JoinError::InviteNotExist => "This invite is invalid",
            JoinError::InviteExpired => "This Invite has expired",
        }
    }

    /// The HTTP status that reports this error.
    pub fn status(&self) -> (r: u16)
        ensures
            r == 400,
    {
        400
    }
}

/// The body text that reports a refused administrative action.
pub open spec fn permission_message(e: PermissionError) -> Seq<char> {
    match e {
        PermissionError::NoEntry => "You do not appear to be part of this server"@,
        PermissionError::Banned => "You are banned from this server"@,
        PermissionError::MissingPermissions => "You are missing permissions required to perform this action"@,
        PermissionError::UserNoExist(_) => "The user to act upon does not exist"@,
    }
}

impl PermissionError {
    /// The body text that reports this error.
    pub fn message(&self) -> (r: &'static str)
        ensures
            r@ == permission_message(*self),
    {
        proof {
            reveal_strlit("You do not appear to be part of this server");
            reveal_strlit("You are banned from this server");
            reveal_strlit("You are missing permissions required to perform this action");
            reveal_strlit("The user to act upon does not exist");
        }
        match self {
            PermissionError::NoEntry => "You do not appear to be part of this server",
            PermissionError::Banned => "You are banned from this server",
            PermissionError::MissingPermissions => "You are missing permissions required to perform this action",
            PermissionError::UserNoExist(_) => "The user to act upon does not exist",
        }
    }

    /// The HTTP status that reports this error.
    pub fn status(&self) -> (r: u16)
        ensures
            r == 403,
    {
        403
    }
}

/// Decides a join through an invite, given the invite found under the
/// presented identifier (if any) and the time now. On success, the server to join.
pub fn join_server(invite: Option<Invite>, now: i64) -> (r: Result<u128, JoinError>)
    ensures
        match invite {
            None => r == Err::<u128, JoinError>(JoinError::InviteNotExist),
            Some(i) => if invite_valid_at(i, now) {
                r == Ok::<u128, JoinError>(i.server_id)
            } else {
                r == Err::<u128, JoinError>(JoinError::InviteExpired)
            },
        },
{
    match invite {
        None => Err(JoinError::InviteNotExist),
        Some(i) => {
            if i.is_valid_at(now) {
                Ok(i.server_id)
            } else {
                Err(JoinError::InviteExpired)
            }
        },
    }
}

pub open spec fn permission_error_of(d: Denied) -> PermissionError {
    match d {
        Denied::NoMembership => PermissionError::NoEntry,
        Denied::Banned => PermissionError::Banned,
        Denied::MissingCapability => PermissionError::MissingPermissions,
    }
}

/// Maps an oracle refusal to the error an administrative action reports.
pub fn permission_error(d: Denied) -> (r: PermissionError)
    ensures
        r == permission_error_of(d),
{
    match d {
        Denied::NoMembership => PermissionError::NoEntry,
        Denied::Banned => PermissionError::Banned,
        Denied::MissingCapability => PermissionError::MissingPermissions,
    }
}

/// Decides invite creation for a user whose membership row is `row`: it needs
/// `manage_invites`.
pub fn create_invite(row: Option<Permissions>) -> (r: Result<(), PermissionError>)
    ensures
        match authorize_spec(row, invites_only()) {
            Ok(_) => r is Ok,
            Err(d) => r == Err::<(), PermissionError>(permission_error_of(d)),
        },
{
    match authorize(row, Capabilities::invites()) {
        Ok(()) => Ok(()),
        Err(d) => Err(permission_error(d)),
    }
}

/// Decides a ban, unban or kick of user `target_id` by a user whose membership
/// row is `row`: it needs `manage_users`, then the target must exist.
pub fn moderate_user(row: Option<Permissions>, target_id: u128, target_exists: bool) -> (r: Result<
    (),
    PermissionError,
>)
    ensures
        match authorize_spec(row, users_only()) {
            Ok(_) => if target_exists {
                r is Ok
            } else {
                r == Err::<(), PermissionError>(PermissionError::UserNoExist(target_id))
            },
            Err(d) => r == Err::<(), PermissionError>(permission_error_of(d)),
        },
{
    match authorize(row, Capabilities::users()) {
        Err(d) => Err(permission_error(d)),
        Ok(()) => {
            if target_exists {
                Ok(())
            } else {
                Err(PermissionError::UserNoExist(target_id))
            }
        },
    }
}

/// Adds channel `channel` for a user whose membership row is `row`: it needs
/// `manage_channels`. The channel's topic is registered before this returns, so
/// it can be subscribed to and sent on at once.
pub fn add_channel(registry: &mut Registry, row: Option<Permissions>, channel: u128) -> (r: Result<
    (),
    PermissionError,
>)
    requires
        old(registry).wf(),
        old(registry)@.next_serial < u64::MAX,
    ensures
        final(registry).wf(),
        match authorize_spec(row, channels_only()) {
            Ok(_) => r is Ok && final(registry)@ == create_spec(old(registry)@, channel)
                && final(registry)@.topics.contains_key(channel),
            Err(d) => r == Err::<(), PermissionError>(permission_error_of(d)) && final(registry)@
                == old(registry)@,
        },
{
    match authorize(row, Capabilities::channels()) {
        Err(d) => Err(permission_error(d)),
        Ok(()) => {
            registry.create(channel);
            Ok(())
        },
    }
}

/// Deletes channel `channel` for a user whose membership row is `row`: it needs
/// `manage_channels`. The channel's topic goes with it, which ends every stream
/// attached to it.
pub fn delete_channel(registry: &mut Registry, row: Option<Permissions>, channel: u128) -> (r:
    Result<(), PermissionError>)
    requires
        old(registry).wf(),
    ensures
        final(registry).wf(),
        match authorize_spec(row, channels_only()) {
            Ok(_) => r is Ok && final(registry)@ == remove_spec(old(registry)@, channel),
            Err(d) => r == Err::<(), PermissionError>(permission_error_of(d)) && final(registry)@
                == old(registry)@,
        },
{
    match authorize(row, Capabilities::channels()) {
        Err(d) => Err(permission_error(d)),
        Ok(()) => {
            registry.remove(channel);
            Ok(())
        },
    }
}

/// The endpoints of server administration, in the order they are mounted.
pub fn routes() -> (r: Vec<Route>)
    ensures
        r@.len() == 6,
        is_route(r@[0], Method::Get, "/invite/<id>"@),
        is_route(r@[1], Method::Post, "/invite"@),
        is_route(r@[2], Method::Post, "/new/invite"@),
        is_route(r@[3], Method::Post, "/user/kick"@),
        is_route(r@[4], Method::Post, "/user/ban"@),
        is_route(r@[5], Method::Post, "/user/unban"@),
{
    proof {
        reveal_strlit("/invite/<id>");
        reveal_strlit("/invite");
        reveal_strlit("/new/invite");
        reveal_strlit("/user/kick");
        reveal_strlit("/user/ban");
        reveal_strlit("/user/unban");
    }
    let mut r: Vec<Route> = Vec::new();
    r.push(Route { method: Method::Get, path: "/invite/<id>" });
    r.push(Route { method: Method::Post, path: "/invite" });
    r.push(Route { method: Method::Post, path: "/new/invite" });
    r.push(Route { method: Method::Post, path: "/user/kick" });
    r.push(Route { method: Method::Post, path: "/user/ban" });
    r.push(Route { method: Method::Post, path: "/user/unban" });
    r
}

} // verus!
