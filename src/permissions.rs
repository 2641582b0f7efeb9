use vstd::prelude::*;

verus! {

/// The four per-user, per-server permission flags: one membership row.
#[derive(Clone, Copy, Debug, PartialEq, Eq, Structural)]
pub struct Permissions {
    pub manage_channels: bool,
    pub manage_users: bool,
    pub manage_invites: bool,
    pub banned: bool,
}

/// A merge-patch of the three management flags: `None` keeps the stored value.
#[derive(Clone, Copy, Debug, PartialEq, Eq, Structural)]
pub struct ChangePermissions {
    pub manage_channels: Option<bool>,
    pub manage_users: Option<bool>,
    pub manage_invites: Option<bool>,
}

/// A set of capabilities that an action requires; `true` means required.
#[derive(Clone, Copy, Debug, PartialEq, Eq, Structural)]
pub struct Capabilities {
    pub manage_channels: bool,
    pub manage_users: bool,
    pub manage_invites: bool,
}

/// Why an authorization was refused.
#[derive(Clone, Copy, Debug, PartialEq, Eq, Structural)]
pub enum Denied {
    /// The user has no membership row for the server.
    NoMembership,
    /// The user is banned from the server.
    Banned,
    /// A required capability is not granted.
    MissingCapability,
}

pub open spec fn patch_flag(change: Option<bool>, current: bool) -> bool {
    match change {
        Some(b) => b,
        None => current,
    }
}

/// The row that results from applying `c` to `current`; the ban flag is untouched.
pub open spec fn merge_spec(current: Permissions, c: ChangePermissions) -> Permissions {
    Permissions {
        manage_channels: patch_flag(c.manage_channels, current.manage_channels),
        manage_users: patch_flag(c.manage_users, current.manage_users),
        manage_invites: patch_flag(c.manage_invites, current.manage_invites),
        banned: current.banned,
    }
}

/// Every required capability is individually granted by `p`.
pub open spec fn grants(p: Permissions, req: Capabilities) -> bool {
    &&& (req.manage_channels ==> p.manage_channels)
    &&& (req.manage_users ==> p.manage_users)
    &&& (req.manage_invites ==> p.manage_invites)
}

/// The decision of the permission oracle on a fetched membership row.
pub open spec fn authorize_spec(row: Option<Permissions>, req: Capabilities) -> Result<(), Denied> {
    match row {
        None => Err(Denied::NoMembership),
        Some(p) => if p.banned {
            Err(Denied::Banned)
        } else if grants(p, req) {
            Ok(())
        } else {
            Err(Denied::MissingCapability)
        },
    }
}

pub open spec fn no_capabilities() -> Capabilities {
    Capabilities { manage_channels: false, manage_users: false, manage_invites: false }
}

/// Channel-scoped actions (subscribe, send) need membership and no ban, nothing more.
pub open spec fn channel_access_spec(row: Option<Permissions>) -> Result<(), Denied> {
    authorize_spec(row, no_capabilities())
}

pub open spec fn users_only() -> Capabilities {
    Capabilities { manage_channels: false, manage_users: true, manage_invites: false }
}

pub open spec fn invites_only() -> Capabilities {
    Capabilities { manage_channels: false, manage_users: false, manage_invites: true }
}

pub open spec fn channels_only() -> Capabilities {
    Capabilities { manage_channels: true, manage_users: false, manage_invites: false }
}

impl Capabilities {
    /// The empty capability set.
    pub fn none() -> (r: Capabilities)
        ensures
            r == no_capabilities(),
    {
        Capabilities { manage_channels: false, manage_users: false, manage_invites: false }
    }

    /// Only `manage_users`.
    pub fn users() -> (r: Capabilities)
        ensures
            r == users_only(),
    {
        Capabilities { manage_channels: false, manage_users: true, manage_invites: false }
    }

    /// Only `manage_invites`.
    pub fn invites() -> (r: Capabilities)
        ensures
            r == invites_only(),
    {
        Capabilities { manage_channels: false, manage_users: false, manage_invites: true }
    }

    /// Only `manage_channels`.
    pub fn channels() -> (r: Capabilities)
        ensures
            r == channels_only(),
    {
        Capabilities { manage_channels: true, manage_users: false, manage_invites: false }
    }
}

impl Permissions {
    /// Whether every capability in `req` is granted (the ban flag is not consulted).
    pub fn grants(&self, req: &Capabilities) -> (r: bool)
        ensures
            r == grants(*self, *req),
    {
        (!req.manage_channels || self.manage_channels) && (!req.manage_users || self.manage_users)
            && (!req.manage_invites || self.manage_invites)
    }

    /// Applies a merge-patch: each flag given in `changes` replaces the stored one.
    pub fn merged(&self, changes: &ChangePermissions) -> (r: Permissions)
        ensures
            r == merge_spec(*self, *changes),
    {
        Permissions {
            manage_channels: match changes.manage_channels {
                Some(b) => b,
                None => self.manage_channels,
            },
            manage_users: match changes.manage_users {
                Some(b) => b,
                None => self.manage_users,
            },
            manage_invites: match changes.manage_invites {
                Some(b) => b,
                None => self.manage_invites,
            },
            banned: self.banned,
        }
    }
}

/// Decides whether the holder of membership row `row` may perform an action that
/// requires `required`. A ban is checked before any capability.
pub fn authorize(row: Option<Permissions>, required: Capabilities) -> (r: Result<(), Denied>)
    ensures
        r == authorize_spec(row, required),
{
    match row {
        None => Err(Denied::NoMembership),
        Some(p) => {
            if p.banned {
                Err(Denied::Banned)
            } else if p.grants(&required) {
                Ok(())
            } else {
                Err(Denied::MissingCapability)
            }
        },
    }
}

/// Decides a subscribe or send on a channel, given the user's membership row for the
/// channel's server (`None` when there is none, or the channel does not exist).
pub fn authorize_channel(row: Option<Permissions>) -> (r: Result<(), Denied>)
    ensures
        r == channel_access_spec(row),
        r is Ok <==> (row is Some && !row.unwrap().banned),
{
    authorize(row, Capabilities::none())
}

/// Computes the row stored after a permission change. A user without a row is
/// refused and no row is created.
pub fn change_permissions(current: Option<Permissions>, changes: ChangePermissions) -> (r: Result<
    Permissions,
    Denied,
>)
    ensures
        match current {
            None => r == Err::<Permissions, Denied>(Denied::NoMembership),
            Some(p) => r == Ok::<Permissions, Denied>(merge_spec(p, changes)),
        },
{
    match current {
        None => Err(Denied::NoMembership),
        Some(p) => Ok(p.merged(&changes)),
    }
}

/// A banned member is refused every channel action and every administrative
/// action, whatever management flags the row also carries.
pub proof fn lemma_banned_denied(p: Permissions, required: Capabilities)
    requires
        p.banned,
    ensures
        channel_access_spec(Some(p)) == Err::<(), Denied>(Denied::Banned),
        authorize_spec(Some(p), required) == Err::<(), Denied>(Denied::Banned),
{
}

/// A merge-patch changes exactly the flags it names.
pub proof fn lemma_merge_keeps_unset(p: Permissions, c: ChangePermissions)
    ensures
        c.manage_channels is None ==> merge_spec(p, c).manage_channels == p.manage_channels,
        c.manage_users is None ==> merge_spec(p, c).manage_users == p.manage_users,
        c.manage_invites is None ==> merge_spec(p, c).manage_invites == p.manage_invites,
        c.manage_channels is Some ==> merge_spec(p, c).manage_channels == c.manage_channels.unwrap(),
        c.manage_users is Some ==> merge_spec(p, c).manage_users == c.manage_users.unwrap(),
        c.manage_invites is Some ==> merge_spec(p, c).manage_invites == c.manage_invites.unwrap(),
        merge_spec(p, c).banned == p.banned,
{
}

} // verus!
