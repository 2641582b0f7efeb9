use spook_chat::permissions::{
    authorize, authorize_channel, change_permissions, Capabilities, ChangePermissions, Denied,
    Permissions,
};
use spook_chat::servers::{create_invite, moderate_user, permission_error, PermissionError};

fn row(manage_channels: bool, manage_users: bool, manage_invites: bool, banned: bool) -> Permissions {
    Permissions { manage_channels, manage_users, manage_invites, banned }
}

#[test]
fn merge_patch_sets_only_named_flag() {
    let current = row(true, false, false, false);
    let patch = ChangePermissions { manage_channels: None, manage_users: Some(true), manage_invites: None };
    let merged = current.merged(&patch);
    assert_eq!(merged, row(true, true, false, false));
}

#[test]
fn merge_patch_can_clear_flags_and_keeps_ban() {
    let current = row(true, true, true, true);
    let patch = ChangePermissions {
        manage_channels: Some(false),
        manage_users: None,
        manage_invites: Some(false),
    };
    assert_eq!(current.merged(&patch), row(false, true, false, true));
}

#[test]
fn change_permissions_without_row_is_refused() {
    let patch = ChangePermissions { manage_channels: Some(true), manage_users: None, manage_invites: None };
    assert_eq!(change_permissions(None, patch), Err(Denied::NoMembership));
    assert_eq!(
        change_permissions(Some(row(false, false, false, false)), patch),
        Ok(row(true, false, false, false))
    );
}

#[test]
fn authorize_is_idempotent() {
    let r = Some(row(false, true, false, false));
    let first = authorize(r, Capabilities::users());
    let second = authorize(r, Capabilities::users());
    assert_eq!(first, second);
    assert_eq!(first, Ok(()));
    let denied_first = authorize(r, Capabilities::invites());
    let denied_second = authorize(r, Capabilities::invites());
    assert_eq!(denied_first, denied_second);
    assert_eq!(denied_first, Err(Denied::MissingCapability));
}

#[test]
fn banned_user_with_manage_users_is_denied() {
    let r = Some(row(true, true, true, true));
    assert_eq!(authorize_channel(r), Err(Denied::Banned));
    assert_eq!(authorize(r, Capabilities::users()), Err(Denied::Banned));
    assert_eq!(authorize(r, Capabilities::none()), Err(Denied::Banned));
}

#[test]
fn no_membership_is_distinct_from_missing_capability() {
    assert_eq!(authorize(None, Capabilities::none()), Err(Denied::NoMembership));
    assert_eq!(authorize_channel(None), Err(Denied::NoMembership));
    assert_eq!(
        authorize(Some(row(false, false, false, false)), Capabilities::channels()),
        Err(Denied::MissingCapability)
    );
}

#[test]
fn capability_check_is_a_conjunction() {
    let all = Capabilities { manage_channels: true, manage_users: true, manage_invites: true };
    assert_eq!(authorize(Some(row(true, true, false, false)), all), Err(Denied::MissingCapability));
    assert_eq!(authorize(Some(row(true, true, true, false)), all), Ok(()));
    assert!(row(false, false, false, false).grants(&Capabilities::none()));
}

#[test]
fn member_without_flags_may_use_channels() {
    assert_eq!(authorize_channel(Some(row(false, false, false, false))), Ok(()));
}

#[test]
fn moderation_decisions() {
    let moderator = Some(row(false, true, false, false));
    assert_eq!(moderate_user(moderator, 7, true), Ok(()));
    assert_eq!(moderate_user(moderator, 7, false), Err(PermissionError::UserNoExist(7)));
    assert_eq!(moderate_user(None, 7, true), Err(PermissionError::NoEntry));
    assert_eq!(
        moderate_user(Some(row(true, false, true, false)), 7, true),
        Err(PermissionError::MissingPermissions)
    );
    assert_eq!(moderate_user(Some(row(true, true, true, true)), 7, true), Err(PermissionError::Banned));
}

#[test]
fn invite_creation_needs_manage_invites() {
    assert_eq!(create_invite(Some(row(false, false, true, false))), Ok(()));
    assert_eq!(create_invite(Some(row(true, true, false, false))), Err(PermissionError::MissingPermissions));
    assert_eq!(create_invite(None), Err(PermissionError::NoEntry));
    assert_eq!(permission_error(Denied::Banned), PermissionError::Banned);
    assert_eq!(PermissionError::NoEntry.status(), 403);
    assert_eq!(PermissionError::NoEntry.message(), "You do not appear to be part of this server");
    assert_eq!(
        PermissionError::MissingPermissions.message(),
        "You are missing permissions required to perform this action"
    );
    assert_eq!(PermissionError::Banned.message(), "You are banned from this server");
}
