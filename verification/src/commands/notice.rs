//! The notices that the client's commands send to its front end.

use vstd::prelude::*;
use crate::requests::ApiResponse;
use crate::watcher::{LoginSuccess, WatchOutcome};

verus! {

/// One notice to the front end: what happened, with what the front end
/// needs to show it.
#[derive(Debug)]
pub enum Notice {
    GetAssetFailure { status: u16 },
    GetFavoriteAssetsSuccess { status: u16, data: String },
    GetAssetDetailFailure { status: u16 },
    GetAssetDetailSuccess { data: String, asset_id: String },
    GetSettingFailure { status: u16 },
    GetSettingSuccess { status: u16, data: String },
    GetTokenFailure { status: u16, data: String },
    RenameError { status: u16, data: String },
    RenameSuccess { status: u16, data: String },
    SetFavoriteFailure,
    SetFavoriteSuccess,
    UnfavoriteFailure,
    UnfavoriteSuccess,
    LoginFailedTimeout,
    LoginSuccessDetected(LoginSuccess),
    LoginWindowClosed,
}

/// The name under which a notice is sent.
pub open spec fn notice_name(notice: Notice) -> Seq<char> {
    match notice {
        Notice::GetAssetFailure { .. } => "get-asset-failure"@,
        Notice::GetFavoriteAssetsSuccess { .. } => "get-favorite-assets-success"@,
        Notice::GetAssetDetailFailure { .. } => "get-asset-detail-failure"@,
        Notice::GetAssetDetailSuccess { .. } => "get-asset-detail-success"@,
        Notice::GetSettingFailure { .. } => "get-setting-failure"@,
        Notice::GetSettingSuccess { .. } => "get-setting-success"@,
        Notice::GetTokenFailure { .. } => "get-token-failure"@,
        Notice::RenameError { .. } => "rename-error"@,
        Notice::RenameSuccess { .. } => "rename-success"@,
        Notice::SetFavoriteFailure => "set-favorite-failure"@,
        Notice::SetFavoriteSuccess => "set-favorite-success"@,
        Notice::UnfavoriteFailure => "unfavorite-failure"@,
        Notice::UnfavoriteSuccess => "unfavorite-success"@,
        Notice::LoginFailedTimeout => "login-failed-timeout"@,
        Notice::LoginSuccessDetected(_) => "login-success-detected"@,
        Notice::LoginWindowClosed => "login-window-closed"@,
    }
}

impl Notice {
    /// The name under which the notice is sent.
    pub fn name(&self) -> (name: &'static str)
        ensures
            name@ == notice_name(*self),
    {
        match self {
            Notice::GetAssetFailure { .. } => "get-asset-failure",
            Notice::GetFavoriteAssetsSuccess { .. } => "get-favorite-assets-success",
            Notice::GetAssetDetailFailure { .. } => "get-asset-detail-failure",
            Notice::GetAssetDetailSuccess { .. } => "get-asset-detail-success",
            Notice::GetSettingFailure { .. } => "get-setting-failure",
            Notice::GetSettingSuccess { .. } => "get-setting-success",
            Notice::GetTokenFailure { .. } => "get-token-failure",
            Notice::RenameError { .. } => "rename-error",
            Notice::RenameSuccess { .. } => "rename-success",
            Notice::SetFavoriteFailure => "set-favorite-failure",
            Notice::SetFavoriteSuccess => "set-favorite-success",
            Notice::UnfavoriteFailure => "unfavorite-failure",
            Notice::UnfavoriteSuccess => "unfavorite-success",
            Notice::LoginFailedTimeout => "login-failed-timeout",
            Notice::LoginSuccessDetected(_) => "login-success-detected",
            Notice::LoginWindowClosed => "login-window-closed",
        }
    }
}

/// The message that goes with the notice of a watch that timed out.
pub fn timeout_message() -> (message: &'static str)
    ensures
        message@ == "超过 60 秒未检测到有效登录状态，已中止登录"@,
{
    "超过 60 秒未检测到有效登录状态，已中止登录"
}

/// The notice for the outcome of a watch.
pub fn watch_notice(outcome: WatchOutcome) -> (notice: Notice)
    ensures
        match outcome {
            WatchOutcome::Authenticated(success) => notice matches Notice::LoginSuccessDetected(
                sent,
            ) && sent@ == success@,
            WatchOutcome::TimedOut => notice is LoginFailedTimeout,
            WatchOutcome::WindowClosed => notice is LoginWindowClosed,
        },
{
    match outcome {
        WatchOutcome::Authenticated(success) => Notice::LoginSuccessDetected(success),
        WatchOutcome::TimedOut => Notice::LoginFailedTimeout,
        WatchOutcome::WindowClosed => Notice::LoginWindowClosed,
    }
}

/// The notice for a failed asset listing; `None` for one that succeeded,
/// whose body is then read.
pub fn assets_failure(response: &ApiResponse) -> (notice: Option<Notice>)
    ensures
        response.success ==> notice is None,
        !response.success ==> (notice matches Some(Notice::GetAssetFailure { status }) && status
            == response.status),
{
    if response.success {
        None
    } else {
        Some(Notice::GetAssetFailure { status: response.status })
    }
}

/// The notice for the list of favourite assets: none where the call
/// failed.
pub fn favorite_assets_notice(response: ApiResponse) -> (notice: Option<Notice>)
    ensures
        !response.success ==> notice is None,
        response.success ==> (notice matches Some(Notice::GetFavoriteAssetsSuccess { status, data })
            && status == response.status && data@ == response.data@),
{
    if response.success {
        Some(Notice::GetFavoriteAssetsSuccess { status: response.status, data: response.data })
    } else {
        None
    }
}

/// The notice for the details of an asset.
pub fn asset_detail_notice(response: ApiResponse, asset_id: String) -> (notice: Notice)
    ensures
        !response.success ==> (notice matches Notice::GetAssetDetailFailure { status } && status
            == response.status),
        response.success ==> (notice matches Notice::GetAssetDetailSuccess { data, asset_id: id }
            && data@ == response.data@ && id@ == asset_id@),
{
    if response.success {
        Notice::GetAssetDetailSuccess { data: response.data, asset_id }
    } else {
        Notice::GetAssetDetailFailure { status: response.status }
    }
}

/// The notice for the user's preferences.
pub fn setting_notice(response: ApiResponse) -> (notice: Notice)
    ensures
        !response.success ==> (notice matches Notice::GetSettingFailure { status } && status
            == response.status),
        response.success ==> (notice matches Notice::GetSettingSuccess { status, data } && status
            == response.status && data@ == response.data@),
{
    if response.success {
        Notice::GetSettingSuccess { status: response.status, data: response.data }
    } else {
        Notice::GetSettingFailure { status: response.status }
    }
}

/// The notice for a rename.
pub fn rename_notice(response: ApiResponse) -> (notice: Notice)
    ensures
        !response.success ==> (notice matches Notice::RenameError { status, data } && status
            == response.status && data@ == response.data@),
        response.success ==> (notice matches Notice::RenameSuccess { status, data } && status
            == response.status && data@ == response.data@),
{
    if response.success {
        Notice::RenameSuccess { status: response.status, data: response.data }
    } else {
        Notice::RenameError { status: response.status, data: response.data }
    }
}

/// The notice for marking an asset as a favourite.
pub fn set_favorite_notice(response: &ApiResponse) -> (notice: Notice)
    ensures
        response.success ==> notice is SetFavoriteSuccess,
        !response.success ==> notice is SetFavoriteFailure,
{
    if response.success {
        Notice::SetFavoriteSuccess
    } else {
        Notice::SetFavoriteFailure
    }
}

/// The notice for taking the favourite mark away.
pub fn unfavorite_notice(response: &ApiResponse) -> (notice: Notice)
    ensures
        response.success ==> notice is UnfavoriteSuccess,
        !response.success ==> notice is UnfavoriteFailure,
{
    if response.success {
        Notice::UnfavoriteSuccess
    } else {
        Notice::UnfavoriteFailure
    }
}

/// The notice for a token call that did not create a token: `None` for
/// status 201, after which the client goes on to launch.
pub fn token_failure(response: ApiResponse) -> (notice: Option<Notice>)
    ensures
        response.status == 201 ==> notice is None,
        response.status != 201 ==> (notice matches Some(Notice::GetTokenFailure { status, data })
            && status == response.status && data@ == response.data@),
{
    if response.status == 201 {
        None
    } else {
        Some(Notice::GetTokenFailure { status: response.status, data: response.data })
    }
}

} // verus!
