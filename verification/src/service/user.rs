//! The calls that confirm a session and gather what the client shows of the
//! signed-in user.

use vstd::prelude::*;
use vstd::string::StringExecFns;
use crate::requests::{ApiResponse, ApiResponseView};

verus! {

/// What the client knows of the signed-in user once a session stands.
#[derive(Debug)]
pub struct UserProfileData {
    pub profile: ApiResponse,
    pub permission_orgs: ApiResponse,
    pub current_org: ApiResponse,
}

/// Mathematical value of [`UserProfileData`].
pub struct UserProfileView {
    pub profile: ApiResponseView,
    pub permission_orgs: ApiResponseView,
    pub current_org: ApiResponseView,
}

impl View for UserProfileData {
    type V = UserProfileView;

    open spec fn view(&self) -> UserProfileView {
        UserProfileView {
            profile: self.profile@,
            permission_orgs: self.permission_orgs@,
            current_org: self.current_org@,
        }
    }
}

/// The answers of the two organisation calls.
#[derive(Debug)]
pub struct OrgReplies {
    pub permission_orgs: ApiResponse,
    pub current_org: ApiResponse,
}

/// Body that stands for the permitted organisations where they are not
/// asked for: an account without any.
pub open spec fn empty_permission_orgs_body() -> Seq<char> {
    "{\"audit_orgs\":[],\"console_orgs\":[],\"id\":\"\",\"pam_orgs\":[],\"username\":\"\",\"workbench_orgs\":[]}"@
}

/// Body that stands for the current organisation where it is not asked for:
/// an organisation without name or role.
pub open spec fn empty_current_org_body() -> Seq<char> {
    "{\"comment\":\"\",\"id\":\"\",\"is_default\":false,\"is_root\":false,\"is_system\":false,\"name\":\"\"}"@
}

/// An answer made up in place of a call: status 200 with the given body.
pub open spec fn stub_response(body: Seq<char>) -> ApiResponseView {
    ApiResponseView { status: 200, data: body, success: true }
}

/// The user data for a confirmed profile. With the answers of the
/// organisation calls it holds them; without, it holds the two stubs.
pub open spec fn user_data_of(
    profile: ApiResponseView,
    orgs: Option<(ApiResponseView, ApiResponseView)>,
) -> UserProfileView {
    match orgs {
        Some((permission_orgs, current_org)) => UserProfileView {
            profile,
            permission_orgs,
            current_org,
        },
        None => UserProfileView {
            profile,
            permission_orgs: stub_response(empty_permission_orgs_body()),
            current_org: stub_response(empty_current_org_body()),
        },
    }
}

/// The view of the optional answers of the organisation calls.
pub open spec fn org_views(orgs: Option<OrgReplies>) -> Option<(ApiResponseView, ApiResponseView)> {
    match orgs {
        Some(replies) => Some((replies.permission_orgs@, replies.current_org@)),
        None => None,
    }
}

/// The version that the service reports for its clients: the body of the
/// answer where the call succeeded with status 200, `incompatible` where
/// the service does not know the address, and nothing otherwise.
pub open spec fn version_of(version_message: ApiResponseView) -> Seq<char> {
    if version_message.status == 200 && version_message.success {
        version_message.data
    } else if version_message.status == 404 {
        "incompatible"@
    } else {
        Seq::empty()
    }
}

/// Reads the client version out of the answer of the version call.
pub fn resolve_version(version_message: &ApiResponse) -> (version: String)
    ensures
        version@ == version_of(version_message@),
{
    if version_message.status == 200 && version_message.success {
        version_message.data.clone()
    } else if version_message.status == 404 {
        String::from_str("incompatible")
    } else {
        String::new()
    }
}

/// What `serde_json` finds under `key` in the JSON text `body`: the Boolean
/// that the member holds, or `None` where `body` is no JSON text, is no
/// object, has no such member, or holds another kind of value there.
pub uninterp spec fn json_member_bool(body: Seq<char>, key: Seq<char>) -> Option<bool>;

/// Parses `body` with `serde_json::from_str` as a `serde_json::Value` and
/// reads the member `key` with `Value::get` and `Value::as_bool`. The
/// contract only names that result.
#[verifier::external_body]
fn read_json_bool(body: &str, key: &str) -> (flag: Option<bool>)
    ensures
        flag == json_member_bool(body@, key@),
{
    match serde_json::from_str::<serde_json::Value>(body) {
        Ok(value) => value.get(key).and_then(serde_json::Value::as_bool),
        Err(_) => None,
    }
}

/// Whether the answer of the public-settings call shows a valid licence,
/// given the flag `flag` found in its body: only an answer with status 200
/// counts, and a missing flag counts as `false`.
pub open spec fn license_shown(xpack_message: ApiResponseView, flag: Option<bool>) -> bool {
    xpack_message.status == 200 && xpack_message.success && flag == Some(true)
}

/// Decides on the licence from the answer and the flag read out of its body.
pub fn license_from_flag(xpack_message: &ApiResponse, flag: Option<bool>) -> (valid: bool)
    ensures
        valid == license_shown(xpack_message@, flag),
{
    if xpack_message.status == 200 && xpack_message.success {
        match flag {
            Some(b) => b,
            None => false,
        }
    } else {
        false
    }
}

/// The licence flag of the public settings: `XPACK_LICENSE_IS_VALID`.
pub open spec fn license_of(xpack_message: ApiResponseView) -> bool {
    license_shown(
        xpack_message,
        json_member_bool(xpack_message.data, "XPACK_LICENSE_IS_VALID"@),
    )
}

/// Whether the public settings show a valid licence.
pub fn license_is_valid(xpack_message: &ApiResponse) -> (valid: bool)
    ensures
        valid == license_of(xpack_message@),
{
    let flag = read_json_bool(xpack_message.data.as_str(), "XPACK_LICENSE_IS_VALID");
    license_from_flag(xpack_message, flag)
}

/// The session calls for one site and one set of cookies.
pub struct UserService {
    origin: String,
    cookie_header: String,
}

/// Mathematical value of a service that is bound to a site and a `Cookie`
/// header.
pub struct SessionView {
    pub origin: Seq<char>,
    pub cookie_header: Seq<char>,
}

impl View for UserService {
    type V = SessionView;

    closed spec fn view(&self) -> SessionView {
        SessionView { origin: self.origin@, cookie_header: self.cookie_header@ }
    }
}

impl UserService {
    pub fn new(origin: String, cookie_header: String) -> (service: Self)
        ensures
            service@ == (SessionView { origin: origin@, cookie_header: cookie_header@ }),
    {
        Self { origin, cookie_header }
    }

    /// The site that the calls go to.
    pub fn origin(&self) -> (origin: &str)
        ensures
            origin@ == self@.origin,
    {
        self.origin.as_str()
    }

    /// The `Cookie` header that the calls carry.
    pub fn cookie_header(&self) -> (header: &str)
        ensures
            header@ == self@.cookie_header,
    {
        self.cookie_header.as_str()
    }

    fn endpoint(&self, path: &str) -> (url: String)
        ensures
            url@ == self@.origin + path@,
    {
        let mut url = self.origin.clone();
        url.append(path);
        url
    }

    /// Address of the profile call, which tells whether a session stands.
    pub fn user_profile_url(&self) -> (url: String)
        ensures
            url@ == self@.origin + "/api/v1/users/profile/"@,
    {
        self.endpoint("/api/v1/users/profile/")
    }

    /// Address of the call for the organisations the user may enter.
    pub fn permission_orgs_url(&self) -> (url: String)
        ensures
            url@ == self@.origin + "/api/v1/users/profile/permissions/"@,
    {
        self.endpoint("/api/v1/users/profile/permissions/")
    }

    /// Address of the call for the organisation the user is in.
    pub fn current_org_url(&self) -> (url: String)
        ensures
            url@ == self@.origin + "/api/v1/orgs/orgs/current/"@,
    {
        self.endpoint("/api/v1/orgs/orgs/current/")
    }

    /// Address of the call for the client versions the service accepts.
    pub fn version_message_url(&self) -> (url: String)
        ensures
            url@ == self@.origin + "/api/v1/settings/client/versions/"@,
    {
        self.endpoint("/api/v1/settings/client/versions/")
    }

    /// Address of the call for the public settings, the licence among them.
    pub fn xpack_message_url(&self) -> (url: String)
        ensures
            url@ == self@.origin + "/api/v1/settings/public/"@,
    {
        self.endpoint("/api/v1/settings/public/")
    }

    /// Puts the user data together. The organisation calls are made only
    /// under a valid licence; without their answers the data holds the two
    /// stubs in their place.
    pub fn init(profile: ApiResponse, orgs: Option<OrgReplies>) -> (data: UserProfileData)
        ensures
            data@ == user_data_of(profile@, org_views(orgs)),
    {
        match orgs {
            Some(replies) => UserProfileData {
                profile,
                permission_orgs: replies.permission_orgs,
                current_org: replies.current_org,
            },
            None => UserProfileData {
                profile,
                permission_orgs: ApiResponse {
                    status: 200,
                    data: String::from_str(
                        "{\"audit_orgs\":[],\"console_orgs\":[],\"id\":\"\",\"pam_orgs\":[],\"username\":\"\",\"workbench_orgs\":[]}",
                    ),
                    success: true,
                },
                current_org: ApiResponse {
                    status: 200,
                    data: String::from_str(
                        "{\"comment\":\"\",\"id\":\"\",\"is_default\":false,\"is_root\":false,\"is_system\":false,\"name\":\"\"}",
                    ),
                    success: true,
                },
            },
        }
    }
}

} // verus!
