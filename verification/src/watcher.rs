//! The login watcher: a state machine that decides, tick by tick, whether
//! the user has signed in through the embedded window.
//!
//! The machine does no work of its own. It is handed one event at a time,
//! answers with the next thing to do, and ends with exactly one outcome:
//! authenticated, timed out, or window closed. Whoever drives it performs the
//! actions (waiting for the tick, reading the window's cookie jar, calling
//! the remote service) and reports what came of them.

use vstd::prelude::*;
use crate::cookies::{format_cookies, get_window_cookies, normalized_header};
use crate::models::{jar_cookie_views, JarCookie, JarCookieView};
use crate::origin::{http_origin, http_origin_from_url, target_host_of, UrlParts, UrlPartsView};
use crate::requests::{ApiResponse, ApiResponseView};
use crate::service::user::{
    license_is_valid, license_of, resolve_version, user_data_of, version_of, OrgReplies,
    UserService,
};

verus! {

/// After this many milliseconds a watch gives up.
pub const DEADLINE_MS: u64 = 60_000;

/// For this many milliseconds a watch waits for a window that has never
/// been there.
pub const GRACE_MS: u64 = 5_000;

/// Time between two ticks, in milliseconds.
pub const TICK_MS: u64 = 2_000;

/// The states of a watch.
#[derive(Clone, Copy, Debug, PartialEq, Eq, Structural)]
pub enum WatchPhase {
    WaitingForWindow,
    PollingCookies,
    ValidatingSession,
    Bootstrapping,
    Succeeded,
    TimedOut,
    WindowClosed,
}

/// What a watch is waiting for, or how it ended.
#[derive(Clone, Copy, Debug, PartialEq, Eq, Structural)]
pub enum Stage {
    AwaitTick,
    AwaitCookies,
    AwaitProfile,
    AwaitLicense,
    AwaitVersion,
    AwaitOrgs,
    Succeeded,
    TimedOut,
    WindowClosed,
}

/// The remote calls of a watch.
#[derive(Clone, Copy, Debug, PartialEq, Eq, Structural)]
pub enum CallKind {
    /// The profile call, which tells whether a session stands.
    Profile,
    /// The public settings, for the licence.
    License,
    /// The client versions that the service accepts.
    Version,
    /// The two organisation calls, which may run side by side.
    Orgs,
}

/// Whether the window is there, and where it has navigated to.
#[derive(Debug)]
pub enum WindowStatus {
    Absent,
    Present {
        /// The window's address, where it could be read.
        url: Option<UrlParts>,
    },
}

/// Mathematical value of a [`WindowStatus`].
pub enum WindowStatusView {
    Absent,
    Present { url: Option<UrlPartsView> },
}

impl View for WindowStatus {
    type V = WindowStatusView;

    open spec fn view(&self) -> WindowStatusView {
        match self {
            WindowStatus::Absent => WindowStatusView::Absent,
            WindowStatus::Present { url } => WindowStatusView::Present {
                url: match url {
                    Some(u) => Some(u@),
                    None => None,
                },
            },
        }
    }
}

/// What the driver reports to the watch.
#[derive(Debug)]
pub enum WatchEvent {
    /// The ticker fired, `elapsed_ms` after the watch began.
    Tick { elapsed_ms: u64, window: WindowStatus },
    /// The window's cookie jar, or `None` where it could not be read.
    Cookies { jar: Option<Vec<JarCookie>> },
    /// The answer of the profile call.
    Profile { response: ApiResponse },
    /// The answer of the public-settings call.
    License { response: ApiResponse },
    /// The answer of the version call.
    Version { response: ApiResponse },
    /// The answers of the two organisation calls.
    Orgs { permission_orgs: ApiResponse, current_org: ApiResponse },
}

/// Mathematical value of a [`WatchEvent`].
pub enum WatchEventView {
    Tick { elapsed_ms: u64, window: WindowStatusView },
    Cookies { jar: Option<Seq<JarCookieView>> },
    Profile { response: ApiResponseView },
    License { response: ApiResponseView },
    Version { response: ApiResponseView },
    Orgs { permission_orgs: ApiResponseView, current_org: ApiResponseView },
}

impl View for WatchEvent {
    type V = WatchEventView;

    open spec fn view(&self) -> WatchEventView {
        match self {
            WatchEvent::Tick { elapsed_ms, window } => WatchEventView::Tick {
                elapsed_ms: *elapsed_ms,
                window: window@,
            },
            WatchEvent::Cookies { jar } => WatchEventView::Cookies {
                jar: match jar {
                    Some(raw) => Some(jar_cookie_views(raw@)),
                    None => None,
                },
            },
            WatchEvent::Profile { response } => WatchEventView::Profile { response: response@ },
            WatchEvent::License { response } => WatchEventView::License { response: response@ },
            WatchEvent::Version { response } => WatchEventView::Version { response: response@ },
            WatchEvent::Orgs { permission_orgs, current_org } => WatchEventView::Orgs {
                permission_orgs: permission_orgs@,
                current_org: current_org@,
            },
        }
    }
}

/// What a successful watch hands to the client.
#[derive(Debug)]
pub struct LoginSuccess {
    pub version: String,
    pub cookie_header: String,
    pub profile: ApiResponse,
    pub resolved_origin: String,
    pub current_org: ApiResponse,
    pub license_valid: bool,
    pub permission_orgs: ApiResponse,
}

/// Mathematical value of a [`LoginSuccess`].
pub struct LoginSuccessView {
    pub version: Seq<char>,
    pub cookie_header: Seq<char>,
    pub profile: ApiResponseView,
    pub resolved_origin: Seq<char>,
    pub current_org: ApiResponseView,
    pub license_valid: bool,
    pub permission_orgs: ApiResponseView,
}

impl View for LoginSuccess {
    type V = LoginSuccessView;

    open spec fn view(&self) -> LoginSuccessView {
        LoginSuccessView {
            version: self.version@,
            cookie_header: self.cookie_header@,
            profile: self.profile@,
            resolved_origin: self.resolved_origin@,
            current_org: self.current_org@,
            license_valid: self.license_valid,
            permission_orgs: self.permission_orgs@,
        }
    }
}

/// How a watch ended.
#[derive(Debug)]
pub enum WatchOutcome {
    Authenticated(LoginSuccess),
    TimedOut,
    WindowClosed,
}

/// Mathematical value of a [`WatchOutcome`].
pub enum WatchOutcomeView {
    Authenticated(LoginSuccessView),
    TimedOut,
    WindowClosed,
}

impl View for WatchOutcome {
    type V = WatchOutcomeView;

    open spec fn view(&self) -> WatchOutcomeView {
        match self {
            WatchOutcome::Authenticated(success) => WatchOutcomeView::Authenticated(success@),
            WatchOutcome::TimedOut => WatchOutcomeView::TimedOut,
            WatchOutcome::WindowClosed => WatchOutcomeView::WindowClosed,
        }
    }
}

/// What the driver is to do next.
#[derive(Debug)]
pub enum WatchAction {
    /// Wait for the next tick and report it. `announce` asks for the one
    /// notice that the watch is waiting for its window.
    AwaitTick { announce: bool },
    /// Read the window's cookie jar, for the site `origin`, and report it.
    ReadCookies { origin: String },
    /// Make a remote call with these cookies and report the answer.
    Call { kind: CallKind, origin: String, cookie_header: String },
    /// The watch is over: publish the outcome, and close the window if
    /// `close_window` says so and it is still there.
    Finish { outcome: WatchOutcome, close_window: bool },
    /// The watch was over before this event: nothing is left to do.
    Halt,
}

/// Mathematical value of a [`WatchAction`].
pub enum WatchActionView {
    AwaitTick { announce: bool },
    ReadCookies { origin: Seq<char> },
    Call { kind: CallKind, origin: Seq<char>, cookie_header: Seq<char> },
    Finish { outcome: WatchOutcomeView, close_window: bool },
    Halt,
}

impl View for WatchAction {
    type V = WatchActionView;

    open spec fn view(&self) -> WatchActionView {
        match self {
            WatchAction::AwaitTick { announce } => WatchActionView::AwaitTick {
                announce: *announce,
            },
            WatchAction::ReadCookies { origin } => WatchActionView::ReadCookies {
                origin: origin@,
            },
            WatchAction::Call { kind, origin, cookie_header } => WatchActionView::Call {
                kind: *kind,
                origin: origin@,
                cookie_header: cookie_header@,
            },
            WatchAction::Finish { outcome, close_window } => WatchActionView::Finish {
                outcome: outcome@,
                close_window: *close_window,
            },
            WatchAction::Halt => WatchActionView::Halt,
        }
    }
}

/// One watch: the state that a login attempt carries from tick to tick.
#[derive(Debug)]
pub struct WatchState {
    stage: Stage,
    window_seen: bool,
    logged_waiting: bool,
    effective_origin: String,
    cookie_header: String,
    profile: ApiResponse,
    license_valid: bool,
    version: String,
}

/// Mathematical value of a [`WatchState`].
pub struct WatchView {
    pub stage: Stage,
    /// The window has been there at some tick.
    pub window_seen: bool,
    /// The notice that the watch waits for its window has been asked for.
    pub logged_waiting: bool,
    /// The site in use, after any redirect that the window went through.
    pub effective_origin: Seq<char>,
    /// The last non-empty `Cookie` header read from the window.
    pub cookie_header: Seq<char>,
    /// The answer of the profile call that confirmed the session.
    pub profile: ApiResponseView,
    pub license_valid: bool,
    pub version: Seq<char>,
}

impl View for WatchState {
    type V = WatchView;

    closed spec fn view(&self) -> WatchView {
        WatchView {
            stage: self.stage,
            window_seen: self.window_seen,
            logged_waiting: self.logged_waiting,
            effective_origin: self.effective_origin@,
            cookie_header: self.cookie_header@,
            profile: self.profile@,
            license_valid: self.license_valid,
            version: self.version@,
        }
    }
}

/// The state in which a watch for the site `origin` begins.
pub open spec fn initial_watch(origin: Seq<char>) -> WatchView {
    WatchView {
        stage: Stage::AwaitTick,
        window_seen: false,
        logged_waiting: false,
        effective_origin: origin,
        cookie_header: Seq::empty(),
        profile: ApiResponseView { status: 0, data: Seq::empty(), success: false },
        license_valid: false,
        version: Seq::empty(),
    }
}

/// The state of the watch, as one of the seven that a watch goes through.
pub open spec fn phase_of(s: WatchView) -> WatchPhase {
    match s.stage {
        Stage::AwaitTick => if s.window_seen {
            WatchPhase::PollingCookies
        } else {
            WatchPhase::WaitingForWindow
        },
        Stage::AwaitCookies => WatchPhase::PollingCookies,
        Stage::AwaitProfile => WatchPhase::ValidatingSession,
        Stage::AwaitLicense | Stage::AwaitVersion | Stage::AwaitOrgs => WatchPhase::Bootstrapping,
        Stage::Succeeded => WatchPhase::Succeeded,
        Stage::TimedOut => WatchPhase::TimedOut,
        Stage::WindowClosed => WatchPhase::WindowClosed,
    }
}

/// The watch has ended.
pub open spec fn is_terminal(s: WatchView) -> bool {
    s.stage is Succeeded || s.stage is TimedOut || s.stage is WindowClosed
}

/// The action that a watch in state `s` has asked for and still waits on.
pub open spec fn pending_action(s: WatchView) -> WatchActionView {
    match s.stage {
        Stage::AwaitTick => WatchActionView::AwaitTick { announce: false },
        Stage::AwaitCookies => WatchActionView::ReadCookies { origin: s.effective_origin },
        Stage::AwaitProfile => call_action(s, CallKind::Profile),
        Stage::AwaitLicense => call_action(s, CallKind::License),
        Stage::AwaitVersion => call_action(s, CallKind::Version),
        Stage::AwaitOrgs => call_action(s, CallKind::Orgs),
        Stage::Succeeded | Stage::TimedOut | Stage::WindowClosed => WatchActionView::Halt,
    }
}

/// A remote call with the site and cookies of the watch.
pub open spec fn call_action(s: WatchView, kind: CallKind) -> WatchActionView {
    WatchActionView::Call { kind, origin: s.effective_origin, cookie_header: s.cookie_header }
}

/// The site in use once the window is seen at `url`: the origin of `url`
/// where it is an HTTP or HTTPS address with a host, else the site as before.
pub open spec fn adopted_origin(current: Seq<char>, url: Option<UrlPartsView>) -> Seq<char> {
    match url {
        Some(u) => match http_origin(u) {
            Some(origin) => origin,
            None => current,
        },
        None => current,
    }
}

/// What a tick does to a watch that waits for one.
pub open spec fn on_tick(s: WatchView, elapsed_ms: u64, window: WindowStatusView) -> (
    WatchView,
    WatchActionView,
) {
    if elapsed_ms >= DEADLINE_MS {
        (
            WatchView { stage: Stage::TimedOut, ..s },
            WatchActionView::Finish {
                outcome: WatchOutcomeView::TimedOut,
                close_window: window is Present,
            },
        )
    } else {
        match window {
            WindowStatusView::Present { url } => {
                let origin = adopted_origin(s.effective_origin, url);
                (
                    WatchView {
                        stage: Stage::AwaitCookies,
                        window_seen: true,
                        effective_origin: origin,
                        ..s
                    },
                    WatchActionView::ReadCookies { origin },
                )
            },
            WindowStatusView::Absent => if !s.window_seen && elapsed_ms < GRACE_MS {
                (
                    WatchView { logged_waiting: true, ..s },
                    WatchActionView::AwaitTick { announce: !s.logged_waiting },
                )
            } else {
                (
                    WatchView { stage: Stage::WindowClosed, ..s },
                    WatchActionView::Finish {
                        outcome: WatchOutcomeView::WindowClosed,
                        close_window: false,
                    },
                )
            },
        }
    }
}

/// The `Cookie` header that a reading of the jar gives for the site
/// `origin`, where the jar could be read and `origin` names a site.
pub open spec fn header_read(origin: Seq<char>, jar: Option<Seq<JarCookieView>>) -> Option<
    Seq<char>,
> {
    match jar {
        Some(raw) => match target_host_of(origin) {
            Ok(host) => Some(normalized_header(raw, host)),
            Err(_) => None,
        },
        None => None,
    }
}

/// The header to go on with: the one just read where it is not empty, else
/// the one from before, so that a reading that fails or comes back empty
/// does not undo an earlier one.
pub open spec fn header_kept(before: Seq<char>, read: Option<Seq<char>>) -> Seq<char> {
    match read {
        Some(header) => if header.len() > 0 {
            header
        } else {
            before
        },
        None => before,
    }
}

/// What the cookie jar does to a watch that waits for it.
pub open spec fn on_cookies(s: WatchView, jar: Option<Seq<JarCookieView>>) -> (
    WatchView,
    WatchActionView,
) {
    let header = header_kept(s.cookie_header, header_read(s.effective_origin, jar));
    if header.len() == 0 {
        (
            WatchView { stage: Stage::AwaitTick, cookie_header: header, ..s },
            WatchActionView::AwaitTick { announce: false },
        )
    } else {
        let next = WatchView { stage: Stage::AwaitProfile, cookie_header: header, ..s };
        (next, call_action(next, CallKind::Profile))
    }
}

/// The session stands: the profile call succeeded, and not with status 401.
pub open spec fn is_authenticated(profile: ApiResponseView) -> bool {
    profile.status != 401 && profile.success
}

/// What the answer of the profile call does to a watch that waits for it.
pub open spec fn on_profile(s: WatchView, response: ApiResponseView) -> (
    WatchView,
    WatchActionView,
) {
    if is_authenticated(response) {
        let next = WatchView { stage: Stage::AwaitLicense, profile: response, ..s };
        (next, call_action(next, CallKind::License))
    } else {
        (
            WatchView { stage: Stage::AwaitTick, ..s },
            WatchActionView::AwaitTick { announce: false },
        )
    }
}

/// What the public settings do to a watch that waits for them.
pub open spec fn on_license(s: WatchView, response: ApiResponseView) -> (
    WatchView,
    WatchActionView,
) {
    let next = WatchView {
        stage: Stage::AwaitVersion,
        license_valid: license_of(response),
        ..s
    };
    (next, call_action(next, CallKind::Version))
}

/// The outcome of a watch that found a session, with the answers of the
/// organisation calls where they were made.
pub open spec fn success_of(
    s: WatchView,
    orgs: Option<(ApiResponseView, ApiResponseView)>,
) -> WatchOutcomeView {
    let data = user_data_of(s.profile, orgs);
    WatchOutcomeView::Authenticated(
        LoginSuccessView {
            version: s.version,
            cookie_header: s.cookie_header,
            profile: data.profile,
            resolved_origin: s.effective_origin,
            current_org: data.current_org,
            license_valid: s.license_valid,
            permission_orgs: data.permission_orgs,
        },
    )
}

/// What the answer of the version call does to a watch that waits for it:
/// under a valid licence the organisations are asked for, without one the
/// watch ends at once.
pub open spec fn on_version(s: WatchView, response: ApiResponseView) -> (
    WatchView,
    WatchActionView,
) {
    let versioned = WatchView { version: version_of(response), ..s };
    if s.license_valid {
        let next = WatchView { stage: Stage::AwaitOrgs, ..versioned };
        (next, call_action(next, CallKind::Orgs))
    } else {
        (
            WatchView { stage: Stage::Succeeded, ..versioned },
            WatchActionView::Finish {
                outcome: success_of(versioned, None),
                close_window: true,
            },
        )
    }
}

/// What the organisation calls do to a watch that waits for them.
pub open spec fn on_orgs(
    s: WatchView,
    permission_orgs: ApiResponseView,
    current_org: ApiResponseView,
) -> (WatchView, WatchActionView) {
    (
        WatchView { stage: Stage::Succeeded, ..s },
        WatchActionView::Finish {
            outcome: success_of(s, Some((permission_orgs, current_org))),
            close_window: true,
        },
    )
}

/// One step of a watch. An event that the watch does not wait for changes
/// nothing and is answered with the action that is still due.
pub open spec fn step_of(s: WatchView, event: WatchEventView) -> (WatchView, WatchActionView) {
    match (s.stage, event) {
        (Stage::AwaitTick, WatchEventView::Tick { elapsed_ms, window }) => on_tick(
            s,
            elapsed_ms,
            window,
        ),
        (Stage::AwaitCookies, WatchEventView::Cookies { jar }) => on_cookies(s, jar),
        (Stage::AwaitProfile, WatchEventView::Profile { response }) => on_profile(s, response),
        (Stage::AwaitLicense, WatchEventView::License { response }) => on_license(s, response),
        (Stage::AwaitVersion, WatchEventView::Version { response }) => on_version(s, response),
        (Stage::AwaitOrgs, WatchEventView::Orgs { permission_orgs, current_org }) => on_orgs(
            s,
            permission_orgs,
            current_org,
        ),
        _ => (s, pending_action(s)),
    }
}


impl WatchState {
    /// Begins a watch for the site `origin`. The first thing to do is to
    /// wait for a tick.
    pub fn new(origin: String) -> (state: Self)
        ensures
            state@ == initial_watch(origin@),
    {
        WatchState {
            stage: Stage::AwaitTick,
            window_seen: false,
            logged_waiting: false,
            effective_origin: origin,
            cookie_header: String::new(),
            profile: ApiResponse { status: 0, data: String::new(), success: false },
            license_valid: false,
            version: String::new(),
        }
    }

    /// The state that the watch is in.
    pub fn phase(&self) -> (phase: WatchPhase)
        ensures
            phase == phase_of(self@),
    {
        match self.stage {
            Stage::AwaitTick => if self.window_seen {
                WatchPhase::PollingCookies
            } else {
                WatchPhase::WaitingForWindow
            },
            Stage::AwaitCookies => WatchPhase::PollingCookies,
            Stage::AwaitProfile => WatchPhase::ValidatingSession,
            Stage::AwaitLicense | Stage::AwaitVersion | Stage::AwaitOrgs => {
                WatchPhase::Bootstrapping
            },
            Stage::Succeeded => WatchPhase::Succeeded,
            Stage::TimedOut => WatchPhase::TimedOut,
            Stage::WindowClosed => WatchPhase::WindowClosed,
        }
    }

    /// Whether the watch has ended.
    pub fn is_finished(&self) -> (finished: bool)
        ensures
            finished == is_terminal(self@),
    {
        matches!(self.stage, Stage::Succeeded | Stage::TimedOut | Stage::WindowClosed)
    }

    /// The site in use.
    pub fn effective_origin(&self) -> (origin: &str)
        ensures
            origin@ == self@.effective_origin,
    {
        self.effective_origin.as_str()
    }

    /// The `Cookie` header in use; empty until the window has shown cookies.
    pub fn cookie_header(&self) -> (header: &str)
        ensures
            header@ == self@.cookie_header,
    {
        self.cookie_header.as_str()
    }

    fn call(&self, kind: CallKind) -> (action: WatchAction)
        ensures
            action@ == call_action(self@, kind),
    {
        WatchAction::Call {
            kind,
            origin: self.effective_origin.clone(),
            cookie_header: self.cookie_header.clone(),
        }
    }

    fn pending(&self) -> (action: WatchAction)
        ensures
            action@ == pending_action(self@),
    {
        match self.stage {
            Stage::AwaitTick => WatchAction::AwaitTick { announce: false },
            Stage::AwaitCookies => WatchAction::ReadCookies {
                origin: self.effective_origin.clone(),
            },
            Stage::AwaitProfile => self.call(CallKind::Profile),
            Stage::AwaitLicense => self.call(CallKind::License),
            Stage::AwaitVersion => self.call(CallKind::Version),
            Stage::AwaitOrgs => self.call(CallKind::Orgs),
            Stage::Succeeded | Stage::TimedOut | Stage::WindowClosed => WatchAction::Halt,
        }
    }

    fn success(&self, orgs: Option<OrgReplies>) -> (outcome: WatchOutcome)
        ensures
            outcome@ == success_of(self@, crate::service::user::org_views(orgs)),
    {
        let data = UserService::init(self.profile.clone(), orgs);
        WatchOutcome::Authenticated(
            LoginSuccess {
                version: self.version.clone(),
                cookie_header: self.cookie_header.clone(),
                profile: data.profile,
                resolved_origin: self.effective_origin.clone(),
                current_org: data.current_org,
                license_valid: self.license_valid,
                permission_orgs: data.permission_orgs,
            },
        )
    }

    fn tick(&mut self, elapsed_ms: u64, window: WindowStatus) -> (action: WatchAction)
        requires
            old(self)@.stage is AwaitTick,
        ensures
            (final(self)@, action@) == on_tick(old(self)@, elapsed_ms, window@),
    {
        if elapsed_ms >= DEADLINE_MS {
            self.stage = Stage::TimedOut;
            return WatchAction::Finish {
                outcome: WatchOutcome::TimedOut,
                close_window: matches!(window, WindowStatus::Present { .. }),
            };
        }
        match window {
            WindowStatus::Present { url } => {
                self.window_seen = true;
                self.stage = Stage::AwaitCookies;
                if let Some(parts) = url {
                    if let Some(origin) = http_origin_from_url(&parts) {
                        self.effective_origin = origin;
                    }
                }
                WatchAction::ReadCookies { origin: self.effective_origin.clone() }
            },
            WindowStatus::Absent => {
                if !self.window_seen && elapsed_ms < GRACE_MS {
                    let announce = !self.logged_waiting;
                    self.logged_waiting = true;
                    WatchAction::AwaitTick { announce }
                } else {
                    self.stage = Stage::WindowClosed;
                    WatchAction::Finish { outcome: WatchOutcome::WindowClosed, close_window: false }
                }
            },
        }
    }

    fn cookies(&mut self, jar: Option<Vec<JarCookie>>) -> (action: WatchAction)
        requires
            old(self)@.stage is AwaitCookies,
        ensures
            (final(self)@, action@) == on_cookies(
                old(self)@,
                match jar {
                    Some(raw) => Some(jar_cookie_views(raw@)),
                    None => None,
                },
            ),
    {
        if let Some(raw) = jar {
            if let Ok(cookies) = get_window_cookies(&raw, self.effective_origin.as_str()) {
                let header = format_cookies(&cookies);
                if !header.as_str().is_empty() {
                    self.cookie_header = header;
                }
            }
        }
        if self.cookie_header.as_str().is_empty() {
            self.stage = Stage::AwaitTick;
            WatchAction::AwaitTick { announce: false }
        } else {
            self.stage = Stage::AwaitProfile;
            self.call(CallKind::Profile)
        }
    }

    fn profile(&mut self, response: ApiResponse) -> (action: WatchAction)
        requires
            old(self)@.stage is AwaitProfile,
        ensures
            (final(self)@, action@) == on_profile(old(self)@, response@),
    {
        if response.status != 401 && response.success {
            self.profile = response;
            self.stage = Stage::AwaitLicense;
            self.call(CallKind::License)
        } else {
            self.stage = Stage::AwaitTick;
            WatchAction::AwaitTick { announce: false }
        }
    }

    fn license(&mut self, response: ApiResponse) -> (action: WatchAction)
        requires
            old(self)@.stage is AwaitLicense,
        ensures
            (final(self)@, action@) == on_license(old(self)@, response@),
    {
        self.license_valid = license_is_valid(&response);
        self.stage = Stage::AwaitVersion;
        self.call(CallKind::Version)
    }

    fn version(&mut self, response: ApiResponse) -> (action: WatchAction)
        requires
            old(self)@.stage is AwaitVersion,
        ensures
            (final(self)@, action@) == on_version(old(self)@, response@),
    {
        self.version = resolve_version(&response);
        if self.license_valid {
            self.stage = Stage::AwaitOrgs;
            self.call(CallKind::Orgs)
        } else {
            let outcome = self.success(None);
            self.stage = Stage::Succeeded;
            WatchAction::Finish { outcome, close_window: true }
        }
    }

    fn orgs(&mut self, permission_orgs: ApiResponse, current_org: ApiResponse) -> (action:
        WatchAction)
        requires
            old(self)@.stage is AwaitOrgs,
        ensures
            (final(self)@, action@) == on_orgs(old(self)@, permission_orgs@, current_org@),
    {
        let outcome = self.success(Some(OrgReplies { permission_orgs, current_org }));
        self.stage = Stage::Succeeded;
        WatchAction::Finish { outcome, close_window: true }
    }

    /// Takes one event and says what to do next.
    pub fn step(&mut self, event: WatchEvent) -> (action: WatchAction)
        ensures
            (final(self)@, action@) == step_of(old(self)@, event@),
    {
        match event {
            WatchEvent::Tick { elapsed_ms, window } => {
                if matches!(self.stage, Stage::AwaitTick) {
                    self.tick(elapsed_ms, window)
                } else {
                    self.pending()
                }
            },
            WatchEvent::Cookies { jar } => {
                if matches!(self.stage, Stage::AwaitCookies) {
                    self.cookies(jar)
                } else {
                    self.pending()
                }
            },
            WatchEvent::Profile { response } => {
                if matches!(self.stage, Stage::AwaitProfile) {
                    self.profile(response)
                } else {
                    self.pending()
                }
            },
            WatchEvent::License { response } => {
                if matches!(self.stage, Stage::AwaitLicense) {
                    self.license(response)
                } else {
                    self.pending()
                }
            },
            WatchEvent::Version { response } => {
                if matches!(self.stage, Stage::AwaitVersion) {
                    self.version(response)
                } else {
                    self.pending()
                }
            },
            WatchEvent::Orgs { permission_orgs, current_org } => {
                if matches!(self.stage, Stage::AwaitOrgs) {
                    self.orgs(permission_orgs, current_org)
                } else {
                    self.pending()
                }
            },
        }
    }
}


/// What holds of every state that a watch can reach: without a window there
/// has been no reading and no call; a call is made only with cookies; the
/// bootstrap runs only on a confirmed session; and the organisations are
/// asked for only under a valid licence.
pub open spec fn is_consistent(s: WatchView) -> bool {
    &&& !s.window_seen ==> s.stage is AwaitTick || s.stage is TimedOut || s.stage is WindowClosed
    &&& s.stage is AwaitProfile || s.stage is AwaitLicense || s.stage is AwaitVersion
        || s.stage is AwaitOrgs || s.stage is Succeeded ==> s.cookie_header.len() > 0
    &&& s.stage is AwaitLicense || s.stage is AwaitVersion || s.stage is AwaitOrgs
        || s.stage is Succeeded ==> is_authenticated(s.profile)
    &&& s.stage is AwaitOrgs ==> s.license_valid
}

/// The state after a run of events.
pub open spec fn state_after(s: WatchView, events: Seq<WatchEventView>) -> WatchView
    decreases events.len(),
{
    if events.len() == 0 {
        s
    } else {
        step_of(state_after(s, events.drop_last()), events.last()).0
    }
}

/// The actions that a run of events is answered with, one for each event.
pub open spec fn actions_of(s: WatchView, events: Seq<WatchEventView>) -> Seq<WatchActionView>
    decreases events.len(),
{
    if events.len() == 0 {
        Seq::empty()
    } else {
        actions_of(s, events.drop_last()).push(
            step_of(state_after(s, events.drop_last()), events.last()).1,
        )
    }
}

/// Number of outcomes among a run of actions.
pub open spec fn outcome_count(actions: Seq<WatchActionView>) -> nat
    decreases actions.len(),
{
    if actions.len() == 0 {
        0
    } else {
        outcome_count(actions.drop_last()) + if actions.last() is Finish {
            1nat
        } else {
            0nat
        }
    }
}

/// A watch begins in a consistent state, waiting for its window.
pub proof fn law_watch_begins_waiting(origin: Seq<char>)
    ensures
        is_consistent(initial_watch(origin)),
        phase_of(initial_watch(origin)) == WatchPhase::WaitingForWindow,
        pending_action(initial_watch(origin)) == (WatchActionView::AwaitTick { announce: false }),
{
}

/// No step leads out of the consistent states.
pub proof fn law_step_keeps_consistency(s: WatchView, event: WatchEventView)
    requires
        is_consistent(s),
    ensures
        is_consistent(step_of(s, event).0),
{
}

/// A watch that has ended stays as it is and asks for nothing more.
pub proof fn law_ended_watch_is_idle(s: WatchView, event: WatchEventView)
    requires
        is_terminal(s),
    ensures
        step_of(s, event) == (s, WatchActionView::Halt),
{
}

/// An outcome is published by exactly the step that ends the watch, and it
/// is the outcome of the state that the watch ends in.
pub proof fn law_outcome_ends_watch(s: WatchView, event: WatchEventView)
    ensures
        step_of(s, event).1 is Finish <==> !is_terminal(s) && is_terminal(step_of(s, event).0),
        step_of(s, event).1 matches WatchActionView::Finish { outcome, .. } ==> (match outcome {
            WatchOutcomeView::Authenticated(_) => step_of(s, event).0.stage is Succeeded,
            WatchOutcomeView::TimedOut => step_of(s, event).0.stage is TimedOut,
            WatchOutcomeView::WindowClosed => step_of(s, event).0.stage is WindowClosed,
        }),
{
}

/// Whatever is reported to a watch, and in whatever order, it publishes at
/// most one outcome; none after it has ended.
pub proof fn law_at_most_one_outcome(s: WatchView, events: Seq<WatchEventView>)
    ensures
        outcome_count(actions_of(s, events)) <= 1,
        is_terminal(s) ==> outcome_count(actions_of(s, events)) == 0,
        outcome_count(actions_of(s, events)) == 1 ==> is_terminal(state_after(s, events)),
        is_terminal(s) ==> state_after(s, events) == s,
    decreases events.len(),
{
    if events.len() > 0 {
        let before = events.drop_last();
        law_at_most_one_outcome(s, before);
        let mid = state_after(s, before);
        law_outcome_ends_watch(mid, events.last());
        if is_terminal(mid) {
            law_ended_watch_is_idle(mid, events.last());
        }
        assert(actions_of(s, events).drop_last() =~= actions_of(s, before));
    }
}

/// The deadline: a tick ends the watch as timed out exactly when it comes
/// at or after the deadline, whatever else is true of the window; the
/// window is then closed if it is there.
pub proof fn law_deadline(s: WatchView, elapsed_ms: u64, window: WindowStatusView)
    requires
        s.stage is AwaitTick,
    ensures
        ({
            let (next, action) = step_of(s, WatchEventView::Tick { elapsed_ms, window });
            &&& elapsed_ms >= DEADLINE_MS ==> next.stage is TimedOut && action == (
            WatchActionView::Finish {
                outcome: WatchOutcomeView::TimedOut,
                close_window: window is Present,
            })
            &&& elapsed_ms < DEADLINE_MS ==> !(next.stage is TimedOut) && !(action matches WatchActionView::Finish {
                outcome: WatchOutcomeView::TimedOut,
                ..
            })
        }),
{
}

/// Nothing but a tick at or after the deadline makes a watch time out.
pub proof fn law_timeout_needs_deadline(s: WatchView, event: WatchEventView)
    requires
        step_of(s, event).1 matches WatchActionView::Finish {
            outcome: WatchOutcomeView::TimedOut,
            ..
        },
    ensures
        s.stage is AwaitTick,
        event matches WatchEventView::Tick { elapsed_ms, .. } && elapsed_ms >= DEADLINE_MS,
{
}

/// The time-out comes within one tick of the deadline: where the ticks of a
/// watch are at most `gap_ms` apart and the last one came before the
/// deadline, the watch times out less than `gap_ms` after it.
pub proof fn law_timeout_within_one_tick(
    s: WatchView,
    previous_ms: u64,
    elapsed_ms: u64,
    gap_ms: u64,
    window: WindowStatusView,
)
    requires
        s.stage is AwaitTick,
        previous_ms < DEADLINE_MS <= elapsed_ms,
        elapsed_ms - previous_ms <= gap_ms,
    ensures
        step_of(s, WatchEventView::Tick { elapsed_ms, window }).1 matches WatchActionView::Finish {
            outcome: WatchOutcomeView::TimedOut,
            ..
        },
        DEADLINE_MS <= elapsed_ms < DEADLINE_MS + gap_ms,
{
}

/// The grace period: while the window has never been there, a tick before
/// the end of the grace period only waits on, and a tick after it, and
/// before the deadline, ends the watch as window closed.
pub proof fn law_grace_period(s: WatchView, elapsed_ms: u64)
    requires
        s.stage is AwaitTick,
        !s.window_seen,
        elapsed_ms < DEADLINE_MS,
    ensures
        ({
            let (next, action) = step_of(
                s,
                WatchEventView::Tick { elapsed_ms, window: WindowStatusView::Absent },
            );
            &&& elapsed_ms < GRACE_MS ==> next == (WatchView { logged_waiting: true, ..s })
                && action == (WatchActionView::AwaitTick { announce: !s.logged_waiting })
            &&& elapsed_ms >= GRACE_MS ==> next.stage is WindowClosed && action == (
            WatchActionView::Finish {
                outcome: WatchOutcomeView::WindowClosed,
                close_window: false,
            })
        }),
{
}

/// A window that was there and is gone ends the watch at the next tick.
pub proof fn law_closed_window_ends_watch(s: WatchView, elapsed_ms: u64)
    requires
        s.stage is AwaitTick,
        s.window_seen,
        elapsed_ms < DEADLINE_MS,
    ensures
        step_of(s, WatchEventView::Tick { elapsed_ms, window: WindowStatusView::Absent }).1 == (
        WatchActionView::Finish { outcome: WatchOutcomeView::WindowClosed, close_window: false }),
{
}

/// The ticks of a watch whose window is never there.
pub open spec fn ticks_without_window(times: Seq<u64>) -> Seq<WatchEventView> {
    times.map_values(
        |t: u64| WatchEventView::Tick { elapsed_ms: t, window: WindowStatusView::Absent },
    )
}

proof fn lemma_waiting_through_grace(origin: Seq<char>, times: Seq<u64>)
    requires
        forall|i: int| 0 <= i < times.len() ==> times[i] < GRACE_MS,
    ensures
        state_after(initial_watch(origin), ticks_without_window(times)).stage is AwaitTick,
        !state_after(initial_watch(origin), ticks_without_window(times)).window_seen,
        actions_of(initial_watch(origin), ticks_without_window(times)).len() == times.len(),
        forall|i: int|
            0 <= i < times.len() ==> (#[trigger] actions_of(
                initial_watch(origin),
                ticks_without_window(times),
            )[i]) is AwaitTick,
    decreases times.len(),
{
    if times.len() > 0 {
        let events = ticks_without_window(times);
        lemma_waiting_through_grace(origin, times.drop_last());
        assert(events.drop_last() =~= ticks_without_window(times.drop_last()));
    }
}

/// A watch whose window never appears: every tick within the grace period
/// is answered by waiting on, the first tick after it ends the watch as
/// window closed, and no cookie is read and no call is made.
pub proof fn law_window_never_appears(origin: Seq<char>, times: Seq<u64>)
    requires
        times.len() > 0,
        forall|i: int| 0 <= i < times.len() - 1 ==> times[i] < GRACE_MS,
        GRACE_MS <= times.last() < DEADLINE_MS,
    ensures
        ({
            let actions = actions_of(initial_watch(origin), ticks_without_window(times));
            &&& actions.len() == times.len()
            &&& forall|i: int| 0 <= i < times.len() - 1 ==> (#[trigger] actions[i]) is AwaitTick
            &&& actions.last() == (WatchActionView::Finish {
                outcome: WatchOutcomeView::WindowClosed,
                close_window: false,
            })
            &&& state_after(initial_watch(origin), ticks_without_window(times)).stage
                is WindowClosed
        }),
{
    let events = ticks_without_window(times);
    lemma_waiting_through_grace(origin, times.drop_last());
    assert(events.drop_last() =~= ticks_without_window(times.drop_last()));
    let actions = actions_of(initial_watch(origin), events);
    assert forall|i: int| 0 <= i < times.len() - 1 implies (#[trigger] actions[i]) is AwaitTick by {
        assert(actions[i] == actions_of(initial_watch(origin), events.drop_last())[i]);
    }
}

/// Without a valid licence the organisations are not asked for: the answer
/// of the version call ends the watch, and the outcome carries the two
/// stubs in place of the answers of the organisation calls.
pub proof fn law_bootstrap_skips_orgs(s: WatchView, response: ApiResponseView)
    requires
        s.stage is AwaitVersion,
        !s.license_valid,
    ensures
        step_of(s, WatchEventView::Version { response }).1 matches WatchActionView::Finish {
            outcome: WatchOutcomeView::Authenticated(success),
            close_window,
        } && close_window && !success.license_valid && success.permission_orgs
            == crate::service::user::stub_response(
            crate::service::user::empty_permission_orgs_body(),
        ) && success.current_org == crate::service::user::stub_response(
            crate::service::user::empty_current_org_body(),
        ) && success.profile == s.profile && success.version == version_of(response)
            && success.cookie_header == s.cookie_header && success.resolved_origin
            == s.effective_origin,
{
}

/// Under a valid licence the outcome carries what the organisation calls
/// answered.
pub proof fn law_bootstrap_keeps_org_answers(
    s: WatchView,
    permission_orgs: ApiResponseView,
    current_org: ApiResponseView,
)
    requires
        s.stage is AwaitOrgs,
    ensures
        step_of(s, WatchEventView::Orgs { permission_orgs, current_org }).1
            matches WatchActionView::Finish {
            outcome: WatchOutcomeView::Authenticated(success),
            ..
        } && success.permission_orgs == permission_orgs && success.current_org == current_org,
{
}

/// The licence decides whether the organisations are asked for: a failed
/// public-settings call, or one without the flag, leaves the watch without
/// a valid licence.
pub proof fn law_failed_license_call_is_no_license(s: WatchView, response: ApiResponseView)
    requires
        s.stage is AwaitLicense,
        response.status != 200 || !response.success,
    ensures
        !step_of(s, WatchEventView::License { response }).0.license_valid,
{
}

} // verus!
