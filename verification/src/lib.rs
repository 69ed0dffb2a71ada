//! Session acquisition for a desktop client that signs in through an embedded
//! browser window.
//!
//! The client opens a window on the sign-in page of a remote service and
//! watches it: once the window holds cookies that the service accepts, the
//! user is signed in. This library holds what the client decides along the
//! way. Every function states what it returns, and the statement is proved;
//! the few calls into other crates stand behind contracts that are taken on
//! trust and say so:
//!
//! - [`cookies`]: which cookies of the window's jar belong to a site, and the
//!   one `Cookie` header that they make;
//! - [`watcher`]: the state machine that turns ticks, readings of the jar and
//!   answers of the service into exactly one outcome;
//! - [`requests`] and [`service`]: where each remote call goes, what it
//!   carries, and how its answer is read;
//! - [`origin`], [`retry`], [`json`], [`commands`]: sites and hosts, the
//!   search for a window, JSON values, and what each command decides.
//!
//! Nothing here touches a window, a socket or a file. Whoever uses the
//! library does that, and hands in what it found. The one thing the library
//! asks the machine itself is the offset of the local time zone.

pub mod commands;
pub mod cookies;
pub mod json;
pub mod models;
pub mod origin;
pub mod requests;
pub mod retry;
pub mod service;
pub mod text;
pub mod watcher;
