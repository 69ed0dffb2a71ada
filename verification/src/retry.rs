//! Waiting for a window that has been asked for but is not there yet.

use vstd::prelude::*;
use vstd::string::StringExecFns;

verus! {

/// How often the window is looked for before the search gives up.
pub const WINDOW_ATTEMPTS: u32 = 10;

/// Pause before every attempt but the first, in milliseconds.
pub const RETRY_PAUSE_MS: u64 = 100;

/// Pause between finding the window and reading its cookie jar, in
/// milliseconds: the page needs the time to store what it was sent.
pub const COOKIE_SETTLE_MS: u64 = 1_000;

/// What to do after an attempt to find the window.
#[derive(Clone, Copy, Debug, PartialEq, Eq, Structural)]
pub enum WindowSearch {
    /// The window is there.
    Found,
    /// Wait for `pause_ms`, then look again.
    LookAgain { pause_ms: u64 },
    /// Every attempt has been made: the window is not found.
    NotFound,
}

/// The step after `attempts` attempts, the last of which found the window
/// or did not.
pub open spec fn search_step(attempts: u32, found: bool) -> WindowSearch {
    if found {
        WindowSearch::Found
    } else if attempts < WINDOW_ATTEMPTS {
        WindowSearch::LookAgain { pause_ms: RETRY_PAUSE_MS }
    } else {
        WindowSearch::NotFound
    }
}

/// Decides how the search for the window goes on. The first attempt is
/// made at once and is not counted here as a pause; the search fails only
/// when the last of the attempts has failed.
pub fn after_attempt(attempts: u32, found: bool) -> (step: WindowSearch)
    ensures
        step == search_step(attempts, found),
        step is NotFound <==> !found && attempts >= WINDOW_ATTEMPTS,
{
    if found {
        WindowSearch::Found
    } else if attempts < WINDOW_ATTEMPTS {
        WindowSearch::LookAgain { pause_ms: RETRY_PAUSE_MS }
    } else {
        WindowSearch::NotFound
    }
}

/// The error of a search that did not find the window `label`.
pub fn window_not_found(label: &str) -> (message: String)
    ensures
        message@ == "window '"@ + label@ + "' not found after retries"@,
{
    let mut message = String::from_str("window '");
    message.append(label);
    message.append("' not found after retries");
    message
}

/// The state of a search after a run of failed attempts: how many attempts
/// were made and how long the search has paused in all.
pub open spec fn after_failures(failures: nat) -> (nat, nat)
    decreases failures,
{
    if failures == 0 {
        (0, 0)
    } else {
        let (attempts, paused) = after_failures((failures - 1) as nat);
        (
            attempts + 1,
            if attempts == 0 {
                paused
            } else {
                paused + RETRY_PAUSE_MS as nat
            },
        )
    }
}

/// A search that never finds the window gives up after exactly the allowed
/// number of attempts, having paused once between each two of them.
pub proof fn law_search_is_bounded(failures: nat)
    requires
        1 <= failures <= WINDOW_ATTEMPTS,
    ensures
        after_failures(failures).0 == failures,
        after_failures(failures).1 == (failures - 1) * RETRY_PAUSE_MS,
        search_step(failures as u32, false) is NotFound <==> failures == WINDOW_ATTEMPTS,
    decreases failures,
{
    if failures > 1 {
        law_search_is_bounded((failures - 1) as nat);
    } else {
        assert(after_failures(0) == (0nat, 0nat));
    }
}

} // verus!
