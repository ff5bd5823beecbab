//! Deciding whether the pager can start on the terminal it found.

use termwiz::caps::Capabilities;
use vstd::prelude::*;
use vstd::string::StringExecFns;

verus! {

/// The capabilities of a terminal as the `termwiz` crate describes them,
/// opaque to the verifier.
#[verifier::external_type_specification]
#[verifier::external_body]
pub struct ExCapabilities(Capabilities);

/// Whether capabilities hold a terminfo entry: what
/// `Capabilities::terminfo_db` finds in them.
pub uninterp spec fn caps_hold_terminfo(caps: Capabilities) -> bool;

/// `Capabilities::terminfo_db`: whether the capabilities hold a terminfo
/// entry. The method reads a field of its argument and nothing else, so
/// the answer depends on the capabilities alone.
#[verifier::external_body]
fn holds_terminfo(caps: &Capabilities) -> (found: bool)
    ensures
        found == caps_hold_terminfo(*caps),
{
    caps.terminfo_db().is_some()
}

/// Why the pager cannot start.
#[derive(Clone, Copy, Debug, PartialEq, Eq, Structural)]
pub enum StartupError {
    /// The terminal is driven through terminfo, and no terminfo entry was
    /// found for it.
    TerminfoNotFound,
}

/// The text of the message for a startup error.
pub open spec fn startup_message(error: StartupError) -> Seq<char> {
    match error {
        StartupError::TerminfoNotFound => "terminfo database not found (is $TERM correct?)"@,
    }
}

impl StartupError {
    /// The message to show to the user.
    pub fn message(&self) -> (text: String)
        ensures
            text@ == startup_message(*self),
    {
        match self {
            StartupError::TerminfoNotFound => String::from_str(
                "terminfo database not found (is $TERM correct?)",
            ),
        }
    }
}

/// Decides whether the pager can start on a terminal: it cannot where the
/// platform drives terminals through terminfo and no entry was found.
pub fn check_capabilities(needs_terminfo: bool, has_terminfo: bool) -> (result: Result<
    (),
    StartupError,
>)
    ensures
        result == if needs_terminfo && !has_terminfo {
            Err::<(), StartupError>(StartupError::TerminfoNotFound)
        } else {
            Ok::<(), StartupError>(())
        },
{
    if needs_terminfo && !has_terminfo {
        Err(StartupError::TerminfoNotFound)
    } else {
        Ok(())
    }
}

/// Accepts the capabilities found for the terminal, or refuses them where
/// the platform needs a terminfo entry and they hold none: the pager does
/// not start on such a terminal. Accepted capabilities are handed back as
/// they came.
pub fn accept_capabilities(caps: Capabilities, needs_terminfo: bool) -> (result: Result<
    Capabilities,
    StartupError,
>)
    ensures
        result is Err <==> needs_terminfo && !caps_hold_terminfo(caps),
        match result {
            Ok(accepted) => accepted == caps,
            Err(e) => e == StartupError::TerminfoNotFound,
        },
{
    match check_capabilities(needs_terminfo, holds_terminfo(&caps)) {
        Ok(()) => Ok(caps),
        Err(e) => Err(e),
    }
}

} // verus!
