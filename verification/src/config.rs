//! Configuration of the pager.

use crate::parse::{decimal_value, is_decimal, parse_decimal};
use vstd::prelude::*;
use vstd::slice::slice_subrange;
use vstd::utf8::encode_utf8;

verus! {

/// Default number of lines laid out ahead of the viewport.
pub const DEFAULT_READ_AHEAD_LINES: usize = 5000;

/// When the pager takes over the whole screen.
#[derive(Clone, Copy, Debug, PartialEq, Eq, Structural)]
pub enum InterfaceMode {
    /// Page interactively on the full screen from the start.
    FullScreen,
    /// Never page: write everything straight to the output.
    Direct,
    /// Write straight to the output if everything fits on one screen,
    /// page as soon as it does not.
    Hybrid,
    /// Wait up to the given number of milliseconds for the output to end:
    /// write it straight to the output if it has ended and fits on one
    /// screen, page if the time is over or the screen is full.
    Delayed(u64),
}

/// The options of one run.
#[derive(Clone, Copy, Debug, PartialEq, Eq, Structural)]
pub struct Config {
    /// When the pager takes over the whole screen.
    pub interface_mode: InterfaceMode,
    /// Whether the last line may scroll above the bottom row.
    pub scroll_past_eof: bool,
    /// How many lines beyond the viewport are laid out after a redraw.
    pub read_ahead_lines: usize,
}

impl Config {
    /// Full screen, scrolling past the end allowed, default read-ahead.
    pub fn new() -> (config: Config)
        ensures
            config == (Config {
                interface_mode: InterfaceMode::FullScreen,
                scroll_past_eof: true,
                read_ahead_lines: DEFAULT_READ_AHEAD_LINES,
            }),
    {
        Config {
            interface_mode: InterfaceMode::FullScreen,
            scroll_past_eof: true,
            read_ahead_lines: DEFAULT_READ_AHEAD_LINES,
        }
    }
}

/// How to begin: page, write straight to the output, or wait and decide
/// again.
#[derive(Clone, Copy, Debug, PartialEq, Eq, Structural)]
pub enum Startup {
    /// Page interactively.
    Page,
    /// Write everything straight to the output.
    Passthrough,
    /// Nothing is decided yet.
    Wait,
}

/// How to begin in `mode` when `elapsed_ms` milliseconds have passed,
/// `all_ended` says whether every source has ended and `fits` whether all
/// that was read fits on one screen.
pub open spec fn startup_of(mode: InterfaceMode, elapsed_ms: u64, all_ended: bool, fits: bool) -> Startup {
    match mode {
        InterfaceMode::FullScreen => Startup::Page,
        InterfaceMode::Direct => Startup::Passthrough,
        InterfaceMode::Hybrid => if !fits {
            Startup::Page
        } else if all_ended {
            Startup::Passthrough
        } else {
            Startup::Wait
        },
        InterfaceMode::Delayed(ms) => if all_ended && fits {
            Startup::Passthrough
        } else if !fits || elapsed_ms >= ms {
            Startup::Page
        } else {
            Startup::Wait
        },
    }
}

/// Decides how to begin.
pub fn startup(mode: InterfaceMode, elapsed_ms: u64, all_ended: bool, fits: bool) -> (decision:
    Startup)
    ensures
        decision == startup_of(mode, elapsed_ms, all_ended, fits),
{
    match mode {
        InterfaceMode::FullScreen => Startup::Page,
        InterfaceMode::Direct => Startup::Passthrough,
        InterfaceMode::Hybrid => if !fits {
            Startup::Page
        } else if all_ended {
            Startup::Passthrough
        } else {
            Startup::Wait
        },
        InterfaceMode::Delayed(ms) => if all_ended && fits {
            Startup::Passthrough
        } else if !fits || elapsed_ms >= ms {
            Startup::Page
        } else {
            Startup::Wait
        },
    }
}

/// Whether `text` is the word `word`.
pub open spec fn is_word(text: Seq<u8>, word: Seq<char>) -> bool {
    text == encode_utf8(word)
}

/// What stands before the number of milliseconds of a delayed mode.
pub open spec fn delayed_prefix() -> Seq<u8> {
    encode_utf8("delayed:"@)
}

/// The interface mode that `text` names: `full` or `fullscreen`,
/// `direct`, `hybrid`, or `delayed:` and a number of milliseconds. `None`
/// for any other text.
pub open spec fn parsed_mode(text: Seq<u8>) -> Option<InterfaceMode> {
    if is_word(text, "full"@) || is_word(text, "fullscreen"@) {
        Some(InterfaceMode::FullScreen)
    } else if is_word(text, "direct"@) {
        Some(InterfaceMode::Direct)
    } else if is_word(text, "hybrid"@) {
        Some(InterfaceMode::Hybrid)
    } else if text.len() >= delayed_prefix().len() && text.take(delayed_prefix().len() as int)
        == delayed_prefix() && is_decimal(text.skip(delayed_prefix().len() as int)) {
        Some(
            InterfaceMode::Delayed(decimal_value(text.skip(delayed_prefix().len() as int)) as u64),
        )
    } else {
        None
    }
}

/// The truth value that `text` names: `1`, `true`, `yes` or `on` for
/// true; `0`, `false`, `no` or `off` for false. `None` for any other text.
pub open spec fn parsed_flag(text: Seq<u8>) -> Option<bool> {
    if is_word(text, "1"@) || is_word(text, "true"@) || is_word(text, "yes"@) || is_word(
        text,
        "on"@,
    ) {
        Some(true)
    } else if is_word(text, "0"@) || is_word(text, "false"@) || is_word(text, "no"@) || is_word(
        text,
        "off"@,
    ) {
        Some(false)
    } else {
        None
    }
}

/// The bytes of a setting, if it is given.
pub open spec fn setting(text: Option<&[u8]>) -> Option<Seq<u8>> {
    match text {
        Some(t) => Some(t@),
        None => None,
    }
}

/// `base` with the settings that are given and well-formed in place of
/// its own; a setting that is missing or malformed changes nothing.
pub open spec fn configured(
    base: Config,
    interface_mode: Option<Seq<u8>>,
    scroll_past_eof: Option<Seq<u8>>,
    read_ahead_lines: Option<Seq<u8>>,
) -> Config {
    Config {
        interface_mode: match interface_mode {
            Some(text) if parsed_mode(text) is Some => parsed_mode(text)->0,
            _ => base.interface_mode,
        },
        scroll_past_eof: match scroll_past_eof {
            Some(text) if parsed_flag(text) is Some => parsed_flag(text)->0,
            _ => base.scroll_past_eof,
        },
        read_ahead_lines: match read_ahead_lines {
            Some(text) if is_decimal(text) => decimal_value(text) as usize,
            _ => base.read_ahead_lines,
        },
    }
}

/// Whether two byte strings are equal.
fn same_bytes(a: &[u8], b: &[u8]) -> (same: bool)
    ensures
        same == (a@ == b@),
{
    if a.len() != b.len() {
        return false;
    }
    let mut i: usize = 0;
    while i < a.len()
        invariant
            a@.len() == b@.len(),
            i <= a@.len(),
            forall|k: int| 0 <= k < i ==> a@[k] == b@[k],
        decreases a@.len() - i,
    {
        if a[i] != b[i] {
            return false;
        }
        i += 1;
    }
    assert(a@ =~= b@);
    true
}

/// Reads the name of an interface mode.
pub fn parse_mode(text: &[u8]) -> (mode: Option<InterfaceMode>)
    ensures
        mode == parsed_mode(text@),
{
    if same_bytes(text, "full".as_bytes()) || same_bytes(text, "fullscreen".as_bytes()) {
        return Some(InterfaceMode::FullScreen);
    }
    if same_bytes(text, "direct".as_bytes()) {
        return Some(InterfaceMode::Direct);
    }
    if same_bytes(text, "hybrid".as_bytes()) {
        return Some(InterfaceMode::Hybrid);
    }
    let prefix = "delayed:".as_bytes();
    let n = prefix.len();
    if text.len() >= n && same_bytes(slice_subrange(text, 0, n), prefix) {
        if let Some(ms) = parse_decimal(slice_subrange(text, n, text.len())) {
            return Some(InterfaceMode::Delayed(ms as u64));
        }
    }
    None
}

/// Reads a truth value.
pub fn parse_flag(text: &[u8]) -> (flag: Option<bool>)
    ensures
        flag == parsed_flag(text@),
{
    if same_bytes(text, "1".as_bytes()) || same_bytes(text, "true".as_bytes()) || same_bytes(
        text,
        "yes".as_bytes(),
    ) || same_bytes(text, "on".as_bytes()) {
        Some(true)
    } else if same_bytes(text, "0".as_bytes()) || same_bytes(text, "false".as_bytes())
        || same_bytes(text, "no".as_bytes()) || same_bytes(text, "off".as_bytes()) {
        Some(false)
    } else {
        None
    }
}

impl Config {
    /// These options with the given settings in place of their own. A
    /// setting that is missing or malformed changes nothing.
    pub fn with_settings(
        self,
        interface_mode: Option<&[u8]>,
        scroll_past_eof: Option<&[u8]>,
        read_ahead_lines: Option<&[u8]>,
    ) -> (config: Config)
        ensures
            config == configured(
                self,
                setting(interface_mode),
                setting(scroll_past_eof),
                setting(read_ahead_lines),
            ),
    {
        let mut config = self;
        if let Some(text) = interface_mode {
            if let Some(mode) = parse_mode(text) {
                config.interface_mode = mode;
            }
        }
        if let Some(text) = scroll_past_eof {
            if let Some(flag) = parse_flag(text) {
                config.scroll_past_eof = flag;
            }
        }
        if let Some(text) = read_ahead_lines {
            if let Some(lines) = parse_decimal(text) {
                config.read_ahead_lines = lines;
            }
        }
        config
    }
}

} // verus!
