//! The state of the main loop and its transitions.
//!
//! The loop itself runs outside: it takes the next event from the queue,
//! hands it to `Display::handle_event` together with the file on screen,
//! and carries out what the returned effect asks for.

use crate::command::{Action, KeyEvent, Keymap, bound_action};
use crate::config::Config;
use crate::event::{Event, MouseKind};
use crate::file::File;
use crate::line_index::line_count;
use crate::pager::{vec_map_entries, vec_map_get};
use crate::parse::{decimal_value, is_decimal, parse_decimal};
use crate::prompt::{after_key, cleared, key_cancels, key_submits, Prompt, PromptResult, PromptView};
use crate::refresh::{Refresh, RefreshDecision};
use crate::search::{
    find, match_of, opposite, reversed, search_answers, Direction, Match, SearchOutcome,
};
use crate::screen::{
    bottom_top, last_screen_top, lemma_bottom_top, row_of, row_of_line, rows_of_lines,
};
use crate::viewport::{
    clamp_top, clamped_top, greatest_top, max_top, reveal_line, revealing_top, scroll, scrolled_top,
};
use vec_map::VecMap;
use vstd::prelude::*;
use vstd::slice::slice_to_vec;

verus! {

/// Least time between two redraws caused by arriving data, in
/// milliseconds.
pub const REFRESH_INTERVAL_MS: u64 = 50;

/// Number of lines that one step of the mouse wheel scrolls.
pub const WHEEL_LINES: usize = 3;

/// What the pager is doing.
#[derive(Clone, Copy, Debug, PartialEq, Eq, Structural)]
pub enum Mode {
    /// Showing a file and taking commands.
    Viewing,
    /// Taking the pattern of a search.
    Searching,
    /// Taking a line number.
    Prompting,
    /// Leaving. No event changes anything any more.
    Exiting,
}

/// The search in progress.
#[derive(Clone, Debug, PartialEq, Eq)]
pub struct ActiveSearch {
    pub pattern: Vec<u8>,
    pub direction: Direction,
    pub last_match: Option<Match>,
}

/// What the user sees and where.
#[derive(Clone, Debug, PartialEq, Eq)]
pub struct PagerState {
    /// Index of the file on screen, or of the output whose error stream is
    /// on screen.
    pub active_file: usize,
    /// The line at the top of the screen.
    pub top_line: usize,
    /// The row of the line last jumped to, counted from the top line.
    pub cursor_row: usize,
    pub mode: Mode,
    pub search: Option<ActiveSearch>,
    /// For each file, whether its error stream is shown in its place.
    pub error_view: Vec<bool>,
}

/// The search in progress, as a mathematical value.
pub struct SearchView {
    pub pattern: Seq<u8>,
    pub direction: Direction,
    pub last_match: Option<Match>,
}

/// The state of the main loop, as a mathematical value.
pub struct DisplayView {
    pub file_count: usize,
    pub error_files: Map<usize, usize>,
    pub config: Config,
    pub width: usize,
    pub height: usize,
    pub active_file: usize,
    pub top_line: usize,
    pub cursor_row: usize,
    pub mode: Mode,
    pub entering: Direction,
    pub search: Option<SearchView>,
    pub error_view: Seq<bool>,
}

/// What handling an action or a key led to.
#[derive(Clone, Copy, Debug, PartialEq, Eq, Structural)]
pub struct ActionOutcome {
    /// Whether the screen has to be drawn again.
    pub redraw: bool,
    /// The outcome of the search that was made, if one was made.
    pub search: Option<SearchOutcome>,
}

/// What the main loop has to do after an event.
#[derive(Clone, Copy, Debug, PartialEq, Eq, Structural)]
pub struct Effect {
    /// Whether the screen has to be drawn again now.
    pub redraw: bool,
    /// Whether the loop has to end.
    pub quit: bool,
    /// A time at which `Display::tick` has to be called, if no event
    /// arrives before.
    pub wake_at: Option<u64>,
    /// The outcome of the search that was made, if one was made.
    pub search: Option<SearchOutcome>,
}

/// The search of a state as a mathematical value.
pub open spec fn search_view(search: Option<ActiveSearch>) -> Option<SearchView> {
    match search {
        Some(s) => Some(
            SearchView { pattern: s.pattern@, direction: s.direction, last_match: s.last_match },
        ),
        None => None,
    }
}

/// The index of the file on screen: the active file, or its error stream
/// if that is asked for and there is one.
pub open spec fn visible_index(d: DisplayView) -> usize {
    if 0 <= d.active_file < d.error_view.len() && d.error_view[d.active_file as int]
        && d.error_files.contains_key(d.active_file) {
        d.error_files[d.active_file]
    } else {
        d.active_file
    }
}

/// `d` with another file on screen: at its top, with no occurrence marked.
pub open spec fn switched(d: DisplayView, active_file: usize, error_view: Seq<bool>) -> DisplayView {
    DisplayView {
        active_file,
        error_view,
        top_line: 0,
        cursor_row: 0,
        search: match d.search {
            Some(s) => Some(SearchView { last_match: None, ..s }),
            None => None,
        },
        ..d
    }
}

/// Whether `action` moves to another occurrence of an active search.
pub open spec fn is_search_step(d: DisplayView, action: Action) -> bool {
    d.mode == Mode::Viewing && d.search is Some && (action == Action::NextMatch || action
        == Action::PreviousMatch)
}

/// The top line of the last screen of a file with bytes `data` on the
/// screen of `d`.
pub open spec fn last_top(d: DisplayView, data: Seq<u8>) -> int {
    bottom_top(data, d.width as nat, d.height as nat)
}

/// The greatest top line allowed for a file with bytes `data` on the
/// screen of `d`.
pub open spec fn top_limit(d: DisplayView, data: Seq<u8>) -> int {
    max_top(line_count(data) as int, last_top(d, data), d.config.scroll_past_eof)
}

/// The state after `action`, for a file with bytes `data` on screen.
///
/// Once the pager is exiting nothing changes. `Quit` makes it exit from
/// any other mode. While a prompt is open only `Cancel` is obeyed, which
/// closes it. All other actions are obeyed while viewing. A move to
/// another occurrence is described by `after_search`.
pub open spec fn after_action(d: DisplayView, action: Action, data: Seq<u8>) -> DisplayView {
    if d.mode == Mode::Exiting {
        d
    } else if action == Action::Quit {
        DisplayView { mode: Mode::Exiting, ..d }
    } else if d.mode != Mode::Viewing {
        if action == Action::Cancel {
            DisplayView { mode: Mode::Viewing, ..d }
        } else {
            d
        }
    } else {
        match action {
            Action::ScrollUp(_)
            | Action::ScrollDown(_)
            | Action::PageUp
            | Action::PageDown
            | Action::Top
            | Action::Bottom => DisplayView {
                top_line: scrolled_top(
                    d.top_line as int,
                    action,
                    top_limit(d, data),
                    last_top(d, data),
                    d.height as int,
                ) as usize,
                cursor_row: 0,
                ..d
            },
            Action::PromptGoToLine => DisplayView { mode: Mode::Prompting, ..d },
            Action::PromptSearch(direction) => DisplayView {
                mode: Mode::Searching,
                entering: direction,
                ..d
            },
            Action::ToggleErrorView => if d.error_files.contains_key(d.active_file) {
                switched(
                    d,
                    d.active_file,
                    d.error_view.update(d.active_file as int, !d.error_view[d.active_file as int]),
                )
            } else {
                d
            },
            Action::NextFile => if d.active_file + 1 < d.file_count {
                switched(d, (d.active_file + 1) as usize, d.error_view)
            } else {
                d
            },
            Action::PreviousFile => if d.active_file > 0 {
                switched(d, (d.active_file - 1) as usize, d.error_view)
            } else {
                d
            },
            _ => d,
        }
    }
}

/// The position at which a search in `direction` starts: just past the
/// occurrence found last, or at the top line if none is marked. `None`
/// where the occurrence found last stands at the very start and the
/// search goes backward.
pub open spec fn search_start(d: DisplayView, direction: Direction) -> Option<(usize, usize)> {
    let last = match d.search {
        Some(s) => s.last_match,
        None => None,
    };
    match last {
        Some(m) => match direction {
            Direction::Forward => if m.start < usize::MAX {
                Some((m.line, (m.start + 1) as usize))
            } else {
                None
            },
            Direction::Backward => if m.start > 0 {
                Some((m.line, (m.start - 1) as usize))
            } else if m.line > 0 {
                Some(((m.line - 1) as usize, usize::MAX))
            } else {
                None
            },
        },
        None => match direction {
            Direction::Forward => Some((d.top_line, 0)),
            Direction::Backward => Some((d.top_line, usize::MAX)),
        },
    }
}

/// The state after a search that found `found` in a file with bytes
/// `data`: the occurrence is marked, its line is on screen, and the cursor
/// row is the row at which that line starts. Without an occurrence
/// nothing changes.
pub open spec fn after_search(d: DisplayView, found: Option<Match>, data: Seq<u8>) -> DisplayView {
    match (found, d.search) {
        (Some(m), Some(s)) => {
            let top = revealing_top(
                d.top_line as int,
                m.line as int,
                row_of_line(data, d.width as nat, d.top_line as int, m.line as int, d.height as int),
                d.height as int,
                top_limit(d, data),
            );
            DisplayView {
                top_line: top as usize,
                cursor_row: row_of_line(
                    data,
                    d.width as nat,
                    top,
                    m.line as int,
                    d.height as int,
                ) as usize,
                search: Some(SearchView { last_match: Some(m), ..s }),
                ..d
            }
        },
        _ => d,
    }
}

/// The direction of a step to another occurrence: that of the search for
/// `NextMatch`, the opposite for `PreviousMatch`.
pub open spec fn step_direction(d: DisplayView, action: Action) -> Direction {
    let direction = match d.search {
        Some(s) => s.direction,
        None => Direction::Forward,
    };
    if action == Action::PreviousMatch {
        opposite(direction)
    } else {
        direction
    }
}

/// Whether `post` and `outcome` are what a search in `direction` from the
/// state `d` leads to, in a file with bytes `data`.
pub open spec fn searched(
    d: DisplayView,
    post: DisplayView,
    direction: Direction,
    data: Seq<u8>,
    loading: bool,
    file: usize,
    outcome: SearchOutcome,
) -> bool {
    match (d.search, search_start(d, direction)) {
        (Some(s), Some((line, at))) => search_answers(
            data,
            loading,
            file,
            s.pattern,
            direction,
            line as int,
            at as int,
            outcome,
        ) && post == after_search(d, match_of(outcome), data),
        _ => outcome == SearchOutcome::NoMatch && post == d,
    }
}

/// The state after the text of a prompt for a line number was submitted:
/// the pager is viewing again, and if the text is a number from 1 on, the
/// line with that number is the top line, as far as the end of the file
/// allows. Any other text is ignored.
pub open spec fn after_go_to_line(d: DisplayView, text: Seq<u8>, data: Seq<u8>) -> DisplayView {
    if is_decimal(text) && decimal_value(text) >= 1 {
        DisplayView {
            mode: Mode::Viewing,
            top_line: clamped_top(decimal_value(text) - 1, top_limit(d, data)) as usize,
            cursor_row: 0,
            ..d
        }
    } else {
        DisplayView { mode: Mode::Viewing, ..d }
    }
}

/// The state in which a submitted pattern is searched for: viewing, with
/// the pattern as the active search and no occurrence marked.
pub open spec fn with_new_search(d: DisplayView, pattern: Seq<u8>) -> DisplayView {
    DisplayView {
        mode: Mode::Viewing,
        search: Some(SearchView { pattern, direction: d.entering, last_match: None }),
        ..d
    }
}

/// The state in which the main loop starts: viewing the first file from
/// its top, no search, no error stream shown. Without files there is
/// nothing to view and the pager is exiting.
pub open spec fn initial_view(
    file_count: usize,
    error_files: Map<usize, usize>,
    config: Config,
    width: usize,
    height: usize,
) -> DisplayView {
    DisplayView {
        file_count,
        error_files,
        config,
        width,
        height,
        active_file: 0,
        top_line: 0,
        cursor_row: 0,
        mode: if file_count > 0 {
            Mode::Viewing
        } else {
            Mode::Exiting
        },
        entering: Direction::Forward,
        search: None,
        error_view: Seq::new(file_count as nat, |i: int| false),
    }
}

/// Whether `post` and `outcome` are what `action` leads to from the state
/// `d`, with a file of bytes `data` on screen.
pub open spec fn acted(
    d: DisplayView,
    post: DisplayView,
    action: Action,
    data: Seq<u8>,
    loading: bool,
    file: usize,
    outcome: ActionOutcome,
) -> bool {
    &&& outcome.redraw == (d.mode != Mode::Exiting)
    &&& if is_search_step(d, action) {
        outcome.search is Some && searched(
            d,
            post,
            step_direction(d, action),
            data,
            loading,
            file,
            outcome.search->0,
        )
    } else {
        outcome.search is None && post == after_action(d, action, data)
    }
}

/// Whether `post` and `outcome` are what submitting `text` leads to from
/// the state `d`, with a file of bytes `data` on screen.
///
/// A pattern is searched for from the top line in the direction that was
/// asked for; an empty pattern only closes the prompt. A line number
/// makes its line the top line. Outside a prompt nothing happens.
pub open spec fn submitted(
    d: DisplayView,
    post: DisplayView,
    text: Seq<u8>,
    data: Seq<u8>,
    loading: bool,
    file: usize,
    outcome: ActionOutcome,
) -> bool {
    match d.mode {
        Mode::Searching => outcome.redraw && if text.len() == 0 {
            outcome.search is None && post == (DisplayView { mode: Mode::Viewing, ..d })
        } else {
            outcome.search is Some && searched(
                with_new_search(d, text),
                post,
                d.entering,
                data,
                loading,
                file,
                outcome.search->0,
            )
        },
        Mode::Prompting => outcome.redraw && outcome.search is None && post == after_go_to_line(
            d,
            text,
            data,
        ),
        _ => !outcome.redraw && outcome.search is None && post == d,
    }
}

/// The prompt after an action: emptied if the action changed the mode,
/// else as it was.
pub open spec fn prompt_after(pre: PromptView, post: PromptView, mode_changed: bool) -> bool {
    post == if mode_changed {
        cleared(pre.history)
    } else {
        pre
    }
}

/// Whether `post`, `post_prompt` and `outcome` are what the key `key`
/// leads to from the state `d` with the prompt `pre_prompt`.
///
/// While viewing, the key is looked up in `bindings` and its action is
/// carried out; a key without binding does nothing. While a prompt is
/// open, the key goes to the editor: it submits, cancels or edits.
pub open spec fn keyed(
    d: DisplayView,
    post: DisplayView,
    bindings: Seq<crate::command::Binding>,
    pre_prompt: PromptView,
    post_prompt: PromptView,
    key: KeyEvent,
    data: Seq<u8>,
    loading: bool,
    file: usize,
    outcome: ActionOutcome,
) -> bool {
    match d.mode {
        Mode::Viewing => match bound_action(bindings, key) {
            Some(action) => acted(d, post, action, data, loading, file, outcome) && prompt_after(
                pre_prompt,
                post_prompt,
                post.mode != d.mode,
            ),
            None => post == d && post_prompt == pre_prompt && outcome == (ActionOutcome {
                redraw: false,
                search: None,
            }),
        },
        Mode::Searching | Mode::Prompting => post_prompt == after_key(pre_prompt, key) && if key_submits(
            key,
        ) {
            submitted(d, post, pre_prompt.text, data, loading, file, outcome)
        } else if key_cancels(key) {
            post == (DisplayView { mode: Mode::Viewing, ..d }) && outcome == (ActionOutcome {
                redraw: true,
                search: None,
            })
        } else {
            post == d && outcome == (ActionOutcome { redraw: true, search: None })
        },
        Mode::Exiting => post == d && post_prompt == pre_prompt && outcome == (ActionOutcome {
            redraw: false,
            search: None,
        }),
    }
}

/// The throttle after an event at time `now`: a redraw is noted with its
/// time, a deferred redraw as pending data.
pub open spec fn refresh_after(refresh: Refresh, redraw: bool, deferred: bool, now: u64) -> Refresh {
    if redraw {
        Refresh { interval: refresh.interval, last_redraw: Some(now), pending: false }
    } else if deferred {
        Refresh { pending: true, ..refresh }
    } else {
        refresh
    }
}

/// Whether the arrival of data for file `id` at time `now` is shown at
/// once, put off, or of no concern: it concerns the file on screen only.
pub open spec fn data_effect(d: DisplayView, refresh: Refresh, id: usize, now: u64) -> Effect {
    if d.mode == Mode::Exiting {
        Effect { redraw: false, quit: true, wake_at: None, search: None }
    } else if id != visible_index(d) {
        Effect { redraw: false, quit: false, wake_at: None, search: None }
    } else if refresh.is_due(now) {
        Effect { redraw: true, quit: false, wake_at: None, search: None }
    } else {
        Effect { redraw: false, quit: false, wake_at: Some(refresh.due_at()), search: None }
    }
}

/// The state of the main loop.
pub struct Display {
    file_count: usize,
    error_files: VecMap<usize>,
    config: Config,
    width: usize,
    height: usize,
    state: PagerState,
    entering: Direction,
    prompt: Prompt,
    keymap: Keymap,
    refresh: Refresh,
}

impl View for Display {
    type V = DisplayView;

    closed spec fn view(&self) -> DisplayView {
        DisplayView {
            file_count: self.file_count,
            error_files: vec_map_entries(self.error_files),
            config: self.config,
            width: self.width,
            height: self.height,
            active_file: self.state.active_file,
            top_line: self.state.top_line,
            cursor_row: self.state.cursor_row,
            mode: self.state.mode,
            entering: self.entering,
            search: search_view(self.state.search),
            error_view: self.state.error_view@,
        }
    }
}

/// A copy of `search` with `last_match` as the occurrence found last.
fn marked(search: &Option<ActiveSearch>, last_match: Option<Match>) -> (out: Option<ActiveSearch>)
    ensures
        search_view(out) == match search_view(*search) {
            Some(s) => Some(SearchView { last_match, ..s }),
            None => None,
        },
{
    match search {
        Some(s) => Some(
            ActiveSearch {
                pattern: slice_to_vec(s.pattern.as_slice()),
                direction: s.direction,
                last_match,
            },
        ),
        None => None,
    }
}

impl Display {
    /// The editor of the open prompt.
    pub closed spec fn prompt(&self) -> Prompt {
        self.prompt
    }

    /// The bindings from keys to actions.
    pub closed spec fn keymap(&self) -> Keymap {
        self.keymap
    }

    /// The throttle of redraws.
    pub closed spec fn refresh(&self) -> Refresh {
        self.refresh
    }

    /// The active file exists, every file has its flag, every paired error
    /// stream is a file behind its output, and a marked occurrence is not
    /// empty.
    pub closed spec fn wf(&self) -> bool {
        &&& self.state.error_view@.len() == self.file_count
        &&& self.file_count > 0 ==> self.state.active_file < self.file_count
        &&& self.file_count == 0 ==> self.state.mode == Mode::Exiting
        &&& forall|k: usize| #[trigger]
            vec_map_entries(self.error_files).contains_key(k) ==> k < vec_map_entries(
                self.error_files,
            )[k] < self.file_count
        &&& self.prompt.wf()
        &&& match self.state.search {
            Some(s) => match s.last_match {
                Some(m) => m.start < m.end,
                None => true,
            },
            None => true,
        }
    }

    /// What `wf` says, over the view.
    pub proof fn lemma_wf(&self)
        requires
            self.wf(),
        ensures
            self@.error_view.len() == self@.file_count,
            self@.file_count > 0 ==> self@.active_file < self@.file_count,
            self@.file_count == 0 ==> self@.mode == Mode::Exiting,
            forall|k: usize| #[trigger]
                self@.error_files.contains_key(k) ==> k < self@.error_files[k]
                    < self@.file_count,
            self@.file_count > 0 ==> visible_index(self@) < self@.file_count,
            self.prompt().wf(),
    {
    }

    /// The state in which the main loop starts: viewing the first file
    /// from its top, no search, no error stream shown. Without files there
    /// is nothing to view and the pager is exiting.
    pub(crate) fn start(
        file_count: usize,
        error_files: VecMap<usize>,
        config: Config,
        width: usize,
        height: usize,
    ) -> (display: Display)
        requires
            forall|k: usize| #[trigger]
                vec_map_entries(error_files).contains_key(k) ==> k < vec_map_entries(
                    error_files,
                )[k] < file_count,
        ensures
            display.wf(),
            display@ == initial_view(
                file_count,
                vec_map_entries(error_files),
                config,
                width,
                height,
            ),
            display.keymap()@ == crate::command::default_bindings(),
            display.refresh() == Refresh::initial(),
            display.prompt()@ == cleared(Seq::empty()),
    {
        let mut error_view: Vec<bool> = Vec::new();
        let mut i: usize = 0;
        while i < file_count
            invariant
                i <= file_count,
                error_view@ == Seq::new(i as nat, |k: int| false),
            decreases file_count - i,
        {
            error_view.push(false);
            i += 1;
        }
        let mode = if file_count > 0 {
            Mode::Viewing
        } else {
            Mode::Exiting
        };
        Display {
            file_count,
            error_files,
            config,
            width,
            height,
            state: PagerState {
                active_file: 0,
                top_line: 0,
                cursor_row: 0,
                mode,
                search: None,
                error_view,
            },
            entering: Direction::Forward,
            prompt: Prompt::new(),
            keymap: Keymap::new(),
            refresh: Refresh::new(REFRESH_INTERVAL_MS),
        }
    }

    /// What the user sees and where.
    pub fn state(&self) -> (state: &PagerState)
        ensures
            state.active_file == self@.active_file,
            state.top_line == self@.top_line,
            state.cursor_row == self@.cursor_row,
            state.mode == self@.mode,
            search_view(state.search) == self@.search,
            state.error_view@ == self@.error_view,
    {
        &self.state
    }

    /// What the pager is doing.
    pub fn mode(&self) -> (mode: Mode)
        ensures
            mode == self@.mode,
    {
        self.state.mode
    }

    /// The options.
    pub fn config(&self) -> (config: Config)
        ensures
            config == self@.config,
    {
        self.config
    }

    /// The size of the screen: columns, then rows.
    pub fn size(&self) -> (size: (usize, usize))
        ensures
            size == (self@.width, self@.height),
    {
        (self.width, self.height)
    }

    /// The text of the open prompt.
    pub fn prompt_text(&self) -> (text: Vec<u8>)
        ensures
            text@ == self.prompt()@.text,
    {
        self.prompt.content()
    }

    /// Binds `key` to `action`, overriding any earlier binding for it.
    pub fn bind(&mut self, key: KeyEvent, action: Action)
        ensures
            final(self)@ == old(self)@,
            final(self).keymap()@ == old(self).keymap()@.push(
                crate::command::Binding { key, action },
            ),
            final(self).prompt() == old(self).prompt(),
            final(self).refresh() == old(self).refresh(),
            old(self).wf() ==> final(self).wf(),
    {
        self.keymap.bind(key, action);
    }

    /// The index of the file on screen: the active file, or its error
    /// stream if that is asked for and there is one.
    pub fn visible_file(&self) -> (index: usize)
        requires
            self.wf(),
        ensures
            index == visible_index(self@),
    {
        let active = self.state.active_file;
        if active < self.state.error_view.len() && self.state.error_view[active] {
            match vec_map_get(&self.error_files, active) {
                Some(paired) => paired,
                None => active,
            }
        } else {
            active
        }
    }

    /// The greatest top line allowed with `file` on screen.
    pub fn greatest_top_of(&self, file: &File) -> (max: usize)
        requires
            file.wf(),
        ensures
            max == top_limit(self@, file.data()),
    {
        let bottom = last_screen_top(file, self.width, self.height);
        greatest_top(file.line_count(), bottom, self.config.scroll_past_eof)
    }

    /// Shows another file, from its top, with no occurrence marked.
    fn switch_to(&mut self, active_file: usize, toggle: bool)
        requires
            old(self).wf(),
            active_file < old(self)@.file_count,
        ensures
            final(self).wf(),
            final(self)@ == switched(
                old(self)@,
                active_file,
                if toggle {
                    old(self)@.error_view.update(
                        active_file as int,
                        !old(self)@.error_view[active_file as int],
                    )
                } else {
                    old(self)@.error_view
                },
            ),
            final(self).prompt() == old(self).prompt(),
            final(self).keymap() == old(self).keymap(),
            final(self).refresh() == old(self).refresh(),
    {
        if toggle {
            let flag = self.state.error_view[active_file];
            self.state.error_view.set(active_file, !flag);
        }
        self.state.active_file = active_file;
        self.state.top_line = 0;
        self.state.cursor_row = 0;
        self.state.search = marked(&self.state.search, None);
    }

    /// Searches `file` in `direction` from the position that follows the
    /// occurrence found last, marks what is found and brings it on
    /// screen.
    fn search_from_here(&mut self, direction: Direction, file: &File) -> (outcome: SearchOutcome)
        requires
            old(self).wf(),
            file.wf(),
        ensures
            final(self).wf(),
            searched(
                old(self)@,
                final(self)@,
                direction,
                file.data(),
                file.is_loading(),
                file.spec_info().index,
                outcome,
            ),
            final(self).prompt() == old(self).prompt(),
            final(self).keymap() == old(self).keymap(),
            final(self).refresh() == old(self).refresh(),
    {
        let start = match &self.state.search {
            Some(s) => match s.last_match {
                Some(m) => match direction {
                    Direction::Forward => if m.start < usize::MAX {
                        Some((m.line, m.start + 1))
                    } else {
                        None
                    },
                    Direction::Backward => if m.start > 0 {
                        Some((m.line, m.start - 1))
                    } else if m.line > 0 {
                        Some((m.line - 1, usize::MAX))
                    } else {
                        None
                    },
                },
                None => match direction {
                    Direction::Forward => Some((self.state.top_line, 0)),
                    Direction::Backward => Some((self.state.top_line, usize::MAX)),
                },
            },
            None => {
                return SearchOutcome::NoMatch;
            },
        };
        let (line, at) = match start {
            Some(position) => position,
            None => {
                return SearchOutcome::NoMatch;
            },
        };
        let outcome = match &self.state.search {
            Some(s) => find(file, line, at, s.pattern.as_slice(), direction),
            None => SearchOutcome::NoMatch,
        };
        if let SearchOutcome::Found(m) = outcome {
            let max = self.greatest_top_of(file);
            let row = row_of(file, self.state.top_line, m.line, self.width, self.height);
            let top = reveal_line(self.state.top_line, m.line, row, self.height, max);
            self.state.top_line = top;
            self.state.cursor_row = row_of(file, top, m.line, self.width, self.height);
            self.state.search = marked(&self.state.search, Some(m));
        }
        outcome
    }

    /// Carries out `action` with `file` on screen.
    pub fn handle_action(&mut self, action: Action, file: &File) -> (outcome: ActionOutcome)
        requires
            old(self).wf(),
            file.wf(),
        ensures
            final(self).wf(),
            acted(
                old(self)@,
                final(self)@,
                action,
                file.data(),
                file.is_loading(),
                file.spec_info().index,
                outcome,
            ),
            final(self).keymap() == old(self).keymap(),
            final(self).refresh() == old(self).refresh(),
            prompt_after(
                old(self).prompt()@,
                final(self).prompt()@,
                final(self)@.mode != old(self)@.mode,
            ),
    {
        let lines = file.line_count();
        match self.state.mode {
            Mode::Exiting => {
                return ActionOutcome { redraw: false, search: None };
            },
            _ => {},
        }
        match action {
            Action::Quit => {
                self.prompt.cancel();
                self.state.mode = Mode::Exiting;
                return ActionOutcome { redraw: true, search: None };
            },
            _ => {},
        }
        match self.state.mode {
            Mode::Viewing => {},
            _ => {
                match action {
                    Action::Cancel => {
                        self.prompt.cancel();
                        self.state.mode = Mode::Viewing;
                    },
                    _ => {},
                }
                return ActionOutcome { redraw: true, search: None };
            },
        }
        let mut search: Option<SearchOutcome> = None;
        match action {
            Action::ScrollUp(_)
            | Action::ScrollDown(_)
            | Action::PageUp
            | Action::PageDown
            | Action::Top
            | Action::Bottom => {
                let bottom = last_screen_top(file, self.width, self.height);
                let max = greatest_top(lines, bottom, self.config.scroll_past_eof);
                self.state.top_line = scroll(self.state.top_line, action, max, bottom, self.height);
                self.state.cursor_row = 0;
            },
            Action::PromptGoToLine => {
                self.prompt.cancel();
                self.state.mode = Mode::Prompting;
            },
            Action::PromptSearch(direction) => {
                self.prompt.cancel();
                self.entering = direction;
                self.state.mode = Mode::Searching;
            },
            Action::ToggleErrorView => {
                let active = self.state.active_file;
                if vec_map_get(&self.error_files, active).is_some() {
                    self.switch_to(active, true);
                }
            },
            Action::NextFile => {
                let active = self.state.active_file;
                if active < usize::MAX && active + 1 < self.file_count {
                    self.switch_to(active + 1, false);
                }
            },
            Action::PreviousFile => {
                let active = self.state.active_file;
                if active > 0 {
                    self.switch_to(active - 1, false);
                }
            },
            Action::NextMatch | Action::PreviousMatch => {
                let found = match &self.state.search {
                    Some(s) => Some(s.direction),
                    None => None,
                };
                if let Some(direction) = found {
                    let direction = match action {
                        Action::PreviousMatch => reversed(direction),
                        _ => direction,
                    };
                    search = Some(self.search_from_here(direction, file));
                }
            },
            _ => {},
        }
        ActionOutcome { redraw: true, search }
    }

    /// Takes the text that the open prompt has submitted.
    pub fn submit(&mut self, text: Vec<u8>, file: &File) -> (outcome: ActionOutcome)
        requires
            old(self).wf(),
            file.wf(),
        ensures
            final(self).wf(),
            submitted(
                old(self)@,
                final(self)@,
                text@,
                file.data(),
                file.is_loading(),
                file.spec_info().index,
                outcome,
            ),
            final(self).keymap() == old(self).keymap(),
            final(self).refresh() == old(self).refresh(),
            final(self).prompt() == old(self).prompt(),
    {
        match self.state.mode {
            Mode::Searching => {
                self.state.mode = Mode::Viewing;
                if text.len() == 0 {
                    return ActionOutcome { redraw: true, search: None };
                }
                let direction = self.entering;
                self.state.search = Some(ActiveSearch { pattern: text, direction, last_match: None });
                assert(self@ == with_new_search(old(self)@, text@));
                let found = self.search_from_here(direction, file);
                ActionOutcome { redraw: true, search: Some(found) }
            },
            Mode::Prompting => {
                self.state.mode = Mode::Viewing;
                if let Some(number) = parse_decimal(text.as_slice()) {
                    if number >= 1 {
                        let max = self.greatest_top_of(file);
                        self.state.top_line = clamp_top(number - 1, max);
                        self.state.cursor_row = 0;
                    }
                }
                ActionOutcome { redraw: true, search: None }
            },
            _ => ActionOutcome { redraw: false, search: None },
        }
    }

    /// Handles a key press with `file` on screen.
    pub fn handle_key(&mut self, key: KeyEvent, file: &File) -> (outcome: ActionOutcome)
        requires
            old(self).wf(),
            file.wf(),
        ensures
            final(self).wf(),
            keyed(
                old(self)@,
                final(self)@,
                old(self).keymap()@,
                old(self).prompt()@,
                final(self).prompt()@,
                key,
                file.data(),
                file.is_loading(),
                file.spec_info().index,
                outcome,
            ),
            final(self).keymap() == old(self).keymap(),
            final(self).refresh() == old(self).refresh(),
    {
        match self.state.mode {
            Mode::Viewing => match self.keymap.lookup(key) {
                Some(action) => self.handle_action(action, file),
                None => ActionOutcome { redraw: false, search: None },
            },
            Mode::Searching | Mode::Prompting => match self.prompt.handle_key(key) {
                PromptResult::Submitted(text) => self.submit(text, file),
                PromptResult::Cancelled => {
                    self.state.mode = Mode::Viewing;
                    ActionOutcome { redraw: true, search: None }
                },
                PromptResult::Editing => ActionOutcome { redraw: true, search: None },
            },
            Mode::Exiting => ActionOutcome { redraw: false, search: None },
        }
    }

    /// Notes what an event did to the throttle and builds the effect.
    fn finish(&mut self, outcome: ActionOutcome, now: u64) -> (effect: Effect)
        ensures
            final(self)@ == old(self)@,
            final(self).keymap() == old(self).keymap(),
            final(self).prompt() == old(self).prompt(),
            old(self).wf() ==> final(self).wf(),
            final(self).refresh() == refresh_after(old(self).refresh(), outcome.redraw, false, now),
            effect == (Effect {
                redraw: outcome.redraw,
                quit: old(self)@.mode == Mode::Exiting,
                wake_at: None,
                search: outcome.search,
            }),
    {
        if outcome.redraw {
            self.refresh.redrawn(now);
        }
        let quit = match self.state.mode {
            Mode::Exiting => true,
            _ => false,
        };
        Effect { redraw: outcome.redraw, quit, wake_at: None, search: outcome.search }
    }

    /// Handles one event at time `now`, with `file` on screen.
    ///
    /// Keys go the way of `handle_key`. A resize sets the size of the
    /// screen. A step of the mouse wheel scrolls by `WHEEL_LINES` lines.
    /// Data for the file on screen is shown at once or, if the last redraw
    /// is too recent, put off to `wake_at`; data for another file is of no
    /// concern. The end or the failure of the source on screen, and a
    /// change of the progress indicator, are shown at once. Once the pager
    /// is exiting, no event changes anything.
    pub fn handle_event(&mut self, event: &Event, file: &File, now: u64) -> (effect: Effect)
        requires
            old(self).wf(),
            file.wf(),
        ensures
            final(self).wf(),
            final(self).keymap() == old(self).keymap(),
            effect.quit == (final(self)@.mode == Mode::Exiting),
            !(*event is Key) && !(*event is Mouse) ==> final(self).prompt()@ == old(self).prompt()@,
            *event is Mouse ==> prompt_after(
                old(self).prompt()@,
                final(self).prompt()@,
                final(self)@.mode != old(self)@.mode,
            ),
            old(self)@.mode == Mode::Exiting ==> final(self)@ == old(self)@ && !effect.redraw
                && effect.wake_at is None && effect.search is None && final(self).refresh() == old(
                self,
            ).refresh() && final(self).prompt()@ == old(self).prompt()@,
            old(self)@.mode != Mode::Exiting ==> final(self).refresh() == refresh_after(
                old(self).refresh(),
                effect.redraw,
                effect.wake_at is Some,
                now,
            ),
            old(self)@.mode != Mode::Exiting ==> match *event {
                Event::Key(key) => effect.wake_at is None && keyed(
                    old(self)@,
                    final(self)@,
                    old(self).keymap()@,
                    old(self).prompt()@,
                    final(self).prompt()@,
                    key,
                    file.data(),
                    file.is_loading(),
                    file.spec_info().index,
                    ActionOutcome { redraw: effect.redraw, search: effect.search },
                ),
                Event::Resize(width, height) => final(self)@ == (DisplayView {
                    width,
                    height,
                    ..old(self)@
                }) && effect.redraw && effect.wake_at is None && effect.search is None,
                Event::Mouse(MouseKind::WheelUp, _, _) => effect.wake_at is None && acted(
                    old(self)@,
                    final(self)@,
                    Action::ScrollUp(WHEEL_LINES),
                    file.data(),
                    file.is_loading(),
                    file.spec_info().index,
                    ActionOutcome { redraw: effect.redraw, search: effect.search },
                ),
                Event::Mouse(MouseKind::WheelDown, _, _) => effect.wake_at is None && acted(
                    old(self)@,
                    final(self)@,
                    Action::ScrollDown(WHEEL_LINES),
                    file.data(),
                    file.is_loading(),
                    file.spec_info().index,
                    ActionOutcome { redraw: effect.redraw, search: effect.search },
                ),
                Event::Mouse(_, _, _) => final(self)@ == old(self)@ && effect == (Effect {
                    redraw: false,
                    quit: false,
                    wake_at: None,
                    search: None,
                }),
                Event::DataAvailable(id) => final(self)@ == old(self)@ && effect == data_effect(
                    old(self)@,
                    old(self).refresh(),
                    id,
                    now,
                ),
                Event::StreamEnded(id) | Event::StreamErrored(id, _) => final(self)@ == old(self)@
                    && effect == (Effect {
                    redraw: id == visible_index(old(self)@),
                    quit: false,
                    wake_at: None,
                    search: None,
                }),
                Event::ProgressUpdate => final(self)@ == old(self)@ && effect == (Effect {
                    redraw: true,
                    quit: false,
                    wake_at: None,
                    search: None,
                }),
            },
    {
        match self.state.mode {
            Mode::Exiting => {
                return Effect { redraw: false, quit: true, wake_at: None, search: None };
            },
            _ => {},
        }
        match event {
            Event::Key(key) => {
                let outcome = self.handle_key(*key, file);
                self.finish(outcome, now)
            },
            Event::Resize(width, height) => {
                self.width = *width;
                self.height = *height;
                self.finish(ActionOutcome { redraw: true, search: None }, now)
            },
            Event::Mouse(kind, _, _) => {
                let outcome = match kind {
                    MouseKind::WheelUp => self.handle_action(Action::ScrollUp(WHEEL_LINES), file),
                    MouseKind::WheelDown => self.handle_action(
                        Action::ScrollDown(WHEEL_LINES),
                        file,
                    ),
                    _ => ActionOutcome { redraw: false, search: None },
                };
                self.finish(outcome, now)
            },
            Event::DataAvailable(id) => {
                if *id != self.visible_file() {
                    Effect { redraw: false, quit: false, wake_at: None, search: None }
                } else {
                    match self.refresh.data_arrived(now) {
                        RefreshDecision::Redraw => Effect {
                            redraw: true,
                            quit: false,
                            wake_at: None,
                            search: None,
                        },
                        RefreshDecision::Deferred(at) => Effect {
                            redraw: false,
                            quit: false,
                            wake_at: Some(at),
                            search: None,
                        },
                    }
                }
            },
            Event::StreamEnded(id) | Event::StreamErrored(id, _) => {
                let redraw = *id == self.visible_file();
                self.finish(ActionOutcome { redraw, search: None }, now)
            },
            Event::ProgressUpdate => self.finish(ActionOutcome { redraw: true, search: None }, now),
        }
    }

    /// How long the main loop may wait for an event at time `now` before
    /// it has to call `tick`: `None` where nothing is pending or the pager
    /// is exiting.
    pub fn wait(&self, now: u64) -> (wait: Option<u64>)
        ensures
            wait == if self@.mode == Mode::Exiting {
                None
            } else {
                self.refresh().wait_at(now)
            },
    {
        match self.state.mode {
            Mode::Exiting => None,
            _ => self.refresh.wait(now),
        }
    }

    /// Time has passed without an event. Returns whether to redraw now:
    /// exactly if data is pending for the file on screen and a redraw is
    /// due.
    pub fn tick(&mut self, now: u64) -> (redraw: bool)
        ensures
            final(self)@ == old(self)@,
            final(self).keymap() == old(self).keymap(),
            final(self).prompt() == old(self).prompt(),
            old(self).wf() ==> final(self).wf(),
            redraw == (old(self)@.mode != Mode::Exiting && old(self).refresh().pending && old(
                self,
            ).refresh().is_due(now)),
            final(self).refresh() == refresh_after(old(self).refresh(), redraw, false, now),
    {
        match self.state.mode {
            Mode::Exiting => false,
            _ => self.refresh.tick(now),
        }
    }
}

/// `Exiting` is terminal and `Quit` leads to it from every mode.
pub proof fn lemma_exiting_is_terminal(d: DisplayView, action: Action, data: Seq<u8>)
    ensures
        d.mode == Mode::Exiting ==> after_action(d, action, data) == d,
        after_action(d, Action::Quit, data).mode == Mode::Exiting,
{
}

/// The transitions between modes: a search prompt opens from `Viewing`
/// into `Searching`, a line prompt into `Prompting`; `Cancel` leads back
/// to `Viewing`; no other action changes the mode, except `Quit`.
pub proof fn lemma_mode_transitions(d: DisplayView, action: Action, data: Seq<u8>)
    requires
        d.mode != Mode::Exiting,
        action != Action::Quit,
    ensures
        after_action(d, action, data).mode == match (d.mode, action) {
            (Mode::Viewing, Action::PromptSearch(_)) => Mode::Searching,
            (Mode::Viewing, Action::PromptGoToLine) => Mode::Prompting,
            (_, Action::Cancel) => Mode::Viewing,
            _ => d.mode,
        },
{
}

/// Showing the error stream of a file puts the paired stream on screen,
/// and asking again brings the output back.
pub proof fn lemma_toggle_error_view(d: DisplayView, data: Seq<u8>)
    requires
        d.mode == Mode::Viewing,
        0 <= d.active_file < d.error_view.len(),
        d.error_files.contains_key(d.active_file),
    ensures
        visible_index(after_action(d, Action::ToggleErrorView, data)) == if d.error_view[d.active_file as int] {
            d.active_file
        } else {
            d.error_files[d.active_file]
        },
        after_action(
            after_action(d, Action::ToggleErrorView, data),
            Action::ToggleErrorView,
            data,
        ).error_view == d.error_view,
{
    let once = after_action(d, Action::ToggleErrorView, data);
    let twice = after_action(once, Action::ToggleErrorView, data);
    assert(twice.error_view =~= d.error_view);
}

/// Where scrolling past the end is not allowed, no action takes the
/// viewport below the last screen, and on the last screen the last line of
/// the file is on screen: from its top line everything down to the last
/// line fits, unless the last line alone is taller than the screen and is
/// the top line itself.
pub proof fn lemma_viewport_stops_at_last_screen(d: DisplayView, action: Action, data: Seq<u8>)
    requires
        !d.config.scroll_past_eof,
        d.top_line <= last_top(d, data),
    ensures
        after_action(d, action, data).top_line <= last_top(d, data),
        line_count(data) > 0 ==> last_top(d, data) == line_count(data) - 1 || rows_of_lines(
            data,
            d.width as nat,
            last_top(d, data),
            line_count(data) as int,
        ).len() <= d.height,
{
    lemma_bottom_top(data, d.width as nat, d.height as nat);
}

} // verus!
