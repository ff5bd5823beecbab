use streampager::bar::{bar_fill, bar_row, BAR_FILL};
use streampager::config::{parse_flag, parse_mode, startup, Config, InterfaceMode, Startup};
use streampager::layout::{aligned, character_at, column_of};
use streampager::overstrike::decode;
use streampager::buffer_cache::BufferCache;
use streampager::command::{key_event, Action, Key, KeyEvent, Keymap};
use streampager::event::{Event, EventQueue};
use streampager::overstrike::{text_of, Cell};
use streampager::parse::{format_decimal, parse_decimal};
use streampager::progress::{find_byte, parse_progress, Progress, ProgressUpdate};
use streampager::prompt::{Prompt, PromptResult};
use streampager::refresh::{Refresh, RefreshDecision};
use streampager::ruler::{percent, ruler, status_cells};
use streampager::search::Direction;
use streampager::source::{on_read, ReadOutcome, ReaderStep};
use streampager::file::{File, FileInfo, FileKind, LineLookup};
use streampager::buffer::BufferState;
use streampager::viewport::{clamp_top, greatest_top, reveal_line, scroll};

fn plain(key: Key) -> KeyEvent {
    key_event(key, false)
}

#[test]
fn decimal_numbers_are_parsed() {
    assert_eq!(parse_decimal(b"0"), Some(0));
    assert_eq!(parse_decimal(b"42"), Some(42));
    assert_eq!(parse_decimal(b"007"), Some(7));
    assert_eq!(parse_decimal(b""), None);
    assert_eq!(parse_decimal(b"4x"), None);
    assert_eq!(parse_decimal(b"-1"), None);
    assert_eq!(parse_decimal(b" 1"), None);
    assert_eq!(parse_decimal(usize::MAX.to_string().as_bytes()), Some(usize::MAX));
    assert_eq!(parse_decimal(b"18446744073709551616"), None);
    assert_eq!(parse_decimal(b"99999999999999999999999"), None);
}

#[test]
fn decimal_numbers_are_written_and_read_back() {
    assert_eq!(format_decimal(0), b"0".to_vec());
    assert_eq!(format_decimal(9), b"9".to_vec());
    assert_eq!(format_decimal(10), b"10".to_vec());
    assert_eq!(format_decimal(1234567890), b"1234567890".to_vec());
    assert_eq!(format_decimal(usize::MAX), usize::MAX.to_string().into_bytes());
    for n in [0, 1, 9, 10, 99, 100, 101, 65535, usize::MAX] {
        assert_eq!(parse_decimal(&format_decimal(n)), Some(n));
    }
}

#[test]
fn progress_lines_are_parsed() {
    assert_eq!(
        parse_progress(b"3/10 Compiling"),
        Some(ProgressUpdate { done: 3, total: 10, label: b"Compiling".to_vec() })
    );
    assert_eq!(
        parse_progress(b"10/10"),
        Some(ProgressUpdate { done: 10, total: 10, label: Vec::new() })
    );
    assert_eq!(
        parse_progress(b"0/5 "),
        Some(ProgressUpdate { done: 0, total: 5, label: Vec::new() })
    );
    assert_eq!(
        parse_progress(b"1/2 two words / more"),
        Some(ProgressUpdate { done: 1, total: 2, label: b"two words / more".to_vec() })
    );
}

#[test]
fn malformed_progress_lines_are_ignored() {
    assert_eq!(parse_progress(b""), None);
    assert_eq!(parse_progress(b"hello"), None);
    assert_eq!(parse_progress(b"3/"), None);
    assert_eq!(parse_progress(b"/3"), None);
    assert_eq!(parse_progress(b"3/0"), None);
    assert_eq!(parse_progress(b"11/10"), None);
    assert_eq!(parse_progress(b"3 /10"), None);
    assert_eq!(parse_progress(b"3/10x"), None);
    assert_eq!(parse_progress(b"a/10 label"), None);
    assert_eq!(parse_progress(b"3/10/12"), None);

    let mut progress = Progress::new();
    assert_eq!(progress.latest(), None);
    assert!(progress.feed_line(b"1/4 start"));
    assert!(!progress.feed_line(b"garbage"));
    assert_eq!(
        progress.latest(),
        Some(&ProgressUpdate { done: 1, total: 4, label: b"start".to_vec() })
    );
    assert!(progress.feed_line(b"4/4"));
    assert_eq!(progress.latest(), Some(&ProgressUpdate { done: 4, total: 4, label: Vec::new() }));
}

#[test]
fn first_byte_is_found() {
    assert_eq!(find_byte(b"a/b/c", b'/', 0), 1);
    assert_eq!(find_byte(b"a/b/c", b'/', 2), 3);
    assert_eq!(find_byte(b"a/b/c", b'/', 4), 5);
    assert_eq!(find_byte(b"a/b/c", b'/', 9), 5);
    assert_eq!(find_byte(b"", b'/', 0), 0);
}

#[test]
fn bar_fills_its_share() {
    assert_eq!(bar_fill(0, 10, 40), 0);
    assert_eq!(bar_fill(3, 10, 40), 12);
    assert_eq!(bar_fill(1, 3, 10), 3);
    assert_eq!(bar_fill(2, 3, 10), 6);
    assert_eq!(bar_fill(10, 10, 40), 40);
    assert_eq!(bar_fill(11, 10, 40), 40);
    assert_eq!(bar_fill(5, 0, 40), 0);
    assert_eq!(bar_fill(usize::MAX, usize::MAX, usize::MAX), usize::MAX);
    assert_eq!(bar_fill(usize::MAX / 2, usize::MAX, 100), 49);
    let row = bar_row(1, 2, 4);
    let filled = Cell { byte: BAR_FILL, bold: true, underline: false };
    let blank = Cell { byte: b' ', bold: false, underline: false };
    assert_eq!(row, vec![filled, filled, blank, blank]);
    assert_eq!(bar_row(1, 2, 0), Vec::<Cell>::new());
}

#[test]
fn ruler_shows_title_position_and_percentage() {
    assert_eq!(percent(0, 0), 100);
    assert_eq!(percent(0, 10), 0);
    assert_eq!(percent(5, 10), 50);
    assert_eq!(percent(1, 3), 33);
    assert_eq!(percent(10, 10), 100);
    assert_eq!(percent(12, 10), 100);
    assert_eq!(percent(usize::MAX - 1, usize::MAX), 99);
    assert_eq!(ruler(b"out", 1, 24, 96, false), b"out 1-24/96 25%".to_vec());
    assert_eq!(ruler(b"log", 73, 96, 96, true), b"log 73-96/96+ 100%".to_vec());
    assert_eq!(ruler(b"", 0, 0, 0, false), b" 0-0/0 100%".to_vec());
    assert_eq!(text_of(&status_cells(b"abc", 5)), b"abc  ".to_vec());
    assert_eq!(text_of(&status_cells(b"abcdef", 4)), b"abcd".to_vec());
    assert_eq!(status_cells(b"abc", 0), Vec::<Cell>::new());
}

#[test]
fn redraws_are_throttled() {
    let mut refresh = Refresh::new(50);
    assert_eq!(refresh.deadline(), 0);
    assert!(refresh.due(0));
    assert_eq!(refresh.data_arrived(100), RefreshDecision::Redraw);
    assert_eq!(refresh, Refresh { interval: 50, last_redraw: Some(100), pending: false });
    assert_eq!(refresh.deadline(), 150);
    assert_eq!(refresh.data_arrived(149), RefreshDecision::Deferred(150));
    assert!(refresh.pending);
    assert!(!refresh.tick(149));
    assert!(refresh.tick(150));
    assert_eq!(refresh, Refresh { interval: 50, last_redraw: Some(150), pending: false });
    assert!(!refresh.tick(500));
    assert_eq!(refresh.data_arrived(200), RefreshDecision::Redraw);
    assert_eq!(refresh.data_arrived(10), RefreshDecision::Redraw);
    refresh.redrawn(u64::MAX - 10);
    assert_eq!(refresh.deadline(), u64::MAX);
    assert_eq!(refresh.data_arrived(u64::MAX - 1), RefreshDecision::Deferred(u64::MAX));
    assert!(refresh.tick(u64::MAX));
}

#[test]
fn events_leave_the_queue_in_arrival_order() {
    let mut queue = EventQueue::new();
    assert_eq!(queue.len(), 0);
    assert_eq!(queue.pop(), None);
    queue.push(Event::DataAvailable(2));
    queue.push(Event::Key(plain(Key::Up)));
    queue.push(Event::DataAvailable(2));
    queue.push(Event::StreamErrored(1, "reset".to_string()));
    assert_eq!(queue.len(), 4);
    assert_eq!(queue.pop(), Some(Event::DataAvailable(2)));
    queue.push(Event::Resize(80, 24));
    assert_eq!(queue.pop(), Some(Event::Key(plain(Key::Up))));
    assert_eq!(queue.pop(), Some(Event::DataAvailable(2)));
    assert_eq!(queue.pop(), Some(Event::StreamErrored(1, "reset".to_string())));
    assert_eq!(queue.pop(), Some(Event::Resize(80, 24)));
    assert_eq!(queue.pop(), None);
}

#[test]
fn keymap_has_the_usual_bindings() {
    let keymap = Keymap::new();
    assert_eq!(keymap.lookup(plain(Key::Char(b'q'))), Some(Action::Quit));
    assert_eq!(keymap.lookup(key_event(Key::Char(b'c'), true)), Some(Action::Quit));
    assert_eq!(keymap.lookup(plain(Key::Char(b'c'))), None);
    assert_eq!(keymap.lookup(plain(Key::Escape)), Some(Action::Cancel));
    assert_eq!(keymap.lookup(plain(Key::Char(b'j'))), Some(Action::ScrollDown(1)));
    assert_eq!(keymap.lookup(plain(Key::Down)), Some(Action::ScrollDown(1)));
    assert_eq!(keymap.lookup(plain(Key::Enter)), Some(Action::ScrollDown(1)));
    assert_eq!(keymap.lookup(plain(Key::Char(b'k'))), Some(Action::ScrollUp(1)));
    assert_eq!(keymap.lookup(plain(Key::Up)), Some(Action::ScrollUp(1)));
    assert_eq!(keymap.lookup(plain(Key::Char(b' '))), Some(Action::PageDown));
    assert_eq!(keymap.lookup(plain(Key::PageDown)), Some(Action::PageDown));
    assert_eq!(keymap.lookup(plain(Key::Char(b'b'))), Some(Action::PageUp));
    assert_eq!(keymap.lookup(plain(Key::PageUp)), Some(Action::PageUp));
    assert_eq!(keymap.lookup(plain(Key::Char(b'g'))), Some(Action::Top));
    assert_eq!(keymap.lookup(plain(Key::Home)), Some(Action::Top));
    assert_eq!(keymap.lookup(plain(Key::Char(b'G'))), Some(Action::Bottom));
    assert_eq!(keymap.lookup(plain(Key::End)), Some(Action::Bottom));
    assert_eq!(keymap.lookup(plain(Key::Char(b':'))), Some(Action::PromptGoToLine));
    assert_eq!(
        keymap.lookup(plain(Key::Char(b'/'))),
        Some(Action::PromptSearch(Direction::Forward))
    );
    assert_eq!(
        keymap.lookup(plain(Key::Char(b'?'))),
        Some(Action::PromptSearch(Direction::Backward))
    );
    assert_eq!(keymap.lookup(plain(Key::Char(b'n'))), Some(Action::NextMatch));
    assert_eq!(keymap.lookup(plain(Key::Char(b'N'))), Some(Action::PreviousMatch));
    assert_eq!(keymap.lookup(plain(Key::Char(b'e'))), Some(Action::ToggleErrorView));
    assert_eq!(keymap.lookup(plain(Key::Char(b']'))), Some(Action::NextFile));
    assert_eq!(keymap.lookup(plain(Key::Char(b'['))), Some(Action::PreviousFile));
    assert_eq!(keymap.lookup(key_event(Key::Char(b'l'), true)), Some(Action::Refresh));
    assert_eq!(keymap.lookup(plain(Key::Tab)), None);
    assert_eq!(
        keymap.lookup(KeyEvent { key: Key::Char(b'q'), ctrl: false, alt: true }),
        None
    );
}

#[test]
fn later_binding_overrides() {
    let mut keymap = Keymap::empty();
    assert_eq!(keymap.lookup(plain(Key::Tab)), None);
    keymap.bind(plain(Key::Tab), Action::NextFile);
    keymap.bind(plain(Key::Left), Action::PreviousFile);
    assert_eq!(keymap.lookup(plain(Key::Tab)), Some(Action::NextFile));
    keymap.bind(plain(Key::Tab), Action::Refresh);
    assert_eq!(keymap.lookup(plain(Key::Tab)), Some(Action::Refresh));
    assert_eq!(keymap.lookup(plain(Key::Left)), Some(Action::PreviousFile));
}

#[test]
fn prompt_edits_one_line() {
    let mut prompt = Prompt::new();
    for b in b"helo" {
        assert_eq!(prompt.handle_key(plain(Key::Char(*b))), PromptResult::Editing);
    }
    assert_eq!(prompt.cursor_position(), 4);
    prompt.handle_key(plain(Key::Left));
    prompt.handle_key(plain(Key::Char(b'l')));
    assert_eq!(prompt.content(), b"hello".to_vec());
    assert_eq!(prompt.cursor_position(), 4);
    prompt.handle_key(plain(Key::Home));
    assert_eq!(prompt.cursor_position(), 0);
    prompt.handle_key(plain(Key::Backspace));
    prompt.handle_key(plain(Key::Left));
    assert_eq!(prompt.content(), b"hello".to_vec());
    prompt.handle_key(plain(Key::Delete));
    assert_eq!(prompt.content(), b"ello".to_vec());
    prompt.handle_key(plain(Key::End));
    assert_eq!(prompt.cursor_position(), 4);
    prompt.handle_key(plain(Key::Right));
    prompt.handle_key(plain(Key::Delete));
    assert_eq!(prompt.content(), b"ello".to_vec());
    prompt.handle_key(plain(Key::Backspace));
    assert_eq!(prompt.content(), b"ell".to_vec());
    prompt.handle_key(plain(Key::Tab));
    prompt.handle_key(key_event(Key::Char(b'x'), true));
    prompt.handle_key(KeyEvent { key: Key::Char(b'x'), ctrl: false, alt: true });
    assert_eq!(prompt.content(), b"ell".to_vec());
    assert_eq!(prompt.handle_key(plain(Key::Enter)), PromptResult::Submitted(b"ell".to_vec()));
    assert_eq!(prompt.content(), Vec::<u8>::new());
    assert_eq!(prompt.history_len(), 1);
}

#[test]
fn prompt_recalls_history() {
    let mut prompt = Prompt::new();
    for text in [&b"first"[..], &b"second"[..]] {
        for b in text {
            prompt.insert(*b);
        }
        assert_eq!(prompt.submit(), text.to_vec());
    }
    assert_eq!(prompt.submit(), Vec::<u8>::new());
    assert_eq!(prompt.history_len(), 2);
    prompt.handle_key(plain(Key::Down));
    assert_eq!(prompt.content(), Vec::<u8>::new());
    prompt.handle_key(plain(Key::Up));
    assert_eq!(prompt.content(), b"second".to_vec());
    assert_eq!(prompt.cursor_position(), 6);
    prompt.handle_key(plain(Key::Up));
    assert_eq!(prompt.content(), b"first".to_vec());
    prompt.handle_key(plain(Key::Up));
    assert_eq!(prompt.content(), b"first".to_vec());
    prompt.handle_key(plain(Key::Down));
    assert_eq!(prompt.content(), b"second".to_vec());
    prompt.handle_key(plain(Key::Down));
    assert_eq!(prompt.content(), Vec::<u8>::new());
    prompt.recall_at(0);
    prompt.handle_key(plain(Key::Char(b'!')));
    assert_eq!(prompt.handle_key(plain(Key::Escape)), PromptResult::Cancelled);
    assert_eq!(prompt.content(), Vec::<u8>::new());
    assert_eq!(prompt.history_len(), 2);
    prompt.recall_at(0);
    prompt.insert(b'!');
    assert_eq!(prompt.handle_key(plain(Key::Enter)), PromptResult::Submitted(b"first!".to_vec()));
    assert_eq!(prompt.history_len(), 3);
    prompt.recall_at(99);
    assert_eq!(prompt.content(), Vec::<u8>::new());
    prompt.move_to(99);
    assert_eq!(prompt.cursor_position(), 0);
    assert_eq!(
        prompt.handle_key(key_event(Key::Char(b'c'), true)),
        PromptResult::Cancelled
    );
}

#[test]
fn buffer_lengths_are_accounted() {
    let mut cache = BufferCache::new();
    assert_eq!(cache.total(), Some(0));
    assert_eq!(cache.length(3), 0);
    cache.record(2, 100);
    assert_eq!(cache.length(0), 0);
    assert_eq!(cache.length(2), 100);
    cache.record(0, 7);
    cache.record(2, 150);
    cache.record(2, 120);
    assert_eq!(cache.length(2), 150);
    assert_eq!(cache.total(), Some(157));
    cache.record(1, usize::MAX);
    assert_eq!(cache.total(), None);
}

#[test]
fn viewport_is_clamped() {
    assert_eq!(greatest_top(100, 90, false), 90);
    assert_eq!(greatest_top(100, 90, true), 99);
    assert_eq!(greatest_top(5, 0, false), 0);
    assert_eq!(greatest_top(0, 0, true), 0);
    assert_eq!(clamp_top(95, 90), 90);
    assert_eq!(clamp_top(95, 99), 95);
    assert_eq!(clamp_top(50, 90), 50);
    assert_eq!(scroll(10, Action::ScrollDown(5), 90, 90, 10), 15);
    assert_eq!(scroll(10, Action::ScrollDown(usize::MAX), 90, 90, 10), 90);
    assert_eq!(scroll(10, Action::ScrollUp(50), 90, 90, 10), 0);
    assert_eq!(scroll(10, Action::PageDown, 90, 90, 0), 11);
    assert_eq!(scroll(10, Action::PageUp, 90, 90, 4), 6);
    assert_eq!(scroll(10, Action::Top, 90, 90, 4), 0);
    assert_eq!(scroll(10, Action::Quit, 90, 90, 10), 10);
    assert_eq!(scroll(10, Action::Bottom, 99, 90, 10), 90);
    assert_eq!(scroll(95, Action::Bottom, 99, 90, 10), 90);
    assert_eq!(reveal_line(10, 15, 5, 10, 90), 10);
    assert_eq!(reveal_line(10, 20, 10, 10, 90), 20);
    assert_eq!(reveal_line(10, 5, 0, 10, 90), 5);
    assert_eq!(reveal_line(10, 97, 10, 10, 90), 90);
    assert_eq!(reveal_line(10, 97, 10, 10, 99), 97);
}

fn source(index: usize) -> File {
    File::new(FileInfo { index, title: "src".to_string(), kind: FileKind::Stream }, 80)
}

#[test]
fn reader_commits_and_announces_data() {
    let mut file = source(4);
    let step = on_read(&mut file, ReadOutcome::Data(b"ab\ncd".to_vec()));
    assert_eq!(step, ReaderStep { event: Some(Event::DataAvailable(4)), go_on: true });
    assert_eq!(file.len(), 5);
    assert_eq!(file.line_count(), 2);
    let step = on_read(&mut file, ReadOutcome::Data(Vec::new()));
    assert_eq!(step, ReaderStep { event: None, go_on: true });
    assert_eq!(file.len(), 5);
    assert!(file.loading());
}

#[test]
fn reader_stops_at_the_end_of_the_source() {
    let mut file = source(1);
    on_read(&mut file, ReadOutcome::Data(b"tail".to_vec()));
    let step = on_read(&mut file, ReadOutcome::End);
    assert_eq!(step, ReaderStep { event: Some(Event::StreamEnded(1)), go_on: false });
    assert_eq!(file.buffer().state(), &BufferState::Ended);
    assert_eq!(file.text(0), LineLookup::Found(b"tail".to_vec()));
    let step = on_read(&mut file, ReadOutcome::Data(b"late".to_vec()));
    assert_eq!(step, ReaderStep { event: None, go_on: false });
    let step = on_read(&mut file, ReadOutcome::End);
    assert_eq!(step, ReaderStep { event: None, go_on: false });
    assert_eq!(file.len(), 4);
}

#[test]
fn reader_records_a_failure_and_does_not_retry() {
    let mut file = source(2);
    on_read(&mut file, ReadOutcome::Data(b"so far\n".to_vec()));
    let step = on_read(&mut file, ReadOutcome::Failed("connection reset".to_string()));
    assert_eq!(
        step,
        ReaderStep {
            event: Some(Event::StreamErrored(2, "connection reset".to_string())),
            go_on: false
        }
    );
    assert_eq!(file.buffer().state(), &BufferState::Errored("connection reset".to_string()));
    assert_eq!(file.text(0), LineLookup::Found(b"so far".to_vec()));
    let step = on_read(&mut file, ReadOutcome::Failed("again".to_string()));
    assert_eq!(step, ReaderStep { event: None, go_on: false });
    assert_eq!(file.buffer().state(), &BufferState::Errored("connection reset".to_string()));
}

#[test]
fn throttle_says_how_long_to_wait() {
    let mut refresh = Refresh::new(50);
    assert_eq!(refresh.wait(10), None);
    refresh.data_arrived(100);
    assert_eq!(refresh.wait(110), None);
    refresh.data_arrived(110);
    assert_eq!(refresh.wait(110), Some(40));
    assert_eq!(refresh.wait(149), Some(1));
    assert_eq!(refresh.wait(150), Some(0));
    assert_eq!(refresh.wait(1000), Some(0));
    assert_eq!(refresh.wait(5), Some(0));
    assert!(refresh.tick(150));
    assert_eq!(refresh.wait(151), None);
}

#[test]
fn interface_modes_are_read_by_name() {
    assert_eq!(parse_mode(b"full"), Some(InterfaceMode::FullScreen));
    assert_eq!(parse_mode(b"fullscreen"), Some(InterfaceMode::FullScreen));
    assert_eq!(parse_mode(b"direct"), Some(InterfaceMode::Direct));
    assert_eq!(parse_mode(b"hybrid"), Some(InterfaceMode::Hybrid));
    assert_eq!(parse_mode(b"delayed:250"), Some(InterfaceMode::Delayed(250)));
    assert_eq!(parse_mode(b"delayed:0"), Some(InterfaceMode::Delayed(0)));
    assert_eq!(parse_mode(b"delayed:"), None);
    assert_eq!(parse_mode(b"delayed"), None);
    assert_eq!(parse_mode(b"delayed:2s"), None);
    assert_eq!(parse_mode(b"Full"), None);
    assert_eq!(parse_mode(b""), None);
    assert_eq!(parse_mode(b"directly"), None);
}

#[test]
fn truth_values_are_read_by_name() {
    for text in [&b"1"[..], b"true", b"yes", b"on"] {
        assert_eq!(parse_flag(text), Some(true));
    }
    for text in [&b"0"[..], b"false", b"no", b"off"] {
        assert_eq!(parse_flag(text), Some(false));
    }
    assert_eq!(parse_flag(b""), None);
    assert_eq!(parse_flag(b"True"), None);
    assert_eq!(parse_flag(b"2"), None);
}

#[test]
fn settings_take_the_place_of_defaults() {
    let base = Config::new();
    assert_eq!(base.with_settings(None, None, None), base);
    assert_eq!(
        base.with_settings(Some(b"hybrid"), Some(b"no"), Some(b"12")),
        Config { interface_mode: InterfaceMode::Hybrid, scroll_past_eof: false, read_ahead_lines: 12 }
    );
    assert_eq!(
        base.with_settings(Some(b"bogus"), Some(b"maybe"), Some(b"many")),
        base
    );
    assert_eq!(
        base.with_settings(None, Some(b"0"), Some(b"")),
        Config { scroll_past_eof: false, ..base }
    );
}

#[test]
fn startup_follows_the_interface_mode() {
    for (ended, fits) in [(false, false), (false, true), (true, false), (true, true)] {
        assert_eq!(startup(InterfaceMode::FullScreen, 0, ended, fits), Startup::Page);
        assert_eq!(startup(InterfaceMode::Direct, 0, ended, fits), Startup::Passthrough);
    }
    assert_eq!(startup(InterfaceMode::Hybrid, 0, false, true), Startup::Wait);
    assert_eq!(startup(InterfaceMode::Hybrid, 0, true, true), Startup::Passthrough);
    assert_eq!(startup(InterfaceMode::Hybrid, 0, false, false), Startup::Page);
    assert_eq!(startup(InterfaceMode::Hybrid, 0, true, false), Startup::Page);
    assert_eq!(startup(InterfaceMode::Delayed(100), 10, false, true), Startup::Wait);
    assert_eq!(startup(InterfaceMode::Delayed(100), 10, true, true), Startup::Passthrough);
    assert_eq!(startup(InterfaceMode::Delayed(100), 10, false, false), Startup::Page);
    assert_eq!(startup(InterfaceMode::Delayed(100), 100, false, true), Startup::Page);
    assert_eq!(startup(InterfaceMode::Delayed(100), 500, true, true), Startup::Passthrough);
    assert_eq!(startup(InterfaceMode::Delayed(100), 500, true, false), Startup::Page);
}

#[test]
fn cells_stand_at_their_columns() {
    let cells = decode(b"a\xc3\xa9b\tc");
    assert_eq!(cells.len(), 6);
    assert_eq!(column_of(&cells, 0), 0);
    assert_eq!(column_of(&cells, 1), 1);
    assert_eq!(column_of(&cells, 2), 2);
    assert_eq!(column_of(&cells, 3), 2);
    assert_eq!(column_of(&cells, 4), 3);
    assert_eq!(column_of(&cells, 5), 3);
    assert_eq!(column_of(&cells, 6), 4);
    assert_eq!(column_of(&cells, 60), 4);
    assert_eq!(character_at(&cells, 0), Some((0, 1)));
    assert_eq!(character_at(&cells, 1), Some((1, 3)));
    assert_eq!(character_at(&cells, 2), Some((1, 3)));
    assert_eq!(character_at(&cells, 3), Some((3, 5)));
    assert_eq!(character_at(&cells, 4), Some((3, 5)));
    assert_eq!(character_at(&cells, 5), Some((5, 6)));
    assert_eq!(character_at(&cells, 6), None);
    let leading = decode(b"\tab");
    assert_eq!(character_at(&leading, 0), Some((0, 1)));
    assert_eq!(character_at(&leading, 1), Some((1, 2)));
}

#[test]
fn rows_are_aligned_where_widths_agree() {
    assert!(aligned(&decode(b"abc"), &decode(b"xyz")));
    assert!(aligned(&decode(b"abc"), &decode(b"xyzzy")));
    assert!(aligned(&decode(b"a\tc"), &decode(b"x\x1bz")));
    assert!(!aligned(&decode(b"a\tc"), &decode(b"xyz")));
    assert!(aligned(&decode(b""), &decode(b"xyz")));
}
