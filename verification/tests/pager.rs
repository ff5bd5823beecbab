use streampager::command::Action;
use streampager::config::{Config, InterfaceMode, DEFAULT_READ_AHEAD_LINES};
use streampager::display::Mode;
use streampager::file::{File, FileInfo, FileKind};
use streampager::overstrike::text_of;
use streampager::pager::{subprocess_error_title, Pager};
use streampager::startup::{accept_capabilities, check_capabilities, StartupError};
use termwiz::caps::{Capabilities, ProbeHints};
use streampager::screen::Frame;

fn loaded(info: &FileInfo, bytes: &[u8]) -> File {
    let mut file = File::new(info.clone(), 20);
    assert!(file.append(bytes));
    assert!(file.end());
    file
}

#[test]
fn new_pager_is_empty() {
    let pager = Pager::new(Config::new());
    assert_eq!(pager.file_count(), 0);
    assert_eq!(pager.error_file(0), None);
    assert_eq!(pager.file(0), None);
    assert!(!pager.shows_progress());
    assert_eq!(pager.options(), Config::new());
}

#[test]
fn error_stream_is_paired_with_the_source_before_it() {
    let mut pager = Pager::new(Config::new());
    assert_eq!(pager.add_output_stream("first"), 0);
    assert_eq!(pager.add_output_stream("out"), 1);
    assert_eq!(pager.error_file(1), None);
    assert_eq!(pager.add_error_stream("err"), 2);
    assert_eq!(pager.error_file(1), Some(2));
    assert_eq!(pager.error_file(0), None);
    assert_eq!(pager.error_file(2), None);
    assert_eq!(pager.file_count(), 3);
    assert_eq!(
        pager.file(2),
        Some(&FileInfo { index: 2, title: "err".to_string(), kind: FileKind::Stream })
    );
    assert_eq!(
        pager.file(1),
        Some(&FileInfo { index: 1, title: "out".to_string(), kind: FileKind::Stream })
    );
}

#[test]
fn error_stream_without_source_is_unpaired() {
    let mut pager = Pager::new(Config::new());
    assert_eq!(pager.add_error_stream("err"), 0);
    assert_eq!(pager.error_file(0), None);
    assert_eq!(pager.file_count(), 1);
}

#[test]
fn subprocess_adds_a_linked_pair() {
    let mut pager = Pager::new(Config::new());
    assert_eq!(pager.add_output_file("notes.txt"), 0);
    assert_eq!(pager.add_subprocess("make"), 1);
    assert_eq!(pager.file_count(), 3);
    assert_eq!(pager.error_file(1), Some(2));
    assert_eq!(pager.error_file(0), None);
    assert_eq!(
        pager.file(0),
        Some(&FileInfo { index: 0, title: "notes.txt".to_string(), kind: FileKind::Disk })
    );
    assert_eq!(
        pager.file(1),
        Some(&FileInfo { index: 1, title: "make".to_string(), kind: FileKind::SubprocessOut })
    );
    assert_eq!(
        pager.file(2),
        Some(&FileInfo {
            index: 2,
            title: "STDERR for make".to_string(),
            kind: FileKind::SubprocessErr
        })
    );
}

#[test]
fn setters_change_one_option_each() {
    let mut pager = Pager::new(Config::new());
    assert_eq!(pager.options().interface_mode, InterfaceMode::FullScreen);
    assert!(pager.options().scroll_past_eof);
    assert_eq!(pager.options().read_ahead_lines, DEFAULT_READ_AHEAD_LINES);
    assert_eq!(DEFAULT_READ_AHEAD_LINES, 5000);
    pager.set_interface_mode(InterfaceMode::Delayed(250));
    pager.set_scroll_past_eof(false);
    pager.set_read_ahead_lines(17);
    pager.set_progress_stream();
    assert_eq!(
        pager.options(),
        Config {
            interface_mode: InterfaceMode::Delayed(250),
            scroll_past_eof: false,
            read_ahead_lines: 17
        }
    );
    assert!(pager.shows_progress());
    pager.set_interface_mode(InterfaceMode::Direct);
    assert_eq!(pager.options().interface_mode, InterfaceMode::Direct);
}

#[test]
fn toggling_error_view_shows_the_error_stream() {
    let mut pager = Pager::new(Config::new());
    let out = pager.add_output_stream("out");
    let err = pager.add_error_stream("err");
    assert_eq!(pager.error_file(out), Some(err));
    let mut files = vec![
        loaded(pager.file(out).unwrap(), b"output line\n"),
        loaded(pager.file(err).unwrap(), b"error line\n"),
    ];
    let mut display = pager.run(20, 2);
    assert_eq!(display.mode(), Mode::Viewing);
    assert_eq!(display.visible_file(), out);
    let frame = Frame::render(&mut files[display.visible_file()], 0, 20, 2);
    assert_eq!(text_of(frame.row(0).unwrap()), b"output line".to_vec());

    let shown = display.visible_file();
    display.handle_action(Action::ToggleErrorView, &files[shown]);
    assert_eq!(display.visible_file(), err);
    assert_eq!(display.state().active_file, out);
    assert_eq!(display.state().error_view, vec![true, false]);
    let frame = Frame::render(&mut files[display.visible_file()], 0, 20, 2);
    assert_eq!(text_of(frame.row(0).unwrap()), b"error line".to_vec());

    let shown = display.visible_file();
    display.handle_action(Action::ToggleErrorView, &files[shown]);
    assert_eq!(display.visible_file(), out);
    assert_eq!(display.state().error_view, vec![false, false]);
}

#[test]
fn toggling_without_error_stream_changes_nothing() {
    let mut pager = Pager::new(Config::new());
    pager.add_output_stream("a");
    pager.add_output_stream("b");
    let file = loaded(pager.file(0).unwrap(), b"x\n");
    let mut display = pager.run(20, 2);
    let before = display.state().clone();
    display.handle_action(Action::ToggleErrorView, &file);
    assert_eq!(display.state(), &before);
    assert_eq!(display.visible_file(), 0);
}

#[test]
fn run_without_files_is_exiting() {
    let display = Pager::new(Config::new()).run(80, 24);
    assert_eq!(display.mode(), Mode::Exiting);
    assert_eq!(display.size(), (80, 24));
}

#[test]
fn run_hands_over_the_options() {
    let mut pager = Pager::new(Config::new());
    pager.set_scroll_past_eof(false);
    pager.add_output_stream("out");
    let display = pager.run(132, 43);
    assert!(!display.config().scroll_past_eof);
    assert_eq!(display.size(), (132, 43));
    assert_eq!(display.state().active_file, 0);
    assert_eq!(display.state().top_line, 0);
    assert_eq!(display.state().cursor_row, 0);
    assert_eq!(display.state().search, None);
    assert_eq!(display.state().error_view, vec![false]);
}

#[test]
fn missing_terminfo_stops_the_start_where_it_is_needed() {
    assert_eq!(check_capabilities(true, true), Ok(()));
    assert_eq!(check_capabilities(true, false), Err(StartupError::TerminfoNotFound));
    assert_eq!(check_capabilities(false, false), Ok(()));
    assert_eq!(check_capabilities(false, true), Ok(()));
    assert_eq!(
        StartupError::TerminfoNotFound.message(),
        "terminfo database not found (is $TERM correct?)"
    );
}

#[test]
fn capabilities_without_terminfo_are_refused_where_it_is_needed() {
    let caps = Capabilities::new_with_hints(ProbeHints::default()).unwrap();
    let found = caps.terminfo_db().is_some();
    assert!(accept_capabilities(caps.clone(), false).is_ok());
    match accept_capabilities(caps, true) {
        Ok(accepted) => {
            assert!(found);
            assert!(accepted.terminfo_db().is_some());
        }
        Err(e) => {
            assert!(!found);
            assert_eq!(e, StartupError::TerminfoNotFound);
        }
    }
}

#[test]
fn second_error_stream_goes_to_the_same_output() {
    let mut pager = Pager::new(Config::new());
    assert_eq!(pager.add_output_stream("out"), 0);
    assert_eq!(pager.add_error_stream("first errors"), 1);
    assert_eq!(pager.error_file(0), Some(1));
    assert_eq!(pager.add_error_stream("second errors"), 2);
    assert_eq!(pager.error_file(0), Some(2));
    assert_eq!(pager.error_file(1), None);
    assert_eq!(pager.error_file(2), None);
    assert!(!pager.is_error_stream(0));
    assert!(pager.is_error_stream(1));
    assert!(pager.is_error_stream(2));
    assert!(!pager.is_error_stream(3));
}

#[test]
fn error_stream_skips_the_error_stream_of_a_subprocess() {
    let mut pager = Pager::new(Config::new());
    assert_eq!(pager.add_output_file("log"), 0);
    assert_eq!(pager.add_subprocess("make"), 1);
    assert_eq!(pager.add_error_stream("more errors"), 3);
    assert_eq!(pager.error_file(1), Some(3));
    assert_eq!(pager.error_file(2), None);
    assert_eq!(pager.error_file(0), None);
    assert!(pager.is_error_stream(2));
    assert!(!pager.is_error_stream(1));
    assert_eq!(subprocess_error_title("make"), "STDERR for make");
    let file = loaded(pager.file(1).unwrap(), b"x\n");
    let mut display = pager.run(20, 2);
    display.handle_action(Action::NextFile, &file);
    assert_eq!(display.visible_file(), 1);
    display.handle_action(Action::ToggleErrorView, &file);
    assert_eq!(display.visible_file(), 3);
}
