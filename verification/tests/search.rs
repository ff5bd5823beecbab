use streampager::file::{File, FileInfo, FileKind};
use streampager::search::{find, find_backward_in, find_forward_in, Direction, Match, SearchOutcome};

fn two_lines() -> File {
    let mut file = File::new(FileInfo { index: 0, title: "out".to_string(), kind: FileKind::Stream }, 80);
    assert!(file.append(b"abc\ndef\n"));
    file
}

#[test]
fn forward_search_finds_second_line() {
    let mut file = two_lines();
    assert!(file.end());
    let found = find(&file, 0, 0, b"def", Direction::Forward);
    assert_eq!(found, SearchOutcome::Found(Match { file: 0, line: 1, start: 0, end: 3 }));
    let again = find(&file, 1, 1, b"def", Direction::Forward);
    assert_eq!(again, SearchOutcome::NoMatch);
}

#[test]
fn forward_search_while_loading_reports_no_match_yet() {
    let file = two_lines();
    assert_eq!(find(&file, 0, 0, b"xyz", Direction::Forward), SearchOutcome::NoMatchYet);
    assert_eq!(find(&file, 1, 2, b"xyz", Direction::Backward), SearchOutcome::NoMatch);
}

#[test]
fn search_sees_through_overstrike() {
    let mut file = File::new(FileInfo { index: 2, title: "man".to_string(), kind: FileKind::Stream }, 80);
    assert!(file.append(b"N\x08NA\x08AM\x08ME\x08E\n_\x08f_\x08o_\x08o bar\n"));
    assert_eq!(
        find(&file, 0, 0, b"NAME", Direction::Forward),
        SearchOutcome::Found(Match { file: 2, line: 0, start: 0, end: 4 })
    );
    assert_eq!(
        find(&file, 0, 0, b"foo bar", Direction::Forward),
        SearchOutcome::Found(Match { file: 2, line: 1, start: 0, end: 7 })
    );
}

#[test]
fn backward_search_finds_nearest_before_start() {
    let mut file = File::new(FileInfo { index: 0, title: "out".to_string(), kind: FileKind::Stream }, 80);
    assert!(file.append(b"ab ab\nab\nzz"));
    assert_eq!(
        find(&file, 2, 1, b"ab", Direction::Backward),
        SearchOutcome::Found(Match { file: 0, line: 1, start: 0, end: 2 })
    );
    assert_eq!(
        find(&file, 0, 2, b"ab", Direction::Backward),
        SearchOutcome::Found(Match { file: 0, line: 0, start: 0, end: 2 })
    );
    assert_eq!(
        find(&file, 0, 3, b"ab", Direction::Backward),
        SearchOutcome::Found(Match { file: 0, line: 0, start: 3, end: 5 })
    );
    assert_eq!(
        find(&file, 9, 0, b"ab", Direction::Backward),
        SearchOutcome::Found(Match { file: 0, line: 1, start: 0, end: 2 })
    );
}

#[test]
fn empty_pattern_matches_nowhere() {
    let file = two_lines();
    assert_eq!(find(&file, 0, 0, b"", Direction::Forward), SearchOutcome::NoMatchYet);
    assert_eq!(find_forward_in(b"abc", b"", 0), None);
    assert_eq!(find_backward_in(b"abc", b"", 2), None);
}

#[test]
fn in_line_search_respects_bounds() {
    assert_eq!(find_forward_in(b"xxabxab", b"ab", 0), Some(2));
    assert_eq!(find_forward_in(b"xxabxab", b"ab", 3), Some(5));
    assert_eq!(find_forward_in(b"xxabxab", b"ab", 6), None);
    assert_eq!(find_backward_in(b"xxabxab", b"ab", 4), Some(2));
    assert_eq!(find_backward_in(b"xxabxab", b"ab", 100), Some(5));
    assert_eq!(find_backward_in(b"xxabxab", b"ab", 1), None);
}
