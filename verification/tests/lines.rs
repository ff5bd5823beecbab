use streampager::buffer::{Buffer, BufferState, RangeError};
use streampager::file::{File, FileInfo, FileKind, Line, LineLookup};
use streampager::overstrike::Run;
use streampager::line_index::{LineIndex, LineSpan};

fn stream(index: usize, title: &str) -> File {
    File::new(FileInfo { index, title: title.to_string(), kind: FileKind::Stream }, 80)
}

#[test]
fn two_terminated_lines_after_end() {
    let mut file = stream(0, "out");
    assert!(file.append(b"abc\ndef\n"));
    assert!(file.end());
    assert_eq!(file.line_count(), 2);
    assert_eq!(file.text(0), LineLookup::Found(b"abc".to_vec()));
    assert_eq!(file.text(1), LineLookup::Found(b"def".to_vec()));
    assert_eq!(file.len(), 8);
    assert_eq!(file.text(2), LineLookup::OutOfRange);
}

#[test]
fn line_count_equals_newline_count_for_terminated_input() {
    let data = b"one\n\ntwo\nthree\n";
    let mut file = stream(0, "out");
    assert!(file.append(data));
    assert_eq!(file.line_count(), 4);
    assert_eq!(file.terminated_lines(), 4);
    let mut rebuilt: Vec<u8> = Vec::new();
    let mut expected_start = 0;
    for i in 0..file.line_count() {
        match file.line(i) {
            LineLookup::Found(span) => {
                assert_eq!(span.start, expected_start);
                assert!(span.end <= file.len());
                rebuilt.extend_from_slice(&file.buffer().read_range(span.start, span.end).unwrap());
                expected_start = span.end;
            }
            other => panic!("line {} missing: {:?}", i, other),
        }
    }
    assert_eq!(rebuilt, data.to_vec());
}

#[test]
fn pending_line_is_counted_but_not_terminated() {
    let mut file = stream(0, "out");
    assert!(file.append(b"abc\nde"));
    assert_eq!(file.terminated_lines(), 1);
    assert_eq!(file.line_count(), 2);
    assert_eq!(file.text(1), LineLookup::Found(b"de".to_vec()));
    assert_eq!(file.text(2), LineLookup::NotYetAvailable);
    assert!(file.append(b"f\n"));
    assert_eq!(file.terminated_lines(), 2);
    assert_eq!(file.line_count(), 2);
    assert_eq!(file.text(1), LineLookup::Found(b"def".to_vec()));
}

#[test]
fn trailing_bytes_become_a_final_line_on_end() {
    let mut file = stream(0, "out");
    assert!(file.append(b"abc\ntail"));
    assert!(file.loading());
    assert!(file.end());
    assert!(!file.loading());
    assert_eq!(file.line_count(), 2);
    assert_eq!(file.terminated_lines(), 1);
    assert_eq!(file.text(1), LineLookup::Found(b"tail".to_vec()));
    assert_eq!(file.text(2), LineLookup::OutOfRange);
    assert_eq!(
        file.line(1),
        LineLookup::Found(LineSpan { start: 4, text_end: 8, end: 8 })
    );
}

#[test]
fn finished_file_refuses_bytes() {
    let mut file = stream(0, "out");
    assert!(file.append(b"abc\n"));
    assert!(file.end());
    assert!(!file.append(b"more\n"));
    assert!(!file.end());
    assert!(!file.fail("late".to_string()));
    assert_eq!(file.len(), 4);
    assert_eq!(file.line_count(), 1);
}

#[test]
fn failed_file_keeps_its_cause() {
    let mut file = stream(3, "err");
    assert!(file.append(b"partial"));
    assert!(file.fail("broken pipe".to_string()));
    match file.buffer().state() {
        BufferState::Errored(cause) => assert_eq!(cause, "broken pipe"),
        _ => panic!("expected an errored buffer"),
    }
    assert_eq!(file.line_count(), 1);
    assert_eq!(file.text(1), LineLookup::OutOfRange);
    assert_eq!(file.info().index, 3);
}

#[test]
fn empty_file_has_no_lines() {
    let mut file = stream(0, "out");
    assert_eq!(file.line_count(), 0);
    assert_eq!(file.text(0), LineLookup::NotYetAvailable);
    assert!(file.end());
    assert_eq!(file.text(0), LineLookup::OutOfRange);
}

#[test]
fn buffer_reads_only_committed_ranges() {
    let mut buffer = Buffer::new();
    assert!(buffer.append(b"hello"));
    assert_eq!(buffer.len(), 5);
    assert_eq!(buffer.read_range(1, 4), Ok(b"ell".to_vec()));
    assert_eq!(buffer.read_range(5, 5), Ok(Vec::new()));
    assert_eq!(buffer.read_range(2, 6), Err(RangeError { start: 2, end: 6, len: 5 }));
    assert_eq!(buffer.read_range(4, 3), Err(RangeError { start: 4, end: 3, len: 5 }));
    assert!(buffer.mark_ended());
    assert!(!buffer.append(b"x"));
    assert_eq!(buffer.as_slice(), b"hello");
}

#[test]
fn index_is_fed_chunk_by_chunk() {
    let mut index = LineIndex::new();
    assert!(index.feed(b"ab"));
    assert_eq!(index.line_count(), 1);
    assert!(index.has_pending());
    assert!(index.feed(b"c\n\nx"));
    assert_eq!(index.scanned_len(), 6);
    assert_eq!(index.terminated(), 2);
    assert_eq!(index.line_count(), 3);
    assert_eq!(index.span(0), Some(LineSpan { start: 0, text_end: 3, end: 4 }));
    assert_eq!(index.span(1), Some(LineSpan { start: 4, text_end: 4, end: 5 }));
    assert_eq!(index.span(2), Some(LineSpan { start: 5, text_end: 6, end: 6 }));
    assert_eq!(index.span(3), None);
}

#[test]
fn newline_turns_the_pending_line_into_a_terminated_one() {
    let mut file = stream(0, "out");
    assert!(file.append(b"first\nsecond"));
    let pending_before = file.line_count() - file.terminated_lines();
    let terminated_before = file.terminated_lines();
    assert_eq!(pending_before, 1);
    assert!(file.append(b"\n"));
    assert_eq!(file.terminated_lines(), terminated_before + 1);
    assert_eq!(file.line_count() - file.terminated_lines(), 0);
}

#[test]
fn lines_of_a_snapshot_stay_where_they_are() {
    let mut file = stream(0, "out");
    assert!(file.append(b"one\ntwo\nthr"));
    let committed = file.len();
    let mut snapshot = Vec::new();
    for i in 0..file.line_count() {
        match file.line(i) {
            LineLookup::Found(span) => {
                assert!(span.end <= committed);
                snapshot.push(span);
            }
            other => panic!("line {} missing: {:?}", i, other),
        }
    }
    assert!(file.append(b"ee\nfour\n"));
    assert_eq!(file.line(0), LineLookup::Found(snapshot[0]));
    assert_eq!(file.line(1), LineLookup::Found(snapshot[1]));
    match file.line(2) {
        LineLookup::Found(span) => {
            assert_eq!(span.start, snapshot[2].start);
            assert!(span.end >= snapshot[2].end);
            assert_eq!(span, LineSpan { start: 8, text_end: 13, end: 14 });
        }
        other => panic!("unexpected {:?}", other),
    }
    assert_eq!(file.buffer().read_range(0, committed), Ok(b"one\ntwo\nthr".to_vec()));
}

#[test]
fn line_record_holds_range_and_runs() {
    let mut file = stream(0, "man");
    assert!(file.append(b"N\x08NAME\nplain\n"));
    assert_eq!(
        file.styled(0),
        LineLookup::Found(Line {
            span: LineSpan { start: 0, text_end: 6, end: 7 },
            runs: vec![
                Run { text: b"N".to_vec(), bold: true, underline: false },
                Run { text: b"AME".to_vec(), bold: false, underline: false },
            ],
        })
    );
    assert_eq!(
        file.styled(1),
        LineLookup::Found(Line {
            span: LineSpan { start: 7, text_end: 12, end: 13 },
            runs: vec![Run { text: b"plain".to_vec(), bold: false, underline: false }],
        })
    );
    assert_eq!(file.styled(2), LineLookup::NotYetAvailable);
    assert!(file.end());
    assert_eq!(file.styled(2), LineLookup::OutOfRange);
}
