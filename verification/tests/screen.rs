use streampager::file::{File, FileInfo, FileKind};
use streampager::overstrike::{text_of, Cell};
use streampager::screen::{
    fits_screen, last_screen_top, line_rows, row_of, shown_end, Frame, Update,
};

fn file_with(bytes: &[u8]) -> File {
    let mut file = File::new(FileInfo { index: 0, title: "out".to_string(), kind: FileKind::Stream }, 80);
    assert!(file.append(bytes));
    file
}

fn rows_of(frame: &Frame) -> Vec<Vec<u8>> {
    (0..frame.height()).map(|r| text_of(frame.row(r).unwrap())).collect()
}

fn put(row: usize, index: usize, byte: u8) -> Update {
    Update::Put { row, index, cell: Cell { byte, bold: false, underline: false } }
}

fn apply(rows: &mut Vec<Vec<Cell>>, updates: &[Update]) {
    for update in updates {
        match *update {
            Update::Put { row, index, cell } => {
                if index < rows[row].len() {
                    rows[row][index] = cell;
                } else {
                    assert_eq!(index, rows[row].len());
                    rows[row].push(cell);
                }
            }
            Update::ClearFrom { row, index } => rows[row].truncate(index),
        }
    }
}

#[test]
fn render_lays_lines_out_row_by_row() {
    let mut file = file_with(b"abc\ndefgh\n");
    let frame = Frame::render(&mut file, 0, 3, 4);
    assert_eq!(frame.height(), 4);
    assert_eq!(
        rows_of(&frame),
        vec![b"abc".to_vec(), b"def".to_vec(), b"gh".to_vec(), b"".to_vec()]
    );
    assert_eq!(frame.row(4), None);
    assert_eq!(file.current_width(), 3);
}

#[test]
fn render_cuts_at_the_bottom_of_the_screen() {
    let mut file = file_with(b"abc\ndefgh\nij\n");
    let frame = Frame::render(&mut file, 0, 3, 2);
    assert_eq!(rows_of(&frame), vec![b"abc".to_vec(), b"def".to_vec()]);
    let frame = Frame::render(&mut file, 1, 3, 2);
    assert_eq!(rows_of(&frame), vec![b"def".to_vec(), b"gh".to_vec()]);
    let frame = Frame::render(&mut file, 2, 3, 2);
    assert_eq!(rows_of(&frame), vec![b"ij".to_vec(), b"".to_vec()]);
    let frame = Frame::render(&mut file, 7, 3, 2);
    assert_eq!(rows_of(&frame), vec![b"".to_vec(), b"".to_vec()]);
    let frame = Frame::render(&mut file, 0, 3, 0);
    assert_eq!(frame.height(), 0);
}

#[test]
fn render_shows_an_empty_line_as_an_empty_row() {
    let mut file = file_with(b"a\n\nb");
    let frame = Frame::render(&mut file, 0, 10, 3);
    assert_eq!(rows_of(&frame), vec![b"a".to_vec(), b"".to_vec(), b"b".to_vec()]);
}

#[test]
fn blank_frame_has_empty_rows() {
    let frame = Frame::blank(3);
    assert_eq!(rows_of(&frame), vec![Vec::<u8>::new(), Vec::new(), Vec::new()]);
    assert_eq!(Frame::blank(0).height(), 0);
}

#[test]
fn diff_against_blank_puts_every_cell_in_row_major_order() {
    let mut file = file_with(b"ab\nc\n");
    let frame = Frame::render(&mut file, 0, 10, 2);
    assert_eq!(
        frame.diff(&Frame::blank(2)),
        vec![put(0, 0, b'a'), put(0, 1, b'b'), put(1, 0, b'c')]
    );
}

#[test]
fn diff_of_equal_frames_is_empty() {
    let mut file = file_with(b"same\nlines\n");
    let first = Frame::render(&mut file, 0, 10, 3);
    let second = Frame::render(&mut file, 0, 10, 3);
    assert_eq!(second.diff(&first), Vec::<Update>::new());
}

#[test]
fn diff_holds_only_changed_cells() {
    let mut before = file_with(b"hello\nworld\n");
    let mut after = file_with(b"hallo\nwor\n");
    let old = Frame::render(&mut before, 0, 10, 2);
    let new = Frame::render(&mut after, 0, 10, 2);
    assert_eq!(
        new.diff(&old),
        vec![put(0, 1, b'a'), Update::ClearFrom { row: 1, index: 3 }]
    );
    assert_eq!(
        old.diff(&new),
        vec![put(0, 1, b'e'), put(1, 3, b'l'), put(1, 4, b'd')]
    );
}

#[test]
fn diff_sees_a_change_of_style() {
    let mut before = file_with(b"ab\n");
    let mut after = file_with(b"a\x08ab\n");
    let old = Frame::render(&mut before, 0, 10, 1);
    let new = Frame::render(&mut after, 0, 10, 1);
    assert_eq!(
        new.diff(&old),
        vec![Update::Put { row: 0, index: 0, cell: Cell { byte: b'a', bold: true, underline: false } }]
    );
}

#[test]
fn diff_after_a_change_of_height_counts_missing_rows_as_empty() {
    let mut file = file_with(b"a\nb\nc\n");
    let small = Frame::render(&mut file, 0, 10, 1);
    let large = Frame::render(&mut file, 0, 10, 3);
    assert_eq!(large.diff(&small), vec![put(1, 0, b'b'), put(2, 0, b'c')]);
    assert_eq!(small.diff(&large), Vec::<Update>::new());
}

#[test]
fn applying_the_diff_yields_the_new_frame() {
    let mut before = file_with(b"The quick brown fox\njumps over\nthe lazy dog\n");
    let mut after = file_with(b"The quiet brown cat\njumps\n\nthe lazy dog again\n");
    let old = Frame::render(&mut before, 0, 8, 6);
    let new = Frame::render(&mut after, 0, 8, 6);
    let mut rows: Vec<Vec<Cell>> = (0..old.height()).map(|r| old.row(r).unwrap().clone()).collect();
    apply(&mut rows, &new.diff(&old));
    let expected: Vec<Vec<Cell>> = (0..new.height()).map(|r| new.row(r).unwrap().clone()).collect();
    assert_eq!(rows, expected);
}

#[test]
fn render_lays_out_only_the_lines_it_needs() {
    let mut file = file_with(b"one\ntwo two\nthree\nfour\n");
    Frame::render(&mut file, 0, 4, 3);
    assert_eq!(file.decodes(), 2);
    Frame::render(&mut file, 0, 4, 3);
    assert_eq!(file.decodes(), 2);
    Frame::render(&mut file, 1, 4, 3);
    assert_eq!(file.decodes(), 3);
    Frame::render(&mut file, 1, 5, 3);
    assert_eq!(file.decodes(), 5);
    Frame::render(&mut file, 9, 5, 3);
    assert_eq!(file.decodes(), 5);
    Frame::render(&mut file, 0, 5, 0);
    assert_eq!(file.decodes(), 5);
    Frame::render(&mut file, 3, 5, 10);
    assert_eq!(file.decodes(), 6);
}

#[test]
fn last_screen_is_counted_in_rows() {
    let file = file_with(b"aaaaaa\nbbbbbb\ncccccc\ndd\n");
    assert_eq!(line_rows(&file, 0, 3), 2);
    assert_eq!(line_rows(&file, 3, 3), 1);
    assert_eq!(line_rows(&file, 4, 3), 0);
    assert_eq!(last_screen_top(&file, 3, 3), 2);
    assert_eq!(last_screen_top(&file, 3, 4), 2);
    assert_eq!(last_screen_top(&file, 3, 5), 1);
    assert_eq!(last_screen_top(&file, 3, 7), 0);
    assert_eq!(last_screen_top(&file, 3, 100), 0);
    assert_eq!(last_screen_top(&file, 80, 3), 1);
    assert_eq!(last_screen_top(&file, 3, 0), 3);
    assert_eq!(last_screen_top(&file_with(b"abcdefghij\n"), 3, 2), 0);
    assert_eq!(last_screen_top(&file_with(b""), 3, 2), 0);
}

#[test]
fn rows_of_lines_are_counted_up_to_a_limit() {
    let file = file_with(b"aaaaaa\nbbbbbb\ncccccc\ndd\n");
    assert_eq!(row_of(&file, 0, 0, 3, 10), 0);
    assert_eq!(row_of(&file, 0, 2, 3, 10), 4);
    assert_eq!(row_of(&file, 0, 2, 3, 3), 3);
    assert_eq!(row_of(&file, 1, 3, 3, 10), 4);
    assert_eq!(row_of(&file, 2, 1, 3, 10), 0);
    assert_eq!(row_of(&file, 0, 99, 3, 100), 7);
    assert_eq!(shown_end(&file, 0, 3, 3), 2);
    assert_eq!(shown_end(&file, 0, 3, 2), 1);
    assert_eq!(shown_end(&file, 2, 3, 3), 4);
    assert_eq!(shown_end(&file, 0, 3, 0), 0);
    assert_eq!(shown_end(&file, 9, 3, 3), 9);
    assert_eq!(shown_end(&file, 0, 80, 3), 3);
    assert!(fits_screen(&file, 3, 7));
    assert!(!fits_screen(&file, 3, 6));
    assert!(fits_screen(&file, 80, 4));
    assert!(fits_screen(&file_with(b""), 3, 0));
}
