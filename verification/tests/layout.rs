use streampager::file::{File, FileInfo, FileKind, LineLookup};
use streampager::layout::{copy_rows, wrap};
use streampager::line_cache::LineCache;
use streampager::overstrike::{decode, text_of, Cell};

fn stream(title: &str) -> File {
    File::new(FileInfo { index: 0, title: title.to_string(), kind: FileKind::Stream }, 80)
}

fn texts(rows: &[Vec<Cell>]) -> Vec<Vec<u8>> {
    rows.iter().map(|row| text_of(row)).collect()
}

#[test]
fn wrap_fills_rows_greedily() {
    let rows = wrap(&decode(b"abcdefg"), 3);
    assert_eq!(texts(&rows), vec![b"abc".to_vec(), b"def".to_vec(), b"g".to_vec()]);
}

#[test]
fn wrap_of_exact_fit_has_no_empty_row() {
    assert_eq!(texts(&wrap(&decode(b"abc"), 3)), vec![b"abc".to_vec()]);
    assert_eq!(texts(&wrap(&decode(b"abcdef"), 3)), vec![b"abc".to_vec(), b"def".to_vec()]);
}

#[test]
fn empty_line_is_one_empty_row() {
    assert_eq!(wrap(&Vec::new(), 10), vec![Vec::<Cell>::new()]);
}

#[test]
fn width_zero_does_not_wrap() {
    assert_eq!(texts(&wrap(&decode(b"abcdef"), 0)), vec![b"abcdef".to_vec()]);
}

#[test]
fn cells_without_column_stay_with_the_row_before() {
    let rows = wrap(&decode(b"ab\xc3\xa9cd"), 3);
    assert_eq!(texts(&rows), vec![b"ab\xc3\xa9".to_vec(), b"cd".to_vec()]);
    let rows = wrap(&decode(b"abc\tdef"), 3);
    assert_eq!(texts(&rows), vec![b"abc\t".to_vec(), b"def".to_vec()]);
}

#[test]
fn rows_laid_end_to_end_are_the_cells() {
    let cells = decode(b"The q\x08quick brown fox j\x08_umps over the lazy dog");
    for width in 1..12 {
        let rows = wrap(&cells, width);
        let joined: Vec<Cell> = rows.iter().flat_map(|row| row.iter().copied()).collect();
        assert_eq!(joined, cells);
        for (i, row) in rows.iter().enumerate() {
            assert!(row.len() <= width);
            if i + 1 < rows.len() {
                assert_eq!(row.len(), width);
            }
        }
    }
}

#[test]
fn copies_are_equal() {
    let rows = wrap(&decode(b"abcdef"), 4);
    assert_eq!(copy_rows(&rows), rows);
    assert_eq!(copy_rows(&Vec::new()), Vec::<Vec<Cell>>::new());
}

#[test]
fn second_request_comes_from_the_cache() {
    let mut file = stream("out");
    assert!(file.append(b"hello world\n"));
    assert_eq!(file.decodes(), 0);
    let first = file.get(0, 5);
    assert_eq!(file.decodes(), 1);
    let second = file.get(0, 5);
    assert_eq!(file.decodes(), 1);
    assert_eq!(first, second);
    match first {
        LineLookup::Found(rows) => {
            assert_eq!(texts(&rows), vec![b"hello".to_vec(), b" worl".to_vec(), b"d".to_vec()])
        }
        other => panic!("unexpected {:?}", other),
    }
}

#[test]
fn resize_lays_out_again() {
    let mut file = stream("out");
    assert!(file.append(b"hello world\n"));
    let at_five = file.get(0, 5);
    assert_eq!(file.decodes(), 1);
    assert_eq!(file.current_width(), 5);
    let at_four = file.get(0, 4);
    assert_eq!(file.decodes(), 2);
    assert_eq!(file.current_width(), 4);
    match (&at_five, &at_four) {
        (LineLookup::Found(five), LineLookup::Found(four)) => {
            assert_eq!(five.len(), 3);
            assert_eq!(
                texts(four),
                vec![b"hell".to_vec(), b"o wo".to_vec(), b"rld".to_vec()]
            );
        }
        other => panic!("unexpected {:?}", other),
    }
    let back = file.get(0, 5);
    assert_eq!(file.decodes(), 3);
    assert_eq!(back, at_five);
}

#[test]
fn set_width_drops_layouts_of_the_old_width() {
    let mut file = stream("out");
    assert!(file.append(b"one\ntwo\n"));
    file.set_width(10);
    file.get(0, 10);
    file.get(1, 10);
    assert_eq!(file.decodes(), 2);
    file.set_width(10);
    file.get(0, 10);
    assert_eq!(file.decodes(), 2);
    file.set_width(11);
    file.get(0, 11);
    assert_eq!(file.decodes(), 3);
}

#[test]
fn new_data_keeps_terminated_lines_cached() {
    let mut file = stream("out");
    assert!(file.append(b"done\npend"));
    file.get(0, 80);
    file.get(1, 80);
    assert_eq!(file.decodes(), 2);
    assert!(file.append(b"ing\n"));
    file.get(0, 80);
    assert_eq!(file.decodes(), 2);
    match file.get(1, 80) {
        LineLookup::Found(rows) => assert_eq!(texts(&rows), vec![b"pending".to_vec()]),
        other => panic!("unexpected {:?}", other),
    }
    assert_eq!(file.decodes(), 3);
}

#[test]
fn missing_line_is_not_yet_available_then_out_of_range() {
    let mut file = stream("out");
    assert!(file.append(b"only\n"));
    assert_eq!(file.get(1, 80), LineLookup::NotYetAvailable);
    assert_eq!(file.cells(1), LineLookup::NotYetAvailable);
    assert!(file.end());
    assert_eq!(file.get(1, 80), LineLookup::OutOfRange);
    assert_eq!(file.cells(1), LineLookup::OutOfRange);
    assert_eq!(file.decodes(), 0);
    assert_eq!(file.cells(0), LineLookup::Found(decode(b"only")));
}

#[test]
fn read_ahead_fills_the_cache() {
    let mut file = stream("out");
    assert!(file.append(b"a\nb\nc\nd\ne\n"));
    file.set_width(20);
    assert_eq!(file.prefetch(1, 3), 3);
    assert_eq!(file.decodes(), 3);
    file.get(1, 20);
    file.get(2, 20);
    file.get(3, 20);
    assert_eq!(file.decodes(), 3);
    file.get(0, 20);
    assert_eq!(file.decodes(), 4);
    assert_eq!(file.prefetch(3, 100), 2);
    assert_eq!(file.decodes(), 5);
    assert_eq!(file.prefetch(9, 4), 0);
    assert_eq!(file.prefetch(0, 0), 0);
    assert_eq!(file.decodes(), 5);
}

#[test]
fn cache_keeps_one_width() {
    let mut cache = LineCache::new(8);
    assert_eq!(cache.current_width(), 8);
    assert_eq!(cache.lookup(3), None);
    let rows = wrap(&decode(b"0123456789"), 8);
    cache.store(3, copy_rows(&rows));
    assert_eq!(cache.lookup(3), Some(rows));
    assert_eq!(cache.lookup(4), None);
    cache.resize(8);
    assert!(cache.lookup(3).is_some());
    cache.forget(3);
    assert_eq!(cache.lookup(3), None);
    cache.store(3, wrap(&decode(b"x"), 8));
    cache.resize(9);
    assert_eq!(cache.current_width(), 9);
    assert_eq!(cache.lookup(3), None);
}
