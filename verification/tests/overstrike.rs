use streampager::overstrike::{
    classify, decode, styled_runs, text_of, width_of, ByteClass, Cell, Run,
};

fn plain(byte: u8) -> Cell {
    Cell { byte, bold: false, underline: false }
}

fn bold(byte: u8) -> Cell {
    Cell { byte, bold: true, underline: false }
}

fn underlined(byte: u8) -> Cell {
    Cell { byte, bold: false, underline: true }
}

#[test]
fn plain_text_decodes_to_itself() {
    assert_eq!(decode(b"abc"), vec![plain(b'a'), plain(b'b'), plain(b'c')]);
    assert_eq!(decode(b""), Vec::<Cell>::new());
}

#[test]
fn same_character_overstruck_is_bold() {
    assert_eq!(decode(b"a\x08a"), vec![bold(b'a')]);
    assert_eq!(decode(b"a\x08ab"), vec![bold(b'a'), plain(b'b')]);
    assert_eq!(decode(b"_\x08_"), vec![bold(b'_')]);
}

#[test]
fn underscore_overstruck_is_underlined() {
    assert_eq!(decode(b"_\x08a"), vec![underlined(b'a')]);
    assert_eq!(decode(b"a\x08_"), vec![underlined(b'a')]);
}

#[test]
fn different_character_overstruck_replaces() {
    assert_eq!(decode(b"a\x08b"), vec![plain(b'b')]);
}

#[test]
fn overstrikes_chain() {
    assert_eq!(
        decode(b"_\x08a\x08a"),
        vec![Cell { byte: b'a', bold: true, underline: true }]
    );
    assert_eq!(decode(b"a\x08a\x08a"), vec![bold(b'a')]);
    assert_eq!(
        decode(b"N\x08NA\x08AM\x08ME\x08E"),
        vec![bold(b'N'), bold(b'A'), bold(b'M'), bold(b'E')]
    );
}

#[test]
fn stray_backspace_is_stripped() {
    assert_eq!(decode(b"a\x08"), vec![plain(b'a')]);
    assert_eq!(decode(b"\x08a"), vec![plain(b'a')]);
    assert_eq!(decode(b"a\x08\x08b"), vec![plain(b'a'), plain(b'b')]);
    assert_eq!(decode(b"a\x08\xc3"), vec![plain(b'a'), plain(0xc3)]);
}

#[test]
fn control_bytes_follow_the_table() {
    assert_eq!(decode(b"a\x07b\rc\x7f"), vec![plain(b'a'), plain(b'b'), plain(b'c')]);
    assert_eq!(decode(b"a\tb"), vec![plain(b'a'), plain(9), plain(b'b')]);
    assert_eq!(decode(b"\x1b[1m"), vec![plain(27), plain(b'['), plain(b'1'), plain(b'm')]);
    assert_eq!(decode(b"\xc3\xa9"), vec![plain(0xc3), plain(0xa9)]);
}

#[test]
fn byte_classes_and_widths() {
    assert_eq!(classify(b' '), ByteClass::Printable);
    assert_eq!(classify(b'~'), ByteClass::Printable);
    assert_eq!(classify(0xc0), ByteClass::Printable);
    assert_eq!(classify(0xff), ByteClass::Printable);
    assert_eq!(classify(0x80), ByteClass::ZeroWidth);
    assert_eq!(classify(0xbf), ByteClass::ZeroWidth);
    assert_eq!(classify(9), ByteClass::ZeroWidth);
    assert_eq!(classify(27), ByteClass::ZeroWidth);
    assert_eq!(classify(0), ByteClass::Stripped);
    assert_eq!(classify(8), ByteClass::Stripped);
    assert_eq!(classify(10), ByteClass::Stripped);
    assert_eq!(classify(0x1f), ByteClass::Stripped);
    assert_eq!(classify(0x7f), ByteClass::Stripped);
    assert_eq!(width_of(&plain(b'a')), 1);
    assert_eq!(width_of(&plain(0xa9)), 0);
    assert_eq!(width_of(&plain(27)), 0);
}

#[test]
fn decoding_is_repeatable() {
    let bytes = b"_\x08h_\x08i t\x08th\x08he\x08er\x08re\x08e\x07!";
    assert_eq!(decode(bytes), decode(bytes));
    assert_eq!(text_of(&decode(bytes)), b"hi there!".to_vec());
}

#[test]
fn cells_group_into_maximal_runs() {
    let cells = decode(b"ab\x08bc\x08cd_\x08e");
    let runs = styled_runs(&cells);
    assert_eq!(
        runs,
        vec![
            Run { text: b"a".to_vec(), bold: false, underline: false },
            Run { text: b"bc".to_vec(), bold: true, underline: false },
            Run { text: b"d".to_vec(), bold: false, underline: false },
            Run { text: b"e".to_vec(), bold: false, underline: true },
        ]
    );
    assert_eq!(styled_runs(&[]), Vec::<Run>::new());
    assert_eq!(
        styled_runs(&decode(b"plain")),
        vec![Run { text: b"plain".to_vec(), bold: false, underline: false }]
    );
}
