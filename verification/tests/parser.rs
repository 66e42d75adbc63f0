use branch_wipe::parser::{line_end, parse};
use branch_wipe::text::{decode_range, decode_text, is_space, trim_bounds};

fn names(input: &[u8]) -> Vec<String> {
    parse(input)
}

#[test]
fn parse_keeps_trimmed_lines_in_order() {
    assert_eq!(
        names(b"main\n  feature/x \n\n\nbug-1\n"),
        vec!["main".to_string(), "feature/x".to_string(), "bug-1".to_string()]
    );
}

#[test]
fn parse_of_nothing_is_empty() {
    assert_eq!(names(b""), Vec::<String>::new());
}

#[test]
fn parse_of_blank_lines_is_empty() {
    assert_eq!(names(b"\n\n   \n\t\n \r\n"), Vec::<String>::new());
}

#[test]
fn parse_takes_last_line_without_line_feed() {
    assert_eq!(names(b"main\ndev"), vec!["main".to_string(), "dev".to_string()]);
}

#[test]
fn parse_cuts_carriage_returns() {
    assert_eq!(names(b"main\r\ndev\r\n"), vec!["main".to_string(), "dev".to_string()]);
}

#[test]
fn parse_keeps_order_and_repeats() {
    assert_eq!(
        names(b"zeta\nalpha\nzeta\nmid\n"),
        vec!["zeta".to_string(), "alpha".to_string(), "zeta".to_string(), "mid".to_string()]
    );
}

#[test]
fn parse_keeps_whitespace_inside_a_name() {
    assert_eq!(names(b"  odd name\t\n"), vec!["odd name".to_string()]);
}

#[test]
fn parse_passes_malformed_names_through() {
    assert_eq!(
        names(b"* main\n(HEAD detached at 1a2b)\n..\n"),
        vec!["* main".to_string(), "(HEAD detached at 1a2b)".to_string(), "..".to_string()]
    );
}

#[test]
fn parse_decodes_each_byte_as_one_character() {
    assert_eq!(names(&[0xE9, b'a', 0xFF, b'\n']), vec!["\u{e9}a\u{ff}".to_string()]);
}

#[test]
fn parse_trims_next_line_and_no_break_space() {
    assert_eq!(names(&[0x85, 0xA0, b'x', 0xA0, 0x85, b'\n']), vec!["x".to_string()]);
    assert_eq!(names(&[0x85, 0xA0, 0x0B, 0x0C, b'\n']), Vec::<String>::new());
}

#[test]
fn parse_does_not_trim_other_control_bytes() {
    assert_eq!(names(&[0x00, b'x', 0x1F, b'\n']), vec!["\u{0}x\u{1f}".to_string()]);
}

#[test]
fn parse_agrees_with_split_trim_filter() {
    let inputs: Vec<&[u8]> = vec![
        b"",
        b"\n",
        b"a",
        b"a\n",
        b"\na",
        b" a \n b\n\n c d \n\t\n",
        b"x\n\ny\n\n\nz",
        b"\r\n\r\nmain\r\n",
    ];
    for input in inputs {
        let text: String = input.iter().map(|&b| b as char).collect();
        let expected: Vec<String> =
            text.split("\n").map(|l| l.trim()).filter(|l| !l.is_empty()).map(String::from).collect();
        assert_eq!(names(input), expected);
    }
}

#[test]
fn parsed_names_are_never_empty_nor_padded() {
    let parsed = names(b" a\n\n  \n b c \n\td\r\n");
    assert_eq!(parsed.len(), 3);
    for name in parsed {
        assert!(!name.is_empty());
        assert_eq!(name.trim(), name);
        assert!(!name.contains('\n'));
    }
}

#[test]
fn is_space_knows_the_whitespace_bytes() {
    let spaces: Vec<u8> = (0u8..=255).filter(|&b| is_space(b)).collect();
    assert_eq!(spaces, vec![0x09, 0x0A, 0x0B, 0x0C, 0x0D, 0x20, 0x85, 0xA0]);
}

#[test]
fn is_space_agrees_with_char_is_whitespace() {
    for b in 0u8..=255 {
        assert_eq!(is_space(b), (b as char).is_whitespace());
    }
}

#[test]
fn trim_bounds_gives_the_inner_range() {
    let bytes = b"ab  cd \n";
    assert_eq!(trim_bounds(bytes, 2, 7), (4, 6));
    assert_eq!(trim_bounds(bytes, 0, 2), (0, 2));
    assert_eq!(trim_bounds(bytes, 2, 4), (4, 4));
    assert_eq!(trim_bounds(bytes, 3, 3), (3, 3));
    assert_eq!(trim_bounds(bytes, 0, 8), (0, 6));
}

#[test]
fn line_end_stops_at_the_line_feed() {
    let bytes = b"ab\n\ncd";
    assert_eq!(line_end(bytes, 0), 2);
    assert_eq!(line_end(bytes, 2), 2);
    assert_eq!(line_end(bytes, 3), 3);
    assert_eq!(line_end(bytes, 4), 6);
    assert_eq!(line_end(bytes, 6), 6);
}

#[test]
fn decode_text_maps_bytes_to_code_points() {
    assert_eq!(decode_text(b"error: x\n"), "error: x\n".to_string());
    assert_eq!(decode_text(&[0x41, 0x80, 0xFF]), "A\u{80}\u{ff}".to_string());
    assert_eq!(decode_text(b""), String::new());
}

#[test]
fn decode_range_takes_the_given_stretch() {
    assert_eq!(decode_range(b"hello world", 6, 11), "world".to_string());
    assert_eq!(decode_range(b"hello", 2, 2), String::new());
}
