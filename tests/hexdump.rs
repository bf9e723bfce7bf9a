use unixtools::hexdump::{get_char_string_rep, CommandLineOptions, DisplayMode, Formatter};

fn all_lines(mut fmt: Formatter) -> Vec<String> {
    let mut lines = Vec::new();
    while let Some(line) = fmt.next_line() {
        lines.push(line);
    }
    lines
}

fn options(mode: DisplayMode) -> CommandLineOptions {
    let mut cmd_options = CommandLineOptions::new();
    cmd_options.two_bytes_hex = false;
    match mode {
        DisplayMode::OneByteOctal => cmd_options.one_byte_octal = true,
        DisplayMode::OneByteChar => cmd_options.one_byte_char = true,
        DisplayMode::Canonical => cmd_options.cannonical = true,
        DisplayMode::TwoBytesHex => cmd_options.two_bytes_hex = true,
        DisplayMode::TwoBytesDecimal => cmd_options.two_bytes_decimal = true,
        DisplayMode::TwoBytesOctal => cmd_options.two_bytes_octal = true,
    }
    cmd_options
}

#[test]
fn ts_formatter_new_octal() {
    let v: Vec<u8> = vec![1, 2, 3];
    let mut cmd_options = CommandLineOptions::new();
    cmd_options.one_byte_octal = true;
    cmd_options.two_bytes_hex = false;
    let fmt: Formatter = Formatter::new(v, &cmd_options);
    assert_eq!(true, fmt.oct_output);
    assert_eq!(false, fmt.char_output);
    assert_eq!(false, fmt.cannonical);
    assert_eq!(true, fmt.one_byte_output);
}

#[test]
fn ts_formatter_one_byte_octal() {
    let buf: Vec<u8> = vec![1, 2, 3, 4, 5, 6, 7, 8, 9];
    let mut cmd_options = CommandLineOptions::new();
    cmd_options.one_byte_octal = true;
    cmd_options.two_bytes_hex = false;
    let mut fmt = Formatter::new(buf, &cmd_options);

    let mut expected_lines: Vec<String> = Vec::new();
    expected_lines.push(String::from(
        "0000000  001 002 003 004 005 006 007 010 011",
    ));
    expected_lines.push(String::from("00000009"));

    let mut i = 0;
    while let Some(line) = fmt.next_row() {
        assert_eq!(expected_lines[i], line, "line is: {}", line);
        i += 1;
    }

    let buf: Vec<u8> = vec![1, 2, 3, 4, 5, 6, 7, 8, 9, 10, 11, 12, 13, 14, 15, 16];
    let _ = expected_lines.pop();
    let _ = expected_lines.pop();

    expected_lines.push(String::from(
        "0000000  001 002 003 004 005 006 007 010 011 012 013 014 015 016 017 020",
    ));
    expected_lines.push(String::from("0000010"));

    let mut fmt = Formatter::new(buf, &cmd_options);
    let mut i = 0;
    while let Some(line) = fmt.next_row() {
        assert_eq!(expected_lines[i], line, "line is: {}", line);
        i += 1;
    }

    let buf: Vec<u8> = vec![1, 2, 3, 4, 5, 6, 7, 8, 9, 10, 11, 12, 13, 14, 15, 16, 17];
    let _ = expected_lines.pop();

    expected_lines.push(String::from("0000010  021"));
    expected_lines.push(String::from("0000011"));

    let mut fmt = Formatter::new(buf, &cmd_options);
    let mut i = 0;
    while let Some(line) = fmt.next_row() {
        assert_eq!(expected_lines[i], line, "line is: {}", line);
        i += 1;
    }
}

#[test]
fn ts_formatter_one_char() {
    let buf: Vec<u8> = vec![66, 67, 68, 69, 70, 71, 72, 73, 74, 75];
    let mut cmd_options = CommandLineOptions::new();
    cmd_options.one_byte_char = true;
    cmd_options.two_bytes_hex = false;
    let mut fmt = Formatter::new(buf, &cmd_options);

    let mut expected_lines: Vec<String> = Vec::new();
    expected_lines.push(String::from(
        "0000000    B   C   D   E   F   G   H   I   J   K",
    ));
    expected_lines.push(String::from("00000009"));

    let mut i = 0;
    while let Some(line) = fmt.next_row() {
        assert_eq!(expected_lines[i], line, "line is: {}", line);
        i += 1;
    }
}

#[test]
fn ts_formatter_cannonical() {
    let buf: Vec<u8> = vec![66, 67, 68, 69, 70, 71, 72, 73, 74, 75];
    let mut cmd_options = CommandLineOptions::new();
    cmd_options.cannonical = true;
    cmd_options.two_bytes_hex = false;
    let mut fmt = Formatter::new(buf, &cmd_options);
    let mut expected_lines: Vec<String> = Vec::new();

    // one incomplete line
    expected_lines.push(String::from(format!(
        "{:<57}   {}",
        "0000000  42 43 44 45 46 47 48 49  4a 4b", "|BCDEFGHIJK|"
    )));

    let mut i = 0;
    while let Some(line) = fmt.next_row() {
        assert_eq!(expected_lines[i], line, "line is: {}", line);
        i += 1;
    }

    let buf: Vec<u8> = vec![66, 67, 68, 69, 70, 71, 72, 73, 74, 75, 76, 77, 78, 79, 80, 81];
    let mut fmt = Formatter::new(buf, &cmd_options);

    // one complete line
    let _ = expected_lines.pop();
    expected_lines.push(String::from(format!(
        "{:<57}   {}",
        "0000000  42 43 44 45 46 47 48 49  4a 4b 4c 4d 4e 4f 50 51", "|BCDEFGHIJKLMNOPQ|"
    )));
    let mut i = 0;
    while let Some(line) = fmt.next_row() {
        assert_eq!(expected_lines[i], line, "line is: {}", line);
        i += 1;
    }

    // two lines, the second incomplete and ending in a newline
    let buf: Vec<u8> = vec![
        66, 67, 68, 69, 70, 71, 72, 73, 74, 75, 76, 77, 78, 79, 80, 81, 82, 83, 0x0a,
    ];
    let mut fmt = Formatter::new(buf, &cmd_options);

    expected_lines.push(String::from(format!("{:<57}   {}", "0000010  52 53 0a", "|RS.|")));
    let mut i = 0;
    while let Some(line) = fmt.next_row() {
        assert_eq!(expected_lines[i], line, "line is: {}", line);
        i += 1;
    }
}

#[test]
fn empty_buffer_gives_only_offset_line() {
    let fmt = Formatter::new(Vec::new(), &CommandLineOptions::new());
    assert_eq!(vec![String::from("0000000")], all_lines(fmt));
}

#[test]
fn nine_bytes_octal_then_closing_offset() {
    let fmt = Formatter::new(vec![1, 2, 3, 4, 5, 6, 7, 8, 9], &options(DisplayMode::OneByteOctal));
    assert_eq!(
        vec![
            String::from("0000000  001 002 003 004 005 006 007 010 011"),
            String::from("0000009"),
        ],
        all_lines(fmt)
    );
}

#[test]
fn seventeen_bytes_octal_rows() {
    let buf: Vec<u8> = (1..=17).collect();
    let fmt = Formatter::new(buf, &options(DisplayMode::OneByteOctal));
    assert_eq!(
        vec![
            String::from(
                "0000000  001 002 003 004 005 006 007 010 011 012 013 014 015 016 017 020"
            ),
            String::from("0000010  021"),
            String::from("0000011"),
        ],
        all_lines(fmt)
    );
}

#[test]
fn ten_bytes_canonical_single_row() {
    let fmt = Formatter::new(b"BCDEFGHIJK".to_vec(), &options(DisplayMode::Canonical));
    let lines = all_lines(fmt);
    assert_eq!(2, lines.len());
    assert_eq!(
        format!("{:<57}   {}", "0000000  42 43 44 45 46 47 48 49  4a 4b", "|BCDEFGHIJK|"),
        lines[0]
    );
    assert_eq!("   |BCDEFGHIJK|", &lines[0][57..]);
    assert_eq!("000000a", lines[1]);
}

#[test]
fn row_count_and_closing_line() {
    for len in [0usize, 1, 15, 16, 17, 32, 33, 100] {
        let buf: Vec<u8> = (0..len).map(|i| i as u8).collect();
        let lines = all_lines(Formatter::new(buf, &CommandLineOptions::new()));
        assert_eq!((len + 15) / 16 + 1, lines.len());
        assert_eq!(format!("{:07x}", len), lines[lines.len() - 1]);
    }
}

#[test]
fn offsets_grow_by_a_row() {
    let buf: Vec<u8> = (0..40).collect();
    let lines = all_lines(Formatter::new(buf, &options(DisplayMode::OneByteOctal)));
    let values: Vec<usize> = lines
        .iter()
        .map(|l| usize::from_str_radix(l.split(' ').next().unwrap(), 16).unwrap())
        .collect();
    assert_eq!(vec![0, 16, 32, 40], values);
}

#[test]
fn style_flags_exclusive() {
    let modes = [
        DisplayMode::OneByteOctal,
        DisplayMode::OneByteChar,
        DisplayMode::Canonical,
        DisplayMode::TwoBytesHex,
        DisplayMode::TwoBytesDecimal,
        DisplayMode::TwoBytesOctal,
    ];
    for mode in modes {
        let o = options(mode);
        assert_eq!(mode, o.mode());
        let f = Formatter::new(vec![1], &o);
        let set = [f.oct_output, f.char_output, f.hex_output, f.dec_output, f.cannonical];
        assert_eq!(1, set.iter().filter(|b| **b).count());
        assert_eq!(
            f.one_byte_output,
            mode == DisplayMode::OneByteOctal || mode == DisplayMode::OneByteChar
        );
    }
    let f = Formatter::new(vec![1], &CommandLineOptions::new());
    assert!(f.hex_output && f.two_byte_output && !f.one_byte_output);
}

#[test]
fn canonical_panel_column_on_every_row() {
    let buf: Vec<u8> = (0..40).collect();
    let lines = all_lines(Formatter::new(buf, &options(DisplayMode::Canonical)));
    assert_eq!(4, lines.len());
    for line in &lines[..3] {
        assert_eq!("   |", &line[57..61]);
        assert!(!line[..57].contains('|'));
    }
    assert_eq!(
        format!(
            "{:<57}   {}",
            "0000010  10 11 12 13 14 15 16 17  18 19 1a 1b 1c 1d 1e 1f", "|................|"
        ),
        lines[1]
    );
}

#[test]
fn octal_and_hex_round_trip() {
    let buf: Vec<u8> = (0..=255).rev().collect();
    for (mode, radix) in [(DisplayMode::OneByteOctal, 8), (DisplayMode::TwoBytesHex, 16)] {
        let lines = all_lines(Formatter::new(buf.clone(), &options(mode)));
        let mut back: Vec<u8> = Vec::new();
        for line in &lines {
            for tok in line.split(' ').skip(1).filter(|t| !t.is_empty()) {
                back.push(u8::from_str_radix(tok, radix).unwrap());
            }
        }
        assert_eq!(buf, back);
    }
}

#[test]
fn decimal_and_two_byte_octal_rows() {
    let fmt = Formatter::new(vec![0, 7, 255], &options(DisplayMode::TwoBytesDecimal));
    assert_eq!(vec![String::from("0000000  000 007 255"), String::from("0000003")], all_lines(fmt));
    let fmt = Formatter::new(vec![0, 7, 255], &options(DisplayMode::TwoBytesOctal));
    assert_eq!(vec![String::from("0000000  000 007 377"), String::from("0000003")], all_lines(fmt));
    let fmt = Formatter::new(vec![0, 7, 255], &CommandLineOptions::new());
    assert_eq!(vec![String::from("0000000  00 07 ff"), String::from("0000003")], all_lines(fmt));
}

#[test]
fn offset_skips_bytes_and_takes_absolute_value() {
    let mut o = options(DisplayMode::TwoBytesHex);
    o.offset = -3;
    let fmt = Formatter::new(vec![10, 11, 12, 13, 14], &o);
    assert_eq!(3, fmt.offset);
    assert_eq!(vec![String::from("0000003  0d 0e"), String::from("0000005")], all_lines(fmt));
    o.offset = 9;
    let fmt = Formatter::new(vec![10, 11, 12], &o);
    assert_eq!(vec![String::from("0000009")], all_lines(fmt));
}

#[test]
fn exhausted_formatter_stays_exhausted() {
    let mut fmt = Formatter::new(vec![1, 2], &CommandLineOptions::new());
    assert_eq!(Some(String::from("0000000  01 02")), fmt.next_line());
    assert_eq!(Some(String::from("0000002")), fmt.next_line());
    assert_eq!(None, fmt.next_line());
    assert_eq!(None, fmt.next_line());
    assert_eq!(None, fmt.next_row());
}

#[test]
fn canonical_gap_on_every_row() {
    let buf: Vec<u8> = vec![0x41; 25];
    let lines = all_lines(Formatter::new(buf, &options(DisplayMode::Canonical)));
    assert!(lines[1].starts_with("0000010  41 41 41 41 41 41 41 41  41"));
}

#[test]
fn char_rows_escape_control_bytes() {
    let fmt = Formatter::new(vec![b'a', b'\n', b'\t', 0, 0x7f, 0x85, 0xe9], &options(DisplayMode::OneByteChar));
    let lines = all_lines(fmt);
    assert_eq!(
        "0000000    a  \\n  \\t\\u{0}\\u{7f}\\u{fffd}   \u{fffd}",
        lines[0]
    );
}

#[test]
fn char_string_rep_forms() {
    assert_eq!("A", get_char_string_rep(&[65], true));
    assert_eq!("\\n", get_char_string_rep(&[10], true));
    assert_eq!("\\r", get_char_string_rep(&[13], true));
    assert_eq!("\\u{1b}", get_char_string_rep(&[0x1b], true));
    assert_eq!(".", get_char_string_rep(&[10], false));
    assert_eq!(".", get_char_string_rep(&[0x90], false));
    assert_eq!("\u{fffd}", get_char_string_rep(&[0xc0], false));
    assert_eq!(" ", get_char_string_rep(&[32], false));
}

#[test]
fn wide_offsets_get_more_digits() {
    let mut o = CommandLineOptions::new();
    o.offset = 0x1234_5678;
    let mut fmt = Formatter::new(vec![0; 4], &o);
    assert_eq!(Some(String::from("12345678")), fmt.next_line());
    assert_eq!(None, fmt.next_line());
}
