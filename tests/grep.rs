use std::io::{self, BufRead};
use unixtools::grep::{
    find_match, find_matching_files, format_match_line, input_display_name, match_lines,
    matched_file_names, select_lines, Matcher, OutputFormatter,
};
use unixtools::toolslib::ErrCode;

fn lines_of(bytes: &[u8]) -> Vec<String> {
    io::Cursor::new(bytes).lines().map(|l| l.unwrap()).collect()
}

#[test]
fn ts_output_formatter_new() {
    let pattern = "the pattern";
    let of = OutputFormatter::new(pattern);
    assert_eq!(false, of.ignore_match);
    assert_eq!(false, of.has_line_numbers);
    assert_eq!(false, of.with_file_name);
    assert_eq!(false, of.only_file_names);
    assert_eq!(false, of.only_line_count);
    assert_eq!(pattern, of.pattern);
    assert_eq!(0usize, of.inputs.len());
}

#[test]
fn ts_find_match_regex_with_match() {
    let re = Matcher::new("lorem").unwrap();
    let ignore_match = true;
    let dont_ignore_match = false;

    // the expression matches, matches are not ignored
    let reader = lines_of(b"lorem\nipsum\r\ndolor");
    assert_eq!(true, find_match(&reader, &re, dont_ignore_match));

    // the expression matches, but matches are ignored
    let reader = lines_of(b"lorem\nipsum\r\ndolor");
    assert_eq!(false, find_match(&reader, &re, ignore_match));
}

#[test]
fn ts_find_match_regex_without_match() {
    let re = Matcher::new("general").unwrap();
    let ignore_match = true;
    let dont_ignore_match = false;

    // the expression does not match
    let reader = lines_of(b"lorem\nipsum\r\ndolor");
    assert_eq!(false, find_match(&reader, &re, dont_ignore_match));

    // the expression does not match, and matches are ignored
    let reader = lines_of(b"lorem\nipsum\r\ndolor");
    assert_eq!(true, find_match(&reader, &re, ignore_match));
}

#[test]
fn ts_match_lines_with_match() {
    let re = Matcher::new("ipsum").unwrap();
    let ignore_match = true;
    let dont_ignore_match = false;

    // the expression matches, matches are not ignored
    let reader = lines_of(b"lorem\nipsum is second line\r\ndolor");
    let m = match_lines(&reader, &re, dont_ignore_match);

    assert_eq!(1usize, m.len());
    assert_eq!(2, m[0].0);
    assert_eq!("ipsum is second line", m[0].1);

    // the expression matches, but matches are ignored
    let reader = lines_of(b"lorem\nipsum is sencond line\r\ndolor");
    let m = match_lines(&reader, &re, ignore_match);

    assert_eq!(2usize, m.len());
    assert_eq!(1, m[0].0);
    assert_eq!("lorem", m[0].1);
    assert_eq!(3, m[1].0);
    assert_eq!("dolor", m[1].1);
}

#[test]
fn ts_match_lines_without_match() {
    let re = Matcher::new("garbage").unwrap();
    let ignore_match = true;
    let dont_ignore_match = false;

    // the expression does not match
    let reader = lines_of(b"lorem\nipsum is second line\r\ndolor");
    let m = match_lines(&reader, &re, dont_ignore_match);

    assert_eq!(0usize, m.len());

    // the expression does not match, and matches are ignored
    let reader = lines_of(b"lorem\nipsum is second line\r\ndolor");
    let m = match_lines(&reader, &re, ignore_match);

    assert_eq!(3usize, m.len());
}

#[test]
fn invalid_pattern_is_an_error() {
    assert_eq!(Some(ErrCode::InvalidRegularExpression), Matcher::new("a(").err());
    assert_eq!(5, ErrCode::InvalidRegularExpression.code());
}

#[test]
fn matcher_uses_regular_expressions() {
    let re = Matcher::new("^l.r+em$").unwrap();
    assert!(re.matches("lorrem"));
    assert!(!re.matches("xlorem"));
}

#[test]
fn select_lines_by_flags() {
    let lines = vec![String::from("a"), String::from("b"), String::from("c")];
    let flags = vec![true, false, true];
    assert_eq!(
        vec![(1usize, String::from("a")), (3usize, String::from("c"))],
        select_lines(&lines, &flags, false)
    );
    assert_eq!(vec![(2usize, String::from("b"))], select_lines(&lines, &flags, true));
}

#[test]
fn names_of_matching_inputs() {
    let inputs = vec![String::from("-"), String::from("f1"), String::from("f2")];
    let contents = vec![
        vec![String::from("lorem")],
        vec![String::from("ipsum")],
        vec![String::from("dolor"), String::from("lorem ipsum")],
    ];
    let re = Matcher::new("lorem").unwrap();
    assert_eq!(
        vec![String::from("standard input"), String::from("f2")],
        find_matching_files(&inputs, &contents, &re, false)
    );
    assert_eq!(vec![String::from("f1")], find_matching_files(&inputs, &contents, &re, true));
    assert_eq!(
        vec![String::from("f1")],
        matched_file_names(&inputs, &vec![false, true, false])
    );
    assert_eq!("standard input", input_display_name(&String::from("-")));
    assert_eq!("--", input_display_name(&String::from("--")));
}

#[test]
fn match_line_formats() {
    let mut of = OutputFormatter::new("x");
    let name = String::from("f1");
    let line = String::from("text");
    assert_eq!("text", format_match_line(&of, &name, 12, &line));
    of.has_line_numbers = true;
    assert_eq!("12: text", format_match_line(&of, &name, 12, &line));
    of.with_file_name = true;
    assert_eq!("f1 12: text", format_match_line(&of, &name, 12, &line));
}
