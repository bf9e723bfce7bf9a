use vstd::prelude::*;
use vstd::string::{StrSliceExecFns, StringExecFns};
use crate::digits::{digits_of, push_digits};
use crate::text::push_char;
use crate::toolslib::ErrCode;

verus! {

#[verifier::external_type_specification]
#[verifier::external_body]
pub struct ExRegex(regex::Regex);

#[verifier::external_type_specification]
#[verifier::external_body]
pub struct ExRegexError(regex::Error);

/// Whether `regex::Regex::new` accepts `pattern`.
pub uninterp spec fn regex_compiles(pattern: Seq<char>) -> bool;

/// Whether the regular expression `pattern` matches somewhere in `text`.
pub uninterp spec fn regex_matches(pattern: Seq<char>, text: Seq<char>) -> bool;

/// A compiled search pattern, together with its source.
pub struct Matcher {
    pattern: String,
    re: regex::Regex,
}

/// Relies on `regex::Regex::new`: compiles `pattern`, or fails; the
/// `Matcher` keeps the source next to what was compiled from it.
#[verifier::external_body]
fn compile(pattern: &str) -> (r: Result<Matcher, regex::Error>)
    ensures
        r is Ok <==> regex_compiles(pattern@),
        r is Ok ==> r->Ok_0.pattern() == pattern@,
{
    match regex::Regex::new(pattern) {
        Ok(re) => Ok(Matcher { pattern: pattern.to_string(), re }),
        Err(e) => Err(e),
    }
}

/// Relies on `regex::Regex::is_match`, on the expression compiled from
/// `m.pattern()`: whether it matches anywhere in `text`.
#[verifier::external_body]
fn is_match(m: &Matcher, text: &str) -> (r: bool)
    ensures
        r == regex_matches(m.pattern(), text@),
{
    m.re.is_match(text)
}

impl Matcher {
    /// The source of the pattern.
    pub closed spec fn pattern(&self) -> Seq<char> {
        self.pattern@
    }

    /// Compiles `pattern`; an invalid expression is an error.
    pub fn new(pattern: &str) -> (r: Result<Matcher, ErrCode>)
        ensures
            r is Ok <==> regex_compiles(pattern@),
            r is Ok ==> r->Ok_0.pattern() == pattern@,
            r is Err ==> r->Err_0 == ErrCode::InvalidRegularExpression,
    {
        match compile(pattern) {
            Ok(m) => Ok(m),
            Err(_) => Err(ErrCode::InvalidRegularExpression),
        }
    }

    /// Whether the pattern matches somewhere in `text`.
    pub fn matches(&self, text: &str) -> (r: bool)
        ensures
            r == regex_matches(self.pattern(), text@),
    {
        is_match(self, text)
    }
}

/// The search options.
pub struct OutputFormatter {
    pub ignore_match: bool,
    pub has_line_numbers: bool,
    pub with_file_name: bool,
    pub only_file_names: bool,
    pub only_line_count: bool,
    pub pattern: String,
    pub inputs: Vec<String>,
}

impl OutputFormatter {
    /// Options that search for `pattern`, every flag off, no inputs.
    pub fn new(pattern: &str) -> (r: OutputFormatter)
        ensures
            !r.ignore_match,
            !r.has_line_numbers,
            !r.with_file_name,
            !r.only_file_names,
            !r.only_line_count,
            r.pattern@ == pattern@,
            r.inputs@.len() == 0,
    {
        OutputFormatter {
            ignore_match: false,
            has_line_numbers: false,
            with_file_name: false,
            only_file_names: false,
            only_line_count: false,
            pattern: pattern.to_owned(),
            inputs: Vec::new(),
        }
    }
}

/// The texts of some strings.
pub open spec fn texts(lines: Seq<String>) -> Seq<Seq<char>> {
    lines.map_values(|s: String| s@)
}

/// Whether `pattern` matches some line.
pub open spec fn any_match(pattern: Seq<char>, lines: Seq<Seq<char>>) -> bool {
    exists|i: int| 0 <= i < lines.len() && regex_matches(pattern, #[trigger] lines[i])
}

/// For each line, whether `pattern` matches it.
pub open spec fn match_flags(pattern: Seq<char>, lines: Seq<Seq<char>>) -> Seq<bool> {
    lines.map_values(|l: Seq<char>| regex_matches(pattern, l))
}

/// The lines whose flag in `matched` differs from `ignore_match`, each with
/// its number counted from 1.
pub open spec fn selected_lines(lines: Seq<Seq<char>>, matched: Seq<bool>, ignore_match: bool) -> Seq<
    (int, Seq<char>),
>
    decreases lines.len(),
{
    if lines.len() == 0 {
        Seq::empty()
    } else {
        let prev = selected_lines(lines.drop_last(), matched, ignore_match);
        if matched[lines.len() - 1] != ignore_match {
            prev.push((lines.len() as int, lines.last()))
        } else {
            prev
        }
    }
}

/// The numbered lines of a result.
pub open spec fn numbered_texts(r: Seq<(usize, String)>) -> Seq<(int, Seq<char>)> {
    r.map_values(|p: (usize, String)| (p.0 as int, p.1@))
}

/// Whether the lines of an input match: some line matches the pattern, or,
/// with `ignore_match`, none does.
pub fn find_match(lines: &Vec<String>, re: &Matcher, ignore_match: bool) -> (r: bool)
    ensures
        r == (any_match(re.pattern(), texts(lines@)) != ignore_match),
{
    let mut i: usize = 0;
    while i < lines.len()
        invariant
            i <= lines.len(),
            forall|j: int| 0 <= j < i ==> !regex_matches(re.pattern(), #[trigger] texts(lines@)[j]),
        decreases lines.len() - i,
    {
        if re.matches(lines[i].as_str()) {
            assert(regex_matches(re.pattern(), texts(lines@)[i as int]));
            return !ignore_match;
        }
        i = i + 1;
    }
    ignore_match
}

/// The lines whose entry in `matched` differs from `ignore_match`, with
/// their numbers counted from 1.
pub fn select_lines(lines: &Vec<String>, matched: &Vec<bool>, ignore_match: bool) -> (r: Vec<
    (usize, String),
>)
    requires
        matched@.len() == lines@.len(),
    ensures
        numbered_texts(r@) == selected_lines(texts(lines@), matched@, ignore_match),
{
    let mut r: Vec<(usize, String)> = Vec::new();
    let mut i: usize = 0;
    while i < lines.len()
        invariant
            i <= lines.len(),
            matched@.len() == lines@.len(),
            numbered_texts(r@) == selected_lines(texts(lines@).take(i as int), matched@, ignore_match),
        decreases lines.len() - i,
    {
        proof {
            assert(texts(lines@).take(i + 1).drop_last() =~= texts(lines@).take(i as int));
        }
        if matched[i] != ignore_match {
            r.push((i + 1, lines[i].clone()));
        }
        i = i + 1;
        proof {
            assert(numbered_texts(r@) =~= selected_lines(
                texts(lines@).take(i as int),
                matched@,
                ignore_match,
            ));
        }
    }
    assert(texts(lines@).take(i as int) =~= texts(lines@));
    r
}

/// The lines that the pattern matches, or with `ignore_match` those it does
/// not match, with their numbers counted from 1.
pub fn match_lines(lines: &Vec<String>, re: &Matcher, ignore_match: bool) -> (r: Vec<
    (usize, String),
>)
    ensures
        numbered_texts(r@) == selected_lines(
            texts(lines@),
            match_flags(re.pattern(), texts(lines@)),
            ignore_match,
        ),
{
    let mut matched: Vec<bool> = Vec::new();
    let mut i: usize = 0;
    while i < lines.len()
        invariant
            i <= lines.len(),
            matched@ == match_flags(re.pattern(), texts(lines@)).take(i as int),
        decreases lines.len() - i,
    {
        let m = re.matches(lines[i].as_str());
        matched.push(m);
        i = i + 1;
        proof {
            assert(matched@ =~= match_flags(re.pattern(), texts(lines@)).take(i as int));
        }
    }
    assert(matched@ =~= match_flags(re.pattern(), texts(lines@)));
    select_lines(lines, &matched, ignore_match)
}

/// How an input is named in the output: `-` is the standard input.
pub open spec fn display_name(input: Seq<char>) -> Seq<char> {
    if input == "-"@ {
        "standard input"@
    } else {
        input
    }
}

/// The name under which `input` is shown.
pub fn input_display_name(input: &String) -> (r: String)
    ensures
        r@ == display_name(input@),
{
    proof {
        reveal_strlit("-");
    }
    let s = input.as_str();
    if s.unicode_len() == 1 && s.get_char(0) == '-' {
        assert(input@ =~= "-"@);
        String::from_str("standard input")
    } else {
        input.clone()
    }
}

/// The shown names of the inputs whose entry in `found` is set, in order.
pub open spec fn matched_names(inputs: Seq<Seq<char>>, found: Seq<bool>) -> Seq<Seq<char>>
    decreases inputs.len(),
{
    if inputs.len() == 0 {
        Seq::empty()
    } else {
        let prev = matched_names(inputs.drop_last(), found);
        if found[inputs.len() - 1] {
            prev.push(display_name(inputs.last()))
        } else {
            prev
        }
    }
}

/// The shown names of the inputs whose entry in `found` is set.
pub fn matched_file_names(inputs: &Vec<String>, found: &Vec<bool>) -> (r: Vec<String>)
    requires
        found@.len() == inputs@.len(),
    ensures
        texts(r@) == matched_names(texts(inputs@), found@),
{
    let mut r: Vec<String> = Vec::new();
    let mut i: usize = 0;
    while i < inputs.len()
        invariant
            i <= inputs.len(),
            found@.len() == inputs@.len(),
            texts(r@) == matched_names(texts(inputs@).take(i as int), found@),
        decreases inputs.len() - i,
    {
        proof {
            assert(texts(inputs@).take(i + 1).drop_last() =~= texts(inputs@).take(i as int));
        }
        if found[i] {
            let name = input_display_name(&inputs[i]);
            r.push(name);
        }
        i = i + 1;
        proof {
            assert(texts(r@) =~= matched_names(texts(inputs@).take(i as int), found@));
        }
    }
    assert(texts(inputs@).take(i as int) =~= texts(inputs@));
    r
}

/// For each input, whether its lines match as `find_match` decides.
pub open spec fn files_found(pattern: Seq<char>, contents: Seq<Vec<String>>, ignore_match: bool) -> Seq<
    bool,
> {
    contents.map_values(|c: Vec<String>| any_match(pattern, texts(c@)) != ignore_match)
}

/// The shown names of the inputs whose lines (`contents[i]` for
/// `inputs[i]`) match the pattern, or with `ignore_match` do not match it.
pub fn find_matching_files(
    inputs: &Vec<String>,
    contents: &Vec<Vec<String>>,
    re: &Matcher,
    ignore_match: bool,
) -> (r: Vec<String>)
    requires
        contents@.len() == inputs@.len(),
    ensures
        texts(r@) == matched_names(texts(inputs@), files_found(re.pattern(), contents@, ignore_match)),
{
    let mut found: Vec<bool> = Vec::new();
    let mut i: usize = 0;
    while i < contents.len()
        invariant
            i <= contents.len(),
            found@ == files_found(re.pattern(), contents@, ignore_match).take(i as int),
        decreases contents.len() - i,
    {
        let f = find_match(&contents[i], re, ignore_match);
        found.push(f);
        i = i + 1;
        proof {
            assert(found@ =~= files_found(re.pattern(), contents@, ignore_match).take(i as int));
        }
    }
    assert(found@ =~= files_found(re.pattern(), contents@, ignore_match));
    matched_file_names(inputs, &found)
}

/// A selected line as it is written out: the input's name and a space when
/// names are shown, the line number, a colon and a space when numbers are
/// shown, then the line.
pub open spec fn match_line_text(
    with_file_name: bool,
    has_line_numbers: bool,
    name: Seq<char>,
    line_number: nat,
    line: Seq<char>,
) -> Seq<char> {
    (if with_file_name {
        name.push(' ')
    } else {
        Seq::empty()
    }) + (if has_line_numbers {
        digits_of(line_number, 10) + seq![':', ' ']
    } else {
        Seq::empty()
    }) + line
}

/// A selected line of the input shown as `name`, as it is written out.
pub fn format_match_line(
    output_formatter: &OutputFormatter,
    name: &String,
    line_number: usize,
    line: &String,
) -> (r: String)
    ensures
        r@ == match_line_text(
            output_formatter.with_file_name,
            output_formatter.has_line_numbers,
            name@,
            line_number as nat,
            line@,
        ),
{
    let mut out = String::new();
    if output_formatter.with_file_name {
        out.append(name.as_str());
        push_char(&mut out, ' ');
    }
    if output_formatter.has_line_numbers {
        push_digits(&mut out, line_number, 10);
        push_char(&mut out, ':');
        push_char(&mut out, ' ');
    }
    out.append(line.as_str());
    assert(out@ =~= match_line_text(
        output_formatter.with_file_name,
        output_formatter.has_line_numbers,
        name@,
        line_number as nat,
        line@,
    ));
    out
}

} // verus!
