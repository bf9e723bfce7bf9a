use vstd::prelude::*;
use vstd::string::{StrSliceExecFns, StringExecFns};
use crate::digits::{digits_of, push_digits};
use crate::text::{pad_right, push_char, push_spaces, trim_end, trimmed_end};

verus! {

/// How the lines of the inputs are written out.
pub struct OutputFormatter {
    pub has_line_numbers: bool,
    pub only_non_blank: bool,
    pub squeze_blank: bool,
    pub ignore_errors: bool,
    pub inputs: Vec<String>,
}

impl OutputFormatter {
    /// Lines written as they are, errors not ignored, no inputs.
    pub fn new() -> (r: OutputFormatter)
        ensures
            !r.has_line_numbers,
            !r.only_non_blank,
            !r.squeze_blank,
            !r.ignore_errors,
            r.inputs@.len() == 0,
    {
        OutputFormatter {
            has_line_numbers: false,
            only_non_blank: false,
            squeze_blank: false,
            ignore_errors: false,
            inputs: Vec::new(),
        }
    }
}

/// What precedes a line: five blank columns and a colon for an empty line
/// when only non-blank lines are numbered, else the line number
/// left-justified in five columns and `": "` when lines are numbered.
pub open spec fn line_prefix(
    is_empty: bool,
    line_number: u32,
    only_non_blank: bool,
    has_line_numbers: bool,
) -> Seq<char> {
    if is_empty && only_non_blank {
        Seq::new(5, |i: int| ' ').push(':')
    } else if has_line_numbers {
        pad_right(digits_of(line_number as nat, 10), 5) + seq![':', ' ']
    } else {
        Seq::empty()
    }
}

/// A line as it is written out: its prefix, then the line, without white
/// space at the end.
pub open spec fn formatted_line(line: Seq<char>, line_number: u32, of: &OutputFormatter) -> Seq<
    char,
> {
    trimmed_end(
        line_prefix(line.len() == 0, line_number, of.only_non_blank, of.has_line_numbers) + line,
    )
}

/// The line as it is written out, numbered as `output_formatter` asks.
pub fn format_output_line(line: &String, line_number: u32, output_formatter: &OutputFormatter) -> (r:
    String)
    ensures
        r@ == formatted_line(line@, line_number, output_formatter),
{
    let is_blank = line.as_str().unicode_len() == 0;
    let mut formatted = String::new();
    if is_blank && output_formatter.only_non_blank {
        push_spaces(&mut formatted, 5);
        push_char(&mut formatted, ':');
        assert(formatted@ =~= Seq::new(5, |i: int| ' ').push(':'));
    } else if output_formatter.has_line_numbers {
        push_digits(&mut formatted, line_number as usize, 10);
        let n = formatted.as_str().unicode_len();
        if n < 5 {
            push_spaces(&mut formatted, 5 - n);
        }
        push_char(&mut formatted, ':');
        push_char(&mut formatted, ' ');
        assert(formatted@ =~= pad_right(digits_of(line_number as nat, 10), 5) + seq![':', ' ']);
    }
    formatted.append(line.as_str());
    trim_end(formatted.as_str()).to_owned()
}

/// Whether a line holds nothing but white space.
pub open spec fn is_blank_line(line: Seq<char>) -> bool {
    trimmed_end(line).len() == 0
}

/// The numbering state that runs over the lines of all inputs.
pub struct LineCounter {
    /// The number of the last counted line.
    pub next_line_number: u32,
    /// Whether the last line written of the current input was blank.
    pub prev_blank: bool,
}

impl LineCounter {
    /// No line counted yet.
    pub fn new() -> (r: LineCounter)
        ensures
            r.next_line_number == 0,
            !r.prev_blank,
    {
        LineCounter { next_line_number: 0, prev_blank: false }
    }

    /// A new input begins: blank lines are squeezed within an input only.
    pub fn start_input(&mut self)
        ensures
            final(self).next_line_number == old(self).next_line_number,
            !final(self).prev_blank,
    {
        self.prev_blank = false;
    }

    /// Takes the next line of the current input. A line is counted unless
    /// it is blank and only non-blank lines are numbered. A blank line that
    /// follows a blank line is dropped when blank lines are squeezed;
    /// otherwise the line is returned as it is written out.
    pub fn take_line(&mut self, line: &String, output_formatter: &OutputFormatter) -> (r: Option<
        String,
    >)
        requires
            old(self).next_line_number < u32::MAX,
        ensures
            final(self).next_line_number == old(self).next_line_number + if !is_blank_line(line@)
                || !output_formatter.only_non_blank {
                1int
            } else {
                0int
            },
            output_formatter.squeze_blank && old(self).prev_blank && is_blank_line(line@) ==> {
                &&& r is None
                &&& final(self).prev_blank == old(self).prev_blank
            },
            !(output_formatter.squeze_blank && old(self).prev_blank && is_blank_line(line@)) ==> {
                &&& r is Some
                &&& r->Some_0@ == formatted_line(line@, final(self).next_line_number, output_formatter)
                &&& final(self).prev_blank == is_blank_line(line@)
            },
    {
        let is_blank = trim_end(line.as_str()).unicode_len() == 0;
        if !is_blank || !output_formatter.only_non_blank {
            self.next_line_number = self.next_line_number + 1;
        }
        if output_formatter.squeze_blank && self.prev_blank && is_blank {
            return None;
        }
        self.prev_blank = is_blank;
        Some(format_output_line(line, self.next_line_number, output_formatter))
    }
}

} // verus!
