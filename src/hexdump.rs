use vstd::prelude::*;
use vstd::string::{StrSliceExecFns, StringExecFns};
use crate::digits::{digits_of, padded_digits, push_digits, push_padded};
use crate::text::{pad_right, push_char, push_spaces, right_justify};

verus! {

/// Number of buffer bytes shown on each row.
pub const BYTES_PER_ROW: usize = 16;

/// Width to which the offset and the bytes of a canonical row are padded
/// before the character panel.
pub const CANONICAL_WIDTH: usize = 57;

/// How the bytes of a row are written.
#[derive(Clone, Copy, Debug, PartialEq, Eq, Structural)]
pub enum DisplayMode {
    /// Each byte as three octal digits.
    OneByteOctal,
    /// Each byte as a character, right-justified in four columns.
    OneByteChar,
    /// Each byte as two hexadecimal digits, followed by a character panel.
    Canonical,
    /// Each byte as two hexadecimal digits.
    TwoBytesHex,
    /// Each byte as three decimal digits.
    TwoBytesDecimal,
    /// Each byte as three octal digits.
    TwoBytesOctal,
}

/// The absolute value of a signed offset.
pub open spec fn abs_offset(o: i32) -> nat {
    if o < 0 {
        (-o) as nat
    } else {
        o as nat
    }
}

/// The offset label of a row: at least seven lower-case hexadecimal digits.
pub open spec fn offset_label(n: nat) -> Seq<char> {
    padded_digits(n, 16, 7)
}

/// Control bytes: those whose character has the general category `Cc`.
pub open spec fn is_control_byte(b: u8) -> bool {
    b < 0x20 || (0x7f <= b && b < 0xa0)
}

/// The character that a single byte decodes to, with the replacement
/// character for a byte that is not valid UTF-8 on its own.
pub open spec fn decoded_char(b: u8) -> char {
    if b < 0x80 {
        b as char
    } else {
        '\u{FFFD}'
    }
}

/// The code point of `decoded_char(b)`.
pub open spec fn decoded_code(b: u8) -> nat {
    if b < 0x80 {
        b as nat
    } else {
        0xFFFD
    }
}

/// The escaped form of a control character: `\t`, `\n`, `\r`, or a
/// hexadecimal Unicode escape `\u{..}`.
pub open spec fn escaped_control(b: u8) -> Seq<char> {
    if b == 9 {
        seq!['\\', 't']
    } else if b == 10 {
        seq!['\\', 'n']
    } else if b == 13 {
        seq!['\\', 'r']
    } else {
        seq!['\\', 'u', '{'] + digits_of(decoded_code(b), 16) + seq!['}']
    }
}

/// How one byte is shown as text: the character it decodes to, and for a
/// control byte its escape (`escape`) or a dot.
pub open spec fn char_rep(b: u8, escape: bool) -> Seq<char> {
    if is_control_byte(b) {
        if escape {
            escaped_control(b)
        } else {
            seq!['.']
        }
    } else {
        seq![decoded_char(b)]
    }
}

/// The text for byte `b` at index `k` within its row.
pub open spec fn byte_token(mode: DisplayMode, b: u8, k: nat) -> Seq<char> {
    match mode {
        DisplayMode::OneByteOctal => seq![' '] + padded_digits(b as nat, 8, 3),
        DisplayMode::TwoBytesOctal => seq![' '] + padded_digits(b as nat, 8, 3),
        DisplayMode::TwoBytesHex => seq![' '] + padded_digits(b as nat, 16, 2),
        DisplayMode::TwoBytesDecimal => seq![' '] + padded_digits(b as nat, 10, 3),
        DisplayMode::OneByteChar => right_justify(char_rep(b, true), 4),
        DisplayMode::Canonical => if k == 8 {
            seq![' ', ' '] + padded_digits(b as nat, 16, 2)
        } else {
            seq![' '] + padded_digits(b as nat, 16, 2)
        },
    }
}

/// The tokens of the bytes of one row, in order.
pub open spec fn row_body(mode: DisplayMode, bytes: Seq<u8>) -> Seq<char>
    decreases bytes.len(),
{
    if bytes.len() == 0 {
        Seq::empty()
    } else {
        row_body(mode, bytes.drop_last()) + byte_token(mode, bytes.last(), (bytes.len() - 1) as nat)
    }
}

/// The character panel of a canonical row: each byte as itself, control
/// bytes as dots.
pub open spec fn ascii_panel(bytes: Seq<u8>) -> Seq<char>
    decreases bytes.len(),
{
    if bytes.len() == 0 {
        Seq::empty()
    } else {
        ascii_panel(bytes.drop_last()) + char_rep(bytes.last(), false)
    }
}

/// Where the row that starts at `cursor` ends.
pub open spec fn row_end(len: nat, cursor: nat) -> nat {
    if cursor + BYTES_PER_ROW as nat <= len {
        cursor + BYTES_PER_ROW as nat
    } else {
        len
    }
}

/// The offset label and the bytes of the row at `cursor`.
pub open spec fn row_head(buf: Seq<u8>, mode: DisplayMode, cursor: nat) -> Seq<char> {
    offset_label(cursor) + seq![' '] + row_body(
        mode,
        buf.subrange(cursor as int, row_end(buf.len(), cursor) as int),
    )
}

/// The text of the row that starts at `cursor`.
pub open spec fn row_text(buf: Seq<u8>, mode: DisplayMode, cursor: nat) -> Seq<char> {
    let head = row_head(buf, mode, cursor);
    if mode == DisplayMode::Canonical {
        pad_right(head, CANONICAL_WIDTH as nat) + seq![' ', ' ', ' ', '|'] + ascii_panel(
            buf.subrange(cursor as int, row_end(buf.len(), cursor) as int),
        ) + seq!['|']
    } else {
        head
    }
}

/// The rows that show the bytes from `cursor` to the end of `buf`.
pub open spec fn data_rows(buf: Seq<u8>, mode: DisplayMode, cursor: nat) -> Seq<Seq<char>>
    decreases buf.len() - cursor,
{
    if cursor >= buf.len() {
        Seq::empty()
    } else {
        seq![row_text(buf, mode, cursor)] + data_rows(buf, mode, row_end(buf.len(), cursor))
    }
}

/// The position reached once every row from `start` on is produced.
pub open spec fn final_cursor(len: nat, start: nat) -> nat {
    if start < len {
        len
    } else {
        start
    }
}

/// All lines of a dump from `start`: the data rows, then a line that holds
/// only the offset reached.
pub open spec fn dump_lines(buf: Seq<u8>, mode: DisplayMode, start: nat) -> Seq<Seq<char>> {
    data_rows(buf, mode, start).push(offset_label(final_cursor(buf.len(), start)))
}

/// Appends `char_rep(b, escape)`.
fn push_char_rep(out: &mut String, b: u8, escape: bool)
    ensures
        final(out)@ == old(out)@ + char_rep(b, escape),
{
    let ghost start = out@;
    if b < 0x20 || (0x7f <= b && b < 0xa0) {
        if escape {
            push_char(out, '\\');
            if b == 9 {
                push_char(out, 't');
            } else if b == 10 {
                push_char(out, 'n');
            } else if b == 13 {
                push_char(out, 'r');
            } else {
                push_char(out, 'u');
                push_char(out, '{');
                let code: usize = if b < 0x80 {
                    b as usize
                } else {
                    0xFFFD
                };
                push_digits(out, code, 16);
                push_char(out, '}');
            }
        } else {
            push_char(out, '.');
        }
    } else {
        let c = if b < 0x80 {
            b as char
        } else {
            '\u{FFFD}'
        };
        push_char(out, c);
    }
    assert(out@ =~= start + char_rep(b, escape));
}

/// The text that shows one byte: the character it decodes to, and for a
/// control byte its escape when `scape_control_char` is set, else a dot.
pub fn get_char_string_rep(char_byte: &[u8], scape_control_char: bool) -> (r: String)
    requires
        char_byte@.len() == 1,
    ensures
        r@ == char_rep(char_byte@[0], scape_control_char),
{
    let mut r = String::new();
    push_char_rep(&mut r, char_byte[0], scape_control_char);
    r
}

/// Appends `byte_token(mode, b, k)`.
fn push_token(out: &mut String, mode: DisplayMode, b: u8, k: usize)
    ensures
        final(out)@ == old(out)@ + byte_token(mode, b, k as nat),
{
    let ghost start = out@;
    match mode {
        DisplayMode::OneByteOctal | DisplayMode::TwoBytesOctal => {
            push_char(out, ' ');
            push_padded(out, b as usize, 8, 3);
        },
        DisplayMode::TwoBytesHex => {
            push_char(out, ' ');
            push_padded(out, b as usize, 16, 2);
        },
        DisplayMode::TwoBytesDecimal => {
            push_char(out, ' ');
            push_padded(out, b as usize, 10, 3);
        },
        DisplayMode::OneByteChar => {
            let mut rep = String::new();
            push_char_rep(&mut rep, b, true);
            let n = rep.as_str().unicode_len();
            if n < 4 {
                push_spaces(out, 4 - n);
            }
            out.append(rep.as_str());
        },
        DisplayMode::Canonical => {
            if k == 8 {
                push_char(out, ' ');
            }
            push_char(out, ' ');
            push_padded(out, b as usize, 16, 2);
        },
    }
    assert(out@ =~= start + byte_token(mode, b, k as nat));
}

/// The text of the row of `buf` that starts at `cursor`.
fn render_row(buf: &Vec<u8>, mode: DisplayMode, cursor: usize) -> (r: String)
    requires
        cursor < buf.len(),
    ensures
        r@ == row_text(buf@, mode, cursor as nat),
{
    let len = buf.len();
    let end = if len - cursor >= BYTES_PER_ROW {
        cursor + BYTES_PER_ROW
    } else {
        len
    };
    let mut out = String::new();
    push_padded(&mut out, cursor, 16, 7);
    push_char(&mut out, ' ');
    let ghost head_start = out@;
    let mut panel = String::new();
    let mut i: usize = cursor;
    while i < end
        invariant
            cursor <= i <= end,
            end as nat == row_end(len as nat, cursor as nat),
            end <= len,
            len == buf.len(),
            out@ == head_start + row_body(mode, buf@.subrange(cursor as int, i as int)),
            mode == DisplayMode::Canonical ==> panel@ == ascii_panel(
                buf@.subrange(cursor as int, i as int),
            ),
        decreases end - i,
    {
        let ghost prev = buf@.subrange(cursor as int, i as int);
        push_token(&mut out, mode, buf[i], i - cursor);
        if mode == DisplayMode::Canonical {
            push_char_rep(&mut panel, buf[i], false);
        }
        i = i + 1;
        proof {
            let cur = buf@.subrange(cursor as int, i as int);
            assert(cur.drop_last() =~= prev);
            assert(cur.last() == buf@[i - 1]);
            assert(out@ =~= head_start + row_body(mode, cur));
        }
    }
    assert(out@ =~= row_head(buf@, mode, cursor as nat));
    if mode == DisplayMode::Canonical {
        let n = out.as_str().unicode_len();
        if n < CANONICAL_WIDTH {
            push_spaces(&mut out, CANONICAL_WIDTH - n);
        }
        push_char(&mut out, ' ');
        push_char(&mut out, ' ');
        push_char(&mut out, ' ');
        push_char(&mut out, '|');
        out.append(panel.as_str());
        push_char(&mut out, '|');
        assert(out@ =~= row_text(buf@, mode, cursor as nat));
    }
    out
}

/// The resolved options of a dump.
#[derive(Debug)]
pub struct CommandLineOptions {
    pub one_byte_octal: bool,
    pub one_byte_char: bool,
    pub cannonical: bool,
    pub two_bytes_hex: bool,
    pub two_bytes_decimal: bool,
    pub two_bytes_octal: bool,
    pub length_bytes: i32,
    pub offset: i32,
    pub input_file: String,
}

impl CommandLineOptions {
    /// The display mode that the flags select. A flag other than the
    /// default `two_bytes_hex` wins over it; among them the first of
    /// canonical, one-byte octal, one-byte char, decimal and two-byte octal.
    pub open spec fn spec_mode(&self) -> DisplayMode {
        if self.cannonical {
            DisplayMode::Canonical
        } else if self.one_byte_octal {
            DisplayMode::OneByteOctal
        } else if self.one_byte_char {
            DisplayMode::OneByteChar
        } else if self.two_bytes_decimal {
            DisplayMode::TwoBytesDecimal
        } else if self.two_bytes_octal {
            DisplayMode::TwoBytesOctal
        } else {
            DisplayMode::TwoBytesHex
        }
    }

    /// Default options: two-byte hexadecimal from offset 0, no file.
    pub fn new() -> (r: CommandLineOptions)
        ensures
            !r.one_byte_octal,
            !r.one_byte_char,
            !r.cannonical,
            r.two_bytes_hex,
            !r.two_bytes_decimal,
            !r.two_bytes_octal,
            r.length_bytes == 0,
            r.offset == 0,
            r.input_file@ == Seq::<char>::empty(),
    {
        CommandLineOptions {
            one_byte_octal: false,
            one_byte_char: false,
            cannonical: false,
            two_bytes_hex: true,
            two_bytes_decimal: false,
            two_bytes_octal: false,
            length_bytes: 0,
            offset: 0,
            input_file: String::new(),
        }
    }

    /// The display mode that the flags select.
    pub fn mode(&self) -> (m: DisplayMode)
        ensures
            m == self.spec_mode(),
    {
        if self.cannonical {
            DisplayMode::Canonical
        } else if self.one_byte_octal {
            DisplayMode::OneByteOctal
        } else if self.one_byte_char {
            DisplayMode::OneByteChar
        } else if self.two_bytes_decimal {
            DisplayMode::TwoBytesDecimal
        } else if self.two_bytes_octal {
            DisplayMode::TwoBytesOctal
        } else {
            DisplayMode::TwoBytesHex
        }
    }
}

/// Turns a byte buffer into rows of text, one row per call.
#[derive(Debug)]
pub struct Formatter {
    pub buf: Vec<u8>,
    pub cannonical: bool,
    pub one_byte_output: bool,
    pub two_byte_output: bool,
    pub hex_output: bool,
    pub char_output: bool,
    pub dec_output: bool,
    pub oct_output: bool,
    /// Position of the next byte to show.
    pub offset: usize,
    /// Whether the closing offset line has been produced.
    pub finished: bool,
}

/// 1 for `true`, 0 for `false`.
pub open spec fn one_if(b: bool) -> nat {
    if b {
        1
    } else {
        0
    }
}

impl Formatter {
    /// The display mode that the style flags stand for.
    pub open spec fn style(&self) -> DisplayMode {
        if self.cannonical {
            DisplayMode::Canonical
        } else if self.char_output {
            DisplayMode::OneByteChar
        } else if self.oct_output {
            if self.one_byte_output {
                DisplayMode::OneByteOctal
            } else {
                DisplayMode::TwoBytesOctal
            }
        } else if self.dec_output {
            DisplayMode::TwoBytesDecimal
        } else {
            DisplayMode::TwoBytesHex
        }
    }

    /// Exactly one style flag is set, and the width flags agree with it.
    pub open spec fn flags_agree(&self) -> bool {
        &&& one_if(self.oct_output) + one_if(self.char_output) + one_if(self.hex_output)
            + one_if(self.dec_output) + one_if(self.cannonical) == 1
        &&& self.one_byte_output == (self.style() == DisplayMode::OneByteOctal || self.style()
            == DisplayMode::OneByteChar)
        &&& self.two_byte_output == (self.style() == DisplayMode::TwoBytesHex || self.style()
            == DisplayMode::TwoBytesDecimal || self.style() == DisplayMode::TwoBytesOctal)
    }

    /// The lines that the following calls of `next_line` produce.
    pub open spec fn remaining(&self) -> Seq<Seq<char>> {
        if self.finished {
            Seq::empty()
        } else {
            dump_lines(self.buf@, self.style(), self.offset as nat)
        }
    }

    /// A formatter over `buf` in the mode that `cmd_options` selects,
    /// starting at the absolute value of its offset.
    pub fn new(buf: Vec<u8>, cmd_options: &CommandLineOptions) -> (r: Formatter)
        ensures
            r.buf@ == buf@,
            r.offset as nat == abs_offset(cmd_options.offset),
            !r.finished,
            r.style() == cmd_options.spec_mode(),
            r.flags_agree(),
            r.oct_output == (r.style() == DisplayMode::OneByteOctal || r.style()
                == DisplayMode::TwoBytesOctal),
            r.char_output == (r.style() == DisplayMode::OneByteChar),
            r.hex_output == (r.style() == DisplayMode::TwoBytesHex),
            r.dec_output == (r.style() == DisplayMode::TwoBytesDecimal),
            r.cannonical == (r.style() == DisplayMode::Canonical),
            r.remaining() == dump_lines(buf@, cmd_options.spec_mode(), abs_offset(cmd_options.offset)),
    {
        let o = cmd_options.offset;
        let offset: usize = if o < 0 {
            (-(o as i64)) as usize
        } else {
            o as usize
        };
        let mode = cmd_options.mode();
        let one_byte = mode == DisplayMode::OneByteOctal || mode == DisplayMode::OneByteChar;
        Formatter {
            buf: buf,
            cannonical: mode == DisplayMode::Canonical,
            one_byte_output: one_byte,
            two_byte_output: !one_byte && mode != DisplayMode::Canonical,
            hex_output: mode == DisplayMode::TwoBytesHex,
            char_output: mode == DisplayMode::OneByteChar,
            dec_output: mode == DisplayMode::TwoBytesDecimal,
            oct_output: mode == DisplayMode::OneByteOctal || mode == DisplayMode::TwoBytesOctal,
            offset: offset,
            finished: false,
        }
    }

    /// The display mode that the style flags stand for.
    fn current_mode(&self) -> (m: DisplayMode)
        ensures
            m == self.style(),
    {
        if self.cannonical {
            DisplayMode::Canonical
        } else if self.char_output {
            DisplayMode::OneByteChar
        } else if self.oct_output {
            if self.one_byte_output {
                DisplayMode::OneByteOctal
            } else {
                DisplayMode::TwoBytesOctal
            }
        } else if self.dec_output {
            DisplayMode::TwoBytesDecimal
        } else {
            DisplayMode::TwoBytesHex
        }
    }

    /// The buffer and the style flags of `self` and `other` are the same.
    pub open spec fn same_setup(&self, other: &Formatter) -> bool {
        &&& self.buf@ == other.buf@
        &&& self.cannonical == other.cannonical
        &&& self.one_byte_output == other.one_byte_output
        &&& self.two_byte_output == other.two_byte_output
        &&& self.hex_output == other.hex_output
        &&& self.char_output == other.char_output
        &&& self.dec_output == other.dec_output
        &&& self.oct_output == other.oct_output
    }

    /// The next data row, or `None` once every byte from the offset on has
    /// been shown.
    pub fn next_row(&mut self) -> (r: Option<String>)
        ensures
            final(self).same_setup(old(self)),
            final(self).finished == old(self).finished,
            old(self).offset < old(self).buf.len() ==> {
                &&& r is Some
                &&& r->Some_0@ == row_text(old(self).buf@, old(self).style(), old(self).offset as nat)
                &&& final(self).offset as nat == row_end(old(self).buf.len() as nat, old(self).offset as nat)
            },
            old(self).offset >= old(self).buf.len() ==> r is None && final(self).offset == old(self).offset,
    {
        if self.offset < self.buf.len() {
            let mode = self.current_mode();
            let row = render_row(&self.buf, mode, self.offset);
            let rest = self.buf.len() - self.offset;
            self.offset = if rest >= BYTES_PER_ROW {
                self.offset + BYTES_PER_ROW
            } else {
                self.buf.len()
            };
            Some(row)
        } else {
            None
        }
    }

    /// The next line of the dump: the data rows, then one line that holds
    /// only the offset reached, then `None` for good.
    pub fn next_line(&mut self) -> (r: Option<String>)
        ensures
            final(self).same_setup(old(self)),
            old(self).remaining().len() == 0 ==> r is None && final(self).remaining().len() == 0,
            old(self).remaining().len() > 0 ==> {
                &&& r is Some
                &&& r->Some_0@ == old(self).remaining()[0]
                &&& final(self).remaining() == old(self).remaining().drop_first()
            },
    {
        if self.finished {
            return None;
        }
        let ghost buf = self.buf@;
        let ghost mode = self.style();
        let ghost start = self.offset as nat;
        if self.offset < self.buf.len() {
            let r = self.next_row();
            proof {
                let end = row_end(buf.len(), start);
                assert(data_rows(buf, mode, start) == seq![row_text(buf, mode, start)] + data_rows(buf, mode, end));
                assert(final_cursor(buf.len(), end) == final_cursor(buf.len(), start));
                assert(dump_lines(buf, mode, start).drop_first() =~= dump_lines(buf, mode, end));
            }
            r
        } else {
            let mut s = String::new();
            push_padded(&mut s, self.offset, 16, 7);
            self.finished = true;
            proof {
                assert(data_rows(buf, mode, start) =~= Seq::<Seq<char>>::empty());
            }
            Some(s)
        }
    }
}

} // verus!
