use vstd::prelude::*;
use crate::digits::{digits_of, digits_value, is_hex_digit, lemma_padded_digits, padded_digits};
use crate::hexdump::{
    ascii_panel, byte_token, data_rows, dump_lines, final_cursor, offset_label, row_body, row_end,
    row_head, row_text, DisplayMode, BYTES_PER_ROW, CANONICAL_WIDTH,
};

verus! {

/// The longest prefix of `s` made of hexadecimal digits.
pub open spec fn leading_hex(s: Seq<char>) -> Seq<char>
    decreases s.len(),
{
    if s.len() > 0 && is_hex_digit(s[0]) {
        seq![s[0]] + leading_hex(s.drop_first())
    } else {
        Seq::empty()
    }
}

/// The number that the offset label at the start of a line writes.
pub open spec fn label_value(line: Seq<char>) -> nat {
    digits_value(leading_hex(line), 16)
}

proof fn lemma_leading_hex_prefix(a: Seq<char>, line: Seq<char>)
    requires
        a.len() <= line.len(),
        forall|j: int| 0 <= j < a.len() ==> line[j] == a[j] && is_hex_digit(#[trigger] a[j]),
        a.len() == line.len() || !is_hex_digit(line[a.len() as int]),
    ensures
        leading_hex(line) == a,
    decreases a.len(),
{
    if a.len() == 0 {
        if line.len() > 0 {
            assert(!is_hex_digit(line[0]));
        }
    } else {
        assert(is_hex_digit(a[0]));
        lemma_leading_hex_prefix(a.drop_first(), line.drop_first());
        assert(leading_hex(line) == seq![line[0]] + leading_hex(line.drop_first()));
        assert(seq![a[0]] + a.drop_first() =~= a);
    }
}

/// A row starts with the offset label of its first byte, followed by a space.
proof fn lemma_row_label(buf: Seq<u8>, mode: DisplayMode, c: nat)
    requires
        c < buf.len(),
    ensures
        leading_hex(row_text(buf, mode, c)) == offset_label(c),
        label_value(row_text(buf, mode, c)) == c,
        row_text(buf, mode, c).len() > offset_label(c).len(),
        row_text(buf, mode, c)[offset_label(c).len() as int] == ' ',
{
    lemma_padded_digits(c, 16, 7);
    let line = row_text(buf, mode, c);
    let head = row_head(buf, mode, c);
    let a = offset_label(c);
    assert forall|j: int| 0 <= j <= a.len() implies line[j] == head[j] by {}
    assert(head[a.len() as int] == ' ');
    assert(!is_hex_digit(' '));
    lemma_leading_hex_prefix(a, line);
}

/// The closing line is just an offset label.
proof fn lemma_label_line(n: nat)
    ensures
        leading_hex(offset_label(n)) == offset_label(n),
        label_value(offset_label(n)) == n,
{
    lemma_padded_digits(n, 16, 7);
    lemma_leading_hex_prefix(offset_label(n), offset_label(n));
}

/// Row `j` of the data rows from `c` starts `16 * j` bytes after `c`.
proof fn lemma_data_rows_shape(buf: Seq<u8>, mode: DisplayMode, c: nat)
    ensures
        c >= buf.len() ==> data_rows(buf, mode, c).len() == 0,
        c < buf.len() ==> {
            let n = data_rows(buf, mode, c).len();
            &&& n >= 1
            &&& c + 16 * (n - 1) < buf.len()
            &&& buf.len() <= c + 16 * n
        },
        forall|j: int|
            0 <= j < data_rows(buf, mode, c).len() ==> {
                &&& c + 16 * j < buf.len()
                &&& #[trigger] data_rows(buf, mode, c)[j] == row_text(buf, mode, (c + 16 * j) as nat)
            },
    decreases buf.len() - c,
{
    if c < buf.len() {
        let e = row_end(buf.len(), c);
        lemma_data_rows_shape(buf, mode, e);
        let rows = data_rows(buf, mode, c);
        let rest = data_rows(buf, mode, e);
        assert(rows == seq![row_text(buf, mode, c)] + rest);
        assert forall|j: int| 0 <= j < rows.len() implies {
            &&& c + 16 * j < buf.len()
            &&& #[trigger] rows[j] == row_text(buf, mode, (c + 16 * j) as nat)
        } by {
            if j > 0 {
                assert(rows[j] == rest[j - 1]);
                assert(e == c + 16);
            }
        }
    }
}

/// The data rows and the closing line, seen one line at a time.
proof fn lemma_dump_line(buf: Seq<u8>, mode: DisplayMode, start: nat, i: int)
    requires
        0 <= i < dump_lines(buf, mode, start).len(),
    ensures
        i < data_rows(buf, mode, start).len() ==> {
            &&& start + 16 * i < buf.len()
            &&& dump_lines(buf, mode, start)[i] == row_text(buf, mode, (start + 16 * i) as nat)
            &&& label_value(dump_lines(buf, mode, start)[i]) == start + 16 * i
        },
        i == data_rows(buf, mode, start).len() ==> {
            &&& dump_lines(buf, mode, start)[i] == offset_label(final_cursor(buf.len(), start))
            &&& label_value(dump_lines(buf, mode, start)[i]) == final_cursor(buf.len(), start)
        },
{
    lemma_data_rows_shape(buf, mode, start);
    let rows = data_rows(buf, mode, start);
    if i < rows.len() {
        assert(dump_lines(buf, mode, start)[i] == rows[i]);
        lemma_row_label(buf, mode, (start + 16 * i) as nat);
    } else {
        lemma_label_line(final_cursor(buf.len(), start));
    }
}

/// A dump from offset 0 of `L` bytes has `ceil(L / 16)` data rows, no row
/// when `L` is 0, followed by exactly one line that holds only the offset
/// `L`.
pub proof fn lemma_row_count(buf: Seq<u8>, mode: DisplayMode)
    ensures
        data_rows(buf, mode, 0).len() == (buf.len() + 15) / 16,
        dump_lines(buf, mode, 0).len() == (buf.len() + 15) / 16 + 1,
        dump_lines(buf, mode, 0).last() == offset_label(buf.len()),
{
    lemma_data_rows_shape(buf, mode, 0);
    let n = data_rows(buf, mode, 0).len();
    let l = buf.len();
    if l > 0 {
        assert(n == (l + 15) / 16) by (nonlinear_arith)
            requires 16 * (n - 1) < l, l <= 16 * n, n >= 1;
    }
}

/// The offset labels of successive lines grow: the first is the start
/// offset, each one but the last is below the buffer's length, and the next
/// one is a full row further on, or the buffer's length where fewer bytes
/// than a row remained.
pub proof fn lemma_offsets_increase(buf: Seq<u8>, mode: DisplayMode, start: nat, i: int)
    requires
        0 <= i,
        i + 1 < dump_lines(buf, mode, start).len(),
    ensures
        label_value(dump_lines(buf, mode, start)[0]) == start,
        label_value(dump_lines(buf, mode, start)[i]) < buf.len(),
        label_value(dump_lines(buf, mode, start)[i + 1]) == if label_value(
            dump_lines(buf, mode, start)[i],
        ) + BYTES_PER_ROW <= buf.len() {
            label_value(dump_lines(buf, mode, start)[i]) + BYTES_PER_ROW
        } else {
            buf.len() as int
        },
{
    lemma_data_rows_shape(buf, mode, start);
    lemma_dump_line(buf, mode, start, 0);
    lemma_dump_line(buf, mode, start, i);
    lemma_dump_line(buf, mode, start, i + 1);
}

spec fn pow_of(radix: nat, k: nat) -> nat
    decreases k,
{
    if k == 0 {
        1
    } else {
        radix * pow_of(radix, (k - 1) as nat)
    }
}

proof fn lemma_digits_len(n: nat, radix: nat, k: nat)
    requires
        2 <= radix,
        k >= 1,
        n < pow_of(radix, k),
    ensures
        digits_of(n, radix).len() <= k,
    decreases k,
{
    if n >= radix {
        let p = pow_of(radix, (k - 1) as nat);
        assert(k >= 2) by {
            if k == 1 {
                assert(pow_of(radix, 0) == 1);
                assert(pow_of(radix, 1) == radix * pow_of(radix, 0));
                assert(pow_of(radix, 1) == radix) by (nonlinear_arith)
                    requires pow_of(radix, 1) == radix * pow_of(radix, 0), pow_of(radix, 0) == 1;
            }
        }
        assert(n / radix < p) by (nonlinear_arith)
            requires n < radix * p, radix >= 2;
        lemma_digits_len(n / radix, radix, (k - 1) as nat);
    }
}

spec fn pow16(k: nat) -> nat {
    pow_of(16, k)
}

proof fn lemma_hex_len(n: nat, k: nat)
    requires
        k >= 1,
        n < pow16(k),
    ensures
        digits_of(n, 16).len() <= k,
{
    lemma_digits_len(n, 16, k);
}

/// A byte takes two hexadecimal digits.
proof fn lemma_hex_byte_len(b: u8)
    ensures
        padded_digits(b as nat, 16, 2).len() == 2,
{
    assert(pow16(2) == 256) by {
        assert(pow16(0) == 1);
        assert(pow16(1) == 16);
    }
    lemma_hex_len(b as nat, 2);
}

proof fn lemma_canonical_body_len(bytes: Seq<u8>)
    ensures
        row_body(DisplayMode::Canonical, bytes).len() == 3 * bytes.len() + if bytes.len() > 8 {
            1int
        } else {
            0int
        },
    decreases bytes.len(),
{
    if bytes.len() > 0 {
        lemma_canonical_body_len(bytes.drop_last());
        lemma_hex_byte_len(bytes.last());
    }
}

/// In canonical mode, while offsets fit in seven hexadecimal digits, the
/// offset and the bytes of each data row fit in the first 57 columns, which
/// are padded to exactly that width: the character panel opens at column
/// 60, after three spaces, and the line holds 62 characters more than its
/// bytes.
pub proof fn lemma_canonical_width(buf: Seq<u8>, start: nat, i: int)
    requires
        0 <= i < data_rows(buf, DisplayMode::Canonical, start).len(),
        buf.len() <= 0x1000_0000,
    ensures
        ({
            let c = (start + 16 * i) as nat;
            let line = dump_lines(buf, DisplayMode::Canonical, start)[i];
            &&& row_head(buf, DisplayMode::Canonical, c).len() <= CANONICAL_WIDTH
            &&& line.subrange(0, CANONICAL_WIDTH as int) == row_head(
                buf,
                DisplayMode::Canonical,
                c,
            ) + Seq::new(
                (CANONICAL_WIDTH - row_head(buf, DisplayMode::Canonical, c).len()) as nat,
                |j: int| ' ',
            )
            &&& line.subrange(CANONICAL_WIDTH as int, CANONICAL_WIDTH + 4) == seq![' ', ' ', ' ', '|']
            &&& line.len() == CANONICAL_WIDTH + 5 + (row_end(buf.len(), c) - c)
        }),
{
    let mode = DisplayMode::Canonical;
    lemma_dump_line(buf, mode, start, i);
    let c = (start + 16 * i) as nat;
    let e = row_end(buf.len(), c);
    let bytes = buf.subrange(c as int, e as int);
    assert(pow16(7) == 0x1000_0000) by {
        assert(pow16(0) == 1);
        assert(pow16(1) == 16);
        assert(pow16(2) == 256);
        assert(pow16(3) == 4096);
        assert(pow16(4) == 65536);
        assert(pow16(5) == 1048576);
        assert(pow16(6) == 16777216);
    }
    lemma_hex_len(c, 7);
    assert(offset_label(c).len() == 7);
    lemma_canonical_body_len(bytes);
    assert(e - c <= 16);
    lemma_ascii_panel_len(bytes);
    let head = row_head(buf, mode, c);
    let line = dump_lines(buf, mode, start)[i];
    assert(line.subrange(0, CANONICAL_WIDTH as int) =~= head + Seq::new(
        (CANONICAL_WIDTH - head.len()) as nat,
        |j: int| ' ',
    ));
    assert(line.subrange(CANONICAL_WIDTH as int, CANONICAL_WIDTH + 4) =~= seq![' ', ' ', ' ', '|']);
}

proof fn lemma_ascii_panel_len(bytes: Seq<u8>)
    ensures
        ascii_panel(bytes).len() == bytes.len(),
    decreases bytes.len(),
{
    if bytes.len() > 0 {
        lemma_ascii_panel_len(bytes.drop_last());
    }
}

/// The number of digits of each byte in a mode that writes bytes as numbers.
pub open spec fn token_width(mode: DisplayMode) -> nat {
    match mode {
        DisplayMode::TwoBytesHex => 2,
        _ => 3,
    }
}

/// The base in which a mode that writes bytes as numbers writes them.
pub open spec fn token_radix(mode: DisplayMode) -> nat {
    match mode {
        DisplayMode::TwoBytesHex => 16,
        DisplayMode::TwoBytesDecimal => 10,
        _ => 8,
    }
}

/// Whether `mode` writes each byte as a space and a fixed number of digits.
pub open spec fn is_numeric_mode(mode: DisplayMode) -> bool {
    mode == DisplayMode::OneByteOctal || mode == DisplayMode::TwoBytesHex || mode
        == DisplayMode::TwoBytesOctal || mode == DisplayMode::TwoBytesDecimal
}

/// The numbers written in `s` as a run of tokens, each a space followed by
/// `width` digits in base `radix`.
pub open spec fn decode_tokens(s: Seq<char>, width: nat, radix: nat) -> Seq<nat>
    decreases s.len(),
{
    if width == 0 || s.len() < width + 1 {
        Seq::empty()
    } else {
        seq![digits_value(s.subrange(1, (width + 1) as int), radix)] + decode_tokens(
            s.skip((width + 1) as int),
            width,
            radix,
        )
    }
}

/// What follows the offset label and its space on a line.
pub open spec fn line_body(line: Seq<char>) -> Seq<char> {
    let n = leading_hex(line).len();
    if n < line.len() {
        line.skip((n + 1) as int)
    } else {
        Seq::empty()
    }
}

/// The numbers that the lines of a dump write, in order.
pub open spec fn decode_lines(lines: Seq<Seq<char>>, width: nat, radix: nat) -> Seq<nat>
    decreases lines.len(),
{
    if lines.len() == 0 {
        Seq::empty()
    } else {
        decode_tokens(line_body(lines[0]), width, radix) + decode_lines(
            lines.drop_first(),
            width,
            radix,
        )
    }
}

/// The bytes as numbers.
pub open spec fn byte_values(bytes: Seq<u8>) -> Seq<nat> {
    bytes.map_values(|b: u8| b as nat)
}

proof fn lemma_decode_append(a: Seq<char>, t: Seq<char>, w: nat, r: nat, m: nat)
    requires
        w >= 1,
        a.len() == m * (w + 1),
        t.len() == w + 1,
    ensures
        decode_tokens(a + t, w, r) == decode_tokens(a, w, r) + seq![
            digits_value(t.subrange(1, (w + 1) as int), r),
        ],
    decreases m,
{
    if m == 0 {
        assert(a.len() == 0) by (nonlinear_arith)
            requires a.len() == m * (w + 1), m == 0;
        assert(a + t =~= t);
        assert(t.skip((w + 1) as int) =~= Seq::<char>::empty());
        assert(decode_tokens(Seq::<char>::empty(), w, r) =~= Seq::<nat>::empty());
        assert(a =~= Seq::<char>::empty());
    } else {
        assert(a.len() >= w + 1) by (nonlinear_arith)
            requires a.len() == m * (w + 1), m >= 1;
        assert(a.skip((w + 1) as int).len() == (m - 1) * (w + 1)) by (nonlinear_arith)
            requires a.len() == m * (w + 1), m >= 1, a.skip((w + 1) as int).len() == a.len() - (w + 1);
        lemma_decode_append(a.skip((w + 1) as int), t, w, r, (m - 1) as nat);
        assert((a + t).subrange(1, (w + 1) as int) =~= a.subrange(1, (w + 1) as int));
        assert((a + t).skip((w + 1) as int) =~= a.skip((w + 1) as int) + t);
    }
}

proof fn lemma_token(mode: DisplayMode, b: u8, k: nat)
    requires
        is_numeric_mode(mode),
    ensures
        byte_token(mode, b, k) == seq![' '] + padded_digits(
            b as nat,
            token_radix(mode),
            token_width(mode),
        ),
        byte_token(mode, b, k).len() == token_width(mode) + 1,
        digits_value(byte_token(mode, b, k).subrange(1, (token_width(mode) + 1) as int), token_radix(mode))
            == b as nat,
{
    let w = token_width(mode);
    let r = token_radix(mode);
    assert(pow_of(r, 0) == 1);
    assert(pow_of(r, 1) == r * pow_of(r, 0));
    assert(pow_of(r, 2) == r * pow_of(r, 1));
    assert(pow_of(r, 3) == r * pow_of(r, 2));
    assert(b < pow_of(r, w));
    lemma_digits_len(b as nat, r, w);
    lemma_padded_digits(b as nat, r, w);
    let t = byte_token(mode, b, k);
    assert(t.subrange(1, (w + 1) as int) =~= padded_digits(b as nat, r, w));
}

proof fn lemma_body_decode(mode: DisplayMode, bytes: Seq<u8>)
    requires
        is_numeric_mode(mode),
    ensures
        row_body(mode, bytes).len() == bytes.len() * (token_width(mode) + 1),
        decode_tokens(row_body(mode, bytes), token_width(mode), token_radix(mode)) == byte_values(
            bytes,
        ),
    decreases bytes.len(),
{
    let w = token_width(mode);
    let r = token_radix(mode);
    if bytes.len() == 0 {
        assert(byte_values(bytes) =~= Seq::<nat>::empty());
    } else {
        let prev = bytes.drop_last();
        lemma_body_decode(mode, prev);
        let k = (bytes.len() - 1) as nat;
        lemma_token(mode, bytes.last(), k);
        lemma_decode_append(row_body(mode, prev), byte_token(mode, bytes.last(), k), w, r, prev.len());
        assert(byte_values(bytes) =~= byte_values(prev) + seq![bytes.last() as nat]);
        assert(row_body(mode, bytes).len() == prev.len() * (w + 1) + (w + 1));
        assert(prev.len() * (w + 1) + (w + 1) == bytes.len() * (w + 1)) by (nonlinear_arith)
            requires prev.len() + 1 == bytes.len();
    }
}

proof fn lemma_round_trip_from(buf: Seq<u8>, mode: DisplayMode, c: nat)
    requires
        is_numeric_mode(mode),
        c <= buf.len(),
    ensures
        decode_lines(dump_lines(buf, mode, c), token_width(mode), token_radix(mode)) == byte_values(
            buf.subrange(c as int, buf.len() as int),
        ),
    decreases buf.len() - c,
{
    let w = token_width(mode);
    let r = token_radix(mode);
    let lines = dump_lines(buf, mode, c);
    if c == buf.len() {
        lemma_label_line(c);
        assert(data_rows(buf, mode, c) =~= Seq::<Seq<char>>::empty());
        assert(lines =~= seq![offset_label(c)]);
        assert(line_body(offset_label(c)) =~= Seq::<char>::empty());
        assert(decode_lines(lines.drop_first(), w, r) =~= Seq::<nat>::empty());
        assert(decode_tokens(Seq::<char>::empty(), w, r) =~= Seq::<nat>::empty());
        assert(byte_values(buf.subrange(c as int, buf.len() as int)) =~= Seq::<nat>::empty());
    } else {
        let e = row_end(buf.len(), c);
        lemma_round_trip_from(buf, mode, e);
        assert(data_rows(buf, mode, c) == seq![row_text(buf, mode, c)] + data_rows(buf, mode, e));
        assert(final_cursor(buf.len(), e) == final_cursor(buf.len(), c));
        assert(lines.drop_first() =~= dump_lines(buf, mode, e));
        let line = row_text(buf, mode, c);
        assert(lines[0] == line);
        lemma_row_label(buf, mode, c);
        let bytes = buf.subrange(c as int, e as int);
        assert(line_body(line) =~= row_body(mode, bytes));
        lemma_body_decode(mode, bytes);
        assert(byte_values(buf.subrange(c as int, buf.len() as int)) =~= byte_values(bytes)
            + byte_values(buf.subrange(e as int, buf.len() as int)));
    }
}

/// Reading back the numbers of a dump from offset 0 in a mode that writes
/// bytes as numbers (three octal digits, two hexadecimal digits, or three
/// decimal digits each) gives exactly the bytes of the buffer.
pub proof fn lemma_round_trip(buf: Seq<u8>, mode: DisplayMode)
    requires
        is_numeric_mode(mode),
    ensures
        decode_lines(dump_lines(buf, mode, 0), token_width(mode), token_radix(mode)) == byte_values(
            buf,
        ),
{
    lemma_round_trip_from(buf, mode, 0);
    assert(buf.subrange(0, buf.len() as int) =~= buf);
}

} // verus!
