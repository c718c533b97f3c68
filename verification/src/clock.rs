use vstd::prelude::*;
use crate::column::{Column, digit_bit, encodes};
use crate::time_source::now_hhmmss;
use vstd::string::StrSliceExecFns;
use vstd::string::StringExecFns;

verus! {

/// A clock is refreshed from its time source and then drawn, once per tick.
pub trait Clock {
    fn update(&mut self);

    fn draw(&self);
}

/// Whether `c` is an ASCII decimal digit.
pub open spec fn is_digit_char(c: char) -> bool {
    48 <= c as u32 <= 57
}

/// The value of an ASCII decimal digit character.
pub open spec fn digit_val(c: char) -> int {
    c as u32 - 48
}

/// The binary clock: one column per digit of the current time, in the order
/// tens of hours, hours, tens of minutes, minutes, tens of seconds, seconds,
/// together with the HHMMSS digit string the columns were last set from.
pub struct BinaryClock {
    pub formatted: String,
    pub columns: [Column; 6],
}

/// The cell of one column in one grid row: `x` where the cell is set, `.`
/// where it is clear.
pub open spec fn cell_str(b: bool) -> Seq<char> {
    if b {
        "x"@
    } else {
        "."@
    }
}

/// The blank gap that groups the columns into hour, minute and second pairs.
pub open spec fn group_gap() -> Seq<char> {
    "  "@
}

/// The two-digit bit-weight label that opens grid row `r`.
pub open spec fn label_spec(r: int) -> Seq<char> {
    if r == 0 {
        "08:  "@
    } else if r == 1 {
        "04:  "@
    } else if r == 2 {
        "02:  "@
    } else {
        "01:  "@
    }
}

/// The header line naming the hour, minute and second column groups.
pub open spec fn header_spec() -> Seq<char> {
    "     HH  MM  SS\n"@
}

/// Grid row `r`: its weight label, then one cell per column, with a gap
/// after the hour pair and after the minute pair.
pub open spec fn row_spec(cols: Seq<Column>, r: int) -> Seq<char> {
    label_spec(r) + cell_str(cols[0].rows@[r]) + cell_str(cols[1].rows@[r]) + group_gap()
        + cell_str(cols[2].rows@[r]) + cell_str(cols[3].rows@[r]) + group_gap() + cell_str(
        cols[4].rows@[r],
    ) + cell_str(cols[5].rows@[r]) + "\n"@
}

/// The whole drawn frame: the header and the four bit rows, weights 8, 4,
/// 2, 1 from top to bottom.
pub open spec fn render_spec(cols: Seq<Column>) -> Seq<char> {
    header_spec() + row_spec(cols, 0) + row_spec(cols, 1) + row_spec(cols, 2) + row_spec(cols, 3)
}

/// The ANSI control sequence that clears the terminal, as the driving loop
/// prints it: followed by the newline of its `println`.
pub open spec fn clear_screen_spec() -> Seq<char> {
    "\x1b[2J\n"@
}

impl BinaryClock {
    /// Every column encodes its digit of the cached HHMMSS string.
    pub open spec fn wf(self) -> bool {
        &&& self.formatted@.len() == 6
        &&& forall|i: int| 0 <= i < 6 ==> is_digit_char(#[trigger] self.formatted@[i])
        &&& forall|i: int|
            0 <= i < 6 ==> encodes(
                (#[trigger] self.columns@[i]).rows@,
                digit_val(self.formatted@[i]),
            )
    }

    /// A clock whose columns are all zeroed, stamped with the current time.
    pub fn new() -> (c: BinaryClock)
        ensures
            c.formatted@.len() == 6,
            forall|i: int| 0 <= i < 6 ==> is_digit_char(#[trigger] c.formatted@[i]),
            forall|i: int| 0 <= i < 6 ==> encodes((#[trigger] c.columns@[i]).rows@, 0),
    {
        BinaryClock {
            formatted: now_hhmmss(),
            columns: [
                Column::new(),
                Column::new(),
                Column::new(),
                Column::new(),
                Column::new(),
                Column::new(),
            ],
        }
    }

    /// Set the six columns from a given HHMMSS digit string: column `i`
    /// encodes the value of digit `i`.
    pub fn set_time(&mut self, time: &str)
        requires
            time@.len() == 6,
            forall|i: int| 0 <= i < 6 ==> is_digit_char(#[trigger] time@[i]),
        ensures
            final(self).formatted@ == time@,
            final(self).wf(),
    {
        self.formatted = String::from_str(time);
        let mut i: usize = 0;
        while i < 6
            invariant
                i <= 6,
                time@.len() == 6,
                forall|j: int| 0 <= j < 6 ==> is_digit_char(#[trigger] time@[j]),
                self.formatted@ == time@,
                forall|j: int|
                    0 <= j < i ==> encodes(
                        (#[trigger] self.columns@[j]).rows@,
                        digit_val(time@[j]),
                    ),
            decreases 6 - i,
        {
            let ch = time.get_char(i);
            let code: u32 = ch as u32;
            let digit: i32 = (code - 48) as i32;
            let mut col = self.columns[i];
            col.update(digit);
            self.columns[i] = col;
            i = i + 1;
        }
    }

    /// Refresh the columns from the current wall-clock time. Whatever moment
    /// the clock reads, afterwards every column encodes its digit of the
    /// cached HHMMSS string.
    pub fn update(&mut self)
        ensures
            final(self).wf(),
    {
        let t = now_hhmmss();
        self.set_time(t.as_str());
    }

    /// The cell text of column `col` in grid row `r`.
    fn cell(&self, col: usize, r: usize) -> (s: &'static str)
        requires
            col < 6,
            r < 4,
        ensures
            s@ == cell_str(self.columns@[col as int].rows@[r as int]),
    {
        if self.columns[col].rows[r] {
            "x"
        } else {
            "."
        }
    }

    /// Append grid row `r` to `out`.
    fn push_row(&self, out: &mut String, r: usize, label: &'static str)
        requires
            r < 4,
            label@ == label_spec(r as int),
        ensures
            final(out)@ == old(out)@ + row_spec(self.columns@, r as int),
    {
        out.append(label);
        out.append(self.cell(0, r));
        out.append(self.cell(1, r));
        out.append("  ");
        out.append(self.cell(2, r));
        out.append(self.cell(3, r));
        out.append("  ");
        out.append(self.cell(4, r));
        out.append(self.cell(5, r));
        out.append("\n");
        proof {
            let o = old(out)@;
            let cols = self.columns@;
            let ri = r as int;
            let s1 = label_spec(ri);
            let s2 = cell_str(cols[0].rows@[ri]);
            let s3 = cell_str(cols[1].rows@[ri]);
            let s4 = group_gap();
            let s5 = cell_str(cols[2].rows@[ri]);
            let s6 = cell_str(cols[3].rows@[ri]);
            let s7 = group_gap();
            let s8 = cell_str(cols[4].rows@[ri]);
            let s9 = cell_str(cols[5].rows@[ri]);
            let s10 = "\n"@;
            vstd::seq_lib::lemma_concat_associative(o, s1, s2);
            vstd::seq_lib::lemma_concat_associative(o, s1 + s2, s3);
            vstd::seq_lib::lemma_concat_associative(o, s1 + s2 + s3, s4);
            vstd::seq_lib::lemma_concat_associative(o, s1 + s2 + s3 + s4, s5);
            vstd::seq_lib::lemma_concat_associative(o, s1 + s2 + s3 + s4 + s5, s6);
            vstd::seq_lib::lemma_concat_associative(o, s1 + s2 + s3 + s4 + s5 + s6, s7);
            vstd::seq_lib::lemma_concat_associative(o, s1 + s2 + s3 + s4 + s5 + s6 + s7, s8);
            vstd::seq_lib::lemma_concat_associative(o, s1 + s2 + s3 + s4 + s5 + s6 + s7 + s8, s9);
            vstd::seq_lib::lemma_concat_associative(
                o,
                s1 + s2 + s3 + s4 + s5 + s6 + s7 + s8 + s9,
                s10,
            );
            assert(out@ == o + row_spec(cols, ri));
        }
    }

    /// Draw the grid: the header line, then one line per bit row. The text
    /// depends on nothing but the cells of the six columns.
    pub fn render(&self) -> (out: String)
        ensures
            out@ == render_spec(self.columns@),
    {
        let mut out = String::new();
        out.append("     HH  MM  SS\n");
        proof {
            assert(out@ =~= header_spec());
        }
        self.push_row(&mut out, 0, "08:  ");
        self.push_row(&mut out, 1, "04:  ");
        self.push_row(&mut out, 2, "02:  ");
        self.push_row(&mut out, 3, "01:  ");
        out
    }

    /// One full frame for the terminal: the screen-clear control sequence,
    /// then the drawn grid, so the clear always precedes the frame's content.
    pub fn frame(&self) -> (out: String)
        ensures
            out@ == clear_screen_spec() + render_spec(self.columns@),
    {
        let mut out = String::from_str("\x1b[2J\n");
        let grid = self.render();
        out.append(grid.as_str());
        out
    }
}

/// Where the cell of column `c` in grid row `r` stands within the drawn
/// frame: past the header and `r` full rows, the row label, and the earlier
/// cells of the row with one gap per completed pair.
pub open spec fn grid_index(r: int, c: int) -> int {
    16 + 16 * r + 5 + c + 2 * (c / 2)
}

/// Every grid row is sixteen characters long, as the header line is.
pub proof fn lemma_row_spec_len(cols: Seq<Column>, r: int)
    ensures
        row_spec(cols, r).len() == 16,
{
    reveal_strlit("08:  ");
    reveal_strlit("04:  ");
    reveal_strlit("02:  ");
    reveal_strlit("01:  ");
    reveal_strlit("x");
    reveal_strlit(".");
    reveal_strlit("  ");
    reveal_strlit("\n");
}

/// The drawn frame is five lines of sixteen characters each: the header and
/// the four bit rows, every line ending in a newline.
pub proof fn lemma_render_shape(cols: Seq<Column>)
    ensures
        render_spec(cols).len() == 80,
        forall|i: int| 0 <= i < 80 && i % 16 == 15 ==> (#[trigger] render_spec(cols)[i]) == '\n',
{
    reveal_strlit("     HH  MM  SS\n");
    reveal_strlit("08:  ");
    reveal_strlit("04:  ");
    reveal_strlit("02:  ");
    reveal_strlit("01:  ");
    reveal_strlit("x");
    reveal_strlit(".");
    reveal_strlit("  ");
    reveal_strlit("\n");
    lemma_row_spec_len(cols, 0);
    lemma_row_spec_len(cols, 1);
    lemma_row_spec_len(cols, 2);
    lemma_row_spec_len(cols, 3);
    assert(render_spec(cols)[15] == '\n');
    assert(render_spec(cols)[31] == '\n');
    assert(render_spec(cols)[47] == '\n');
    assert(render_spec(cols)[63] == '\n');
    assert(render_spec(cols)[79] == '\n');
    assert forall|i: int| 0 <= i < 80 && i % 16 == 15 implies (#[trigger] render_spec(cols)[i])
        == '\n' by {
        assert(i == 15 || i == 31 || i == 47 || i == 63 || i == 79);
    }
}

/// Within the drawn frame, the character at `grid_index(r, c)` is `x` when
/// the cell of column `c` in row `r` is set, and `.` when it is clear.
pub proof fn lemma_grid_cell(cols: Seq<Column>, r: int, c: int)
    requires
        0 <= r < 4,
        0 <= c < 6,
    ensures
        render_spec(cols)[grid_index(r, c)] == (if cols[c].rows@[r] {
            'x'
        } else {
            '.'
        }),
{
    reveal_strlit("     HH  MM  SS\n");
    reveal_strlit("08:  ");
    reveal_strlit("04:  ");
    reveal_strlit("02:  ");
    reveal_strlit("01:  ");
    reveal_strlit("x");
    reveal_strlit(".");
    reveal_strlit("  ");
    reveal_strlit("\n");
    lemma_row_spec_len(cols, 0);
    lemma_row_spec_len(cols, 1);
    lemma_row_spec_len(cols, 2);
    lemma_row_spec_len(cols, 3);
    let off = 5 + c + 2 * (c / 2);
    assert(row_spec(cols, r)[off] == (if cols[c].rows@[r] {
        'x'
    } else {
        '.'
    })) by {
        if c == 0 {
            assert(off == 5);
        } else if c == 1 {
            assert(off == 6);
        } else if c == 2 {
            assert(off == 9);
        } else if c == 3 {
            assert(off == 10);
        } else if c == 4 {
            assert(off == 13);
        } else {
            assert(off == 14);
        }
    }
    assert(grid_index(r, c) == 16 + 16 * r + off);
    assert(render_spec(cols)[16 + 16 * r + off] == row_spec(cols, r)[off]) by {
        if r == 0 {
        } else if r == 1 {
        } else if r == 2 {
        } else {
        }
    }
}

/// After the columns were set from a valid HHMMSS string, the drawn grid
/// marks `x` in row `r` of column `c` exactly when the binary representation
/// of that column's digit has the bit of weight `row_weight(r)` set; in
/// particular, the top row marks exactly the digits that are at least 8.
pub proof fn lemma_grid_marks_digits(clock: BinaryClock, r: int, c: int)
    requires
        clock.wf(),
        0 <= r < 4,
        0 <= c < 6,
    ensures
        render_spec(clock.columns@)[grid_index(r, c)] == (if digit_bit(
            digit_val(clock.formatted@[c]),
            r,
        ) {
            'x'
        } else {
            '.'
        }),
        render_spec(clock.columns@)[grid_index(0, c)] == 'x' <==> digit_val(clock.formatted@[c])
            >= 8,
{
    lemma_grid_cell(clock.columns@, r, c);
    lemma_grid_cell(clock.columns@, 0, c);
    let d = digit_val(clock.formatted@[c]);
    assert(0 <= d <= 9);
    assert(digit_bit(d, 0) <==> d >= 8);
}

/// Drawing twice without an update in between yields the same text both
/// times: the frame depends only on the columns, which drawing never
/// changes.
pub proof fn lemma_draw_idempotent(clock: BinaryClock, first: Seq<char>, second: Seq<char>)
    requires
        first == render_spec(clock.columns@),
        second == render_spec(clock.columns@),
    ensures
        first == second,
{
}

} // verus!
