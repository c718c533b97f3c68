use vstd::prelude::*;

verus! {

/// One binary-coded decimal digit position of the clock: four boolean cells,
/// where the cell in row `r` shows the bit of weight `2^(3-r)`, so the rows
/// read 8, 4, 2, 1 from top to bottom.
#[derive(Copy, Clone)]
pub struct Column {
    pub rows: [bool; 4],
}

/// The bit weight that grid row `r` displays: 8, 4, 2, 1 from top to bottom.
pub open spec fn row_weight(r: int) -> int {
    if r == 0 {
        8
    } else if r == 1 {
        4
    } else if r == 2 {
        2
    } else {
        1
    }
}

/// Whether the binary representation of `d` has the bit of weight
/// `row_weight(r)` set.
pub open spec fn digit_bit(d: int, r: int) -> bool {
    (d / row_weight(r)) % 2 == 1
}

/// The cells hold exactly the binary decomposition of `d`, most significant
/// bit at row 0.
pub open spec fn encodes(rows: Seq<bool>, d: int) -> bool {
    &&& rows.len() == 4
    &&& forall|r: int| 0 <= r < 4 ==> (#[trigger] rows[r]) == digit_bit(d, r)
}

/// The value the four cells display: the sum of each row's weight over the
/// set cells.
pub open spec fn weighted_sum(rows: Seq<bool>) -> int
    recommends
        rows.len() == 4,
{
    (if rows[0] {
        8int
    } else {
        0int
    }) + (if rows[1] {
        4int
    } else {
        0int
    }) + (if rows[2] {
        2int
    } else {
        0int
    }) + (if rows[3] {
        1int
    } else {
        0int
    })
}

/// Reading a column's cells top to bottom and summing the row weights of the
/// set cells recovers the digit the column encodes.
pub proof fn lemma_weighted_sum(rows: Seq<bool>, d: int)
    requires
        0 <= d <= 9,
        encodes(rows, d),
    ensures
        weighted_sum(rows) == d,
{
    assert(rows[0] == digit_bit(d, 0));
    assert(rows[1] == digit_bit(d, 1));
    assert(rows[2] == digit_bit(d, 2));
    assert(rows[3] == digit_bit(d, 3));
}

impl Column {
    /// A column with every cell clear, showing the digit zero.
    pub fn new() -> (c: Column)
        ensures
            c.rows@ =~= seq![false, false, false, false],
            encodes(c.rows@, 0),
    {
        Column { rows: [false, false, false, false] }
    }

    /// Decompose `digit` into binary, most significant bit first: walk the
    /// weights 8, 4, 2, 1; where the remaining value covers a weight, that
    /// cell is set and the weight subtracted.
    pub fn update(&mut self, digit: i32)
        requires
            0 <= digit <= 9,
        ensures
            encodes(final(self).rows@, digit as int),
            weighted_sum(final(self).rows@) == digit as int,
    {
        let mut rest = digit;
        let bit_eight = rest >= 8;
        if bit_eight {
            rest = rest - 8;
        }
        let bit_four = rest >= 4;
        if bit_four {
            rest = rest - 4;
        }
        let bit_two = rest >= 2;
        if bit_two {
            rest = rest - 2;
        }
        let bit_one = rest >= 1;
        self.rows = [bit_eight, bit_four, bit_two, bit_one];
        proof {
            assert(encodes(self.rows@, digit as int));
            lemma_weighted_sum(self.rows@, digit as int);
        }
    }
}

} // verus!
