use vstd::prelude::*;

verus! {

/// First code point of the Unicode Braille Patterns block.
pub const BRAILLE_BASE: u32 = 0x2800;

/// Bit of the Braille dot at sub-row `row` (0 is the top dot) of the left
/// (`right == false`) or right sub-column.
pub open spec fn dot_bit(row: int, right: bool) -> int {
    if !right {
        if row == 0 { 0x01 } else if row == 1 { 0x02 } else if row == 2 { 0x04 } else { 0x40 }
    } else {
        if row == 0 { 0x08 } else if row == 1 { 0x10 } else if row == 2 { 0x20 } else { 0x80 }
    }
}

/// Whether a sub-column starting at `p` lights the dot at sub-row `row`:
/// every sub-row from `p` down to the bottom of the cell is filled.
pub open spec fn lit(p: Option<u8>, row: int) -> bool {
    match p {
        Some(start) => start as int <= row,
        None => false,
    }
}

/// Sum of the bits of the sub-rows `row < upto` lit by `p` in one sub-column.
pub open spec fn column_bits_upto(p: Option<u8>, right: bool, upto: int) -> int
    decreases upto,
{
    if upto <= 0 {
        0
    } else {
        column_bits_upto(p, right, upto - 1) + if lit(p, upto - 1) {
            dot_bit(upto - 1, right)
        } else {
            0
        }
    }
}

/// The dot pattern of one sub-column: the bits of all four sub-rows it lights.
pub open spec fn column_bits(p: Option<u8>, right: bool) -> int {
    column_bits_upto(p, right, 4)
}

/// The 8-dot pattern of a glyph whose left and right sub-columns start at
/// `p1` and `p2`. The two columns use disjoint bits, so their sum is their union.
pub open spec fn braille_bits(p1: Option<u8>, p2: Option<u8>) -> int {
    column_bits(p1, false) + column_bits(p2, true)
}

/// Whether the glyph `c` shows the dot at sub-row `row` of the given sub-column.
pub open spec fn has_dot(c: char, row: int, right: bool) -> bool {
    (((c as u32 - BRAILLE_BASE) as u32) & (dot_bit(row, right) as u32)) != 0
}

/// Number of dots that the glyph `c` shows in its left sub-column.
pub open spec fn left_dot_count(c: char) -> int {
    (if has_dot(c, 0, false) { 1int } else { 0 }) + (if has_dot(c, 1, false) { 1int } else { 0 })
        + (if has_dot(c, 2, false) { 1int } else { 0 }) + (if has_dot(c, 3, false) { 1int } else {
        0
    })
}

/// Relies on `char::from_u32`: it yields the character of a code point outside
/// the surrogate range and not above `char::MAX`, and `None` otherwise.
#[verifier::external_body]
fn char_from_u32(i: u32) -> (r: Option<char>)
    ensures
        (i < 0xD800 || (0xE000 <= i && i <= 0x10FFFF)) <==> r.is_some(),
        r.is_some() ==> r.unwrap() as u32 == i,
{
    char::from_u32(i)
}

fn dot(row: u8, right: bool) -> (r: u8)
    requires
        row < 4,
    ensures
        r as int == dot_bit(row as int, right),
{
    if !right {
        if row == 0 { 0x01 } else if row == 1 { 0x02 } else if row == 2 { 0x04 } else { 0x40 }
    } else {
        if row == 0 { 0x08 } else if row == 1 { 0x10 } else if row == 2 { 0x20 } else { 0x80 }
    }
}

fn fill_column(p: Option<u8>, right: bool) -> (r: u8)
    ensures
        r as int == column_bits(p, right),
        r as int <= (if right { 0xB8int } else { 0x47int }),
{
    let mut c: u8 = 0;
    if let Some(start) = p {
        let mut i: u8 = start;
        if i < 4 {
            assert forall|k: int| 0 <= k <= start implies column_bits_upto(p, right, k) == 0 by {
                lemma_nothing_lit_below(p, right, k);
            }
        }
        while i < 4
            invariant
                p == Some(start),
                start <= i,
                start < 4 ==> i <= 4,
                start < 4 ==> c as int == column_bits_upto(p, right, i as int),
                start >= 4 ==> c == 0,
            decreases 4 - i,
        {
            proof {
                lemma_column_bits_bounded(p, right, i as int + 1);
            }
            c = c + dot(i, right);
            i = i + 1;
        }
    }
    proof {
        reveal_with_fuel(column_bits_upto, 5);
        lemma_column_bits_bounded(p, right, 4);
        if p.is_some() && p.unwrap() >= 4 {
            lemma_nothing_lit_below(p, right, 4);
        }
    }
    c
}

proof fn lemma_column_bits_bounded(p: Option<u8>, right: bool, k: int)
    requires
        0 <= k <= 4,
    ensures
        0 <= column_bits_upto(p, right, k) <= (if right { 0xB8int } else { 0x47int }),
{
    reveal_with_fuel(column_bits_upto, 5);
}

proof fn lemma_nothing_lit_below(p: Option<u8>, right: bool, k: int)
    requires
        p.is_some(),
        k <= p.unwrap() as int,
    ensures
        column_bits_upto(p, right, k) == 0,
    decreases k,
{
    if k > 0 {
        lemma_nothing_lit_below(p, right, k - 1);
    }
}

/// The Braille glyph whose left and right sub-columns are filled from sub-row
/// `p1` and `p2` (0 is the top of the cell) down to the bottom; `None` leaves
/// that sub-column empty.
pub fn pixel_nums_to_braille(p1: Option<u8>, p2: Option<u8>) -> (r: char)
    ensures
        r as u32 == BRAILLE_BASE + braille_bits(p1, p2),
{
    let bits = fill_column(p1, false) + fill_column(p2, true);
    char_from_u32(BRAILLE_BASE + bits as u32).unwrap()
}

proof fn lemma_dots_of_bits(a0: bool, a1: bool, a2: bool, a3: bool, b0: bool, b1: bool, b2: bool, b3: bool)
    ensures
        ({
            let x: u32 = ((if a0 { 0x01u32 } else { 0u32 }) + (if a1 { 0x02u32 } else { 0u32 }) + (
            if a2 { 0x04u32 } else { 0u32 }) + (if a3 { 0x40u32 } else { 0u32 }) + (if b0 {
                0x08u32
            } else {
                0u32
            }) + (if b1 { 0x10u32 } else { 0u32 }) + (if b2 { 0x20u32 } else { 0u32 }) + (if b3 {
                0x80u32
            } else {
                0u32
            })) as u32;
            &&& ((x & 0x01u32) != 0) == a0
            &&& ((x & 0x02u32) != 0) == a1
            &&& ((x & 0x04u32) != 0) == a2
            &&& ((x & 0x40u32) != 0) == a3
            &&& ((x & 0x08u32) != 0) == b0
            &&& ((x & 0x10u32) != 0) == b1
            &&& ((x & 0x20u32) != 0) == b2
            &&& ((x & 0x80u32) != 0) == b3
        }),
{
    assert(({
        let x: u32 = ((if a0 { 0x01u32 } else { 0u32 }) + (if a1 { 0x02u32 } else { 0u32 }) + (
        if a2 { 0x04u32 } else { 0u32 }) + (if a3 { 0x40u32 } else { 0u32 }) + (if b0 {
            0x08u32
        } else {
            0u32
        }) + (if b1 { 0x10u32 } else { 0u32 }) + (if b2 { 0x20u32 } else { 0u32 }) + (if b3 {
            0x80u32
        } else {
            0u32
        })) as u32;
        &&& ((x & 0x01u32) != 0) == a0
        &&& ((x & 0x02u32) != 0) == a1
        &&& ((x & 0x04u32) != 0) == a2
        &&& ((x & 0x40u32) != 0) == a3
        &&& ((x & 0x08u32) != 0) == b0
        &&& ((x & 0x10u32) != 0) == b1
        &&& ((x & 0x20u32) != 0) == b2
        &&& ((x & 0x80u32) != 0) == b3
    })) by (bit_vector);
}

/// The glyph built from `p1` and `p2` shows exactly the dots that they light:
/// sub-row `row` of the left sub-column is shown iff `p1` starts at or above
/// it, and likewise for the right sub-column and `p2`.
pub proof fn lemma_braille_dots(p1: Option<u8>, p2: Option<u8>, c: char, row: int)
    requires
        c as u32 == BRAILLE_BASE + braille_bits(p1, p2),
        0 <= row < 4,
    ensures
        has_dot(c, row, false) == lit(p1, row),
        has_dot(c, row, true) == lit(p2, row),
{
    reveal_with_fuel(column_bits_upto, 5);
    lemma_dots_of_bits(
        lit(p1, 0),
        lit(p1, 1),
        lit(p1, 2),
        lit(p1, 3),
        lit(p2, 0),
        lit(p2, 1),
        lit(p2, 2),
        lit(p2, 3),
    );
}

/// With the right argument held fixed, a larger left sub-row index never
/// lights more dots in the left sub-column: the fill shrinks as the index grows.
pub proof fn lemma_left_fill_monotonic(p: u8, q: u8, p2: Option<u8>, cp: char, cq: char)
    requires
        p <= q,
        cp as u32 == BRAILLE_BASE + braille_bits(Some(p), p2),
        cq as u32 == BRAILLE_BASE + braille_bits(Some(q), p2),
    ensures
        left_dot_count(cq) <= left_dot_count(cp),
        forall|row: int| 0 <= row < 4 && has_dot(cq, row, false) ==> has_dot(cp, row, false),
{
    assert forall|row: int| 0 <= row < 4 implies has_dot(cq, row, false) == lit(Some(q), row)
        && has_dot(cp, row, false) == lit(Some(p), row) by {
        lemma_braille_dots(Some(q), p2, cq, row);
        lemma_braille_dots(Some(p), p2, cp, row);
    }
}

} // verus!
