//! The window icon, drawn in code: a rounded square in the openHC green with a
//! white "HC" monogram.
use vstd::prelude::*;

verus! {

/// The icon is this many pixels wide and high.
pub const SIDE: u32 = 128;

/// The radius the corners are clipped to.
pub const RADIUS: u32 = 22;

/// A glyph cell is this many pixels wide and high.
pub const CELL: u32 = 10;

/// Where the monogram starts: it is two glyphs of five cells by seven, one cell
/// apart, in the middle.
pub const LEFT: u32 = 9;

pub const TOP: u32 = 29;

/// The rows of the letter H, the leftmost cell in the highest of five bits.
pub open spec fn letter_h(row: int) -> u32 {
    if row == 3 {
        0b11111
    } else {
        0b10001
    }
}

/// The rows of the letter C.
pub open spec fn letter_c(row: int) -> u32 {
    if row == 0 || row == 6 {
        0b01110
    } else if row == 1 || row == 5 {
        0b10001
    } else {
        0b10000
    }
}

/// The weight of a column's bit.
pub open spec fn weight(col: int) -> u32 {
    if col == 0 {
        16
    } else if col == 1 {
        8
    } else if col == 2 {
        4
    } else if col == 3 {
        2
    } else {
        1
    }
}

/// A pixel of the monogram.
pub open spec fn inked(x: int, y: int) -> bool {
    let row = (y - TOP) / CELL as int;
    &&& TOP <= y < TOP + 7 * CELL
    &&& {
        ||| LEFT <= x < LEFT + 5 * CELL && letter_h(row) / weight((x - LEFT) / CELL as int) % 2 == 1
        ||| LEFT + 6 * CELL <= x < LEFT + 11 * CELL && letter_c(row) / weight(
            (x - LEFT - 6 * CELL) / CELL as int,
        ) % 2 == 1
    }
}

/// The distance to the nearer of two opposite edges.
pub open spec fn inside(x: int) -> int {
    if x < SIDE - 1 - x {
        x
    } else {
        SIDE - 1 - x
    }
}

/// A pixel outside the rounded corners.
pub open spec fn clipped(x: int, y: int) -> bool {
    let dx = RADIUS - inside(x);
    let dy = RADIUS - inside(y);
    dx > 0 && dy > 0 && dx * dx + dy * dy > RADIUS * RADIUS
}

/// One channel of a pixel: red, green, blue, opacity.
pub open spec fn channel(x: int, y: int, k: int) -> u8 {
    if inked(x, y) {
        0xff
    } else if clipped(x, y) {
        0
    } else if k == 0 {
        0x2e
    } else if k == 1 {
        0xa0
    } else if k == 2 {
        0x43
    } else {
        0xff
    }
}

/// The whole icon, row by row, four channels to the pixel.
pub open spec fn icon() -> Seq<u8> {
    Seq::new(65536, |i: int| channel(i / 4 % 128, i / 4 / 128, i % 4))
}

fn h_row(row: u32) -> (r: u32)
    ensures
        r == letter_h(row as int),
{
    if row == 3 {
        0b11111
    } else {
        0b10001
    }
}

fn c_row(row: u32) -> (r: u32)
    ensures
        r == letter_c(row as int),
{
    if row == 0 || row == 6 {
        0b01110
    } else if row == 1 || row == 5 {
        0b10001
    } else {
        0b10000
    }
}

fn col_weight(col: u32) -> (r: u32)
    ensures
        r == weight(col as int),
        r > 0,
{
    if col == 0 {
        16
    } else if col == 1 {
        8
    } else if col == 2 {
        4
    } else if col == 3 {
        2
    } else {
        1
    }
}

fn is_inked(x: u32, y: u32) -> (r: bool)
    requires
        x < SIDE,
        y < SIDE,
    ensures
        r == inked(x as int, y as int),
{
    if y < TOP || y >= TOP + 7 * CELL {
        return false;
    }
    let row: u32 = (y - TOP) / CELL;
    if x >= LEFT && x < LEFT + 5 * CELL {
        return h_row(row) / col_weight((x - LEFT) / CELL) % 2 == 1;
    }
    if x >= LEFT + 6 * CELL && x < LEFT + 11 * CELL {
        return c_row(row) / col_weight((x - LEFT - 6 * CELL) / CELL) % 2 == 1;
    }
    false
}

fn edge(x: u32) -> (r: u32)
    requires
        x < SIDE,
    ensures
        r == inside(x as int),
{
    if x < SIDE - 1 - x {
        x
    } else {
        SIDE - 1 - x
    }
}

fn is_clipped(x: u32, y: u32) -> (r: bool)
    requires
        x < SIDE,
        y < SIDE,
    ensures
        r == clipped(x as int, y as int),
{
    let ex: u32 = edge(x);
    let ey: u32 = edge(y);
    if ex >= RADIUS || ey >= RADIUS {
        return false;
    }
    let dx: u32 = RADIUS - ex;
    let dy: u32 = RADIUS - ey;
    assert(dx * dx <= 484 && dy * dy <= 484) by (nonlinear_arith)
        requires
            dx <= 22,
            dy <= 22,
    ;
    dx * dx + dy * dy > RADIUS * RADIUS
}

fn channel_of(x: u32, y: u32, k: u32) -> (r: u8)
    requires
        x < SIDE,
        y < SIDE,
    ensures
        r == channel(x as int, y as int, k as int),
{
    if is_inked(x, y) {
        0xff
    } else if is_clipped(x, y) {
        0
    } else if k == 0 {
        0x2e
    } else if k == 1 {
        0xa0
    } else if k == 2 {
        0x43
    } else {
        0xff
    }
}

/// The pixels of the icon.
pub fn app_icon() -> (r: Vec<u8>)
    ensures
        r@ == icon(),
{
    let mut out: Vec<u8> = Vec::new();
    let mut i: u32 = 0;
    while i < 65536
        invariant
            i <= 65536,
            out@ == icon().take(i as int),
        decreases 65536 - i,
    {
        let p: u32 = i / 4;
        let c = channel_of(p % 128, p / 128, i % 4);
        out.push(c);
        assert(out@ =~= icon().take(i + 1));
        i += 1;
    }
    assert(icon().take(65536) =~= icon());
    out
}

} // verus!
