//! The tray icon: a square RGBA image on a dark ground with a border, the short
//! window's percentage (`5H72`) above a rule and the weekly one (`1W46`) below
//! it, drawn in a 3x5 pixel font. The image is stated pixel by pixel.
use crate::text::{chars_of, decimal, decimal_chars, extend_chars};
use vstd::prelude::*;

verus! {

/// A colour as red, green, blue and alpha.
pub type Rgba = (u8, u8, u8, u8);

pub open spec fn background() -> Rgba {
    (5, 7, 10, 255)
}

pub open spec fn border_color() -> Rgba {
    (29, 42, 45, 255)
}

pub open spec fn top_color() -> Rgba {
    (34, 230, 209, 255)
}

pub open spec fn bottom_color() -> Rgba {
    (155, 124, 255, 255)
}

/// The rows of a glyph, three bits each (the leftmost column is the high bit).
pub open spec fn glyph(c: char) -> Option<Seq<u8>> {
    if c == '0' {
        Some(seq![7u8, 5u8, 5u8, 5u8, 7u8])
    } else if c == '1' {
        Some(seq![2u8, 6u8, 2u8, 2u8, 7u8])
    } else if c == '2' {
        Some(seq![7u8, 1u8, 7u8, 4u8, 7u8])
    } else if c == '3' {
        Some(seq![7u8, 1u8, 7u8, 1u8, 7u8])
    } else if c == '4' {
        Some(seq![5u8, 5u8, 7u8, 1u8, 1u8])
    } else if c == '5' {
        Some(seq![7u8, 4u8, 7u8, 1u8, 7u8])
    } else if c == '6' {
        Some(seq![7u8, 4u8, 7u8, 5u8, 7u8])
    } else if c == '7' {
        Some(seq![7u8, 1u8, 2u8, 2u8, 2u8])
    } else if c == '8' {
        Some(seq![7u8, 5u8, 7u8, 5u8, 7u8])
    } else if c == '9' {
        Some(seq![7u8, 5u8, 7u8, 1u8, 7u8])
    } else if c == 'H' || c == 'h' {
        Some(seq![5u8, 5u8, 7u8, 5u8, 5u8])
    } else if c == 'W' || c == 'w' {
        Some(seq![5u8, 5u8, 5u8, 7u8, 5u8])
    } else if c == '-' {
        Some(seq![0u8, 0u8, 7u8, 0u8, 0u8])
    } else {
        None
    }
}

fn glyph_of(c: char) -> (r: Option<Vec<u8>>)
    ensures
        match r {
            Some(v) => glyph(c) == Some(v@),
            None => glyph(c) is None,
        },
{
    let rows: Option<[u8; 5]> = if c == '0' {
        Some([7, 5, 5, 5, 7])
    } else if c == '1' {
        Some([2, 6, 2, 2, 7])
    } else if c == '2' {
        Some([7, 1, 7, 4, 7])
    } else if c == '3' {
        Some([7, 1, 7, 1, 7])
    } else if c == '4' {
        Some([5, 5, 7, 1, 1])
    } else if c == '5' {
        Some([7, 4, 7, 1, 7])
    } else if c == '6' {
        Some([7, 4, 7, 5, 7])
    } else if c == '7' {
        Some([7, 1, 2, 2, 2])
    } else if c == '8' {
        Some([7, 5, 7, 5, 7])
    } else if c == '9' {
        Some([7, 5, 7, 1, 7])
    } else if c == 'H' || c == 'h' {
        Some([5, 5, 7, 5, 5])
    } else if c == 'W' || c == 'w' {
        Some([5, 5, 5, 7, 5])
    } else if c == '-' {
        Some([0, 0, 7, 0, 0])
    } else {
        None
    };
    match rows {
        Some(a) => {
            let v = vec![a[0], a[1], a[2], a[3], a[4]];
            proof {
                assert(v@ =~= glyph(c)->Some_0);
            }
            Some(v)
        },
        None => None,
    }
}

/// Whether column `column` (0 to 2, left to right) of a glyph row is lit.
pub open spec fn row_lit(bits: u8, column: int) -> bool {
    (bits as int / (if column == 0 {
        4int
    } else if column == 1 {
        2int
    } else {
        1int
    })) % 2 == 1
}

/// The width of a text in pixels: three columns per glyph and one between.
pub open spec fn text_width(len: int, scale: int) -> int {
    if len == 0 {
        0
    } else {
        len * 3 * scale + (len - 1) * scale
    }
}

/// The left edge of a text centred in the icon.
pub open spec fn text_left(size: int, len: int, scale: int) -> int {
    if text_width(len, scale) > size {
        0
    } else {
        (size - text_width(len, scale)) / 2
    }
}

/// Whether pixel (x, y) is lit by `text` drawn at (left, top) with the scale.
pub open spec fn text_lit(text: Seq<char>, left: int, top: int, scale: int, x: int, y: int) -> bool {
    let dx = x - left;
    let dy = y - top;
    let cell = 4 * scale;
    &&& dx >= 0
    &&& dy >= 0
    &&& dx / cell < text.len()
    &&& (dx % cell) / scale < 3
    &&& dy / scale < 5
    &&& glyph(text[dx / cell]) matches Some(rows) && row_lit(rows[dy / scale], (dx % cell) / scale)
}

/// The text for a percentage: its digits, or `--` when unknown.
pub open spec fn compact_percent(value: Option<u8>) -> Seq<char> {
    match value {
        Some(v) => decimal(v as nat),
        None => "--"@,
    }
}

pub open spec fn top_text(top: Option<u8>) -> Seq<char> {
    "5H"@ + compact_percent(top)
}

pub open spec fn bottom_text(bottom: Option<u8>) -> Seq<char> {
    "1W"@ + compact_percent(bottom)
}

/// The colour of pixel (x, y): the rule, then the weekly text, then the short
/// window's text, then the border, over the dark ground.
pub open spec fn pixel_color(top: Option<u8>, bottom: Option<u8>, size: int, x: int, y: int) -> Rgba {
    if y == 32 && 8 <= x && x <= 56 {
        border_color()
    } else if text_lit(
        bottom_text(bottom),
        text_left(size, bottom_text(bottom).len() as int, 2),
        38,
        2,
        x,
        y,
    ) {
        bottom_color()
    } else if text_lit(top_text(top), text_left(size, top_text(top).len() as int, 2), 9, 2, x, y) {
        top_color()
    } else if x == 0 || y == 0 || x == size - 1 || y == size - 1 {
        border_color()
    } else {
        background()
    }
}

pub open spec fn channel(c: Rgba, k: int) -> u8 {
    if k == 0 {
        c.0
    } else if k == 1 {
        c.1
    } else if k == 2 {
        c.2
    } else {
        c.3
    }
}

/// Byte `i` of the image: pixels row by row, four channels each.
pub open spec fn icon_byte(top: Option<u8>, bottom: Option<u8>, size: int, i: int) -> u8 {
    let p = i / 4;
    channel(pixel_color(top, bottom, size, p % size, p / size), i % 4)
}

fn compact_percent_chars(value: Option<u8>) -> (r: Vec<char>)
    ensures
        r@ == compact_percent(value),
{
    match value {
        Some(v) => decimal_chars(v as u64),
        None => chars_of("--"),
    }
}

fn text_left_of(size: u32, len: usize, scale: u32) -> (r: u32)
    requires
        len <= 8,
        1 <= scale <= 2,
    ensures
        r == text_left(size as int, len as int, scale as int),
{
    let l = len as u32;
    let width: u32 = if l == 0 {
        0
    } else {
        assert(l * 3 * scale <= 48 && (l - 1) * scale <= 14) by (nonlinear_arith)
            requires
                1 <= l <= 8,
                1 <= scale <= 2,
        ;
        l * 3 * scale + (l - 1) * scale
    };
    if width > size {
        0
    } else {
        (size - width) / 2
    }
}

fn lit_by(text: &Vec<char>, left: u32, top: u32, scale: u32, x: u32, y: u32) -> (r: bool)
    requires
        1 <= scale <= 2,
    ensures
        r == text_lit(text@, left as int, top as int, scale as int, x as int, y as int),
{
    if x < left || y < top {
        return false;
    }
    let dx = x - left;
    let dy = y - top;
    let cell = 4 * scale;
    let index = dx / cell;
    let column = (dx % cell) / scale;
    let row = dy / scale;
    if index as usize >= text.len() || column >= 3 || row >= 5 {
        return false;
    }
    match glyph_of(text[index as usize]) {
        None => false,
        Some(rows) => {
            let bits = rows[row as usize];
            let divisor: u8 = if column == 0 {
                4
            } else if column == 1 {
                2
            } else {
                1
            };
            (bits / divisor) % 2 == 1
        },
    }
}

fn pixel_at(
    top_line: &Vec<char>,
    top_left: u32,
    bottom_line: &Vec<char>,
    bottom_left: u32,
    size: u32,
    x: u32,
    y: u32,
) -> (r: Rgba)
    requires
        1 <= size,
    ensures
        r == (if y == 32 && 8 <= x && x <= 56 {
            border_color()
        } else if text_lit(bottom_line@, bottom_left as int, 38, 2, x as int, y as int) {
            bottom_color()
        } else if text_lit(top_line@, top_left as int, 9, 2, x as int, y as int) {
            top_color()
        } else if x == 0 || y == 0 || x == size - 1 || y == size - 1 {
            border_color()
        } else {
            background()
        }),
{
    if y == 32 && 8 <= x && x <= 56 {
        (29, 42, 45, 255)
    } else if lit_by(bottom_line, bottom_left, 38, 2, x, y) {
        (155, 124, 255, 255)
    } else if lit_by(top_line, top_left, 9, 2, x, y) {
        (34, 230, 209, 255)
    } else if x == 0 || y == 0 || x == size - 1 || y == size - 1 {
        (29, 42, 45, 255)
    } else {
        (5, 7, 10, 255)
    }
}

/// Draws the icon at `size` pixels square for the short window's and the
/// weekly percentage left; sizes under 32 are refused.
pub fn render_quota_icon_rgba(top: Option<u8>, bottom: Option<u8>, size: u32) -> (r: Result<
    Vec<u8>,
    String,
>)
    requires
        size * size * 4 <= u32::MAX,
    ensures
        size < 32 ==> (r matches Err(e) && e@ == "tray icon size must be at least 32"@),
        size >= 32 ==> (r matches Ok(image) && image@.len() == size * size * 4 && forall|i: int|
            0 <= i < image@.len() ==> #[trigger] image@[i] == icon_byte(top, bottom, size as int, i)),
{
    if size < 32 {
        return Err("tray icon size must be at least 32".to_string());
    }
    let mut top_line = chars_of("5H");
    extend_chars(&mut top_line, &compact_percent_chars(top));
    let mut bottom_line = chars_of("1W");
    extend_chars(&mut bottom_line, &compact_percent_chars(bottom));
    proof {
        reveal_strlit("5H");
        reveal_strlit("1W");
        reveal_strlit("--");
        if let Some(v) = top {
            crate::text::lemma_decimal_len_below_1000(v as nat);
        }
        if let Some(v) = bottom {
            crate::text::lemma_decimal_len_below_1000(v as nat);
        }
    }
    let top_left = text_left_of(size, top_line.len(), 2);
    let bottom_left = text_left_of(size, bottom_line.len(), 2);
    let pixels: u32 = size * size;
    let mut image: Vec<u8> = Vec::new();
    let mut p: u32 = 0;
    while p < pixels
        invariant
            32 <= size,
            size * size * 4 <= u32::MAX,
            pixels == size * size,
            p <= pixels,
            image@.len() == 4 * p,
            top_line@ == top_text(top),
            bottom_line@ == bottom_text(bottom),
            top_left == text_left(size as int, top_text(top).len() as int, 2),
            bottom_left == text_left(size as int, bottom_text(bottom).len() as int, 2),
            forall|i: int|
                0 <= i < image@.len() ==> #[trigger] image@[i] == icon_byte(top, bottom, size as int, i),
        decreases pixels - p,
    {
        let x = p % size;
        let y = p / size;
        let c = pixel_at(&top_line, top_left, &bottom_line, bottom_left, size, x, y);
        let ghost before = image@;
        image.push(c.0);
        image.push(c.1);
        image.push(c.2);
        image.push(c.3);
        proof {
            assert forall|i: int| 0 <= i < image@.len() implies #[trigger] image@[i] == icon_byte(
                top,
                bottom,
                size as int,
                i,
            ) by {
                if i >= 4 * p {
                    let k = i - 4 * p;
                    assert(i / 4 == p as int && i % 4 == k) by (nonlinear_arith)
                        requires
                            i == 4 * p + k,
                            0 <= k < 4,
                    ;
                    assert(c == pixel_color(top, bottom, size as int, x as int, y as int));
                } else {
                    assert(image@[i] == before[i]);
                }
            }
        }
        p += 1;
    }
    Ok(image)
}

} // verus!
