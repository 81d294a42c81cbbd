//! A contact sheet: one row of equally wide cells separated by a fixed
//! gap, with room for a label under the tallest thumbnail, each cell
//! holding a frame's thumbnail with the boxes of its elements stroked
//! over it.  The thumbnails' heights and the boxes' pixel offsets come
//! from a floating-point scaling in the application.

use vstd::prelude::*;
use crate::error::Error;
use crate::model::ImageFormat;
use image::{ImageReader, Rgba, RgbaImage};
use std::io::Cursor;

verus! {

/// Gap in pixels around and between the cells.
pub const SHEET_GAP: u32 = 4;

/// Height in pixels reserved for the label line under the thumbnails.
pub const SHEET_LABEL_HEIGHT: u32 = 22;

/// Narrowest thumbnail the sheet draws.
pub const MIN_CELL_WIDTH: u32 = 64;

/// Width of each cell for a requested thumbnail width.
pub open spec fn spec_cell_width(thumb_width: u32) -> u32 {
    if thumb_width < MIN_CELL_WIDTH {
        MIN_CELL_WIDTH
    } else {
        thumb_width
    }
}

/// Width of each cell: the requested width, at least `MIN_CELL_WIDTH`.
pub fn cell_width(thumb_width: u32) -> (w: u32)
    ensures
        w == spec_cell_width(thumb_width),
{
    if thumb_width < MIN_CELL_WIDTH {
        MIN_CELL_WIDTH
    } else {
        thumb_width
    }
}

/// The largest of `hs` (zero for none).
pub open spec fn max_height(hs: Seq<u32>) -> u32
    decreases hs.len(),
{
    if hs.len() == 0 {
        0
    } else {
        let rest = max_height(hs.drop_last());
        if hs.last() > rest {
            hs.last()
        } else {
            rest
        }
    }
}

/// Width of a sheet of `n` cells of width `cw`.
pub open spec fn sheet_width(cw: int, n: int) -> int {
    cw * n + SHEET_GAP * (n + 1)
}

/// Where the cells and the sheet's edges fall.
#[derive(Debug, Clone)]
pub struct SheetGeometry {
    pub width: u32,
    pub height: u32,
    /// Left edge of each cell; every cell's top edge is `SHEET_GAP`.
    pub cell_x: Vec<u32>,
}

/// The geometry of a sheet of cells `cw` wide holding thumbnails of the
/// given heights: the gap before, between and after the cells, and the
/// label line and a gap above and below the tallest thumbnail.
pub fn sheet_geometry(cw: u32, thumb_heights: &Vec<u32>) -> (g: SheetGeometry)
    requires
        sheet_width(cw as int, thumb_heights@.len() as int) <= u32::MAX,
        max_height(thumb_heights@) + SHEET_LABEL_HEIGHT + 2 * SHEET_GAP <= u32::MAX,
    ensures
        g.width == sheet_width(cw as int, thumb_heights@.len() as int),
        g.height == max_height(thumb_heights@) + SHEET_LABEL_HEIGHT + 2 * SHEET_GAP,
        g.cell_x@.len() == thumb_heights@.len(),
        forall|i: int| 0 <= i < thumb_heights@.len() ==> #[trigger] g.cell_x@[i] == SHEET_GAP + (cw + SHEET_GAP) * i,
{
    let n = thumb_heights.len();
    let mut tallest: u32 = 0;
    let mut xs: Vec<u32> = Vec::new();
    let mut x: u32 = SHEET_GAP;
    let mut i: usize = 0;
    while i < n
        invariant
            n == thumb_heights@.len(),
            i <= n,
            tallest == max_height(thumb_heights@.subrange(0, i as int)),
            xs@.len() == i,
            x == SHEET_GAP + (cw + SHEET_GAP) * i,
            sheet_width(cw as int, n as int) <= u32::MAX,
            forall|k: int| 0 <= k < i ==> #[trigger] xs@[k] == SHEET_GAP + (cw + SHEET_GAP) * k,
        decreases n - i,
    {
        proof {
            let pre = thumb_heights@.subrange(0, i + 1);
            assert(pre.drop_last() =~= thumb_heights@.subrange(0, i as int));
            assert((cw + SHEET_GAP) * (i + 1) == (cw + SHEET_GAP) * i + cw + SHEET_GAP) by (nonlinear_arith);
            assert(sheet_width(cw as int, n as int) == (cw + SHEET_GAP) * n + SHEET_GAP) by (nonlinear_arith);
            assert((cw + SHEET_GAP) * (i + 1) <= (cw + SHEET_GAP) * n) by (nonlinear_arith)
                requires
                    i < n,
            ;
        }
        xs.push(x);
        let h = thumb_heights[i];
        if h > tallest {
            tallest = h;
        }
        x = x + cw + SHEET_GAP;
        i = i + 1;
    }
    proof {
        assert(thumb_heights@.subrange(0, n as int) =~= thumb_heights@);
        assert(sheet_width(cw as int, n as int) == (cw + SHEET_GAP) * n + SHEET_GAP) by (nonlinear_arith);
    }
    let width = x;
    SheetGeometry { width, height: tallest + SHEET_LABEL_HEIGHT + 2 * SHEET_GAP, cell_x: xs }
}

/// At most this many boxes are stroked over each thumbnail.
pub const MAX_BOXES: usize = 48;

pub proof fn lemma_max_height_bounds(hs: Seq<u32>, i: int)
    requires
        0 <= i < hs.len(),
    ensures
        hs[i] <= max_height(hs),
    decreases hs.len(),
{
    if i < hs.len() - 1 {
        lemma_max_height_bounds(hs.drop_last(), i);
    }
}

/// Left edge of cell `i`.
pub open spec fn cell_left(cw: u32, i: int) -> int {
    SHEET_GAP + (cw + SHEET_GAP) * i
}

/// `(x, y)` lies on the two-pixel stroke of the box `r` = (left, top,
/// right, bottom), drawn inward from each edge.
pub open spec fn on_stroke(x: int, y: int, r: (int, int, int, int)) -> bool {
    ||| r.0 <= x <= r.2 && (y == r.1 || y == r.1 + 1 || y == r.3 || y == r.3 - 1)
    ||| r.1 <= y <= r.3 && (x == r.0 || x == r.0 + 1 || x == r.2 || x == r.2 - 1)
}

/// `(x, y)` is a stroke pixel of the box `o` (offsets from the cell's
/// origin) inside the cell at `left` that is `cw` wide and `h` high.
pub open spec fn stroke_in_cell(left: int, cw: int, h: int, o: (i64, i64, i64, i64), x: int, y: int) -> bool {
    &&& left <= x < left + cw
    &&& SHEET_GAP <= y < SHEET_GAP + h
    &&& on_stroke(x, y, (left + o.0, SHEET_GAP + o.1, left + o.2, SHEET_GAP + o.3))
}

/// The pixels painted in the stroke colour: the stroke pixels, clipped to
/// their cell, of the first `MAX_BOXES` boxes of every cell.
pub open spec fn stroke_marks(cw: u32, heights: Seq<u32>, boxes: Seq<Seq<(i64, i64, i64, i64)>>) -> Set<(u32, u32)> {
    Set::new(
        |p: (u32, u32)|
            exists|i: int, k: int|
                0 <= i < heights.len() && 0 <= k < boxes[i].len() && k < MAX_BOXES && #[trigger] stroke_in_cell(
                    cell_left(cw, i),
                    cw as int,
                    heights[i] as int,
                    boxes[i][k],
                    p.0 as int,
                    p.1 as int,
                ),
    )
}

proof fn lemma_push_contains(s: Seq<(u32, u32)>, v: (u32, u32))
    ensures
        forall|p: (u32, u32)| #[trigger] s.push(v).contains(p) <==> s.contains(p) || p == v,
{
    assert forall|p: (u32, u32)| #[trigger] s.push(v).contains(p) <==> s.contains(p) || p == v by {
        if s.contains(p) {
            let j = choose|j: int| 0 <= j < s.len() && s[j] == p;
            assert(s.push(v)[j] == p);
        }
        if p == v {
            assert(s.push(v)[s.len() as int] == v);
        }
        if s.push(v).contains(p) {
            let j = choose|j: int| 0 <= j < s.push(v).len() && s.push(v)[j] == p;
            if j < s.len() {
                assert(s[j] == p);
            }
        }
    }
}

/// All marks lie inside a `w` x `h` canvas.
pub open spec fn marks_inside(m: Seq<(u32, u32)>, w: int, h: int) -> bool {
    forall|k: int| 0 <= k < m.len() ==> (#[trigger] m[k]).0 < w && m[k].1 < h
}

/// Marks the pixels `(x, y)` with `lo <= x <= hi` and `x` in the cell
/// `[left, left + cw)`, when `y` is in `[top, top + h)`.
fn mark_row(marks: &mut Vec<(u32, u32)>, y: i128, lo: i128, hi: i128, left: u32, cw: u32, h: u32, wb: u32, hb: u32)
    requires
        left + cw <= wb,
        SHEET_GAP + h <= hb,
        marks_inside(old(marks)@, wb as int, hb as int),
    ensures
        marks_inside(final(marks)@, wb as int, hb as int),
        forall|p: (u32, u32)| #[trigger] final(marks)@.contains(p) <==> old(marks)@.contains(p) || (p.1 == y && SHEET_GAP <= y
            < SHEET_GAP + h && lo <= p.0 <= hi && left <= p.0 < left + cw),
{
    if y < SHEET_GAP as i128 || y >= (SHEET_GAP + h) as i128 {
        return;
    }
    let start: i128 = if lo > left as i128 { lo } else { left as i128 };
    let end: i128 = if hi < (left + cw) as i128 { hi + 1 } else { (left + cw) as i128 };
    let mut x: i128 = start;
    while x < end
        invariant
            start <= x,
            x <= end || x == start,
            start == (if lo > left { lo as int } else { left as int }),
            end == (if hi < left + cw { hi + 1 } else { left + cw }),
            left + cw <= wb,
            SHEET_GAP <= y < SHEET_GAP + h,
            SHEET_GAP + h <= hb,
            marks_inside(marks@, wb as int, hb as int),
            forall|p: (u32, u32)| #[trigger] marks@.contains(p) <==> old(marks)@.contains(p) || (p.1 == y && start
                <= p.0 < x),
        decreases end - x,
    {
        let ghost before = marks@;
        marks.push((x as u32, y as u32));
        proof {
            lemma_push_contains(before, (x as u32, y as u32));
        }
        x = x + 1;
    }
    assert forall|p: (u32, u32)| #[trigger] marks@.contains(p) <==> old(marks)@.contains(p) || (p.1 == y && SHEET_GAP <= y
        < SHEET_GAP + h && lo <= p.0 <= hi && left <= p.0 < left + cw) by {
        if start <= p.0 < x {
        }
    }
}

/// Marks the pixels `(x, y)` with `lo <= y <= hi` and `y` in the cell
/// `[top, top + h)`, when `x` is in `[left, left + cw)`.
fn mark_column(marks: &mut Vec<(u32, u32)>, x: i128, lo: i128, hi: i128, left: u32, cw: u32, h: u32, wb: u32, hb: u32)
    requires
        left + cw <= wb,
        SHEET_GAP + h <= hb,
        marks_inside(old(marks)@, wb as int, hb as int),
    ensures
        marks_inside(final(marks)@, wb as int, hb as int),
        forall|p: (u32, u32)| #[trigger] final(marks)@.contains(p) <==> old(marks)@.contains(p) || (p.0 == x && left <= x
            < left + cw && lo <= p.1 <= hi && SHEET_GAP <= p.1 < SHEET_GAP + h),
{
    if x < left as i128 || x >= (left + cw) as i128 {
        return;
    }
    let start: i128 = if lo > SHEET_GAP as i128 { lo } else { SHEET_GAP as i128 };
    let end: i128 = if hi < (SHEET_GAP + h) as i128 { hi + 1 } else { (SHEET_GAP + h) as i128 };
    let mut y: i128 = start;
    while y < end
        invariant
            start <= y,
            y <= end || y == start,
            start == (if lo > SHEET_GAP { lo as int } else { SHEET_GAP as int }),
            end == (if hi < SHEET_GAP + h { hi + 1 } else { SHEET_GAP + h }),
            left <= x < left + cw,
            left + cw <= wb,
            SHEET_GAP + h <= hb,
            marks_inside(marks@, wb as int, hb as int),
            forall|p: (u32, u32)| #[trigger] marks@.contains(p) <==> old(marks)@.contains(p) || (p.0 == x && start
                <= p.1 < y),
        decreases end - y,
    {
        let ghost before = marks@;
        marks.push((x as u32, y as u32));
        proof {
            lemma_push_contains(before, (x as u32, y as u32));
        }
        y = y + 1;
    }
    assert forall|p: (u32, u32)| #[trigger] marks@.contains(p) <==> old(marks)@.contains(p) || (p.0 == x && left <= x
        < left + cw && lo <= p.1 <= hi && SHEET_GAP <= p.1 < SHEET_GAP + h) by {
        if start <= p.1 < y {
        }
    }
}

/// Marks the stroke of the box `o` in the cell at `left`.
fn mark_box(marks: &mut Vec<(u32, u32)>, o: (i64, i64, i64, i64), left: u32, cw: u32, h: u32, wb: u32, hb: u32)
    requires
        left + cw <= wb,
        SHEET_GAP + h <= hb,
        marks_inside(old(marks)@, wb as int, hb as int),
    ensures
        marks_inside(final(marks)@, wb as int, hb as int),
        forall|p: (u32, u32)| #[trigger] final(marks)@.contains(p) <==> old(marks)@.contains(p) || stroke_in_cell(
            left as int,
            cw as int,
            h as int,
            o,
            p.0 as int,
            p.1 as int,
        ),
{
    let x0: i128 = left as i128 + o.0 as i128;
    let y0: i128 = SHEET_GAP as i128 + o.1 as i128;
    let x1: i128 = left as i128 + o.2 as i128;
    let y1: i128 = SHEET_GAP as i128 + o.3 as i128;
    let ghost m0 = marks@;
    mark_row(marks, y0, x0, x1, left, cw, h, wb, hb);
    mark_row(marks, y0 + 1, x0, x1, left, cw, h, wb, hb);
    mark_row(marks, y1, x0, x1, left, cw, h, wb, hb);
    mark_row(marks, y1 - 1, x0, x1, left, cw, h, wb, hb);
    mark_column(marks, x0, y0, y1, left, cw, h, wb, hb);
    mark_column(marks, x0 + 1, y0, y1, left, cw, h, wb, hb);
    mark_column(marks, x1, y0, y1, left, cw, h, wb, hb);
    mark_column(marks, x1 - 1, y0, y1, left, cw, h, wb, hb);
}

/// RGBA bytes of the picture in `bytes` decoded as `format` and resized
/// to exactly `width` x `height`; `None` when it does not decode.
pub uninterp spec fn thumbnail_pixels(bytes: Seq<u8>, format: ImageFormat, width: u32, height: u32) -> Option<Seq<u8>>;

/// PNG bytes of a `width` x `height` RGBA canvas filled with `background`,
/// with each cell `(x, y, w, h, pixels)` laid over it at `(x, y)` (alpha
/// blended) and every pixel of `marks` set to `stroke`; `None` when the
/// encoder fails.
pub uninterp spec fn composed_png(
    width: u32,
    height: u32,
    background: Seq<u8>,
    cells: Seq<(u32, u32, u32, u32, Seq<u8>)>,
    marks: Set<(u32, u32)>,
    stroke: Seq<u8>,
) -> Option<Seq<u8>>;

pub open spec fn cell_views(c: Seq<(u32, u32, u32, u32, Vec<u8>)>) -> Seq<(u32, u32, u32, u32, Seq<u8>)> {
    c.map_values(|e: (u32, u32, u32, u32, Vec<u8>)| (e.0, e.1, e.2, e.3, e.4@))
}

/// Every cell's buffer holds exactly four bytes per pixel.
pub open spec fn cells_fit(c: Seq<(u32, u32, u32, u32, Seq<u8>)>) -> bool {
    forall|k: int| 0 <= k < c.len() ==> (#[trigger] c[k]).4.len() == 4 * c[k].2 * c[k].3
}

/// Decodes a frame and resizes it to a thumbnail.
///
/// Calls `image::ImageReader::with_format(..).decode()`, then
/// `thumbnail_exact(width, height)`, `to_rgba8` and `into_raw`.  The
/// contract ties the result to `thumbnail_pixels` of the arguments and
/// states the buffer's length, which `thumbnail_exact` fixes; the error is
/// the decoder's message.
#[verifier::external_body]
fn thumbnail_rgba(bytes: &[u8], format: ImageFormat, width: u32, height: u32) -> (r: Result<Vec<u8>, String>)
    requires
        4 * width * height <= usize::MAX,
    ensures
        match r {
            Ok(px) => thumbnail_pixels(bytes@, format, width, height) == Some(px@) && px@.len() == 4 * width * height,
            Err(_) => thumbnail_pixels(bytes@, format, width, height) is None,
        },
{
    let f = if let ImageFormat::Png = format { image::ImageFormat::Png } else { image::ImageFormat::Jpeg };
    let img = ImageReader::with_format(Cursor::new(bytes), f).decode().map_err(|e| e.to_string())?;
    Ok(img.thumbnail_exact(width, height).to_rgba8().into_raw())
}

/// Composes the sheet and encodes it as PNG.
///
/// Builds the canvas with `RgbaImage::from_pixel`, lays each cell over it
/// with `image::imageops::overlay` (after `RgbaImage::from_raw`, which the
/// exact buffer lengths satisfy), sets the marks with `put_pixel` (all
/// inside the canvas) and encodes with `write_to` as PNG.  The contract
/// ties the result to `composed_png` of the arguments; the error is the
/// encoder's message.
#[verifier::external_body]
fn compose_png(
    width: u32,
    height: u32,
    background: [u8; 4],
    cells: &Vec<(u32, u32, u32, u32, Vec<u8>)>,
    marks: &Vec<(u32, u32)>,
    stroke: [u8; 4],
) -> (r: Result<Vec<u8>, String>)
    requires
        4 * width * height <= usize::MAX,
        cells_fit(cell_views(cells@)),
        marks_inside(marks@, width as int, height as int),
    ensures
        match r {
            Ok(b) => composed_png(width, height, background@, cell_views(cells@), marks@.to_set(), stroke@) == Some(b@),
            Err(_) => composed_png(width, height, background@, cell_views(cells@), marks@.to_set(), stroke@) is None,
        },
{
    let mut sheet = RgbaImage::from_pixel(width, height, Rgba(background));
    for (x, y, w, h, px) in cells {
        let top = RgbaImage::from_raw(*w, *h, px.clone()).unwrap();
        image::imageops::overlay(&mut sheet, &top, *x as i64, *y as i64);
    }
    for (x, y) in marks {
        sheet.put_pixel(*x, *y, Rgba(stroke));
    }
    let mut buf: Vec<u8> = Vec::new();
    sheet.write_to(&mut Cursor::new(&mut buf), image::ImageFormat::Png).map_err(|e| e.to_string())?;
    Ok(buf)
}

/// Colour of the sheet's background.
pub open spec fn background_rgba() -> Seq<u8> {
    seq![20u8, 20u8, 24u8, 255u8]
}

/// Colour of the box strokes.
pub open spec fn stroke_rgba() -> Seq<u8> {
    seq![60u8, 230u8, 120u8, 255u8]
}

fn background_colour() -> (c: [u8; 4])
    ensures
        c@ == background_rgba(),
{
    let c: [u8; 4] = [20, 20, 24, 255];
    assert(c@ =~= background_rgba());
    c
}

fn stroke_colour() -> (c: [u8; 4])
    ensures
        c@ == stroke_rgba(),
{
    let c: [u8; 4] = [60, 230, 120, 255];
    assert(c@ =~= stroke_rgba());
    c
}

pub open spec fn box_views(b: Seq<Vec<(i64, i64, i64, i64)>>) -> Seq<Seq<(i64, i64, i64, i64)>> {
    b.map_values(|v: Vec<(i64, i64, i64, i64)>| v@)
}

/// Height of the sheet for thumbnails of the given heights.
pub open spec fn sheet_height(heights: Seq<u32>) -> int {
    max_height(heights) + SHEET_LABEL_HEIGHT + 2 * SHEET_GAP
}

/// The sheet's dimensions fit a `u32` each and its RGBA buffer fits in
/// memory.
pub open spec fn sheet_fits(cw: u32, heights: Seq<u32>) -> bool {
    &&& sheet_width(cw as int, heights.len() as int) <= u32::MAX
    &&& sheet_height(heights) <= u32::MAX
    &&& 4 * sheet_width(cw as int, heights.len() as int) * sheet_height(heights) <= usize::MAX
}

/// Every frame decodes.
pub open spec fn all_thumbnails(frames: Seq<Seq<u8>>, formats: Seq<ImageFormat>, cw: u32, heights: Seq<u32>) -> bool {
    forall|i: int| 0 <= i < heights.len() ==> #[trigger] thumbnail_pixels(frames[i], formats[i], cw, heights[i]) is Some
}

/// The cells of the sheet: each frame's thumbnail at its cell's origin.
pub open spec fn placed_cells(frames: Seq<Seq<u8>>, formats: Seq<ImageFormat>, cw: u32, heights: Seq<u32>) -> Seq<
    (u32, u32, u32, u32, Seq<u8>),
> {
    Seq::new(
        heights.len(),
        |i: int| (cell_left(cw, i) as u32, SHEET_GAP, cw, heights[i], thumbnail_pixels(frames[i], formats[i], cw, heights[i])->0),
    )
}

/// `p` is on a stroke of box `b` of cell `a` for a cell before `i`, or for
/// cell `i` and a box before `k`.
pub open spec fn marked_before(
    cw: u32,
    heights: Seq<u32>,
    boxes: Seq<Seq<(i64, i64, i64, i64)>>,
    i: int,
    k: int,
    p: (u32, u32),
) -> bool {
    exists|a: int, b: int|
        0 <= a < heights.len() && 0 <= b < boxes[a].len() && b < MAX_BOXES && (a < i || (a == i && b < k))
            && #[trigger] stroke_in_cell(cell_left(cw, a), cw as int, heights[a] as int, boxes[a][b], p.0 as int, p.1 as int)
}

/// The contact sheet of encoded frames (`formats[i]` is the format of
/// `frames[i]`): each frame is decoded and resized to `cell_w` x
/// `heights[i]`, laid into its cell, and the first `MAX_BOXES` boxes of
/// `boxes[i]` (pixel offsets from the cell's origin: left, top, right,
/// bottom) are stroked over it, clipped to the cell.  Returns the sheet's
/// geometry and its PNG bytes.  Fails with an invalid-argument error on
/// an empty list, on a frame that does not decode, and when the encoder
/// fails.
pub fn contact_sheet_png(
    frames: &Vec<Vec<u8>>,
    formats: &Vec<ImageFormat>,
    cell_w: u32,
    heights: &Vec<u32>,
    boxes: &Vec<Vec<(i64, i64, i64, i64)>>,
) -> (r: Result<(SheetGeometry, Vec<u8>), Error>)
    requires
        formats@.len() == frames@.len(),
        heights@.len() == frames@.len(),
        boxes@.len() == frames@.len(),
        sheet_fits(cell_w, heights@),
    ensures
        frames@.len() == 0 ==> (r matches Err(Error::InvalidArgument(m)) && m@
            == "contact_sheet requires at least one frame"@),
        frames@.len() > 0 && !all_thumbnails(frames@.map_values(|f: Vec<u8>| f@), formats@, cell_w, heights@) ==> (
        r matches Err(Error::InvalidArgument(m)) && exists|msg: Seq<char>| m@ == "decode frame: "@ + msg),
        frames@.len() > 0 && all_thumbnails(frames@.map_values(|f: Vec<u8>| f@), formats@, cell_w, heights@) ==> match composed_png(
            sheet_width(cell_w as int, heights@.len() as int) as u32,
            sheet_height(heights@) as u32,
            background_rgba(),
            placed_cells(frames@.map_values(|f: Vec<u8>| f@), formats@, cell_w, heights@),
            stroke_marks(cell_w, heights@, box_views(boxes@)),
            stroke_rgba(),
        ) {
            Some(b) => (r matches Ok((g, v)) && v@ == b && g.width == sheet_width(cell_w as int, heights@.len() as int)
                && g.height == sheet_height(heights@) && g.cell_x@.len() == heights@.len() && forall|i: int|
                0 <= i < heights@.len() ==> #[trigger] g.cell_x@[i] == cell_left(cell_w, i)),
            None => (r matches Err(Error::InvalidArgument(m)) && exists|msg: Seq<char>| m@ == "encode contact sheet: "@
                + msg),
        },
{
    proof {
        reveal_strlit("contact_sheet requires at least one frame");
        reveal_strlit("decode frame: ");
        reveal_strlit("encode contact sheet: ");
    }
    let n = frames.len();
    if n == 0 {
        return Err(Error::invalid(String::from_str("contact_sheet requires at least one frame")));
    }
    let ghost fv = frames@.map_values(|f: Vec<u8>| f@);
    let ghost bv = box_views(boxes@);
    let ghost hs = heights@;
    let geo = sheet_geometry(cell_w, heights);
    let wb = geo.width;
    let hb = geo.height;
    let mut cells: Vec<(u32, u32, u32, u32, Vec<u8>)> = Vec::new();
    let mut marks: Vec<(u32, u32)> = Vec::new();
    let mut i: usize = 0;
    while i < n
        invariant
            n == frames@.len(),
            n == formats@.len(),
            n == heights@.len(),
            n == boxes@.len(),
            hs == heights@,
            fv == frames@.map_values(|f: Vec<u8>| f@),
            bv == box_views(boxes@),
            sheet_fits(cell_w, hs),
            wb == sheet_width(cell_w as int, n as int),
            hb == sheet_height(hs),
            geo.cell_x@.len() == n,
            forall|j: int| 0 <= j < n ==> #[trigger] geo.cell_x@[j] == cell_left(cell_w, j),
            i <= n,
            cells@.len() == i,
            forall|j: int| 0 <= j < i ==> #[trigger] thumbnail_pixels(fv[j], formats@[j], cell_w, hs[j]) is Some,
            forall|j: int| 0 <= j < i ==> #[trigger] cell_views(cells@)[j] == placed_cells(fv, formats@, cell_w, hs)[j],
            cells_fit(cell_views(cells@)),
            marks_inside(marks@, wb as int, hb as int),
            forall|p: (u32, u32)| #[trigger] marks@.contains(p) <==> marked_before(cell_w, hs, bv, i as int, 0, p),
        decreases n - i,
    {
        let left = geo.cell_x[i];
        let h = heights[i];
        proof {
            lemma_max_height_bounds(hs, i as int);
            assert((cell_w + SHEET_GAP) * (i + 1) <= (cell_w + SHEET_GAP) * n) by (nonlinear_arith)
                requires
                    i < n,
            ;
            assert((cell_w + SHEET_GAP) * (i + 1) == (cell_w + SHEET_GAP) * i + cell_w + SHEET_GAP) by (nonlinear_arith);
            assert(sheet_width(cell_w as int, n as int) == (cell_w + SHEET_GAP) * n + SHEET_GAP) by (nonlinear_arith);
            assert(left + cell_w <= wb);
            assert(SHEET_GAP + h <= hb);
            assert(4 * cell_w * h <= 4 * wb * hb) by (nonlinear_arith)
                requires
                    cell_w <= wb,
                    h <= hb,
            ;
        }
        let bytes = frames[i].as_slice();
        assert(bytes@ == fv[i as int]);
        match thumbnail_rgba(bytes, formats[i], cell_w, h) {
            Err(msg) => {
                let mut m = String::from_str("decode frame: ");
                m.append(msg.as_str());
                assert(m@ =~= "decode frame: "@ + msg@);
                return Err(Error::invalid(m));
            },
            Ok(px) => {
                let ghost before = cells@;
                cells.push((left, SHEET_GAP, cell_w, h, px));
                proof {
                    assert forall|j: int| 0 <= j < i + 1 implies #[trigger] cell_views(cells@)[j] == placed_cells(
                        fv,
                        formats@,
                        cell_w,
                        hs,
                    )[j] by {
                        if j < i {
                            assert(cell_views(cells@)[j] == cell_views(before)[j]);
                        }
                    }
                    assert forall|j: int| 0 <= j < i + 1 implies (#[trigger] cell_views(cells@)[j]).4.len() == 4
                        * cell_views(cells@)[j].2 * cell_views(cells@)[j].3 by {
                        if j < i {
                            assert(cell_views(cells@)[j] == cell_views(before)[j]);
                        }
                    }
                }
            },
        }
        let nb: usize = if boxes[i].len() < MAX_BOXES {
            boxes[i].len()
        } else {
            MAX_BOXES
        };
        let mut k: usize = 0;
        while k < nb
            invariant
                i < n,
                n == boxes@.len(),
                n == heights@.len(),
                hs == heights@,
                bv == box_views(boxes@),
                h == hs[i as int],
                left == cell_left(cell_w, i as int),
                left + cell_w <= wb,
                SHEET_GAP + h <= hb,
                nb <= boxes@[i as int]@.len(),
                nb <= MAX_BOXES,
                nb == boxes@[i as int]@.len() || nb == MAX_BOXES,
                k <= nb,
                marks_inside(marks@, wb as int, hb as int),
                forall|p: (u32, u32)| #[trigger] marks@.contains(p) <==> marked_before(cell_w, hs, bv, i as int, k as int, p),
            decreases nb - k,
        {
            let o = boxes[i][k];
            let ghost before = marks@;
            mark_box(&mut marks, o, left, cell_w, h, wb, hb);
            proof {
                assert(bv[i as int][k as int] == o);
                assert forall|p: (u32, u32)| #[trigger] marks@.contains(p) <==> marked_before(
                    cell_w,
                    hs,
                    bv,
                    i as int,
                    k + 1,
                    p,
                ) by {
                    if marked_before(cell_w, hs, bv, i as int, k + 1, p) {
                        let (a, b) = choose|a: int, b: int|
                            0 <= a < hs.len() && 0 <= b < bv[a].len() && b < MAX_BOXES && (a < i || (a == i && b < k + 1))
                                && #[trigger] stroke_in_cell(cell_left(cell_w, a), cell_w as int, hs[a] as int, bv[a][b], p.0 as int, p.1 as int);
                        if !(a == i && b == k) {
                            assert(marked_before(cell_w, hs, bv, i as int, k as int, p));
                        }
                    }
                    if before.contains(p) {
                        let (a, b) = choose|a: int, b: int|
                            0 <= a < hs.len() && 0 <= b < bv[a].len() && b < MAX_BOXES && (a < i || (a == i && b < k))
                                && #[trigger] stroke_in_cell(cell_left(cell_w, a), cell_w as int, hs[a] as int, bv[a][b], p.0 as int, p.1 as int);
                        assert(marked_before(cell_w, hs, bv, i as int, k + 1, p));
                    }
                    if stroke_in_cell(left as int, cell_w as int, h as int, o, p.0 as int, p.1 as int) {
                        assert(stroke_in_cell(cell_left(cell_w, i as int), cell_w as int, hs[i as int] as int, bv[i as int][k as int], p.0 as int, p.1 as int));
                        assert(marked_before(cell_w, hs, bv, i as int, k + 1, p));
                    }
                }
            }
            k = k + 1;
        }
        proof {
            assert forall|p: (u32, u32)| #[trigger] marks@.contains(p) <==> marked_before(cell_w, hs, bv, i + 1, 0, p) by {
                if marked_before(cell_w, hs, bv, i + 1, 0, p) {
                    let (a, b) = choose|a: int, b: int|
                        0 <= a < hs.len() && 0 <= b < bv[a].len() && b < MAX_BOXES && (a < i + 1 || (a == i + 1 && b < 0))
                            && #[trigger] stroke_in_cell(cell_left(cell_w, a), cell_w as int, hs[a] as int, bv[a][b], p.0 as int, p.1 as int);
                    assert(marked_before(cell_w, hs, bv, i as int, nb as int, p));
                }
                if marked_before(cell_w, hs, bv, i as int, nb as int, p) {
                    let (a, b) = choose|a: int, b: int|
                        0 <= a < hs.len() && 0 <= b < bv[a].len() && b < MAX_BOXES && (a < i || (a == i && b < nb))
                            && #[trigger] stroke_in_cell(cell_left(cell_w, a), cell_w as int, hs[a] as int, bv[a][b], p.0 as int, p.1 as int);
                    assert(marked_before(cell_w, hs, bv, i + 1, 0, p));
                }
            }
        }
        i = i + 1;
    }
    proof {
        assert(cell_views(cells@) =~= placed_cells(fv, formats@, cell_w, hs));
        assert(marks@.to_set() =~= stroke_marks(cell_w, hs, bv)) by {
            assert forall|p: (u32, u32)| marks@.to_set().contains(p) <==> stroke_marks(cell_w, hs, bv).contains(p) by {
                if marked_before(cell_w, hs, bv, n as int, 0, p) {
                    let (a, b) = choose|a: int, b: int|
                        0 <= a < hs.len() && 0 <= b < bv[a].len() && b < MAX_BOXES && (a < n || (a == n && b < 0))
                            && #[trigger] stroke_in_cell(cell_left(cell_w, a), cell_w as int, hs[a] as int, bv[a][b], p.0 as int, p.1 as int);
                    assert(stroke_marks(cell_w, hs, bv).contains(p));
                }
                if stroke_marks(cell_w, hs, bv).contains(p) {
                    let (a, b) = choose|a: int, b: int|
                        0 <= a < hs.len() && 0 <= b < bv[a].len() && b < MAX_BOXES && #[trigger] stroke_in_cell(
                            cell_left(cell_w, a),
                            cell_w as int,
                            hs[a] as int,
                            bv[a][b],
                            p.0 as int,
                            p.1 as int,
                        );
                    assert(marked_before(cell_w, hs, bv, n as int, 0, p));
                }
            }
        }
    }
    let png = compose_png(wb, hb, background_colour(), &cells, &marks, stroke_colour());
    match png {
        Ok(b) => Ok((geo, b)),
        Err(msg) => {
            let mut m = String::from_str("encode contact sheet: ");
            m.append(msg.as_str());
            assert(m@ =~= "encode contact sheet: "@ + msg@);
            Err(Error::invalid(m))
        },
    }
}

} // verus!
