//! Screen-capture arithmetic: the part of a window that lies on its display,
//! finding a display among the monitors by its identifier, and turning the
//! captured bitmap (bottom-up rows of BGRA pixels) into top-down RGBA.
use vstd::prelude::*;
use vstd::arithmetic::div_mod::lemma_fundamental_div_mod_converse;

verus! {

/// Position and size of a display in virtual-screen pixels.
#[derive(Debug, Clone, Copy, PartialEq, Eq, Structural)]
pub struct DisplayBounds {
    pub x: i32,
    pub y: i32,
    pub width: u32,
    pub height: u32,
}

/// A region of a display to capture, relative to the display's origin.
#[derive(Debug, Clone, Copy, PartialEq, Eq, Structural)]
pub struct CaptureArea {
    pub x: i32,
    pub y: i32,
    pub w: u32,
    pub h: u32,
}

/// Why no capture area exists.
#[derive(Debug, Clone, Copy, PartialEq, Eq, Structural)]
pub enum CaptureError {
    /// The region has no pixels on the display.
    EmptyArea,
}

/// `v` brought into `lo..=hi` from below, and from above (for `lo <= hi`).
pub open spec fn clamp_int(v: int, lo: int, hi: int) -> int {
    if v < lo {
        lo
    } else if v > hi {
        hi
    } else {
        v
    }
}

/// The clipped region, in screen coordinates, as `(x1, y1, x2, y2)`: the
/// region at `(x, y)` relative to the display, of size `w` by `h`, with its
/// near corner clamped to the display and its far corner cut at the display's
/// far edges.
pub open spec fn clipped(x: int, y: int, w: int, h: int, d: DisplayBounds) -> (int, int, int, int) {
    let sx = d.x + d.width;
    let sy = d.y + d.height;
    let x2 = x + d.x + w;
    let y2 = y + d.y + h;
    (
        clamp_int(x + d.x, d.x as int, sx),
        clamp_int(y + d.y, d.y as int, sy),
        if x2 > sx { sx } else { x2 },
        if y2 > sy { sy } else { y2 },
    )
}

/// Sums the computation meets stay within `i32`.
pub open spec fn capture_in_range(x: int, y: int, w: int, h: int, d: DisplayBounds) -> bool {
    &&& d.width <= i32::MAX && d.height <= i32::MAX
    &&& d.x + d.width <= i32::MAX && d.y + d.height <= i32::MAX
    &&& i32::MIN <= x + d.x <= i32::MAX && i32::MIN <= y + d.y <= i32::MAX
    &&& i32::MIN <= x + d.x + w <= i32::MAX && i32::MIN <= y + d.y + h <= i32::MAX
}

/// The part of the region at `(x, y)` (relative to the display) of size `w`
/// by `h` that lies on the display, relative to the display's origin; an
/// error where no pixel of it does.
pub fn calc_capture_area(x: i32, y: i32, w: i32, h: i32, display: &DisplayBounds) -> (r: Result<
    CaptureArea,
    CaptureError,
>)
    requires
        capture_in_range(x as int, y as int, w as int, h as int, *display),
    ensures
        ({
            let c = clipped(x as int, y as int, w as int, h as int, *display);
            &&& (c.0 >= c.2 || c.1 >= c.3) ==> r == Err::<CaptureArea, CaptureError>(
                CaptureError::EmptyArea,
            )
            &&& (c.0 < c.2 && c.1 < c.3) ==> r == Ok::<CaptureArea, CaptureError>(
                CaptureArea {
                    x: (c.0 - display.x) as i32,
                    y: (c.1 - display.y) as i32,
                    w: (c.2 - c.0) as u32,
                    h: (c.3 - c.1) as u32,
                },
            )
        }),
{
    let screen_x = display.x + display.width as i32;
    let screen_y = display.y + display.height as i32;
    let mut x1 = x + display.x;
    let mut y1 = y + display.y;
    let mut x2 = x1 + w;
    let mut y2 = y1 + h;
    if x1 < display.x {
        x1 = display.x;
    } else if x1 > screen_x {
        x1 = screen_x;
    }
    if y1 < display.y {
        y1 = display.y;
    } else if y1 > screen_y {
        y1 = screen_y;
    }
    if x2 > screen_x {
        x2 = screen_x;
    }
    if y2 > screen_y {
        y2 = screen_y;
    }
    if x1 >= x2 || y1 >= y2 {
        return Err(CaptureError::EmptyArea);
    }
    Ok(CaptureArea { x: x1 - display.x, y: y1 - display.y, w: (x2 - x1) as u32, h: (y2 - y1) as u32 })
}

/// Relies on `fxhash::hash32` over the bytes of a monitor's device name: the
/// hash by which display identifiers are made. It depends on the target's
/// pointer width, so nothing is stated of its value.
#[verifier::external_body]
fn device_name_hash(name: &str) -> u32 {
    fxhash::hash32(name.as_bytes())
}

/// Index of the first hash equal to `id`, or -1.
pub open spec fn first_index_of_hash(hashes: Seq<u32>, id: u32) -> int
    decreases hashes.len(),
{
    if hashes.len() == 0 {
        -1
    } else if first_index_of_hash(hashes.drop_last(), id) >= 0 {
        first_index_of_hash(hashes.drop_last(), id)
    } else if hashes.last() == id {
        hashes.len() - 1
    } else {
        -1
    }
}

/// The first of the given hashes that equals `id`.
pub fn position_of_hash(hashes: &Vec<u32>, id: u32) -> (r: Option<usize>)
    ensures
        r is None <==> first_index_of_hash(hashes@, id) < 0,
        r is Some ==> r->Some_0 == first_index_of_hash(hashes@, id) && r->Some_0 < hashes@.len(),
{
    let mut i: usize = 0;
    while i < hashes.len()
        invariant
            i <= hashes@.len(),
            first_index_of_hash(hashes@.subrange(0, i as int), id) == -1,
        decreases hashes@.len() - i,
    {
        assert(hashes@.subrange(0, i + 1).drop_last() =~= hashes@.subrange(0, i as int));
        if hashes[i] == id {
            proof {
                lemma_prefix_hash(hashes@, id, i as int);
            }
            return Some(i);
        }
        i = i + 1;
    }
    assert(hashes@.subrange(0, i as int) =~= hashes@);
    None
}

proof fn lemma_prefix_hash(s: Seq<u32>, id: u32, i: int)
    requires
        0 <= i < s.len(),
        first_index_of_hash(s.subrange(0, i + 1), id) == i,
    ensures
        first_index_of_hash(s, id) == i,
    decreases s.len() - i,
{
    if s.len() > i + 1 {
        let t = s.drop_last();
        assert(t.subrange(0, i + 1) =~= s.subrange(0, i + 1));
        lemma_prefix_hash(t, id, i);
    } else {
        assert(s.subrange(0, i + 1) =~= s);
    }
}

/// The monitor, among those named by `device_names`, whose device-name hash
/// is the display identifier `id`.
pub fn find_monitor_by_id(device_names: &Vec<String>, id: u32) -> (r: Option<usize>)
    ensures
        r is Some ==> r->Some_0 < device_names@.len(),
        device_names@.len() == 0 ==> r is None,
{
    let mut hashes: Vec<u32> = Vec::new();
    let mut i: usize = 0;
    while i < device_names.len()
        invariant
            i <= device_names@.len(),
            hashes@.len() == i,
        decreases device_names@.len() - i,
    {
        hashes.push(device_name_hash(device_names[i].as_str()));
        i = i + 1;
    }
    position_of_hash(&hashes, id)
}

/// Byte `i` of the top-down RGBA image made of `data`, `w` pixels wide and
/// `h` high, stored as bottom-up rows of BGRA pixels.
pub open spec fn rgba_byte(data: Seq<u8>, w: int, h: int, i: int) -> u8 {
    let p = i / 4;
    let k = i % 4;
    let row = p / w;
    let col = p % w;
    let channel = if k == 0 {
        2
    } else if k == 2 {
        0
    } else {
        k
    };
    data[((h - 1 - row) * w + col) * 4 + channel]
}

proof fn lemma_pixel_index(w: int, h: int, row: int, col: int, k: int)
    requires
        0 <= row < h,
        0 <= col < w,
        0 <= k < 4,
    ensures
        (4 * (row * w + col) + k) / 4 == row * w + col,
        (4 * (row * w + col) + k) % 4 == k,
        (row * w + col) / w == row,
        (row * w + col) % w == col,
        0 <= ((h - 1 - row) * w + col) * 4 + 3 < 4 * w * h,
        0 <= 4 * (row * w + col) + k < 4 * w * h,
{
    lemma_fundamental_div_mod_converse(4 * (row * w + col) + k, 4, row * w + col, k);
    lemma_fundamental_div_mod_converse(row * w + col, w, row, col);
    assert(0 <= ((h - 1 - row) * w + col) * 4 + 3 < 4 * w * h) by (nonlinear_arith)
        requires 0 <= row < h, 0 <= col < w;
    assert(0 <= 4 * (row * w + col) + k < 4 * w * h) by (nonlinear_arith)
        requires 0 <= row < h, 0 <= col < w, 0 <= k < 4;
}

/// The captured bitmap as a top-down RGBA image: rows in reverse order, and
/// blue and red swapped in each pixel.
pub fn bgra_bottom_up_to_rgba(data: &Vec<u8>, width: usize, height: usize) -> (r: Vec<u8>)
    requires
        data@.len() == 4 * width * height,
    ensures
        r@.len() == data@.len(),
        forall|i: int| 0 <= i < r@.len() ==> #[trigger] r@[i] == rgba_byte(data@, width as int, height as int, i),
{
    let ghost w = width as int;
    let ghost h = height as int;
    let total = data.len();
    let mut out: Vec<u8> = Vec::new();
    let mut row: usize = 0;
    while row < height
        invariant
            data@.len() == 4 * w * h,
            total == data@.len(),
            w == width,
            h == height,
            row <= height,
            out@.len() == 4 * row * w,
            forall|i: int| 0 <= i < out@.len() ==> #[trigger] out@[i] == rgba_byte(data@, w, h, i),
        decreases height - row,
    {
        let mut col: usize = 0;
        assert(4 * row * w == 4 * (row * w + 0)) by (nonlinear_arith);
        while col < width
            invariant
                data@.len() == 4 * w * h,
                total == data@.len(),
                w == width,
                h == height,
                row < height,
                col <= width,
                out@.len() == 4 * (row * w + col),
                forall|i: int| 0 <= i < out@.len() ==> #[trigger] out@[i] == rgba_byte(data@, w, h, i),
            decreases width - col,
        {
            proof {
                lemma_pixel_index(w, h, row as int, col as int, 0);
                lemma_pixel_index(w, h, row as int, col as int, 1);
                lemma_pixel_index(w, h, row as int, col as int, 2);
                lemma_pixel_index(w, h, row as int, col as int, 3);
            }
            assert(0 <= (h - 1 - row) * w <= (h - 1 - row) * w + col) by (nonlinear_arith)
                requires 0 <= row < h, 0 <= col < w;
            let src = ((height - 1 - row) * width + col) * 4;
            let ghost base = out@.len() as int;
            out.push(data[src + 2]);
            out.push(data[src + 1]);
            out.push(data[src]);
            out.push(data[src + 3]);
            assert forall|i: int| 0 <= i < out@.len() implies #[trigger] out@[i] == rgba_byte(
                data@,
                w,
                h,
                i,
            ) by {
                if i >= base {
                    lemma_pixel_index(w, h, row as int, col as int, i - base);
                }
            }
            col = col + 1;
        }
        assert(4 * (row * w + w) == 4 * (row + 1) * w) by (nonlinear_arith);
        row = row + 1;
    }
    assert(4 * h * w == 4 * w * h) by (nonlinear_arith);
    out
}

} // verus!
