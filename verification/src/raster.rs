//! Measuring the drawn content of a rasterised icon.
use vstd::prelude::*;

verus! {

/// The alpha byte of pixel (`x`, `y`) in a `w`-pixel-wide RGBA buffer.
pub open spec fn alpha_at(data: Seq<u8>, w: nat, x: nat, y: nat) -> u8 {
    data[((y * w + x) * 4 + 3) as int]
}

/// A pixel counts as drawn when its alpha is above 8.
pub open spec fn drawn(data: Seq<u8>, w: nat, h: nat, x: nat, y: nat) -> bool {
    x < w && y < h && alpha_at(data, w, x, y) > 8
}

pub open spec fn any_drawn(data: Seq<u8>, w: nat, h: nat) -> bool {
    exists|x: nat, y: nat| #[trigger] drawn(data, w, h, x, y)
}

/// `(minx, miny, maxx, maxy)` is the tight inclusive box of the drawn pixels.
pub open spec fn is_content_box(data: Seq<u8>, w: nat, h: nat, b: (u32, u32, u32, u32)) -> bool {
    &&& forall|x: nat, y: nat|
        #[trigger] drawn(data, w, h, x, y) ==> b.0 <= x <= b.2 && b.1 <= y <= b.3
    &&& exists|y: nat| #[trigger] drawn(data, w, h, b.0 as nat, y)
    &&& exists|y: nat| #[trigger] drawn(data, w, h, b.2 as nat, y)
    &&& exists|x: nat| #[trigger] drawn(data, w, h, x, b.1 as nat)
    &&& exists|x: nat| #[trigger] drawn(data, w, h, x, b.3 as nat)
}

proof fn lemma_index_in_range(w: nat, h: nat, x: nat, y: nat)
    requires
        x < w,
        y < h,
    ensures
        (y * w + x) * 4 + 3 < w * h * 4,
{
    assert(y * w + x < w * h) by (nonlinear_arith)
        requires
            x < w,
            y < h,
    ;
    assert((y * w + x) * 4 + 3 < w * h * 4) by (nonlinear_arith)
        requires
            y * w + x < w * h,
    ;
}

/// Bounding box (inclusive, in pixels) of the non-transparent content of a
/// premultiplied RGBA buffer `w` pixels wide and `h` high, or `None` when no
/// pixel has an alpha above 8.
pub fn alpha_bbox(data: &[u8], w: u32, h: u32) -> (r: Option<(u32, u32, u32, u32)>)
    requires
        w * h * 4 <= 0x1_0000_0000,
        data@.len() >= w * h * 4,
    ensures
        r is None <==> !any_drawn(data@, w as nat, h as nat),
        r matches Some(b) ==> is_content_box(data@, w as nat, h as nat, b),
{
    let ghost d = data@;
    let (mut minx, mut miny, mut maxx, mut maxy) = (w, h, 0u32, 0u32);
    let mut any = false;
    let mut y: u32 = 0;
    while y < h
        invariant
            y <= h,
            w * h * 4 <= 0x1_0000_0000,
            d.len() >= w * h * 4,
            d == data@,
            any <==> exists|x: nat, yy: nat| yy < y && #[trigger] drawn(d, w as nat, h as nat, x, yy),
            forall|x: nat, yy: nat|
                yy < y && #[trigger] drawn(d, w as nat, h as nat, x, yy) ==> minx <= x <= maxx && miny
                    <= yy <= maxy,
            any ==> exists|yy: nat| #[trigger] drawn(d, w as nat, h as nat, minx as nat, yy),
            any ==> exists|yy: nat| #[trigger] drawn(d, w as nat, h as nat, maxx as nat, yy),
            any ==> exists|x: nat| #[trigger] drawn(d, w as nat, h as nat, x, miny as nat),
            any ==> exists|x: nat| #[trigger] drawn(d, w as nat, h as nat, x, maxy as nat),
        decreases h - y,
    {
        let mut x: u32 = 0;
        while x < w
            invariant
                x <= w,
                y < h,
                w * h * 4 <= 0x1_0000_0000,
                d.len() >= w * h * 4,
                d == data@,
                any <==> exists|xx: nat, yy: nat|
                    (yy < y || (yy == y && xx < x)) && #[trigger] drawn(d, w as nat, h as nat, xx, yy),
                forall|xx: nat, yy: nat|
                    (yy < y || (yy == y && xx < x)) && #[trigger] drawn(d, w as nat, h as nat, xx, yy)
                        ==> minx <= xx <= maxx && miny <= yy <= maxy,
                any ==> exists|yy: nat| #[trigger] drawn(d, w as nat, h as nat, minx as nat, yy),
                any ==> exists|yy: nat| #[trigger] drawn(d, w as nat, h as nat, maxx as nat, yy),
                any ==> exists|xx: nat| #[trigger] drawn(d, w as nat, h as nat, xx, miny as nat),
                any ==> exists|xx: nat| #[trigger] drawn(d, w as nat, h as nat, xx, maxy as nat),
            decreases w - x,
        {
            proof {
                lemma_index_in_range(w as nat, h as nat, x as nat, y as nat);
            }
            let idx = (y * w + x) * 4 + 3;
            if data[idx as usize] > 8 {
                assert(drawn(d, w as nat, h as nat, x as nat, y as nat));
                if !any {
                    minx = x;
                    miny = y;
                    maxx = x;
                    maxy = y;
                } else {
                    if x < minx {
                        minx = x;
                    }
                    if y < miny {
                        miny = y;
                    }
                    if x > maxx {
                        maxx = x;
                    }
                    if y > maxy {
                        maxy = y;
                    }
                }
                any = true;
            }
            x = x + 1;
        }
        y = y + 1;
    }
    if any {
        proof {
            assert forall|x: nat, yy: nat| #[trigger] drawn(d, w as nat, h as nat, x, yy) implies minx
                <= x <= maxx && miny <= yy <= maxy by {
                assert(yy < y);
            }
            let b = (minx, miny, maxx, maxy);
            let y0 = choose|yy: nat| drawn(d, w as nat, h as nat, minx as nat, yy);
            let y1 = choose|yy: nat| drawn(d, w as nat, h as nat, maxx as nat, yy);
            let x0 = choose|xx: nat| drawn(d, w as nat, h as nat, xx, miny as nat);
            let x1 = choose|xx: nat| drawn(d, w as nat, h as nat, xx, maxy as nat);
            assert(drawn(d, w as nat, h as nat, b.0 as nat, y0));
            assert(drawn(d, w as nat, h as nat, b.2 as nat, y1));
            assert(drawn(d, w as nat, h as nat, x0, b.1 as nat));
            assert(drawn(d, w as nat, h as nat, x1, b.3 as nat));
            assert(is_content_box(d, w as nat, h as nat, b));
        }
        Some((minx, miny, maxx, maxy))
    } else {
        None
    }
}

} // verus!
