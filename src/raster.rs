use vstd::prelude::*;

verus! {

/// The pixel `(column, row)` that stands at position `index` of the output,
/// where rows run from the top of the image (`row == height - 1`) down to
/// row 0, and each row from column 0 to the right.
pub open spec fn raster_pixel(index: nat, width: nat, height: nat) -> (nat, nat) {
    ((index % width) as nat, (height - 1 - index / width) as nat)
}

/// The position of pixel `(column, row)` in the raster order.
pub open spec fn raster_index(column: nat, row: nat, width: nat, height: nat) -> nat {
    ((height - 1 - row) * width + column) as nat
}

/// The raster order lists every pixel of the image exactly once: each
/// position names a pixel of the image, each pixel stands at a position, and
/// the two maps undo each other.
pub proof fn lemma_raster_is_bijective(width: nat, height: nat)
    ensures
        forall|n: nat|
            #![trigger raster_pixel(n, width, height)]
            n < width * height ==> {
                let (i, j) = raster_pixel(n, width, height);
                &&& i < width
                &&& j < height
                &&& raster_index(i, j, width, height) == n
            },
        forall|i: nat, j: nat|
            #![trigger raster_index(i, j, width, height)]
            i < width && j < height ==> {
                let n = raster_index(i, j, width, height);
                &&& n < width * height
                &&& raster_pixel(n, width, height) == (i, j)
            },
{
    assert forall|n: nat|
        #![trigger raster_pixel(n, width, height)]
        n < width * height implies {
            let (i, j) = raster_pixel(n, width, height);
            &&& i < width
            &&& j < height
            &&& raster_index(i, j, width, height) == n
        } by {
        let (w, h) = (width as int, height as int);
        let q = n as int / w;
        let r = n as int % w;
        assert(w > 0 && q < h && n == q * w + r && 0 <= r < w) by (nonlinear_arith)
            requires
                0 <= n < w * h,
                h >= 0,
                w >= 0,
                q == n as int / w,
                r == n as int % w,
        {
            vstd::arithmetic::div_mod::lemma_fundamental_div_mod(n as int, w);
            if q >= h {
                assert(q * w >= h * w);
            }
        }
    }
    assert forall|i: nat, j: nat|
        #![trigger raster_index(i, j, width, height)]
        i < width && j < height implies {
            let n = raster_index(i, j, width, height);
            &&& n < width * height
            &&& raster_pixel(n, width, height) == (i, j)
        } by {
        let (w, h) = (width as int, height as int);
        let q = h - 1 - j;
        let n = q * w + i;
        assert(0 <= q < h && n < w * h) by (nonlinear_arith)
            requires
                q == h - 1 - j,
                n == q * w + i,
                0 <= i < w,
                0 <= j < h,
        ;
        vstd::arithmetic::div_mod::lemma_fundamental_div_mod_converse(n, w, q, i as int);
    }
}

/// Position `index` of the raster order of a `width` by `height` image.
pub fn pixel_at(index: u32, width: u32, height: u32) -> (r: (u32, u32))
    requires
        index < width * height,
    ensures
        (r.0 as nat, r.1 as nat) == raster_pixel(index as nat, width as nat, height as nat),
        r.0 < width,
        r.1 < height,
{
    let row_from_top = index / width;
    proof {
        let (i, w, h) = (index as int, width as int, height as int);
        assert(w > 0) by (nonlinear_arith)
            requires
                0 <= i < w * h,
                h >= 0,
        ;
        assert(i / w < h) by (nonlinear_arith)
            requires
                0 <= i < w * h,
                w > 0,
        {
            if i / w >= h {
                vstd::arithmetic::div_mod::lemma_fundamental_div_mod(i, w);
                assert(w * (i / w) >= w * h);
            }
        }
    }
    (index % width, height - 1 - row_from_top)
}

/// The colours of a `width` by `height` image in raster order: entry `n` is
/// what `shade` gives for the pixel at position `n` of that order. `shade`
/// is called once per pixel, in that order.
pub fn shade_pixels<F: Fn(u32, u32) -> (u8, u8, u8)>(width: u32, height: u32, shade: F) -> (r: Vec<
    (u8, u8, u8),
>)
    requires
        width * height <= u32::MAX,
        forall|i: u32, j: u32| i < width && j < height ==> shade.requires((i, j)),
    ensures
        r@.len() == width * height,
        forall|n: int|
            #![trigger r@[n]]
            0 <= n < r@.len() ==> {
                let (i, j) = raster_pixel(n as nat, width as nat, height as nat);
                shade.ensures((i as u32, j as u32), r@[n])
            },
{
    let count: u32 = width * height;
    let mut out: Vec<(u8, u8, u8)> = Vec::new();
    let mut index: u32 = 0;
    while index < count
        invariant
            count == width * height,
            forall|i: u32, j: u32| i < width && j < height ==> shade.requires((i, j)),
            index <= count,
            out@.len() == index,
            forall|n: int|
                #![trigger out@[n]]
                0 <= n < index ==> {
                    let (i, j) = raster_pixel(n as nat, width as nat, height as nat);
                    shade.ensures((i as u32, j as u32), out@[n])
                },
        decreases count - index,
    {
        let (i, j) = pixel_at(index, width, height);
        let colour = shade(i, j);
        out.push(colour);
        index = index + 1;
    }
    out
}

} // verus!
