//! The render loop: one colour per pixel of a `w` by `h` grid, written into a
//! `bmp::Image`, either row by row or computed in parallel first.
use vstd::prelude::*;
use vstd::arithmetic::div_mod::lemma_fundamental_div_mod;
use vstd::arithmetic::div_mod::lemma_fundamental_div_mod_converse;
use rayon::iter::IntoParallelIterator;
use rayon::iter::ParallelIterator;
use crate::image::image_height;
use crate::image::image_pixels;
use crate::image::image_width;

verus! {

/// The pixels of a render, as `(r, g, b)` by `(x, y)`.
pub type Pixels = Map<(u32, u32), (u8, u8, u8)>;

/// `after` is `before` with every pixel of the `w` by `h` grid at the top left
/// replaced by a colour that `shade` may return for it, and every other pixel
/// left as it was.
pub open spec fn is_render_of<F: Fn(u32, u32) -> (u8, u8, u8)>(
    before: Pixels,
    after: Pixels,
    w: u32,
    h: u32,
    shade: F,
) -> bool {
    &&& forall|x: u32, y: u32|
        x < w && y < h ==> #[trigger] after.contains_key((x, y)) && shade.ensures(
            (x, y),
            after[(x, y)],
        )
    &&& forall|p: (u32, u32)|
        !(p.0 < w && p.1 < h) ==> (#[trigger] after.contains_key(p) == before.contains_key(p)
            && (before.contains_key(p) ==> after[p] == before[p]))
}

/// `shade` gives one colour only for each pixel.
pub open spec fn is_deterministic<F: Fn(u32, u32) -> (u8, u8, u8)>(shade: F) -> bool {
    forall|x: u32, y: u32, c: (u8, u8, u8), d: (u8, u8, u8)|
        shade.ensures((x, y), c) && shade.ensures((x, y), d) ==> c == d
}

/// Two renders of the same grid with the same deterministic `shade`, from the
/// same image, leave the same pixels: so `render_image` and
/// `parallel_render_image` produce identical images.
pub proof fn lemma_renders_agree<F: Fn(u32, u32) -> (u8, u8, u8)>(
    before: Pixels,
    first: Pixels,
    second: Pixels,
    w: u32,
    h: u32,
    shade: F,
)
    requires
        is_deterministic(shade),
        is_render_of(before, first, w, h, shade),
        is_render_of(before, second, w, h, shade),
    ensures
        first == second,
{
    assert forall|p: (u32, u32)| #[trigger] first.contains_key(p) implies second.contains_key(p)
        && first[p] == second[p] by {
        if p.0 < w && p.1 < h {
            assert(second.contains_key((p.0, p.1)));
        }
    }
    assert forall|p: (u32, u32)| #[trigger] second.contains_key(p) implies first.contains_key(p) by {
        if p.0 < w && p.1 < h {
            assert(first.contains_key((p.0, p.1)));
        }
    }
    assert(first =~= second);
}

/// The pixel `(x, y)` that comes `v`-th, counted row by row from the top left,
/// in a grid `w` pixels wide.
pub open spec fn pixel_at(v: u32, w: u32) -> (u32, u32) {
    (v % w, v / w)
}

/// The pixel `(x, y)` of the `v`-th pixel of a grid `w` pixels wide, counted
/// row by row from the top left.
pub fn pixel_of_index(v: u32, w: u32) -> (r: (u32, u32))
    requires
        w > 0,
    ensures
        r.0 < w,
        r.1 * w + r.0 == v,
        r == pixel_at(v, w),
{
    proof {
        lemma_fundamental_div_mod(v as int, w as int);
        assert((v / w) * w == w * (v / w)) by (nonlinear_arith);
    }
    (v % w, v / w)
}

proof fn lemma_row_major(x: u32, y: u32, w: u32, h: u32)
    requires
        x < w,
        y < h,
    ensures
        y * w + x < w * h,
        (y * w + x) % (w as int) == x,
        (y * w + x) / (w as int) == y,
{
    assert(y * w + x < w * h) by (nonlinear_arith)
        requires
            x < w,
            y < h,
    ;
    lemma_fundamental_div_mod_converse(y * w + x, w as int, y as int, x as int);
}

proof fn lemma_row_of_index(x: u32, y: u32, v: u32, w: u32, h: u32)
    requires
        x < w,
        y * w + x == v,
        v < w * h,
    ensures
        y < h,
{
    assert(y < h) by (nonlinear_arith)
        requires
            x < w,
            y * w + x == v,
            v < w * h,
    ;
}

/// Renders the `w` by `h` grid at the top left of `img` row by row: the pixel
/// `(x, y)` gets the colour `shade(x, y)`.
pub fn render_image<F: Fn(u32, u32) -> (u8, u8, u8)>(
    img: &mut bmp::Image,
    w: u32,
    h: u32,
    shade: &F,
)
    requires
        w <= image_width(*old(img)),
        h <= image_height(*old(img)),
        image_width(*old(img)) * image_height(*old(img)) <= u32::MAX,
        forall|x: u32, y: u32| x < w && y < h ==> shade.requires((x, y)),
    ensures
        image_width(*final(img)) == image_width(*old(img)),
        image_height(*final(img)) == image_height(*old(img)),
        is_render_of(image_pixels(*old(img)), image_pixels(*final(img)), w, h, *shade),
{
    let mut y: u32 = 0;
    while y < h
        invariant
            y <= h,
            w <= image_width(*img),
            h <= image_height(*img),
            image_width(*img) == image_width(*old(img)),
            image_height(*img) == image_height(*old(img)),
            image_width(*old(img)) * image_height(*old(img)) <= u32::MAX,
            forall|x: u32, y: u32| x < w && y < h ==> shade.requires((x, y)),
            is_render_of(image_pixels(*old(img)), image_pixels(*img), w, y, *shade),
        decreases h - y,
    {
        let mut x: u32 = 0;
        while x < w
            invariant
                x <= w,
                y < h,
                w <= image_width(*img),
                h <= image_height(*img),
                image_width(*img) == image_width(*old(img)),
                image_height(*img) == image_height(*old(img)),
                image_width(*old(img)) * image_height(*old(img)) <= u32::MAX,
                forall|x: u32, y: u32| x < w && y < h ==> shade.requires((x, y)),
                forall|i: u32, j: u32|
                    i < w && j < y || i < x && j == y ==> #[trigger] image_pixels(
                        *img,
                    ).contains_key((i, j)) && shade.ensures((i, j), image_pixels(*img)[(i, j)]),
                forall|p: (u32, u32)|
                    !(p.0 < w && p.1 < y || p.0 < x && p.1 == y) ==> (#[trigger] image_pixels(
                        *img,
                    ).contains_key(p) == image_pixels(*old(img)).contains_key(p) && (image_pixels(
                        *old(img),
                    ).contains_key(p) ==> image_pixels(*img)[p] == image_pixels(*old(img))[p])),
            decreases w - x,
        {
            let (r, g, b) = shade(x, y);
            img.set_pixel(x, y, bmp::Pixel::new(r, g, b));
            x += 1;
        }
        y += 1;
    }
}

/// Relies on rayon: `(0..n).into_par_iter().map(f).collect()` calls `f` on each
/// index below `n`, on worker threads, and collects the results in index order.
#[verifier::external_body]
fn par_map_indices<T: Send, F: Fn(u32) -> T + Sync + Send>(n: u32, f: F) -> (r: Vec<T>)
    requires
        forall|v: u32| v < n ==> f.requires((v,)),
    ensures
        r.len() == n,
        forall|v: int| 0 <= v < n ==> f.ensures((v as u32,), #[trigger] r[v]),
{
    (0..n).into_par_iter().map(f).collect()
}

/// Renders the `w` by `h` grid at the top left of `img` as `render_image` does,
/// with the colours computed in parallel before they are written.
pub fn parallel_render_image<F: Fn(u32, u32) -> (u8, u8, u8) + Sync>(
    img: &mut bmp::Image,
    w: u32,
    h: u32,
    shade: &F,
)
    requires
        w <= image_width(*old(img)),
        h <= image_height(*old(img)),
        image_width(*old(img)) * image_height(*old(img)) <= u32::MAX,
        forall|x: u32, y: u32| x < w && y < h ==> shade.requires((x, y)),
    ensures
        image_width(*final(img)) == image_width(*old(img)),
        image_height(*final(img)) == image_height(*old(img)),
        is_render_of(image_pixels(*old(img)), image_pixels(*final(img)), w, h, *shade),
{
    if w == 0 {
        return;
    }
    proof {
        let (iw, ih) = (image_width(*old(img)), image_height(*old(img)));
        assert(w * h <= iw * ih) by (nonlinear_arith)
            requires
                w <= iw,
                h <= ih,
        ;
    }
    let n: u32 = w * h;
    let pixel = |v: u32| -> (c: (u8, u8, u8))
        requires
            v < n,
        ensures
            shade.ensures(pixel_at(v, w), c),
        {
            let (x, y) = pixel_of_index(v, w);
            proof {
                lemma_row_of_index(x, y, v, w, h);
            }
            shade(x, y)
        };
    let colors = par_map_indices(n, pixel);
    let mut y: u32 = 0;
    while y < h
        invariant
            0 < w,
            n == w * h,
            y <= h,
            colors.len() == n,
            forall|v: u32| v < n ==> shade.ensures(pixel_at(v, w), #[trigger] colors@[v as int]),
            w <= image_width(*img),
            h <= image_height(*img),
            image_width(*img) == image_width(*old(img)),
            image_height(*img) == image_height(*old(img)),
            image_width(*old(img)) * image_height(*old(img)) <= u32::MAX,
            is_render_of(image_pixels(*old(img)), image_pixels(*img), w, y, *shade),
        decreases h - y,
    {
        let mut x: u32 = 0;
        while x < w
            invariant
                0 < w,
                n == w * h,
                x <= w,
                y < h,
                colors.len() == n,
                forall|v: u32| v < n ==> shade.ensures(pixel_at(v, w), #[trigger] colors@[v as int]),
                w <= image_width(*img),
                h <= image_height(*img),
                image_width(*img) == image_width(*old(img)),
                image_height(*img) == image_height(*old(img)),
                image_width(*old(img)) * image_height(*old(img)) <= u32::MAX,
                forall|i: u32, j: u32|
                    i < w && j < y || i < x && j == y ==> #[trigger] image_pixels(
                        *img,
                    ).contains_key((i, j)) && shade.ensures((i, j), image_pixels(*img)[(i, j)]),
                forall|p: (u32, u32)|
                    !(p.0 < w && p.1 < y || p.0 < x && p.1 == y) ==> (#[trigger] image_pixels(
                        *img,
                    ).contains_key(p) == image_pixels(*old(img)).contains_key(p) && (image_pixels(
                        *old(img),
                    ).contains_key(p) ==> image_pixels(*img)[p] == image_pixels(*old(img))[p])),
            decreases w - x,
        {
            proof {
                lemma_row_major(x, y, w, h);
            }
            let (r, g, b) = colors[(y * w + x) as usize];
            img.set_pixel(x, y, bmp::Pixel::new(r, g, b));
            x += 1;
        }
        y += 1;
    }
}

} // verus!
