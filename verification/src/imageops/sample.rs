//! Resampling, 3x3 filtering and unsharp masking.

use vstd::prelude::*;

use crate::buffer::{zero_pixel, ImageBuf, Primitive};

verus! {

/// Restricts `a` to the range `[min, max]`, testing the upper bound first.
pub open spec fn spec_clamp(a: int, min: int, max: int) -> int {
    if a > max {
        max
    } else if a < min {
        min
    } else {
        a
    }
}

/// Restricts `a` to the range `[min, max]`: `max` when `a > max`, else `min`
/// when `a < min`, else `a`.
pub fn clamp(a: i64, min: i64, max: i64) -> (r: i64)
    ensures
        r == spec_clamp(a as int, min as int, max as int),
        a > max ==> r == max,
        a <= max && a < min ==> r == min,
        min <= a <= max ==> r == a,
{
    if a > max {
        max
    } else if a < min {
        min
    } else {
        a
    }
}


/// Available sampling filters.
#[derive(Clone, Copy, Debug, PartialEq, Eq, Structural)]
pub enum FilterType {
    /// Nearest neighbor.
    Nearest,
    /// Linear filter.
    Triangle,
    /// Cubic filter.
    CatmullRom,
    /// Gaussian filter.
    Gaussian,
    /// Lanczos with window 3.
    Lanczos3,
}

/// The kernel function that a separable filter evaluates.
#[derive(Clone, Copy, Debug, PartialEq, Eq, Structural)]
pub enum Kernel {
    /// 1 on `[-0.5, 0.5]`, 0 elsewhere.
    Box,
    /// `1 - |x|` on `(-1, 1)`, 0 elsewhere.
    Triangle,
    /// The Catmull-Rom cubic spline (`b = 0`, `c = 0.5`).
    CatmullRom,
    /// The Gaussian with standard deviation 1.
    Gaussian,
    /// The Lanczos kernel with a window of 3.
    Lanczos3,
}

/// A separable filter: its kernel, and the window on which it operates,
/// counted in half pixels (a support of 1.5 is `support_halves == 3`).
#[derive(Clone, Copy, Debug, PartialEq, Eq, Structural)]
pub struct Filter {
    pub kernel: Kernel,
    pub support_halves: u32,
}

/// The filter that each filter type resamples with.
pub open spec fn spec_filter_for(filter: FilterType) -> Filter {
    match filter {
        FilterType::Nearest => Filter { kernel: Kernel::Box, support_halves: 1 },
        FilterType::Triangle => Filter { kernel: Kernel::Triangle, support_halves: 2 },
        FilterType::CatmullRom => Filter { kernel: Kernel::CatmullRom, support_halves: 4 },
        FilterType::Gaussian => Filter { kernel: Kernel::Gaussian, support_halves: 6 },
        FilterType::Lanczos3 => Filter { kernel: Kernel::Lanczos3, support_halves: 6 },
    }
}

/// The filter that `resize` uses for a filter type: a box of support 0.5 for
/// nearest neighbor, a triangle of support 1, a Catmull-Rom spline of support
/// 2, a Gaussian of support 3 and a Lanczos kernel of support 3.
pub fn filter_for(filter: FilterType) -> (f: Filter)
    ensures
        f == spec_filter_for(filter),
{
    match filter {
        FilterType::Nearest => Filter { kernel: Kernel::Box, support_halves: 1 },
        FilterType::Triangle => Filter { kernel: Kernel::Triangle, support_halves: 2 },
        FilterType::CatmullRom => Filter { kernel: Kernel::CatmullRom, support_halves: 4 },
        FilterType::Gaussian => Filter { kernel: Kernel::Gaussian, support_halves: 6 },
        FilterType::Lanczos3 => Filter { kernel: Kernel::Lanczos3, support_halves: 6 },
    }
}

/// The direction of a line of pixels.
#[derive(Clone, Copy, Debug, PartialEq, Eq, Structural)]
pub enum Axis {
    /// A row: the horizontal pass samples along rows.
    Horizontal,
    /// A column: the vertical pass samples along columns.
    Vertical,
}

/// One output pixel of a sampling pass along a line: the new length of the
/// line, and the output position on it.
#[derive(Clone, Copy, Debug, PartialEq, Eq, Structural)]
pub struct SamplePos {
    pub new_len: u32,
    pub pos: u32,
}

/// The pixels of row `line` (horizontal) or column `line` (vertical) of
/// `image`, in order.
pub open spec fn spec_line<P: Primitive>(image: ImageBuf<P>, axis: Axis, line: int) -> Seq<[P; 4]> {
    match axis {
        Axis::Horizontal => Seq::new(image.spec_width(), |i: int| image.pixel(i, line)),
        Axis::Vertical => Seq::new(image.spec_height(), |i: int| image.pixel(line, i)),
    }
}

/// Row `y` of an image of width `w` holds, at each index `i < w`, the pixel
/// `(i, y)`; column `x` of an image of height `h` holds, at each index `i < h`,
/// the pixel `(x, i)`.
pub proof fn lemma_line_contents<P: Primitive>(image: ImageBuf<P>, axis: Axis, line: int)
    ensures
        axis == Axis::Horizontal ==> spec_line(image, axis, line).len() == image.spec_width()
            && forall|i: int|
            0 <= i < image.spec_width() ==> #[trigger] spec_line(image, axis, line)[i]
                == image.pixel(i, line),
        axis == Axis::Vertical ==> spec_line(image, axis, line).len() == image.spec_height()
            && forall|i: int|
            0 <= i < image.spec_height() ==> #[trigger] spec_line(image, axis, line)[i]
                == image.pixel(line, i),
{
}

/// The pixels of row `line` (horizontal) or column `line` (vertical).
pub fn line_pixels<P: Primitive>(image: &ImageBuf<P>, axis: Axis, line: u32) -> (r: Vec<[P; 4]>)
    requires
        axis == Axis::Horizontal ==> line < image.spec_height(),
        axis == Axis::Vertical ==> line < image.spec_width(),
    ensures
        r@ == spec_line(*image, axis, line as int),
        axis == Axis::Horizontal ==> r@.len() == image.spec_width() && forall|i: int|
            0 <= i < r@.len() ==> #[trigger] r@[i] == image.pixel(i, line as int),
        axis == Axis::Vertical ==> r@.len() == image.spec_height() && forall|i: int|
            0 <= i < r@.len() ==> #[trigger] r@[i] == image.pixel(line as int, i),
{
    proof {
        lemma_line_contents(*image, axis, line as int);
    }
    let (width, height) = image.dimensions();
    let len = match axis {
        Axis::Horizontal => width,
        Axis::Vertical => height,
    };
    let mut r: Vec<[P; 4]> = Vec::new();
    let mut i: u32 = 0;
    while i < len
        invariant
            width == image.spec_width(),
            height == image.spec_height(),
            len == spec_line(*image, axis, line as int).len(),
            axis == Axis::Horizontal ==> line < height,
            axis == Axis::Vertical ==> line < width,
            i <= len,
            r@ == spec_line(*image, axis, line as int).take(i as int),
        decreases len - i,
    {
        let p = match axis {
            Axis::Horizontal => image.get_pixel(i, line),
            Axis::Vertical => image.get_pixel(line, i),
        };
        r.push(p);
        i = i + 1;
        assert(r@ =~= spec_line(*image, axis, line as int).take(i as int));
    }
    assert(r@ =~= spec_line(*image, axis, line as int));
    r
}

/// The source positions that a sampling window reaches, on a line of `len`
/// pixels: the window's ends, each clamped to `[0, len - 1]`.
pub fn sample_window(left: u32, right: u32, len: u32) -> (r: (u32, u32))
    requires
        len > 0,
    ensures
        r.0 == spec_clamp(left as int, 0, len - 1),
        r.1 == spec_clamp(right as int, 0, len - 1),
        r.0 < len,
        r.1 < len,
{
    let last: i64 = (len - 1) as i64;
    let l = clamp(left as i64, 0, last);
    let r = clamp(right as i64, 0, last);
    (l as u32, r as u32)
}

/// `sample` accepts every output position of a pass to length `new_len`,
/// with any source line of `len` pixels.
pub open spec fn accepts_lines<P: Primitive, F, S: Fn(&F, SamplePos, &Vec<[P; 4]>) -> [P; 4]>(
    sample: S,
    filter: F,
    new_len: u32,
    len: nat,
) -> bool {
    forall|p: SamplePos, v: Vec<[P; 4]>|
        p.new_len == new_len && p.pos < new_len && v@.len() == len ==> #[trigger] call_requires(
            sample,
            (&filter, p, &v),
        )
}

/// `value` is what `sample` may return for output position `pos` when handed
/// a line holding the pixels `line`.
pub open spec fn sampled_from<P: Primitive, F, S: Fn(&F, SamplePos, &Vec<[P; 4]>) -> [P; 4]>(
    sample: S,
    filter: F,
    pos: SamplePos,
    line: Seq<[P; 4]>,
    value: [P; 4],
) -> bool {
    exists|v: Vec<[P; 4]>| v@ == line && #[trigger] call_ensures(sample, (&filter, pos, &v), value)
}

/// `out` is the horizontal pass of `image` to width `new_width`: it keeps the
/// height, and its pixel `(x, y)` is what `sample` may return for output
/// column `x` from row `y` of `image`, and from nothing else.
pub open spec fn is_horizontal_pass<P: Primitive, F, S: Fn(&F, SamplePos, &Vec<[P; 4]>) -> [P; 4]>(
    image: ImageBuf<P>,
    new_width: u32,
    filter: F,
    sample: S,
    out: ImageBuf<P>,
) -> bool {
    &&& out.spec_width() == new_width
    &&& out.spec_height() == image.spec_height()
    &&& forall|x: int, y: int|
        #![trigger out.pixel(x, y)]
        out.in_bounds(x, y) ==> sampled_from(
            sample,
            filter,
            SamplePos { new_len: new_width, pos: x as u32 },
            spec_line(image, Axis::Horizontal, y),
            out.pixel(x, y),
        )
}

/// `out` is the vertical pass of `image` to height `new_height`: it keeps the
/// width, and its pixel `(x, y)` is what `sample` may return for output row
/// `y` from column `x` of `image`, and from nothing else.
pub open spec fn is_vertical_pass<P: Primitive, F, S: Fn(&F, SamplePos, &Vec<[P; 4]>) -> [P; 4]>(
    image: ImageBuf<P>,
    new_height: u32,
    filter: F,
    sample: S,
    out: ImageBuf<P>,
) -> bool {
    &&& out.spec_width() == image.spec_width()
    &&& out.spec_height() == new_height
    &&& forall|x: int, y: int|
        #![trigger out.pixel(x, y)]
        out.in_bounds(x, y) ==> sampled_from(
            sample,
            filter,
            SamplePos { new_len: new_height, pos: y as u32 },
            spec_line(image, Axis::Vertical, x),
            out.pixel(x, y),
        )
}

/// Samples the rows of `image` to the width `new_width`; the height stays.
/// `sample` computes one output pixel from the filter, the output position
/// and the source row.
pub fn horizontal_sample<P: Primitive, F, S: Fn(&F, SamplePos, &Vec<[P; 4]>) -> [P; 4]>(
    image: &ImageBuf<P>,
    new_width: u32,
    filter: &F,
    sample: &S,
) -> (out: ImageBuf<P>)
    requires
        new_width as nat * image.spec_height() <= usize::MAX,
        accepts_lines(*sample, *filter, new_width, image.spec_width()),
    ensures
        is_horizontal_pass(*image, new_width, *filter, *sample, out),
{
    let (_width, height) = image.dimensions();
    let mut out = ImageBuf::new(new_width, height);
    let mut y: u32 = 0;
    while y < height
        invariant
            accepts_lines(*sample, *filter, new_width, image.spec_width()),
            height == image.spec_height(),
            y <= height,
            out.spec_width() == new_width,
            out.spec_height() == height,
            forall|i: int, j: int|
                #![trigger out.pixel(i, j)]
                0 <= i < new_width && 0 <= j < y ==> sampled_from(
                    *sample,
                    *filter,
                    SamplePos { new_len: new_width, pos: i as u32 },
                    spec_line(*image, Axis::Horizontal, j),
                    out.pixel(i, j),
                ),
        decreases height - y,
    {
        let row = line_pixels(image, Axis::Horizontal, y);
        let mut outx: u32 = 0;
        while outx < new_width
            invariant
                accepts_lines(*sample, *filter, new_width, image.spec_width()),
                row@ == spec_line(*image, Axis::Horizontal, y as int),
                height == image.spec_height(),
                y < height,
                outx <= new_width,
                out.spec_width() == new_width,
                out.spec_height() == height,
                forall|i: int, j: int|
                    #![trigger out.pixel(i, j)]
                    0 <= i < new_width && 0 <= j < y || 0 <= i < outx && j == y ==> sampled_from(
                        *sample,
                        *filter,
                        SamplePos { new_len: new_width, pos: i as u32 },
                        spec_line(*image, Axis::Horizontal, j),
                        out.pixel(i, j),
                    ),
            decreases new_width - outx,
        {
            let pos = SamplePos { new_len: new_width, pos: outx };
            assert(row@.len() == image.spec_width());
            assert(call_requires(*sample, (filter, pos, &row)));
            let t = sample(filter, pos, &row);
            assert(sampled_from(*sample, *filter, pos, row@, t));
            out.put_pixel(outx, y, t);
            outx = outx + 1;
        }
        y = y + 1;
    }
    out
}

/// Samples the columns of `image` to the height `new_height`; the width stays.
/// `sample` computes one output pixel from the filter, the output position
/// and the source column.
pub fn vertical_sample<P: Primitive, F, S: Fn(&F, SamplePos, &Vec<[P; 4]>) -> [P; 4]>(
    image: &ImageBuf<P>,
    new_height: u32,
    filter: &F,
    sample: &S,
) -> (out: ImageBuf<P>)
    requires
        image.spec_width() * new_height as nat <= usize::MAX,
        accepts_lines(*sample, *filter, new_height, image.spec_height()),
    ensures
        is_vertical_pass(*image, new_height, *filter, *sample, out),
{
    let (width, _height) = image.dimensions();
    let mut out = ImageBuf::new(width, new_height);
    let mut x: u32 = 0;
    while x < width
        invariant
            accepts_lines(*sample, *filter, new_height, image.spec_height()),
            width == image.spec_width(),
            x <= width,
            out.spec_width() == width,
            out.spec_height() == new_height,
            forall|i: int, j: int|
                #![trigger out.pixel(i, j)]
                0 <= i < x && 0 <= j < new_height ==> sampled_from(
                    *sample,
                    *filter,
                    SamplePos { new_len: new_height, pos: j as u32 },
                    spec_line(*image, Axis::Vertical, i),
                    out.pixel(i, j),
                ),
        decreases width - x,
    {
        let column = line_pixels(image, Axis::Vertical, x);
        let mut outy: u32 = 0;
        while outy < new_height
            invariant
                accepts_lines(*sample, *filter, new_height, image.spec_height()),
                column@ == spec_line(*image, Axis::Vertical, x as int),
                width == image.spec_width(),
                x < width,
                outy <= new_height,
                out.spec_width() == width,
                out.spec_height() == new_height,
                forall|i: int, j: int|
                    #![trigger out.pixel(i, j)]
                    0 <= i < x && 0 <= j < new_height || i == x && 0 <= j < outy ==> sampled_from(
                        *sample,
                        *filter,
                        SamplePos { new_len: new_height, pos: j as u32 },
                        spec_line(*image, Axis::Vertical, i),
                        out.pixel(i, j),
                    ),
            decreases new_height - outy,
        {
            let pos = SamplePos { new_len: new_height, pos: outy };
            assert(column@.len() == image.spec_height());
            assert(call_requires(*sample, (filter, pos, &column)));
            let t = sample(filter, pos, &column);
            assert(sampled_from(*sample, *filter, pos, column@, t));
            out.put_pixel(x, outy, t);
            outy = outy + 1;
        }
        x = x + 1;
    }
    out
}

/// `out` is `image` sampled by a separable filter: the columns to
/// `new_height`, then the rows of that intermediate image to `new_width`.
pub open spec fn is_separable_sample<P: Primitive, F, S: Fn(&F, SamplePos, &Vec<[P; 4]>) -> [P; 4]>(
    image: ImageBuf<P>,
    new_width: u32,
    new_height: u32,
    filter: F,
    sample: S,
    out: ImageBuf<P>,
) -> bool {
    &&& out.spec_width() == new_width
    &&& out.spec_height() == new_height
    &&& exists|tmp: ImageBuf<P>|
        is_vertical_pass(image, new_height, filter, sample, tmp) && is_horizontal_pass(
            tmp,
            new_width,
            filter,
            sample,
            out,
        )
}

/// Samples `image` to `new_width` x `new_height` with a separable filter: first
/// the columns are sampled to the new height, then the rows of that
/// intermediate image (as wide as `image`, `new_height` high) to the new width.
/// `sample` computes one output pixel from the filter, the output position and
/// the source line.
pub fn sample_separable<P: Primitive, F, S: Fn(&F, SamplePos, &Vec<[P; 4]>) -> [P; 4]>(
    image: &ImageBuf<P>,
    new_width: u32,
    new_height: u32,
    filter: &F,
    sample: &S,
) -> (out: ImageBuf<P>)
    requires
        image.spec_width() * new_height as nat <= usize::MAX,
        new_width as nat * new_height as nat <= usize::MAX,
        accepts_lines(*sample, *filter, new_height, image.spec_height()),
        accepts_lines(*sample, *filter, new_width, image.spec_width()),
    ensures
        is_separable_sample(*image, new_width, new_height, *filter, *sample, out),
{
    let tmp = vertical_sample(image, new_height, filter, sample);
    let out = horizontal_sample(&tmp, new_width, filter, sample);
    assert(is_vertical_pass(*image, new_height, *filter, *sample, tmp));
    out
}

/// Resizes `image` to `nwidth` x `nheight` with the filter of `filter`: first
/// the columns are sampled to the new height, then the rows of that
/// intermediate image to the new width. `sample` computes one output pixel
/// from the filter, the output position and the source line.
pub fn resize<P: Primitive, S: Fn(&Filter, SamplePos, &Vec<[P; 4]>) -> [P; 4]>(
    image: &ImageBuf<P>,
    nwidth: u32,
    nheight: u32,
    filter: FilterType,
    sample: &S,
) -> (out: ImageBuf<P>)
    requires
        image.spec_width() * nheight as nat <= usize::MAX,
        nwidth as nat * nheight as nat <= usize::MAX,
        accepts_lines(*sample, spec_filter_for(filter), nheight, image.spec_height()),
        accepts_lines(*sample, spec_filter_for(filter), nwidth, image.spec_width()),
    ensures
        out.spec_width() == nwidth,
        out.spec_height() == nheight,
        is_separable_sample(*image, nwidth, nheight, spec_filter_for(filter), *sample, out),
{
    let method = filter_for(filter);
    sample_separable(image, nwidth, nheight, &method, sample)
}

/// Offset of tap `k` of the 3x3 kernel from the pixel it is applied at; taps
/// go row by row from `(-1, -1)` to `(1, 1)`.
pub open spec fn tap_offset(k: int) -> (int, int) {
    (k % 3 - 1, k / 3 - 1)
}

/// The pixel `(x, y)` is on the border of a `width` x `height` image, where the
/// 3x3 filter does not reach.
pub open spec fn on_border(width: nat, height: nat, x: int, y: int) -> bool {
    x == 0 || y == 0 || x + 1 >= width || y + 1 >= height
}

/// The nine pixels around `(x, y)`, tap by tap.
pub open spec fn spec_neighbourhood<P: Primitive>(image: ImageBuf<P>, x: int, y: int) -> [[P; 4]; 9] {
    [
        image.pixel(x - 1, y - 1),
        image.pixel(x, y - 1),
        image.pixel(x + 1, y - 1),
        image.pixel(x - 1, y),
        image.pixel(x, y),
        image.pixel(x + 1, y),
        image.pixel(x - 1, y + 1),
        image.pixel(x, y + 1),
        image.pixel(x + 1, y + 1),
    ]
}

/// The nine pixels around `(x, y)`, which is off the border: entry `k` is the
/// pixel at tap `k`.
pub fn neighbourhood<P: Primitive>(image: &ImageBuf<P>, x: u32, y: u32) -> (r: [[P; 4]; 9])
    requires
        image.in_bounds(x as int, y as int),
        !on_border(image.spec_width(), image.spec_height(), x as int, y as int),
    ensures
        r == spec_neighbourhood(*image, x as int, y as int),
        forall|k: int|
            0 <= k < 9 ==> #[trigger] r[k] == image.pixel(
                x + tap_offset(k).0,
                y + tap_offset(k).1,
            ),
{
    let (_width, _height) = image.dimensions();
    let r = [
        image.get_pixel(x - 1, y - 1),
        image.get_pixel(x, y - 1),
        image.get_pixel(x + 1, y - 1),
        image.get_pixel(x - 1, y),
        image.get_pixel(x, y),
        image.get_pixel(x + 1, y),
        image.get_pixel(x - 1, y + 1),
        image.get_pixel(x, y + 1),
        image.get_pixel(x + 1, y + 1),
    ];
    assert forall|k: int| 0 <= k < 9 implies #[trigger] r[k] == image.pixel(
        x + tap_offset(k).0,
        y + tap_offset(k).1,
    ) by {
        if k == 0 {
        } else if k == 1 {
        } else if k == 2 {
        } else if k == 3 {
        } else if k == 4 {
        } else if k == 5 {
        } else if k == 6 {
        } else if k == 7 {
        } else {
        }
    }
    r
}

/// The dimensions for which the 3x3 filter reads only inside the image.
pub open spec fn filter3x3_defined(width: nat, height: nat) -> bool {
    !((height == 0 && (width == 0 || width >= 3)) || (width == 0 && height >= 3))
}

/// Performs a 3x3 filter on `image`. The pixels on the border stay zero;
/// every other pixel `(x, y)` is what `combine` returns for the nine pixels
/// around it (see `spec_neighbourhood`), and for nothing else.
pub fn filter3x3<P: Primitive, S: Fn([[P; 4]; 9]) -> [P; 4]>(image: &ImageBuf<P>, combine: &S) -> (out:
    ImageBuf<P>)
    requires
        filter3x3_defined(image.spec_width(), image.spec_height()),
        forall|n: [[P; 4]; 9]| call_requires(*combine, (n,)),
    ensures
        out.spec_width() == image.spec_width(),
        out.spec_height() == image.spec_height(),
        forall|x: int, y: int|
            #![trigger out.pixel(x, y)]
            out.in_bounds(x, y) && on_border(out.spec_width(), out.spec_height(), x, y)
                ==> out.pixel(x, y) == zero_pixel::<P>(),
        forall|x: int, y: int|
            #![trigger out.pixel(x, y)]
            out.in_bounds(x, y) && !on_border(out.spec_width(), out.spec_height(), x, y)
                ==> call_ensures(*combine, (spec_neighbourhood(*image, x, y),), out.pixel(x, y)),
{
    let (width, height) = image.dimensions();
    let mut out = ImageBuf::new(width, height);
    if width < 3 || height < 3 {
        return out;
    }
    let mut y: u32 = 1;
    while y < height - 1
        invariant
            forall|n: [[P; 4]; 9]| call_requires(*combine, (n,)),
            width == image.spec_width(),
            height == image.spec_height(),
            width >= 3,
            height >= 3,
            1 <= y <= height - 1,
            out.spec_width() == width,
            out.spec_height() == height,
            forall|i: int, j: int|
                #![trigger out.pixel(i, j)]
                out.in_bounds(i, j) && (on_border(width as nat, height as nat, i, j) || j >= y)
                    ==> out.pixel(i, j) == zero_pixel::<P>(),
            forall|i: int, j: int|
                #![trigger out.pixel(i, j)]
                out.in_bounds(i, j) && !on_border(width as nat, height as nat, i, j) && j < y
                    ==> call_ensures(*combine, (spec_neighbourhood(*image, i, j),), out.pixel(i, j)),
        decreases height - y,
    {
        let mut x: u32 = 1;
        while x < width - 1
            invariant
                forall|n: [[P; 4]; 9]| call_requires(*combine, (n,)),
                width == image.spec_width(),
                height == image.spec_height(),
                width >= 3,
                height >= 3,
                1 <= y < height - 1,
                1 <= x <= width - 1,
                out.spec_width() == width,
                out.spec_height() == height,
                forall|i: int, j: int|
                    #![trigger out.pixel(i, j)]
                    out.in_bounds(i, j) && (on_border(width as nat, height as nat, i, j) || j > y
                        || (j == y && i >= x)) ==> out.pixel(i, j) == zero_pixel::<P>(),
                forall|i: int, j: int|
                    #![trigger out.pixel(i, j)]
                    out.in_bounds(i, j) && !on_border(width as nat, height as nat, i, j) && (j < y
                        || (j == y && i < x)) ==> call_ensures(
                        *combine,
                        (spec_neighbourhood(*image, i, j),),
                        out.pixel(i, j),
                    ),
            decreases width - x,
        {
            let n = neighbourhood(image, x, y);
            let t = combine(n);
            out.put_pixel(x, y, t);
            x = x + 1;
        }
        y = y + 1;
    }
    out
}

/// One channel of an unsharp mask: with `c` from the image and `d` from its
/// blurred copy, when `|c - d|` exceeds `threshold` the difference `c - d` is
/// added to `c`, clamped to `[0, max]`; otherwise `c` stays.
pub open spec fn spec_unsharpen_channel<P: Primitive>(c: P, d: P, threshold: i32) -> P {
    let diff = c.spec_int() - d.spec_int();
    let adiff = if diff < 0 {
        -diff
    } else {
        diff
    };
    if adiff > threshold {
        P::spec_from_int(spec_clamp(c.spec_int() + diff, 0, P::spec_max()))
    } else {
        c
    }
}

/// An unsharp mask applied to every channel of a pixel.
pub open spec fn spec_unsharpen_pixel<P: Primitive>(a: [P; 4], b: [P; 4], threshold: i32) -> [P; 4] {
    [
        spec_unsharpen_channel(a[0], b[0], threshold),
        spec_unsharpen_channel(a[1], b[1], threshold),
        spec_unsharpen_channel(a[2], b[2], threshold),
        spec_unsharpen_channel(a[3], b[3], threshold),
    ]
}

/// One channel of an unsharp mask (see `spec_unsharpen_channel`).
pub fn unsharpen_channel<P: Primitive>(c: P, d: P, threshold: i32) -> (r: P)
    ensures
        r == spec_unsharpen_channel(c, d, threshold),
        c.spec_int() - d.spec_int() > threshold || d.spec_int() - c.spec_int() > threshold
            ==> r.spec_int() == if 2 * c.spec_int() - d.spec_int() > P::spec_max() {
            P::spec_max()
        } else if 2 * c.spec_int() - d.spec_int() < 0 {
            0
        } else {
            2 * c.spec_int() - d.spec_int()
        },
        !(c.spec_int() - d.spec_int() > threshold || d.spec_int() - c.spec_int() > threshold)
            ==> r == c,
{
    proof {
        lemma_unsharpen_channel_value(c, d, threshold);
        P::lemma_int_range(c);
        P::lemma_int_range(d);
        P::lemma_max_range();
    }
    let ic: i32 = c.to_i32();
    let id: i32 = d.to_i32();
    let diff: i32 = ic - id;
    let adiff: i32 = if diff < 0 {
        -diff
    } else {
        diff
    };
    if adiff > threshold {
        let max: i32 = P::max_value().to_i32();
        let e = clamp((ic + diff) as i64, 0, max as i64);
        P::from_i32(e as i32)
    } else {
        c
    }
}

/// An unsharp mask on one pixel, channel by channel.
pub fn unsharpen_pixel<P: Primitive>(a: [P; 4], b: [P; 4], threshold: i32) -> (r: [P; 4])
    ensures
        r == spec_unsharpen_pixel(a, b, threshold),
        forall|k: int|
            0 <= k < 4 && (a[k].spec_int() - b[k].spec_int() > threshold || b[k].spec_int()
                - a[k].spec_int() > threshold) ==> #[trigger] r[k].spec_int() == if 2
                * a[k].spec_int() - b[k].spec_int() > P::spec_max() {
                P::spec_max()
            } else if 2 * a[k].spec_int() - b[k].spec_int() < 0 {
                0
            } else {
                2 * a[k].spec_int() - b[k].spec_int()
            },
        forall|k: int|
            0 <= k < 4 && !(a[k].spec_int() - b[k].spec_int() > threshold || b[k].spec_int()
                - a[k].spec_int() > threshold) ==> #[trigger] r[k] == a[k],
{
    proof {
        lemma_unsharpen_pixel_value(a, b, threshold);
    }
    [
        unsharpen_channel(a[0], b[0], threshold),
        unsharpen_channel(a[1], b[1], threshold),
        unsharpen_channel(a[2], b[2], threshold),
        unsharpen_channel(a[3], b[3], threshold),
    ]
}

/// Performs an unsharp mask on `image`, given `blurred`, its blurred copy of
/// the same dimensions: each pixel of the result is the unsharp mask of the
/// image's pixel against the blurred one, with the given `threshold`.
/// See https://en.wikipedia.org/wiki/Unsharp_masking#Digital_unsharp_masking
pub fn unsharpen_mask<P: Primitive>(image: &ImageBuf<P>, blurred: ImageBuf<P>, threshold: i32) -> (out:
    ImageBuf<P>)
    requires
        blurred.spec_width() == image.spec_width(),
        blurred.spec_height() == image.spec_height(),
    ensures
        out.spec_width() == image.spec_width(),
        out.spec_height() == image.spec_height(),
        forall|x: int, y: int|
            #![trigger out.pixel(x, y)]
            out.in_bounds(x, y) ==> out.pixel(x, y) == spec_unsharpen_pixel(
                image.pixel(x, y),
                blurred.pixel(x, y),
                threshold,
            ),
{
    let mut tmp = blurred;
    let (width, height) = image.dimensions();
    let mut y: u32 = 0;
    while y < height
        invariant
            width == image.spec_width(),
            height == image.spec_height(),
            tmp.spec_width() == width,
            tmp.spec_height() == height,
            y <= height,
            forall|i: int, j: int|
                #![trigger tmp.pixel(i, j)]
                tmp.in_bounds(i, j) ==> tmp.pixel(i, j) == if j < y {
                    spec_unsharpen_pixel(image.pixel(i, j), blurred.pixel(i, j), threshold)
                } else {
                    blurred.pixel(i, j)
                },
        decreases height - y,
    {
        let mut x: u32 = 0;
        while x < width
            invariant
                width == image.spec_width(),
                height == image.spec_height(),
                tmp.spec_width() == width,
                tmp.spec_height() == height,
                y < height,
                x <= width,
                forall|i: int, j: int|
                    #![trigger tmp.pixel(i, j)]
                    tmp.in_bounds(i, j) ==> tmp.pixel(i, j) == if j < y || (j == y && i < x) {
                        spec_unsharpen_pixel(image.pixel(i, j), blurred.pixel(i, j), threshold)
                    } else {
                        blurred.pixel(i, j)
                    },
            decreases width - x,
        {
            let a = image.get_pixel(x, y);
            let b = tmp.get_pixel(x, y);
            let p = unsharpen_pixel(a, b, threshold);
            tmp.put_pixel(x, y, p);
            x = x + 1;
        }
        y = y + 1;
    }
    tmp
}

/// One channel of an unsharp mask, in terms of the channel `c`, its blurred
/// value `d` and the channel maximum: when `c` and `d` differ by more than the
/// threshold the result is `2c - d` (that is `c + (c - d)`) clamped to
/// `[0, max]`; otherwise it is `c`.
pub proof fn lemma_unsharpen_channel_value<P: Primitive>(c: P, d: P, threshold: i32)
    ensures
        c.spec_int() - d.spec_int() > threshold || d.spec_int() - c.spec_int() > threshold
            ==> spec_unsharpen_channel(c, d, threshold).spec_int() == if 2 * c.spec_int()
            - d.spec_int() > P::spec_max() {
            P::spec_max()
        } else if 2 * c.spec_int() - d.spec_int() < 0 {
            0
        } else {
            2 * c.spec_int() - d.spec_int()
        },
        !(c.spec_int() - d.spec_int() > threshold || d.spec_int() - c.spec_int() > threshold)
            ==> spec_unsharpen_channel(c, d, threshold) == c,
{
    P::lemma_int_range(c);
    P::lemma_int_range(d);
    P::lemma_max_range();
    let v = spec_clamp(c.spec_int() + (c.spec_int() - d.spec_int()), 0, P::spec_max());
    lemma_clamp_in_range(c.spec_int() + (c.spec_int() - d.spec_int()), 0, P::spec_max());
    P::lemma_from_int(v);
}

/// An unsharp mask on a pixel masks each of its four channels, the fourth
/// included, against the same channel of the blurred pixel: where they differ
/// by more than the threshold the channel becomes `2a - b` clamped to
/// `[0, max]`, elsewhere it is kept.
pub proof fn lemma_unsharpen_pixel_value<P: Primitive>(a: [P; 4], b: [P; 4], threshold: i32)
    ensures
        forall|k: int|
            0 <= k < 4 && (a[k].spec_int() - b[k].spec_int() > threshold || b[k].spec_int()
                - a[k].spec_int() > threshold) ==> #[trigger] spec_unsharpen_pixel(
                a,
                b,
                threshold,
            )[k].spec_int() == if 2 * a[k].spec_int() - b[k].spec_int() > P::spec_max() {
                P::spec_max()
            } else if 2 * a[k].spec_int() - b[k].spec_int() < 0 {
                0
            } else {
                2 * a[k].spec_int() - b[k].spec_int()
            },
        forall|k: int|
            0 <= k < 4 && !(a[k].spec_int() - b[k].spec_int() > threshold || b[k].spec_int()
                - a[k].spec_int() > threshold) ==> #[trigger] spec_unsharpen_pixel(
                a,
                b,
                threshold,
            )[k] == a[k],
{
    lemma_unsharpen_channel_value(a[0], b[0], threshold);
    lemma_unsharpen_channel_value(a[1], b[1], threshold);
    lemma_unsharpen_channel_value(a[2], b[2], threshold);
    lemma_unsharpen_channel_value(a[3], b[3], threshold);
    assert forall|k: int| 0 <= k < 4 implies #[trigger] spec_unsharpen_pixel(a, b, threshold)[k]
        == spec_unsharpen_channel(a[k], b[k], threshold) by {
        if k == 0 {
        } else if k == 1 {
        } else if k == 2 {
        } else {
        }
    }
}

/// A sampler that returns the source pixel at the output position, on a line as
/// long as the output.
pub open spec fn picks_position<P: Primitive, F, S: Fn(&F, SamplePos, &Vec<[P; 4]>) -> [P; 4]>(
    sample: S,
    filter: F,
) -> bool {
    forall|p: SamplePos, v: Vec<[P; 4]>, r: [P; 4]|
        p.pos < v@.len() && #[trigger] call_ensures(sample, (&filter, p, &v), r) ==> r
            == v@[p.pos as int]
}

/// A horizontal pass to the image's own width, with a sampler that returns
/// the source pixel at the output position, gives back the image: each output
/// pixel `(x, y)` comes from row `y` at index `x`.
pub proof fn lemma_horizontal_pass_identity<P: Primitive, F, S: Fn(&F, SamplePos, &Vec<[P; 4]>) -> [P; 4]>(
    image: ImageBuf<P>,
    filter: F,
    sample: S,
    out: ImageBuf<P>,
)
    requires
        image.spec_width() <= u32::MAX,
        picks_position(sample, filter),
        is_horizontal_pass(image, image.spec_width() as u32, filter, sample, out),
    ensures
        out.spec_width() == image.spec_width(),
        out.spec_height() == image.spec_height(),
        forall|x: int, y: int| #[trigger] out.in_bounds(x, y) ==> out.pixel(x, y) == image.pixel(x, y),
{
    assert forall|x: int, y: int| #[trigger] out.in_bounds(x, y) implies out.pixel(x, y)
        == image.pixel(x, y) by {
        let pos = SamplePos { new_len: image.spec_width() as u32, pos: x as u32 };
        assert(out.pixel(x, y) == out.pixel(x, y));
        let v = choose|v: Vec<[P; 4]>|
            v@ == spec_line(image, Axis::Horizontal, y) && #[trigger] call_ensures(
                sample,
                (&filter, pos, &v),
                out.pixel(x, y),
            );
        lemma_line_contents(image, Axis::Horizontal, y);
    }
}

/// A vertical pass to the image's own height, with a sampler that returns the
/// source pixel at the output position, gives back the image: each output
/// pixel `(x, y)` comes from column `x` at index `y`.
pub proof fn lemma_vertical_pass_identity<P: Primitive, F, S: Fn(&F, SamplePos, &Vec<[P; 4]>) -> [P; 4]>(
    image: ImageBuf<P>,
    filter: F,
    sample: S,
    out: ImageBuf<P>,
)
    requires
        image.spec_height() <= u32::MAX,
        picks_position(sample, filter),
        is_vertical_pass(image, image.spec_height() as u32, filter, sample, out),
    ensures
        out.spec_width() == image.spec_width(),
        out.spec_height() == image.spec_height(),
        forall|x: int, y: int| #[trigger] out.in_bounds(x, y) ==> out.pixel(x, y) == image.pixel(x, y),
{
    assert forall|x: int, y: int| #[trigger] out.in_bounds(x, y) implies out.pixel(x, y)
        == image.pixel(x, y) by {
        let pos = SamplePos { new_len: image.spec_height() as u32, pos: y as u32 };
        assert(out.pixel(x, y) == out.pixel(x, y));
        let v = choose|v: Vec<[P; 4]>|
            v@ == spec_line(image, Axis::Vertical, x) && #[trigger] call_ensures(
                sample,
                (&filter, pos, &v),
                out.pixel(x, y),
            );
        lemma_line_contents(image, Axis::Vertical, x);
    }
}

/// Separable sampling to the image's own size, with a sampler that returns
/// the source pixel at the output position, gives back the image; this is
/// `resize` to the same size with such a sampler, and the two passes of a
/// blur.
pub proof fn lemma_separable_identity<P: Primitive, F, S: Fn(&F, SamplePos, &Vec<[P; 4]>) -> [P; 4]>(
    image: ImageBuf<P>,
    filter: F,
    sample: S,
    out: ImageBuf<P>,
)
    requires
        image.spec_width() <= u32::MAX,
        image.spec_height() <= u32::MAX,
        picks_position(sample, filter),
        is_separable_sample(
            image,
            image.spec_width() as u32,
            image.spec_height() as u32,
            filter,
            sample,
            out,
        ),
    ensures
        out.spec_width() == image.spec_width(),
        out.spec_height() == image.spec_height(),
        forall|x: int, y: int| #[trigger] out.in_bounds(x, y) ==> out.pixel(x, y) == image.pixel(x, y),
{
    let w = image.spec_width() as u32;
    let h = image.spec_height() as u32;
    let tmp = choose|tmp: ImageBuf<P>|
        is_vertical_pass(image, h, filter, sample, tmp) && is_horizontal_pass(
            tmp,
            w,
            filter,
            sample,
            out,
        );
    lemma_vertical_pass_identity(image, filter, sample, tmp);
    lemma_horizontal_pass_identity(tmp, filter, sample, out);
    assert forall|x: int, y: int| #[trigger] out.in_bounds(x, y) implies out.pixel(x, y)
        == image.pixel(x, y) by {
        assert(tmp.in_bounds(x, y));
    }
}

/// With `min <= max`, clamping lands in `[min, max]`, leaves a value already
/// there unchanged, and clamping twice is clamping once.
pub proof fn lemma_clamp_in_range(a: int, min: int, max: int)
    requires
        min <= max,
    ensures
        min <= spec_clamp(a, min, max) <= max,
        min <= a <= max ==> spec_clamp(a, min, max) == a,
        spec_clamp(spec_clamp(a, min, max), min, max) == spec_clamp(a, min, max),
{
}

/// With `min <= max`, clamping preserves order: `a <= b` gives
/// `clamp(a) <= clamp(b)`.
pub proof fn lemma_clamp_monotonic(a: int, b: int, min: int, max: int)
    requires
        min <= max,
        a <= b,
    ensures
        spec_clamp(a, min, max) <= spec_clamp(b, min, max),
{
}

/// For a pixel away from the border, each of the nine taps reads inside the
/// image.
pub proof fn lemma_tap_in_bounds(width: nat, height: nat, x: int, y: int, k: int)
    requires
        0 <= x < width,
        0 <= y < height,
        !on_border(width, height, x, y),
        0 <= k < 9,
    ensures
        0 <= x + tap_offset(k).0 < width,
        0 <= y + tap_offset(k).1 < height,
{
}

/// An unsharp mask pushes a channel away from its blurred value: a channel
/// above the blur does not go down, one below it does not go up, and a
/// channel equal to it stays.
pub proof fn lemma_unsharpen_away_from_blur<P: Primitive>(c: P, d: P, threshold: i32)
    ensures
        c.spec_int() > d.spec_int() ==> spec_unsharpen_channel(c, d, threshold).spec_int()
            >= c.spec_int(),
        c.spec_int() < d.spec_int() ==> spec_unsharpen_channel(c, d, threshold).spec_int()
            <= c.spec_int(),
        c.spec_int() == d.spec_int() ==> spec_unsharpen_channel(c, d, threshold) == c,
{
    P::lemma_int_range(c);
    P::lemma_int_range(d);
    P::lemma_max_range();
    let v = spec_clamp(c.spec_int() + (c.spec_int() - d.spec_int()), 0, P::spec_max());
    lemma_clamp_in_range(c.spec_int() + (c.spec_int() - d.spec_int()), 0, P::spec_max());
    P::lemma_from_int(v);
    if c.spec_int() == d.spec_int() {
        P::lemma_from_int(c.spec_int());
        P::lemma_int_injective(P::spec_from_int(c.spec_int()), c);
    }
}

/// The mask adds the signed difference from the blur: when it exceeds the
/// threshold in size and the sum stays in range, the channel becomes
/// `2c - d`.
pub proof fn lemma_unsharpen_adds_difference<P: Primitive>(c: P, d: P, threshold: i32)
    requires
        (if c.spec_int() >= d.spec_int() {
            c.spec_int() - d.spec_int()
        } else {
            d.spec_int() - c.spec_int()
        }) > threshold,
        0 <= 2 * c.spec_int() - d.spec_int() <= P::spec_max(),
    ensures
        spec_unsharpen_channel(c, d, threshold).spec_int() == 2 * c.spec_int() - d.spec_int(),
{
    P::lemma_from_int(2 * c.spec_int() - d.spec_int());
}

/// A channel whose difference from the blurred one is at most the threshold
/// is kept.
pub proof fn lemma_unsharpen_within_threshold<P: Primitive>(c: P, d: P, threshold: i32)
    requires
        (if c.spec_int() >= d.spec_int() {
            c.spec_int() - d.spec_int()
        } else {
            d.spec_int() - c.spec_int()
        }) <= threshold,
    ensures
        spec_unsharpen_channel(c, d, threshold) == c,
{
}

/// Masking a pixel against itself leaves it unchanged, whatever the threshold.
pub proof fn lemma_unsharpen_against_itself<P: Primitive>(a: [P; 4], threshold: i32)
    ensures
        spec_unsharpen_pixel(a, a, threshold) == a,
{
    lemma_unsharpen_away_from_blur(a[0], a[0], threshold);
    lemma_unsharpen_away_from_blur(a[1], a[1], threshold);
    lemma_unsharpen_away_from_blur(a[2], a[2], threshold);
    lemma_unsharpen_away_from_blur(a[3], a[3], threshold);
    assert(spec_unsharpen_pixel(a, a, threshold) =~= a);
}

} // verus!
