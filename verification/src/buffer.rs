//! A rectangular buffer of four-channel pixels stored row by row.

use vstd::prelude::*;

verus! {

/// A channel type: an unsigned integer from zero up to a maximum.
pub trait Primitive: Copy + Sized {
    /// The channel's value.
    spec fn spec_int(self) -> int;

    /// The largest value a channel can hold.
    spec fn spec_max() -> int;

    /// The channel holding `v`, for `0 <= v <= spec_max()`.
    spec fn spec_from_int(v: int) -> Self;

    proof fn lemma_int_range(c: Self)
        ensures
            0 <= c.spec_int() <= Self::spec_max(),
    ;

    proof fn lemma_max_range()
        ensures
            0 < Self::spec_max() <= 0x3fff_ffff,
    ;

    proof fn lemma_from_int(v: int)
        requires
            0 <= v <= Self::spec_max(),
        ensures
            Self::spec_from_int(v).spec_int() == v,
    ;

    proof fn lemma_int_injective(a: Self, b: Self)
        requires
            a.spec_int() == b.spec_int(),
        ensures
            a == b,
    ;

    /// The channel at zero.
    fn zero() -> (r: Self)
        ensures
            r == Self::spec_from_int(0),
    ;

    /// The largest channel value.
    fn max_value() -> (r: Self)
        ensures
            r.spec_int() == Self::spec_max(),
    ;

    fn to_i32(self) -> (r: i32)
        ensures
            r == self.spec_int(),
    ;

    fn from_i32(v: i32) -> (r: Self)
        requires
            0 <= v <= Self::spec_max(),
        ensures
            r == Self::spec_from_int(v as int),
    ;
}

impl Primitive for u8 {
    open spec fn spec_int(self) -> int {
        self as int
    }

    open spec fn spec_max() -> int {
        255
    }

    open spec fn spec_from_int(v: int) -> Self {
        v as u8
    }

    proof fn lemma_int_range(c: Self) {
    }

    proof fn lemma_max_range() {
    }

    proof fn lemma_from_int(v: int) {
    }

    proof fn lemma_int_injective(a: Self, b: Self) {
    }

    fn zero() -> (r: Self) {
        0
    }

    fn max_value() -> (r: Self) {
        255
    }

    fn to_i32(self) -> (r: i32) {
        self as i32
    }

    fn from_i32(v: i32) -> (r: Self) {
        v as u8
    }
}

impl Primitive for u16 {
    open spec fn spec_int(self) -> int {
        self as int
    }

    open spec fn spec_max() -> int {
        65535
    }

    open spec fn spec_from_int(v: int) -> Self {
        v as u16
    }

    proof fn lemma_int_range(c: Self) {
    }

    proof fn lemma_max_range() {
    }

    proof fn lemma_from_int(v: int) {
    }

    proof fn lemma_int_injective(a: Self, b: Self) {
    }

    fn zero() -> (r: Self) {
        0
    }

    fn max_value() -> (r: Self) {
        65535
    }

    fn to_i32(self) -> (r: i32) {
        self as i32
    }

    fn from_i32(v: i32) -> (r: Self) {
        v as u16
    }
}

/// The pixel with every channel at zero.
pub open spec fn zero_pixel<P: Primitive>() -> [P; 4] {
    [P::spec_from_int(0), P::spec_from_int(0), P::spec_from_int(0), P::spec_from_int(0)]
}

/// Position of pixel `(x, y)` in a row-major buffer of the given width.
pub open spec fn pixel_index(width: nat, x: int, y: int) -> int {
    y * width + x
}

proof fn lemma_index_in_bounds(width: nat, height: nat, x: int, y: int)
    requires
        0 <= x < width,
        0 <= y < height,
    ensures
        0 <= pixel_index(width, x, y) < width * height,
{
    assert(0 <= y * width) by (nonlinear_arith)
        requires
            0 <= y,
            0 <= width,
    ;
    assert(y * width + x < width * height) by (nonlinear_arith)
        requires
            0 <= x < width,
            0 <= y < height,
    ;
}

proof fn lemma_index_distinct(width: nat, x1: int, y1: int, x2: int, y2: int)
    requires
        0 <= x1 < width,
        0 <= x2 < width,
        x1 != x2 || y1 != y2,
    ensures
        pixel_index(width, x1, y1) != pixel_index(width, x2, y2),
{
    if y1 == y2 {
    } else if y1 < y2 {
        assert(y1 * width + width <= y2 * width) by (nonlinear_arith)
            requires
                y1 < y2,
                0 <= width,
        ;
    } else {
        assert(y2 * width + width <= y1 * width) by (nonlinear_arith)
            requires
                y2 < y1,
                0 <= width,
        ;
    }
}

/// An image of `width` x `height` pixels, each with four channels of type `P`.
pub struct ImageBuf<P: Primitive> {
    width: u32,
    height: u32,
    data: Vec<[P; 4]>,
}

impl<P: Primitive> ImageBuf<P> {
    /// The buffer holds exactly one pixel per position.
    #[verifier::type_invariant]
    spec fn well_formed(self) -> bool {
        &&& self.data@.len() == self.width as nat * self.height as nat
        &&& self.data@.len() <= usize::MAX
    }

    /// Number of columns.
    pub closed spec fn spec_width(&self) -> nat {
        self.width as nat
    }

    /// Number of rows.
    pub closed spec fn spec_height(&self) -> nat {
        self.height as nat
    }

    /// The pixels in row-major order.
    pub closed spec fn spec_pixels(&self) -> Seq<[P; 4]> {
        self.data@
    }

    pub open spec fn in_bounds(&self, x: int, y: int) -> bool {
        0 <= x < self.spec_width() && 0 <= y < self.spec_height()
    }

    /// The pixel at column `x`, row `y`.
    pub open spec fn pixel(&self, x: int, y: int) -> [P; 4] {
        self.spec_pixels()[pixel_index(self.spec_width(), x, y)]
    }

    /// Creates an image of the given dimensions with every channel at zero.
    pub fn new(width: u32, height: u32) -> (img: ImageBuf<P>)
        requires
            width as nat * height as nat <= usize::MAX,
        ensures
            img.spec_width() == width,
            img.spec_height() == height,
            img.spec_pixels().len() == width as nat * height as nat,
            forall|x: int, y: int| img.in_bounds(x, y) ==> img.pixel(x, y) == zero_pixel::<P>(),
    {
        let n: usize = width as usize * height as usize;
        let z = P::zero();
        let mut data: Vec<[P; 4]> = Vec::new();
        let mut i: usize = 0;
        while i < n
            invariant
                i <= n,
                z == P::spec_from_int(0),
                data@.len() == i,
                forall|j: int| 0 <= j < i ==> data@[j] == zero_pixel::<P>(),
            decreases n - i,
        {
            data.push([z, z, z, z]);
            i = i + 1;
        }
        let img = ImageBuf { width, height, data };
        proof {
            assert forall|x: int, y: int| img.in_bounds(x, y) implies img.pixel(x, y)
                == zero_pixel::<P>() by {
                lemma_index_in_bounds(width as nat, height as nat, x, y);
            }
        }
        img
    }

    /// Creates an image from its pixels in row-major order, or `None` when
    /// their number is not `width * height`.
    pub fn from_pixels(width: u32, height: u32, pixels: Vec<[P; 4]>) -> (r: Option<ImageBuf<P>>)
        ensures
            r is Some <==> pixels@.len() == width as nat * height as nat,
            r matches Some(img) ==> img.spec_width() == width && img.spec_height() == height
                && img.spec_pixels() == pixels@,
    {
        proof {
            assert(width as nat * height as nat <= u64::MAX) by (nonlinear_arith)
                requires
                    width <= u32::MAX,
                    height <= u32::MAX,
            ;
        }
        let n: u64 = width as u64 * height as u64;
        if pixels.len() as u64 == n {
            Some(ImageBuf { width, height, data: pixels })
        } else {
            None
        }
    }

    /// The width and height; their product fits in memory.
    pub fn dimensions(&self) -> (r: (u32, u32))
        ensures
            r.0 == self.spec_width(),
            r.1 == self.spec_height(),
            self.spec_width() * self.spec_height() <= usize::MAX,
            self.spec_pixels().len() == self.spec_width() * self.spec_height(),
    {
        proof {
            use_type_invariant(self);
        }
        (self.width, self.height)
    }

    /// The pixels in row-major order.
    pub fn pixels(&self) -> (r: &Vec<[P; 4]>)
        ensures
            r@ == self.spec_pixels(),
            r@.len() == self.spec_width() * self.spec_height(),
    {
        proof {
            use_type_invariant(self);
        }
        &self.data
    }

    fn index_of(&self, x: u32, y: u32) -> (i: usize)
        requires
            self.in_bounds(x as int, y as int),
        ensures
            i == pixel_index(self.spec_width(), x as int, y as int),
            i < self.spec_pixels().len(),
    {
        proof {
            use_type_invariant(self);
            lemma_index_in_bounds(self.width as nat, self.height as nat, x as int, y as int);
            assert(0 <= y as int * self.width as int) by (nonlinear_arith)
                requires
                    0 <= y,
            ;
        }
        y as usize * self.width as usize + x as usize
    }

    /// The pixel at column `x`, row `y`.
    pub fn get_pixel(&self, x: u32, y: u32) -> (p: [P; 4])
        requires
            self.in_bounds(x as int, y as int),
        ensures
            p == self.pixel(x as int, y as int),
    {
        let i = self.index_of(x, y);
        self.data[i]
    }

    /// Replaces the pixel at column `x`, row `y`.
    pub fn put_pixel(&mut self, x: u32, y: u32, p: [P; 4])
        requires
            old(self).in_bounds(x as int, y as int),
        ensures
            final(self).spec_width() == old(self).spec_width(),
            final(self).spec_height() == old(self).spec_height(),
            final(self).pixel(x as int, y as int) == p,
            forall|i: int, j: int|
                final(self).in_bounds(i, j) && (i != x || j != y) ==> final(self).pixel(i, j)
                    == old(self).pixel(i, j),
    {
        let i = self.index_of(x, y);
        let mut taken = ImageBuf { width: 0, height: 0, data: Vec::new() };
        std::mem::swap(self, &mut taken);
        proof {
            use_type_invariant(&taken);
        }
        let ImageBuf { width, height, mut data } = taken;
        data.set(i, p);
        *self = ImageBuf { width, height, data };
        proof {
            assert forall|a: int, b: int|
                self.in_bounds(a, b) && (a != x || b != y) implies self.pixel(a, b)
                    == old(self).pixel(a, b) by {
                lemma_index_in_bounds(width as nat, height as nat, a, b);
                lemma_index_distinct(width as nat, x as int, y as int, a, b);
            }
        }
    }
}

} // verus!
