//! A buffer of RGBA pixels, four bytes each, row by row.

use vstd::prelude::*;

verus! {

/// The place of the first byte of pixel `(x, y)` in a buffer of rows of
/// `width` pixels.
pub open spec fn pixel_offset(width: int, x: int, y: int) -> int {
    (width * y + x) * 4
}

/// The bytes `s` with the four bytes from `offset` on replaced by the red,
/// green, blue and alpha value of a pixel.
pub open spec fn with_pixel(s: Seq<u8>, offset: int, rgba: (u8, u8, u8, u8)) -> Seq<u8> {
    s.update(offset, rgba.0).update(offset + 1, rgba.1).update(offset + 2, rgba.2).update(
        offset + 3,
        rgba.3,
    )
}

/// A pixel of an image lies within its buffer, and no two pixels overlap.
pub proof fn lemma_pixel_in_buffer(width: int, height: int, x: int, y: int)
    requires
        0 <= x < width,
        0 <= y < height,
    ensures
        0 <= pixel_offset(width, x, y),
        pixel_offset(width, x, y) + 4 <= width * height * 4,
{
    assert(0 <= width * y + x <= width * height - 1) by (nonlinear_arith)
        requires
            0 <= x < width,
            0 <= y < height,
    {
        assert(width * y <= width * (height - 1));
    }
}

/// An image of `width` by `height` pixels. Its view is the sequence of its
/// bytes.
pub struct RgbaBuffer {
    buffer: Vec<u8>,
    width: usize,
    height: usize,
}

impl View for RgbaBuffer {
    type V = Seq<u8>;

    closed spec fn view(&self) -> Seq<u8> {
        self.buffer@
    }
}

impl RgbaBuffer {
    /// The width of the image in pixels.
    pub closed spec fn spec_width(&self) -> usize {
        self.width
    }

    /// The height of the image in pixels.
    pub closed spec fn spec_height(&self) -> usize {
        self.height
    }

    /// The buffer holds four bytes for each pixel, and each byte can be
    /// addressed.
    pub closed spec fn wf(&self) -> bool {
        &&& self.buffer@.len() == self.width * self.height * 4
        &&& self.width * self.height * 4 <= usize::MAX
    }

    /// An image of `width` by `height` pixels, all of them zero.
    pub fn new(width: usize, height: usize) -> (image: RgbaBuffer)
        requires
            width * height * 4 <= usize::MAX,
        ensures
            image.wf(),
            image.spec_width() == width,
            image.spec_height() == height,
            image@ == Seq::new((width * height * 4) as nat, |i: int| 0u8),
    {
        assert(width * height <= width * height * 4) by (nonlinear_arith);
        let len = width * height * 4;
        let mut buffer: Vec<u8> = Vec::new();
        let mut i: usize = 0;
        while i < len
            invariant
                i <= len,
                buffer@ == Seq::new(i as nat, |j: int| 0u8),
            decreases len - i,
        {
            buffer.push(0);
            i += 1;
            assert(buffer@ =~= Seq::new(i as nat, |j: int| 0u8));
        }
        RgbaBuffer { buffer, width, height }
    }

    /// The width of the image in pixels.
    #[verifier::when_used_as_spec(spec_width)]
    pub fn width(&self) -> (width: usize)
        ensures
            width == self.spec_width(),
    {
        self.width
    }

    /// The height of the image in pixels.
    #[verifier::when_used_as_spec(spec_height)]
    pub fn height(&self) -> (height: usize)
        ensures
            height == self.spec_height(),
    {
        self.height
    }

    /// Stores the pixel `(x, y)` as its red, green, blue and alpha byte.
    pub fn put_pixel(&mut self, x: usize, y: usize, rgba: (u8, u8, u8, u8))
        requires
            old(self).wf(),
            x < old(self).spec_width(),
            y < old(self).spec_height(),
        ensures
            final(self).wf(),
            final(self).spec_width() == old(self).spec_width(),
            final(self).spec_height() == old(self).spec_height(),
            final(self)@ == with_pixel(
                old(self)@,
                pixel_offset(old(self).spec_width() as int, x as int, y as int),
                rgba,
            ),
    {
        proof {
            lemma_pixel_in_buffer(self.width as int, self.height as int, x as int, y as int);
            assert(self.buffer@.len() <= usize::MAX);
            assert(0 <= self.width * y) by (nonlinear_arith)
                requires
                    0 <= self.width,
                    0 <= y,
            ;
            assert((self.width * y + x) * 4 == pixel_offset(
                self.width as int,
                x as int,
                y as int,
            ));
        }
        let offset = (self.width * y + x) * 4;
        let (r, g, b, a) = rgba;
        self.buffer[offset] = r;
        self.buffer[offset + 1] = g;
        self.buffer[offset + 2] = b;
        self.buffer[offset + 3] = a;
    }

    /// The bytes of the image, its width and its height.
    pub fn into_parts(self) -> (parts: (Vec<u8>, usize, usize))
        ensures
            parts.0@ == self@,
            parts.1 == self.spec_width(),
            parts.2 == self.spec_height(),
    {
        (self.buffer, self.width, self.height)
    }
}

} // verus!
