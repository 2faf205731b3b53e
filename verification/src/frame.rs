//! The one thing a camera hands back.

use vstd::prelude::*;

verus! {

/// Bytes per pixel in the RGB8 layout a [`Frame`] holds.
pub const CHANNELS: usize = 3;

/// Ways a [`Frame`] can fail to describe an image.
#[derive(Debug, Clone, Copy, PartialEq, Eq)]
pub enum FrameError {
    /// A frame with a zero dimension has no pixels to capture.
    ZeroDimension { width: u32, height: u32 },
    /// The buffer does not hold exactly `width * height * 3` bytes.
    SizeMismatch { width: u32, height: u32, expected: usize, actual: usize },
}

/// Bytes a `width` by `height` RGB8 frame needs.
pub open spec fn rgb8_len(width: int, height: int) -> int {
    width * height * 3
}

/// One frame off a camera, as 8-bit RGB, kept at full quality.
#[derive(Debug, PartialEq, Eq)]
pub struct Frame {
    width: u32,
    height: u32,
    pixels: Vec<u8>,
}

/// A copy of a byte buffer.
pub fn copy_bytes(bytes: &Vec<u8>) -> (r: Vec<u8>)
    ensures
        r@ == bytes@,
{
    let mut r: Vec<u8> = Vec::new();
    let mut i: usize = 0;
    while i < bytes.len()
        invariant
            i <= bytes@.len(),
            r@ == bytes@.take(i as int),
        decreases bytes@.len() - i,
    {
        r.push(bytes[i]);
        i = i + 1;
        assert(r@ =~= bytes@.take(i as int));
    }
    assert(bytes@.take(bytes@.len() as int) =~= bytes@);
    r
}

/// `count` copies of `value`.
pub fn filled(value: u8, count: usize) -> (r: Vec<u8>)
    ensures
        r@ == Seq::new(count as nat, |i: int| value),
{
    let mut r: Vec<u8> = Vec::new();
    let mut i: usize = 0;
    while i < count
        invariant
            i <= count,
            r@ == Seq::new(i as nat, |k: int| value),
        decreases count - i,
    {
        r.push(value);
        i = i + 1;
        assert(r@ =~= Seq::new(i as nat, |k: int| value));
    }
    r
}

impl Frame {
    #[verifier::type_invariant]
    closed spec fn inv(self) -> bool {
        &&& self.width > 0
        &&& self.height > 0
        &&& self.pixels@.len() == rgb8_len(self.width as int, self.height as int)
    }

    /// Width in pixels, as a specification value.
    pub closed spec fn spec_width(self) -> u32 {
        self.width
    }

    /// Height in pixels, as a specification value.
    pub closed spec fn spec_height(self) -> u32 {
        self.height
    }

    /// The packed pixels, as a specification value.
    pub closed spec fn spec_pixels(self) -> Seq<u8> {
        self.pixels@
    }

    /// Creates a frame from a tightly packed RGB8 buffer.
    ///
    /// Refuses a zero dimension first, then a buffer that is not exactly
    /// `width * height * 3` bytes.
    pub fn from_rgb8(width: u32, height: u32, pixels: Vec<u8>) -> (r: Result<Self, FrameError>)
        requires
            rgb8_len(width as int, height as int) <= usize::MAX,
        ensures
            r is Ok <==> (width > 0 && height > 0 && pixels@.len() == rgb8_len(
                width as int,
                height as int,
            )),
            match r {
                Ok(f) => {
                    &&& f.spec_width() == width
                    &&& f.spec_height() == height
                    &&& f.spec_pixels() == pixels@
                },
                Err(FrameError::ZeroDimension { width: w, height: h }) => {
                    &&& width == 0 || height == 0
                    &&& w == width
                    &&& h == height
                },
                Err(FrameError::SizeMismatch { width: w, height: h, expected, actual }) => {
                    &&& width > 0 && height > 0
                    &&& w == width
                    &&& h == height
                    &&& expected == rgb8_len(width as int, height as int)
                    &&& actual == pixels@.len()
                    &&& actual != expected
                },
            },
    {
        if width == 0 || height == 0 {
            return Err(FrameError::ZeroDimension { width, height });
        }
        assert(width as int * height as int <= rgb8_len(width as int, height as int))
            by (nonlinear_arith)
            requires
                height >= 1,
                width >= 1,
        ;
        let expected = width as usize * height as usize * CHANNELS;
        if pixels.len() != expected {
            return Err(FrameError::SizeMismatch { width, height, expected, actual: pixels.len() });
        }
        Ok(Frame { width, height, pixels })
    }

    /// Frame width in pixels.
    pub fn width(&self) -> (r: u32)
        ensures
            r == self.spec_width(),
            r > 0,
    {
        proof {
            use_type_invariant(self);
        }
        self.width
    }

    /// Frame height in pixels.
    pub fn height(&self) -> (r: u32)
        ensures
            r == self.spec_height(),
            r > 0,
    {
        proof {
            use_type_invariant(self);
        }
        self.height
    }

    /// The packed RGB8 pixels.
    pub fn pixels(&self) -> (r: &[u8])
        ensures
            r@ == self.spec_pixels(),
            r@.len() == rgb8_len(self.spec_width() as int, self.spec_height() as int),
    {
        proof {
            use_type_invariant(self);
        }
        self.pixels.as_slice()
    }

    /// Consumes the frame, yielding its packed RGB8 pixels.
    pub fn into_pixels(self) -> (r: Vec<u8>)
        ensures
            r@ == self.spec_pixels(),
            r@.len() == rgb8_len(self.spec_width() as int, self.spec_height() as int),
    {
        proof {
            use_type_invariant(&self);
        }
        self.pixels
    }

    /// The same frame, with every byte replaced by `value`.
    pub fn flooded(&self, value: u8) -> (r: Frame)
        ensures
            r.spec_width() == self.spec_width(),
            r.spec_height() == self.spec_height(),
            r.spec_pixels() == Seq::new(self.spec_pixels().len(), |i: int| value),
    {
        proof {
            use_type_invariant(self);
        }
        let pixels = filled(value, self.pixels.len());
        Frame { width: self.width, height: self.height, pixels }
    }
}

impl Clone for Frame {
    fn clone(&self) -> (r: Self)
        ensures
            r.spec_width() == self.spec_width(),
            r.spec_height() == self.spec_height(),
            r.spec_pixels() == self.spec_pixels(),
    {
        proof {
            use_type_invariant(self);
        }
        Frame { width: self.width, height: self.height, pixels: copy_bytes(&self.pixels) }
    }
}

} // verus!
