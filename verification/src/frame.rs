//! A captured frame: a rectangle of 8-bit RGB pixels, stored row by row as
//! three bytes per pixel.

use vstd::prelude::*;

verus! {

/// A colour of three 8-bit channels.
#[derive(Clone, Copy, Debug, PartialEq, Eq, Structural)]
pub struct Rgb {
    pub r: u8,
    pub g: u8,
    pub b: u8,
}

/// The pixels that a packed buffer holds: bytes `3 * i`, `3 * i + 1` and
/// `3 * i + 2` are the red, green and blue channel of pixel `i`.
pub open spec fn pixels_of_bytes(bytes: Seq<u8>) -> Seq<Rgb> {
    Seq::new(
        (bytes.len() / 3) as nat,
        |i: int| Rgb { r: bytes[3 * i], g: bytes[3 * i + 1], b: bytes[3 * i + 2] },
    )
}

/// One snapshot of the display. Its buffer always holds exactly three bytes
/// for each of its `width * height` pixels.
pub struct Frame {
    width: u32,
    height: u32,
    data: Vec<u8>,
}

impl View for Frame {
    type V = Seq<Rgb>;

    /// The pixels of the frame, row by row.
    closed spec fn view(&self) -> Seq<Rgb> {
        pixels_of_bytes(self.data@)
    }
}

impl Frame {
    /// The buffer matches the dimensions.
    #[verifier::type_invariant]
    pub closed spec fn well_formed(self) -> bool {
        self.data@.len() == 3 * (self.width * self.height)
    }

    /// The number of pixels in a row.
    pub closed spec fn spec_width(self) -> u32 {
        self.width
    }

    /// The number of rows.
    pub closed spec fn spec_height(self) -> u32 {
        self.height
    }

    /// Builds a frame from its dimensions and a packed RGB buffer. The buffer
    /// is accepted exactly when it holds three bytes for each of the
    /// `width * height` pixels, no more and no fewer.
    pub fn from_raw(width: u32, height: u32, data: Vec<u8>) -> (out: Option<Frame>)
        ensures
            out is Some <==> data@.len() == 3 * (width * height),
            out matches Some(frame) ==> {
                &&& frame.well_formed()
                &&& frame.spec_width() == width
                &&& frame.spec_height() == height
                &&& frame@ == pixels_of_bytes(data@)
                &&& frame@.len() == width * height
            },
    {
        assert(width * height <= 0xffff_ffff * 0xffff_ffff) by (nonlinear_arith)
            requires
                width <= 0xffff_ffff,
                height <= 0xffff_ffff,
        ;
        let area: u64 = (width as u64) * (height as u64);
        let needed: u128 = 3 * (area as u128);
        if data.len() as u128 == needed {
            Some(Frame { width, height, data })
        } else {
            None
        }
    }

    /// The number of pixels in a row.
    pub fn width(&self) -> (w: u32)
        ensures
            w == self.spec_width(),
    {
        self.width
    }

    /// The number of rows.
    pub fn height(&self) -> (h: u32)
        ensures
            h == self.spec_height(),
    {
        self.height
    }

    /// The number of pixels.
    pub fn pixel_count(&self) -> (n: usize)
        ensures
            n == self@.len(),
            n == self.spec_width() * self.spec_height(),
    {
        proof {
            use_type_invariant(self);
        }
        self.data.len() / 3
    }

    /// The pixel at `index`, counting row by row from the top left.
    pub fn pixel(&self, index: usize) -> (p: Rgb)
        requires
            index < self@.len(),
        ensures
            p == self@[index as int],
    {
        assert(index < self.data.len() / 3);
        Rgb { r: self.data[3 * index], g: self.data[3 * index + 1], b: self.data[3 * index + 2] }
    }
}

} // verus!
