//! The planar YUV 4:2:0 picture buffer and its byte layout.
//!
//! A picture of `width` by `height` pixels is stored as three planes laid
//! end to end in one byte buffer: the luma plane (one byte per pixel, rows
//! of `width` bytes), then the two chroma planes, each holding one byte per
//! two-by-two block of pixels.

use crate::error::FrameError;
use vstd::prelude::*;
use vstd::slice::slice_subrange;

verus! {

/// Number of bytes in the luma plane of a `width` by `height` picture.
pub open spec fn luma_len(width: nat, height: nat) -> nat {
    width * height
}

/// Number of bytes in each of the two chroma planes.
pub open spec fn chroma_len(width: nat, height: nat) -> nat {
    (width * height) / 4
}

/// Number of bytes in the whole buffer: one luma plane and two chroma planes.
pub open spec fn planar_len(width: nat, height: nat) -> nat {
    luma_len(width, height) + 2 * chroma_len(width, height)
}

/// Bound on width and height for conversion: both must lie strictly below it.
pub const MAX_DIMENSION: u32 = 16383;

/// A planar YUV 4:2:0 picture.
#[derive(Debug)]
pub struct Yuv420P {
    pub width: u32,
    pub height: u32,
    pub data: Vec<u8>,
}

/// The mathematical value of a [`Yuv420P`].
pub struct Yuv420PView {
    pub width: nat,
    pub height: nat,
    pub data: Seq<u8>,
}

impl Yuv420PView {
    /// The buffer holds exactly the three planes.
    pub open spec fn well_formed(self) -> bool {
        self.data.len() == planar_len(self.width, self.height)
    }

    /// The luma plane: the first `width * height` bytes.
    pub open spec fn y(self) -> Seq<u8> {
        self.data.subrange(0, luma_len(self.width, self.height) as int)
    }

    /// The first chroma plane, which follows the luma plane.
    pub open spec fn u(self) -> Seq<u8> {
        self.data.subrange(
            luma_len(self.width, self.height) as int,
            (luma_len(self.width, self.height) + chroma_len(self.width, self.height)) as int,
        )
    }

    /// The second chroma plane, which ends the buffer.
    pub open spec fn v(self) -> Seq<u8> {
        self.data.subrange(
            (luma_len(self.width, self.height) + chroma_len(self.width, self.height)) as int,
            planar_len(self.width, self.height) as int,
        )
    }

    /// Position in a chroma plane of the block in column `bx` of row `by`:
    /// the rows of a chroma plane hold `width / 2` bytes.
    pub open spec fn chroma_index(self, bx: int, by: int) -> int {
        by * (self.width as int / 2) + bx
    }

    /// Luma of the pixel in column `x` of row `y`.
    pub open spec fn luma_at(self, x: int, y: int) -> u8 {
        self.y()[y * self.width + x]
    }

    /// First chroma value of the block in column `bx` of row `by`.
    pub open spec fn u_at(self, bx: int, by: int) -> u8 {
        self.u()[self.chroma_index(bx, by)]
    }

    /// Second chroma value of the block in column `bx` of row `by`.
    pub open spec fn v_at(self, bx: int, by: int) -> u8 {
        self.v()[self.chroma_index(bx, by)]
    }

    /// The picture can be converted to a packed one: it is well formed, and
    /// its width and height are even and below [`MAX_DIMENSION`].
    pub open spec fn convertible(self) -> bool {
        &&& self.well_formed()
        &&& self.width % 2 == 0
        &&& self.height % 2 == 0
        &&& self.width < MAX_DIMENSION
        &&& self.height < MAX_DIMENSION
    }
}

impl View for Yuv420P {
    type V = Yuv420PView;

    open spec fn view(&self) -> Yuv420PView {
        Yuv420PView { width: self.width as nat, height: self.height as nat, data: self.data@ }
    }
}

impl Clone for Yuv420P {
    fn clone(&self) -> (copy: Self)
        ensures
            copy@ == self@,
    {
        Yuv420P { width: self.width, height: self.height, data: self.data.clone() }
    }
}

/// The product of two 32-bit numbers, which always fits in 64 bits.
fn pixel_count(width: u32, height: u32) -> (count: u64)
    ensures
        count == width * height,
{
    assert(width * height <= 0xffff_ffff * 0xffff_ffff) by (nonlinear_arith)
        requires
            width <= 0xffff_ffff,
            height <= 0xffff_ffff,
    ;
    (width as u64) * (height as u64)
}

impl Yuv420P {
    /// Size of the luma plane in bytes.
    pub fn luma_size(&self) -> (size: u32)
        requires
            luma_len(self@.width, self@.height) <= u32::MAX,
        ensures
            size == luma_len(self@.width, self@.height),
    {
        pixel_count(self.width, self.height) as u32
    }

    /// Size of one chroma plane in bytes.
    pub fn chroma_size(&self) -> (size: u32)
        requires
            luma_len(self@.width, self@.height) <= u32::MAX,
        ensures
            size == chroma_len(self@.width, self@.height),
    {
        (pixel_count(self.width, self.height) / 4) as u32
    }

    /// Whether the buffer holds exactly one luma plane and two chroma planes.
    pub fn expected_yuv420p_size(&self) -> (ok: bool)
        ensures
            ok == self@.well_formed(),
    {
        let luma: u64 = pixel_count(self.width, self.height);
        let chroma: u64 = luma / 4;
        let len: u64 = self.data.len() as u64;
        len >= luma && len - luma == 2 * chroma
    }

    /// Width and height in pixels.
    pub fn dimensions(&self) -> (dims: (u32, u32))
        ensures
            dims == (self.width, self.height),
    {
        (self.width, self.height)
    }

    /// Takes a raw planar dump as a picture of the given dimensions.
    ///
    /// The bytes are accepted exactly when there are as many of them as the
    /// three planes need, and are then kept unchanged.
    pub fn open_yuv(source: Vec<u8>, width: u32, height: u32) -> (result: Result<
        Self,
        FrameError,
    >)
        ensures
            result is Ok <==> source@.len() == planar_len(width as nat, height as nat),
            result matches Ok(picture) ==> picture@ == (Yuv420PView {
                width: width as nat,
                height: height as nat,
                data: source@,
            }),
            result matches Err(error) ==> error == FrameError::SizeMismatch,
    {
        let picture = Yuv420P { width, height, data: source };
        if picture.expected_yuv420p_size() {
            Ok(picture)
        } else {
            Err(FrameError::SizeMismatch)
        }
    }

    /// The luma plane.
    pub fn y(&self) -> (plane: &[u8])
        requires
            self@.well_formed(),
        ensures
            plane@ == self@.y(),
    {
        let luma: u64 = pixel_count(self.width, self.height);
        let data = self.data.as_slice();
        assert(luma <= data.len());
        slice_subrange(data, 0, luma as usize)
    }

    /// The first chroma plane.
    pub fn u(&self) -> (plane: &[u8])
        requires
            self@.well_formed(),
        ensures
            plane@ == self@.u(),
    {
        let luma: u64 = pixel_count(self.width, self.height);
        let chroma: u64 = luma / 4;
        let data = self.data.as_slice();
        assert(luma + 2 * chroma == data.len());
        slice_subrange(data, luma as usize, (luma + chroma) as usize)
    }

    /// The second chroma plane.
    pub fn v(&self) -> (plane: &[u8])
        requires
            self@.well_formed(),
        ensures
            plane@ == self@.v(),
    {
        let luma: u64 = pixel_count(self.width, self.height);
        let chroma: u64 = luma / 4;
        let data = self.data.as_slice();
        assert(luma + 2 * chroma == data.len());
        slice_subrange(data, (luma + chroma) as usize, (luma + chroma + chroma) as usize)
    }
}

/// The three planes have the sizes the layout prescribes, do not overlap,
/// and together make up the whole buffer in the order luma, first chroma,
/// second chroma.
pub proof fn lemma_planes_partition(picture: Yuv420PView)
    requires
        picture.well_formed(),
    ensures
        picture.y().len() == picture.width * picture.height,
        picture.u().len() == (picture.width * picture.height) / 4,
        picture.v().len() == (picture.width * picture.height) / 4,
        picture.data == picture.y() + picture.u() + picture.v(),
{
}

/// For a picture whose pixel count leaves a remainder below two on division
/// by four, and so for every picture with even width and height, the buffer
/// holds three bytes for every two pixels.
pub proof fn lemma_planar_len_three_halves(width: nat, height: nat)
    requires
        (width * height) % 4 < 2,
    ensures
        planar_len(width, height) == (width * height * 3) / 2,
{
}

/// Pictures with even width and height have a pixel count divisible by four,
/// and one block of two by two pixels for every byte of a chroma plane.
pub proof fn lemma_even_dimensions_pixel_count(width: nat, height: nat)
    requires
        width % 2 == 0,
        height % 2 == 0,
    ensures
        (width * height) % 4 == 0,
        (width / 2) * (height / 2) == chroma_len(width, height),
{
    let half_width = width / 2;
    let half_height = height / 2;
    assert(width * height == 4 * (half_width * half_height)) by (nonlinear_arith)
        requires
            width == 2 * half_width,
            height == 2 * half_height,
    ;
}

} // verus!
