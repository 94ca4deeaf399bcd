//! Conversion between packed RGBA pictures and planar YUV 4:2:0 pictures.
//!
//! The forward direction trims the picture to even dimensions, computes one
//! luma byte per pixel and one pair of chroma bytes per block of two by two
//! pixels, and lays the three planes end to end. The inverse direction gives
//! every pixel the chroma of its block and full opacity.

use crate::color::{
    blue_of, chroma, chroma_u_of, chroma_v_of, green_of, luma, luma_of, red_of, rgb, Rgb,
};
use crate::error::FrameError;
use crate::packed::{
    ensure_even_reslution, even_floor, lemma_pixel_index_bound, lemma_pixel_index_split,
    PackedImage, PackedImageView,
};
use crate::planar::{
    chroma_len, lemma_even_dimensions_pixel_count, luma_len, planar_len, Yuv420P, Yuv420PView,
    MAX_DIMENSION,
};
use vstd::prelude::*;

verus! {

/// First chroma value of the block of two by two pixels in column `bx` of
/// row `by` of blocks.
pub open spec fn block_u(image: PackedImageView, bx: int, by: int) -> int {
    chroma_u_of(
        image.pixel(2 * bx, 2 * by),
        image.pixel(2 * bx + 1, 2 * by),
        image.pixel(2 * bx, 2 * by + 1),
        image.pixel(2 * bx + 1, 2 * by + 1),
    )
}

/// Second chroma value of the block in column `bx` of row `by` of blocks.
pub open spec fn block_v(image: PackedImageView, bx: int, by: int) -> int {
    chroma_v_of(
        image.pixel(2 * bx, 2 * by),
        image.pixel(2 * bx + 1, 2 * by),
        image.pixel(2 * bx, 2 * by + 1),
        image.pixel(2 * bx + 1, 2 * by + 1),
    )
}

/// The luma plane of a packed picture: the luma of every pixel, row by row.
pub open spec fn luma_plane_of(image: PackedImageView) -> Seq<u8> {
    Seq::new(
        luma_len(image.width, image.height),
        |i: int| luma_of(image.pixel(i % (image.width as int), i / (image.width as int))) as u8,
    )
}

/// The first chroma plane of a packed picture of even dimensions: the first
/// chroma value of every block, row by row.
pub open spec fn u_plane_of(image: PackedImageView) -> Seq<u8> {
    Seq::new(
        chroma_len(image.width, image.height),
        |j: int| block_u(image, j % (image.width as int / 2), j / (image.width as int / 2)) as u8,
    )
}

/// The second chroma plane of a packed picture of even dimensions.
pub open spec fn v_plane_of(image: PackedImageView) -> Seq<u8> {
    Seq::new(
        chroma_len(image.width, image.height),
        |j: int| block_v(image, j % (image.width as int / 2), j / (image.width as int / 2)) as u8,
    )
}

/// The planar picture of a packed picture of even dimensions.
pub open spec fn planar_of(image: PackedImageView) -> Yuv420PView {
    Yuv420PView {
        width: image.width,
        height: image.height,
        data: luma_plane_of(image) + u_plane_of(image) + v_plane_of(image),
    }
}

/// One byte of the packed picture of a planar picture: the channels of a
/// pixel come from its luma and the chroma of its block, the fourth byte of
/// every pixel is full opacity.
pub open spec fn packed_byte(picture: Yuv420PView, i: int) -> u8 {
    let x = (i / 4) % (picture.width as int);
    let y = (i / 4) / (picture.width as int);
    let luma = picture.luma_at(x, y) as int;
    let u = picture.u_at(x / 2, y / 2) as int;
    let v = picture.v_at(x / 2, y / 2) as int;
    if i % 4 == 0 {
        red_of(luma, v) as u8
    } else if i % 4 == 1 {
        green_of(luma, u, v) as u8
    } else if i % 4 == 2 {
        blue_of(luma, u) as u8
    } else {
        255
    }
}

/// The packed picture of a planar picture of even dimensions.
pub open spec fn packed_of(picture: Yuv420PView) -> PackedImageView {
    PackedImageView {
        width: picture.width,
        height: picture.height,
        data: Seq::new(picture.width * picture.height * 4, |i: int| packed_byte(picture, i)),
    }
}

/// The planes of the planar picture of a packed picture are the three planes
/// it was assembled from, and the picture is well formed.
pub proof fn lemma_planar_of_planes(image: PackedImageView)
    ensures
        planar_of(image).well_formed(),
        planar_of(image).y() == luma_plane_of(image),
        planar_of(image).u() == u_plane_of(image),
        planar_of(image).v() == v_plane_of(image),
{
    let p = planar_of(image);
    assert(p.y() =~= luma_plane_of(image));
    assert(p.u() =~= u_plane_of(image));
    assert(p.v() =~= v_plane_of(image));
}

/// In the planar picture of a packed picture of even dimensions, every pixel
/// has the luma of its colour and every block the chroma of its four pixels.
pub proof fn lemma_planar_of_values(image: PackedImageView, x: int, y: int)
    requires
        image.width % 2 == 0,
        image.height % 2 == 0,
        0 <= x < image.width,
        0 <= y < image.height,
    ensures
        planar_of(image).luma_at(x, y) == luma_of(image.pixel(x, y)),
        planar_of(image).u_at(x / 2, y / 2) == block_u(image, x / 2, y / 2),
        planar_of(image).v_at(x / 2, y / 2) == block_v(image, x / 2, y / 2),
{
    let w = image.width as int;
    let h = image.height as int;
    lemma_planar_of_planes(image);
    lemma_pixel_index_bound(x, y, w, h);
    crate::color::lemma_luma_range(image.pixel(x, y));
    lemma_even_dimensions_pixel_count(image.width, image.height);
    lemma_pixel_index_bound(x / 2, y / 2, w / 2, h / 2);
}

/// In the packed picture of a planar picture, every pixel has the colour of
/// its luma and of the chroma of its block, and is fully opaque.
pub proof fn lemma_packed_of_values(picture: Yuv420PView, x: int, y: int)
    requires
        0 <= x < picture.width,
        0 <= y < picture.height,
    ensures
        packed_of(picture).well_formed(),
        packed_of(picture).alpha(x, y) == 255,
        packed_of(picture).pixel(x, y) == (Rgb {
            r: red_of(picture.luma_at(x, y) as int, picture.v_at(x / 2, y / 2) as int) as u8,
            g: green_of(
                picture.luma_at(x, y) as int,
                picture.u_at(x / 2, y / 2) as int,
                picture.v_at(x / 2, y / 2) as int,
            ) as u8,
            b: blue_of(picture.luma_at(x, y) as int, picture.u_at(x / 2, y / 2) as int) as u8,
        }),
{
    let packed = packed_of(picture);
    let at = packed.offset(x, y);
    lemma_pixel_index_bound(x, y, picture.width as int, picture.height as int);
    assert(packed.data[at] == packed_byte(picture, at));
    assert(packed.data[at + 1] == packed_byte(picture, at + 1));
    assert(packed.data[at + 2] == packed_byte(picture, at + 2));
    assert(packed.data[at + 3] == packed_byte(picture, at + 3));
}

/// Every pixel of a picture whose colour bytes are all zero is black.
proof fn lemma_black_pixel(image: PackedImageView, x: int, y: int)
    requires
        image.well_formed(),
        forall|i: int| 0 <= i < image.data.len() && i % 4 != 3 ==> image.data[i] == 0,
        0 <= x < image.width,
        0 <= y < image.height,
    ensures
        image.pixel(x, y) == (Rgb { r: 0, g: 0, b: 0 }),
{
    lemma_pixel_index_bound(x, y, image.width as int, image.height as int);
}

/// In the planar picture of a black picture of even dimensions, every pixel
/// has the lowest luma and every block neutral chroma.
proof fn lemma_black_planar(image: PackedImageView, x: int, y: int)
    requires
        image.well_formed(),
        image.width % 2 == 0,
        image.height % 2 == 0,
        forall|i: int| 0 <= i < image.data.len() && i % 4 != 3 ==> image.data[i] == 0,
        0 <= x < image.width,
        0 <= y < image.height,
    ensures
        planar_of(image).luma_at(x, y) == 16,
        planar_of(image).u_at(x / 2, y / 2) == 128,
        planar_of(image).v_at(x / 2, y / 2) == 128,
{
    let black = Rgb { r: 0, g: 0, b: 0 };
    lemma_planar_of_values(image, x, y);
    lemma_black_pixel(image, x, y);
    lemma_black_pixel(image, 2 * (x / 2), 2 * (y / 2));
    lemma_black_pixel(image, 2 * (x / 2) + 1, 2 * (y / 2));
    lemma_black_pixel(image, 2 * (x / 2), 2 * (y / 2) + 1);
    lemma_black_pixel(image, 2 * (x / 2) + 1, 2 * (y / 2) + 1);
    crate::color::lemma_black(black);
    assert(block_u(image, x / 2, y / 2) == chroma_u_of(black, black, black, black));
    assert(block_v(image, x / 2, y / 2) == chroma_v_of(black, black, black, black));
}

/// A black picture of even dimensions, converted to a planar picture and
/// back, is black again, fully opaque, and of the same dimensions.
///
/// Trimming leaves such a picture unchanged, so this is what
/// [`Yuv420P::from_image`] followed by [`Yuv420P::to_rgba_image`] returns
/// for every such picture that [`Yuv420P::from_image`] accepts.
pub proof fn lemma_black_round_trip(image: PackedImageView)
    requires
        image.well_formed(),
        image.width % 2 == 0,
        image.height % 2 == 0,
        forall|i: int| 0 <= i < image.data.len() && i % 4 != 3 ==> image.data[i] == 0,
    ensures
        image.trimmed() == image,
        packed_of(planar_of(image)).width == image.width,
        packed_of(planar_of(image)).height == image.height,
        packed_of(planar_of(image)).well_formed(),
        forall|i: int|
            0 <= i < image.data.len() ==> packed_of(planar_of(image)).data[i] == (if i % 4 == 3 {
                255u8
            } else {
                0u8
            }),
{
    crate::packed::lemma_cropped_whole(image);
    let back = packed_of(planar_of(image));
    let w = image.width as int;
    let h = image.height as int;
    assert forall|i: int| 0 <= i < image.data.len() implies back.data[i] == (if i % 4 == 3 {
        255u8
    } else {
        0u8
    }) by {
        let px = i / 4;
        if w == 0 {
            assert(image.width * image.height == 0) by (nonlinear_arith)
                requires
                    image.width == 0,
            ;
        }
        lemma_pixel_index_split(px, w, h);
        lemma_black_planar(image, px % w, px / w);
    }
}

/// Computes the luma plane of a packed picture.
fn luma_plane(image: &PackedImage) -> (plane: Vec<u8>)
    requires
        image@.well_formed(),
    ensures
        plane@ == luma_plane_of(image@),
{
    let width: usize = image.width as usize;
    let count: usize = image.data.len() / 4;
    let mut plane: Vec<u8> = Vec::with_capacity(count);
    let mut i: usize = 0;
    while i < count
        invariant
            image@.well_formed(),
            width == image.width,
            count == image.width * image.height,
            i <= count,
            plane@.len() == i,
            forall|k: int| 0 <= k < i ==> plane@[k] == luma_plane_of(image@)[k],
        decreases count - i,
    {
        proof {
            if width == 0 {
                assert(image.width * image.height == 0) by (nonlinear_arith)
                    requires
                        image.width == 0,
                ;
            }
            lemma_pixel_index_split(i as int, image.width as int, image.height as int);
        }
        let x: u32 = (i % width) as u32;
        let y: u32 = (i / width) as u32;
        let p: Rgb = image.pixel(x, y);
        plane.push(luma(p));
        i += 1;
    }
    plane
}

/// Computes both chroma planes of a packed picture of even dimensions.
fn chroma_planes(image: &PackedImage) -> (planes: (Vec<u8>, Vec<u8>))
    requires
        image@.well_formed(),
        image.width % 2 == 0,
        image.height % 2 == 0,
    ensures
        planes.0@ == u_plane_of(image@),
        planes.1@ == v_plane_of(image@),
{
    let half_width: usize = (image.width / 2) as usize;
    let count: usize = image.data.len() / 16;
    proof {
        lemma_even_dimensions_pixel_count(image.width as nat, image.height as nat);
    }
    let mut u_plane: Vec<u8> = Vec::with_capacity(count);
    let mut v_plane: Vec<u8> = Vec::with_capacity(count);
    let mut j: usize = 0;
    while j < count
        invariant
            image@.well_formed(),
            image.width % 2 == 0,
            image.height % 2 == 0,
            half_width == image.width / 2,
            count == chroma_len(image.width as nat, image.height as nat),
            count == (image.width / 2) * (image.height / 2),
            j <= count,
            u_plane@.len() == j,
            v_plane@.len() == j,
            forall|k: int| 0 <= k < j ==> u_plane@[k] == u_plane_of(image@)[k],
            forall|k: int| 0 <= k < j ==> v_plane@[k] == v_plane_of(image@)[k],
        decreases count - j,
    {
        proof {
            if half_width == 0 {
                assert((image.width / 2) * (image.height / 2) == 0) by (nonlinear_arith)
                    requires
                        image.width / 2 == 0,
                ;
            }
            lemma_pixel_index_split(j as int, image.width as int / 2, image.height as int / 2);
        }
        let bx: u32 = (j % half_width) as u32;
        let by: u32 = (j / half_width) as u32;
        let a: Rgb = image.pixel(2 * bx, 2 * by);
        let b: Rgb = image.pixel(2 * bx + 1, 2 * by);
        let c: Rgb = image.pixel(2 * bx, 2 * by + 1);
        let d: Rgb = image.pixel(2 * bx + 1, 2 * by + 1);
        let uv: (u8, u8) = chroma(a, b, c, d);
        u_plane.push(uv.0);
        v_plane.push(uv.1);
        j += 1;
    }
    (u_plane, v_plane)
}

/// Converts a packed picture of even dimensions to a planar one.
fn convert_to_yuv(image: &PackedImage) -> (picture: Yuv420P)
    requires
        image@.well_formed(),
        image.width % 2 == 0,
        image.height % 2 == 0,
    ensures
        picture@ == planar_of(image@),
{
    let mut data: Vec<u8> = luma_plane(image);
    let mut planes: (Vec<u8>, Vec<u8>) = chroma_planes(image);
    let mut u_plane: Vec<u8> = planes.0;
    let mut v_plane: Vec<u8> = planes.1;
    data.append(&mut u_plane);
    data.append(&mut v_plane);
    Yuv420P { width: image.width, height: image.height, data }
}

impl Yuv420P {
    /// Converts a packed picture to a planar one.
    ///
    /// The picture is first trimmed to even dimensions. The conversion is
    /// refused, before any plane is computed, exactly when the trimmed width
    /// or height reaches [`MAX_DIMENSION`].
    pub fn from_image(source: &PackedImage) -> (result: Result<Self, FrameError>)
        requires
            source@.well_formed(),
        ensures
            result is Ok <==> even_floor(source@.width) < MAX_DIMENSION && even_floor(
                source@.height,
            ) < MAX_DIMENSION,
            result matches Ok(picture) ==> {
                &&& picture@ == planar_of(source@.trimmed())
                &&& picture@.convertible()
            },
            result matches Err(error) ==> error == FrameError::TooLarge,
    {
        let even_width: u32 = source.width - source.width % 2;
        let even_height: u32 = source.height - source.height % 2;
        if even_width >= MAX_DIMENSION || even_height >= MAX_DIMENSION {
            return Err(FrameError::TooLarge);
        }
        let even: PackedImage = ensure_even_reslution(source);
        proof {
            lemma_planar_of_planes(even@);
        }
        Ok(convert_to_yuv(&even))
    }

    /// Converts the planar picture to a packed one.
    ///
    /// Every pixel takes the chroma of its block, and every pixel of the
    /// result is fully opaque.
    pub fn to_rgba_image(&self) -> (image: PackedImage)
        requires
            self@.convertible(),
        ensures
            image@ == packed_of(self@),
            image@.well_formed(),
    {
        let width: usize = self.width as usize;
        let half_width: usize = width / 2;
        assert(self.width * self.height * 4 <= 0xffff_ffff) by (nonlinear_arith)
            requires
                self.width < 16383,
                self.height < 16383,
        ;
        let luma_size: usize = self.luma_size() as usize;
        let chroma_size: usize = self.chroma_size() as usize;
        proof {
            lemma_even_dimensions_pixel_count(self.width as nat, self.height as nat);
        }
        let mut data: Vec<u8> = Vec::with_capacity(luma_size * 4);
        let mut i: usize = 0;
        while i < luma_size
            invariant
                self@.convertible(),
                width == self.width,
                half_width == self.width / 2,
                luma_size == luma_len(self@.width, self@.height),
                chroma_size == chroma_len(self@.width, self@.height),
                chroma_size == (self.width / 2) * (self.height / 2),
                luma_size * 4 <= 0xffff_ffff,
                i <= luma_size,
                data@.len() == 4 * i,
                forall|k: int| 0 <= k < 4 * i ==> data@[k] == packed_byte(self@, k),
            decreases luma_size - i,
        {
            proof {
                if width == 0 {
                    assert(self.width * self.height == 0) by (nonlinear_arith)
                        requires
                            self.width == 0,
                    ;
                }
                lemma_pixel_index_split(i as int, self.width as int, self.height as int);
                lemma_pixel_index_bound(
                    (i % width) as int / 2,
                    (i / width) as int / 2,
                    self.width as int / 2,
                    self.height as int / 2,
                );
            }
            let x: usize = i % width;
            let y: usize = i / width;
            let at: usize = (y / 2) * half_width + x / 2;
            let p: Rgb = rgb(
                self.data[i],
                self.data[luma_size + at],
                self.data[luma_size + chroma_size + at],
            );
            assert(self@.luma_at(x as int, y as int) == self.data@[i as int]);
            assert(self@.u_at(x as int / 2, y as int / 2) == self.data@[luma_size + at]);
            assert(self@.v_at(x as int / 2, y as int / 2) == self.data@[luma_size + chroma_size
                + at]);
            data.push(p.r);
            data.push(p.g);
            data.push(p.b);
            data.push(255);
            i += 1;
        }
        assert(data@ =~= packed_of(self@).data);
        PackedImage { width: self.width, height: self.height, data }
    }
}

} // verus!
