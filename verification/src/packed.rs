//! Packed pictures: four interleaved bytes per pixel (red, green, blue,
//! alpha), rows stored one after another from the top.

use crate::color::Rgb;
use vstd::prelude::*;

verus! {

/// The largest even number not above `n`.
pub open spec fn even_floor(n: nat) -> nat {
    (n - n % 2) as nat
}

/// A packed RGBA picture.
#[derive(Debug)]
pub struct PackedImage {
    pub width: u32,
    pub height: u32,
    pub data: Vec<u8>,
}

/// The mathematical value of a [`PackedImage`].
pub struct PackedImageView {
    pub width: nat,
    pub height: nat,
    pub data: Seq<u8>,
}

impl PackedImageView {
    /// The buffer holds exactly four bytes for every pixel.
    pub open spec fn well_formed(self) -> bool {
        self.data.len() == self.width * self.height * 4
    }

    /// Position in the buffer of the first byte of the pixel in column `x`
    /// of row `y`.
    pub open spec fn offset(self, x: int, y: int) -> int {
        (y * self.width + x) * 4
    }

    /// Colour of the pixel in column `x` of row `y`.
    pub open spec fn pixel(self, x: int, y: int) -> Rgb {
        Rgb {
            r: self.data[self.offset(x, y)],
            g: self.data[self.offset(x, y) + 1],
            b: self.data[self.offset(x, y) + 2],
        }
    }

    /// Opacity of the pixel in column `x` of row `y`.
    pub open spec fn alpha(self, x: int, y: int) -> u8 {
        self.data[self.offset(x, y) + 3]
    }

    /// The top left `width` by `height` pixels of the picture.
    pub open spec fn cropped(self, width: nat, height: nat) -> PackedImageView {
        PackedImageView {
            width,
            height,
            data: Seq::new(
                width * height * 4,
                |i: int| self.data[self.offset((i / 4) % (width as int), (i / 4) / (width as int)) + i % 4],
            ),
        }
    }

    /// The picture without its last column if the width is odd, and without
    /// its last row if the height is odd.
    pub open spec fn trimmed(self) -> PackedImageView {
        self.cropped(even_floor(self.width), even_floor(self.height))
    }
}

impl View for PackedImage {
    type V = PackedImageView;

    open spec fn view(&self) -> PackedImageView {
        PackedImageView { width: self.width as nat, height: self.height as nat, data: self.data@ }
    }
}

impl Clone for PackedImage {
    fn clone(&self) -> (copy: Self)
        ensures
            copy@ == self@,
    {
        PackedImage { width: self.width, height: self.height, data: self.data.clone() }
    }
}

/// A pixel inside a picture lies before the picture's end: its index in
/// row-major order is below the number of pixels.
pub proof fn lemma_pixel_index_bound(x: int, y: int, width: int, height: int)
    requires
        0 <= x < width,
        0 <= y < height,
    ensures
        0 <= y * width + x < width * height,
        (y * width + x) / width == y,
        (y * width + x) % width == x,
{
    assert(y * width + x < width * height && 0 <= y * width) by (nonlinear_arith)
        requires
            0 <= x < width,
            0 <= y < height,
    ;
    vstd::arithmetic::div_mod::lemma_fundamental_div_mod_converse(y * width + x, width, y, x);
}

/// Every index below the number of pixels is the row-major index of exactly
/// one pixel inside the picture.
pub proof fn lemma_pixel_index_split(i: int, width: int, height: int)
    requires
        0 <= i < width * height,
        0 < width,
    ensures
        0 <= i % width < width,
        0 <= i / width < height,
        (i / width) * width + i % width == i,
{
    vstd::arithmetic::div_mod::lemma_fundamental_div_mod(i, width);
    let q = i / width;
    assert(q < height && q >= 0 && q * width == width * q) by (nonlinear_arith)
        requires
            i == width * q + i % width,
            0 <= i % width < width,
            0 <= i < width * height,
    ;
}

/// Cropping keeps the colour and opacity of every pixel it retains, and the
/// result holds exactly four bytes for every pixel.
pub proof fn lemma_cropped_pixel(image: PackedImageView, width: nat, height: nat, x: int, y: int)
    requires
        0 <= x < width,
        0 <= y < height,
    ensures
        image.cropped(width, height).well_formed(),
        image.cropped(width, height).pixel(x, y) == image.pixel(x, y),
        image.cropped(width, height).alpha(x, y) == image.alpha(x, y),
{
    // The bytes of the pixel stand at `4 * p` and after, for the index `p`
    // of the pixel in the cropped picture, and `p` leads back to `x` and `y`.
    let c = image.cropped(width, height);
    let p = y * width + x;
    lemma_pixel_index_bound(x, y, width as int, height as int);
    assert(c.offset(x, y) == p * 4);
    assert forall|k: int| 0 <= k < 4 implies #[trigger] c.data[p * 4 + k] == image.data[
        image.offset(x, y) + k] by {
        assert((p * 4 + k) / 4 == p && (p * 4 + k) % 4 == k);
    }
}

/// Cropping a picture to its own dimensions changes nothing.
pub proof fn lemma_cropped_whole(image: PackedImageView)
    requires
        image.well_formed(),
    ensures
        image.cropped(image.width, image.height) == image,
{
    let c = image.cropped(image.width, image.height);
    assert forall|i: int| 0 <= i < c.data.len() implies c.data[i] == image.data[i] by {
        let p = i / 4;
        if image.width > 0 {
            lemma_pixel_index_split(p, image.width as int, image.height as int);
        } else {
            assert(image.width * image.height == 0) by (nonlinear_arith)
                requires
                    image.width == 0,
            ;
        }
    }
    assert(c.data =~= image.data);
}

/// Copies the top left corner of an RGBA buffer with the `image` crate.
///
/// `DynamicImage::crop` clamps the rectangle to the picture, which leaves a
/// rectangle at the origin that is no larger than the picture unchanged, and
/// copies the pixels inside it row by row into a new buffer.
#[verifier::external_body]
fn crop_rgba(data: &Vec<u8>, width: u32, height: u32, new_width: u32, new_height: u32) -> (cropped:
    Vec<u8>)
    requires
        data@.len() == width * height * 4,
        new_width <= width,
        new_height <= height,
    ensures
        cropped@ == (PackedImageView {
            width: width as nat,
            height: height as nat,
            data: data@,
        }).cropped(new_width as nat, new_height as nat).data,
{
    let buffer = image::RgbaImage::from_raw(width, height, data.clone()).unwrap();
    let mut picture = image::DynamicImage::ImageRgba8(buffer);
    picture.crop(0, 0, new_width, new_height).into_rgba8().into_raw()
}

/// Returns the picture with even width and height: a picture with an odd
/// width loses its last column, one with an odd height its last row.
pub fn ensure_even_reslution(source: &PackedImage) -> (even: PackedImage)
    requires
        source@.well_formed(),
    ensures
        even@ == source@.trimmed(),
        even@.well_formed(),
        even.width == source.width - source.width % 2,
        even.height == source.height - source.height % 2,
{
    let even_width: bool = source.width % 2 == 0;
    let even_height: bool = source.height % 2 == 0;
    if !even_width || !even_height {
        let new_width: u32 = if !even_width {
            source.width - 1
        } else {
            source.width
        };
        let new_height: u32 = if !even_height {
            source.height - 1
        } else {
            source.height
        };
        let data = crop_rgba(&source.data, source.width, source.height, new_width, new_height);
        PackedImage { width: new_width, height: new_height, data }
    } else {
        proof {
            lemma_cropped_whole(source@);
        }
        source.clone()
    }
}

impl PackedImage {
    /// Whether the buffer holds exactly four bytes for every pixel.
    pub fn is_well_formed(&self) -> (ok: bool)
        ensures
            ok == self@.well_formed(),
    {
        assert(self.width * self.height <= 0xffff_ffff * 0xffff_ffff) by (nonlinear_arith)
            requires
                self.width <= 0xffff_ffff,
                self.height <= 0xffff_ffff,
        ;
        let pixels: u128 = (self.width as u128) * (self.height as u128);
        (self.data.len() as u128) == pixels * 4
    }

    /// Reads the colour of the pixel in column `x` of row `y`.
    pub fn pixel(&self, x: u32, y: u32) -> (p: Rgb)
        requires
            self@.well_formed(),
            x < self.width,
            y < self.height,
        ensures
            p == self@.pixel(x as int, y as int),
    {
        proof {
            lemma_pixel_index_bound(x as int, y as int, self.width as int, self.height as int);
        }
        let len: usize = self.data.len();
        let at: usize = ((y as usize) * (self.width as usize) + (x as usize)) * 4;
        Rgb { r: self.data[at], g: self.data[at + 1], b: self.data[at + 2] }
    }
}

} // verus!
