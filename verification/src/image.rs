//! The image that the engine is pointed at: a file by its path, or pixels in
//! memory that are first written out as a file.

use vstd::prelude::*;
use ndarray::Array3;
use crate::text::{
    ascii_upper, chars_of, find_last_char, has_char, last_index_of, lemma_last_index_of,
    matches_ignoring_case, same_ignoring_case,
};

verus! {

/// An `ndarray::Array3<u8>`: a three-dimensional array of bytes, indexed by
/// row, column and channel. What is known of it is its shape and the bytes
/// in its storage.
#[verifier::external_body]
#[derive(Debug)]
pub struct PixelBuffer {
    inner: Array3<u8>,
}

/// The lengths of the three axes of a buffer: height, width, channels.
pub uninterp spec fn buffer_shape(b: PixelBuffer) -> (usize, usize, usize);

/// The bytes of a buffer in the order in which the buffer stores them.
pub uninterp spec fn buffer_storage(b: PixelBuffer) -> Seq<u8>;

/// The product of the axis lengths that are not zero.
pub open spec fn nonzero_volume(height: usize, width: usize, channels: usize) -> int {
    (if height == 0 { 1int } else { height as int })
        * (if width == 0 { 1int } else { width as int })
        * (if channels == 0 { 1int } else { channels as int })
}

/// A shape that an array can have: the product of its non-zero axis lengths
/// does not exceed `isize::MAX`.
pub open spec fn shape_fits(height: usize, width: usize, channels: usize) -> bool {
    nonzero_volume(height, width, channels) <= isize::MAX
}

/// `ndarray::Array3::<u8>::zeros`, for a shape that fits: an array of that
/// shape whose storage holds one zero byte for each element.
#[verifier::external_body]
fn array_zeros(height: usize, width: usize, channels: usize) -> (b: PixelBuffer)
    requires
        shape_fits(height, width, channels),
    ensures
        buffer_shape(b).0 == height,
        buffer_shape(b).1 == width,
        buffer_shape(b).2 == channels,
        buffer_storage(b) == Seq::new((height * width * channels) as nat, |i: int| 0u8),
{
    PixelBuffer { inner: Array3::zeros((height, width, channels)) }
}

/// `ndarray::Array3::<u8>::from_shape_vec` with a shape in row-major order:
/// succeeds exactly when the shape fits and has as many elements as `data`,
/// and then gives an array of that shape that stores `data` as it is.
#[verifier::external_body]
fn array_from_shape_vec(
    height: usize,
    width: usize,
    channels: usize,
    data: Vec<u8>,
) -> (r: Option<PixelBuffer>)
    ensures
        r is Some == (shape_fits(height, width, channels) && height * width * channels
            == data@.len()),
        r matches Some(b) ==> buffer_shape(b) == (height, width, channels),
        r matches Some(b) ==> buffer_storage(b) == data@,
{
    match Array3::from_shape_vec((height, width, channels), data) {
        Ok(inner) => Some(PixelBuffer { inner }),
        Err(_) => None,
    }
}

/// `ndarray::ArrayBase::dim`: the lengths of the three axes.
#[verifier::external_body]
fn array_dim(b: &PixelBuffer) -> (r: (usize, usize, usize))
    ensures
        r == buffer_shape(*b),
{
    b.inner.dim()
}

/// `ndarray::ArrayBase::into_raw_vec` on a copy of the array: the bytes as
/// the array stores them.
#[verifier::external_body]
#[allow(deprecated)]
fn array_raw_vec(b: &PixelBuffer) -> (r: Vec<u8>)
    ensures
        r@ == buffer_storage(*b),
{
    b.inner.clone().into_raw_vec()
}

impl Clone for PixelBuffer {
    /// `ndarray::ArrayBase::clone`: an array of the same shape over a copy of
    /// the same storage.
    #[verifier::external_body]
    fn clone(&self) -> (r: PixelBuffer)
        ensures
            buffer_shape(r) == buffer_shape(*self),
            buffer_storage(r) == buffer_storage(*self),
    {
        PixelBuffer { inner: self.inner.clone() }
    }
}

impl PixelBuffer {
    /// A buffer of the given shape in which every byte is zero.
    pub fn zeros(height: usize, width: usize, channels: usize) -> (b: PixelBuffer)
        requires
            shape_fits(height, width, channels),
        ensures
            buffer_shape(b) == (height, width, channels),
            buffer_storage(b) == Seq::new((height * width * channels) as nat, |i: int| 0u8),
    {
        array_zeros(height, width, channels)
    }

    /// A buffer of the given shape over `data`, row by row. `None` when the
    /// shape does not fit or does not have as many elements as `data`.
    pub fn from_shape_vec(
        height: usize,
        width: usize,
        channels: usize,
        data: Vec<u8>,
    ) -> (r: Option<PixelBuffer>)
        ensures
            r is Some <==> shape_fits(height, width, channels) && height * width * channels
                == data@.len(),
            r matches Some(b) ==> buffer_shape(b) == (height, width, channels) && buffer_storage(b)
                == data@,
    {
        array_from_shape_vec(height, width, channels, data)
    }
}

/// An image in memory, three bytes per pixel (red, green, blue), row by row.
/// The data always holds at least the bytes of every pixel.
#[derive(Debug)]
pub struct RgbRaster {
    width: u32,
    height: u32,
    data: Vec<u8>,
}

/// An `RgbRaster` as mathematical values.
pub struct RasterView {
    pub width: u32,
    pub height: u32,
    pub data: Seq<u8>,
}

/// `len` bytes are enough for an image of `width` by `height` pixels.
pub open spec fn raster_fits(width: u32, height: u32, len: nat) -> bool {
    3 * width * height <= len
}

/// The number of bytes that the pixels of a `width` by `height` image take.
fn rgb_len(width: u32, height: u32) -> (n: u128)
    ensures
        n == 3 * width * height,
{
    assert(width * height <= 0xffff_ffff * 0xffff_ffff) by (nonlinear_arith)
        requires
            width <= 0xffff_ffff,
            height <= 0xffff_ffff,
    ;
    assert(3 * (width * height) == 3 * width * height) by (nonlinear_arith);
    let pixels: u128 = (width as u128) * (height as u128);
    3u128 * pixels
}

impl View for RgbRaster {
    type V = RasterView;

    closed spec fn view(&self) -> RasterView {
        RasterView { width: self.width, height: self.height, data: self.data@ }
    }
}

impl RgbRaster {
    #[verifier::type_invariant]
    spec fn enough_data(&self) -> bool {
        raster_fits(self.width, self.height, self.data@.len())
    }

    /// An image of `width` by `height` pixels over `data`, if `data` is long enough.
    pub fn from_raw(width: u32, height: u32, data: Vec<u8>) -> (r: Option<RgbRaster>)
        ensures
            r is Some <==> raster_fits(width, height, data@.len()),
            r matches Some(x) ==> x@ == (RasterView { width, height, data: data@ }),
    {
        if rgb_len(width, height) <= data.len() as u128 {
            Some(RgbRaster { width, height, data })
        } else {
            None
        }
    }

    /// The number of pixels in a row.
    pub fn width(&self) -> (r: u32)
        ensures
            r == self@.width,
    {
        self.width
    }

    /// The number of rows.
    pub fn height(&self) -> (r: u32)
        ensures
            r == self@.height,
    {
        self.height
    }

    /// The bytes of the image, which are enough for all of its pixels.
    pub fn into_raw(self) -> (r: Vec<u8>)
        ensures
            r@ == self@.data,
            raster_fits(self@.width, self@.height, r@.len()),
    {
        proof {
            use_type_invariant(&self);
        }
        self.data
    }
}

/// What the engine is asked to read: the path of an image file, or, with an
/// empty path, pixels in memory.
#[derive(Debug)]
pub struct Image {
    pub path: String,
    pub ndarray: PixelBuffer,
}

/// The file formats that the engine reads, by the extension of the file name.
pub open spec fn known_formats() -> Seq<Seq<char>> {
    seq![
        "JPEG"@,
        "JPG"@,
        "PNG"@,
        "PBM"@,
        "PGM"@,
        "PPM"@,
        "TIFF"@,
        "BMP"@,
        "GIF"@,
        "WEBP"@,
    ]
}

/// The text after the last `.` of `path`, if `path` has a `.` at all.
pub open spec fn extension(path: Seq<char>) -> Option<Seq<char>> {
    let i = last_index_of(path, '.');
    if 0 <= i < path.len() {
        Some(path.skip(i + 1))
    } else {
        None
    }
}

/// `ext` is one of the known formats, in small or capital letters.
pub open spec fn is_known_format(ext: Seq<char>) -> bool {
    exists|k: int| 0 <= k < known_formats().len() && same_ignoring_case(ext, known_formats()[k])
}

/// `path` has an extension, and the extension is one of the known formats.
pub open spec fn format_recognized(path: Seq<char>) -> bool {
    match extension(path) {
        Some(ext) => is_known_format(ext),
        None => false,
    }
}

/// A buffer of this shape has at least one element.
pub open spec fn has_elements(shape: (usize, usize, usize)) -> bool {
    shape.0 > 0 && shape.1 > 0 && shape.2 > 0
}

/// An `Image` as mathematical values: its path, and the shape and the
/// stored bytes of its pixel buffer.
pub struct ImageView {
    pub path: Seq<char>,
    pub shape: (usize, usize, usize),
    pub storage: Seq<u8>,
}

impl View for Image {
    type V = ImageView;

    open spec fn view(&self) -> ImageView {
        ImageView {
            path: self.path@,
            shape: buffer_shape(self.ndarray),
            storage: buffer_storage(self.ndarray),
        }
    }
}

/// The RGB image that the pixel buffer of `image` stands for: as wide and as
/// high as the buffer, both taken as 32-bit numbers, over the stored bytes.
pub open spec fn raster_of(image: ImageView) -> RasterView {
    RasterView { width: image.shape.1 as u32, height: image.shape.0 as u32, data: image.storage }
}

/// The pixel buffer of `image` holds enough bytes for the image it stands for.
pub open spec fn convertible(image: ImageView) -> bool {
    raster_fits(raster_of(image).width, raster_of(image).height, image.storage.len())
}

impl Clone for Image {
    fn clone(&self) -> (r: Image)
        ensures
            r@ == self@,
    {
        Image { path: self.path.clone(), ndarray: self.ndarray.clone() }
    }
}

impl Image {
    /// The image at `path`, beside the pixels of `ndarray`.
    pub fn new(path: String, ndarray: PixelBuffer) -> (r: Image)
        ensures
            r.path == path,
            r.ndarray == ndarray,
    {
        Image { path, ndarray }
    }

    /// The path of the image, as it was given.
    pub fn to_string(&self) -> (r: String)
        ensures
            r@ == self.path@,
    {
        self.path.clone()
    }

    /// Whether the pixel buffer has no element.
    pub fn is_empty_ndarray(&self) -> (r: bool)
        ensures
            r == !has_elements(self@.shape),
    {
        let (height, width, channels) = array_dim(&self.ndarray);
        height == 0 || width == 0 || channels == 0
    }

    /// Height, width and number of channels of the pixel buffer.
    pub fn size_of_ndarray(&self) -> (r: (usize, usize, usize))
        ensures
            r == self@.shape,
    {
        array_dim(&self.ndarray)
    }

    /// The pixel buffer as an RGB image of the buffer's width and height,
    /// over the bytes that the buffer stores.
    pub fn ndarray_to_image(&self) -> (r: RgbRaster)
        requires
            convertible(self@),
        ensures
            r@ == raster_of(self@),
    {
        let (height, width, _) = self.size_of_ndarray();
        let raw = array_raw_vec(&self.ndarray);
        let w: u32 = #[verifier::truncate] (width as u32);
        let h: u32 = #[verifier::truncate] (height as u32);
        RgbRaster { width: w, height: h, data: raw }
    }

    /// The pixel buffer as an RGB image, when the buffer holds enough bytes for one.
    pub fn try_ndarray_to_image(&self) -> (r: Option<RgbRaster>)
        ensures
            r is Some <==> convertible(self@),
            r matches Some(x) ==> x@ == raster_of(self@),
    {
        let (height, width, _) = self.size_of_ndarray();
        let w: u32 = #[verifier::truncate] (width as u32);
        let h: u32 = #[verifier::truncate] (height as u32);
        let len: usize = array_raw_vec(&self.ndarray).len();
        if rgb_len(w, h) <= len as u128 {
            Some(self.ndarray_to_image())
        } else {
            None
        }
    }
}

fn format_names() -> (r: Vec<&'static str>)
    ensures
        r@.len() == known_formats().len(),
        forall|k: int| 0 <= k < r@.len() ==> (#[trigger] r@[k])@ == known_formats()[k],
{
    let mut r: Vec<&'static str> = Vec::new();
    r.push("JPEG");
    r.push("JPG");
    r.push("PNG");
    r.push("PBM");
    r.push("PGM");
    r.push("PPM");
    r.push("TIFF");
    r.push("BMP");
    r.push("GIF");
    r.push("WEBP");
    r
}

/// Whether the file name of the image ends in an extension that names one of
/// the formats the engine reads, in small or capital letters.
pub fn check_image_format(img: &Image) -> (r: bool)
    ensures
        r == format_recognized(img.path@),
{
    let cs = chars_of(img.path.as_str());
    match find_last_char(&cs, '.') {
        None => false,
        Some(dot) => {
            let names = format_names();
            let ghost ext = cs@.skip(dot + 1);
            assert(ext == cs@.subrange(dot + 1, cs.len() as int));
            let mut k: usize = 0;
            while k < names.len()
                invariant
                    k <= names.len(),
                    dot < cs.len(),
                    cs@ == img.path@,
                    last_index_of(cs@, '.') == dot,
                    ext == cs@.subrange(dot + 1, cs.len() as int),
                    names@.len() == known_formats().len(),
                    forall|j: int|
                        0 <= j < names@.len() ==> (#[trigger] names@[j])@ == known_formats()[j],
                    forall|j: int| 0 <= j < k ==> !same_ignoring_case(ext, known_formats()[j]),
                decreases names.len() - k,
            {
                if matches_ignoring_case(&cs, dot + 1, cs.len(), names[k]) {
                    assert(same_ignoring_case(ext, known_formats()[k as int]));
                    return true;
                }
                k = k + 1;
            }
            false
        },
    }
}

/// Every known format is written in capital letters only.
pub proof fn lemma_known_formats_are_capitals()
    ensures
        known_formats().len() == 10,
        forall|k: int, i: int|
            0 <= k < known_formats().len() && 0 <= i < known_formats()[k].len() ==> 'A' <= (
            #[trigger] known_formats()[k][i]) <= 'Z',
{
    reveal_strlit("JPEG");
    reveal_strlit("JPG");
    reveal_strlit("PNG");
    reveal_strlit("PBM");
    reveal_strlit("PGM");
    reveal_strlit("PPM");
    reveal_strlit("TIFF");
    reveal_strlit("BMP");
    reveal_strlit("GIF");
    reveal_strlit("WEBP");
}

/// A file name that ends in a dot and one of the known extensions, written
/// in small or capital letters, is recognized.
pub proof fn lemma_known_extension_recognized(stem: Seq<char>, ext: Seq<char>)
    requires
        is_known_format(ext),
    ensures
        format_recognized(stem + seq!['.'] + ext),
{
    let path = stem + seq!['.'] + ext;
    let k = choose|k: int|
        0 <= k < known_formats().len() && same_ignoring_case(ext, known_formats()[k]);
    lemma_known_formats_are_capitals();
    assert forall|j: int| stem.len() < j < path.len() implies path[j] != '.' by {
        let i = j - stem.len() - 1;
        assert(path[j] == ext[i]);
        assert(ascii_upper(ext[i]) == ascii_upper(known_formats()[k][i]));
        assert('A' <= known_formats()[k][i] <= 'Z');
    }
    assert(path[stem.len() as int] == '.');
    lemma_last_index_of(path, '.', stem.len() as int);
    assert(path.skip(stem.len() as int + 1) == ext);
}

/// A file name whose extension is none of the known ones is not recognized.
pub proof fn lemma_other_extension_unrecognized(stem: Seq<char>, ext: Seq<char>)
    requires
        !has_char(ext, '.'),
        !is_known_format(ext),
    ensures
        !format_recognized(stem + seq!['.'] + ext),
{
    let path = stem + seq!['.'] + ext;
    assert forall|j: int| stem.len() < j < path.len() implies path[j] != '.' by {
        let i = j - stem.len() - 1;
        assert(path[j] == ext[i]);
    }
    assert(path[stem.len() as int] == '.');
    lemma_last_index_of(path, '.', stem.len() as int);
    assert(path.skip(stem.len() as int + 1) == ext);
}

/// A path without a dot has no extension and is not recognized.
pub proof fn lemma_no_extension_unrecognized(path: Seq<char>)
    requires
        !has_char(path, '.'),
    ensures
        extension(path) is None,
        !format_recognized(path),
{
    lemma_last_index_of(path, '.', -1);
}

} // verus!
