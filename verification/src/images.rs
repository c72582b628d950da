//! Making a thumbnail of a photo.

use vstd::prelude::*;

use crate::media::path_ext;
use crate::text::{ascii_lower, extension_of, last_part_of};

verus! {

/// A format of image files.
#[verifier::external_type_specification]
#[verifier::external_body]
pub struct ExImageFormat(image::ImageFormat);

/// A decoded image of any layout of colours.
#[verifier::external_type_specification]
#[verifier::external_body]
pub struct ExDynamicImage(image::DynamicImage);

/// The format of the image files with an extension.
pub uninterp spec fn format_of_ext(ext: Seq<char>) -> Option<image::ImageFormat>;

/// What an image holds: its width, its height, its layout of colours, its colour space and the
/// values of its pixels, as one list of numbers that starts with the first two.
pub uninterp spec fn image_contents(img: image::DynamicImage) -> Seq<int>;

/// Decoding the bytes of an image file of a format can have the outcome: what the image holds, or the
/// text of the error. More than one outcome may be possible, since what a decoder gives up on can
/// depend on the machine.
pub uninterp spec fn decodes_to(
    format: image::ImageFormat,
    bytes: Seq<u8>,
    outcome: Result<Seq<int>, Seq<char>>,
) -> bool;

/// What an image holds once it is resized with the triangle filter to fit in a square with sides
/// of a size.
pub uninterp spec fn resized(contents: Seq<int>, size: u32) -> Seq<int>;

/// The width, the height and the red, green and blue values of an image.
pub uninterp spec fn rgb8(contents: Seq<int>) -> (u32, u32, Seq<u8>);

/// The bytes of a JPEG file with the red, green and blue values of an image of a width and a
/// height; or the text of the error.
pub uninterp spec fn jpeg_file(width: u32, height: u32, rgb: Seq<u8>) -> Result<Seq<u8>, Seq<char>>;

/// The text can be that of the error of a file whose format is not known by its extension. How the
/// extension is quoted in it is up to the machine.
pub uninterp spec fn is_unknown_ext_text(ext: Seq<char>, text: Seq<char>) -> bool;

/// The extensions of image files, in lower case.
pub open spec fn image_exts() -> Seq<Seq<char>> {
    seq![
        "avif"@,
        "jpg"@,
        "jpeg"@,
        "jfif"@,
        "png"@,
        "apng"@,
        "gif"@,
        "webp"@,
        "tif"@,
        "tiff"@,
        "tga"@,
        "dds"@,
        "bmp"@,
        "ico"@,
        "hdr"@,
        "exr"@,
        "pbm"@,
        "pam"@,
        "ppm"@,
        "pgm"@,
        "pnm"@,
        "ff"@,
        "qoi"@,
    ]
}

/// An extension of image files, whatever the case of its letters.
pub open spec fn is_image_ext(ext: Seq<char>) -> bool {
    image_exts().contains(ascii_lower(ext))
}

/// The character is an ASCII letter or a digit.
pub open spec fn is_plain_char(c: char) -> bool {
    ||| 'a' as int <= c as int <= 'z' as int
    ||| 'A' as int <= c as int <= 'Z' as int
    ||| '0' as int <= c as int <= '9' as int
}

/// The text holds ASCII letters and digits only.
pub open spec fn is_plain(s: Seq<char>) -> bool {
    forall|i: int| 0 <= i < s.len() ==> is_plain_char(#[trigger] s[i])
}

/// The text says that no format is known by the extension.
pub open spec fn is_no_format(ext: Seq<char>, text: Seq<char>) -> bool {
    &&& ext.len() == 0 ==> text == "The image format could not be determined"@
    &&& ext.len() > 0 ==> is_unknown_ext_text(ext, text)
    &&& ext.len() > 0 && is_plain(ext) ==> text == "The file extension `.\""@ + ext
        + "\"` was not recognized as an image format"@
}

/// An image as its red, green and blue values, row by row.
#[derive(Debug)]
pub struct Raster {
    pub width: u32,
    pub height: u32,
    pub rgb: Vec<u8>,
}

impl Raster {
    /// There are values for all pixels.
    pub open spec fn wf(self) -> bool {
        self.rgb@.len() >= 3 * self.width * self.height
    }
}

/// The parts of a raster.
pub open spec fn raster_parts(r: Raster) -> (u32, u32, Seq<u8>) {
    (r.width, r.height, r.rgb@)
}

/// The number is a power of two.
pub open spec fn is_power_of_two(n: int) -> bool
    decreases n,
{
    n == 1 || (n > 1 && n % 2 == 0 && is_power_of_two(n / 2))
}

/// A side that comes to a half is rounded upwards, although it is computed with floating point: it is
/// the product of a whole number and `size / longer`. With a `size` of 512 a half comes only where
/// `longer` is an odd number times a power of two that is 1024 at least. If the odd number is one, the
/// quotient is exact. Else the quotient is that number's reciprocal, rounded, times a power of
/// two; and of the odd numbers up to 63 only 49 has a reciprocal that is rounded down by so much that
/// the product can fall short of the half.
pub open spec fn halves_go_up(longer: int, size: int) -> bool {
    size == 512 && ((longer <= 65535 && longer != 49 * 1024) || is_power_of_two(longer))
}

/// A side of an image is `r` long once the image is scaled so that its longer side, now `longer`,
/// is `size` long: `size * side / longer`, rounded to the nearest number, but one at least.
pub open spec fn is_scaled(side: int, longer: int, size: int, r: int) -> bool {
    &&& r >= 1
    &&& 2 * (size * side) < longer ==> r == 1
    &&& 2 * (size * side) >= longer ==> {
        &&& -longer <= 2 * (r * longer - size * side) <= longer
        &&& halves_go_up(longer, size) ==> -longer < 2 * (r * longer - size * side)
    }
}

/// What it means that a side is rounded to the nearest number, and from a half upwards: it is the
/// whole part of `size * side / longer` and a half, but one at least.
pub proof fn scaled_side_is_rounded(side: int, longer: int, size: int, r: int)
    requires
        0 <= side <= longer,
        0 < longer,
        halves_go_up(longer, size),
        is_scaled(side, longer, size, r),
    ensures
        ({
            let rounded = (2 * (size * side) + longer) / (2 * longer);
            r == if rounded >= 1 { rounded } else { 1 }
        }),
{
    let x = size * side;
    let rounded = (2 * x + longer) / (2 * longer);
    assert(x >= 0) by (nonlinear_arith)
        requires
            x == size * side,
            size == 512,
            side >= 0,
    ;
    if 2 * x < longer {
        assert(rounded == 0) by (nonlinear_arith)
            requires
                rounded == (2 * x + longer) / (2 * longer),
                0 <= 2 * x < longer,
        ;
    } else {
        let y = r * longer;
        assert(rounded == r) by (nonlinear_arith)
            requires
                rounded == (2 * x + longer) / (2 * longer),
                y == r * longer,
                -longer < 2 * (y - x) <= longer,
                longer > 0,
        ;
    }
}

/// The longer side of an image.
pub open spec fn longer_side(contents: Seq<int>) -> int {
    if contents[0] >= contents[1] {
        contents[0]
    } else {
        contents[1]
    }
}

/// An image is `width` wide and `height` high once it is scaled, with its ratio of width to height
/// kept, to the largest size that fits in a square with sides of `size`.
pub open spec fn fits_square(contents: Seq<int>, size: int, width: int, height: int) -> bool {
    &&& 0 < width <= size
    &&& 0 < height <= size
    &&& contents[0] > 0 && contents[1] > 0 ==> {
        &&& contents[0] >= contents[1] ==> width == size
        &&& contents[1] >= contents[0] ==> height == size
        &&& is_scaled(contents[0], longer_side(contents), size, width)
        &&& is_scaled(contents[1], longer_side(contents), size, height)
    }
}

/// `image::ImageFormat::from_extension`: the format that files with an extension have, whatever the
/// case of its letters; none where the extension is not in the crate's table.
#[verifier::external_body]
fn format_from_ext(ext: &str) -> (r: Option<image::ImageFormat>)
    ensures
        r == format_of_ext(ext@),
        r is Some <==> is_image_ext(ext@),
{
    image::ImageFormat::from_extension(ext)
}

/// The text of `image::ImageError::Unsupported`, where a file's format is not known by its
/// extension, or the file has none. The text quotes the extension as a path is quoted for debugging;
/// what that looks like is said of ASCII letters and digits only.
#[verifier::external_body]
fn no_format(ext: Option<&str>) -> (r: String)
    ensures
        ext is None ==> is_no_format(Seq::empty(), r@),
        ext matches Some(e) ==> is_unknown_ext_text(e@, r@),
        ext matches Some(e) ==> e@.len() > 0 ==> is_no_format(e@, r@),
{
    let hint = match ext {
        Some(e) => image::error::ImageFormatHint::PathExtension(e.into()),
        None => image::error::ImageFormatHint::Unknown,
    };
    image::ImageError::Unsupported(hint.into()).to_string()
}

/// What the outcome of decoding holds.
pub open spec fn outcome(r: Result<image::DynamicImage, String>) -> Result<Seq<int>, Seq<char>> {
    match r {
        Ok(img) => Ok(image_contents(img)),
        Err(e) => Err(e@),
    }
}

/// `image::load_from_memory_with_format`: decodes the bytes of an image file of a format. Whether
/// that succeeds, and with what, is left to the decoder and to the machine's limits; the outcome is
/// one that decoding these bytes can have.
#[verifier::external_body]
fn decode_image(bytes: &Vec<u8>, format: image::ImageFormat) -> (r: Result<image::DynamicImage, String>)
    ensures
        decodes_to(format, bytes@, outcome(r)),
{
    image::load_from_memory_with_format(bytes, format).map_err(|e| e.to_string())
}

/// `image::DynamicImage::resize` with the triangle filter and equal bounds: the image scaled, with
/// its ratio of width to height kept, so that its longer side has the size. The other side is
/// rounded to the nearest length, and from a half upwards; of a longer side of 50176 or of more than
/// 65535, if it is no power of two, it is left unsaid which way a half goes, since it is computed
/// with floating point and can go either way.
#[verifier::external_body]
fn resize_triangle(img: &image::DynamicImage, size: u32) -> (r: image::DynamicImage)
    requires
        0 < size <= 65535,
    ensures
        image_contents(r) == resized(image_contents(*img), size),
        fits_square(
            image_contents(*img),
            size as int,
            image_contents(r)[0],
            image_contents(r)[1],
        ),
{
    img.resize(size, size, image::imageops::FilterType::Triangle)
}

/// `image::DynamicImage::to_rgb8`: the image's pixels as red, green and blue values. Its size
/// stays.
#[verifier::external_body]
fn to_raster(img: &image::DynamicImage) -> (r: Raster)
    ensures
        raster_parts(r) == rgb8(image_contents(*img)),
        r.width == image_contents(*img)[0],
        r.height == image_contents(*img)[1],
        r.wf(),
{
    let rgb = img.to_rgb8();
    Raster { width: rgb.width(), height: rgb.height(), rgb: rgb.into_raw() }
}

/// `image::ImageBuffer::write_to` as a JPEG, into memory. It succeeds on every size that the format
/// has: from one pixel to 65535 either way.
#[verifier::external_body]
fn encode_jpeg(raster: Raster) -> (r: Result<Vec<u8>, String>)
    requires
        raster.wf(),
    ensures
        match jpeg_file(raster.width, raster.height, raster.rgb@) {
            Ok(bytes) => r matches Ok(b) && b@ == bytes,
            Err(m) => r matches Err(e) && e@ == m,
        },
        0 < raster.width <= 65535 && 0 < raster.height <= 65535 ==> r is Ok,
{
    let mut bytes: Vec<u8> = Vec::new();
    image::RgbImage::from_raw(raster.width, raster.height, raster.rgb)
        .expect("values for all pixels")
        .write_to(&mut std::io::Cursor::new(&mut bytes), image::ImageFormat::Jpeg)
        .map(|()| bytes)
        .map_err(|e| e.to_string())
}

/// The largest width and height of a thumbnail.
pub const THUMB_SIZE: u32 = 512;

/// The values of an image's thumbnail.
pub open spec fn thumb_raster(contents: Seq<int>) -> (u32, u32, Seq<u8>) {
    rgb8(resized(contents, THUMB_SIZE))
}

/// The file of an image's thumbnail.
pub open spec fn thumb_file(contents: Seq<int>) -> Result<Seq<u8>, Seq<char>> {
    let (width, height, rgb) = thumb_raster(contents);
    jpeg_file(width, height, rgb)
}

/// `file` is the thumbnail of an image: the JPEG file of the image scaled, with its ratio of width to
/// height kept, so that its longer side has the size of thumbnails.
pub open spec fn is_thumb_of(contents: Seq<int>, file: Seq<u8>) -> bool {
    &&& thumb_file(contents) == Ok::<Seq<u8>, Seq<char>>(file)
    &&& fits_square(
        contents,
        THUMB_SIZE as int,
        thumb_raster(contents).0 as int,
        thumb_raster(contents).1 as int,
    )
}

/// The thumbnail of an image, as a JPEG file. There is one of every image.
pub fn thumb_of(img: &image::DynamicImage) -> (r: Result<Vec<u8>, String>)
    ensures
        r matches Ok(b) && is_thumb_of(image_contents(*img), b@),
{
    let small: image::DynamicImage = resize_triangle(img, THUMB_SIZE);
    encode_jpeg(to_raster(&small))
}

/// `r` is the thumbnail of what was decoded, or the error where nothing was.
pub open spec fn is_thumb(decoded: Result<Seq<int>, Seq<char>>, r: Result<Vec<u8>, String>) -> bool {
    match decoded {
        Ok(c) => r matches Ok(b) && is_thumb_of(c, b@),
        Err(m) => r matches Err(e) && e@ == m,
    }
}

/// The thumbnail of a photo as it was decoded; where that failed, the error.
pub fn thumb_of_decoded(img: Result<image::DynamicImage, String>) -> (r: Result<Vec<u8>, String>)
    ensures
        is_thumb(outcome(img), r),
{
    match img {
        Ok(i) => thumb_of(&i),
        Err(e) => Err(e),
    }
}

/// An extension of image files is not empty.
proof fn image_exts_are_not_empty(ext: Seq<char>)
    ensures
        is_image_ext(ext) ==> ext.len() > 0,
{
    reveal_strlit("avif");
    reveal_strlit("jpg");
    reveal_strlit("jpeg");
    reveal_strlit("jfif");
    reveal_strlit("png");
    reveal_strlit("apng");
    reveal_strlit("gif");
    reveal_strlit("webp");
    reveal_strlit("tif");
    reveal_strlit("tiff");
    reveal_strlit("tga");
    reveal_strlit("dds");
    reveal_strlit("bmp");
    reveal_strlit("ico");
    reveal_strlit("hdr");
    reveal_strlit("exr");
    reveal_strlit("pbm");
    reveal_strlit("pam");
    reveal_strlit("ppm");
    reveal_strlit("pgm");
    reveal_strlit("pnm");
    reveal_strlit("ff");
    reveal_strlit("qoi");
    assert(forall|i: int| 0 <= i < image_exts().len() ==> (#[trigger] image_exts()[i]).len() > 0);
    assert(ascii_lower(ext).len() == ext.len());
}

/// The thumbnail of the photo at a path, from the bytes of its file, as a JPEG file. The file's
/// extension tells the format in which the photo is decoded, and whatever comes of that decides: the
/// thumbnail, or the text of the decoder's error. Without an extension of image files there is none.
pub fn generate_thumb(path: &str, bytes: &Vec<u8>) -> (r: Result<Vec<u8>, String>)
    ensures
        match format_of_ext(path_ext(path@)) {
            Some(format) => exists|decoded: Result<Seq<int>, Seq<char>>| #[trigger]
                decodes_to(format, bytes@, decoded) && is_thumb(decoded, r),
            None => r matches Err(e) && is_no_format(path_ext(path@), e@),
        },
        is_image_ext(path_ext(path@)) <==> format_of_ext(path_ext(path@)) is Some,
        path_ext(path@).len() == 0 ==> format_of_ext(path_ext(path@)) is None,
{
    let ext: &str = match extension_of(last_part_of(path)) {
        Some(e) => e,
        None => "",
    };
    proof {
        reveal_strlit("");
        assert(""@ =~= Seq::<char>::empty());
        assert(ext@ == path_ext(path@));
        image_exts_are_not_empty(ext@);
    }
    match format_from_ext(ext) {
        Some(format) => {
            let decoded: Result<image::DynamicImage, String> = decode_image(bytes, format);
            assert(decodes_to(format, bytes@, outcome(decoded)));
            thumb_of_decoded(decoded)
        },
        None => if ext.is_empty() {
            assert(ext@ =~= Seq::<char>::empty());
            Err(no_format(None))
        } else {
            Err(no_format(Some(ext)))
        },
    }
}

} // verus!
