use vstd::prelude::*;
use ::image::GenericImageView;

verus! {

#[verifier::external_type_specification]
#[verifier::external_body]
pub struct ExDynamicImage(::image::DynamicImage);

/// The (width, height) of a decoded bitmap.
pub uninterp spec fn bitmap_dims(img: ::image::DynamicImage) -> (u32, u32);

/// The RGBA value of each pixel of a decoded bitmap, keyed by (column, row).
pub uninterp spec fn bitmap_pixels(img: ::image::DynamicImage) -> Map<(u32, u32), (u8, u8, u8, u8)>;

/// Why a bitmap could not be loaded.
#[derive(Clone, Copy, Debug, PartialEq, Eq, Structural)]
pub enum LoadFailure {
    /// The file could not be opened or read.
    NotFound,
    /// The bytes are not a bitmap of a known format.
    Malformed,
}

/// Relies on `image::open`: reads and decodes the file at `path`, reporting
/// an I/O failure as `ImageError::IoError` and any other problem otherwise.
#[verifier::external_body]
fn open_bitmap(path: &str) -> (r: Result<::image::DynamicImage, LoadFailure>) {
    match ::image::open(path) {
        Ok(img) => Ok(img),
        Err(::image::ImageError::IoError(_)) => Err(LoadFailure::NotFound),
        Err(_) => Err(LoadFailure::Malformed),
    }
}

/// Relies on `DynamicImage::width`: the width of the underlying buffer.
pub assume_specification[ ::image::DynamicImage::width ](img: &::image::DynamicImage) -> (r: u32)
    ensures
        r == bitmap_dims(*img).0,
;

/// Relies on `DynamicImage::height`: the height of the underlying buffer.
pub assume_specification[ ::image::DynamicImage::height ](img: &::image::DynamicImage) -> (r: u32)
    ensures
        r == bitmap_dims(*img).1,
;

/// Relies on `GenericImageView::get_pixel` for `DynamicImage`: the pixel at
/// (x, y) converted to 8-bit RGBA; it panics outside the buffer.
#[verifier::external_body]
fn bitmap_pixel(img: &::image::DynamicImage, x: u32, y: u32) -> (r: (u8, u8, u8, u8))
    requires
        x < bitmap_dims(*img).0,
        y < bitmap_dims(*img).1,
    ensures
        r == bitmap_pixels(*img)[(x, y)],
{
    let p = img.get_pixel(x, y).0;
    (p[0], p[1], p[2], p[3])
}

/// `x` limited to `low ..= high`.
pub fn clamp(x: u32, low: u32, high: u32) -> (r: u32)
    requires
        low <= high,
    ensures
        r == (if x < low { low } else if x > high { high } else { x }),
{
    if x < low {
        low
    } else if x > high {
        high
    } else {
        x
    }
}

/// A decoded bitmap together with its dimensions.
pub struct RayonettaImage {
    width: u32,
    height: u32,
    image: ::image::DynamicImage,
}

impl RayonettaImage {
    /// The dimensions agree with the decoded bitmap.
    pub closed spec fn wf(&self) -> bool {
        bitmap_dims(self.image) == (self.width, self.height)
    }

    /// The pixels of the bitmap, keyed by (column, row).
    pub closed spec fn pixels(&self) -> Map<(u32, u32), (u8, u8, u8, u8)> {
        bitmap_pixels(self.image)
    }

    pub closed spec fn spec_width(&self) -> u32 {
        self.width
    }

    pub closed spec fn spec_height(&self) -> u32 {
        self.height
    }

    /// The error message of each load failure.
    pub open spec fn failure_message(f: LoadFailure) -> Seq<char> {
        match f {
            LoadFailure::NotFound => "Image was not found."@,
            LoadFailure::Malformed => "Malformed Image."@,
        }
    }

    /// Loads and decodes the bitmap stored at `filename`.
    pub fn from_file(filename: &str) -> (r: Result<Self, String>)
        ensures
            r matches Ok(img) ==> img.wf(),
            r matches Err(msg) ==> (msg@ == Self::failure_message(LoadFailure::NotFound)
                || msg@ == Self::failure_message(LoadFailure::Malformed)),
    {
        match open_bitmap(filename) {
            Ok(image) => {
                let width = image.width();
                let height = image.height();
                Ok(RayonettaImage { width, height, image })
            },
            Err(f) => Err(Self::message_of(f)),
        }
    }

    /// The error message for a load failure.
    pub fn message_of(f: LoadFailure) -> (r: String)
        ensures
            r@ == Self::failure_message(f),
    {
        match f {
            LoadFailure::NotFound => "Image was not found.".to_string(),
            LoadFailure::Malformed => "Malformed Image.".to_string(),
        }
    }

    /// The RGB value of the pixel at (x, y), each coordinate clamped to the
    /// bitmap so that out-of-range lookups read the nearest edge pixel.
    pub fn pixel_data(&self, x: u32, y: u32) -> (r: (u8, u8, u8))
        requires
            self.wf(),
            self.spec_width() > 0,
            self.spec_height() > 0,
        ensures
            ({
                let xc = if x >= self.spec_width() { (self.spec_width() - 1) as u32 } else { x };
                let yc = if y >= self.spec_height() { (self.spec_height() - 1) as u32 } else { y };
                let p = self.pixels()[(xc, yc)];
                r == (p.0, p.1, p.2)
            }),
    {
        let xw = clamp(x, 0, self.width - 1);
        let yw = clamp(y, 0, self.height - 1);
        let p = bitmap_pixel(&self.image, xw, yw);
        (p.0, p.1, p.2)
    }

    pub fn width(&self) -> (r: u32)
        ensures
            r == self.spec_width(),
    {
        self.width
    }

    pub fn height(&self) -> (r: u32)
        ensures
            r == self.spec_height(),
    {
        self.height
    }
}

} // verus!
