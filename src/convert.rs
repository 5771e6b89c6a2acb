//! The per-item conversion pipeline: open the DICOM container, decode its
//! pixel data, normalise the first frame into a raster, downsample it into
//! the thumbnail box and encode it as PNG. Every stage that fails ends the
//! item with an error naming that stage.

use dicom::object::{FileDicomObject, InMemDicomObject, ReadError, StandardDataDictionary};
use dicom_pixeldata::image::imageops::FilterType;
use dicom_pixeldata::image::{DynamicImage, ImageError, ImageFormat};
use dicom_pixeldata::{BitDepthOption, ConvertOptions, DecodedPixelData, PixelDecoder};
use vstd::prelude::*;

verus! {

#[verifier::external_type_specification]
#[verifier::external_body]
#[verifier::reject_recursive_types(O)]
pub struct ExFileDicomObject<O>(FileDicomObject<O>);

#[verifier::external_type_specification]
#[verifier::external_body]
#[verifier::reject_recursive_types(D)]
pub struct ExInMemDicomObject<D>(InMemDicomObject<D>);

#[verifier::external_type_specification]
#[verifier::external_body]
pub struct ExStandardDataDictionary(StandardDataDictionary);

#[verifier::external_type_specification]
#[verifier::external_body]
pub struct ExReadError(ReadError);

#[verifier::external_type_specification]
#[verifier::external_body]
pub struct ExPixelError(dicom_pixeldata::Error);

#[verifier::external_type_specification]
#[verifier::external_body]
pub struct ExDecodedPixelData<'a>(DecodedPixelData<'a>);

#[verifier::external_type_specification]
#[verifier::external_body]
pub struct ExDynamicImage(DynamicImage);

#[verifier::external_type_specification]
#[verifier::external_body]
pub struct ExImageError(ImageError);

#[verifier::external_type_specification]
pub struct ExFilterType(FilterType);

#[verifier::external_type_specification]
pub struct ExBitDepthOption(BitDepthOption);

#[verifier::external_type_specification]
pub struct ExImageFormat(ImageFormat);

/// A DICOM object held in memory, with its file meta group.
pub type DicomObject = FileDicomObject<InMemDicomObject<StandardDataDictionary>>;

/// The side of the square box that thumbnails are fitted into.
pub const THUMBNAIL_SIDE: u32 = 150;

/// Where an item's conversion stopped.
pub enum ConversionError {
    /// The bytes are not a readable DICOM container.
    Open(ReadError),
    /// The pixel data is missing, corrupt or in an unsupported encoding.
    Decode(dicom_pixeldata::Error),
    /// The first frame cannot be turned into a raster.
    Convert(dicom_pixeldata::Error),
    /// The raster has no pixels, so there is nothing to fit into the box.
    EmptyImage,
    /// The thumbnail could not be encoded as PNG.
    Encode(ImageError),
}

/// The stages of the pipeline.
#[derive(Clone, Copy, Debug, PartialEq, Eq, Structural)]
pub enum Stage {
    Open,
    Decode,
    Convert,
    Encode,
}

impl ConversionError {
    /// The stage that failed.
    pub fn stage(&self) -> (r: Stage)
        ensures
            r == (match self {
                ConversionError::Open(_) => Stage::Open,
                ConversionError::Decode(_) => Stage::Decode,
                ConversionError::Convert(_) | ConversionError::EmptyImage => Stage::Convert,
                ConversionError::Encode(_) => Stage::Encode,
            }),
    {
        match self {
            ConversionError::Open(_) => Stage::Open,
            ConversionError::Decode(_) => Stage::Decode,
            ConversionError::Convert(_) => Stage::Convert,
            ConversionError::EmptyImage => Stage::Convert,
            ConversionError::Encode(_) => Stage::Encode,
        }
    }
}

/// What fitting a `w` by `h` raster into the thumbnail box yields: the
/// longer side becomes exactly the box side, the other side is scaled by
/// the same ratio to within one unit (and is at least one), so that the
/// aspect ratio is kept.
pub open spec fn fits_box(w: int, h: int, tw: int, th: int) -> bool {
    fits_square(THUMBNAIL_SIDE as int, w, h, tw, th)
}

/// What fitting a `w` by `h` raster into a square of side `side` yields.
pub open spec fn fits_square(side: int, w: int, h: int, tw: int, th: int) -> bool {
    &&& 1 <= tw <= side
    &&& 1 <= th <= side
    &&& w >= h ==> tw == side && th * w <= side * h + w && side * h <= th * w + w
    &&& h >= w ==> th == side && tw * h <= side * w + h && side * w <= tw * h + h
}

/// A square frame fills the whole box: its thumbnail is exactly the box,
/// and no thumbnail is larger than the box in either direction.
pub proof fn lemma_square_fills_box(w: int, h: int, tw: int, th: int)
    requires
        fits_box(w, h, tw, th),
    ensures
        tw <= THUMBNAIL_SIDE && th <= THUMBNAIL_SIDE,
        w == h ==> tw == THUMBNAIL_SIDE && th == THUMBNAIL_SIDE,
{
}

/// Whether dicom-object reads the bytes as a DICOM file.
pub uninterp spec fn dicom_readable(bytes: Seq<u8>) -> bool;

/// Whether the pixel data of the DICOM object read from the bytes decodes.
pub uninterp spec fn pixels_decodable(bytes: Seq<u8>) -> bool;

/// The width and height of the image that the given frame of the decoded
/// pixel data of the bytes converts to under the bit depth policy; `None`
/// when the conversion fails.
pub uninterp spec fn frame_dims(bytes: Seq<u8>, frame: u32, bit_depth: BitDepthOption) -> Option<
    (u32, u32),
>;

/// The encoding, in `format`, of that frame's image resized into a `side`
/// by `side` box with `filter`; `None` when encoding fails.
pub uninterp spec fn encoded(
    bytes: Seq<u8>,
    frame: u32,
    bit_depth: BitDepthOption,
    side: u32,
    filter: FilterType,
    format: ImageFormat,
) -> Option<Seq<u8>>;

/// A DICOM object, with the bytes it was read from.
pub struct Opened {
    obj: DicomObject,
    source: Ghost<Seq<u8>>,
}

impl Opened {
    pub closed spec fn source(&self) -> Seq<u8> {
        self.source@
    }
}

/// Decoded pixel data, with the bytes of the object it came from.
pub struct Decoded<'a> {
    pixels: DecodedPixelData<'a>,
    source: Ghost<Seq<u8>>,
}

impl<'a> Decoded<'a> {
    pub closed spec fn source(&self) -> Seq<u8> {
        self.source@
    }
}

/// A raster image together with its dimensions and how it was made: from
/// which bytes, frame and bit depth policy, and into which box and with
/// which filter it was resized, if it was.
pub struct Raster {
    image: DynamicImage,
    width: u32,
    height: u32,
    source: Ghost<Seq<u8>>,
    frame: Ghost<u32>,
    bit_depth: Ghost<BitDepthOption>,
    resized: Ghost<Option<(u32, FilterType)>>,
}

impl Raster {
    pub closed spec fn width_spec(&self) -> u32 {
        self.width
    }

    pub closed spec fn height_spec(&self) -> u32 {
        self.height
    }

    pub closed spec fn source(&self) -> Seq<u8> {
        self.source@
    }

    pub closed spec fn frame(&self) -> u32 {
        self.frame@
    }

    pub closed spec fn bit_depth(&self) -> BitDepthOption {
        self.bit_depth@
    }

    pub closed spec fn resized(&self) -> Option<(u32, FilterType)> {
        self.resized@
    }

    /// The side of the box the raster was resized into (0 if it was not).
    pub closed spec fn resize_side(&self) -> u32 {
        match self.resized@ {
            Some((side, _)) => side,
            None => 0,
        }
    }

    /// The filter the raster was resized with (`Nearest` if it was not).
    pub closed spec fn resize_filter(&self) -> FilterType {
        match self.resized@ {
            Some((_, filter)) => filter,
            None => FilterType::Nearest,
        }
    }

    pub fn width(&self) -> (r: u32)
        ensures
            r == self.width_spec(),
    {
        self.width
    }

    pub fn height(&self) -> (r: u32)
        ensures
            r == self.height_spec(),
    {
        self.height
    }
}

/// Relies on dicom-object's `from_reader`: parses a DICOM file (the
/// 128-byte preamble is detected and skipped) from its bytes; whether it
/// succeeds depends on the bytes alone.
#[verifier::external_body]
fn open_object(bytes: &[u8]) -> (r: Result<Opened, ReadError>)
    ensures
        r is Ok <==> dicom_readable(bytes@),
        r matches Ok(o) ==> o.source() == bytes@,
{
    match dicom::object::from_reader(bytes) {
        Ok(obj) => Ok(Opened { obj, source: Ghost(bytes@) }),
        Err(e) => Err(e),
    }
}

/// Relies on dicom-pixeldata's `PixelDecoder::decode_pixel_data`: decodes
/// the object's pixel data; whether it succeeds depends on the object.
#[verifier::external_body]
fn decode_pixels(o: &Opened) -> (r: Result<Decoded<'_>, dicom_pixeldata::Error>)
    ensures
        r is Ok <==> pixels_decodable(o.source()),
        r matches Ok(d) ==> d.source() == o.source(),
{
    match o.obj.decode_pixel_data() {
        Ok(pixels) => Ok(Decoded { pixels, source: Ghost(o.source@) }),
        Err(e) => Err(e),
    }
}

/// Relies on dicom-pixeldata's `DecodedPixelData::to_dynamic_image_with_options`:
/// the given frame as an image, with the given output bit depth policy
/// (the other options left at their defaults); the raster records the
/// image's own width and height. Only the first frame is asked for: the
/// per-frame rescale values that the conversion indexes by frame hold one
/// entry per declared frame, so a later frame could be out of their range.
#[verifier::external_body]
fn normalize_frame(d: &Decoded, frame: u32, bit_depth: BitDepthOption) -> (r: Result<
    Raster,
    dicom_pixeldata::Error,
>)
    requires
        frame == 0,
    ensures
        r is Ok <==> frame_dims(d.source(), frame, bit_depth) is Some,
        r matches Ok(ra) ==> frame_dims(d.source(), frame, bit_depth) == Some(
            (ra.width_spec(), ra.height_spec()),
        ) && ra.source() == d.source() && ra.frame() == frame && ra.bit_depth() == bit_depth
            && ra.resized() is None,
{
    let options = ConvertOptions::new().with_bit_depth(bit_depth);
    match d.pixels.to_dynamic_image_with_options(frame, &options) {
        Ok(image) => Ok(Raster {
            width: image.width(), height: image.height(), image,
            source: Ghost(d.source@), frame: Ghost(frame), bit_depth: Ghost(bit_depth),
            resized: Ghost(None),
        }),
        Err(e) => Err(e),
    }
}

/// Relies on image's `DynamicImage::resize` into a `side` by `side` box:
/// the image scaled by one ratio so that it fits the box with its longer
/// side on the box's edge, the shorter one rounded and at least 1 (its
/// size unchanged if it already is the box); the raster records the new
/// image's own width and height.
#[verifier::external_body]
fn resize_into_square(r: &Raster, side: u32, filter: FilterType) -> (t: Raster)
    requires
        r.resized() is None,
        r.width_spec() > 0,
        r.height_spec() > 0,
        side > 0,
    ensures
        fits_square(
            side as int,
            r.width_spec() as int,
            r.height_spec() as int,
            t.width_spec() as int,
            t.height_spec() as int,
        ),
        t.source() == r.source() && t.frame() == r.frame() && t.bit_depth() == r.bit_depth(),
        t.resized() == Some((side, filter)),
{
    let image = r.image.resize(side, side, filter);
    Raster {
        width: image.width(), height: image.height(), image,
        source: Ghost(r.source@), frame: Ghost(r.frame@), bit_depth: Ghost(r.bit_depth@),
        resized: Ghost(Some((side, filter))),
    }
}

/// Relies on image's `DynamicImage::write_to`: the image encoded in the
/// given format, written into memory; the bytes depend on the image alone.
#[verifier::external_body]
fn encode_image(r: &Raster, format: ImageFormat) -> (b: Result<Vec<u8>, ImageError>)
    requires
        r.resized() is Some,
    ensures
        b is Err <==> encoded(
            r.source(),
            r.frame(),
            r.bit_depth(),
            r.resize_side(),
            r.resize_filter(),
            format,
        ) is None,
        b matches Ok(v) ==> encoded(
            r.source(),
            r.frame(),
            r.bit_depth(),
            r.resize_side(),
            r.resize_filter(),
            format,
        ) == Some(v@),
{
    let mut out = std::io::Cursor::new(Vec::new());
    r.image.write_to(&mut out, format).map(|_| out.into_inner())
}

/// A finished thumbnail: its PNG bytes, its size, and the size of the
/// frame it was made from.
pub struct Thumbnail {
    pub png: Vec<u8>,
    pub width: u32,
    pub height: u32,
    pub source_width: u32,
    pub source_height: u32,
}

/// The PNG bytes of the thumbnail of a raster that has not been resized
/// yet; `None` when encoding fails.
pub open spec fn thumbnail_png(r: Raster) -> Option<Seq<u8>> {
    encoded(r.source(), r.frame(), r.bit_depth(), THUMBNAIL_SIDE, FilterType::Lanczos3, ImageFormat::Png)
}

/// Fits a raster into the thumbnail box with the Lanczos3 filter and
/// encodes it as PNG; a raster without pixels is refused.
pub fn shrink_and_encode(raster: &Raster) -> (r: Result<Thumbnail, ConversionError>)
    requires
        raster.resized() is None,
    ensures
        (raster.width_spec() == 0 || raster.height_spec() == 0) <==> r matches Err(
            ConversionError::EmptyImage,
        ),
        r matches Err(ConversionError::Encode(_)) <==> raster.width_spec() > 0
            && raster.height_spec() > 0 && thumbnail_png(*raster) is None,
        r is Ok <==> raster.width_spec() > 0 && raster.height_spec() > 0 && thumbnail_png(
            *raster,
        ) is Some,
        r matches Err(e) ==> e matches ConversionError::EmptyImage || e matches ConversionError::Encode(_),
        r matches Ok(t) ==> t.source_width == raster.width_spec() && t.source_height
            == raster.height_spec() && thumbnail_png(*raster) == Some(t.png@) && fits_box(
            t.source_width as int,
            t.source_height as int,
            t.width as int,
            t.height as int,
        ),
{
    let w = raster.width();
    let h = raster.height();
    if w == 0 || h == 0 {
        return Err(ConversionError::EmptyImage);
    }
    let small = resize_into_square(raster, THUMBNAIL_SIDE, FilterType::Lanczos3);
    match encode_image(&small, ImageFormat::Png) {
        Ok(png) => Ok(
            Thumbnail {
                png,
                width: small.width(),
                height: small.height(),
                source_width: w,
                source_height: h,
            },
        ),
        Err(e) => Err(ConversionError::Encode(e)),
    }
}

/// The size of the frame that thumbnails are made from: the first frame,
/// with the bit depth inferred from the source.
pub open spec fn thumbnail_frame(bytes: Seq<u8>) -> Option<(u32, u32)> {
    frame_dims(bytes, 0, BitDepthOption::Auto)
}

/// The PNG bytes of the thumbnail of a DICOM file's first frame.
pub open spec fn thumbnail_png_of(bytes: Seq<u8>) -> Option<Seq<u8>> {
    encoded(bytes, 0, BitDepthOption::Auto, THUMBNAIL_SIDE, FilterType::Lanczos3, ImageFormat::Png)
}

/// Whether the first frame of readable, decodable bytes converts to an
/// image with pixels.
pub open spec fn has_pixels(bytes: Seq<u8>) -> bool {
    thumbnail_frame(bytes) matches Some((w, h)) && w > 0 && h > 0
}

/// Turns the bytes of one DICOM file into a PNG thumbnail of its first
/// frame (bit depth inferred from the source), fitted into the thumbnail
/// box with its aspect ratio kept. A failure ends the item with the stage
/// that failed; nothing is retried.
pub fn make_thumbnail(bytes: &[u8]) -> (r: Result<Thumbnail, ConversionError>)
    ensures
        r matches Err(ConversionError::Open(_)) <==> !dicom_readable(bytes@),
        r matches Err(ConversionError::Decode(_)) <==> dicom_readable(bytes@) && !pixels_decodable(
            bytes@,
        ),
        r matches Err(ConversionError::Convert(_)) <==> dicom_readable(bytes@) && pixels_decodable(
            bytes@,
        ) && thumbnail_frame(bytes@) is None,
        r matches Err(ConversionError::EmptyImage) <==> dicom_readable(bytes@) && pixels_decodable(
            bytes@,
        ) && thumbnail_frame(bytes@) is Some && !has_pixels(bytes@),
        r matches Err(ConversionError::Encode(_)) <==> dicom_readable(bytes@) && pixels_decodable(
            bytes@,
        ) && has_pixels(bytes@) && thumbnail_png_of(bytes@) is None,
        r is Ok <==> dicom_readable(bytes@) && pixels_decodable(bytes@) && has_pixels(bytes@)
            && thumbnail_png_of(bytes@) is Some,
        r matches Ok(t) ==> thumbnail_frame(bytes@) == Some((t.source_width, t.source_height))
            && thumbnail_png_of(bytes@) == Some(t.png@) && fits_box(
            t.source_width as int,
            t.source_height as int,
            t.width as int,
            t.height as int,
        ),
{
    let obj = match open_object(bytes) {
        Ok(o) => o,
        Err(e) => return Err(ConversionError::Open(e)),
    };
    let pixels = match decode_pixels(&obj) {
        Ok(p) => p,
        Err(e) => return Err(ConversionError::Decode(e)),
    };
    let raster = match normalize_frame(&pixels, 0, BitDepthOption::Auto) {
        Ok(r) => r,
        Err(e) => return Err(ConversionError::Convert(e)),
    };
    shrink_and_encode(&raster)
}

} // verus!
