//! Images: decoding them and writing them as JPEG.
use vstd::prelude::*;

use crate::chapter_storage::{poster_path, ChapterStorage};

verus! {

/// An image of red, green and blue bytes, row by row.
#[derive(Clone, Debug, PartialEq, Eq)]
pub struct RgbImage {
    pub width: u32,
    pub height: u32,
    pub pixels: Vec<u8>,
}

impl RgbImage {
    /// The number of bytes that the pixels of the image take.
    pub open spec fn size(self) -> int {
        3 * (self.width * self.height)
    }

    /// Whether the image can be written as JPEG: it is neither empty nor larger
    /// than 65500 pixels on a side, and no row is missing.
    pub open spec fn encodable(self) -> bool {
        &&& 0 < self.width <= 65500
        &&& 0 < self.height <= 65500
        &&& self.size() <= self.pixels@.len()
    }
}

/// The width and the height of the image that `image` decodes from bytes, where it
/// decodes one.
pub uninterp spec fn image_dimensions(data: Seq<u8>) -> Option<(u32, u32)>;

/// The red, green and blue bytes of the image that `image` decodes from bytes.
pub uninterp spec fn image_pixels(data: Seq<u8>) -> Seq<u8>;

/// The JPEG that `mozjpeg` makes of an image of a width and a height, by its red, green
/// and blue bytes.
pub uninterp spec fn jpeg_encoded(width: u32, height: u32, pixels: Seq<u8>) -> Option<Seq<u8>>;

/// `image::ImageReader` with a guessed format, `decode` and `to_rgb8`: the image that the
/// bytes hold, with three bytes for each pixel. Width, height and pixels depend on the
/// bytes alone.
#[verifier::external_body]
pub(crate) fn decode_image(data: &[u8]) -> (r: Option<RgbImage>)
    ensures
        match r {
            Some(image) => {
                &&& image_dimensions(data@) == Some((image.width, image.height))
                &&& image.pixels@ == image_pixels(data@)
                &&& image.pixels@.len() == image.size()
            },
            None => image_dimensions(data@) is None,
        },
{
    let reader = image::ImageReader::new(std::io::Cursor::new(data)).with_guessed_format().ok()?;
    let rgb = reader.decode().ok()?.to_rgb8();
    Some(RgbImage { width: rgb.width(), height: rgb.height(), pixels: rgb.to_vec() })
}

/// `mozjpeg::Compress` with its fastest defaults: the image as JPEG, `None` where it
/// reports an error. Where the result can be decoded, it has the width and the height of
/// the image. It panics on an image that cannot be encoded.
#[verifier::external_body]
pub(crate) fn encode_jpeg(image: &RgbImage) -> (r: Option<Vec<u8>>)
    requires
        image.encodable(),
    ensures
        optional_bytes(r) == jpeg_encoded(image.width, image.height, image.pixels@),
        r matches Some(jpeg) ==> (image_dimensions(jpeg@) matches Some(d) ==> d == (
            image.width,
            image.height,
        )),
{
    let mut settings = mozjpeg::Compress::new(mozjpeg::ColorSpace::JCS_RGB);
    settings.set_size(image.width as usize, image.height as usize);
    settings.set_fastest_defaults();
    let mut writer = settings.start_compress(Vec::new()).ok()?;
    writer.write_scanlines(&image.pixels).ok()?;
    writer.finish().ok()
}

/// The bytes of an optional vector.
pub open spec fn optional_bytes(bytes: Option<Vec<u8>>) -> Option<Seq<u8>> {
    match bytes {
        Some(bytes) => Some(bytes@),
        None => None,
    }
}

/// What a fast decoder for some formats made of an image.
#[derive(Clone, Debug, PartialEq, Eq)]
pub enum FastDecode {
    /// It does not know the format.
    Unsupported,
    Failed,
    Decoded(RgbImage),
}

/// Why an image could not be written as JPEG.
#[derive(Clone, Copy, Debug, PartialEq, Eq, Structural)]
pub enum ConvertError {
    /// The fast decoder knows the format, and could not decode the image.
    FastDecode,
    /// No decoder could decode the image.
    Decode,
    Encode,
}

impl ConvertError {
    /// The error in words, where a decoder or an encoder does not give it in its own.
    pub fn message(&self) -> (r: Option<&'static str>)
        ensures
            match *self {
                ConvertError::Decode => r matches Some(t) && t@ == "decode failed"@,
                _ => r is None,
            },
    {
        match self {
            ConvertError::Decode => Some("decode failed"),
            _ => None,
        }
    }
}

/// The width and the height of the image that is to be written, where one was decoded.
pub open spec fn source_dimensions(data: Seq<u8>, fast: FastDecode) -> Option<(u32, u32)> {
    match fast {
        FastDecode::Unsupported => image_dimensions(data),
        FastDecode::Failed => None,
        FastDecode::Decoded(image) => Some((image.width, image.height)),
    }
}

/// Whether the image that is to be written can be, where one was decoded.
pub open spec fn source_encodable(data: Seq<u8>, fast: FastDecode) -> bool {
    match fast {
        FastDecode::Unsupported => image_dimensions(data) matches Some(d) ==> 0 < d.0 <= 65500
            && 0 < d.1 <= 65500,
        FastDecode::Failed => true,
        FastDecode::Decoded(image) => image.encodable(),
    }
}

/// The red, green and blue bytes of the image that is to be written.
pub open spec fn source_pixels(data: Seq<u8>, fast: FastDecode) -> Seq<u8> {
    match fast {
        FastDecode::Decoded(image) => image.pixels@,
        _ => image_pixels(data),
    }
}

/// Whether this comes of writing an image as JPEG.
pub open spec fn converted(
    data: Seq<u8>,
    fast: FastDecode,
    r: Result<Vec<u8>, ConvertError>,
) -> bool {
    match source_dimensions(data, fast) {
        Some(d) => {
            &&& match jpeg_encoded(d.0, d.1, source_pixels(data, fast)) {
                Some(bytes) => r matches Ok(jpeg) && jpeg@ == bytes,
                None => r == Err::<Vec<u8>, ConvertError>(ConvertError::Encode),
            }
            &&& r matches Ok(jpeg) ==> (image_dimensions(jpeg@) matches Some(now) ==> now == d)
        },
        None => r == Err::<Vec<u8>, ConvertError>(
            if fast is Failed {
                ConvertError::FastDecode
            } else {
                ConvertError::Decode
            },
        ),
    }
}

/// Takes the image that the fast decoder gave; one whose format it does not know is
/// decoded here.
fn choose_image(data: &[u8], fast: FastDecode) -> (r: Result<RgbImage, ConvertError>)
    ensures
        match r {
            Ok(image) => {
                &&& source_dimensions(data@, fast) == Some((image.width, image.height))
                &&& source_pixels(data@, fast) == image.pixels@
                &&& source_encodable(data@, fast) == image.encodable()
            },
            Err(e) => source_dimensions(data@, fast) is None && source_encodable(data@, fast) && e
                == (if fast is Failed {
                ConvertError::FastDecode
            } else {
                ConvertError::Decode
            }),
        },
{
    match fast {
        FastDecode::Unsupported => match decode_image(data) {
            Some(image) => Ok(image),
            None => Err(ConvertError::Decode),
        },
        FastDecode::Failed => Err(ConvertError::FastDecode),
        FastDecode::Decoded(image) => Ok(image),
    }
}

/// Says whether an image can be written as JPEG.
fn is_encodable(image: &RgbImage) -> (r: bool)
    ensures
        r == image.encodable(),
{
    if image.width == 0 || image.width > 65500 || image.height == 0 || image.height > 65500 {
        return false;
    }
    let w: u64 = image.width as u64;
    let h: u64 = image.height as u64;
    assert(0 <= w * h <= 65500 * 65500) by (nonlinear_arith)
        requires
            0 <= w <= 65500,
            0 <= h <= 65500,
    ;
    let size: u64 = 3 * (w * h);
    size <= image.pixels.len() as u64
}

impl ChapterStorage {
    /// Writes an image as JPEG. The result is made of the pixels of the image, and has its
    /// width and its height.
    pub fn convert_image_data_to_jpeg(&self, data: &[u8], fast: FastDecode) -> (r: Result<
        Vec<u8>,
        ConvertError,
    >)
        requires
            source_encodable(data@, fast),
        ensures
            converted(data@, fast, r),
    {
        match choose_image(data, fast) {
            Ok(image) => match encode_jpeg(&image) {
                Some(jpeg) => Ok(jpeg),
                None => Err(ConvertError::Encode),
            },
            Err(e) => Err(e),
        }
    }

    /// Writes an image as JPEG, and gives `None` for one that is too large for that, is
    /// empty, or lacks rows.
    pub fn checked_convert_image_data_to_jpeg(&self, data: &[u8], fast: FastDecode) -> (r: Option<
        Result<Vec<u8>, ConvertError>,
    >)
        ensures
            match r {
                Some(r) => source_encodable(data@, fast) && converted(data@, fast, r),
                None => !source_encodable(data@, fast),
            },
    {
        match choose_image(data, fast) {
            Ok(image) => if is_encodable(&image) {
                Some(self.convert_image_data_to_jpeg(data, FastDecode::Decoded(image)))
            } else {
                None
            },
            Err(e) => Some(Err(e)),
        }
    }
}

/// What came of the request for a poster.
#[derive(Clone, Debug, PartialEq, Eq)]
pub enum PosterFetch {
    Cancelled,
    /// It could not be made, was not answered, or was answered with an error.
    Failed,
    Body(Vec<u8>),
}

/// Why there is no poster.
#[derive(Clone, Copy, Debug, PartialEq, Eq, Structural)]
pub enum PosterError {
    Cancelled,
    Fetch,
    Convert(ConvertError),
}

impl PosterError {
    /// The error in words, where the request, a decoder or an encoder does not give it in
    /// its own.
    pub fn message(&self) -> (r: Option<&'static str>)
        ensures
            match *self {
                PosterError::Cancelled => r matches Some(t) && t@ == "cancelled"@,
                PosterError::Convert(ConvertError::Decode) => r matches Some(t) && t@
                    == "decode failed"@,
                _ => r is None,
            },
    {
        match self {
            PosterError::Cancelled => Some("cancelled"),
            PosterError::Fetch => None,
            PosterError::Convert(error) => error.message(),
        }
    }
}

/// Whether this is to be written as a poster, or the reason for which nothing is.
pub open spec fn poster_of(
    fetch: PosterFetch,
    fast: FastDecode,
    r: Result<Vec<u8>, PosterError>,
) -> bool {
    match fetch {
        PosterFetch::Cancelled => r == Err::<Vec<u8>, PosterError>(PosterError::Cancelled),
        PosterFetch::Failed => r == Err::<Vec<u8>, PosterError>(PosterError::Fetch),
        PosterFetch::Body(body) => match r {
            Ok(jpeg) => converted(body@, fast, Ok(jpeg)),
            Err(PosterError::Convert(error)) => converted(body@, fast, Err(error)),
            Err(_) => false,
        },
    }
}

impl ChapterStorage {
    /// What is to be written as a poster after it was requested: the answer as JPEG. `None`
    /// is for an image that cannot be written as JPEG at all.
    pub fn poster_to_write(&self, fetch: &PosterFetch, fast: FastDecode) -> (r: Option<
        Result<Vec<u8>, PosterError>,
    >)
        ensures
            match r {
                Some(r) => poster_of(*fetch, fast, r),
                None => fetch matches PosterFetch::Body(body) && !source_encodable(body@, fast),
            },
            r is None <==> (fetch matches PosterFetch::Body(body) && !source_encodable(body@, fast)),
    {
        match fetch {
            PosterFetch::Cancelled => Some(Err(PosterError::Cancelled)),
            PosterFetch::Failed => Some(Err(PosterError::Fetch)),
            PosterFetch::Body(body) => match self.checked_convert_image_data_to_jpeg(
                body.as_slice(),
                fast,
            ) {
                Some(Ok(jpeg)) => Some(Ok(jpeg)),
                Some(Err(error)) => Some(Err(PosterError::Convert(error))),
                None => None,
            },
        }
    }
}

/// What the files hold after a poster was requested: one more where there is something to
/// be written, and else what they held.
pub open spec fn files_after_fetch(
    files: Map<Seq<char>, Seq<u8>>,
    file: Seq<char>,
    r: Option<Result<Vec<u8>, PosterError>>,
) -> Map<Seq<char>, Seq<u8>> {
    match r {
        Some(Ok(jpeg)) => files.insert(file, jpeg@),
        _ => files,
    }
}

/// A poster that was not there is there after it was requested if and only if the request
/// was answered with an image that could be written as JPEG, and then holds that JPEG. A
/// request that is cancelled or fails, or an answer that is no image, leaves none.
pub proof fn lemma_poster_is_kept_if_and_only_if_fetched(
    storage: ChapterStorage,
    id: (Seq<char>, Seq<char>),
    files: Map<Seq<char>, Seq<u8>>,
    fetch: PosterFetch,
    fast: FastDecode,
    r: Option<Result<Vec<u8>, PosterError>>,
)
    requires
        !files.dom().contains(poster_path(storage.downloads_folder_path@, id)),
        r matches Some(r) ==> poster_of(fetch, fast, r),
    ensures
        ({
            let file = poster_path(storage.downloads_folder_path@, id);
            let after = files_after_fetch(files, file, r);
            &&& after.dom().contains(file) <==> (r matches Some(Ok(_)))
            &&& (r matches Some(Ok(jpeg)) ==> after[file] == jpeg@ && (
            fetch matches PosterFetch::Body(body) && converted(body@, fast, Ok(jpeg))))
            &&& fetch is Cancelled || fetch is Failed ==> !after.dom().contains(file)
            &&& (fetch matches PosterFetch::Body(body) && source_dimensions(body@, fast) is None)
                ==> !after.dom().contains(file)
        }),
{
}

/// An image that the fast decoder gave is written as it is, whatever its bytes are; one that
/// it could not decode is not written, and the error says so; and one whose format it does
/// not know is decoded from its bytes.
pub proof fn lemma_fast_decoder_decides(
    data: Seq<u8>,
    fast: FastDecode,
    r: Result<Vec<u8>, ConvertError>,
)
    requires
        converted(data, fast, r),
    ensures
        fast is Failed ==> r == Err::<Vec<u8>, ConvertError>(ConvertError::FastDecode),
        fast matches FastDecode::Decoded(image) ==> match jpeg_encoded(
            image.width,
            image.height,
            image.pixels@,
        ) {
            Some(bytes) => r matches Ok(jpeg) && jpeg@ == bytes,
            None => r == Err::<Vec<u8>, ConvertError>(ConvertError::Encode),
        },
        fast is Unsupported && image_dimensions(data) is None ==> r == Err::<Vec<u8>, ConvertError>(
            ConvertError::Decode,
        ),
        fast is Unsupported ==> (image_dimensions(data) matches Some(d) ==> match jpeg_encoded(
            d.0,
            d.1,
            image_pixels(data),
        ) {
            Some(bytes) => r matches Ok(jpeg) && jpeg@ == bytes,
            None => r == Err::<Vec<u8>, ConvertError>(ConvertError::Encode),
        }),
{
}

/// A poster is what the answer to its request holds, as JPEG; a request that was cancelled
/// or failed gives none, and says which it was.
pub proof fn lemma_poster_comes_of_its_answer(
    fetch: PosterFetch,
    fast: FastDecode,
    r: Result<Vec<u8>, PosterError>,
)
    requires
        poster_of(fetch, fast, r),
    ensures
        fetch is Cancelled <==> r == Err::<Vec<u8>, PosterError>(PosterError::Cancelled),
        fetch is Failed <==> r == Err::<Vec<u8>, PosterError>(PosterError::Fetch),
        r is Ok ==> fetch is Body,
        fetch matches PosterFetch::Body(body) ==> (fast is Unsupported && image_dimensions(
            body@,
        ) is None ==> r == Err::<Vec<u8>, PosterError>(PosterError::Convert(ConvertError::Decode))),
{
}

/// An image can be written as JPEG if and only if it is neither empty nor larger than 65500
/// pixels on a side, and holds three bytes for each pixel at least.
pub proof fn lemma_encodable_images(image: RgbImage)
    ensures
        image.encodable() <==> 1 <= image.width <= 65500 && 1 <= image.height <= 65500 && 3 * (
        image.width * image.height) <= image.pixels@.len(),
{
}

}
