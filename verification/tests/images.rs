use rakuyomi::chapter_storage::ChapterStorage;
use rakuyomi::images::{ConvertError, FastDecode, PosterError, PosterFetch, RgbImage};

fn make_storage() -> ChapterStorage {
    let dir = tempfile::tempdir().unwrap();
    let path = dir.keep().to_str().unwrap().to_string();
    ChapterStorage::new(path, size::Size::from_mebibytes(100.0).bytes(), false)
}

fn make_rgb_jpeg(width: u32, height: u32) -> Vec<u8> {
    let pixels: Vec<u8> = vec![128u8; (width * height * 3) as usize];
    let mut comp = mozjpeg::Compress::new(mozjpeg::ColorSpace::JCS_RGB);
    comp.set_size(width as usize, height as usize);
    comp.set_fastest_defaults();
    let mut comp = comp.start_compress(Vec::new()).unwrap();
    comp.write_scanlines(&pixels).unwrap();
    comp.finish().unwrap()
}

fn output_dimensions(jpeg: &[u8]) -> (u32, u32) {
    let cursor = std::io::Cursor::new(jpeg);
    let img = image::ImageReader::new(cursor)
        .with_guessed_format()
        .unwrap()
        .decode()
        .unwrap();
    (img.width(), img.height())
}

#[test]
fn image_is_transcoded_to_jpeg() {
    let storage = make_storage();
    let input = make_rgb_jpeg(200, 300);
    let output = storage
        .checked_convert_image_data_to_jpeg(&input, FastDecode::Unsupported)
        .unwrap()
        .unwrap();
    let (w, h) = output_dimensions(&output);
    assert_eq!((w, h), (200, 300));
}

#[test]
fn a_png_becomes_a_jpeg() {
    let mut png: Vec<u8> = Vec::new();
    image::RgbImage::from_pixel(3, 2, image::Rgb([255, 0, 0]))
        .write_to(&mut std::io::Cursor::new(&mut png), image::ImageFormat::Png)
        .unwrap();
    let output =
        make_storage().convert_image_data_to_jpeg(&png, FastDecode::Unsupported).unwrap();
    assert_eq!(&output[..3], &[0xff, 0xd8, 0xff]);
    assert_eq!(output_dimensions(&output), (3, 2));
}

#[test]
fn what_is_no_image_is_not_decoded() {
    let storage = make_storage();
    let result = storage.convert_image_data_to_jpeg(b"no image", FastDecode::Unsupported);
    assert_eq!(result, Err(ConvertError::Decode));
    assert_eq!(ConvertError::Decode.message(), Some("decode failed"));
    assert_eq!(ConvertError::Encode.message(), None);
    let failed = storage.checked_convert_image_data_to_jpeg(b"", FastDecode::Failed);
    assert_eq!(failed, Some(Err(ConvertError::FastDecode)));
}

#[test]
fn an_image_of_the_fast_decoder_is_written() {
    let image = RgbImage { width: 4, height: 5, pixels: vec![7; 60] };
    let output = make_storage()
        .checked_convert_image_data_to_jpeg(b"", FastDecode::Decoded(image))
        .unwrap()
        .unwrap();
    assert_eq!(output_dimensions(&output), (4, 5));
}

#[test]
fn an_image_that_cannot_be_written_is_refused() {
    let storage = make_storage();
    for image in [
        RgbImage { width: 0, height: 5, pixels: vec![] },
        RgbImage { width: 65501, height: 1, pixels: vec![0; 65501 * 3] },
        RgbImage { width: 4, height: 5, pixels: vec![0; 59] },
    ] {
        let result = storage.checked_convert_image_data_to_jpeg(b"", FastDecode::Decoded(image));
        assert_eq!(result, None);
    }
}

#[test]
fn a_jpeg_shows_what_the_image_showed() {
    let storage = make_storage();
    for shade in [0u8, 255u8] {
        let mut png: Vec<u8> = Vec::new();
        image::RgbImage::from_pixel(16, 16, image::Rgb([shade, shade, shade]))
            .write_to(&mut std::io::Cursor::new(&mut png), image::ImageFormat::Png)
            .unwrap();
        let jpeg = storage.convert_image_data_to_jpeg(&png, FastDecode::Unsupported).unwrap();
        let shown = image::load_from_memory(&jpeg).unwrap().to_rgb8();
        let pixel = shown.get_pixel(8, 8).0;
        assert!(pixel.iter().all(|value| value.abs_diff(shade) <= 3));
        let image = RgbImage { width: 16, height: 16, pixels: vec![shade; 768] };
        let same = storage.convert_image_data_to_jpeg(&png, FastDecode::Decoded(image)).unwrap();
        assert_eq!(same, jpeg);
    }
}

#[test]
fn a_poster_is_written_only_where_an_image_came() {
    let storage = make_storage();
    let body = PosterFetch::Body(make_rgb_jpeg(8, 6));
    let jpeg = storage.poster_to_write(&body, FastDecode::Unsupported).unwrap().unwrap();
    assert_eq!(output_dimensions(&jpeg), (8, 6));
    let refused = |fetch: PosterFetch, fast: FastDecode| {
        storage.poster_to_write(&fetch, fast).unwrap().unwrap_err()
    };
    let cancelled = refused(PosterFetch::Cancelled, FastDecode::Unsupported);
    assert_eq!(cancelled, PosterError::Cancelled);
    assert_eq!(cancelled.message(), Some("cancelled"));
    let failed = refused(PosterFetch::Failed, FastDecode::Unsupported);
    assert_eq!(failed, PosterError::Fetch);
    assert_eq!(failed.message(), None);
    let page = refused(PosterFetch::Body(b"<html>".to_vec()), FastDecode::Unsupported);
    assert_eq!(page, PosterError::Convert(ConvertError::Decode));
    assert_eq!(page.message(), Some("decode failed"));
    let broken = refused(PosterFetch::Body(vec![]), FastDecode::Failed);
    assert_eq!(broken, PosterError::Convert(ConvertError::FastDecode));
    let empty = RgbImage { width: 0, height: 0, pixels: vec![] };
    let none = PosterFetch::Body(vec![]);
    assert_eq!(storage.poster_to_write(&none, FastDecode::Decoded(empty)), None);
}
