use std::io::Cursor;

use base64::Engine;
use thumbhash_lambda::encoding::restore_padding;
use thumbhash_lambda::formats::parse_format;
use thumbhash_lambda::formats::ImageFormat;
use thumbhash_lambda::handler::handle_fetched;
use thumbhash_lambda::handler::status_or_reject;
use thumbhash_lambda::handler::url_or_reject;
use thumbhash_lambda::imaging::hash_image;
use thumbhash_lambda::imaging::hash_rgba;
use thumbhash_lambda::imaging::HashError;

const B64_ALPHABET: &str = "ABCDEFGHIJKLMNOPQRSTUVWXYZabcdefghijklmnopqrstuvwxyz0123456789+/";

fn gradient_rgba(w: u32, h: u32) -> image::DynamicImage {
    let img = image::RgbaImage::from_fn(w, h, |x, y| {
        image::Rgba([(x * 13 % 256) as u8, (y * 29 % 256) as u8, 128, 255])
    });
    image::DynamicImage::ImageRgba8(img)
}

fn encoded_bytes(img: &image::DynamicImage, fmt: image::ImageFormat) -> Vec<u8> {
    let mut out = Cursor::new(Vec::new());
    img.write_to(&mut out, fmt).unwrap();
    out.into_inner()
}

fn extract_data_url(body: &str) -> String {
    let prefix = "{\"data_url\":\"";
    let suffix = "\"}";
    assert!(body.starts_with(prefix));
    assert!(body.ends_with(suffix));
    body[prefix.len()..body.len() - suffix.len()].to_string()
}

#[test]
fn missing_url_gives_400() {
    let r = url_or_reject(None);
    match r {
        Ok(_) => panic!("a missing url parameter must be rejected"),
        Err(resp) => {
            assert_eq!(resp.status, 400);
            assert_eq!(resp.content_type, "application/json");
            assert_eq!(resp.body, "{\"message\":\"url parameter is required\"}");
        }
    }
}

#[test]
fn url_is_trimmed() {
    let r = url_or_reject(Some("  https://example.com/a.png \n".to_string()));
    assert_eq!(r.ok().unwrap(), "https://example.com/a.png");
}

#[test]
fn non_200_gives_400() {
    assert!(status_or_reject(200).is_ok());
    for status in [100u16, 301, 404, 500] {
        let resp = handle_fetched(status, &Vec::new(), &None).ok().unwrap();
        assert_eq!(resp.status, 400);
        assert_eq!(resp.content_type, "application/json");
        assert_eq!(resp.body, "{\"message\":\"got non 200 response\"}");
    }
}

#[test]
fn format_parameter_selects_decoder() {
    assert_eq!(parse_format(&None), ImageFormat::Png);
    assert_eq!(parse_format(&Some("png".to_string())), ImageFormat::Png);
    assert_eq!(parse_format(&Some("jpeg".to_string())), ImageFormat::Jpeg);
    assert_eq!(parse_format(&Some("gif".to_string())), ImageFormat::Gif);
    assert_eq!(parse_format(&Some("webp".to_string())), ImageFormat::WebP);
    assert_eq!(parse_format(&Some("bmp".to_string())), ImageFormat::Png);
    assert_eq!(parse_format(&Some("JPEG".to_string())), ImageFormat::Png);
    assert_eq!(parse_format(&Some("".to_string())), ImageFormat::Png);
}

#[test]
fn png_success_gives_valid_unpadded_data_url() {
    let bytes = encoded_bytes(&gradient_rgba(16, 16), image::ImageFormat::Png);
    let resp = handle_fetched(200, &bytes, &None).ok().unwrap();
    assert_eq!(resp.status, 200);
    assert_eq!(resp.content_type, "application/json");
    let data_url = extract_data_url(&resp.body);
    assert!(!data_url.is_empty());
    assert!(data_url.chars().all(|c| B64_ALPHABET.contains(c)));
    let padded = restore_padding(&data_url);
    let hash = base64::engine::general_purpose::STANDARD
        .decode(padded.as_bytes())
        .unwrap();
    assert!(hash.len() >= 5 && hash.len() <= 38);
}

#[test]
fn data_url_round_trips_to_the_hash() {
    let bytes = encoded_bytes(&gradient_rgba(24, 12), image::ImageFormat::Png);
    let resp = handle_fetched(200, &bytes, &None).ok().unwrap();
    let data_url = extract_data_url(&resp.body);
    let padded = restore_padding(&data_url);
    let hash = base64::engine::general_purpose::STANDARD
        .decode(padded.as_bytes())
        .unwrap();
    // Re-encoding the decoded bytes, padding restored, reproduces them.
    assert_eq!(
        base64::engine::general_purpose::STANDARD.encode(&hash),
        padded
    );
    // And the bytes are exactly the placeholder hash of the thumbnail.
    let img = image::load_from_memory_with_format(&bytes, image::ImageFormat::Png).unwrap();
    let thumb = img.thumbnail(100, 100);
    let rgba = thumb.to_rgba8();
    let expected = thumbhash::rgba_to_thumb_hash(
        rgba.width() as usize,
        rgba.height() as usize,
        rgba.as_raw(),
    );
    assert_eq!(hash, expected);
}

#[test]
fn each_declared_format_decodes_its_own_encoding() {
    let rgba = gradient_rgba(10, 10);
    let rgb = image::DynamicImage::ImageRgb8(rgba.to_rgb8());
    let cases = [
        (encoded_bytes(&rgba, image::ImageFormat::Png), "png"),
        (encoded_bytes(&rgb, image::ImageFormat::Jpeg), "jpeg"),
        (encoded_bytes(&rgba, image::ImageFormat::Gif), "gif"),
        (encoded_bytes(&rgba, image::ImageFormat::WebP), "webp"),
    ];
    for (bytes, name) in cases {
        let resp = handle_fetched(200, &bytes, &Some(name.to_string()))
            .ok()
            .unwrap();
        assert_eq!(resp.status, 200);
    }
}

#[test]
fn wrong_format_or_garbage_is_a_decode_error() {
    let png = encoded_bytes(&gradient_rgba(8, 8), image::ImageFormat::Png);
    assert_eq!(hash_image(&png, ImageFormat::Jpeg), Err(HashError::Decode));
    assert_eq!(hash_image(&png, ImageFormat::Gif), Err(HashError::Decode));
    assert_eq!(
        hash_image(&vec![1, 2, 3], ImageFormat::Png),
        Err(HashError::Decode)
    );
    assert_eq!(
        handle_fetched(200, &png, &Some("gif".to_string())).err(),
        Some(HashError::Decode)
    );
}

#[test]
fn hash_rgba_rejects_bad_dimensions() {
    assert_eq!(
        hash_rgba(101, 1, &vec![0; 4 * 101]),
        Err(HashError::Dimensions)
    );
    assert_eq!(
        hash_rgba(1, 101, &vec![0; 4 * 101]),
        Err(HashError::Dimensions)
    );
    assert_eq!(hash_rgba(2, 2, &vec![0; 15]), Err(HashError::Dimensions));
}

#[test]
fn hash_rgba_matches_the_hash_library() {
    let pixels = vec![10, 20, 30, 255, 40, 50, 60, 128];
    let ours = hash_rgba(2, 1, &pixels).ok().unwrap();
    let theirs = thumbhash::rgba_to_thumb_hash(2, 1, &pixels);
    assert_eq!(ours, theirs);
    assert!(ours.len() >= 5);
}
