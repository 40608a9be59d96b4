//! Core logic of a small image-placeholder service: query-parameter
//! validation, image-format dispatch, placeholder hashing of decoded pixel
//! data, unpadded base64 encoding, and JSON response shaping.
pub mod encoding;
pub mod handler;
pub mod formats;
pub mod imaging;
pub mod response;

