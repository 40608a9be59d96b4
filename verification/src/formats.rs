//! Dispatch from the request's optional `format` query parameter to the
//! image decoder the service will use.
use vstd::prelude::*;

verus! {

/// The image formats the service can be asked to decode.
#[derive(Clone, Copy, PartialEq, Eq, Structural, Debug)]
pub enum ImageFormat {
    Png,
    Jpeg,
    Gif,
    WebP,
}

/// The view of an optional parameter value: the characters where one was
/// given.
pub open spec fn opt_chars(p: Option<String>) -> Option<Seq<char>> {
    match p {
        Some(s) => Some(s@),
        None => None,
    }
}

/// The format a `format` parameter selects: the matching decoder for a
/// recognized name, PNG for an absent or unrecognized value.
pub open spec fn format_for(p: Option<Seq<char>>) -> ImageFormat {
    match p {
        Some(s) => if s == "jpeg"@ {
            ImageFormat::Jpeg
        } else if s == "gif"@ {
            ImageFormat::Gif
        } else if s == "webp"@ {
            ImageFormat::WebP
        } else {
            ImageFormat::Png
        },
        None => ImageFormat::Png,
    }
}

/// Selects the decoder the `format` query parameter asks for.
pub fn parse_format(p: &Option<String>) -> (r: ImageFormat)
    ensures
        r == format_for(opt_chars(*p)),
{
    match p {
        None => ImageFormat::Png,
        Some(s) => {
            let jpeg = String::from_str("jpeg");
            let gif = String::from_str("gif");
            let webp = String::from_str("webp");
            if *s == jpeg {
                ImageFormat::Jpeg
            } else if *s == gif {
                ImageFormat::Gif
            } else if *s == webp {
                ImageFormat::WebP
            } else {
                ImageFormat::Png
            }
        },
    }
}

} // verus!
