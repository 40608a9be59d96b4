//! The request handler's decisions, from the query parameters to the reply.
//! The host only fetches: it hands the `url` parameter here, fetches the URL
//! this module accepts, and hands the fetch's status, body bytes and the
//! `format` parameter back to `handle_fetched` for everything that follows.
use vstd::prelude::*;
use crate::encoding::b64_encode;
use crate::encoding::encode_unpadded;
use crate::encoding::strip_pad;
use crate::formats::format_for;
use crate::formats::opt_chars;
use crate::formats::parse_format;
use crate::imaging::HashError;
use crate::imaging::hash_image;
use crate::imaging::thumb_rgba_of;
use crate::response::HttpResponse;
use crate::response::json_data_url_body;
use crate::response::json_message_body;
use crate::response::missing_url_response;
use crate::response::non_success_response;
use crate::response::success_response;

verus! {

/// What `str::trim` leaves of `s`: its characters less leading and trailing
/// whitespace. The result depends on the characters alone.
pub uninterp spec fn trim_of(s: Seq<char>) -> Seq<char>;

/// Relies on `str::trim`: removes leading and trailing whitespace, returning
/// a part of the input.
#[verifier::external_body]
fn trim_exec(s: &str) -> (r: &str)
    ensures
        r@ == trim_of(s@),
        r@.len() <= s@.len(),
{
    s.trim()
}

/// Accepts a request's `url` parameter: the trimmed URL where one was given,
/// the missing-parameter reply where none was.
pub fn url_or_reject(url: Option<String>) -> (r: Result<String, HttpResponse>)
    ensures
        match r {
            Ok(u) => url matches Some(orig) && u@ == trim_of(orig@),
            Err(resp) => url is None && resp.status == 400 && resp.content_type@
                == "application/json"@ && resp.body@ == json_message_body(
                "url parameter is required"@,
            ),
        },
{
    match url {
        None => Err(missing_url_response()),
        Some(u) => Ok(trim_exec(u.as_str()).to_owned()),
    }
}

/// Accepts a fetch's HTTP status: exactly 200 goes through; anything else
/// becomes the non-200 reply.
pub fn status_or_reject(status: u16) -> (r: Result<(), HttpResponse>)
    ensures
        match r {
            Ok(_) => status == 200,
            Err(resp) => status != 200 && resp.status == 400 && resp.content_type@
                == "application/json"@ && resp.body@ == json_message_body(
                "got non 200 response"@,
            ),
        },
{
    if status != 200 {
        Err(non_success_response())
    } else {
        Ok(())
    }
}

/// Everything the service does after the fetch: reject a non-200 status;
/// otherwise decode the body in the format the `format` parameter selects,
/// scale, hash, and publish the hash as unpadded base64 in a JSON reply. On
/// a 200 status, the reply succeeds exactly where the body decodes as the
/// selected format; a body that does not decode surfaces as an error for
/// the host's generic failure path.
pub fn handle_fetched(status: u16, bytes: &Vec<u8>, format_param: &Option<String>) -> (r: Result<
    HttpResponse,
    HashError,
>)
    ensures
        match r {
            Ok(resp) => {
                &&& resp.content_type@ == "application/json"@
                &&& if status != 200 {
                    resp.status == 400 && resp.body@ == json_message_body("got non 200 response"@)
                } else {
                    &&& resp.status == 200
                    &&& thumb_rgba_of(bytes@, format_for(opt_chars(*format_param)), 100, 100)
                        is Some
                    &&& exists|hash: Seq<u8>|
                        5 <= hash.len() <= 25 && resp.body@ == json_data_url_body(
                            #[trigger] strip_pad(b64_encode(hash)),
                        )
                }
            },
            Err(e) => status == 200 && e == HashError::Decode && thumb_rgba_of(
                bytes@,
                format_for(opt_chars(*format_param)),
                100,
                100,
            ) is None,
        },
{
    match status_or_reject(status) {
        Err(resp) => Ok(resp),
        Ok(()) => {
            let fmt = parse_format(format_param);
            match hash_image(bytes, fmt) {
                Err(e) => Err(e),
                Ok(hash) => {
                    let encoded = encode_unpadded(hash.as_slice());
                    let resp = success_response(encoded.as_str());
                    proof {
                        assert(5 <= hash@.len() <= 25 && resp.body@ == json_data_url_body(
                            strip_pad(b64_encode(hash@)),
                        ));
                    }
                    Ok(resp)
                },
            }
        },
    }
}

} // verus!
