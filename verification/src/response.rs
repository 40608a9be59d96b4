//! The replies the service can give, shaped down to the exact JSON text.
use vstd::prelude::*;

verus! {

/// An HTTP reply: a status code, the value of the `Content-Type` header,
/// and the body text.
pub struct HttpResponse {
    pub status: u16,
    pub content_type: String,
    pub body: String,
}

/// The body of an error reply: a JSON object with one `message` field.
pub open spec fn json_message_body(msg: Seq<char>) -> Seq<char> {
    "{\"message\":\""@ + msg + "\"}"@
}

/// The body of a success reply: a JSON object with one `data_url` field.
pub open spec fn json_data_url_body(v: Seq<char>) -> Seq<char> {
    "{\"data_url\":\""@ + v + "\"}"@
}

/// Frames `msg` as the `message` field of a JSON object.
pub fn json_message(msg: &str) -> (r: String)
    ensures
        r@ == json_message_body(msg@),
{
    let r = String::from_str("{\"message\":\"").concat(msg).concat("\"}");
    proof {
        assert(r@ =~= json_message_body(msg@));
    }
    r
}

/// Frames `v` as the `data_url` field of a JSON object.
pub fn json_data_url(v: &str) -> (r: String)
    ensures
        r@ == json_data_url_body(v@),
{
    let r = String::from_str("{\"data_url\":\"").concat(v).concat("\"}");
    proof {
        assert(r@ =~= json_data_url_body(v@));
    }
    r
}

/// The reply to a request that carries no `url` parameter.
pub fn missing_url_response() -> (r: HttpResponse)
    ensures
        r.status == 400,
        r.content_type@ == "application/json"@,
        r.body@ == json_message_body("url parameter is required"@),
{
    HttpResponse {
        status: 400,
        content_type: String::from_str("application/json"),
        body: json_message("url parameter is required"),
    }
}

/// The reply to a request whose URL did not fetch with status 200.
pub fn non_success_response() -> (r: HttpResponse)
    ensures
        r.status == 400,
        r.content_type@ == "application/json"@,
        r.body@ == json_message_body("got non 200 response"@),
{
    HttpResponse {
        status: 400,
        content_type: String::from_str("application/json"),
        body: json_message("got non 200 response"),
    }
}

/// The reply that publishes an encoded placeholder hash.
pub fn success_response(data_url: &str) -> (r: HttpResponse)
    ensures
        r.status == 200,
        r.content_type@ == "application/json"@,
        r.body@ == json_data_url_body(data_url@),
{
    HttpResponse {
        status: 200,
        content_type: String::from_str("application/json"),
        body: json_data_url(data_url),
    }
}

} // verus!
