//! Laws: what an error response is taken for.

use vstd::prelude::*;
use crate::api_error::{body_json, generic_error, utf8_lossy};
use crate::error::{kind_of_status, ApiErrorKindV};
use crate::json::{json_as_str, json_get, JsonV};
use crate::text::decimal;

verus! {

/// A kind that says what was wrong with the request.
pub open spec fn blames_the_request(kind: ApiErrorKindV) -> bool {
    kind is InvalidRequest || kind is Auth || kind is PermissionDenied || kind is NotFound || kind is RateLimit
}

/// A kind that says that the provider failed.
pub open spec fn blames_the_provider(kind: ApiErrorKindV) -> bool {
    kind is ServerError || kind is Overloaded
}

/// A status tells the two sides apart by its first digit, has its own kind
/// where it has its own meaning, and is kept in words where it has none.
pub proof fn status_tells_the_kind(status: u16)
    ensures
        blames_the_request(kind_of_status(status)) <==> status / 100 == 4,
        blames_the_provider(kind_of_status(status)) <==> status / 100 == 5,
        kind_of_status(status) is Auth <==> status == 401,
        kind_of_status(status) is PermissionDenied <==> status == 403,
        kind_of_status(status) is NotFound <==> status == 404,
        kind_of_status(status) is RateLimit <==> status == 429,
        kind_of_status(status) is Overloaded <==> status == 503 || status == 529,
        !(status / 100 == 4 || status / 100 == 5) ==> kind_of_status(status) == ApiErrorKindV::Other(
            decimal(status as nat),
        ),
{
}

/// A body that is no JSON stands for itself: its message is the start of its
/// text, all of it up to two hundred characters.
pub proof fn plain_body_is_its_own_message(status: u16, headers: http::HeaderMap, body: Seq<u8>)
    requires
        body_json(body) is None,
    ensures
        ({
            let e = generic_error(status, headers, body);
            let text = utf8_lossy(body);
            let m = e->Api_message;
            &&& e is Api && e->Api_status == status && e->Api_raw == body && !e->Api_truncated
            &&& m.len() <= text.len() && m == text.take(m.len() as int)
            &&& m.len() < text.len() ==> m.len() == 200
            &&& text.len() <= 200 ==> m == text
        }),
{
    let text = utf8_lossy(body);
    assert(text.take(text.len() as int) =~= text);
}

/// A message that the provider gives is the message.
pub proof fn provider_message_is_kept(status: u16, headers: http::HeaderMap, body: Seq<u8>, j: JsonV, text: Seq<char>)
    requires
        body_json(body) == Some(j),
        json_get(j, "error"@) is Some,
        json_as_str(json_get(json_get(j, "error"@)->0, "message"@)) == Some(text),
    ensures
        generic_error(status, headers, body)->Api_message == text,
        generic_error(status, headers, body)->Api_parsed == Some(j),
{
}

} // verus!
