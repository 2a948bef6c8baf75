//! Laws: errors are classified by what the provider reports, and models are
//! listed as it lists them.

use vstd::prelude::*;
use crate::api_error::body_json;
use crate::error::{kind_of_status, ApiErrorKindV};
use crate::formats::anthropic_messages::api::{anthropic_error, anthropic_models};
use crate::formats::anthropic_messages::types::decode_error_envelope;
use crate::headers::retry_seconds;
use crate::json::{json_as_str, json_get, JsonV};

verus! {

/// The kind is the one that the error type stands for.
pub open spec fn stands_for(name: Seq<char>, kind: ApiErrorKindV) -> bool {
    &&& name == "invalid_request_error"@ <==> kind == ApiErrorKindV::InvalidRequest
    &&& name == "authentication_error"@ <==> kind == ApiErrorKindV::Auth
    &&& name == "permission_error"@ <==> kind == ApiErrorKindV::PermissionDenied
    &&& name == "not_found_error"@ <==> kind == ApiErrorKindV::NotFound
    &&& name == "rate_limit_error"@ <==> kind == ApiErrorKindV::RateLimit
    &&& name == "overloaded_error"@ <==> kind == ApiErrorKindV::Overloaded
    &&& name == "api_error"@ <==> kind == ApiErrorKindV::ServerError
    &&& kind is Other ==> kind == ApiErrorKindV::Other(name)
}

proof fn types_differ()
    ensures
        "permission_error"@ != "rate_limit_error"@,
        "permission_error"@ != "overloaded_error"@,
        "rate_limit_error"@ != "overloaded_error"@,
        "invalid_request_error"@.len() == 21,
        "authentication_error"@.len() == 20,
        "permission_error"@.len() == 16,
        "not_found_error"@.len() == 15,
        "rate_limit_error"@.len() == 16,
        "overloaded_error"@.len() == 16,
        "api_error"@.len() == 9,
{
    reveal_strlit("invalid_request_error");
    reveal_strlit("authentication_error");
    reveal_strlit("permission_error");
    reveal_strlit("not_found_error");
    reveal_strlit("rate_limit_error");
    reveal_strlit("overloaded_error");
    reveal_strlit("api_error");
    assert("permission_error"@[0] == 'p' && "rate_limit_error"@[0] == 'r' && "overloaded_error"@[0] == 'o');
}

/// The error of a response keeps its status, body, headers and retry delay; its
/// kind is the one that the provider reports, and else that of the status, and
/// its message is the provider's.
pub proof fn error_is_the_one_reported(status: u16, headers: http::HeaderMap, body: Seq<u8>, j: JsonV)
    requires
        body_json(body) == Some(j),
        decode_error_envelope(j) is Ok,
    ensures
        ({
            let e = anthropic_error(status, headers, body);
            let detail = json_get(j, "error"@)->0;
            let name = json_as_str(json_get(detail, "type"@));
            let message = json_as_str(json_get(detail, "message"@));
            &&& e is Api
            &&& e->Api_status == status
            &&& e->Api_raw == body
            &&& e->Api_parsed == Some(j)
            &&& e->Api_retry_after == retry_seconds(headers)
            &&& e->Api_headers == headers
            &&& name is Some ==> stands_for(name->0, e->Api_kind)
            &&& name is None ==> e->Api_kind == kind_of_status(status)
            &&& message is Some ==> e->Api_message == message->0
        }),
{
    types_differ();
}

/// Every entry with an id is listed, with its id and its names, and nothing else
/// is.
pub proof fn models_are_those_listed(a: Seq<JsonV>, n: nat)
    requires
        n <= a.len(),
    ensures
        forall|i: int|
            0 <= i < n && json_as_str(json_get(#[trigger] a[i], "id"@)) is Some ==> exists|k: int|
                0 <= k < anthropic_models(a, n).len() && (#[trigger] anthropic_models(a, n)[k]).raw == a[i],
        forall|k: int|
            0 <= k < anthropic_models(a, n).len() ==> {
                let m = #[trigger] anthropic_models(a, n)[k];
                &&& json_as_str(json_get(m.raw, "id"@)) == Some(m.id)
                &&& m.display_name == json_as_str(json_get(m.raw, "display_name"@))
                &&& exists|i: int| 0 <= i < n && #[trigger] a[i] == m.raw
            },
    decreases n,
{
    if n > 0 {
        let q = (n - 1) as nat;
        models_are_those_listed(a, q);
        let prev = anthropic_models(a, q);
        let all = anthropic_models(a, n);
        assert forall|i: int| 0 <= i < n && json_as_str(json_get(#[trigger] a[i], "id"@)) is Some implies exists|k: int|
            0 <= k < all.len() && (#[trigger] all[k]).raw == a[i] by {
            if i < q {
                let k = choose|k: int| 0 <= k < prev.len() && (#[trigger] prev[k]).raw == a[i];
                assert(all[k] == prev[k]);
            } else {
                assert(all[all.len() - 1].raw == a[i]);
            }
        }
        assert forall|k: int| 0 <= k < all.len() implies {
            let m = #[trigger] all[k];
            &&& json_as_str(json_get(m.raw, "id"@)) == Some(m.id)
            &&& m.display_name == json_as_str(json_get(m.raw, "display_name"@))
            &&& exists|i: int| 0 <= i < n && #[trigger] a[i] == m.raw
        } by {
            if k < prev.len() {
                assert(all[k] == prev[k]);
                let i = choose|i: int| 0 <= i < q && #[trigger] a[i] == prev[k].raw;
                assert(a[i] == all[k].raw);
            } else {
                assert(a[q as int] == all[k].raw);
            }
        }
    }
}

} // verus!
