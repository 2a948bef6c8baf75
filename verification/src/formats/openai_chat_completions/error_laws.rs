//! Laws: errors are classified by what the provider reports, and models are
//! listed as it lists them.

use vstd::prelude::*;
use crate::api_error::body_json;
use crate::error::{kind_of_status, ApiErrorKindV};
use crate::formats::openai_chat_completions::api::{openai_error, openai_models};
use crate::formats::openai_chat_completions::types::decode_error_body;
use crate::headers::retry_seconds;
use crate::json::{json_as_str, json_get, JsonV};

verus! {

/// A code that settles the kind.
pub open spec fn settles(code: Option<Seq<char>>) -> bool {
    match code {
        Some(c) => {
            ||| c == "invalid_api_key"@
            ||| c == "invalid_organization"@
            ||| c == "account_deactivated"@
            ||| c == "model_not_found"@
            ||| c == "insufficient_quota"@
            ||| c == "rate_limit_exceeded"@
        },
        None => false,
    }
}

/// The kind is the one that the code stands for.
pub open spec fn code_stands_for(c: Seq<char>, kind: ApiErrorKindV) -> bool {
    &&& c == "invalid_api_key"@ || c == "invalid_organization"@ || c == "account_deactivated"@ ==> kind
        == ApiErrorKindV::Auth
    &&& c == "model_not_found"@ ==> kind == ApiErrorKindV::NotFound
    &&& c == "insufficient_quota"@ || c == "rate_limit_exceeded"@ ==> kind == ApiErrorKindV::RateLimit
}

/// The kind is the one that the type stands for, if it is a known one.
pub open spec fn type_stands_for(t: Seq<char>, kind: ApiErrorKindV) -> bool {
    &&& t == "invalid_request_error"@ ==> kind == ApiErrorKindV::InvalidRequest
    &&& t == "authentication_error"@ ==> kind == ApiErrorKindV::Auth
    &&& t == "permission_error"@ ==> kind == ApiErrorKindV::PermissionDenied
    &&& t == "not_found_error"@ ==> kind == ApiErrorKindV::NotFound
    &&& t == "rate_limit_error"@ || t == "insufficient_quota"@ || t == "tokens"@ ==> kind == ApiErrorKindV::RateLimit
    &&& t == "overloaded_error"@ ==> kind == ApiErrorKindV::Overloaded
    &&& t == "server_error"@ ==> kind == ApiErrorKindV::ServerError
}

proof fn names_differ()
    ensures
        "invalid_api_key"@ != "model_not_found"@,
        "account_deactivated"@ != "rate_limit_exceeded"@,
        "permission_error"@ != "rate_limit_error"@,
        "permission_error"@ != "overloaded_error"@,
        "rate_limit_error"@ != "overloaded_error"@,
        "invalid_api_key"@.len() == 15,
        "invalid_organization"@.len() == 20,
        "account_deactivated"@.len() == 19,
        "model_not_found"@.len() == 15,
        "insufficient_quota"@.len() == 18,
        "rate_limit_exceeded"@.len() == 19,
        "invalid_request_error"@.len() == 21,
        "authentication_error"@.len() == 20,
        "permission_error"@.len() == 16,
        "not_found_error"@.len() == 15,
        "rate_limit_error"@.len() == 16,
        "tokens"@.len() == 6,
        "overloaded_error"@.len() == 16,
        "server_error"@.len() == 12,
{
    reveal_strlit("invalid_api_key");
    reveal_strlit("invalid_organization");
    reveal_strlit("account_deactivated");
    reveal_strlit("model_not_found");
    reveal_strlit("insufficient_quota");
    reveal_strlit("rate_limit_exceeded");
    reveal_strlit("invalid_request_error");
    reveal_strlit("authentication_error");
    reveal_strlit("permission_error");
    reveal_strlit("not_found_error");
    reveal_strlit("rate_limit_error");
    reveal_strlit("tokens");
    reveal_strlit("overloaded_error");
    reveal_strlit("server_error");
    assert("invalid_api_key"@[0] == 'i' && "model_not_found"@[0] == 'm');
    assert("account_deactivated"@[0] == 'a' && "rate_limit_exceeded"@[0] == 'r');
    assert("permission_error"@[0] == 'p' && "rate_limit_error"@[0] == 'r' && "overloaded_error"@[0] == 'o');
}

/// The error of a response keeps its status, body, headers and retry delay; its
/// kind is the one that its code reports, else its type, else its status, and
/// its message is the provider's.
pub proof fn error_is_the_one_reported(status: u16, headers: http::HeaderMap, body: Seq<u8>, j: JsonV, detail: JsonV)
    requires
        body_json(body) == Some(j),
        decode_error_body(j) is Ok,
        json_get(j, "error"@) == Some(detail),
        !(detail is Null),
    ensures
        ({
            let e = openai_error(status, headers, body);
            let code = json_as_str(json_get(detail, "code"@));
            let name = json_as_str(json_get(detail, "type"@));
            let message = json_as_str(json_get(detail, "message"@));
            &&& e is Api
            &&& e->Api_status == status
            &&& e->Api_raw == body
            &&& e->Api_parsed == Some(j)
            &&& e->Api_retry_after == retry_seconds(headers)
            &&& e->Api_headers == headers
            &&& code is Some ==> code_stands_for(code->0, e->Api_kind)
            &&& !settles(code) && name is Some ==> type_stands_for(name->0, e->Api_kind)
            &&& !settles(code) && name is None ==> e->Api_kind == kind_of_status(status)
            &&& message is Some ==> e->Api_message == message->0
        }),
{
    names_differ();
}

/// An error body that reports nothing is classified by its status.
pub proof fn other_errors_go_by_their_status(status: u16, headers: http::HeaderMap, body: Seq<u8>)
    requires
        body_json(body) is None,
    ensures
        openai_error(status, headers, body) is Api,
        openai_error(status, headers, body)->Api_kind == kind_of_status(status),
        openai_error(status, headers, body)->Api_status == status,
{
}

/// Every entry with an id is listed under it, and nothing else is.
pub proof fn models_are_those_listed(a: Seq<JsonV>, n: nat)
    requires
        n <= a.len(),
    ensures
        forall|i: int|
            0 <= i < n && json_as_str(json_get(#[trigger] a[i], "id"@)) is Some ==> exists|k: int|
                0 <= k < openai_models(a, n).len() && (#[trigger] openai_models(a, n)[k]).raw == a[i],
        forall|k: int|
            0 <= k < openai_models(a, n).len() ==> {
                let m = #[trigger] openai_models(a, n)[k];
                &&& json_as_str(json_get(m.raw, "id"@)) == Some(m.id)
                &&& exists|i: int| 0 <= i < n && #[trigger] a[i] == m.raw
            },
    decreases n,
{
    if n > 0 {
        let q = (n - 1) as nat;
        models_are_those_listed(a, q);
        let prev = openai_models(a, q);
        let all = openai_models(a, n);
        assert forall|i: int| 0 <= i < n && json_as_str(json_get(#[trigger] a[i], "id"@)) is Some implies exists|k: int|
            0 <= k < all.len() && (#[trigger] all[k]).raw == a[i] by {
            if i < q {
                let k = choose|k: int| 0 <= k < prev.len() && (#[trigger] prev[k]).raw == a[i];
                assert(all[k] == prev[k]);
            } else {
                assert(all[all.len() - 1].raw == a[i]);
            }
        }
        assert forall|k: int| 0 <= k < all.len() implies {
            let m = #[trigger] all[k];
            &&& json_as_str(json_get(m.raw, "id"@)) == Some(m.id)
            &&& exists|i: int| 0 <= i < n && #[trigger] a[i] == m.raw
        } by {
            if k < prev.len() {
                assert(all[k] == prev[k]);
                let i = choose|i: int| 0 <= i < q && #[trigger] a[i] == prev[k].raw;
                assert(a[i] == all[k].raw);
            } else {
                assert(a[q as int] == all[k].raw);
            }
        }
    }
}

} // verus!
