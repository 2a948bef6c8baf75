//! Laws: errors are classified by what the provider reports, and models are
//! listed as it lists them.

use vstd::prelude::*;
use crate::scan::starts_with;
use crate::url::bare_model;
use crate::api_error::body_json;
use crate::error::{kind_of_status, ApiErrorKindV};
use crate::formats::google_generate_content::api::google_models;
use crate::formats::google_generate_content::errors::google_error;
use crate::headers::retry_seconds;
use crate::json::{json_as_str, json_get, JsonV};

verus! {

/// The kind is the one that the status name stands for, if it is a known one.
pub open spec fn stands_for(name: Seq<char>, kind: ApiErrorKindV) -> bool {
    &&& name == "INVALID_ARGUMENT"@ || name == "FAILED_PRECONDITION"@ || name == "OUT_OF_RANGE"@ ==> kind
        == ApiErrorKindV::InvalidRequest
    &&& name == "UNAUTHENTICATED"@ ==> kind == ApiErrorKindV::Auth
    &&& name == "PERMISSION_DENIED"@ ==> kind == ApiErrorKindV::PermissionDenied
    &&& name == "NOT_FOUND"@ ==> kind == ApiErrorKindV::NotFound
    &&& name == "RESOURCE_EXHAUSTED"@ ==> kind == ApiErrorKindV::RateLimit
    &&& name == "UNAVAILABLE"@ ==> kind == ApiErrorKindV::Overloaded
    &&& name == "INTERNAL"@ ==> kind == ApiErrorKindV::ServerError
}

/// A status name that settles the kind.
pub open spec fn settles(name: Seq<char>) -> bool {
    ||| name == "INVALID_ARGUMENT"@
    ||| name == "FAILED_PRECONDITION"@
    ||| name == "OUT_OF_RANGE"@
    ||| name == "UNAUTHENTICATED"@
    ||| name == "PERMISSION_DENIED"@
    ||| name == "NOT_FOUND"@
    ||| name == "RESOURCE_EXHAUSTED"@
    ||| name == "UNAVAILABLE"@
    ||| name == "INTERNAL"@
}

proof fn names_differ()
    ensures
        "INVALID_ARGUMENT"@.len() == 16,
        "FAILED_PRECONDITION"@.len() == 19,
        "OUT_OF_RANGE"@.len() == 12,
        "UNAUTHENTICATED"@.len() == 15,
        "PERMISSION_DENIED"@.len() == 17,
        "NOT_FOUND"@.len() == 9,
        "RESOURCE_EXHAUSTED"@.len() == 18,
        "UNAVAILABLE"@.len() == 11,
        "INTERNAL"@.len() == 8,
{
    reveal_strlit("INVALID_ARGUMENT");
    reveal_strlit("FAILED_PRECONDITION");
    reveal_strlit("OUT_OF_RANGE");
    reveal_strlit("UNAUTHENTICATED");
    reveal_strlit("PERMISSION_DENIED");
    reveal_strlit("NOT_FOUND");
    reveal_strlit("RESOURCE_EXHAUSTED");
    reveal_strlit("UNAVAILABLE");
    reveal_strlit("INTERNAL");
}

/// The error of a response keeps its status, body, headers and retry delay; its
/// kind is the one that its status name reports, else that of the HTTP status,
/// and its message is the provider's.
pub proof fn error_is_the_one_reported(status: u16, headers: http::HeaderMap, body: Seq<u8>, j: JsonV, detail: JsonV)
    requires
        body_json(body) == Some(j),
        json_get(j, "error"@) == Some(detail),
    ensures
        ({
            let e = google_error(status, headers, body);
            let name = json_as_str(json_get(detail, "status"@));
            let message = json_as_str(json_get(detail, "message"@));
            &&& e is Api
            &&& e->Api_status == status
            &&& e->Api_raw == body
            &&& e->Api_parsed == Some(j)
            &&& e->Api_retry_after == retry_seconds(headers)
            &&& e->Api_headers == headers
            &&& name is Some ==> stands_for(name->0, e->Api_kind)
            &&& name is None || !settles(name->0) ==> e->Api_kind == kind_of_status(status)
            &&& message is Some ==> e->Api_message == message->0
        }),
{
    names_differ();
}

/// Every entry with a resource name is listed, without the prefix of the
/// collection, and nothing else is.
pub proof fn models_are_those_listed(a: Seq<JsonV>, n: nat)
    requires
        n <= a.len(),
    ensures
        forall|i: int|
            0 <= i < n && json_as_str(json_get(#[trigger] a[i], "name"@)) is Some ==> exists|k: int|
                0 <= k < google_models(a, n).len() && (#[trigger] google_models(a, n)[k]).raw == a[i],
        forall|k: int|
            0 <= k < google_models(a, n).len() ==> {
                let m = #[trigger] google_models(a, n)[k];
                let name = json_as_str(json_get(m.raw, "name"@));
                &&& name is Some
                &&& name->0 == m.id || name->0 == "models/"@ + m.id
                &&& m.display_name == json_as_str(json_get(m.raw, "displayName"@))
                &&& exists|i: int| 0 <= i < n && #[trigger] a[i] == m.raw
            },
    decreases n,
{
    if n > 0 {
        let q = (n - 1) as nat;
        models_are_those_listed(a, q);
        let prev = google_models(a, q);
        let all = google_models(a, n);
        assert forall|i: int| 0 <= i < n && json_as_str(json_get(#[trigger] a[i], "name"@)) is Some implies exists|k: int|
            0 <= k < all.len() && (#[trigger] all[k]).raw == a[i] by {
            if i < q {
                let k = choose|k: int| 0 <= k < prev.len() && (#[trigger] prev[k]).raw == a[i];
                assert(all[k] == prev[k]);
            } else {
                assert(all[all.len() - 1].raw == a[i]);
            }
        }
        assert forall|k: int| 0 <= k < all.len() implies {
            let m = #[trigger] all[k];
            let name = json_as_str(json_get(m.raw, "name"@));
            &&& name is Some
            &&& name->0 == m.id || name->0 == "models/"@ + m.id
            &&& m.display_name == json_as_str(json_get(m.raw, "displayName"@))
            &&& exists|i: int| 0 <= i < n && #[trigger] a[i] == m.raw
        } by {
            if k < prev.len() {
                assert(all[k] == prev[k]);
                let i = choose|i: int| 0 <= i < q && #[trigger] a[i] == prev[k].raw;
                assert(a[i] == all[k].raw);
            } else {
                assert(a[q as int] == all[k].raw);
                let name = json_as_str(json_get(a[q as int], "name"@))->0;
                prefix_is_stripped(name);
            }
        }
    }
}

proof fn prefix_is_stripped(name: Seq<char>)
    ensures
        name == bare_model(name) || name == "models/"@ + bare_model(name),
{
    if starts_with(name, "models/"@) {
        let p = "models/"@;
        assert(name =~= p + name.subrange(p.len() as int, name.len() as int)) by {
            assert forall|i: int| 0 <= i < p.len() implies name[i] == p[i] by {
                assert(name.subrange(0, p.len() as int)[i] == p[i]);
            }
        }
    }
}

} // verus!
