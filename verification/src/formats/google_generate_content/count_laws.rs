//! Laws: a count request asks about what the chat request sends.

use vstd::prelude::*;
use crate::url::bare_model;
use crate::formats::google_generate_content::api::{count_wrapped, google_count};
use crate::json::{json_as_i64, json_get, obj_get, JsonV};
use crate::json_laws::{set_keeps_other_members, set_member_is_read};
use crate::namespaces::first_named_is_read;
use crate::request::FinishedV;
use crate::value::json_from_slice;

verus! {

/// A count request wraps the chat request: every field of the chat body is in
/// the wrapped one, nothing is added but the model, and no warning is lost.
pub proof fn count_reads_what_the_chat_reads(out: FinishedV, model: Seq<char>)
    requires
        out is Ok,
        out->Ok_0.0 is Object,
    ensures
        count_wrapped(out, model) is Ok,
        count_wrapped(out, model)->Ok_0.1 == out->Ok_0.1,
        json_get(count_wrapped(out, model)->Ok_0.0, "generateContentRequest"@) is Some,
        ({
            let inner = json_get(count_wrapped(out, model)->Ok_0.0, "generateContentRequest"@)->0;
            &&& json_get(inner, "model"@) is Some
            &&& forall|k: Seq<char>| k != "model"@ ==> #[trigger] json_get(inner, k) == json_get(out->Ok_0.0, k)
        }),
{
    let o = out->Ok_0.0->Object_0;
    let body = count_wrapped(out, model)->Ok_0.0->Object_0;
    first_named_is_read(body, "generateContentRequest"@, 0);
    let inner = body[0].1->Object_0;
    let name = JsonV::Str("models/"@ + bare_model(model));
    set_member_is_read(o, "model"@, name);
    assert forall|k: Seq<char>| k != "model"@ implies #[trigger] json_get(JsonV::Object(inner), k) == obj_get(o, k) by {
        set_keeps_other_members(o, "model"@, name, k);
    }
}

/// The count is the total that the response gives.
pub proof fn count_is_read(body: Seq<u8>, j: JsonV, n: i64)
    requires
        json_from_slice(body) == Ok::<JsonV, Seq<char>>(j),
        json_as_i64(json_get(j, "totalTokens"@)) == Some(n),
    ensures
        n >= 0 ==> google_count(body) is Ok && google_count(body)->Ok_0.input_tokens == n,
        n < 0 ==> google_count(body) is Err,
{
}

} // verus!
