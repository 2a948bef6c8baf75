//! Laws: a page of models lists what the provider lists, once each and in its
//! order, and leads to the page that the provider names.

use vstd::prelude::*;
use crate::formats::anthropic_messages::api::{anthropic_models, anthropic_page};
use crate::formats::anthropic_messages::types::decode_models_page;
use crate::formats::google_generate_content::api::{google_models, google_page};
use crate::formats::google_generate_content::types::decode_list_models_response;
use crate::formats::openai_chat_completions::api::{openai_models, openai_page};
use crate::formats::openai_chat_completions::types::decode_model_list;
use crate::json::{json_as_i64, json_as_str, json_get, JsonV};
use crate::models::{CreatedV, ModelV};
use crate::value::json_from_slice;

verus! {

/// The entry has a text under this name.
pub open spec fn is_named(entry: JsonV, key: Seq<char>) -> bool {
    json_as_str(json_get(entry, key)) is Some
}

/// The models stand for the entries at these positions, which are all that
/// have a name.
pub open spec fn stand_at(models: Seq<ModelV>, entries: Seq<JsonV>, key: Seq<char>, at: Seq<int>, n: nat) -> bool {
    &&& at.len() == models.len()
    &&& forall|k: int| 0 <= k < at.len() ==> 0 <= (#[trigger] at[k]) < n && models[k].raw == entries[at[k]]
    &&& forall|k: int, l: int| 0 <= k < l < at.len() ==> (#[trigger] at[k]) < (#[trigger] at[l])
    &&& forall|i: int| 0 <= i < n && is_named(#[trigger] entries[i], key) ==> at.contains(i)
}

/// The models are those of the named entries, once each and in their order.
pub open spec fn lists(models: Seq<ModelV>, entries: Seq<JsonV>, key: Seq<char>) -> bool {
    exists|at: Seq<int>| #[trigger] stand_at(models, entries, key, at, entries.len())
}

proof fn one_more(models: Seq<ModelV>, entries: Seq<JsonV>, key: Seq<char>, at: Seq<int>, n: nat, more: ModelV)
    requires
        n < entries.len(),
        stand_at(models, entries, key, at, n),
        more.raw == entries[n as int],
    ensures
        stand_at(models.push(more), entries, key, at.push(n as int), n + 1),
{
    let next = at.push(n as int);
    assert forall|i: int| 0 <= i < n + 1 && is_named(#[trigger] entries[i], key) implies next.contains(i) by {
        if i < n {
            assert(at.contains(i));
            let k = choose|k: int| 0 <= k < at.len() && at[k] == i;
            assert(next[k] == i);
        } else {
            assert(next[at.len() as int] == i);
        }
    }
}

proof fn openai_stands(a: Seq<JsonV>, n: nat) -> (at: Seq<int>)
    requires
        n <= a.len(),
    ensures
        stand_at(openai_models(a, n), a, "id"@, at, n),
    decreases n,
{
    if n == 0 {
        Seq::empty()
    } else {
        let q = (n - 1) as nat;
        let at = openai_stands(a, q);
        if is_named(a[q as int], "id"@) {
            one_more(openai_models(a, q), a, "id"@, at, q, openai_models(a, n).last());
            at.push(q as int)
        } else {
            at
        }
    }
}

proof fn anthropic_stands(a: Seq<JsonV>, n: nat) -> (at: Seq<int>)
    requires
        n <= a.len(),
    ensures
        stand_at(anthropic_models(a, n), a, "id"@, at, n),
    decreases n,
{
    if n == 0 {
        Seq::empty()
    } else {
        let q = (n - 1) as nat;
        let at = anthropic_stands(a, q);
        if is_named(a[q as int], "id"@) {
            one_more(anthropic_models(a, q), a, "id"@, at, q, anthropic_models(a, n).last());
            at.push(q as int)
        } else {
            at
        }
    }
}

proof fn google_stands(a: Seq<JsonV>, n: nat) -> (at: Seq<int>)
    requires
        n <= a.len(),
    ensures
        stand_at(google_models(a, n), a, "name"@, at, n),
    decreases n,
{
    if n == 0 {
        Seq::empty()
    } else {
        let q = (n - 1) as nat;
        let at = google_stands(a, q);
        if is_named(a[q as int], "name"@) {
            one_more(google_models(a, q), a, "name"@, at, q, google_models(a, n).last());
            at.push(q as int)
        } else {
            at
        }
    }
}

/// The creation time of an OpenAI model is the number that its entry gives.
proof fn openai_times(a: Seq<JsonV>, n: nat)
    requires
        n <= a.len(),
    ensures
        forall|k: int|
            0 <= k < openai_models(a, n).len() ==> {
                let m = #[trigger] openai_models(a, n)[k];
                let t = json_as_i64(json_get(m.raw, "created"@));
                &&& t is Some ==> m.created == Some(CreatedV::UnixSeconds(t->0))
                &&& t is None ==> m.created is None
                &&& m.display_name is None
            },
    decreases n,
{
    if n > 0 {
        openai_times(a, (n - 1) as nat);
        let prev = openai_models(a, (n - 1) as nat);
        assert forall|k: int| 0 <= k < openai_models(a, n).len() implies {
            let m = #[trigger] openai_models(a, n)[k];
            let t = json_as_i64(json_get(m.raw, "created"@));
            &&& t is Some ==> m.created == Some(CreatedV::UnixSeconds(t->0))
            &&& t is None ==> m.created is None
            &&& m.display_name is None
        } by {
            if k < prev.len() {
                assert(openai_models(a, n)[k] == prev[k]);
            }
        }
    }
}

/// The creation time of an Anthropic model is the timestamp that its entry
/// gives.
proof fn anthropic_times(a: Seq<JsonV>, n: nat)
    requires
        n <= a.len(),
    ensures
        forall|k: int|
            0 <= k < anthropic_models(a, n).len() ==> {
                let m = #[trigger] anthropic_models(a, n)[k];
                let t = json_as_str(json_get(m.raw, "created_at"@));
                &&& t is Some ==> m.created == Some(CreatedV::Timestamp(t->0))
                &&& t is None ==> m.created is None
            },
    decreases n,
{
    if n > 0 {
        anthropic_times(a, (n - 1) as nat);
        let prev = anthropic_models(a, (n - 1) as nat);
        assert forall|k: int| 0 <= k < anthropic_models(a, n).len() implies {
            let m = #[trigger] anthropic_models(a, n)[k];
            let t = json_as_str(json_get(m.raw, "created_at"@));
            &&& t is Some ==> m.created == Some(CreatedV::Timestamp(t->0))
            &&& t is None ==> m.created is None
        } by {
            if k < prev.len() {
                assert(anthropic_models(a, n)[k] == prev[k]);
            }
        }
    }
}

/// An OpenAI page lists every entry with an id, once and in order, with its
/// creation time, and is the last one.
pub proof fn openai_page_lists_its_entries(body: Seq<u8>, j: JsonV, a: Seq<JsonV>)
    requires
        json_from_slice(body) == Ok::<JsonV, Seq<char>>(j),
        decode_model_list(j) is Ok,
        json_get(j, "data"@) == Some(JsonV::Array(a)),
    ensures
        openai_page(body) is Ok,
        lists(openai_page(body)->Ok_0.0, a, "id"@),
        openai_page(body)->Ok_0.1 is None,
        forall|k: int|
            0 <= k < openai_page(body)->Ok_0.0.len() ==> {
                let m = #[trigger] openai_page(body)->Ok_0.0[k];
                let t = json_as_i64(json_get(m.raw, "created"@));
                &&& t is Some ==> m.created == Some(CreatedV::UnixSeconds(t->0))
                &&& t is None ==> m.created is None
                &&& m.display_name is None
            },
{
    let at = openai_stands(a, a.len());
    openai_times(a, a.len());
    assert(openai_page(body)->Ok_0.0 == openai_models(a, a.len()));
    assert(stand_at(openai_page(body)->Ok_0.0, a, "id"@, at, a.len()));
}

/// An Anthropic page lists every entry with an id, once and in order. With more
/// to come it leads to the page behind its last id, and it is an error to name
/// none.
pub proof fn anthropic_page_lists_its_entries(body: Seq<u8>, j: JsonV, a: Seq<JsonV>)
    requires
        json_from_slice(body) == Ok::<JsonV, Seq<char>>(j),
        decode_models_page(j) is Ok,
        json_get(j, "data"@) == Some(JsonV::Array(a)),
    ensures
        ({
            let p = anthropic_page(body);
            let last = json_as_str(json_get(j, "last_id"@));
            let more = json_get(j, "has_more"@) == Some(JsonV::Bool(true));
            &&& p is Ok <==> !more || (last is Some && last->0.len() > 0)
            &&& p is Ok ==> lists(p->Ok_0.0, a, "id"@) && p->Ok_0.1 == (if more { last } else { None })
            &&& p is Ok ==> forall|k: int|
                0 <= k < p->Ok_0.0.len() ==> {
                    let m = #[trigger] p->Ok_0.0[k];
                    let t = json_as_str(json_get(m.raw, "created_at"@));
                    &&& t is Some ==> m.created == Some(CreatedV::Timestamp(t->0))
                    &&& t is None ==> m.created is None
                }
        }),
{
    let at = anthropic_stands(a, a.len());
    anthropic_times(a, a.len());
    let p = anthropic_page(body);
    if p is Ok {
        assert(p->Ok_0.0 == anthropic_models(a, a.len()));
        assert(stand_at(p->Ok_0.0, a, "id"@, at, a.len()));
    }
}

/// A Google page lists every entry with a name, once and in order, and leads to
/// the page that its token names, if that is not empty.
pub proof fn google_page_lists_its_entries(body: Seq<u8>, j: JsonV, a: Seq<JsonV>)
    requires
        json_from_slice(body) == Ok::<JsonV, Seq<char>>(j),
        decode_list_models_response(j) is Ok,
        json_get(j, "models"@) == Some(JsonV::Array(a)),
    ensures
        ({
            let p = google_page(body);
            let token = json_as_str(json_get(j, "nextPageToken"@));
            &&& p is Ok
            &&& lists(p->Ok_0.0, a, "name"@)
            &&& token is Some && token->0.len() > 0 ==> p->Ok_0.1 == token
            &&& token is None || token->0.len() == 0 ==> p->Ok_0.1 is None
        }),
{
    let at = google_stands(a, a.len());
    assert(google_page(body)->Ok_0.0 == google_models(a, a.len()));
    assert(stand_at(google_page(body)->Ok_0.0, a, "name"@, at, a.len()));
}

} // verus!
