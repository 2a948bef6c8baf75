//! Laws: what a tool result says arrives whole and in order.

use vstd::prelude::*;
use crate::formats::google_generate_content::parts::{response_part, response_value, result_blocks, result_name, tool_result_part};
use crate::format::GOOGLE_GENERATE_CONTENT;
use crate::ir::{extra_ns, ImageSourceV, ToolOutputBlockV};
use crate::json::{json_as_array, json_as_str, json_get, obj_get, obj_index, obj_set, object2, JsonV, ObjV};
use crate::namespaces::{one_member_is_read, two_members_are_read};
use crate::json_laws::{set_keeps_other_members, set_member_is_read};
use crate::sink::SinkV;
use crate::text::{joined, joined_upto};

verus! {

/// The member of a function response.
pub open spec fn response_member(part: JsonV, k: Seq<char>) -> Option<JsonV> {
    match json_get(part, "functionResponse"@) {
        Some(f) => json_get(f, k),
        None => None,
    }
}

/// The text that a function response says under a name.
pub open spec fn said(part: JsonV, k: Seq<char>) -> Option<Seq<char>> {
    match response_member(part, "response"@) {
        Some(r) => json_as_str(json_get(r, k)),
        None => None,
    }
}

/// The media that a function response shows.
pub open spec fn media_shown(part: JsonV) -> Seq<JsonV> {
    match json_as_array(response_member(part, "parts"@)) {
        Some(a) => a,
        None => Seq::empty(),
    }
}

/// Some block is text.
pub open spec fn has_text(blocks: Seq<ToolOutputBlockV>) -> bool {
    exists|i: int| 0 <= i < blocks.len() && (#[trigger] blocks[i]) is Text
}

proof fn joining_splits(a: Seq<Seq<char>>, b: Seq<Seq<char>>, sep: Seq<char>, n: nat)
    requires
        a.len() > 0,
        0 < n <= b.len(),
    ensures
        joined_upto(a + b, sep, a.len() + n) == joined(a, sep) + sep + joined_upto(b, sep, n),
    decreases n,
{
    let all = a + b;
    prefix_joins(a, b, sep, a.len());
    if n == 1 {
        assert(all[a.len() as int] == b[0]);
    } else {
        let q = (n - 1) as nat;
        joining_splits(a, b, sep, q);
        assert(all[a.len() + n - 1] == b[n - 1]);
        assert(joined(a, sep) + sep + joined_upto(b, sep, q) + sep + b[n - 1] =~= joined(a, sep) + sep + (joined_upto(
            b,
            sep,
            q,
        ) + sep + b[n - 1]));
    }
}

proof fn prefix_joins(a: Seq<Seq<char>>, b: Seq<Seq<char>>, sep: Seq<char>, n: nat)
    requires
        n <= a.len(),
    ensures
        joined_upto(a + b, sep, n) == joined_upto(a, sep, n),
    decreases n,
{
    if n > 0 {
        prefix_joins(a, b, sep, (n - 1) as nat);
        assert((a + b)[n - 1] == a[n - 1]);
    }
}

proof fn blocks_add_up(
    a: Seq<ToolOutputBlockV>,
    b: Seq<ToolOutputBlockV>,
    ptr: Seq<char>,
    s: SinkV,
    n: nat,
)
    requires
        n <= b.len(),
    ensures
        ({
            let all = result_blocks(a + b, ptr, s, a.len() + n);
            let x = result_blocks(a, ptr, s, a.len());
            let y = result_blocks(b, ptr, s, n);
            &&& all.texts == x.texts + y.texts
            &&& all.media == x.media + y.media
        }),
    decreases n,
{
    let x = result_blocks(a, ptr, s, a.len());
    if n == 0 {
        blocks_in_front(a, b, ptr, s, a.len());
        let y = result_blocks(b, ptr, s, 0);
        assert(x.texts + y.texts =~= x.texts);
        assert(x.media + y.media =~= x.media);
    } else {
        let q = (n - 1) as nat;
        blocks_add_up(a, b, ptr, s, q);
        assert((a + b)[a.len() + n - 1] == b[n - 1]);
        let all = result_blocks(a + b, ptr, s, a.len() + n);
        let y = result_blocks(b, ptr, s, n);
        assert(all.texts =~= x.texts + y.texts);
        assert(all.media =~= x.media + y.media);
    }
}

proof fn blocks_in_front(a: Seq<ToolOutputBlockV>, b: Seq<ToolOutputBlockV>, ptr: Seq<char>, s: SinkV, n: nat)
    requires
        n <= a.len(),
    ensures
        result_blocks(a + b, ptr, s, n) == result_blocks(a, ptr, s, n),
    decreases n,
{
    if n > 0 {
        blocks_in_front(a, b, ptr, s, (n - 1) as nat);
        assert((a + b)[n - 1] == a[n - 1]);
    }
}

proof fn texts_are_counted(blocks: Seq<ToolOutputBlockV>, ptr: Seq<char>, s: SinkV, n: nat)
    requires
        n <= blocks.len(),
    ensures
        (result_blocks(blocks, ptr, s, n).texts.len() > 0) == has_text(blocks.take(n as int)),
    decreases n,
{
    let front = blocks.take(n as int);
    if n > 0 {
        let q = (n - 1) as nat;
        texts_are_counted(blocks, ptr, s, q);
        let less = blocks.take(q as int);
        assert(front[q as int] == blocks[q as int]);
        if has_text(less) {
            let i = choose|i: int| 0 <= i < less.len() && (#[trigger] less[i]) is Text;
            assert(front[i] == less[i]);
        }
        if has_text(front) && !(blocks[q as int] is Text) {
            let i = choose|i: int| 0 <= i < front.len() && (#[trigger] front[i]) is Text;
            assert(less[i] == front[i]);
        }
    }
}

proof fn single_is_read(k: Seq<char>, v: JsonV)
    ensures
        obj_get(seq![(k, v)], k) == Some(v),
        forall|n: Seq<char>| n != k ==> #[trigger] obj_get(seq![(k, v)], n) is None,
{
    assert(seq![k][0] == k);
    one_member_is_read(k, v, seq![k]);
}

proof fn response_is_read(id: Option<Seq<char>>, name: Seq<char>, response: JsonV, media: Seq<JsonV>)
    ensures
        response_member(response_part(id, name, response, media), "response"@) == Some(response),
        media_shown(response_part(id, name, response, media)) == media,
{
    reveal_strlit("id");
    reveal_strlit("name");
    reveal_strlit("response");
    reveal_strlit("parts");
    assert("id"@.len() == 2 && "name"@.len() == 4 && "response"@.len() == 8 && "parts"@.len() == 5);
    let o1 = match id {
        Some(id) => obj_set(Seq::empty(), "id"@, JsonV::Str(id)),
        None => Seq::empty(),
    };
    let o2 = obj_set(o1, "name"@, JsonV::Str(name));
    let o3 = obj_set(o2, "response"@, response);
    let empty = Seq::<(Seq<char>, JsonV)>::empty();
    assert(obj_get(empty, "parts"@) is None) by {
        reveal(obj_get);
        reveal(obj_index);
    }
    if let Some(i) = id {
        set_keeps_other_members(empty, "id"@, JsonV::Str(i), "parts"@);
    }
    set_keeps_other_members(o1, "name"@, JsonV::Str(name), "parts"@);
    set_keeps_other_members(o2, "response"@, response, "parts"@);
    set_member_is_read(o2, "response"@, response);
    set_member_is_read(o3, "parts"@, JsonV::Array(media));
    set_keeps_other_members(o3, "parts"@, JsonV::Array(media), "response"@);
    let f = JsonV::Object(if media.len() > 0 { obj_set(o3, "parts"@, JsonV::Array(media)) } else { o3 });
    single_is_read("functionResponse"@, f);
    assert(media.len() == 0 ==> media =~= Seq::<JsonV>::empty());
}

proof fn value_is_read(texts: Seq<Seq<char>>, is_error: Option<bool>)
    ensures
        ({
            let v = response_value(texts, is_error);
            let text = joined(texts, "\n\n"@);
            &&& is_error == Some(true) ==> json_as_str(json_get(v, "error"@)) == Some(text) && json_get(v, "output"@)
                is None
            &&& is_error != Some(true) && texts.len() > 0 ==> json_as_str(json_get(v, "output"@)) == Some(text)
            &&& is_error != Some(true) ==> json_get(v, "error"@) is None
            &&& is_error != Some(true) && texts.len() == 0 ==> json_get(v, "output"@) is None
        }),
{
    reveal_strlit("output");
    reveal_strlit("error");
    assert("output"@.len() == 6 && "error"@.len() == 5);
    let text = JsonV::Str(joined(texts, "\n\n"@));
    single_is_read("error"@, text);
    single_is_read("output"@, text);
    assert(forall|k: Seq<char>| #[trigger] obj_get(Seq::<(Seq<char>, JsonV)>::empty(), k) is None) by {
        reveal(obj_get);
        reveal(obj_index);
    }
}

/// What the part of a tool result says, under `error` for a failed one and
/// under `output` for any other.
pub open spec fn outcome_key(is_error: Option<bool>) -> Seq<char> {
    if is_error == Some(true) { "error"@ } else { "output"@ }
}

/// A result of one text says that text, and marks a failure as one.
pub proof fn one_text_is_the_output(
    id: Option<Seq<char>>,
    name: Option<Seq<char>>,
    block: ToolOutputBlockV,
    is_error: Option<bool>,
    names: ObjV,
    ptr: Seq<char>,
    s: SinkV,
)
    requires
        block is Text,
        tool_result_part(id, name, seq![block], is_error, names, ptr, s) is Ok,
    ensures
        ({
            let part = tool_result_part(id, name, seq![block], is_error, names, ptr, s)->Ok_0.0;
            &&& is_error == Some(true) ==> said(part, "error"@) == Some(block->Text_text) && said(part, "output"@) is None
            &&& is_error != Some(true) ==> said(part, "output"@) == Some(block->Text_text) && said(part, "error"@)
                is None
            &&& media_shown(part).len() == 0
        }),
{
    let blocks = seq![block];
    reveal_with_fuel(result_blocks, 2);
    let r = result_blocks(blocks, ptr, s, 1);
    assert(r.texts =~= seq![block->Text_text]);
    assert(joined(r.texts, "\n\n"@) == block->Text_text);
    let n = result_name(id, name, names)->0;
    response_is_read(id, n, response_value(r.texts, is_error), r.media);
    value_is_read(r.texts, is_error);
}

/// Two stretches of a result are said one after the other, with a blank line
/// between them, and their media are shown in order.
pub proof fn stretches_are_said_in_order(
    id: Option<Seq<char>>,
    name: Option<Seq<char>>,
    a: Seq<ToolOutputBlockV>,
    b: Seq<ToolOutputBlockV>,
    is_error: Option<bool>,
    names: ObjV,
    ptr: Seq<char>,
    s: SinkV,
)
    requires
        tool_result_part(id, name, a + b, is_error, names, ptr, s) is Ok,
    ensures
        tool_result_part(id, name, a, is_error, names, ptr, s) is Ok,
        tool_result_part(id, name, b, is_error, names, ptr, s) is Ok,
        ({
            let k = outcome_key(is_error);
            let all = tool_result_part(id, name, a + b, is_error, names, ptr, s)->Ok_0.0;
            let x = tool_result_part(id, name, a, is_error, names, ptr, s)->Ok_0.0;
            let y = tool_result_part(id, name, b, is_error, names, ptr, s)->Ok_0.0;
            &&& has_text(a) && has_text(b) ==> said(x, k) is Some && said(y, k) is Some && said(all, k) == Some(
                said(x, k)->0 + "\n\n"@ + said(y, k)->0,
            )
            &&& has_text(a) && !has_text(b) ==> said(all, k) == said(x, k)
            &&& !has_text(a) && has_text(b) ==> said(all, k) == said(y, k)
            &&& media_shown(all) == media_shown(x) + media_shown(y)
        }),
{
    let n = result_name(id, name, names)->0;
    let r = result_blocks(a + b, ptr, s, (a + b).len());
    let x = result_blocks(a, ptr, s, a.len());
    let y = result_blocks(b, ptr, s, b.len());
    blocks_add_up(a, b, ptr, s, b.len());
    texts_are_counted(a, ptr, s, a.len());
    texts_are_counted(b, ptr, s, b.len());
    assert(a.take(a.len() as int) =~= a);
    assert(b.take(b.len() as int) =~= b);
    response_is_read(id, n, response_value(r.texts, is_error), r.media);
    response_is_read(id, n, response_value(x.texts, is_error), x.media);
    response_is_read(id, n, response_value(y.texts, is_error), y.media);
    value_is_read(r.texts, is_error);
    value_is_read(x.texts, is_error);
    value_is_read(y.texts, is_error);
    if x.texts.len() > 0 && y.texts.len() > 0 {
        joining_splits(x.texts, y.texts, "\n\n"@, y.texts.len());
    } else if x.texts.len() == 0 {
        assert(r.texts =~= y.texts);
    } else {
        assert(r.texts =~= x.texts);
    }
}

/// An inline image of a result is shown with its type and data.
pub proof fn inline_image_is_shown(
    id: Option<Seq<char>>,
    name: Option<Seq<char>>,
    block: ToolOutputBlockV,
    media_type: Seq<char>,
    data: Seq<char>,
    is_error: Option<bool>,
    names: ObjV,
    ptr: Seq<char>,
    s: SinkV,
)
    requires
        block is Image && extra_ns(block->Image_extra, GOOGLE_GENERATE_CONTENT@).len() == 0,
        block->Image_source == (ImageSourceV::Base64 { media_type, data }),
        tool_result_part(id, name, seq![block], is_error, names, ptr, s) is Ok,
    ensures
        ({
            let part = tool_result_part(id, name, seq![block], is_error, names, ptr, s)->Ok_0.0;
            let shown = media_shown(part);
            let inline = json_get(shown[0], "inlineData"@);
            &&& shown.len() == 1
            &&& inline is Some
            &&& json_as_str(json_get(inline->0, "mimeType"@)) == Some(media_type)
            &&& json_as_str(json_get(inline->0, "data"@)) == Some(data)
        }),
{
    let blocks = seq![block];
    reveal_with_fuel(result_blocks, 2);
    let r = result_blocks(blocks, ptr, s, 1);
    let n = result_name(id, name, names)->0;
    response_is_read(id, n, response_value(r.texts, is_error), r.media);
    reveal_strlit("mimeType");
    reveal_strlit("data");
    assert("mimeType"@.len() == 8 && "data"@.len() == 4);
    let known = seq!["mimeType"@, "data"@];
    assert(known[0] == "mimeType"@ && known[1] == "data"@);
    two_members_are_read("mimeType"@, JsonV::Str(media_type), "data"@, JsonV::Str(data), known);
    single_is_read("inlineData"@, object2("mimeType"@, JsonV::Str(media_type), "data"@, JsonV::Str(data)));
}

} // verus!
