//! Law: the fragments of a tool call add up to the call that a whole response
//! would have carried.

use vstd::prelude::*;
use crate::convert::ConversionWarningV;
use crate::formats::openai_chat_completions::parse_parts::{call_block, own_extra};
use crate::formats::openai_chat_completions::stream::pieces_joined;
use crate::formats::openai_chat_completions::streamed_calls::{fields_kept, finished_call, fragment_routed, fresh_call, members_routed, CallStateV, PayloadKind, RouteV};
use crate::formats::openai_chat_completions::types;
use crate::ir::ContentBlockV;
use crate::json::{json_int, object2, JsonV};
use crate::namespaces::{absent_is_not_read, first_named_is_read, modeled_members_are_known, two_members_are_read, within};
use crate::text::fragments_joined;

verus! {

proof fn entry_names()
    ensures
        "index"@ != "id"@,
        "index"@ != "type"@,
        "index"@ != "function"@,
        "index"@ != "custom"@,
        "id"@ != "type"@,
        "id"@ != "function"@,
        "id"@ != "custom"@,
        "type"@ != "function"@,
        "type"@ != "custom"@,
        "function"@ != "custom"@,
        "name"@ != "arguments"@,
{
    reveal_strlit("index");
    reveal_strlit("id");
    reveal_strlit("type");
    reveal_strlit("function");
    reveal_strlit("custom");
    reveal_strlit("name");
    reveal_strlit("arguments");
    assert("index"@.len() == 5 && "id"@.len() == 2 && "type"@.len() == 4 && "function"@.len() == 8 && "custom"@.len()
        == 6 && "name"@.len() == 4 && "arguments"@.len() == 9);
}

/// The first fragment of a function call.
pub open spec fn first_fragment(wire: u64, id: Seq<char>, name: Seq<char>, piece: Seq<char>) -> JsonV {
    JsonV::Object(
        seq![
            ("index"@, json_int(wire as int)),
            ("id"@, JsonV::Str(id)),
            ("type"@, JsonV::Str("function"@)),
            ("function"@, object2("name"@, JsonV::Str(name), "arguments"@, JsonV::Str(piece))),
        ],
    )
}

/// A later fragment of a function call.
pub open spec fn later_fragment(wire: u64, piece: Seq<char>) -> JsonV {
    JsonV::Object(
        seq![
            ("index"@, json_int(wire as int)),
            ("function"@, JsonV::Object(seq![("arguments"@, JsonV::Str(piece))])),
        ],
    )
}

/// The call after one more fragment.
pub open spec fn call_after_fragment(s: CallStateV, fragment: JsonV, wire: u64, ws: Seq<ConversionWarningV>) -> CallStateV {
    let r = fragment_routed(s, fragment, wire, ws);
    CallStateV { arguments: pieces_joined(r.call.arguments, r.deltas, r.deltas.len()), ..r.call }
}

/// The call after the fragments of its first `n` argument pieces.
pub open spec fn streamed_call(
    block_index: usize,
    wire: u64,
    id: Seq<char>,
    name: Seq<char>,
    pieces: Seq<Seq<char>>,
    ws: Seq<ConversionWarningV>,
    n: nat,
) -> CallStateV
    decreases n,
{
    if n == 0 || n > pieces.len() {
        fresh_call(block_index)
    } else if n == 1 {
        call_after_fragment(fresh_call(block_index), first_fragment(wire, id, name, pieces[0]), wire, ws)
    } else {
        call_after_fragment(
            streamed_call(block_index, wire, id, name, pieces, ws, (n - 1) as nat),
            later_fragment(wire, pieces[n - 1]),
            wire,
            ws,
        )
    }
}

/// What a function call holds once its name and these arguments are there.
spec fn function_state(block_index: usize, id: Seq<char>, name: Seq<char>, arguments: Seq<char>) -> CallStateV {
    CallStateV {
        block_index,
        id: Some(id),
        name,
        arguments,
        saw_payload: true,
        saw_name: true,
        saw_arguments: true,
        declared_type: Some(JsonV::Str("function"@)),
        kind: Some(PayloadKind::Function),
        mirror: None,
        extra: Seq::empty(),
    }
}

proof fn pieces_add_up(a: Seq<char>, piece: Seq<char>)
    ensures
        pieces_joined(a, seq![piece], 1) == a + piece,
        pieces_joined(a, Seq::empty(), 0) == a,
        a + Seq::<char>::empty() == a,
        Seq::<char>::empty() + a == a,
{
    assert(pieces_joined(a, seq![piece], 0) == a);
    assert(a + Seq::<char>::empty() =~= a);
    assert(Seq::<char>::empty() + a =~= a);
}

proof fn first_is_routed(block_index: usize, wire: u64, id: Seq<char>, name: Seq<char>, piece: Seq<char>, ws: Seq<ConversionWarningV>)
    ensures
        call_after_fragment(fresh_call(block_index), first_fragment(wire, id, name, piece), wire, ws) == function_state(
            block_index,
            id,
            name,
            piece,
        ),
{
    entry_names();
    pieces_add_up(Seq::empty(), piece);
    pieces_add_up(name, piece);
    let j = first_fragment(wire, id, name, piece);
    let o = j->Object_0;
    first_named_is_read(o, "id"@, 1);
    first_named_is_read(o, "type"@, 2);
    first_named_is_read(o, "function"@, 3);
    absent_is_not_read(o, "custom"@, JsonV::Null);
    let m = seq![("name"@, JsonV::Str(name)), ("arguments"@, JsonV::Str(piece))];
    let s2 = CallStateV {
        id: Some(id),
        declared_type: Some(JsonV::Str("function"@)),
        kind: Some(PayloadKind::Function),
        ..fresh_call(block_index)
    };
    let r0 = RouteV { call: s2, deltas: Seq::empty(), warnings: ws };
    let m0 = members_routed(r0, PayloadKind::Function, wire, m, 0);
    let m1 = members_routed(r0, PayloadKind::Function, wire, m, 1);
    let m2 = members_routed(r0, PayloadKind::Function, wire, m, 2);
    assert(m1.0.call.name == name);
    assert(m1.1 == Seq::<(Seq<char>, JsonV)>::empty());
    assert(m2.1 == Seq::<(Seq<char>, JsonV)>::empty());
    if piece.len() > 0 {
        assert(m2.0.deltas =~= seq![piece]);
    } else {
        assert(piece =~= Seq::<char>::empty());
    }
    let none = Seq::<(Seq<char>, JsonV)>::empty();
    assert(fields_kept(none, o, 0) == none);
    assert(o[0].0 == "index"@);
    assert(fields_kept(none, o, 1) == none);
    assert(fields_kept(none, o, 2) == none);
    assert(fields_kept(none, o, 3) == none);
    assert(fields_kept(none, o, 4) == none);
}

proof fn later_is_routed(
    block_index: usize,
    wire: u64,
    id: Seq<char>,
    name: Seq<char>,
    arguments: Seq<char>,
    piece: Seq<char>,
    ws: Seq<ConversionWarningV>,
)
    ensures
        call_after_fragment(function_state(block_index, id, name, arguments), later_fragment(wire, piece), wire, ws)
            == function_state(block_index, id, name, arguments + piece),
{
    entry_names();
    pieces_add_up(arguments, piece);
    let s = function_state(block_index, id, name, arguments);
    let o = later_fragment(wire, piece)->Object_0;
    absent_is_not_read(o, "id"@, JsonV::Null);
    absent_is_not_read(o, "type"@, JsonV::Null);
    first_named_is_read(o, "function"@, 1);
    absent_is_not_read(o, "custom"@, JsonV::Null);
    let m = seq![("arguments"@, JsonV::Str(piece))];
    let r0 = RouteV { call: s, deltas: Seq::empty(), warnings: ws };
    let m0 = members_routed(r0, PayloadKind::Function, wire, m, 0);
    let m1 = members_routed(r0, PayloadKind::Function, wire, m, 1);
    assert(m1.1 == Seq::<(Seq<char>, JsonV)>::empty());
    if piece.len() > 0 {
        assert(m1.0.deltas =~= seq![piece]);
    } else {
        assert(piece =~= Seq::<char>::empty());
    }
    let none = Seq::<(Seq<char>, JsonV)>::empty();
    assert(fields_kept(none, o, 0) == none);
    assert(o[0].0 == "index"@);
    assert(fields_kept(none, o, 1) == none);
    assert(fields_kept(none, o, 2) == none);
}

proof fn call_adds_up(
    block_index: usize,
    wire: u64,
    id: Seq<char>,
    name: Seq<char>,
    pieces: Seq<Seq<char>>,
    ws: Seq<ConversionWarningV>,
    n: nat,
)
    requires
        1 <= n <= pieces.len(),
    ensures
        streamed_call(block_index, wire, id, name, pieces, ws, n) == function_state(
            block_index,
            id,
            name,
            fragments_joined(pieces, n),
        ),
    decreases n,
{
    if n == 1 {
        first_is_routed(block_index, wire, id, name, pieces[0], ws);
        assert(fragments_joined(pieces, 0) == Seq::<char>::empty());
        assert(Seq::<char>::empty() + pieces[0] =~= pieces[0]);
    } else {
        let q = (n - 1) as nat;
        call_adds_up(block_index, wire, id, name, pieces, ws, q);
        later_is_routed(block_index, wire, id, name, fragments_joined(pieces, q), pieces[q as int], ws);
    }
}

/// The entry of a function call in a whole message.
pub open spec fn whole_entry(id: Seq<char>, name: Seq<char>, arguments: Seq<char>) -> JsonV {
    JsonV::Object(
        seq![
            ("id"@, JsonV::Str(id)),
            ("type"@, JsonV::Str("function"@)),
            ("function"@, object2("name"@, JsonV::Str(name), "arguments"@, JsonV::Str(arguments))),
        ],
    )
}

proof fn whole_is_read(id: Seq<char>, name: Seq<char>, arguments: Seq<char>, ptr: Seq<char>, ws: Seq<ConversionWarningV>)
    ensures
        call_block(whole_entry(id, name, arguments), ptr, ws) == (
            Some(
                ContentBlockV::ToolCall {
                    id: Some(id),
                    name,
                    arguments,
                    cache: None,
                    extra: own_extra(Seq::empty()),
                },
            ),
            ws,
        ),
{
    entry_names();
    let j = whole_entry(id, name, arguments);
    let o = j->Object_0;
    let known = types::tool_call_entry_keys();
    first_named_is_read(o, "id"@, 0);
    first_named_is_read(o, "type"@, 1);
    first_named_is_read(o, "function"@, 2);
    absent_is_not_read(o, "custom"@, JsonV::Null);
    assert(within(o, known)) by {
        assert(known[0] == "id"@ && known[1] == "type"@ && known[2] == "function"@);
        assert forall|i: int| 0 <= i < o.len() implies known.contains((#[trigger] o[i]).0) by {
            assert(o[i].0 == known[i]);
        }
    }
    modeled_members_are_known(o, known);
    let k2 = types::function_call_payload_keys();
    assert(k2[0] == "name"@ && k2[1] == "arguments"@);
    two_members_are_read("name"@, JsonV::Str(name), "arguments"@, JsonV::Str(arguments), k2);
}

/// A function call whose arguments arrive in pieces is the call that a whole
/// message holds, with the pieces joined, however they were cut; neither side
/// has anything to warn about.
pub proof fn streamed_call_equals_the_whole(
    block_index: usize,
    wire: u64,
    id: Seq<char>,
    name: Seq<char>,
    pieces: Seq<Seq<char>>,
    ptr: Seq<char>,
    ws: Seq<ConversionWarningV>,
)
    requires
        pieces.len() > 0,
    ensures
        ({
            let s = streamed_call(block_index, wire, id, name, pieces, ws, pieces.len());
            let (b, ws1) = finished_call(s, wire, ws);
            let whole = whole_entry(id, name, fragments_joined(pieces, pieces.len()));
            ws1 == ws && call_block(whole, ptr, ws) == (Some(b), ws)
        }),
{
    entry_names();
    call_adds_up(block_index, wire, id, name, pieces, ws, pieces.len());
    whole_is_read(id, name, fragments_joined(pieces, pieces.len()), ptr, ws);
}

} // verus!
