//! Laws: the turns of a conversation alternate, and every message stands in a
//! turn of its own side.

use vstd::prelude::*;
use crate::format::GOOGLE_GENERATE_CONTENT;
use crate::formats::google_generate_content::from_ir::{new_turn, side_name, side_of, turn_step, turns, turns_start, Side, TurnsV};
use crate::ir::{extra_ns, MessageV, Role};
use crate::json::{json_as_str, json_get, with_member, JsonV};
use crate::json_laws::set_keeps_other_members;
use crate::namespaces::two_members_are_read;
use crate::sink::SinkV;

verus! {

/// The role that a turn names.
pub open spec fn role_named(turn: JsonV) -> Option<Seq<char>> {
    json_as_str(json_get(turn, "role"@))
}

/// The role under which a message is sent.
pub open spec fn sent_as(m: MessageV) -> Seq<char> {
    if m.role == Role::Assistant { "model"@ } else { "user"@ }
}

/// Every turn is the user's or the model's, and none follows one of its own
/// side.
pub open spec fn alternate(contents: Seq<JsonV>) -> bool {
    &&& forall|k: int|
        0 <= k < contents.len() ==> role_named(#[trigger] contents[k]) == Some("user"@) || role_named(contents[k])
            == Some("model"@)
    &&& forall|k: int, l: int|
        0 <= k < contents.len() && l == k + 1 && l < contents.len() ==> role_named(#[trigger] contents[k]) != role_named(
            #[trigger] contents[l],
        )
}

spec fn in_turn(t: TurnsV, msgs: Seq<MessageV>, n: nat) -> bool {
    &&& alternate(t.contents)
    &&& t.contents.len() <= n
    &&& t.placed.len() == msgs.len()
    &&& t.last is Some <==> t.contents.len() > 0
    &&& t.contents.len() > 0 ==> role_named(t.contents.last()) == Some(side_name(t.last->0))
    &&& forall|k: int| 0 <= k < t.contents.len() ==> (#[trigger] t.contents[k]) is Object
    &&& forall|i: int|
        0 <= i < msgs.len() && (#[trigger] t.placed[i]) is Some ==> i < n && t.placed[i]->0 < t.contents.len()
            && role_named(t.contents[t.placed[i]->0 as int]) == Some(sent_as(msgs[i]))
}

proof fn fresh_turn(side: Side)
    ensures
        new_turn(side) is Object,
        role_named(new_turn(side)) == Some(side_name(side)),
        "user"@ != "model"@,
        "role"@ != "parts"@,
{
    reveal_strlit("role");
    reveal_strlit("parts");
    reveal_strlit("user");
    reveal_strlit("model");
    assert("role"@.len() == 4 && "parts"@.len() == 5 && "user"@.len() == 4 && "model"@.len() == 5);
    let known = seq!["role"@, "parts"@];
    assert(known[0] == "role"@ && known[1] == "parts"@);
    two_members_are_read("role"@, JsonV::Str(side_name(side)), "parts"@, JsonV::Array(Seq::empty()), known);
}

proof fn parts_keep_the_role(turn: JsonV, parts: JsonV)
    requires
        turn is Object,
    ensures
        with_member(turn, "parts"@, parts) is Object,
        role_named(with_member(turn, "parts"@, parts)) == role_named(turn),
{
    fresh_turn(Side::User);
    set_keeps_other_members(turn->Object_0, "parts"@, parts, "role"@);
}

proof fn step_stays_in_turn(t: TurnsV, msgs: Seq<MessageV>, i: nat, as_text: bool)
    requires
        i < msgs.len() <= usize::MAX,
        in_turn(t, msgs, i),
        extra_ns(msgs[i as int].extra, GOOGLE_GENERATE_CONTENT@).len() == 0,
        turn_step(t, msgs[i as int], i, as_text) is Ok,
    ensures
        in_turn(turn_step(t, msgs[i as int], i, as_text)->Ok_0, msgs, i + 1),
{
    let m = msgs[i as int];
    let u = turn_step(t, m, i, as_text)->Ok_0;
    let side = side_of(m.role);
    let joins = t.last == Some(side) && t.contents.len() > 0;
    let content = if joins { t.contents.last() } else { new_turn(side) };
    fresh_turn(side);
    fresh_turn(Side::User);
    assert(side_name(side) == sent_as(m));
    if u.contents != t.contents || u.placed != t.placed {
        let v = u.contents.last();
        assert forall|p: JsonV| role_named(#[trigger] with_member(content, "parts"@, p)) == role_named(content)
            && with_member(content, "parts"@, p) is Object by {
            parts_keep_the_role(content, p);
        }
        assert(v is Object && role_named(v) == Some(sent_as(m)));
        assert forall|k: int| 0 <= k < u.contents.len() - 1 implies u.contents[k] == t.contents[k] by {}
        assert forall|k: int|
            0 <= k < u.contents.len() implies role_named(#[trigger] u.contents[k]) == Some("user"@) || role_named(
            u.contents[k],
        ) == Some("model"@) by {
            if k < u.contents.len() - 1 {
                assert(u.contents[k] == t.contents[k]);
            }
        }
        assert forall|k: int, l: int| 0 <= k < u.contents.len() && l == k + 1 && l < u.contents.len() implies role_named(
            #[trigger] u.contents[k],
        ) != role_named(#[trigger] u.contents[l]) by {
            assert(u.contents[k] == t.contents[k]);
            if l < u.contents.len() - 1 {
                assert(u.contents[l] == t.contents[l]);
            } else if joins {
                assert(role_named(t.contents[k]) != role_named(t.contents[l]));
            } else {
                assert(t.contents[k] == t.contents.last());
            }
        }
        assert forall|j: int| 0 <= j < msgs.len() && (#[trigger] u.placed[j]) is Some implies j < i + 1 && u.placed[j]->0
            < u.contents.len() && role_named(u.contents[u.placed[j]->0 as int]) == Some(sent_as(msgs[j])) by {
            if j != i {
                assert(u.placed[j] == t.placed[j]);
                let c = t.placed[j]->0 as int;
                if c < u.contents.len() - 1 {
                    assert(u.contents[c] == t.contents[c]);
                } else {
                    assert(joins && c == t.contents.len() - 1);
                    assert(t.contents[c] == t.contents.last());
                }
            }
        }
        assert forall|k: int| 0 <= k < u.contents.len() implies (#[trigger] u.contents[k]) is Object by {
            if k < u.contents.len() - 1 {
                assert(u.contents[k] == t.contents[k]);
            }
        }
    }
}

proof fn turns_stay_in_turn(t: TurnsV, msgs: Seq<MessageV>, from: nat, as_text: bool, n: nat)
    requires
        from <= n <= msgs.len() <= usize::MAX,
        in_turn(t, msgs, from),
        forall|i: int| 0 <= i < msgs.len() ==> extra_ns((#[trigger] msgs[i]).extra, GOOGLE_GENERATE_CONTENT@).len() == 0,
        turns(t, msgs, from, as_text, n) is Ok,
    ensures
        in_turn(turns(t, msgs, from, as_text, n)->Ok_0, msgs, n),
    decreases n,
{
    if n > from {
        let q = (n - 1) as nat;
        turns_stay_in_turn(t, msgs, from, as_text, q);
        step_stays_in_turn(turns(t, msgs, from, as_text, q)->Ok_0, msgs, q, as_text);
    }
}

/// Whatever roles follow each other in a history, the turns that go out
/// alternate between the user and the model, and each message is placed in a
/// turn of its side: an assistant's in the model's, any other in the user's.
pub proof fn turns_alternate(msgs: Seq<MessageV>, from: nat, as_text: bool, s: SinkV)
    requires
        from <= msgs.len() <= usize::MAX,
        forall|i: int| 0 <= i < msgs.len() ==> extra_ns((#[trigger] msgs[i]).extra, GOOGLE_GENERATE_CONTENT@).len() == 0,
        turns(turns_start(msgs.len(), s), msgs, from, as_text, msgs.len()) is Ok,
    ensures
        ({
            let t = turns(turns_start(msgs.len(), s), msgs, from, as_text, msgs.len())->Ok_0;
            &&& alternate(t.contents)
            &&& forall|i: int|
                0 <= i < msgs.len() && (#[trigger] t.placed[i]) is Some ==> t.placed[i]->0 < t.contents.len()
                    && role_named(t.contents[t.placed[i]->0 as int]) == Some(sent_as(msgs[i]))
        }),
{
    let t0 = turns_start(msgs.len(), s);
    assert(in_turn(t0, msgs, from));
    turns_stay_in_turn(t0, msgs, from, as_text, msgs.len());
}

} // verus!
