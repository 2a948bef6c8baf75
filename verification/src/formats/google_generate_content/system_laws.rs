//! Laws: the system instruction holds the prompt and the leading system
//! messages, in their order.

use vstd::prelude::*;
use crate::format::GOOGLE_GENERATE_CONTENT;
use crate::formats::google_generate_content::from_ir::{leading_system, parts_of, prompt_parts, system_block, system_instruction, system_merged, system_message, system_messages};
use crate::ir::{extra_ns, ContentBlockV, MessageV, Role};
use crate::json::{object1, JsonV};
use crate::namespaces::one_member_is_read;
use crate::sink::{empty_sink, SinkV};

verus! {

/// A text block that has nothing of this provider with it.
pub open spec fn is_plain(b: ContentBlockV) -> bool {
    b is Text && extra_ns(b->Text_extra, GOOGLE_GENERATE_CONTENT@).len() == 0
}

/// A message of such blocks alone.
pub open spec fn is_plain_message(m: MessageV) -> bool {
    &&& extra_ns(m.extra, GOOGLE_GENERATE_CONTENT@).len() == 0
    &&& forall|i: int| 0 <= i < m.content.len() ==> is_plain(#[trigger] m.content[i])
}

/// The blocks of the first `n` messages, in order.
pub open spec fn blocks_upto(msgs: Seq<MessageV>, n: nat) -> Seq<ContentBlockV>
    decreases n,
{
    if n == 0 || n > msgs.len() {
        Seq::empty()
    } else {
        blocks_upto(msgs, (n - 1) as nat) + msgs[n - 1].content
    }
}

/// One text part for each block.
pub open spec fn text_parts(blocks: Seq<ContentBlockV>) -> Seq<JsonV> {
    blocks.map_values(|b: ContentBlockV| object1("text"@, JsonV::Str(b->Text_text)))
}

proof fn parts_add_up(a: Seq<ContentBlockV>, b: Seq<ContentBlockV>)
    ensures
        text_parts(a + b) == text_parts(a) + text_parts(b),
{
    assert(text_parts(a + b) =~= text_parts(a) + text_parts(b));
}

proof fn prompt_is_there(system: Seq<ContentBlockV>, n: nat)
    requires
        n <= system.len(),
        forall|i: int| 0 <= i < system.len() ==> is_plain(#[trigger] system[i]),
    ensures
        prompt_parts(system, n) is Ok,
        prompt_parts(system, n)->Ok_0.0 == text_parts(system.take(n as int)),
    decreases n,
{
    if n > 0 {
        prompt_is_there(system, (n - 1) as nat);
        assert(is_plain(system[n - 1]));
        let less = system.take(n - 1);
        assert(system.take(n as int) =~= less.push(system[n - 1]));
        assert(text_parts(system.take(n as int)) =~= text_parts(less).push(
            object1("text"@, JsonV::Str(system[n - 1]->Text_text)),
        ));
    } else {
        assert(text_parts(system.take(0)) =~= Seq::<JsonV>::empty());
    }
}

proof fn message_is_there(st: (Seq<JsonV>, SinkV), m: MessageV, mi: nat, n: nat)
    requires
        n <= m.content.len(),
        is_plain_message(m),
    ensures
        system_message(st, m, mi, n) is Ok,
        system_message(st, m, mi, n)->Ok_0.0 == st.0 + text_parts(m.content.take(n as int)),
    decreases n,
{
    if n > 0 {
        message_is_there(st, m, mi, (n - 1) as nat);
        let b = m.content[n - 1];
        assert(is_plain(b));
        let less = m.content.take(n - 1);
        assert(m.content.take(n as int) =~= less.push(b));
        assert(text_parts(m.content.take(n as int)) =~= text_parts(less).push(object1("text"@, JsonV::Str(b->Text_text))));
        let prev = system_message(st, m, mi, (n - 1) as nat)->Ok_0;
        assert(system_block(prev, b, mi, (n - 1) as nat) is Ok);
        assert(system_message(st, m, mi, n)->Ok_0.0 =~= st.0 + text_parts(m.content.take(n as int)));
    } else {
        assert(text_parts(m.content.take(0)) =~= Seq::<JsonV>::empty());
        assert(st.0 + text_parts(m.content.take(0)) =~= st.0);
    }
}

proof fn messages_are_there(st: (Seq<JsonV>, SinkV), msgs: Seq<MessageV>, n: nat)
    requires
        n <= msgs.len(),
        forall|i: int| 0 <= i < n ==> is_plain_message(#[trigger] msgs[i]),
    ensures
        system_messages(st, msgs, n) is Ok,
        system_messages(st, msgs, n)->Ok_0.0 == st.0 + text_parts(blocks_upto(msgs, n)),
    decreases n,
{
    if n > 0 {
        let q = (n - 1) as nat;
        messages_are_there(st, msgs, q);
        let m = msgs[q as int];
        assert(is_plain_message(m));
        let prev = system_messages(st, msgs, q)->Ok_0;
        message_is_there(prev, m, q, m.content.len());
        assert(m.content.take(m.content.len() as int) =~= m.content);
        parts_add_up(blocks_upto(msgs, q), m.content);
        assert(system_messages(st, msgs, n)->Ok_0.0 =~= st.0 + text_parts(blocks_upto(msgs, n)));
    } else {
        assert(text_parts(blocks_upto(msgs, 0)) =~= Seq::<JsonV>::empty());
        assert(st.0 + text_parts(blocks_upto(msgs, 0)) =~= st.0);
    }
}

proof fn nothing_is_merged(v: JsonV, s: SinkV, msgs: Seq<MessageV>, n: nat)
    requires
        n <= msgs.len(),
        forall|i: int| 0 <= i < n ==> is_plain_message(#[trigger] msgs[i]),
    ensures
        system_merged(v, s, msgs, n).0 == v,
    decreases n,
{
    if n > 0 {
        nothing_is_merged(v, s, msgs, (n - 1) as nat);
        assert(is_plain_message(msgs[n - 1]));
    }
}

/// The system instruction says the prompt, then every system message that the
/// conversation starts with, block by block and in order. Without either there
/// is none.
pub proof fn prompt_and_leading_messages_are_sent(
    system: Option<Seq<ContentBlockV>>,
    msgs: Seq<MessageV>,
    lead: nat,
)
    requires
        lead <= msgs.len(),
        forall|i: int| 0 <= i < lead ==> (#[trigger] msgs[i]).role == Role::System && is_plain_message(msgs[i]),
        lead < msgs.len() ==> msgs[lead as int].role != Role::System,
        system is Some ==> forall|i: int| 0 <= i < system->0.len() ==> is_plain(#[trigger] system->0[i]),
    ensures
        ({
            let prompt = match system {
                Some(b) => b,
                None => Seq::empty(),
            };
            let said = prompt + blocks_upto(msgs, lead);
            let r = system_instruction(system, msgs);
            &&& r is Ok
            &&& said.len() == 0 ==> r->Ok_0.0 is None
            &&& said.len() > 0 ==> r->Ok_0.0 is Some && parts_of(r->Ok_0.0->0) == text_parts(said)
        }),
{
    let prompt = match system {
        Some(b) => b,
        None => Seq::empty(),
    };
    lead_ends(msgs, lead, 0);
    let st = match system {
        Some(b) => {
            prompt_is_there(b, b.len());
            assert(b.take(b.len() as int) =~= b);
            prompt_parts(b, b.len())->Ok_0
        },
        None => (Seq::<JsonV>::empty(), empty_sink()),
    };
    assert(st.0 =~= text_parts(prompt));
    messages_are_there(st, msgs, lead);
    let said = prompt + blocks_upto(msgs, lead);
    parts_add_up(prompt, blocks_upto(msgs, lead));
    let (parts, s) = system_messages(st, msgs, lead)->Ok_0;
    assert(parts == text_parts(said));
    let v = object1("parts"@, JsonV::Array(parts));
    nothing_is_merged(v, s, msgs, lead);
    assert(seq!["parts"@][0] == "parts"@);
    one_member_is_read("parts"@, JsonV::Array(parts), seq!["parts"@]);
    assert(parts.len() == said.len());
}

proof fn lead_ends(msgs: Seq<MessageV>, lead: nat, i: nat)
    requires
        i <= lead <= msgs.len(),
        forall|i: int| 0 <= i < lead ==> (#[trigger] msgs[i]).role == Role::System,
        lead < msgs.len() ==> msgs[lead as int].role != Role::System,
    ensures
        leading_system(msgs, i as int) == lead,
    decreases lead - i,
{
    if i < lead {
        lead_ends(msgs, lead, i + 1);
    }
}

} // verus!
