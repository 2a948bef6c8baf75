//! Anthropic Messages wire messages as IR messages.

use vstd::prelude::*;
use crate::convert::{ConversionWarning, ConversionWarningV, WarningCode};
use crate::format::ANTHROPIC_MESSAGES;
use crate::formats::anthropic_messages::blocks::{make_text, text_value};
use crate::formats::anthropic_messages::layout::{in_array_meta, in_array_system_meta};
use crate::formats::anthropic_messages::parse_blocks::{block_type, leftover, opaque_block, parse_assistant_block, parse_tool_result, parse_user_block, parsed_assistant, parsed_tool_result, parsed_user, type_of};
use crate::formats::anthropic_messages::types::{decode_message_param, encode_message_param, MessageContent, MessageContentV, MessageParam, MessageParamV};
use crate::ir::{plain_message, ContentBlock, ContentBlockV, Extra, Message, MessageV, Role};
use crate::json::{Json, JsonV};
use crate::model::{group_views, views};
use crate::response::{parse_warn, parse_warned};
use crate::text::{cat2, cat3, dec_usize, decimal, opt_is, text_is};
use crate::turns::{messages_of_runs, push_run, run_step, turn_messages, Run, RunV};

verus! {

broadcast use group_views;

/// The content as a block array; a string stands for one text block.
pub open spec fn expanded(c: MessageContentV) -> Seq<JsonV> {
    match c {
        MessageContentV::Text(s) => seq![text_value(s)],
        MessageContentV::Blocks(a) => a,
    }
}

/// The location of block `n`.
pub open spec fn content_at(loc: Seq<char>, n: nat) -> Seq<char> {
    loc + "/content/"@ + decimal(n)
}

/// The first `n` blocks of an assistant message.
pub open spec fn assistant_blocks(
    a: Seq<JsonV>,
    loc: Seq<char>,
    ws: Seq<ConversionWarningV>,
    n: nat,
) -> (Seq<ContentBlockV>, Seq<ConversionWarningV>)
    decreases n,
{
    if n == 0 || n > a.len() {
        (Seq::empty(), ws)
    } else {
        let (prev, ws1) = assistant_blocks(a, loc, ws, (n - 1) as nat);
        let (b, ws2) = parsed_assistant(a[n - 1], content_at(loc, (n - 1) as nat), ws1);
        (prev.push(b), ws2)
    }
}

/// The first `n` blocks of an in-array system message: text parses, all else
/// stays verbatim.
pub open spec fn system_blocks(
    a: Seq<JsonV>,
    loc: Seq<char>,
    ws: Seq<ConversionWarningV>,
    n: nat,
) -> (Seq<ContentBlockV>, Seq<ConversionWarningV>)
    decreases n,
{
    if n == 0 || n > a.len() {
        (Seq::empty(), ws)
    } else {
        let (prev, ws1) = system_blocks(a, loc, ws, (n - 1) as nat);
        if type_of(a[n - 1]) == Some("text"@) {
            let (b, ws2) = parsed_assistant(a[n - 1], content_at(loc, (n - 1) as nat), ws1);
            (prev.push(b), ws2)
        } else {
            (prev.push(opaque_block(a[n - 1])), ws1)
        }
    }
}

/// A block of a user turn, and whether it is a tool result.
pub open spec fn turn_block(j: JsonV, loc: Seq<char>, ws: Seq<ConversionWarningV>) -> (bool, ContentBlockV, Seq<ConversionWarningV>) {
    if type_of(j) == Some("tool_result"@) {
        let (b, ws1) = parsed_tool_result(j, loc, ws);
        (true, b, ws1)
    } else {
        let (b, ws1) = parsed_user(j, loc, ws);
        (false, b, ws1)
    }
}

/// The runs of the first `n` blocks.
pub open spec fn turn_runs(
    a: Seq<JsonV>,
    loc: Seq<char>,
    ws: Seq<ConversionWarningV>,
    n: nat,
) -> (Seq<RunV>, Seq<ConversionWarningV>)
    decreases n,
{
    if n == 0 || n > a.len() {
        (Seq::empty(), ws)
    } else {
        let (prev, ws1) = turn_runs(a, loc, ws, (n - 1) as nat);
        let (is_tool, b, ws2) = turn_block(a[n - 1], content_at(loc, (n - 1) as nat), ws1);
        (run_step(prev, is_tool, b), ws2)
    }
}

/// A message of a known role, by role; the flag tells whether it took a group.
pub open spec fn role_messages(
    wm: MessageParamV,
    loc: Seq<char>,
    group: u64,
    ws: Seq<ConversionWarningV>,
) -> (Seq<MessageV>, bool, Seq<ConversionWarningV>) {
    let a = expanded(wm.content);
    let extra = leftover(wm.extra);
    if wm.role == "assistant"@ {
        let (blocks, ws1) = assistant_blocks(a, loc, ws, a.len());
        (seq![MessageV { extra, ..plain_message(Role::Assistant, blocks) }], false, ws1)
    } else if wm.role == "system"@ {
        let (blocks, ws1) = system_blocks(a, loc, ws, a.len());
        (
            seq![MessageV { extra, round_trip: Some(in_array_meta()), ..plain_message(Role::System, blocks) }],
            false,
            ws1,
        )
    } else {
        let (runs, ws1) = turn_runs(a, loc, ws, a.len());
        (turn_messages(runs, group, extra), runs.len() > 1, ws1)
    }
}

/// The IR messages of wire message `j`. One of an unknown role or a wrong
/// shape stays verbatim. The flag tells whether it took a group.
pub open spec fn parsed_message(
    j: JsonV,
    loc: Seq<char>,
    group: u64,
    ws: Seq<ConversionWarningV>,
) -> (Seq<MessageV>, bool, Seq<ConversionWarningV>) {
    match decode_message_param(j) {
        Err(e) => (
            seq![plain_message(Role::User, seq![opaque_block(j)])],
            false,
            parse_warned(
                ws,
                ANTHROPIC_MESSAGES@,
                WarningCode::MalformedField,
                loc,
                "message failed to parse ("@ + e + "); kept verbatim as an opaque block"@,
            ),
        ),
        Ok(wm) => if wm.role == "user"@ || wm.role == "assistant"@ || wm.role == "system"@ {
            role_messages(wm, loc, group, ws)
        } else {
            (
                seq![plain_message(Role::User, seq![opaque_block(encode_message_param(wm))])],
                false,
                parse_warned(
                    ws,
                    ANTHROPIC_MESSAGES@,
                    WarningCode::MalformedField,
                    loc,
                    "unknown message role `"@ + wm.role + "`; the message was kept verbatim as an opaque block"@,
                ),
            )
        },
    }
}

/// The messages of the first `n` wire messages, after `start`, and the next
/// free group.
pub open spec fn parsed_messages(
    start: Seq<MessageV>,
    a: Seq<JsonV>,
    ws: Seq<ConversionWarningV>,
    n: nat,
) -> (Seq<MessageV>, u64, Seq<ConversionWarningV>)
    decreases n,
{
    if n == 0 || n > a.len() {
        (start, 0, ws)
    } else {
        let (prev, group, ws1) = parsed_messages(start, a, ws, (n - 1) as nat);
        let (more, grouped, ws2) = parsed_message(
            a[n - 1],
            "/messages/"@ + decimal((n - 1) as nat),
            group,
            ws1,
        );
        (prev + more, if grouped { (group + 1) as u64 } else { group }, ws2)
    }
}

fn expand(c: MessageContent) -> (r: Vec<Json>)
    ensures
        views(r@) == expanded(c@),
{
    match c {
        MessageContent::Text(s) => {
            let mut v: Vec<Json> = Vec::new();
            v.push(make_text(&s));
            proof {
                assert(views(v@) =~= seq![text_value(s@)]);
            }
            v
        },
        MessageContent::Blocks(b) => b,
    }
}

/// Parses the blocks of an assistant message.
pub fn parse_assistant_blocks(a: &Vec<Json>, loc: &str, ws: &mut Vec<ConversionWarning>) -> (r: Vec<ContentBlock>)
    ensures
        (views(r@), views(final(ws)@)) == assistant_blocks(views(a@), loc@, views(old(ws)@), a@.len()),
{
    let ghost ws0 = views(ws@);
    let mut out: Vec<ContentBlock> = Vec::new();
    let mut i: usize = 0;
    while i < a.len()
        invariant
            i <= a@.len(),
            (views(out@), views(ws@)) == assistant_blocks(views(a@), loc@, ws0, i as nat),
        decreases a@.len() - i,
    {
        let at = cat3(loc, "/content/", dec_usize(i).as_str());
        out.push(parse_assistant_block(&a[i], at.as_str(), ws));
        i += 1;
    }
    out
}

fn parse_system_blocks(a: &Vec<Json>, loc: &str, ws: &mut Vec<ConversionWarning>) -> (r: Vec<ContentBlock>)
    ensures
        (views(r@), views(final(ws)@)) == system_blocks(views(a@), loc@, views(old(ws)@), a@.len()),
{
    let ghost ws0 = views(ws@);
    let mut out: Vec<ContentBlock> = Vec::new();
    let mut i: usize = 0;
    while i < a.len()
        invariant
            i <= a@.len(),
            (views(out@), views(ws@)) == system_blocks(views(a@), loc@, ws0, i as nat),
        decreases a@.len() - i,
    {
        if opt_is(block_type(&a[i]), "text") {
            let at = cat3(loc, "/content/", dec_usize(i).as_str());
            out.push(parse_assistant_block(&a[i], at.as_str(), ws));
        } else {
            out.push(ContentBlock::opaque(ANTHROPIC_MESSAGES, a[i].copy()));
        }
        i += 1;
    }
    out
}

fn parse_runs(a: &Vec<Json>, loc: &str, ws: &mut Vec<ConversionWarning>) -> (r: Vec<Run>)
    ensures
        (views(r@), views(final(ws)@)) == turn_runs(views(a@), loc@, views(old(ws)@), a@.len()),
{
    let ghost ws0 = views(ws@);
    let mut runs: Vec<Run> = Vec::new();
    let mut i: usize = 0;
    while i < a.len()
        invariant
            i <= a@.len(),
            (views(runs@), views(ws@)) == turn_runs(views(a@), loc@, ws0, i as nat),
        decreases a@.len() - i,
    {
        let at = cat3(loc, "/content/", dec_usize(i).as_str());
        let is_tool = opt_is(block_type(&a[i]), "tool_result");
        let b = if is_tool {
            parse_tool_result(&a[i], at.as_str(), ws)
        } else {
            parse_user_block(&a[i], at.as_str(), ws)
        };
        push_run(&mut runs, is_tool, b);
        i += 1;
    }
    runs
}

fn lone(m: Message) -> (r: Vec<Message>)
    ensures
        views(r@) == seq![m@],
{
    let mut v: Vec<Message> = Vec::new();
    v.push(m);
    proof {
        assert(views(v@) =~= seq![m@]);
    }
    v
}

fn verbatim_message(j: Json) -> (r: Message)
    ensures
        r@ == plain_message(Role::User, seq![opaque_block(j@)]),
{
    let mut blocks: Vec<ContentBlock> = Vec::new();
    blocks.push(ContentBlock::opaque(ANTHROPIC_MESSAGES, j));
    proof {
        assert(views(blocks@) =~= seq![opaque_block(j@)]);
    }
    Message::user(blocks)
}

fn parse_role_message(
    wm: MessageParam,
    loc: &str,
    group: u64,
    ws: &mut Vec<ConversionWarning>,
) -> (r: (Vec<Message>, bool))
    ensures
        (views(r.0@), r.1, views(final(ws)@)) == role_messages(wm@, loc@, group, views(old(ws)@)),
{
    let a = expand(wm.content);
    let extra = Extra::from_unknown(ANTHROPIC_MESSAGES, wm.extra);
    if text_is(&wm.role, "assistant") {
        let mut m = Message::assistant(parse_assistant_blocks(&a, loc, ws));
        m.extra = extra;
        (lone(m), false)
    } else if text_is(&wm.role, "system") {
        let mut m = Message::new(Role::System, parse_system_blocks(&a, loc, ws));
        m.round_trip = Some(in_array_system_meta());
        m.extra = extra;
        (lone(m), false)
    } else {
        let runs = parse_runs(&a, loc, ws);
        let grouped = runs.len() > 1;
        (messages_of_runs(runs, group, extra), grouped)
    }
}

/// Parses one wire message into one or more IR messages; the flag tells
/// whether it took the group.
pub fn parse_wire_message(
    j: &Json,
    loc: &str,
    group: u64,
    ws: &mut Vec<ConversionWarning>,
) -> (r: (Vec<Message>, bool))
    ensures
        (views(r.0@), r.1, views(final(ws)@)) == parsed_message(j@, loc@, group, views(old(ws)@)),
{
    match MessageParam::from_json(j) {
        Err(e) => {
            parse_warn(
                ws,
                ANTHROPIC_MESSAGES,
                WarningCode::MalformedField,
                loc,
                cat3("message failed to parse (", e.as_str(), "); kept verbatim as an opaque block").as_str(),
            );
            (lone(verbatim_message(j.copy())), false)
        },
        Ok(wm) => {
            if text_is(&wm.role, "user") || text_is(&wm.role, "assistant") || text_is(&wm.role, "system") {
                parse_role_message(wm, loc, group, ws)
            } else {
                parse_warn(
                    ws,
                    ANTHROPIC_MESSAGES,
                    WarningCode::MalformedField,
                    loc,
                    cat3(
                        "unknown message role `",
                        wm.role.as_str(),
                        "`; the message was kept verbatim as an opaque block",
                    ).as_str(),
                );
                (lone(verbatim_message(wm.to_json())), false)
            }
        },
    }
}

/// Parses the wire messages after the messages that are already there.
pub fn parse_messages(messages: &mut Vec<Message>, a: &Vec<Json>, ws: &mut Vec<ConversionWarning>)
    ensures
        (views(final(messages)@), views(final(ws)@)) == {
            let (m, g, w) = parsed_messages(views(old(messages)@), views(a@), views(old(ws)@), a@.len());
            (m, w)
        },
{
    let ghost start = views(messages@);
    let ghost ws0 = views(ws@);
    let mut group: u64 = 0;
    let mut i: usize = 0;
    while i < a.len()
        invariant
            i <= a@.len(),
            group <= i,
            (views(messages@), group, views(ws@)) == parsed_messages(start, views(a@), ws0, i as nat),
        decreases a@.len() - i,
    {
        let loc = cat2("/messages/", dec_usize(i).as_str());
        let (mut more, grouped) = parse_wire_message(&a[i], loc.as_str(), group, ws);
        messages.append(&mut more);
        if grouped {
            group = group + 1;
        }
        i += 1;
    }
}

} // verus!
