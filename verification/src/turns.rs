//! User turns that mix tool results with other content: they split into runs,
//! one message each, and carry a group so that a build can join them again.

use vstd::prelude::*;
use crate::ir::{in_turn_group, plain_message, ContentBlock, ContentBlockV, Extra, ExtraV, Message, MessageV, Role};
use crate::model::{group_views, views, Dup};

verus! {

broadcast use group_views;

/// A run of blocks of a user turn: tool results, or anything else.
pub struct RunV {
    pub is_tool: bool,
    pub blocks: Seq<ContentBlockV>,
}

/// A run under construction.
#[derive(Debug)]
pub struct Run {
    pub is_tool: bool,
    pub blocks: Vec<ContentBlock>,
}

impl View for Run {
    type V = RunV;

    open spec fn view(&self) -> RunV {
        RunV { is_tool: self.is_tool, blocks: views(self.blocks@) }
    }
}

/// The role of the messages of a run.
pub open spec fn run_role(r: RunV) -> Role {
    if r.is_tool { Role::Tool } else { Role::User }
}

/// Run `i` differs in kind from the one before it.
pub open spec fn kinds_differ(runs: Seq<RunV>, i: int) -> bool {
    runs[i].is_tool != runs[i - 1].is_tool
}

/// The runs after one more block.
pub open spec fn run_step(runs: Seq<RunV>, is_tool: bool, b: ContentBlockV) -> Seq<RunV> {
    if runs.len() > 0 && runs.last().is_tool == is_tool {
        runs.update(runs.len() - 1, RunV { is_tool, blocks: runs.last().blocks.push(b) })
    } else {
        runs.push(RunV { is_tool, blocks: seq![b] })
    }
}

/// The message of run `i`; the first one carries the provider data of the
/// turn, and all belong to its group, if it has one.
pub open spec fn run_message(r: RunV, i: int, group: Option<u64>, extra: ExtraV) -> MessageV {
    let m = plain_message(if r.is_tool { Role::Tool } else { Role::User }, r.blocks);
    let m1 = match group {
        Some(g) => in_turn_group(m, g),
        None => m,
    };
    if i == 0 {
        MessageV { extra, ..m1 }
    } else {
        m1
    }
}

/// The messages of a user turn: one per run, in one group when there are
/// several; an empty turn is one empty message.
pub open spec fn turn_messages(runs: Seq<RunV>, group: u64, extra: ExtraV) -> Seq<MessageV> {
    if runs.len() == 0 {
        seq![MessageV { extra, ..plain_message(Role::User, Seq::empty()) }]
    } else {
        let g = if runs.len() > 1 { Some(group) } else { None };
        Seq::new(runs.len(), |i: int| run_message(runs[i], i, g, extra))
    }
}

/// Adds a block to the last run of its kind, or starts a new one.
pub fn push_run(runs: &mut Vec<Run>, is_tool: bool, b: ContentBlock)
    ensures
        views(final(runs)@) == run_step(views(old(runs)@), is_tool, b@),
{
    let ghost r0 = views(runs@);
    let n = runs.len();
    if n > 0 && runs[n - 1].is_tool == is_tool {
        match runs.pop() {
            Some(mut last) => {
                proof {
                    assert(r0.last() == last@);
                }
                last.blocks.push(b);
                runs.push(last);
                proof {
                    assert(views(runs@) =~= run_step(r0, is_tool, b@));
                }
            },
            None => {},
        }
    } else {
        let mut blocks: Vec<ContentBlock> = Vec::new();
        blocks.push(b);
        proof {
            assert(views(blocks@) =~= seq![b@]);
        }
        runs.push(Run { is_tool, blocks });
    }
}

/// The messages of the runs of one turn.
pub fn messages_of_runs(runs: Vec<Run>, group: u64, extra: Extra) -> (r: Vec<Message>)
    ensures
        views(r@) == turn_messages(views(runs@), group, extra@),
{
    let ghost rv = views(runs@);
    let mut out: Vec<Message> = Vec::new();
    if runs.len() == 0 {
        let mut m = Message::user(Vec::new());
        m.extra = extra;
        out.push(m);
        proof {
            assert(views(out@) =~= turn_messages(rv, group, extra@));
        }
        return out;
    }
    let grouped = runs.len() > 1;
    let ghost g = if grouped { Some(group) } else { None };
    let ghost all = turn_messages(rv, group, extra@);
    let mut first = true;
    for run in it: runs
        invariant
            rv == views(it.seq()),
            rv.len() > 0,
            grouped == (rv.len() > 1),
            all == turn_messages(rv, group, extra@),
            first == (it.index() == 0),
            views(out@) == all.take(it.index() as int),
    {
        let ghost i = it.index() as int;
        proof {
            assert(rv[i] == run@);
        }
        let mut m = if run.is_tool { Message::tool(run.blocks) } else { Message::user(run.blocks) };
        if grouped {
            m = m.with_turn_group(group);
        }
        if first {
            m.extra = extra.dup();
            first = false;
        }
        out.push(m);
        proof {
            assert(all[i] == m@);
            assert(all.take(i + 1) =~= all.take(i).push(all[i]));
        }
    }
    proof {
        assert(all.take(rv.len() as int) =~= all);
    }
    out
}

/// The blocks of the first `n` runs, each with its role.
pub open spec fn run_blocks(runs: Seq<RunV>, n: nat) -> Seq<(Role, ContentBlockV)>
    decreases n,
{
    if n == 0 || n > runs.len() {
        Seq::empty()
    } else {
        let r = runs[n - 1];
        run_blocks(runs, (n - 1) as nat) + Seq::new(r.blocks.len(), |k: int| (run_role(r), r.blocks[k]))
    }
}

/// Equal runs have equal blocks.
pub proof fn run_blocks_prefix(a: Seq<RunV>, b: Seq<RunV>, n: nat)
    requires
        n <= a.len(),
        n <= b.len(),
        forall|i: int| 0 <= i < n ==> (#[trigger] a[i]) == b[i],
    ensures
        run_blocks(a, n) == run_blocks(b, n),
    decreases n,
{
    if n > 0 {
        run_blocks_prefix(a, b, (n - 1) as nat);
        assert(a[n - 1] == b[n - 1]);
    }
}

} // verus!
