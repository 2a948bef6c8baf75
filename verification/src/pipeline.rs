//! The last steps of every build: overridden warnings, the strict gate and
//! request hooks.

use vstd::prelude::*;
use crate::convert::gate::{gate_result, strict_gate};
use crate::convert::{ConversionDirection, ConversionWarning, ConversionWarningV};
use crate::error::{Error, ErrorV, HookError, HookErrorV};
use crate::ir::Role;
use crate::json::{Json, JsonV};
use crate::merge::{log_overrides, MergeLog};
use crate::model::{group_views, views};
use crate::pointer::{find_value, parse_pointer, pointed, put_value, with_pointed};
use crate::text::cat2;

verus! {

broadcast use group_views;

/// Hooks that run on the built JSON, before it is sent.
#[derive(Debug)]
pub struct RequestHooks<M, R> {
    /// Runs once per wire message.
    pub on_message: Option<M>,
    /// Runs on the whole request.
    pub on_request: Option<R>,
}

impl<M, R> RequestHooks<M, R> {
    /// No hooks.
    pub fn new() -> (r: RequestHooks<M, R>)
        ensures
            r.on_message is None,
            r.on_request is None,
    {
        RequestHooks { on_message: None, on_request: None }
    }

    /// Sets the hook for messages.
    pub fn with_on_message(self, hook: M) -> (r: RequestHooks<M, R>)
        ensures
            r.on_message == Some(hook),
            r.on_request == self.on_request,
    {
        RequestHooks { on_message: Some(hook), on_request: self.on_request }
    }

    /// Sets the hook for the whole request.
    pub fn with_on_request(self, hook: R) -> (r: RequestHooks<M, R>)
        ensures
            r.on_message == self.on_message,
            r.on_request == Some(hook),
    {
        RequestHooks { on_message: self.on_message, on_request: Some(hook) }
    }

    /// `true` when no hook is set.
    pub fn is_empty(&self) -> (r: bool)
        ensures
            r == (self.on_message is None && self.on_request is None),
    {
        self.on_message.is_none() && self.on_request.is_none()
    }
}

/// The warning after the merge log is known: what a merge addressed on the
/// build side is overridden.
pub open spec fn marked_warning(w: ConversionWarningV, log: Seq<Seq<char>>) -> ConversionWarningV {
    if w.direction == ConversionDirection::ToFormat {
        ConversionWarningV { overridden: log_overrides(log, w.location), ..w }
    } else {
        w
    }
}

/// The warnings after the merge log is known.
pub open spec fn marked(ws: Seq<ConversionWarningV>, log: Seq<Seq<char>>) -> Seq<ConversionWarningV> {
    ws.map_values(|w: ConversionWarningV| marked_warning(w, log))
}

/// A merge rewrote the message or its role: its index and role no longer say
/// what is on the wire.
pub open spec fn rewritten(log: Seq<Seq<char>>, ptr: Seq<char>) -> bool {
    log_overrides(log, ptr) || log_overrides(log, ptr + "/role"@)
}

/// The message that a hook visits at `ptr`.
pub open spec fn hook_target(body: JsonV, log: Seq<Seq<char>>, ptr: Seq<char>) -> Option<JsonV> {
    if rewritten(log, ptr) {
        None
    } else {
        pointed(body, ptr)
    }
}

/// The message hook answered `r` for message `i`, which had value `v`.
pub open spec fn message_answer<M: Fn(usize, Role, Json) -> Result<Json, HookError>>(
    f: M,
    i: usize,
    role: Role,
    v: JsonV,
    r: Result<JsonV, HookErrorV>,
) -> bool {
    exists|j: Json, out: Result<Json, HookError>|
        j@ == v && #[trigger] call_ensures(f, (i, role, j), out) && match out {
            Ok(x) => r == Ok::<JsonV, HookErrorV>(x@),
            Err(e) => r == Err::<JsonV, HookErrorV>(e@),
        }
}

/// Visiting the message at `m` turns `from` into `to`.
pub open spec fn visit<M: Fn(usize, Role, Json) -> Result<Json, HookError>>(
    f: M,
    log: Seq<Seq<char>>,
    m: (Seq<char>, Role),
    i: usize,
    from: JsonV,
    to: JsonV,
) -> bool {
    match hook_target(from, log, m.0) {
        None => to == from,
        Some(v) => exists|x: JsonV| #[trigger]
            message_answer(f, i, m.1, v, Ok(x)) && to == with_pointed(from, m.0, x),
    }
}

/// Visiting the first `n` messages turns `from` into `to`.
pub open spec fn visits<M: Fn(usize, Role, Json) -> Result<Json, HookError>>(
    f: M,
    log: Seq<Seq<char>>,
    msgs: Seq<(Seq<char>, Role)>,
    from: JsonV,
    to: JsonV,
    n: nat,
) -> bool
    decreases n,
{
    if n == 0 || n > msgs.len() {
        to == from
    } else {
        exists|mid: JsonV|
            visits(f, log, msgs, from, mid, (n - 1) as nat) && #[trigger] visit(
                f,
                log,
                msgs[n - 1],
                (n - 1) as usize,
                mid,
                to,
            )
    }
}

/// The message hook failed with `e` on some message.
pub open spec fn visit_failed<M: Fn(usize, Role, Json) -> Result<Json, HookError>>(
    f: M,
    log: Seq<Seq<char>>,
    msgs: Seq<(Seq<char>, Role)>,
    from: JsonV,
    e: HookErrorV,
) -> bool {
    exists|n: nat, mid: JsonV|
        n < msgs.len() && #[trigger] visits(f, log, msgs, from, mid, n) && hook_target(
            mid,
            log,
            msgs[n as int].0,
        ) is Some && message_answer(
            f,
            n as usize,
            msgs[n as int].1,
            hook_target(mid, log, msgs[n as int].0)->0,
            Err(e),
        )
}

/// The request hook answered `r` for the request `v`.
pub open spec fn request_answer<R: Fn(Json) -> Result<Json, HookError>>(
    g: R,
    v: JsonV,
    r: Result<JsonV, HookErrorV>,
) -> bool {
    exists|j: Json, out: Result<Json, HookError>|
        j@ == v && #[trigger] call_ensures(g, (j,), out) && match out {
            Ok(x) => r == Ok::<JsonV, HookErrorV>(x@),
            Err(e) => r == Err::<JsonV, HookErrorV>(e@),
        }
}

/// The message hooks turn `from` into `to`.
pub open spec fn messages_hooked<M: Fn(usize, Role, Json) -> Result<Json, HookError>>(
    on_message: Option<M>,
    log: Seq<Seq<char>>,
    msgs: Seq<(Seq<char>, Role)>,
    from: JsonV,
    to: JsonV,
) -> bool {
    match on_message {
        Some(f) => visits(f, log, msgs, from, to, msgs.len()),
        None => to == from,
    }
}

/// All hooks turn `from` into `to`.
pub open spec fn hooked<
    M: Fn(usize, Role, Json) -> Result<Json, HookError>,
    R: Fn(Json) -> Result<Json, HookError>,
>(
    hooks: RequestHooks<M, R>,
    log: Seq<Seq<char>>,
    msgs: Seq<(Seq<char>, Role)>,
    from: JsonV,
    to: JsonV,
) -> bool {
    match hooks.on_request {
        None => messages_hooked(hooks.on_message, log, msgs, from, to),
        Some(g) => exists|mid: JsonV| #[trigger]
            messages_hooked(hooks.on_message, log, msgs, from, mid) && request_answer(g, mid, Ok(to)),
    }
}

/// Some hook failed with `e`.
pub open spec fn hook_failed<
    M: Fn(usize, Role, Json) -> Result<Json, HookError>,
    R: Fn(Json) -> Result<Json, HookError>,
>(
    hooks: RequestHooks<M, R>,
    log: Seq<Seq<char>>,
    msgs: Seq<(Seq<char>, Role)>,
    from: JsonV,
    e: HookErrorV,
) -> bool {
    ||| hooks.on_message is Some && visit_failed(hooks.on_message->0, log, msgs, from, e)
    ||| hooks.on_request is Some && exists|mid: JsonV| #[trigger]
        messages_hooked(hooks.on_message, log, msgs, from, mid) && request_answer(
            hooks.on_request->0,
            mid,
            Err(e),
        )
}

/// The hooks can be called on anything.
pub open spec fn callable<
    M: Fn(usize, Role, Json) -> Result<Json, HookError>,
    R: Fn(Json) -> Result<Json, HookError>,
>(hooks: RequestHooks<M, R>) -> bool {
    &&& hooks.on_message is Some ==> forall|i: usize, role: Role, j: Json| #[trigger]
        call_requires(hooks.on_message->0, (i, role, j))
    &&& hooks.on_request is Some ==> forall|j: Json| #[trigger] call_requires(hooks.on_request->0, (j,))
}

/// Marks the build-side warnings that a merge addressed.
pub fn mark_overridden(ws: &mut Vec<ConversionWarning>, log: &MergeLog)
    ensures
        views(final(ws)@) == marked(views(old(ws)@), log@),
{
    let ghost w0 = views(ws@);
    let n = ws.len();
    let mut i: usize = 0;
    while i < n
        invariant
            i <= n,
            n == ws@.len(),
            n == w0.len(),
            forall|k: int| 0 <= k < i ==> (#[trigger] ws@[k])@ == marked_warning(w0[k], log@),
            forall|k: int| i <= k < n ==> (#[trigger] ws@[k])@ == w0[k],
        decreases n - i,
    {
        if ws[i].direction == ConversionDirection::ToFormat {
            let hit = log.overrides(ws[i].location.as_str());
            ws[i].overridden = hit;
        }
        i += 1;
    }
    proof {
        assert(views(ws@) =~= marked(w0, log@));
    }
}

/// Marks the warnings and applies the strict gate.
pub fn check_request(ws: &mut Vec<ConversionWarning>, log: &MergeLog, strict: bool) -> (r: Result<(), Error>)
    ensures
        views(final(ws)@) == marked(views(old(ws)@), log@),
        match r {
            Ok(_) => gate_result(strict, views(final(ws)@)) is Ok,
            Err(e) => match gate_result(strict, views(final(ws)@)) {
                Ok(_) => false,
                Err(c) => e@ == ErrorV::Conversion(c),
            },
        },
{
    mark_overridden(ws, log);
    match strict_gate(strict, ws.as_slice()) {
        Ok(_) => Ok(()),
        Err(c) => Err(Error::Conversion(c)),
    }
}

fn is_rewritten(log: &MergeLog, ptr: &str) -> (r: bool)
    ensures
        r == rewritten(log@, ptr@),
{
    log.overrides(ptr) || log.overrides(cat2(ptr, "/role").as_str())
}

fn run_message_hook<M: Fn(usize, Role, Json) -> Result<Json, HookError>>(
    f: &M,
    log: &MergeLog,
    ptr: &String,
    role: Role,
    i: usize,
    body: &mut Json,
) -> (r: Result<(), HookError>)
    requires
        forall|i: usize, role: Role, j: Json| #[trigger] call_requires(*f, (i, role, j)),
    ensures
        match r {
            Ok(_) => visit(*f, log@, (ptr@, role), i, old(body)@, final(body)@),
            Err(e) => hook_target(old(body)@, log@, ptr@) is Some && message_answer(
                *f,
                i,
                role,
                hook_target(old(body)@, log@, ptr@)->0,
                Err(e@),
            ),
        },
{
    if is_rewritten(log, ptr.as_str()) {
        return Ok(());
    }
    let toks = match parse_pointer(ptr.as_str()) {
        Some(t) => t,
        None => {
            return Ok(());
        },
    };
    proof {
        assert(views(toks@).skip(0) =~= views(toks@));
    }
    let value = match find_value(body, &toks, 0) {
        Some(v) => v.copy(),
        None => {
            return Ok(());
        },
    };
    let ghost b0 = body@;
    let ghost v0 = value;
    match f(i, role, value) {
        Ok(x) => {
            let ghost xv = x@;
            let mut whole = Json::Null;
            std::mem::swap(&mut whole, body);
            *body = put_value(whole, &toks, 0, x);
            proof {
                let m = (ptr@, role);
                assert(hook_target(b0, log@, m.0) == Some(v0@));
                assert(message_answer(*f, i, m.1, v0@, Ok(xv)));
                assert(body@ == with_pointed(b0, m.0, xv));
                assert(visit(*f, log@, m, i, b0, body@));
            }
            Ok(())
        },
        Err(e) => {
            proof {
                assert(message_answer(*f, i, role, v0@, Err(e@)));
            }
            Err(e)
        },
    }
}

fn run_message_hooks<M: Fn(usize, Role, Json) -> Result<Json, HookError>>(
    f: &M,
    log: &MergeLog,
    messages: &Vec<(String, Role)>,
    body: &mut Json,
) -> (r: Result<(), HookError>)
    requires
        forall|i: usize, role: Role, j: Json| #[trigger] call_requires(*f, (i, role, j)),
    ensures
        match r {
            Ok(_) => visits(*f, log@, views(messages@), old(body)@, final(body)@, messages@.len()),
            Err(e) => visit_failed(*f, log@, views(messages@), old(body)@, e@),
        },
{
    let ghost b0 = body@;
    let ghost msgs = views(messages@);
    let mut i: usize = 0;
    while i < messages.len()
        invariant
            i <= messages@.len(),
            msgs == views(messages@),
            b0 == old(body)@,
            visits(*f, log@, msgs, b0, body@, i as nat),
            forall|i: usize, role: Role, j: Json| #[trigger] call_requires(*f, (i, role, j)),
        decreases messages@.len() - i,
    {
        let ghost mid = body@;
        proof {
            assert(msgs[i as int] == (messages@[i as int].0@, messages@[i as int].1));
        }
        match run_message_hook(f, log, &messages[i].0, messages[i].1, i, body) {
            Ok(_) => {
                proof {
                    assert(visits(*f, log@, msgs, b0, mid, i as nat));
                    assert(visit(*f, log@, msgs[i as int], i, mid, body@));
                    let n = (i + 1) as nat;
                    assert(visit(*f, log@, msgs[n - 1], (n - 1) as usize, mid, body@));
                    assert(visits(*f, log@, msgs, b0, body@, n));
                }
            },
            Err(e) => {
                proof {
                    assert(visits(*f, log@, msgs, b0, mid, i as nat));
                }
                return Err(e);
            },
        }
        i += 1;
    }
    Ok(())
}

/// Runs the hooks: that for messages on each wire message, in order, then that
/// for the request. A hook that fails aborts.
pub fn run_hooks<M: Fn(usize, Role, Json) -> Result<Json, HookError>, R: Fn(Json) -> Result<Json, HookError>>(
    hooks: &RequestHooks<M, R>,
    log: &MergeLog,
    messages: &Vec<(String, Role)>,
    body: &mut Json,
) -> (r: Result<(), HookError>)
    requires
        callable(*hooks),
    ensures
        match r {
            Ok(_) => hooked(*hooks, log@, views(messages@), old(body)@, final(body)@),
            Err(e) => hook_failed(*hooks, log@, views(messages@), old(body)@, e@),
        },
{
    let ghost b0 = body@;
    match &hooks.on_message {
        Some(f) => match run_message_hooks(f, log, messages, body) {
            Ok(_) => {},
            Err(e) => {
                return Err(e);
            },
        },
        None => {},
    }
    let ghost mid = body@;
    proof {
        assert(messages_hooked(hooks.on_message, log@, views(messages@), b0, mid));
    }
    match &hooks.on_request {
        Some(g) => {
            let mut whole = Json::Null;
            std::mem::swap(&mut whole, body);
            let ghost w0 = whole;
            match g(whole) {
                Ok(x) => {
                    proof {
                        assert(request_answer(*g, mid, Ok(x@)));
                    }
                    *body = x;
                    Ok(())
                },
                Err(e) => {
                    proof {
                        assert(request_answer(*g, mid, Err(e@)));
                    }
                    Err(e)
                },
            }
        },
        None => Ok(()),
    }
}

/// Finishes a built request: marks overridden warnings, applies the strict
/// gate, runs the hooks.
pub fn finalize_request<M: Fn(usize, Role, Json) -> Result<Json, HookError>, R: Fn(Json) -> Result<Json, HookError>>(
    body: &mut Json,
    warnings: &mut Vec<ConversionWarning>,
    log: &MergeLog,
    strict: bool,
    hooks: &RequestHooks<M, R>,
    messages: &Vec<(String, Role)>,
) -> (r: Result<(), Error>)
    requires
        callable(*hooks),
    ensures
        views(final(warnings)@) == marked(views(old(warnings)@), log@),
        match gate_result(strict, marked(views(old(warnings)@), log@)) {
            Err(c) => match r {
                Ok(_) => false,
                Err(e) => e@ == ErrorV::Conversion(c) && final(body)@ == old(body)@,
            },
            Ok(_) => match r {
                Ok(_) => hooked(*hooks, log@, views(messages@), old(body)@, final(body)@),
                Err(Error::Hook(h)) => hook_failed(*hooks, log@, views(messages@), old(body)@, h@),
                Err(_) => false,
            },
        },
{
    match check_request(warnings, log, strict) {
        Ok(_) => {},
        Err(e) => {
            return Err(e);
        },
    }
    match run_hooks(hooks, log, messages, body) {
        Ok(_) => Ok(()),
        Err(e) => Err(Error::Hook(e)),
    }
}

} // verus!
