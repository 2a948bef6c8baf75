//! A streaming call: the queue of items between the stream parser and the
//! reader.

use vstd::prelude::*;
use crate::convert::warnings::warning;
use crate::convert::{ConversionDirection, ConversionWarning, ConversionWarningV, WarningCode};
use crate::display::error_text;
use crate::error::{Error, ErrorV};
use crate::headers::{clone_headers, header_values, headers_empty, retry_after_from_headers, retry_seconds};
use crate::ir::{SseEvent, SseEventV, StreamEvent, StreamEventV};
use crate::model::{group_views, opt_view, views};
use crate::stream::{reports, FailV, StreamParser};
use crate::text::cat2;

verus! {

broadcast use group_views;

/// One item of a streaming call.
#[derive(Debug, PartialEq, Eq)]
pub struct StreamItem {
    pub event: StreamEvent,
    /// Data of the source event.
    pub raw: Option<String>,
    pub warnings: Vec<ConversionWarning>,
}

/// The mathematical value of a [`StreamItem`].
pub struct StreamItemV {
    pub event: StreamEventV,
    pub raw: Option<Seq<char>>,
    pub warnings: Seq<ConversionWarningV>,
}

impl View for StreamItem {
    type V = StreamItemV;

    open spec fn view(&self) -> StreamItemV {
        StreamItemV { event: self.event@, raw: opt_view(self.raw), warnings: views(self.warnings@) }
    }
}

/// What the reader gets.
pub type ItemV = Result<StreamItemV, ErrorV>;

/// Items by their mathematical values.
pub open spec fn item_view(r: Result<StreamItem, Error>) -> ItemV {
    match r {
        Ok(i) => Ok(i@),
        Err(e) => Err(e@),
    }
}

/// A queue by its mathematical value.
pub open spec fn item_views(s: Seq<Result<StreamItem, Error>>) -> Seq<ItemV> {
    Seq::new(s.len(), |i: int| item_view(s[i]))
}

/// What the handle does next.
#[derive(Clone, Copy, Debug, PartialEq, Eq, Structural)]
pub enum State {
    /// Reads the body.
    Pumping,
    /// The body is over: the decoder has to be flushed.
    Flushing,
    /// Serves what is queued.
    Draining,
    /// Nothing is left.
    Done,
}

/// A streaming call.
#[derive(Debug)]
pub struct StreamHandle<P> {
    pub status: u16,
    pub headers: http::HeaderMap,
    /// Warnings of the build.
    pub build_warnings: Vec<ConversionWarning>,
    /// Hands out the raw data of every event.
    pub include_raw: bool,
    pub parser: P,
    /// Id of the format.
    pub format_id: String,
    pub queue: Vec<Result<StreamItem, Error>>,
    /// Warnings that wait for an item.
    pub pending_warnings: Vec<ConversionWarning>,
    /// The response is complete.
    pub protocol_terminal: bool,
    pub state: State,
}

/// The mathematical value of a [`StreamHandle`] with parser state `S`.
pub struct HandleV<S> {
    pub status: u16,
    pub headers: http::HeaderMap,
    pub build_warnings: Seq<ConversionWarningV>,
    pub include_raw: bool,
    pub parser: S,
    pub format_id: Seq<char>,
    pub queue: Seq<ItemV>,
    pub pending: Seq<ConversionWarningV>,
    pub terminal: bool,
    pub state: State,
}

impl<P: View> View for StreamHandle<P> {
    type V = HandleV<P::V>;

    open spec fn view(&self) -> HandleV<P::V> {
        HandleV {
            status: self.status,
            headers: self.headers,
            build_warnings: views(self.build_warnings@),
            include_raw: self.include_raw,
            parser: self.parser@,
            format_id: self.format_id@,
            queue: item_views(self.queue@),
            pending: views(self.pending_warnings@),
            terminal: self.protocol_terminal,
            state: self.state,
        }
    }
}

/// The terminator is among the events.
pub open spec fn has_stop(events: Seq<StreamEventV>) -> bool {
    exists|i: int| 0 <= i < events.len() && (#[trigger] events[i]) is MessageStop
}

/// Item `i` of one parse: the first carries the warnings. Raw data goes with
/// unknown events, and with all if asked for.
pub open spec fn item_of(
    events: Seq<StreamEventV>,
    carried: Seq<ConversionWarningV>,
    raw: Option<Seq<char>>,
    include_raw: bool,
    i: int,
) -> ItemV {
    Ok(
        StreamItemV {
            event: events[i],
            raw: if include_raw || events[i] is Unknown { raw } else { None },
            warnings: if i == 0 { carried } else { Seq::empty() },
        },
    )
}

/// The items of one parse.
pub open spec fn items_of(
    events: Seq<StreamEventV>,
    carried: Seq<ConversionWarningV>,
    raw: Option<Seq<char>>,
    include_raw: bool,
) -> Seq<ItemV> {
    Seq::new(events.len(), |i: int| item_of(events, carried, raw, include_raw, i))
}

/// The events of one parse are queued. Without events the warnings wait.
pub open spec fn emitted<S>(
    h: HandleV<S>,
    events: Seq<StreamEventV>,
    ws: Seq<ConversionWarningV>,
    raw: Option<Seq<char>>,
) -> HandleV<S> {
    let carried = h.pending + ws;
    if events.len() == 0 {
        HandleV { pending: carried, ..h }
    } else {
        HandleV {
            queue: h.queue + items_of(events, carried, raw, h.include_raw),
            pending: Seq::empty(),
            terminal: h.terminal || has_stop(events),
            ..h
        }
    }
}

/// The first `n` events go through the parser, which stops at its first
/// failure.
pub open spec fn fed<P: StreamParser>(h: HandleV<P::V>, events: Seq<SseEventV>, n: nat) -> Result<
    HandleV<P::V>,
    (HandleV<P::V>, FailV),
>
    decreases n,
{
    if n == 0 || n > events.len() {
        Ok(h)
    } else {
        match fed::<P>(h, events, (n - 1) as nat) {
            Err(e) => Err(e),
            Ok(p) => match P::parsed(p.parser, events[n - 1]) {
                Ok((evs, ws, st)) => Ok(emitted(HandleV { parser: st, ..p }, evs, ws, Some(events[n - 1].data))),
                Err(f) => Err((p, f)),
            },
        }
    }
}

/// The map holds no header.
pub open spec fn no_header(h: http::HeaderMap) -> bool {
    forall|k: Seq<char>| #[trigger] header_values(h, k).len() == 0
}

/// The error with what the response head knows and the parser does not.
pub open spec fn filled_error(e: ErrorV, status: u16, headers: http::HeaderMap) -> ErrorV {
    match e {
        ErrorV::BodyTooLarge { kind, limit, status: s, headers: h, prefix } => ErrorV::BodyTooLarge {
            kind,
            limit,
            status: match s {
                Some(s) => Some(s),
                None => Some(status),
            },
            headers: match h {
                Some(h) => Some(h),
                None => Some(headers),
            },
            prefix,
        },
        ErrorV::Api { status: s, kind, message, raw, truncated, parsed, retry_after, headers: h } => ErrorV::Api {
            status: s,
            kind,
            message,
            raw,
            truncated,
            parsed,
            retry_after: match retry_after {
                Some(t) => Some(t),
                None => retry_seconds(headers),
            },
            headers: if no_header(h) { headers } else { h },
        },
        _ => e,
    }
}

/// The stream ends with an error.
pub open spec fn ended_with<S>(h: HandleV<S>, e: ErrorV) -> HandleV<S> {
    HandleV {
        queue: h.queue.push(Err(filled_error(e, h.status, h.headers))),
        state: State::Draining,
        ..h
    }
}

/// A failure after the terminator is only noted: the response stands.
pub open spec fn noted_after<S>(h: HandleV<S>, e: ErrorV) -> HandleV<S> {
    HandleV {
        pending: h.pending.push(
            warning(
                WarningCode::PostTerminalStreamFailure,
                h.format_id,
                ConversionDirection::FromFormat,
                Seq::empty(),
                "stream failure after the protocol terminator: "@ + error_text(e),
            ),
        ),
        ..h
    }
}

/// A failure at the end of the body.
pub open spec fn settled<S>(h: HandleV<S>, e: ErrorV) -> HandleV<S> {
    if h.terminal {
        noted_after(h, e)
    } else {
        ended_with(h, e)
    }
}

/// A failure while the body is read. After the terminator it ends the body.
pub open spec fn pump_failed<S>(h: HandleV<S>, e: ErrorV) -> HandleV<S> {
    if h.terminal {
        HandleV { state: State::Flushing, ..noted_after(h, e) }
    } else {
        ended_with(h, e)
    }
}

/// `out` is the handle after a chunk of the body became `events`, and then
/// maybe a decoding error.
pub open spec fn pumped<P: StreamParser>(
    h: HandleV<P::V>,
    events: Seq<SseEventV>,
    error: Option<ErrorV>,
    out: HandleV<P::V>,
) -> bool {
    match fed::<P>(h, events, events.len()) {
        Ok(h1) => out == match error {
            Some(e) => pump_failed(h1, e),
            None => h1,
        },
        Err((h1, f)) => exists|e: ErrorV| #[trigger] reports(e, f) && out == pump_failed(h1, e),
    }
}

/// `out` is the handle after the last events of the body, and then maybe a
/// decoding error.
pub open spec fn flushed<P: StreamParser>(
    h: HandleV<P::V>,
    events: Seq<SseEventV>,
    error: Option<ErrorV>,
    out: HandleV<P::V>,
) -> bool {
    match fed::<P>(h, events, events.len()) {
        Ok(h1) => out == match error {
            Some(e) => settled(h1, e),
            None => h1,
        },
        Err((h1, f)) => exists|e: ErrorV| #[trigger] reports(e, f) && out == settled(h1, e),
    }
}

/// `out` is the handle after the parser was told that the body is over,
/// unless the stream already ended with an error.
pub open spec fn parser_finished<P: StreamParser>(h: HandleV<P::V>, out: HandleV<P::V>) -> bool {
    if h.state == State::Draining {
        out == h
    } else {
        match P::finished(h.parser) {
            Ok((evs, ws, st)) => out == emitted(HandleV { parser: st, ..h }, evs, ws, None),
            Err(f) => exists|e: ErrorV| #[trigger] reports(e, f) && out == settled(h, e),
        }
    }
}

/// Warnings that no item carries get one of their own.
pub open spec fn carried_out<S>(h: HandleV<S>) -> HandleV<S> {
    if h.state != State::Draining && h.pending.len() > 0 {
        HandleV {
            queue: h.queue.push(
                Ok(StreamItemV { event: StreamEventV::Unknown, raw: None, warnings: h.pending }),
            ),
            pending: Seq::empty(),
            state: State::Draining,
            ..h
        }
    } else {
        HandleV { state: State::Draining, ..h }
    }
}

/// `out` is the handle after the end of the body.
pub open spec fn body_ended<P: StreamParser>(
    h: HandleV<P::V>,
    events: Seq<SseEventV>,
    error: Option<ErrorV>,
    out: HandleV<P::V>,
) -> bool {
    exists|a: HandleV<P::V>, b: HandleV<P::V>|
        #![trigger flushed::<P>(h, events, error, a), parser_finished::<P>(a, b)]
        flushed::<P>(h, events, error, a) && parser_finished::<P>(a, b) && out == carried_out(b)
}

/// What the reader has to do.
#[derive(Debug)]
pub enum Next {
    /// Hand out the item.
    Item(Result<StreamItem, Error>),
    /// Read more of the body, and report it.
    Read,
    /// Flush the decoder, and report the end of the body.
    Flush,
    /// The stream is over.
    End,
}

proof fn fed_error_stays<P: StreamParser>(h: HandleV<P::V>, events: Seq<SseEventV>, n: nat, m: nat)
    requires
        n <= m <= events.len(),
        fed::<P>(h, events, n) is Err,
    ensures
        fed::<P>(h, events, m) == fed::<P>(h, events, n),
    decreases m - n,
{
    if n < m {
        fed_error_stays::<P>(h, events, n, (m - 1) as nat);
    }
}

fn fill_error(error: Error, status: u16, headers: &http::HeaderMap) -> (r: Error)
    ensures
        r@ == filled_error(error@, status, *headers),
{
    match error {
        Error::BodyTooLarge { kind, limit, status: s, headers: h, prefix } => Error::BodyTooLarge {
            kind,
            limit,
            status: match s {
                Some(s) => Some(s),
                None => Some(status),
            },
            headers: match h {
                Some(h) => Some(h),
                None => Some(clone_headers(headers)),
            },
            prefix,
        },
        Error::Api { status: s, kind, message, raw, truncated, parsed, retry_after, headers: h } => Error::Api {
            status: s,
            kind,
            message,
            raw,
            truncated,
            parsed,
            retry_after: match retry_after {
                Some(t) => Some(t),
                None => retry_after_from_headers(headers),
            },
            headers: if headers_empty(&h) { clone_headers(headers) } else { h },
        },
        other => other,
    }
}

fn is_stop(e: &StreamEvent) -> (r: bool)
    ensures
        r == (e@ is MessageStop),
{
    match e {
        StreamEvent::MessageStop => true,
        _ => false,
    }
}

fn is_unknown(e: &StreamEvent) -> (r: bool)
    ensures
        r == (e@ is Unknown),
{
    match e {
        StreamEvent::Unknown => true,
        _ => false,
    }
}

impl<P: StreamParser> StreamHandle<P> {
    /// The handle of an accepted streaming call.
    pub fn new(
        status: u16,
        headers: http::HeaderMap,
        build_warnings: Vec<ConversionWarning>,
        parser: P,
        format_id: &str,
        include_raw: bool,
    ) -> (r: StreamHandle<P>)
        ensures
            r@ == (HandleV {
                status,
                headers,
                build_warnings: views(build_warnings@),
                include_raw,
                parser: parser@,
                format_id: format_id@,
                queue: Seq::empty(),
                pending: Seq::empty(),
                terminal: false,
                state: State::Pumping,
            }),
            error_comes_last(r@),
    {
        let r = StreamHandle {
            status,
            headers,
            build_warnings,
            include_raw,
            parser,
            format_id: format_id.to_owned(),
            queue: Vec::new(),
            pending_warnings: Vec::new(),
            protocol_terminal: false,
            state: State::Pumping,
        };
        proof {
            assert(r@.queue =~= Seq::<ItemV>::empty());
            assert(r@.pending =~= Seq::<ConversionWarningV>::empty());
        }
        r
    }

    /// Warnings of the build.
    pub fn warnings(&self) -> (r: &Vec<ConversionWarning>)
        ensures
            views(r@) == self@.build_warnings,
    {
        &self.build_warnings
    }

    /// HTTP status of the response.
    pub fn status(&self) -> (r: u16)
        ensures
            r == self@.status,
    {
        self.status
    }

    /// Headers of the response.
    pub fn headers(&self) -> (r: &http::HeaderMap)
        ensures
            *r == self@.headers,
    {
        &self.headers
    }

    /// Queues the items of one parse.
    fn emit(&mut self, events: Vec<StreamEvent>, warnings: Vec<ConversionWarning>, raw: Option<&String>)
        ensures
            final(self)@ == emitted(old(self)@, views(events@), views(warnings@), opt_view(raw)),
    {
        let ghost h0 = self@;
        let ghost ev = views(events@);
        let ghost rv = opt_view(raw);
        let mut carried: Vec<ConversionWarning> = Vec::new();
        std::mem::swap(&mut carried, &mut self.pending_warnings);
        let mut more = warnings;
        let ghost c0 = h0.pending + views(more@);
        carried.append(&mut more);
        proof {
            assert(views(carried@) =~= c0);
        }
        if events.len() == 0 {
            self.pending_warnings = carried;
            return;
        }
        let n = events.len();
        let mut rest = events;
        let ghost all = items_of(ev, c0, rv, h0.include_raw);
        let mut i: usize = 0;
        proof {
            assert(item_views(self.queue@) =~= h0.queue + all.take(0));
            assert(views(rest@) =~= ev.skip(0));
            assert(self@.pending =~= Seq::<ConversionWarningV>::empty());
        }
        while i < n
            invariant
                i <= n,
                n == ev.len(),
                rest@.len() == n - i,
                views(rest@) == ev.skip(i as int),
                all == items_of(ev, c0, rv, h0.include_raw),
                rv == opt_view(raw),
                i == 0 ==> views(carried@) == c0,
                i > 0 ==> carried@.len() == 0,
                self.include_raw == h0.include_raw,
                self@ == (HandleV {
                    queue: h0.queue + all.take(i as int),
                    pending: Seq::empty(),
                    terminal: h0.terminal || has_stop(ev.take(i as int)),
                    ..h0
                }),
            decreases n - i,
        {
            let ghost r0 = rest@;
            let event = rest.remove(0);
            let ghost e = event@;
            proof {
                assert(views(r0)[0] == e);
                assert(ev.skip(i as int)[0] == ev[i as int]);
                assert(views(rest@) =~= views(r0).skip(1));
                assert(ev.skip(i as int).skip(1) =~= ev.skip(i + 1));
                let a = ev.take(i as int);
                let b = ev.take(i + 1);
                assert(b =~= a.push(e));
                assert(has_stop(b) == (has_stop(a) || e is MessageStop)) by {
                    if has_stop(a) {
                        let k = choose|k: int| 0 <= k < a.len() && (#[trigger] a[k]) is MessageStop;
                        assert(b[k] is MessageStop);
                    }
                    if e is MessageStop {
                        assert(b[i as int] is MessageStop);
                    }
                    if has_stop(b) {
                        let k = choose|k: int| 0 <= k < b.len() && (#[trigger] b[k]) is MessageStop;
                        if k < i {
                            assert(a[k] is MessageStop);
                        }
                    }
                }
            }
            if is_stop(&event) {
                self.protocol_terminal = true;
            }
            let shown = self.include_raw || is_unknown(&event);
            let raw_text: Option<String> = match raw {
                Some(s) => {
                    if shown {
                        Some(s.clone())
                    } else {
                        None
                    }
                },
                None => None,
            };
            let mut ws: Vec<ConversionWarning> = Vec::new();
            std::mem::swap(&mut ws, &mut carried);
            let ghost q0 = item_views(self.queue@);
            let item = StreamItem { event, raw: raw_text, warnings: ws };
            proof {
                if i > 0 {
                    assert(views(ws@) =~= Seq::<ConversionWarningV>::empty());
                }
                assert(all[i as int] == ItemV::Ok(item@));
            }
            let ghost iv = item@;
            self.queue.push(Ok(item));
            proof {
                assert(item_views(self.queue@) =~= q0.push(Ok(iv)));
                assert(all.take(i + 1) =~= all.take(i as int).push(Ok(iv)));
                assert(item_views(self.queue@) =~= h0.queue + all.take(i + 1));
            }
            i += 1;
        }
        proof {
            assert(all.take(n as int) =~= all);
            assert(ev.take(n as int) =~= ev);
        }
    }

    /// Feeds events to the parser, up to its first failure.
    fn feed(&mut self, events: &Vec<SseEvent>) -> (r: Option<Error>)
        ensures
            match r {
                None => fed::<P>(old(self)@, views(events@), events@.len()) == Ok::<
                    HandleV<P::V>,
                    (HandleV<P::V>, FailV),
                >(final(self)@),
                Some(e) => match fed::<P>(old(self)@, views(events@), events@.len()) {
                    Ok(_) => false,
                    Err((h, f)) => h == final(self)@ && reports(e@, f),
                },
            },
    {
        let ghost h0 = self@;
        let ghost ev = views(events@);
        let mut i: usize = 0;
        while i < events.len()
            invariant
                i <= events@.len(),
                ev == views(events@),
                h0 == old(self)@,
                fed::<P>(h0, ev, i as nat) == Ok::<HandleV<P::V>, (HandleV<P::V>, FailV)>(self@),
            decreases events@.len() - i,
        {
            let ghost p = self@;
            proof {
                assert(ev[i as int] == events@[i as int]@);
            }
            match self.parser.parse(&events[i]) {
                Ok((evs, ws)) => {
                    self.emit(evs, ws, Some(&events[i].data));
                },
                Err(e) => {
                    proof {
                        assert(self@ == p);
                        assert(fed::<P>(h0, ev, (i + 1) as nat) is Err);
                        fed_error_stays::<P>(h0, ev, (i + 1) as nat, events@.len());
                    }
                    return Some(e);
                },
            }
            i += 1;
        }
        None
    }

    /// Queues a fatal error and stops reading.
    fn fatal(&mut self, error: Error)
        ensures
            final(self)@ == ended_with(old(self)@, error@),
    {
        let ghost q0 = self@.queue;
        let e = fill_error(error, self.status, &self.headers);
        let ghost ev = e@;
        self.queue.push(Err(e));
        self.state = State::Draining;
        proof {
            assert(self@.queue =~= q0.push(Err(ev)));
        }
    }

    /// Notes a failure after the terminator.
    fn post_terminal_warning(&mut self, error: &Error)
        ensures
            final(self)@ == noted_after(old(self)@, error@),
    {
        proof {
            reveal_strlit("");
            assert(""@ =~= Seq::<char>::empty());
        }
        self.pending_warnings.push(
            ConversionWarning::from_format(
                WarningCode::PostTerminalStreamFailure,
                self.format_id.as_str(),
                "",
                cat2("stream failure after the protocol terminator: ", error.text().as_str()).as_str(),
            ),
        );
    }

    fn settle(&mut self, error: Error)
        ensures
            final(self)@ == settled(old(self)@, error@),
    {
        if self.protocol_terminal {
            self.post_terminal_warning(&error);
        } else {
            self.fatal(error);
        }
    }

    fn pump_failure(&mut self, error: Error)
        ensures
            final(self)@ == pump_failed(old(self)@, error@),
    {
        if self.protocol_terminal {
            self.post_terminal_warning(&error);
            self.state = State::Flushing;
        } else {
            self.fatal(error);
        }
    }

    /// Reports what a chunk of the body decoded to: complete events, and the
    /// decoding error behind them, if any.
    pub fn on_bytes(&mut self, events: &Vec<SseEvent>, error: Option<Error>)
        ensures
            pumped::<P>(old(self)@, views(events@), opt_view(error), final(self)@),
    {
        match self.feed(events) {
            Some(e) => {
                self.pump_failure(e);
            },
            None => match error {
                Some(e) => {
                    self.pump_failure(e);
                },
                None => {},
            },
        }
    }

    /// Reports that the transport failed.
    pub fn on_transport_error(&mut self, message: String)
        ensures
            final(self)@ == pump_failed(old(self)@, ErrorV::Transport(message@)),
    {
        self.pump_failure(Error::Transport(message));
    }

    /// Reports that the body is over.
    pub fn on_body_end(&mut self)
        ensures
            final(self)@ == (HandleV { state: State::Flushing, ..old(self)@ }),
    {
        self.state = State::Flushing;
    }

    fn finish_parser(&mut self)
        ensures
            parser_finished::<P>(old(self)@, final(self)@),
    {
        if self.state == State::Draining {
            return;
        }
        let ghost h0 = self@;
        match self.parser.finish() {
            Ok((evs, ws)) => {
                self.emit(evs, ws, None);
            },
            Err(e) => {
                proof {
                    assert(self@ == h0);
                }
                self.settle(e);
            },
        }
    }

    fn flush_events(&mut self, events: &Vec<SseEvent>, error: Option<Error>)
        ensures
            flushed::<P>(old(self)@, views(events@), opt_view(error), final(self)@),
    {
        match self.feed(events) {
            Some(e) => {
                self.settle(e);
            },
            None => match error {
                Some(e) => {
                    self.settle(e);
                },
                None => {},
            },
        }
    }

    /// Reports the end of the body with what flushing the decoder gave.
    pub fn on_eof(&mut self, events: &Vec<SseEvent>, error: Option<Error>)
        ensures
            body_ended::<P>(old(self)@, views(events@), opt_view(error), final(self)@),
    {
        let ghost h0 = self@;
        self.flush_events(events, error);
        let ghost a = self@;
        self.finish_parser();
        let ghost b = self@;
        proof {
            assert(flushed::<P>(h0, views(events@), opt_view(error), a));
            assert(parser_finished::<P>(a, b));
        }
        if self.state != State::Draining && self.pending_warnings.len() > 0 {
            let mut warnings: Vec<ConversionWarning> = Vec::new();
            std::mem::swap(&mut warnings, &mut self.pending_warnings);
            let item = StreamItem { event: StreamEvent::Unknown, raw: None, warnings };
            let ghost iv = item@;
            let ghost q0 = self@.queue;
            self.queue.push(Ok(item));
            proof {
                assert(self@.queue =~= q0.push(Ok(iv)));
                assert(self@.pending =~= Seq::<ConversionWarningV>::empty());
            }
        }
        self.state = State::Draining;
        proof {
            assert(self@ == carried_out(b));
        }
    }

    /// What the reader has to do next. An error is the last item.
    pub fn next_step(&mut self) -> (r: Next)
        ensures
            match r {
                Next::Flush => old(self)@.state == State::Flushing && final(self)@ == old(self)@,
                Next::Item(i) => old(self)@.state != State::Flushing && old(self)@.queue.len() > 0 && item_view(i)
                    == old(self)@.queue[0] && final(self)@ == item_taken(old(self)@),
                Next::Read => old(self)@.state == State::Pumping && old(self)@.queue.len() == 0 && final(self)@
                    == old(self)@,
                Next::End => (old(self)@.state == State::Draining || old(self)@.state == State::Done)
                    && old(self)@.queue.len() == 0 && final(self)@ == (HandleV {
                    state: State::Done,
                    ..old(self)@
                }),
            },
    {
        if self.state == State::Flushing {
            return Next::Flush;
        }
        if self.queue.len() > 0 {
            let ghost q0 = self@.queue;
            let item = self.queue.remove(0);
            proof {
                assert(self@.queue =~= q0.skip(1));
            }
            if item.is_err() {
                self.state = State::Done;
            }
            return Next::Item(item);
        }
        if self.state == State::Pumping {
            return Next::Read;
        }
        self.state = State::Done;
        Next::End
    }
}

/// The warnings that the first `n` items carry.
pub open spec fn queued_warnings(q: Seq<ItemV>, n: nat) -> Seq<ConversionWarningV>
    decreases n,
{
    if n == 0 || n > q.len() {
        Seq::empty()
    } else {
        let prev = queued_warnings(q, (n - 1) as nat);
        match q[n - 1] {
            Ok(i) => prev + i.warnings,
            Err(_) => prev,
        }
    }
}

/// The warnings of a handle: those in its queue, then those that wait.
pub open spec fn all_warnings<S>(h: HandleV<S>) -> Seq<ConversionWarningV> {
    queued_warnings(h.queue, h.queue.len()) + h.pending
}

proof fn queued_prefix(a: Seq<ItemV>, b: Seq<ItemV>, n: nat)
    requires
        n <= a.len(),
    ensures
        queued_warnings(a + b, n) == queued_warnings(a, n),
    decreases n,
{
    if n > 0 {
        queued_prefix(a, b, (n - 1) as nat);
        assert((a + b)[n - 1] == a[n - 1]);
    }
}

proof fn queued_items(
    q: Seq<ItemV>,
    events: Seq<StreamEventV>,
    carried: Seq<ConversionWarningV>,
    raw: Option<Seq<char>>,
    include_raw: bool,
    n: nat,
)
    requires
        0 < n <= events.len(),
    ensures
        queued_warnings(q + items_of(events, carried, raw, include_raw), q.len() + n) == queued_warnings(q, q.len())
            + carried,
    decreases n,
{
    let items = items_of(events, carried, raw, include_raw);
    let all = q + items;
    assert(all[q.len() + n - 1] == items[n - 1]);
    if n == 1 {
        queued_prefix(q, items, q.len());
    } else {
        queued_items(q, events, carried, raw, include_raw, (n - 1) as nat);
        let prev = queued_warnings(q, q.len()) + carried;
        assert(prev + Seq::<ConversionWarningV>::empty() =~= prev);
    }
}

/// No warning is lost, repeated or reordered when the events of a parse are
/// queued.
pub proof fn emitting_keeps_every_warning<S>(
    h: HandleV<S>,
    events: Seq<StreamEventV>,
    ws: Seq<ConversionWarningV>,
    raw: Option<Seq<char>>,
)
    ensures
        all_warnings(emitted(h, events, ws, raw)) == all_warnings(h) + ws,
{
    let q = h.queue;
    let carried = h.pending + ws;
    if events.len() > 0 {
        queued_items(q, events, carried, raw, h.include_raw, events.len());
        let items = items_of(events, carried, raw, h.include_raw);
        assert((q + items).len() == q.len() + events.len());
        assert(all_warnings(emitted(h, events, ws, raw)) =~= queued_warnings(q, q.len()) + carried);
    }
    assert(all_warnings(emitted(h, events, ws, raw)) =~= all_warnings(h) + ws);
}

/// No warning is lost at the end of the body.
pub proof fn carrying_out_keeps_every_warning<S>(h: HandleV<S>)
    ensures
        all_warnings(carried_out(h)) == all_warnings(h),
{
    if h.state != State::Draining && h.pending.len() > 0 {
        let last = seq![ItemV::Ok(StreamItemV { event: StreamEventV::Unknown, raw: None, warnings: h.pending })];
        queued_prefix(h.queue, last, h.queue.len());
        assert(h.queue + last =~= carried_out(h).queue);
        assert(all_warnings(carried_out(h)) =~= all_warnings(h));
    }
}

/// The queue holds no error.
pub open spec fn clean<S>(h: HandleV<S>) -> bool {
    forall|i: int| 0 <= i < h.queue.len() ==> (#[trigger] h.queue[i]) is Ok
}

/// Once the terminator was seen the handle stays terminal and no event can
/// make it fail.
pub proof fn feeding_after_the_terminator_is_clean<P: StreamParser>(h: HandleV<P::V>, events: Seq<SseEventV>, n: nat)
    requires
        n <= events.len(),
        h.terminal,
        clean(h),
    ensures
        match fed::<P>(h, events, n) {
            Ok(r) => r.terminal && clean(r) && r.state == h.state,
            Err((r, _)) => r.terminal && clean(r) && r.state == h.state,
        },
    decreases n,
{
    if n > 0 {
        feeding_after_the_terminator_is_clean::<P>(h, events, (n - 1) as nat);
        match fed::<P>(h, events, (n - 1) as nat) {
            Ok(p) => match P::parsed(p.parser, events[n - 1]) {
                Ok((evs, ws, st)) => {
                    let r = emitted(HandleV { parser: st, ..p }, evs, ws, Some(events[n - 1].data));
                    assert forall|i: int| 0 <= i < r.queue.len() implies (#[trigger] r.queue[i]) is Ok by {
                        if i < p.queue.len() {
                            assert(p.queue[i] is Ok);
                        }
                    }
                },
                Err(_) => {},
            },
            Err(_) => {},
        }
    }
}

/// A complete response stands: whatever happens to a stream after its
/// terminator, the reader gets no error.
pub proof fn no_failure_after_the_terminator<P: StreamParser>(
    h: HandleV<P::V>,
    events: Seq<SseEventV>,
    error: Option<ErrorV>,
    out: HandleV<P::V>,
)
    requires
        h.terminal,
        h.state != State::Draining,
        clean(h),
        pumped::<P>(h, events, error, out) || body_ended::<P>(h, events, error, out),
    ensures
        clean(out),
        out.terminal,
{
    feeding_after_the_terminator_is_clean::<P>(h, events, events.len());
    if pumped::<P>(h, events, error, out) {
    } else {
        let (a, b) = choose|a: HandleV<P::V>, b: HandleV<P::V>|
            #![trigger flushed::<P>(h, events, error, a), parser_finished::<P>(a, b)]
            flushed::<P>(h, events, error, a) && parser_finished::<P>(a, b) && out == carried_out(b);
        assert(clean(a) && a.terminal && a.state == h.state);
        match P::finished(a.parser) {
            Ok((evs, ws, st)) => {
                let r = emitted(HandleV { parser: st, ..a }, evs, ws, None);
                assert forall|i: int| 0 <= i < r.queue.len() implies (#[trigger] r.queue[i]) is Ok by {
                    if i < a.queue.len() {
                        assert(a.queue[i] is Ok);
                    }
                }
            },
            Err(_) => {},
        }
        assert(clean(b) && b.terminal);
    }
}

/// An error can only stand last in the queue, and then the stream only serves
/// what is queued; a finished stream has nothing queued.
pub open spec fn error_comes_last<S>(h: HandleV<S>) -> bool {
    &&& forall|i: int| 0 <= i < h.queue.len() - 1 ==> (#[trigger] h.queue[i]) is Ok
    &&& h.queue.len() > 0 && h.queue.last() is Err ==> h.state == State::Draining
    &&& h.state == State::Done ==> h.queue.len() == 0
}

/// The handle after the first queued item was handed out.
pub open spec fn item_taken<S>(h: HandleV<S>) -> HandleV<S> {
    HandleV {
        queue: h.queue.skip(1),
        state: if h.queue[0] is Err { State::Done } else { h.state },
        ..h
    }
}

proof fn feeding_is_clean<P: StreamParser>(h: HandleV<P::V>, events: Seq<SseEventV>, n: nat)
    requires
        n <= events.len(),
        clean(h),
    ensures
        match fed::<P>(h, events, n) {
            Ok(r) => clean(r) && r.state == h.state,
            Err((r, _)) => clean(r) && r.state == h.state,
        },
    decreases n,
{
    if n > 0 {
        feeding_is_clean::<P>(h, events, (n - 1) as nat);
        match fed::<P>(h, events, (n - 1) as nat) {
            Ok(p) => match P::parsed(p.parser, events[n - 1]) {
                Ok((evs, ws, st)) => {
                    emitting_is_clean(HandleV { parser: st, ..p }, evs, ws, Some(events[n - 1].data));
                },
                Err(_) => {},
            },
            Err(_) => {},
        }
    }
}

proof fn emitting_is_clean<S>(
    h: HandleV<S>,
    events: Seq<StreamEventV>,
    ws: Seq<ConversionWarningV>,
    raw: Option<Seq<char>>,
)
    requires
        clean(h),
    ensures
        clean(emitted(h, events, ws, raw)),
        emitted(h, events, ws, raw).state == h.state,
{
    let r = emitted(h, events, ws, raw);
    assert forall|i: int| 0 <= i < r.queue.len() implies (#[trigger] r.queue[i]) is Ok by {
        if i < h.queue.len() {
            assert(h.queue[i] is Ok);
        }
    }
}

proof fn reading_is_clean<S>(h: HandleV<S>)
    requires
        error_comes_last(h),
        h.state != State::Draining,
    ensures
        clean(h),
{
    assert forall|i: int| 0 <= i < h.queue.len() implies (#[trigger] h.queue[i]) is Ok by {
        if i == h.queue.len() - 1 {
            assert(h.queue.last() is Ok);
        }
    }
}

/// Whatever comes of the body while it is read, or at its end, an error can
/// only be the last item.
pub proof fn the_body_adds_one_error_at_most<P: StreamParser>(
    h: HandleV<P::V>,
    events: Seq<SseEventV>,
    error: Option<ErrorV>,
    out: HandleV<P::V>,
)
    requires
        error_comes_last(h),
        (h.state == State::Pumping && pumped::<P>(h, events, error, out)) || (h.state == State::Flushing
            && body_ended::<P>(h, events, error, out)),
    ensures
        error_comes_last(out),
{
    reading_is_clean(h);
    feeding_is_clean::<P>(h, events, events.len());
    if h.state == State::Pumping {
    } else {
        let (a, b) = choose|a: HandleV<P::V>, b: HandleV<P::V>|
            #![trigger flushed::<P>(h, events, error, a), parser_finished::<P>(a, b)]
            flushed::<P>(h, events, error, a) && parser_finished::<P>(a, b) && out == carried_out(b);
        assert(error_comes_last(a));
        if a.state != State::Draining {
            reading_is_clean(a);
            match P::finished(a.parser) {
                Ok((evs, ws, st)) => {
                    emitting_is_clean(HandleV { parser: st, ..a }, evs, ws, None);
                },
                Err(_) => {},
            }
        }
        assert(error_comes_last(b));
        if b.state != State::Draining {
            reading_is_clean(b);
        }
    }
}

/// A failing transport is such an error too, and the end of the body is none.
pub proof fn the_transport_adds_one_error_at_most<S>(h: HandleV<S>, e: ErrorV)
    requires
        error_comes_last(h),
        h.state == State::Pumping,
    ensures
        error_comes_last(pump_failed(h, e)),
        error_comes_last(HandleV { state: State::Flushing, ..h }),
{
    reading_is_clean(h);
}

/// A stream yields at most one error, and then only its end: handing out an
/// item keeps the order, and behind an error nothing is queued and the stream
/// is finished.
pub proof fn an_error_is_the_last_item<S>(h: HandleV<S>)
    requires
        error_comes_last(h),
        h.queue.len() > 0,
    ensures
        error_comes_last(item_taken(h)),
        h.queue[0] is Err ==> item_taken(h).queue.len() == 0 && item_taken(h).state == State::Done,
{
    let r = item_taken(h);
    assert forall|i: int| 0 <= i < r.queue.len() - 1 implies (#[trigger] r.queue[i]) is Ok by {
        assert(h.queue[i + 1] is Ok);
    }
    if r.queue.len() > 0 {
        assert(r.queue.last() == h.queue.last());
    }
    if h.queue[0] is Err {
        assert(h.queue.len() == 1);
    }
}

} // verus!
