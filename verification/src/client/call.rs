//! The decisions of a call: merged options, headers, authentication, capped
//! bodies, pagination and warnings.

use vstd::prelude::*;
use crate::client::config::{AuthHeader, CallOptions, EndpointConfig, Override, ProviderConfig};
use crate::convert::gate::{escalated, escalates, strict_gate};
use crate::convert::warnings::warning;
use crate::convert::{ConversionDirection, ConversionWarning, ConversionWarningV, ConvertOptions, WarningCode};
use crate::error::{BodyKind, ConversionError, ConversionErrorV, Error, ErrorV};
use crate::headers::{clone_headers, header_count, header_room, header_values, headers_full, layer_headers, layered};
use crate::model::{dup_vec, group_views, opt_view, views, Dup};
use crate::request::AuthScheme;
use crate::response::{Response, ResponseV};
use crate::text::{cat3, dec_usize, decimal, str_eq};
use crate::url::EndpointUrl;

verus! {

broadcast use group_views;

/// The options that a call runs with.
#[derive(Debug)]
pub struct EffectiveOptions<'a, H> {
    pub model: String,
    pub convert: ConvertOptions,
    pub hooks: &'a H,
    /// Query parameters of the provider, then of the call.
    pub extra_query: Vec<(String, String)>,
}

/// Merges the options of a call with those of its provider: model, conversion
/// and hooks of the call replace those of the provider, query parameters
/// stack.
pub fn effective_options<'a, F, H, K>(
    provider: &'a ProviderConfig<F, H, K>,
    opts: &'a CallOptions<H>,
) -> (r: EffectiveOptions<'a, H>)
    ensures
        r.model@ == match opts.model {
            Some(m) => m@,
            None => provider.model@,
        },
        r.convert@ == match opts.convert {
            Some(c) => c@,
            None => provider.convert@,
        },
        *r.hooks == match opts.hooks {
            Some(h) => h,
            None => provider.hooks,
        },
        views(r.extra_query@) == views(provider.extra_query@) + views(opts.extra_query@),
{
    let mut query = dup_vec(&provider.extra_query);
    let mut more = dup_vec(&opts.extra_query);
    let ghost a = views(query@);
    let ghost b = views(more@);
    query.append(&mut more);
    proof {
        assert(views(query@) =~= a + b);
    }
    EffectiveOptions {
        model: match &opts.model {
            Some(m) => m.clone(),
            None => provider.model.clone(),
        },
        convert: match &opts.convert {
            Some(c) => c.dup(),
            None => provider.convert.dup(),
        },
        hooks: match &opts.hooks {
            Some(h) => h,
            None => &provider.hooks,
        },
        extra_query: query,
    }
}

/// The status is 2xx.
pub open spec fn success(status: u16) -> bool {
    200 <= status < 300
}

/// `true` for a 2xx status.
pub fn is_success(status: u16) -> (r: bool)
    ensures
        r == success(status),
{
    status >= 200 && status < 300
}

/// The values of one header after all layers: those of the call, else of the
/// endpoint, else of the provider unless the endpoint dropped them, else of
/// the format.
pub open spec fn layered_values(
    format: Seq<Seq<u8>>,
    provider: Seq<Seq<u8>>,
    endpoint: Override<Seq<Seq<u8>>>,
    call: Seq<Seq<u8>>,
) -> Seq<Seq<u8>> {
    let v1 = match endpoint {
        Override::Disable => format,
        _ => layered(format, provider),
    };
    let v2 = match endpoint {
        Override::Replace(e) => layered(v1, e),
        _ => v1,
    };
    layered(v2, call)
}

/// The override of one header.
pub open spec fn override_values(o: Override<http::HeaderMap>, k: Seq<char>) -> Override<Seq<Seq<u8>>> {
    match o {
        Override::Inherit => Override::Inherit,
        Override::Replace(m) => Override::Replace(header_values(m, k)),
        Override::Disable => Override::Disable,
    }
}

/// Layers the headers of provider, endpoint and call over those of the
/// format. This fails only when the map is full, never with up to
/// `header_room()` values in all.
pub fn apply_header_layers(
    headers: &mut http::HeaderMap,
    provider_headers: &http::HeaderMap,
    endpoint_headers: &Override<http::HeaderMap>,
    call_headers: &http::HeaderMap,
) -> (r: Result<(), ConversionError>)
    ensures
        match r {
            Ok(_) => forall|k: Seq<char>| #[trigger]
                header_values(*final(headers), k) == layered_values(
                    header_values(*old(headers), k),
                    header_values(*provider_headers, k),
                    override_values(*endpoint_headers, k),
                    header_values(*call_headers, k),
                ),
            Err(e) => e@ == headers_full(),
        },
        header_count(*old(headers)) + header_count(*provider_headers) + (match *endpoint_headers {
            Override::Replace(m) => header_count(m),
            _ => 0,
        }) + header_count(*call_headers) <= header_room() ==> r is Ok,
{
    match endpoint_headers {
        Override::Disable => {},
        _ => match layer_headers(headers, provider_headers) {
            Ok(_) => {},
            Err(e) => {
                return Err(e);
            },
        },
    }
    match endpoint_headers {
        Override::Replace(map) => match layer_headers(headers, map) {
            Ok(_) => {},
            Err(e) => {
                return Err(e);
            },
        },
        _ => {},
    }
    layer_headers(headers, call_headers)
}

/// A resolved authentication header.
#[derive(Debug)]
pub struct ResolvedAuth<'a, K> {
    pub name: &'a String,
    pub prefix: Option<&'a String>,
    pub value: &'a K,
}

/// Resolves the authentication of a request: an endpoint that inherits sends
/// the key of the provider by the scheme of the format, where there are both;
/// otherwise its own header, or none.
pub fn resolve_auth<'a, K>(
    endpoint_auth: &'a Override<AuthHeader<K>>,
    scheme: Option<&'a AuthScheme>,
    key: Option<&'a K>,
) -> (r: Option<ResolvedAuth<'a, K>>)
    ensures
        match endpoint_auth {
            Override::Replace(h) => match r {
                Some(a) => a.name@ == h.name@ && opt_view(a.prefix) == opt_view(h.prefix) && *a.value == h.value,
                None => false,
            },
            Override::Disable => r is None,
            Override::Inherit => match (scheme, key) {
                (Some(s), Some(k)) => match r {
                    Some(a) => a.name@ == s@.header && opt_view(a.prefix) == s@.prefix && *a.value == *k,
                    None => false,
                },
                _ => r is None,
            },
        },
{
    match endpoint_auth {
        Override::Replace(h) => Some(
            ResolvedAuth { name: &h.name, prefix: h.prefix.as_ref(), value: &h.value },
        ),
        Override::Disable => None,
        Override::Inherit => match (scheme, key) {
            (Some(s), Some(k)) => Some(
                ResolvedAuth { name: &s.header, prefix: s.prefix.as_ref(), value: k },
            ),
            _ => None,
        },
    }
}

/// Resolves the endpoint of a secondary capability: its own, else the chat
/// endpoint if that has a base URL.
pub fn resolve_secondary_endpoint<'a, F, H, K>(
    provider: &'a ProviderConfig<F, H, K>,
    explicit: Option<&'a EndpointConfig<F, K>>,
    not_supported: &str,
) -> (r: Result<&'a EndpointConfig<F, K>, Error>)
    ensures
        match explicit {
            Some(e) => r == Ok::<&EndpointConfig<F, K>, Error>(e),
            None => match provider.chat.url {
                EndpointUrl::Base(_) => match r {
                    Ok(e) => *e == provider.chat,
                    Err(_) => false,
                },
                EndpointUrl::Full(_) => match r {
                    Ok(_) => false,
                    Err(e) => e@ == ErrorV::NotSupported(not_supported@),
                },
            },
        },
{
    if let Some(e) = explicit {
        return Ok(e);
    }
    match &provider.chat.url {
        EndpointUrl::Base(_) => Ok(&provider.chat),
        EndpointUrl::Full(_) => Err(Error::NotSupported(not_supported.to_owned())),
    }
}

/// How reading a capped body ended.
#[derive(Debug)]
pub enum BodyEnd {
    /// The body fit.
    Complete,
    /// The body is larger than the cap; what was read is exactly the cap.
    CapHit,
    /// The transport failed; what was read is a prefix.
    Failed(String),
}

/// A body that is being read up to a cap.
#[derive(Debug)]
pub struct CappedBody {
    pub buf: Vec<u8>,
    pub cap: usize,
    pub hit: bool,
}

/// What is kept of `all` under a cap.
pub open spec fn kept(all: Seq<u8>, cap: int) -> Seq<u8> {
    if all.len() > cap {
        all.take(cap)
    } else {
        all
    }
}

/// The chunks, one after the other.
pub open spec fn chunks_joined(chunks: Seq<Seq<u8>>, n: nat) -> Seq<u8>
    decreases n,
{
    if n == 0 || n > chunks.len() {
        Seq::empty()
    } else {
        chunks_joined(chunks, (n - 1) as nat) + chunks[n - 1]
    }
}

impl CappedBody {
    /// What was read fits the cap, and is exactly the cap once more came.
    pub open spec fn wf(self) -> bool {
        &&& self.buf@.len() <= self.cap
        &&& self.hit ==> self.buf@.len() == self.cap
    }

    /// This body holds `all`, capped.
    pub open spec fn holds(self, all: Seq<u8>) -> bool {
        &&& self.buf@ == kept(all, self.cap as int)
        &&& self.hit == (all.len() > self.cap)
    }

    /// Nothing read yet.
    pub fn new(cap: usize) -> (r: CappedBody)
        ensures
            r.wf(),
            r.cap == cap,
            r.holds(Seq::empty()),
    {
        let r = CappedBody { buf: Vec::new(), cap, hit: false };
        proof {
            assert(r.buf@ =~= Seq::<u8>::empty());
        }
        r
    }

    /// Takes in one chunk, never more of it than fits; `false` once the cap
    /// is hit.
    pub fn push(&mut self, chunk: &[u8]) -> (r: bool)
        requires
            old(self).wf(),
        ensures
            final(self).wf(),
            final(self).cap == old(self).cap,
            r == !final(self).hit,
            final(self).buf@ == kept(old(self).buf@ + chunk@, old(self).cap as int),
            final(self).hit == (old(self).hit || old(self).buf@.len() + chunk@.len() > old(self).cap),
    {
        let room = self.cap - self.buf.len();
        let ghost b0 = self.buf@;
        if chunk.len() > room {
            self.hit = true;
        }
        let n: usize = if chunk.len() > room { room } else { chunk.len() };
        let mut i: usize = 0;
        proof {
            assert(b0 + chunk@.take(0) =~= b0);
        }
        while i < n
            invariant
                i <= n <= chunk@.len(),
                self.buf@ == b0 + chunk@.take(i as int),
                self.cap == old(self).cap,
                self.hit == (old(self).hit || chunk@.len() > room),
                n <= room,
                room + b0.len() == self.cap,
            decreases n - i,
        {
            self.buf.push(chunk[i]);
            proof {
                assert(self.buf@ =~= b0 + chunk@.take(i + 1));
            }
            i += 1;
        }
        proof {
            assert(self.buf@ =~= kept(b0 + chunk@, old(self).cap as int));
        }
        !self.hit
    }

    /// The bytes that were read, and how reading ended: by itself, or with
    /// the failure of the transport.
    pub fn finish(self, failure: Option<String>) -> (r: (Vec<u8>, BodyEnd))
        ensures
            r.0 == self.buf,
            match r.1 {
                BodyEnd::CapHit => self.hit,
                BodyEnd::Failed(e) => !self.hit && failure == Some(e),
                BodyEnd::Complete => !self.hit && failure is None,
            },
    {
        if self.hit {
            (self.buf, BodyEnd::CapHit)
        } else {
            match failure {
                Some(e) => (self.buf, BodyEnd::Failed(e)),
                None => (self.buf, BodyEnd::Complete),
            }
        }
    }
}

/// Reading chunk by chunk keeps the same bytes as reading the whole at once:
/// after `n` chunks a body holds their concatenation, capped; one more chunk
/// continues it.
pub proof fn capped_chunks_are_a_prefix(chunks: Seq<Seq<u8>>, n: nat, before: CappedBody, after: CappedBody)
    requires
        n < chunks.len(),
        before.holds(chunks_joined(chunks, n)),
        after.cap == before.cap,
        after.buf@ == kept(before.buf@ + chunks[n as int], before.cap as int),
        after.hit == (before.hit || before.buf@.len() + chunks[n as int].len() > before.cap),
    ensures
        after.holds(chunks_joined(chunks, n + 1)),
{
    let all = chunks_joined(chunks, n);
    let next = chunks_joined(chunks, n + 1);
    assert(next == all + chunks[n as int]);
    if before.hit {
        assert(before.buf@ =~= all.take(before.cap as int));
        assert(kept(before.buf@ + chunks[n as int], before.cap as int) =~= before.buf@);
        assert(next.take(before.cap as int) =~= all.take(before.cap as int));
    }
    assert(after.buf@ =~= kept(next, after.cap as int));
}

/// The outcome of reading a 2xx body.
pub fn success_body(
    buf: Vec<u8>,
    end: BodyEnd,
    limit: usize,
    status: u16,
    headers: &http::HeaderMap,
) -> (r: Result<Vec<u8>, Error>)
    ensures
        match end {
            BodyEnd::Complete => r == Ok::<Vec<u8>, Error>(buf),
            BodyEnd::CapHit => match r {
                Ok(_) => false,
                Err(e) => e@ == (ErrorV::BodyTooLarge {
                    kind: BodyKind::SuccessBody,
                    limit,
                    status: Some(status),
                    headers: Some(*headers),
                    prefix: buf@,
                }),
            },
            BodyEnd::Failed(t) => match r {
                Ok(_) => false,
                Err(e) => e@ == ErrorV::Transport(t@),
            },
        },
{
    match end {
        BodyEnd::Complete => Ok(buf),
        BodyEnd::CapHit => Err(
            Error::BodyTooLarge {
                kind: BodyKind::SuccessBody,
                limit,
                status: Some(status),
                headers: Some(clone_headers(headers)),
                prefix: buf,
            },
        ),
        BodyEnd::Failed(t) => Err(Error::Transport(t)),
    }
}

/// The error of a response of which only a prefix was read.
pub open spec fn truncated_error(e: ErrorV, prefix: Seq<u8>) -> ErrorV {
    match e {
        ErrorV::Api { status, kind, message, raw, truncated, parsed, retry_after, headers } => ErrorV::Api {
            status,
            kind,
            message,
            raw: prefix,
            truncated: true,
            parsed,
            retry_after,
            headers,
        },
        _ => e,
    }
}

/// Completes the error that a format made of a non-2xx body: when only a
/// prefix was read, the error says so and carries the prefix.
pub fn error_from_body(error: Error, buf: Vec<u8>, end: &BodyEnd) -> (r: Error)
    ensures
        r@ == match end {
            BodyEnd::Complete => error@,
            _ => truncated_error(error@, buf@),
        },
{
    match end {
        BodyEnd::Complete => error,
        _ => match error {
            Error::Api { status, kind, message, raw: _, truncated: _, parsed, retry_after, headers } => Error::Api {
                status,
                kind,
                message,
                raw: buf,
                truncated: true,
                parsed,
                retry_after,
                headers,
            },
            other => other,
        },
    }
}

/// The pages of a model list that were read.
#[derive(Debug)]
pub struct Pages {
    /// Cursors that were followed.
    pub seen: Vec<String>,
    /// Pages read.
    pub count: usize,
}

/// The outcome of a page: the cursor of the next one, or the end.
pub open spec fn next_page(
    seen: Seq<Seq<char>>,
    count: nat,
    max: nat,
    next: Option<Seq<char>>,
    raw: Seq<u8>,
) -> Result<Option<Seq<char>>, ErrorV> {
    match next {
        None => Ok(None),
        Some(c) => if count + 1 >= max {
            Err(
                ErrorV::Parse {
                    message: "malformed pagination: exceeded "@ + decimal(max) + " pages without an end"@,
                    raw,
                },
            )
        } else if seen.contains(c) {
            Err(
                ErrorV::Parse {
                    message: "malformed pagination: cursor `"@ + c + "` was already seen"@,
                    raw,
                },
            )
        } else {
            Ok(Some(c))
        },
    }
}

impl Pages {
    /// No page read.
    pub fn new() -> (r: Pages)
        ensures
            views(r.seen@) == Seq::<Seq<char>>::empty(),
            r.count == 0,
    {
        let r = Pages { seen: Vec::new(), count: 0 };
        proof {
            assert(views(r.seen@) =~= Seq::<Seq<char>>::empty());
        }
        r
    }

    /// Notes one page, whose body was `raw` and whose successor is `next`.
    /// A cursor that was followed before, or too many pages, end the listing
    /// with an error.
    pub fn advance(&mut self, next: Option<String>, max: usize, raw: &[u8]) -> (r: Result<Option<String>, Error>)
        requires
            old(self).count < usize::MAX,
        ensures
            final(self).count == old(self).count + 1,
            match r {
                Ok(c) => next_page(views(old(self).seen@), old(self).count as nat, max as nat, opt_view(next), raw@)
                    == Ok::<Option<Seq<char>>, ErrorV>(opt_view(c)),
                Err(e) => next_page(views(old(self).seen@), old(self).count as nat, max as nat, opt_view(next), raw@)
                    == Err::<Option<Seq<char>>, ErrorV>(e@),
            },
            views(final(self).seen@) == match r {
                Ok(Some(c)) => views(old(self).seen@).push(c@),
                _ => views(old(self).seen@),
            },
    {
        self.count = self.count + 1;
        let c = match next {
            None => {
                return Ok(None);
            },
            Some(c) => c,
        };
        if self.count >= max {
            return Err(
                Error::parse(
                    cat3(
                        "malformed pagination: exceeded ",
                        dec_usize(max).as_str(),
                        " pages without an end",
                    ).as_str(),
                    raw,
                ),
            );
        }
        let mut i: usize = 0;
        while i < self.seen.len()
            invariant
                i <= self.seen@.len(),
                self.seen == old(self).seen,
                self.count == old(self).count + 1,
                self.count < max,
                opt_view(next) == Some(c@),
                forall|k: int| 0 <= k < i ==> (#[trigger] views(self.seen@)[k]) != c@,
            decreases self.seen@.len() - i,
        {
            proof {
                assert(views(self.seen@)[i as int] == self.seen@[i as int]@);
            }
            if str_eq(self.seen[i].as_str(), c.as_str()) {
                return Err(
                    Error::parse(
                        cat3("malformed pagination: cursor `", c.as_str(), "` was already seen").as_str(),
                        raw,
                    ),
                );
            }
            i += 1;
        }
        self.seen.push(c.clone());
        Ok(Some(c))
    }
}

/// The warnings of a build, then those of the parse.
pub fn prepend_warnings(build: Vec<ConversionWarning>, response: Response) -> (r: Response)
    ensures
        r@ == (ResponseV { warnings: views(build@) + response@.warnings, ..response@ }),
{
    let ghost a = views(build@);
    let ghost b = response@.warnings;
    let mut all = build;
    let mut response = response;
    all.append(&mut response.warnings);
    proof {
        assert(views(all@) =~= a + b);
    }
    response.warnings = all;
    response
}

/// The warning about a count by another format than that of the chat.
pub open spec fn approximate(format: Seq<char>) -> ConversionWarningV {
    warning(
        WarningCode::CountTokensApproximate,
        format,
        ConversionDirection::ToFormat,
        Seq::empty(),
        "token counting uses a format decoupled from the chat format; the result is an approximation"@,
    )
}

fn approximate_warning(format: &str) -> (r: ConversionWarning)
    ensures
        r@ == approximate(format@),
{
    proof {
        reveal_strlit("");
        assert(""@ =~= Seq::<char>::empty());
    }
    ConversionWarning::to_format(
        WarningCode::CountTokensApproximate,
        format,
        "",
        "token counting uses a format decoupled from the chat format; the result is an approximation",
    )
}

/// Under `strict` a count by another format fails before anything is sent.
pub fn check_count_format(strict: bool, decoupled: bool, format: &str) -> (r: Result<(), ConversionError>)
    ensures
        match r {
            Ok(_) => !(strict && decoupled),
            Err(e) => strict && decoupled && e@ == (ConversionErrorV::Strict {
                warnings: seq![approximate(format@)],
            }),
        },
{
    if !decoupled {
        return Ok(());
    }
    let mut ws: Vec<ConversionWarning> = Vec::new();
    ws.push(approximate_warning(format));
    let ghost a = seq![approximate(format@)];
    proof {
        assert(views(ws@) =~= a);
        assert(escalates(a[0]));
        assert(escalated(a, 0) =~= Seq::<ConversionWarningV>::empty());
        assert(escalated(a, 1) =~= a);
    }
    strict_gate(strict, ws.as_slice())
}

/// The warnings of a count: those of the build, that about the format, those
/// of the parse.
pub fn count_warnings(
    build: Vec<ConversionWarning>,
    decoupled: bool,
    format: &str,
    parse: Vec<ConversionWarning>,
) -> (r: Vec<ConversionWarning>)
    ensures
        views(r@) == views(build@) + (if decoupled { seq![approximate(format@)] } else { Seq::empty() }) + views(
            parse@,
        ),
{
    let ghost a = views(build@);
    let ghost b = views(parse@);
    let mut all = build;
    if decoupled {
        all.push(approximate_warning(format));
    }
    let ghost mid = views(all@);
    let mut parse = parse;
    all.append(&mut parse);
    proof {
        assert(mid =~= a + (if decoupled { seq![approximate(format@)] } else { Seq::empty() }));
        assert(views(all@) =~= mid + b);
    }
    all
}

/// The format that counts is not that of the chat: neither the same one nor
/// one of the same id.
pub fn is_decoupled(same_format: bool, count_id: &str, chat_id: &str) -> (r: bool)
    ensures
        r == (!same_format && count_id@ != chat_id@),
{
    !same_format && !str_eq(count_id, chat_id)
}

/// No layer can remove a header that the format sets: a layer can only put
/// other values in its place.
pub proof fn format_headers_are_not_removable(
    format: Seq<Seq<u8>>,
    provider: Seq<Seq<u8>>,
    endpoint: Override<Seq<Seq<u8>>>,
    call: Seq<Seq<u8>>,
)
    requires
        format.len() > 0,
    ensures
        layered_values(format, provider, endpoint, call).len() > 0,
{
}

/// The innermost layer that sets a header decides its values: the call, then
/// the endpoint, then the provider, then the format. An endpoint that disables
/// its layer takes the provider's headers out, too.
pub proof fn inner_headers_win(
    format: Seq<Seq<u8>>,
    provider: Seq<Seq<u8>>,
    endpoint: Override<Seq<Seq<u8>>>,
    call: Seq<Seq<u8>>,
)
    ensures
        call.len() > 0 ==> layered_values(format, provider, endpoint, call) == call,
        call.len() == 0 ==> match endpoint {
            Override::Disable => layered_values(format, provider, endpoint, call) == format,
            Override::Replace(e) => e.len() > 0 ==> layered_values(format, provider, endpoint, call) == e,
            Override::Inherit => layered_values(format, provider, endpoint, call) == layered(format, provider),
        },
{
}

} // verus!
