//! Client configuration: providers, endpoints, per-call options and limits.

use vstd::prelude::*;
use crate::convert::ConvertOptions;
use crate::convert::options::lenient_options;
use crate::error::Error;
use crate::format::{default_format_options, FormatOptions};
use crate::headers::{append_owned, header_bytes, header_count, header_name, header_room, header_values, no_headers};
use crate::model::group_views;
use crate::url::{base_endpoint, EndpointUrl};

verus! {

broadcast use group_views;

/// A setting of an endpoint over that of the surrounding layer.
#[derive(Clone, Debug, PartialEq, Eq)]
pub enum Override<T> {
    /// Use the surrounding value.
    Inherit,
    /// Replace it.
    Replace(T),
    /// Turn the setting off.
    Disable,
}

impl<T> Default for Override<T> {
    fn default() -> (r: Self)
        ensures
            r is Inherit,
    {
        Override::Inherit
    }
}

/// A header that carries the API key.
#[derive(Debug)]
pub struct AuthHeader<K> {
    /// Header name, in lower case.
    pub name: String,
    /// Prefix of the value.
    pub prefix: Option<String>,
    /// The key.
    pub value: K,
}

/// Where and how one capability is served, by format `F` with keys `K`.
#[derive(Debug)]
pub struct EndpointConfig<F, K> {
    pub format: F,
    pub url: EndpointUrl,
    /// Inherits the key of the provider, sends the given header, or none.
    pub auth: Override<AuthHeader<K>>,
    /// Inherits the headers of the provider, layers more on them, or drops
    /// them.
    pub headers: Override<http::HeaderMap>,
}

impl<F, K> EndpointConfig<F, K> {
    /// An endpoint that inherits.
    pub fn new(format: F, url: EndpointUrl) -> (r: EndpointConfig<F, K>)
        ensures
            r.format == format,
            r.url == url,
            r.auth is Inherit,
            r.headers is Inherit,
    {
        EndpointConfig { format, url, auth: Override::Inherit, headers: Override::Inherit }
    }

    /// Sets the auth override.
    pub fn with_auth(self, auth: Override<AuthHeader<K>>) -> (r: EndpointConfig<F, K>)
        ensures
            r == (EndpointConfig { auth, ..self }),
    {
        let mut r = self;
        r.auth = auth;
        r
    }

    /// Sets the header override.
    pub fn with_headers(self, headers: Override<http::HeaderMap>) -> (r: EndpointConfig<F, K>)
        ensures
            r == (EndpointConfig { headers, ..self }),
    {
        let mut r = self;
        r.headers = headers;
        r
    }
}

/// Size caps, in bytes and in pages.
#[derive(Clone, Copy, Debug, PartialEq, Eq, Structural)]
pub struct Limits {
    /// Cap on a 2xx body.
    pub max_response_body: usize,
    /// Cap on a non-2xx body.
    pub max_error_body: usize,
    /// Cap on one SSE event.
    pub max_sse_event: usize,
    /// Cap on the pages of a model list.
    pub max_model_pages: usize,
}

impl Limits {
    /// Default cap on a 2xx body: 256 MiB.
    pub const DEFAULT_MAX_RESPONSE_BODY: usize = 268435456;

    /// Default cap on a non-2xx body: 8 MiB.
    pub const DEFAULT_MAX_ERROR_BODY: usize = 8388608;

    /// Default cap on one SSE event: 64 MiB.
    pub const DEFAULT_MAX_SSE_EVENT: usize = 67108864;

    /// Default cap on the pages of a model list.
    pub const DEFAULT_MAX_MODEL_PAGES: usize = 1000;

    /// The default limits.
    pub fn new() -> (r: Limits)
        ensures
            r == default_limits(),
    {
        Limits {
            max_response_body: Limits::DEFAULT_MAX_RESPONSE_BODY,
            max_error_body: Limits::DEFAULT_MAX_ERROR_BODY,
            max_sse_event: Limits::DEFAULT_MAX_SSE_EVENT,
            max_model_pages: Limits::DEFAULT_MAX_MODEL_PAGES,
        }
    }

    /// Sets the cap on a 2xx body.
    pub fn with_max_response_body(self, bytes: usize) -> (r: Limits)
        ensures
            r == (Limits { max_response_body: bytes, ..self }),
    {
        Limits { max_response_body: bytes, ..self }
    }

    /// Sets the cap on a non-2xx body.
    pub fn with_max_error_body(self, bytes: usize) -> (r: Limits)
        ensures
            r == (Limits { max_error_body: bytes, ..self }),
    {
        Limits { max_error_body: bytes, ..self }
    }

    /// Sets the cap on one SSE event.
    pub fn with_max_sse_event(self, bytes: usize) -> (r: Limits)
        ensures
            r == (Limits { max_sse_event: bytes, ..self }),
    {
        Limits { max_sse_event: bytes, ..self }
    }

    /// Sets the cap on the pages of a model list.
    pub fn with_max_model_pages(self, pages: usize) -> (r: Limits)
        ensures
            r == (Limits { max_model_pages: pages, ..self }),
    {
        Limits { max_model_pages: pages, ..self }
    }
}

/// The default limits.
pub open spec fn default_limits() -> Limits {
    Limits {
        max_response_body: (256 * 1024 * 1024) as usize,
        max_error_body: (8 * 1024 * 1024) as usize,
        max_sse_event: (64 * 1024 * 1024) as usize,
        max_model_pages: 1000,
    }
}

impl Default for Limits {
    fn default() -> (r: Self)
        ensures
            r == default_limits(),
    {
        Limits::new()
    }
}

/// One provider, with formats `F`, hooks `H` and keys `K`.
#[derive(Debug)]
pub struct ProviderConfig<F, H, K> {
    /// Default model.
    pub model: String,
    /// API key; none sends no auth header.
    pub auth: Option<K>,
    /// Headers over those of the format.
    pub extra_headers: http::HeaderMap,
    /// Query parameters of every call.
    pub extra_query: Vec<(String, String)>,
    /// Conversion options.
    pub convert: ConvertOptions,
    /// Per-format options.
    pub format_options: FormatOptions,
    /// Size caps.
    pub limits: Limits,
    /// Request hooks.
    pub hooks: H,
    /// The chat endpoint.
    pub chat: EndpointConfig<F, K>,
    /// The model-listing endpoint.
    pub models: Option<EndpointConfig<F, K>>,
    /// The token-counting endpoint.
    pub count_tokens: Option<EndpointConfig<F, K>>,
}

impl<F, H, K> ProviderConfig<F, H, K> {
    /// One format, one base URL, one model.
    pub fn new(format: F, base_url: &str, model: &str, hooks: H) -> (r: Result<ProviderConfig<F, H, K>, Error>)
        ensures
            match base_endpoint(base_url@) {
                Err(e) => match r {
                    Ok(_) => false,
                    Err(x) => x@ == e,
                },
                Ok(u) => match r {
                    Ok(p) => p.chat.url@ == u && p.chat.format == format && p.chat.auth is Inherit
                        && p.chat.headers is Inherit && p.model@ == model@ && p.hooks == hooks && p.is_plain(),
                    Err(_) => false,
                },
            },
    {
        match EndpointUrl::base(base_url) {
            Err(e) => Err(e),
            Ok(u) => Ok(ProviderConfig::from_endpoint(EndpointConfig::new(format, u), model, hooks)),
        }
    }

    /// Nothing but endpoint, model and hooks is configured.
    pub open spec fn is_plain(self) -> bool {
        &&& self.auth is None
        &&& forall|k: Seq<char>| #[trigger] header_values(self.extra_headers, k).len() == 0
        &&& self.extra_query@.len() == 0
        &&& self.convert@ == lenient_options()
        &&& self.format_options@ == default_format_options()
        &&& self.limits == default_limits()
        &&& self.models is None
        &&& self.count_tokens is None
    }

    /// A provider from its chat endpoint.
    pub fn from_endpoint(chat: EndpointConfig<F, K>, model: &str, hooks: H) -> (r: ProviderConfig<F, H, K>)
        ensures
            r.chat == chat,
            r.model@ == model@,
            r.hooks == hooks,
            r.is_plain(),
    {
        ProviderConfig {
            model: model.to_owned(),
            auth: None,
            extra_headers: no_headers(),
            extra_query: Vec::new(),
            convert: ConvertOptions::new(),
            format_options: FormatOptions::default(),
            limits: Limits::new(),
            hooks,
            chat,
            models: None,
            count_tokens: None,
        }
    }

    /// Sets the API key.
    pub fn with_auth(self, key: K) -> (r: ProviderConfig<F, H, K>)
        ensures
            r == (ProviderConfig { auth: Some(key), ..self }),
    {
        let mut r = self;
        r.auth = Some(key);
        r
    }

    /// Sets the default model.
    pub fn with_model(self, model: String) -> (r: ProviderConfig<F, H, K>)
        ensures
            r == (ProviderConfig { model, ..self }),
    {
        let mut r = self;
        r.model = model;
        r
    }

    /// Sets the conversion options.
    pub fn with_convert(self, convert: ConvertOptions) -> (r: ProviderConfig<F, H, K>)
        ensures
            r == (ProviderConfig { convert, ..self }),
    {
        let mut r = self;
        r.convert = convert;
        r
    }

    /// Sets the per-format options.
    pub fn with_format_options(self, options: FormatOptions) -> (r: ProviderConfig<F, H, K>)
        ensures
            r == (ProviderConfig { format_options: options, ..self }),
    {
        let mut r = self;
        r.format_options = options;
        r
    }

    /// Sets the size caps.
    pub fn with_limits(self, limits: Limits) -> (r: ProviderConfig<F, H, K>)
        ensures
            r == (ProviderConfig { limits, ..self }),
    {
        let mut r = self;
        r.limits = limits;
        r
    }

    /// Sets the request hooks.
    pub fn with_hooks(self, hooks: H) -> (r: ProviderConfig<F, H, K>)
        ensures
            r == (ProviderConfig { hooks, ..self }),
    {
        let mut r = self;
        r.hooks = hooks;
        r
    }

    /// Appends one header; `Err` hands the provider back when it has no room
    /// for one more, which never happens below `header_room()` values.
    pub fn with_header(self, name: &http::HeaderName, value: &http::HeaderValue) -> (r: Result<
        ProviderConfig<F, H, K>,
        ProviderConfig<F, H, K>,
    >)
        ensures
            match r {
                Ok(p) => p == (ProviderConfig { extra_headers: p.extra_headers, ..self })
                    && forall|k: Seq<char>| #[trigger]
                    header_values(p.extra_headers, k) == if k == header_name(*name) {
                        header_values(self.extra_headers, k).push(header_bytes(*value))
                    } else {
                        header_values(self.extra_headers, k)
                    },
                Err(p) => p == (ProviderConfig { extra_headers: p.extra_headers, ..self })
                    && forall|k: Seq<char>| #[trigger]
                    header_values(p.extra_headers, k) == header_values(self.extra_headers, k),
            },
            header_count(self.extra_headers) < header_room() ==> r is Ok,
            match r {
                Ok(p) => header_count(p.extra_headers) <= header_count(self.extra_headers) + 1,
                Err(p) => header_count(p.extra_headers) <= header_count(self.extra_headers) + 1,
            },
    {
        let mut r = self;
        let (headers, room) = append_owned(r.extra_headers, name, value);
        r.extra_headers = headers;
        if room {
            Ok(r)
        } else {
            Err(r)
        }
    }

    /// Replaces the extra headers.
    pub fn with_extra_headers(self, headers: http::HeaderMap) -> (r: ProviderConfig<F, H, K>)
        ensures
            r == (ProviderConfig { extra_headers: headers, ..self }),
    {
        let mut r = self;
        r.extra_headers = headers;
        r
    }

    /// Appends one query parameter.
    pub fn with_query(self, key: String, value: String) -> (r: ProviderConfig<F, H, K>)
        ensures
            r == (ProviderConfig { extra_query: r.extra_query, ..self }),
            r.extra_query@ == self.extra_query@.push((key, value)),
    {
        let mut r = self;
        r.extra_query.push((key, value));
        r
    }

    /// Replaces the query parameters.
    pub fn with_extra_query(self, query: Vec<(String, String)>) -> (r: ProviderConfig<F, H, K>)
        ensures
            r == (ProviderConfig { extra_query: query, ..self }),
    {
        let mut r = self;
        r.extra_query = query;
        r
    }

    /// Sets the model-listing endpoint.
    pub fn with_models_endpoint(self, endpoint: EndpointConfig<F, K>) -> (r: ProviderConfig<F, H, K>)
        ensures
            r == (ProviderConfig { models: Some(endpoint), ..self }),
    {
        let mut r = self;
        r.models = Some(endpoint);
        r
    }

    /// Sets the token-counting endpoint.
    pub fn with_count_tokens_endpoint(self, endpoint: EndpointConfig<F, K>) -> (r: ProviderConfig<F, H, K>)
        ensures
            r == (ProviderConfig { count_tokens: Some(endpoint), ..self }),
    {
        let mut r = self;
        r.count_tokens = Some(endpoint);
        r
    }
}

/// Options of one call, over those of the provider.
#[derive(Debug)]
pub struct CallOptions<H> {
    /// Replaces the model.
    pub model: Option<String>,
    /// Replaces the conversion options.
    pub convert: Option<ConvertOptions>,
    /// Replaces the hooks.
    pub hooks: Option<H>,
    /// Headers over those of provider and endpoint.
    pub extra_headers: http::HeaderMap,
    /// Query parameters behind those of the provider.
    pub extra_query: Vec<(String, String)>,
    /// Hands out the raw data of every stream event.
    pub include_raw: bool,
}

impl<H> CallOptions<H> {
    /// Options that inherit everything.
    pub fn new() -> (r: CallOptions<H>)
        ensures
            r.inherits(),
    {
        CallOptions {
            model: None,
            convert: None,
            hooks: None,
            extra_headers: no_headers(),
            extra_query: Vec::new(),
            include_raw: false,
        }
    }

    /// Everything comes from the provider.
    pub open spec fn inherits(self) -> bool {
        &&& self.model is None
        &&& self.convert is None
        &&& self.hooks is None
        &&& forall|k: Seq<char>| #[trigger] header_values(self.extra_headers, k).len() == 0
        &&& self.extra_query@.len() == 0
        &&& !self.include_raw
    }

    /// Replaces the model.
    pub fn with_model(self, model: String) -> (r: CallOptions<H>)
        ensures
            r == (CallOptions { model: Some(model), ..self }),
    {
        let mut r = self;
        r.model = Some(model);
        r
    }

    /// Replaces the conversion options.
    pub fn with_convert(self, convert: ConvertOptions) -> (r: CallOptions<H>)
        ensures
            r == (CallOptions { convert: Some(convert), ..self }),
    {
        let mut r = self;
        r.convert = Some(convert);
        r
    }

    /// Replaces the hooks.
    pub fn with_hooks(self, hooks: H) -> (r: CallOptions<H>)
        ensures
            r == (CallOptions { hooks: Some(hooks), ..self }),
    {
        let mut r = self;
        r.hooks = Some(hooks);
        r
    }

    /// Appends one header; `Err` hands the options back when they have no room
    /// for one more, which never happens below `header_room()` values.
    pub fn with_header(self, name: &http::HeaderName, value: &http::HeaderValue) -> (r: Result<
        CallOptions<H>,
        CallOptions<H>,
    >)
        ensures
            match r {
                Ok(p) => p == (CallOptions { extra_headers: p.extra_headers, ..self }) && forall|k: Seq<char>|
                    #[trigger]
                    header_values(p.extra_headers, k) == if k == header_name(*name) {
                        header_values(self.extra_headers, k).push(header_bytes(*value))
                    } else {
                        header_values(self.extra_headers, k)
                    },
                Err(p) => p == (CallOptions { extra_headers: p.extra_headers, ..self }) && forall|k: Seq<char>|
                    #[trigger]
                    header_values(p.extra_headers, k) == header_values(self.extra_headers, k),
            },
            header_count(self.extra_headers) < header_room() ==> r is Ok,
            match r {
                Ok(p) => header_count(p.extra_headers) <= header_count(self.extra_headers) + 1,
                Err(p) => header_count(p.extra_headers) <= header_count(self.extra_headers) + 1,
            },
    {
        let mut r = self;
        let (headers, room) = append_owned(r.extra_headers, name, value);
        r.extra_headers = headers;
        if room {
            Ok(r)
        } else {
            Err(r)
        }
    }

    /// Replaces the extra headers.
    pub fn with_extra_headers(self, headers: http::HeaderMap) -> (r: CallOptions<H>)
        ensures
            r == (CallOptions { extra_headers: headers, ..self }),
    {
        let mut r = self;
        r.extra_headers = headers;
        r
    }

    /// Appends one query parameter.
    pub fn with_query(self, key: String, value: String) -> (r: CallOptions<H>)
        ensures
            r == (CallOptions { extra_query: r.extra_query, ..self }),
            r.extra_query@ == self.extra_query@.push((key, value)),
    {
        let mut r = self;
        r.extra_query.push((key, value));
        r
    }

    /// Replaces the query parameters.
    pub fn with_extra_query(self, query: Vec<(String, String)>) -> (r: CallOptions<H>)
        ensures
            r == (CallOptions { extra_query: query, ..self }),
    {
        let mut r = self;
        r.extra_query = query;
        r
    }

    /// Hands out the raw data of every stream event, or not.
    pub fn with_include_raw(self, raw: bool) -> (r: CallOptions<H>)
        ensures
            r == (CallOptions { include_raw: raw, ..self }),
    {
        let mut r = self;
        r.include_raw = raw;
        r
    }
}

impl<H> Default for CallOptions<H> {
    fn default() -> (r: Self)
        ensures
            r.inherits(),
    {
        CallOptions::new()
    }
}

} // verus!
