//! Endpoint URLs and the construction of request URLs.

use vstd::prelude::*;
use vstd::string::*;
use crate::error::{ConversionError, ConversionErrorV, Error, ErrorV};
use crate::model::{dup_opt, group_views, opt_view, views, Dup};
use crate::scan::{chars_of, contains, find, matches_at, percent_encode, percent_encoded, percent_encoding_is_lossless, replace, replaced, split, split_at_char, split_chars, split_joins, split_once, split_once_joins, starts_with, string_of, trim_end_char, trimmed_end};
use crate::text::{cat2, cat3, cat5, join, joined, str_eq};

verus! {

broadcast use group_views;

/// A valid URI, taken apart.
#[derive(Debug, PartialEq, Eq)]
pub struct Uri {
    /// Scheme, such as `https`.
    pub scheme: Option<String>,
    /// Authority: host, and user and port where given.
    pub authority: Option<String>,
    /// Path.
    pub path: String,
    /// Raw query, without the question mark.
    pub query: Option<String>,
    /// The whole URI.
    pub text: String,
}

/// The mathematical value of a [`Uri`].
pub struct UriV {
    pub scheme: Option<Seq<char>>,
    pub authority: Option<Seq<char>>,
    pub path: Seq<char>,
    pub query: Option<Seq<char>>,
    pub text: Seq<char>,
}

impl View for Uri {
    type V = UriV;

    open spec fn view(&self) -> UriV {
        UriV {
            scheme: opt_view(self.scheme),
            authority: opt_view(self.authority),
            path: self.path@,
            query: opt_view(self.query),
            text: self.text@,
        }
    }
}

impl Dup for Uri {
    fn dup(&self) -> (r: Self) {
        Uri {
            scheme: dup_opt(&self.scheme),
            authority: dup_opt(&self.authority),
            path: self.path.clone(),
            query: dup_opt(&self.query),
            text: self.text.clone(),
        }
    }
}

/// What parsing a text as `http::Uri` gives, or its error message.
pub uninterp spec fn uri_parse(text: Seq<char>) -> Result<UriV, Seq<char>>;

/// Parses an `http::Uri` from text and hands out what `scheme_str`,
/// `authority`, `path`, `query` and `Display` say of it; the error is its
/// message.
#[verifier::external_body]
fn parse_uri(text: &str) -> (r: Result<Uri, String>)
    ensures
        match r {
            Ok(u) => uri_parse(text@) == Ok::<UriV, Seq<char>>(u@),
            Err(e) => uri_parse(text@) == Err::<UriV, Seq<char>>(e@),
        },
{
    match text.parse::<http::Uri>() {
        Ok(u) => Ok(Uri {
            scheme: u.scheme_str().map(|s| s.to_owned()),
            authority: u.authority().map(|a| a.to_string()),
            path: u.path().to_owned(),
            query: u.query().map(|q| q.to_owned()),
            text: u.to_string(),
        }),
        Err(e) => Err(e.to_string()),
    }
}

/// Where an endpoint lives.
#[derive(Debug, PartialEq, Eq)]
pub enum EndpointUrl {
    /// Base URL; the format appends its path. Its own query is preserved.
    Base(Uri),
    /// Complete request URL, used as it is after placeholders are filled.
    Full(String),
}

/// The mathematical value of an [`EndpointUrl`].
pub enum EndpointUrlV {
    Base(UriV),
    Full(Seq<char>),
}

impl View for EndpointUrl {
    type V = EndpointUrlV;

    open spec fn view(&self) -> EndpointUrlV {
        match self {
            EndpointUrl::Base(u) => EndpointUrlV::Base(u@),
            EndpointUrl::Full(s) => EndpointUrlV::Full(s@),
        }
    }
}

impl Dup for EndpointUrl {
    fn dup(&self) -> (r: Self) {
        match self {
            EndpointUrl::Base(u) => EndpointUrl::Base(u.dup()),
            EndpointUrl::Full(s) => EndpointUrl::Full(s.clone()),
        }
    }
}

/// An `Other` conversion error.
pub open spec fn other_error(message: Seq<char>) -> ErrorV {
    ErrorV::Conversion(ConversionErrorV::Other { message })
}

/// The base endpoint of a text, or the error for a text that is no URI.
pub open spec fn base_endpoint(text: Seq<char>) -> Result<EndpointUrlV, ErrorV> {
    match uri_parse(text) {
        Ok(u) => Ok(EndpointUrlV::Base(u)),
        Err(e) => Err(other_error("invalid base URL: "@ + e)),
    }
}

impl EndpointUrl {
    /// A base URL parsed from a string.
    pub fn base(uri: &str) -> (r: Result<EndpointUrl, Error>)
        ensures
            match r {
                Ok(e) => base_endpoint(uri@) == Ok::<EndpointUrlV, ErrorV>(e@),
                Err(e) => base_endpoint(uri@) == Err::<EndpointUrlV, ErrorV>(e@),
            },
    {
        match parse_uri(uri) {
            Ok(u) => Ok(EndpointUrl::Base(u)),
            Err(e) => Err(
                Error::Conversion(ConversionError::other(cat2("invalid base URL: ", e.as_str()).as_str())),
            ),
        }
    }

    /// A complete URL template.
    pub fn full(url: &str) -> (r: EndpointUrl)
        ensures
            r@ == EndpointUrlV::Full(url@),
    {
        EndpointUrl::Full(url.to_owned())
    }
}

/// The model name without a leading `models/`.
pub open spec fn bare_model(model: Seq<char>) -> Seq<char> {
    if starts_with(model, "models/"@) {
        model.subrange("models/"@.len() as int, model.len() as int)
    } else {
        model
    }
}

/// A template with the model filled in.
pub open spec fn fill_model(template: Seq<char>, model: Seq<char>) -> Result<Seq<char>, ErrorV> {
    if contains(template, "{model}"@) {
        if starts_with(model, "tunedModels/"@) {
            Err(ErrorV::NotSupported("Google tuned models (`tunedModels/…`) are out of scope for v1"@))
        } else if bare_model(model).len() == 0 {
            Err(
                ErrorV::Conversion(
                    ConversionErrorV::MissingRequired { what: "model name"@, location: "/"@ },
                ),
            )
        } else {
            Ok(replaced(template, "{model}"@, percent_encoded(bare_model(model))))
        }
    } else {
        Ok(template)
    }
}

/// A template with the method filled in.
pub open spec fn fill_method(template: Seq<char>, method: Option<Seq<char>>) -> Result<Seq<char>, ErrorV> {
    if contains(template, "{method}"@) {
        match method {
            Some(m) => Ok(replaced(template, "{method}"@, m)),
            None => Err(other_error("URL template contains {method} but no method was provided"@)),
        }
    } else {
        Ok(template)
    }
}

/// A template with both placeholders filled in.
pub open spec fn filled_template(
    template: Seq<char>,
    model: Seq<char>,
    method: Option<Seq<char>>,
) -> Result<Seq<char>, ErrorV> {
    match fill_model(template, model) {
        Err(e) => Err(e),
        Ok(t) => fill_method(t, method),
    }
}

/// A query parameter: its name and its value.
pub type PairV = (Seq<char>, Seq<char>);

/// One piece of a query, between ampersands.
#[derive(Debug, PartialEq, Eq)]
pub struct Piece {
    /// Name of the parameter, still encoded; an empty piece has none.
    pub name: Option<String>,
    /// Value of the parameter, still encoded.
    pub value: String,
    /// The piece as it stands in the URL.
    pub text: String,
}

/// The mathematical value of a [`Piece`].
pub struct PieceV {
    pub name: Option<Seq<char>>,
    pub value: Seq<char>,
    pub text: Seq<char>,
}

impl View for Piece {
    type V = PieceV;

    open spec fn view(&self) -> PieceV {
        PieceV { name: opt_view(self.name), value: self.value@, text: self.text@ }
    }
}

/// A piece of an address, kept as it stands.
pub open spec fn raw_piece(text: Seq<char>) -> PieceV {
    if text.len() == 0 {
        PieceV { name: None, value: text, text }
    } else {
        match split_once(text, '=') {
            Some((k, v)) => PieceV { name: Some(k), value: v, text },
            None => PieceV { name: Some(text), value: Seq::empty(), text },
        }
    }
}

/// The piece of a parameter that is added; one without a value is its name
/// alone.
pub open spec fn pair_piece(p: PairV) -> PieceV {
    PieceV {
        name: Some(p.0),
        value: p.1,
        text: if p.1.len() == 0 {
            p.0
        } else {
            p.0 + "="@ + p.1
        },
    }
}

/// The pieces of a raw query.
pub open spec fn query_pieces(query: Seq<char>) -> Seq<PieceV> {
    if query.len() == 0 {
        Seq::empty()
    } else {
        split(query, '&').map_values(|t: Seq<char>| raw_piece(t))
    }
}

/// Some parameter has this name.
pub open spec fn has_key(pieces: Seq<PieceV>, key: Seq<char>) -> bool {
    exists|i: int| 0 <= i < pieces.len() && (#[trigger] pieces[i]).name == Some(key)
}

/// The user gives a parameter of this name.
pub open spec fn gives_key(extra: Seq<PairV>, key: Seq<char>) -> bool {
    exists|i: int| 0 <= i < extra.len() && (#[trigger] extra[i]).0 == key
}

/// An address up to its query: the text before the question mark, and the raw
/// query where there is a question mark.
pub type AddressV = (Seq<char>, Option<Seq<char>>);

/// The address that an endpoint gives.
pub open spec fn url_start(
    endpoint: EndpointUrlV,
    capability_path: Seq<char>,
    model: Seq<char>,
    method: Option<Seq<char>>,
) -> Result<AddressV, ErrorV> {
    match endpoint {
        EndpointUrlV::Base(u) => match (u.scheme, u.authority) {
            (None, _) => Err(other_error("base URL must include a scheme"@)),
            (Some(_), None) => Err(other_error("base URL must include a host"@)),
            (Some(scheme), Some(authority)) => match filled_template(capability_path, model, method) {
                Err(e) => Err(e),
                Ok(path) => Ok(
                    (scheme + "://"@ + authority + trimmed_end(u.path, '/') + ("/"@ + path), u.query),
                ),
            },
        },
        EndpointUrlV::Full(template) => match filled_template(template, model, method) {
            Err(e) => Err(e),
            Ok(full) => match split_once(full, '?') {
                Some((base, query)) => Ok((base, Some(query))),
                None => Ok((full, None)),
            },
        },
    }
}

/// The pieces that an address comes with.
pub open spec fn own_pieces(query: Option<Seq<char>>) -> Seq<PieceV> {
    match query {
        Some(q) => query_pieces(q),
        None => Seq::empty(),
    }
}

/// The pieces after the first `n` protected parameters; one that the address
/// or the user gave too is an error.
pub open spec fn with_protected(
    pieces: Seq<PieceV>,
    protected: Seq<PairV>,
    extra: Seq<PairV>,
    n: nat,
) -> Result<Seq<PieceV>, ErrorV>
    decreases n,
{
    if n == 0 || n > protected.len() {
        Ok(pieces)
    } else {
        match with_protected(pieces, protected, extra, (n - 1) as nat) {
            Err(e) => Err(e),
            Ok(prev) => {
                let key = protected[n - 1].0;
                if has_key(prev, key) || gives_key(extra, key) {
                    Err(ErrorV::Conversion(ConversionErrorV::ProtectedQueryKey { key }))
                } else {
                    Ok(prev.push(pair_piece(protected[n - 1])))
                }
            },
        }
    }
}

/// Position of the first parameter with this name at or after `i`.
pub open spec fn key_from(pieces: Seq<PieceV>, key: Seq<char>, i: int) -> int
    decreases pieces.len() - i,
{
    if i < 0 || i >= pieces.len() {
        pieces.len() as int
    } else if pieces[i].name == Some(key) {
        i
    } else {
        key_from(pieces, key, i + 1)
    }
}

/// The pieces with one parameter set: replaced in place, or appended.
pub open spec fn set_pair(pieces: Seq<PieceV>, key: Seq<char>, value: Seq<char>) -> Seq<PieceV> {
    let i = key_from(pieces, key, 0);
    if 0 <= i < pieces.len() {
        pieces.update(i, pair_piece((key, value)))
    } else {
        pieces.push(pair_piece((key, value)))
    }
}

/// The pieces after the first `n` user parameters, encoded, were set.
pub open spec fn with_extra(pieces: Seq<PieceV>, extra: Seq<PairV>, n: nat) -> Seq<PieceV>
    decreases n,
{
    if n == 0 || n > extra.len() {
        pieces
    } else {
        set_pair(
            with_extra(pieces, extra, (n - 1) as nat),
            percent_encoded(extra[n - 1].0),
            percent_encoded(extra[n - 1].1),
        )
    }
}

/// The texts of the pieces.
pub open spec fn piece_texts(pieces: Seq<PieceV>) -> Seq<Seq<char>> {
    pieces.map_values(|p: PieceV| p.text)
}

/// An address with its query. The question mark stands where the address had
/// one, or where there are pieces to put behind it.
pub open spec fn url_text(base: Seq<char>, marked: bool, pieces: Seq<PieceV>) -> Seq<char> {
    if pieces.len() == 0 && !marked {
        base
    } else {
        base + "?"@ + joined(piece_texts(pieces), "&"@)
    }
}

/// The text of the request URL.
pub open spec fn request_url_text(
    endpoint: EndpointUrlV,
    capability_path: Seq<char>,
    model: Seq<char>,
    method: Option<Seq<char>>,
    protected: Seq<PairV>,
    extra: Seq<PairV>,
) -> Result<Seq<char>, ErrorV> {
    match url_start(endpoint, capability_path, model, method) {
        Err(e) => Err(e),
        Ok((base, query)) => match with_protected(own_pieces(query), protected, extra, protected.len()) {
            Err(e) => Err(e),
            Ok(all) => Ok(url_text(base, query is Some, with_extra(all, extra, extra.len()))),
        },
    }
}

/// The request URL.
pub open spec fn request_url(
    endpoint: EndpointUrlV,
    capability_path: Seq<char>,
    model: Seq<char>,
    method: Option<Seq<char>>,
    protected: Seq<PairV>,
    extra: Seq<PairV>,
) -> Result<UriV, ErrorV> {
    match request_url_text(endpoint, capability_path, model, method, protected, extra) {
        Err(e) => Err(e),
        Ok(text) => match uri_parse(text) {
            Ok(u) => Ok(u),
            Err(e) => Err(other_error("constructed URL is invalid: "@ + e)),
        },
    }
}

/// A string seen through a result.
pub open spec fn text_result(r: Result<String, Error>) -> Result<Seq<char>, ErrorV> {
    match r {
        Ok(s) => Ok(s@),
        Err(e) => Err(e@),
    }
}

fn conversion_other(message: &str) -> (r: Error)
    ensures
        r@ == other_error(message@),
{
    Error::Conversion(ConversionError::other(message))
}

/// The model name without a leading `models/`.
pub fn strip_models(model: &str) -> (r: String)
    ensures
        r@ == bare_model(model@),
{
    let m = chars_of(model);
    let head = chars_of("models/");
    if matches_at(&m, &head, 0) {
        string_of(&m, head.len(), m.len())
    } else {
        model.to_owned()
    }
}

fn substitute_model(template: &str, model: &str) -> (r: Result<String, Error>)
    ensures
        text_result(r) == fill_model(template@, model@),
{
    let t = chars_of(template);
    let mark = chars_of("{model}");
    proof {
        reveal_strlit("{model}");
    }
    if find(&t, &mark, 0).is_none() {
        return Ok(template.to_owned());
    }
    let m = chars_of(model);
    if matches_at(&m, &chars_of("tunedModels/"), 0) {
        return Err(
            Error::NotSupported("Google tuned models (`tunedModels/…`) are out of scope for v1".to_owned()),
        );
    }
    let bare = strip_models(model);
    if bare.as_str().is_empty() {
        return Err(Error::Conversion(ConversionError::missing("model name", "/")));
    }
    Ok(replace(&t, &mark, percent_encode(bare.as_str()).as_str()))
}

fn substitute_method(template: &str, method: Option<&str>) -> (r: Result<String, Error>)
    ensures
        text_result(r) == fill_method(template@, opt_view(method)),
{
    let t = chars_of(template);
    let mark = chars_of("{method}");
    proof {
        reveal_strlit("{method}");
    }
    if find(&t, &mark, 0).is_none() {
        return Ok(template.to_owned());
    }
    match method {
        Some(m) => Ok(replace(&t, &mark, m)),
        None => Err(conversion_other("URL template contains {method} but no method was provided")),
    }
}

fn substitute(template: &str, model: &str, method: Option<&str>) -> (r: Result<String, Error>)
    ensures
        text_result(r) == filled_template(template@, model@, opt_view(method)),
{
    match substitute_model(template, model) {
        Err(e) => Err(e),
        Ok(t) => substitute_method(t.as_str(), method),
    }
}

fn keep_piece(text: String) -> (r: Piece)
    ensures
        r@ == raw_piece(text@),
{
    if text.as_str().is_empty() {
        return Piece { name: None, value: text.clone(), text };
    }
    match split_at_char(text.as_str(), '=') {
        Some((k, v)) => Piece { name: Some(k), value: v, text },
        None => Piece { name: Some(text.clone()), value: String::new(), text },
    }
}

fn make_piece(key: String, value: String) -> (r: Piece)
    ensures
        r@ == pair_piece((key@, value@)),
{
    let text = if value.as_str().is_empty() {
        key.clone()
    } else {
        cat3(key.as_str(), "=", value.as_str())
    };
    Piece { name: Some(key), value, text }
}

/// Splits a raw query into its pieces.
pub fn parse_query(query: &str) -> (r: Vec<Piece>)
    ensures
        views(r@) == query_pieces(query@),
{
    let mut out: Vec<Piece> = Vec::new();
    if query.is_empty() {
        return out;
    }
    let parts = split_chars(query, '&');
    let ghost all = query_pieces(query@);
    let mut i: usize = 0;
    while i < parts.len()
        invariant
            i <= parts@.len(),
            views(parts@) == split(query@, '&'),
            all == split(query@, '&').map_values(|t: Seq<char>| raw_piece(t)),
            views(out@) == all.take(i as int),
        decreases parts@.len() - i,
    {
        proof {
            assert(views(parts@)[i as int] == parts@[i as int]@);
            assert(all.take(i as int + 1) =~= all.take(i as int).push(all[i as int]));
        }
        out.push(keep_piece(parts[i].clone()));
        i += 1;
    }
    proof {
        assert(all.take(i as int) =~= all);
    }
    out
}

fn is_named(piece: &Piece, key: &str) -> (r: bool)
    ensures
        r == (piece@.name == Some(key@)),
{
    match &piece.name {
        Some(name) => str_eq(name.as_str(), key),
        None => false,
    }
}

fn any_key(pieces: &Vec<Piece>, key: &str) -> (r: bool)
    ensures
        r == has_key(views(pieces@), key@),
{
    let mut i: usize = 0;
    while i < pieces.len()
        invariant
            i <= pieces@.len(),
            forall|j: int| 0 <= j < i ==> (#[trigger] views(pieces@)[j]).name != Some(key@),
        decreases pieces@.len() - i,
    {
        proof {
            assert(views(pieces@)[i as int] == pieces@[i as int]@);
        }
        if is_named(&pieces[i], key) {
            return true;
        }
        i += 1;
    }
    false
}

fn any_given(extra: &Vec<(String, String)>, key: &str) -> (r: bool)
    ensures
        r == gives_key(views(extra@), key@),
{
    let mut i: usize = 0;
    while i < extra.len()
        invariant
            i <= extra@.len(),
            forall|j: int| 0 <= j < i ==> (#[trigger] views(extra@)[j]).0 != key@,
        decreases extra@.len() - i,
    {
        if str_eq(extra[i].0.as_str(), key) {
            proof {
                assert(views(extra@)[i as int].0 == key@);
            }
            return true;
        }
        i += 1;
    }
    false
}

fn start_url(endpoint: &EndpointUrl, capability_path: &str, model: &str, method: Option<&str>) -> (r: Result<(String, Option<String>), Error>)
    ensures
        match r {
            Ok(v) => url_start(endpoint@, capability_path@, model@, opt_view(method)) == Ok::<AddressV, ErrorV>(
                (v.0@, opt_view(v.1)),
            ),
            Err(e) => url_start(endpoint@, capability_path@, model@, opt_view(method)) == Err::<AddressV, ErrorV>(e@),
        },
{
    match endpoint {
        EndpointUrl::Base(u) => match (&u.scheme, &u.authority) {
            (None, _) => Err(conversion_other("base URL must include a scheme")),
            (Some(_), None) => Err(conversion_other("base URL must include a host")),
            (Some(scheme), Some(authority)) => match substitute(capability_path, model, method) {
                Err(e) => Err(e),
                Ok(path) => {
                    let trimmed = trim_end_char(u.path.as_str(), '/');
                    let tail = cat2("/", path.as_str());
                    let base = cat5(
                        scheme.as_str(),
                        "://",
                        authority.as_str(),
                        trimmed.as_str(),
                        tail.as_str(),
                    );
                    Ok((base, dup_opt(&u.query)))
                },
            },
        },
        EndpointUrl::Full(template) => match substitute(template.as_str(), model, method) {
            Err(e) => Err(e),
            Ok(full) => match split_at_char(full.as_str(), '?') {
                Some((base, query)) => Ok((base, Some(query))),
                None => Ok((full, None)),
            },
        },
    }
}

proof fn protected_error_stays(pieces: Seq<PieceV>, protected: Seq<PairV>, extra: Seq<PairV>, n: nat, m: nat)
    requires
        n <= m <= protected.len(),
        with_protected(pieces, protected, extra, n) is Err,
    ensures
        with_protected(pieces, protected, extra, m) == with_protected(pieces, protected, extra, n),
    decreases m - n,
{
    if n < m {
        protected_error_stays(pieces, protected, extra, n, (m - 1) as nat);
    }
}

fn add_protected(pieces: &mut Vec<Piece>, protected: &Vec<(String, String)>, extra: &Vec<(String, String)>) -> (r: Result<(), Error>)
    ensures
        match r {
            Ok(_) => with_protected(views(old(pieces)@), views(protected@), views(extra@), protected@.len())
                == Ok::<Seq<PieceV>, ErrorV>(views(final(pieces)@)),
            Err(e) => with_protected(views(old(pieces)@), views(protected@), views(extra@), protected@.len())
                == Err::<Seq<PieceV>, ErrorV>(e@),
        },
{
    let ghost p0 = views(pieces@);
    let mut i: usize = 0;
    while i < protected.len()
        invariant
            i <= protected@.len(),
            p0 == views(old(pieces)@),
            with_protected(p0, views(protected@), views(extra@), i as nat) == Ok::<Seq<PieceV>, ErrorV>(views(pieces@)),
        decreases protected@.len() - i,
    {
        let key = &protected[i].0;
        proof {
            assert(views(protected@)[i as int] == (protected@[i as int].0@, protected@[i as int].1@));
        }
        if any_key(pieces, key.as_str()) || any_given(extra, key.as_str()) {
            proof {
                protected_error_stays(p0, views(protected@), views(extra@), i as nat + 1, protected@.len());
            }
            return Err(Error::Conversion(ConversionError::ProtectedQueryKey { key: key.clone() }));
        }
        pieces.push(make_piece(key.clone(), protected[i].1.clone()));
        i += 1;
    }
    Ok(())
}

fn put_pair(pieces: &mut Vec<Piece>, key: String, value: String)
    ensures
        views(final(pieces)@) == set_pair(views(old(pieces)@), key@, value@),
{
    let ghost p0 = views(pieces@);
    let mut i: usize = 0;
    while i < pieces.len()
        invariant
            i <= pieces@.len(),
            p0 == views(pieces@),
            p0 == views(old(pieces)@),
            key_from(p0, key@, 0) == key_from(p0, key@, i as int),
        decreases pieces@.len() - i,
    {
        proof {
            assert(p0[i as int] == pieces@[i as int]@);
        }
        if is_named(&pieces[i], key.as_str()) {
            pieces[i] = make_piece(key, value);
            return;
        }
        i += 1;
    }
    pieces.push(make_piece(key, value));
}

fn add_extra(pieces: &mut Vec<Piece>, extra: &Vec<(String, String)>)
    ensures
        views(final(pieces)@) == with_extra(views(old(pieces)@), views(extra@), extra@.len()),
{
    let ghost p0 = views(pieces@);
    let mut i: usize = 0;
    while i < extra.len()
        invariant
            i <= extra@.len(),
            views(pieces@) == with_extra(p0, views(extra@), i as nat),
        decreases extra@.len() - i,
    {
        proof {
            assert(views(extra@)[i as int] == (extra@[i as int].0@, extra@[i as int].1@));
        }
        put_pair(pieces, percent_encode(extra[i].0.as_str()), percent_encode(extra[i].1.as_str()));
        i += 1;
    }
}

fn assemble(base: &String, marked: bool, pieces: &Vec<Piece>) -> (r: String)
    ensures
        r@ == url_text(base@, marked, views(pieces@)),
{
    if pieces.len() == 0 && !marked {
        return base.clone();
    }
    let ghost all = piece_texts(views(pieces@));
    let mut parts: Vec<String> = Vec::new();
    let mut i: usize = 0;
    while i < pieces.len()
        invariant
            i <= pieces@.len(),
            all == piece_texts(views(pieces@)),
            views(parts@) == all.take(i as int),
        decreases pieces@.len() - i,
    {
        parts.push(pieces[i].text.clone());
        proof {
            assert(all[i as int] == pieces@[i as int].text@);
            assert(all.take(i as int + 1) =~= all.take(i as int).push(all[i as int]));
        }
        i += 1;
    }
    proof {
        assert(all.take(i as int) =~= all);
    }
    cat3(base.as_str(), "?", join(&parts, "&").as_str())
}

/// Builds the text of the request URL; `build_url` then holds it to the URI
/// grammar.
pub fn build_url_text(
    endpoint: &EndpointUrl,
    capability_path: &str,
    model: &str,
    method: Option<&str>,
    protected_query: &Vec<(String, String)>,
    extra_query: &Vec<(String, String)>,
) -> (r: Result<String, Error>)
    ensures
        text_result(r) == request_url_text(
            endpoint@,
            capability_path@,
            model@,
            opt_view(method),
            views(protected_query@),
            views(extra_query@),
        ),
{
    let (base, query) = match start_url(endpoint, capability_path, model, method) {
        Err(e) => {
            return Err(e);
        },
        Ok(v) => v,
    };
    let mut pieces = match &query {
        Some(q) => parse_query(q.as_str()),
        None => Vec::new(),
    };
    match add_protected(&mut pieces, protected_query, extra_query) {
        Err(e) => {
            return Err(e);
        },
        Ok(_) => {},
    }
    add_extra(&mut pieces, extra_query);
    Ok(assemble(&base, query.is_some(), &pieces))
}

/// Builds the final request URL. Placeholders in the capability path, or in a
/// full URL, are filled; protected keys must not come from the user; user
/// parameters replace those of the same name.
pub fn build_url(
    endpoint: &EndpointUrl,
    capability_path: &str,
    model: &str,
    method: Option<&str>,
    protected_query: &Vec<(String, String)>,
    extra_query: &Vec<(String, String)>,
) -> (r: Result<Uri, Error>)
    ensures
        match r {
            Ok(u) => request_url(
                endpoint@,
                capability_path@,
                model@,
                opt_view(method),
                views(protected_query@),
                views(extra_query@),
            ) == Ok::<UriV, ErrorV>(u@),
            Err(e) => request_url(
                endpoint@,
                capability_path@,
                model@,
                opt_view(method),
                views(protected_query@),
                views(extra_query@),
            ) == Err::<UriV, ErrorV>(e@),
        },
{
    match build_url_text(endpoint, capability_path, model, method, protected_query, extra_query) {
        Err(e) => Err(e),
        Ok(text) => match parse_uri(text.as_str()) {
            Ok(u) => Ok(u),
            Err(e) => Err(conversion_other(cat2("constructed URL is invalid: ", e.as_str()).as_str())),
        },
    }
}

proof fn key_from_props(pieces: Seq<PieceV>, key: Seq<char>, i: int)
    requires
        0 <= i <= pieces.len(),
    ensures
        i <= key_from(pieces, key, i) <= pieces.len(),
        key_from(pieces, key, i) < pieces.len() ==> pieces[key_from(pieces, key, i)].name == Some(key),
        forall|j: int| i <= j < key_from(pieces, key, i) ==> (#[trigger] pieces[j]).name != Some(key),
    decreases pieces.len() - i,
{
    if i < pieces.len() && pieces[i].name != Some(key) {
        key_from_props(pieces, key, i + 1);
    }
}

/// The value that a query gives a name: that of its first parameter of this
/// name.
pub open spec fn query_value(pieces: Seq<PieceV>, key: Seq<char>) -> Option<Seq<char>> {
    let i = key_from(pieces, key, 0);
    if 0 <= i < pieces.len() {
        Some(pieces[i].value)
    } else {
        None
    }
}

/// A parameter that is set has the value it was set to.
pub proof fn set_parameter_is_read(pieces: Seq<PieceV>, key: Seq<char>, value: Seq<char>)
    ensures
        query_value(set_pair(pieces, key, value), key) == Some(value),
{
    let i = key_from(pieces, key, 0);
    key_from_props(pieces, key, 0);
    let p = set_pair(pieces, key, value);
    key_from_props(p, key, 0);
    let k = key_from(p, key, 0);
    assert(p[i].name == Some(key));
    if k < i {
        assert(p[k].name == pieces[k].name);
    }
}

/// Setting one parameter leaves the others as they were.
pub proof fn set_keeps_other_parameters(pieces: Seq<PieceV>, key: Seq<char>, value: Seq<char>, other: Seq<char>)
    requires
        other != key,
    ensures
        query_value(set_pair(pieces, key, value), other) == query_value(pieces, other),
{
    let p = set_pair(pieces, key, value);
    key_from_props(pieces, key, 0);
    key_from_props(pieces, other, 0);
    key_from_props(p, other, 0);
    let i = key_from(pieces, other, 0);
    let k = key_from(p, other, 0);
    if i < pieces.len() {
        assert(p[i].name == Some(other));
        if k < i {
            assert(p[k].name == pieces[k].name);
        }
    } else if k < p.len() {
        if k < pieces.len() {
            assert(p[k].name == pieces[k].name);
        }
    }
}

/// Of the user's parameters, the last one of a name decides its value, over
/// whatever the address came with.
pub proof fn last_extra_parameter_wins(pieces: Seq<PieceV>, extra: Seq<PairV>, n: nat, i: int)
    requires
        0 <= i < n <= extra.len(),
        forall|j: int| i < j < n ==> percent_encoded((#[trigger] extra[j]).0) != percent_encoded(extra[i].0),
    ensures
        query_value(with_extra(pieces, extra, n), percent_encoded(extra[i].0)) == Some(percent_encoded(extra[i].1)),
    decreases n,
{
    let prev = with_extra(pieces, extra, (n - 1) as nat);
    let k = percent_encoded(extra[n - 1].0);
    let v = percent_encoded(extra[n - 1].1);
    if i == n - 1 {
        set_parameter_is_read(prev, k, v);
    } else {
        last_extra_parameter_wins(pieces, extra, (n - 1) as nat, i);
        assert(percent_encoded(extra[n - 1].0) != percent_encoded(extra[i].0));
        set_keeps_other_parameters(prev, k, v, percent_encoded(extra[i].0));
    }
}

/// The user cannot replace a parameter that the format protects: where all of
/// them were taken, none of their names is among the user's.
pub proof fn protected_parameters_are_not_replaced(
    pieces: Seq<PieceV>,
    protected: Seq<PairV>,
    extra: Seq<PairV>,
    n: nat,
    i: int,
)
    requires
        0 <= i < n <= protected.len(),
        with_protected(pieces, protected, extra, n) is Ok,
    ensures
        !gives_key(extra, protected[i].0),
        query_value(with_protected(pieces, protected, extra, n)->Ok_0, protected[i].0) == Some(protected[i].1),
    decreases n,
{
    let all = with_protected(pieces, protected, extra, n)->Ok_0;
    let prev = with_protected(pieces, protected, extra, (n - 1) as nat)->Ok_0;
    let key = protected[i].0;
    key_from_props(prev, key, 0);
    key_from_props(all, key, 0);
    let k = key_from(all, key, 0);
    if i == n - 1 {
        assert(all[prev.len() as int].name == Some(key));
        if k < prev.len() {
            assert(prev[k].name == Some(key));
        }
    } else {
        protected_parameters_are_not_replaced(pieces, protected, extra, (n - 1) as nat, i);
        let p = key_from(prev, key, 0);
        assert(all[p].name == Some(key));
        if k < p {
            assert(prev[k].name == all[k].name);
        }
    }
}

proof fn extra_keeps_other_parameters(pieces: Seq<PieceV>, extra: Seq<PairV>, n: nat, key: Seq<char>)
    requires
        n <= extra.len(),
        forall|j: int| 0 <= j < n ==> percent_encoded((#[trigger] extra[j]).0) != key,
    ensures
        query_value(with_extra(pieces, extra, n), key) == query_value(pieces, key),
    decreases n,
{
    if n > 0 {
        extra_keeps_other_parameters(pieces, extra, (n - 1) as nat, key);
        assert(percent_encoded(extra[n - 1].0) != key);
        set_keeps_other_parameters(
            with_extra(pieces, extra, (n - 1) as nat),
            percent_encoded(extra[n - 1].0),
            percent_encoded(extra[n - 1].1),
            key,
        );
    }
}

/// A parameter that the format protects reaches the URL with the value of the
/// format. Its name stands in the URL as it is.
pub proof fn protected_parameters_reach_the_url(pieces: Seq<PieceV>, protected: Seq<PairV>, extra: Seq<PairV>, i: int)
    requires
        0 <= i < protected.len(),
        percent_encoded(protected[i].0) == protected[i].0,
        with_protected(pieces, protected, extra, protected.len()) is Ok,
    ensures
        ({
            let all = with_protected(pieces, protected, extra, protected.len())->Ok_0;
            query_value(with_extra(all, extra, extra.len()), protected[i].0) == Some(protected[i].1)
        }),
{
    protected_parameters_are_not_replaced(pieces, protected, extra, protected.len(), i);
    let all = with_protected(pieces, protected, extra, protected.len())->Ok_0;
    let key = protected[i].0;
    assert forall|j: int| 0 <= j < extra.len() implies percent_encoded((#[trigger] extra[j]).0) != key by {
        if percent_encoded(extra[j].0) == key {
            percent_encoding_is_lossless(extra[j].0, key);
            assert(gives_key(extra, key));
        }
    }
    extra_keeps_other_parameters(all, extra, extra.len(), key);
}

proof fn own_query_is_joined(query: Seq<char>)
    ensures
        joined(piece_texts(query_pieces(query)), "&"@) == query,
{
    reveal_strlit("&");
    assert("&"@ =~= seq!['&']);
    if query.len() == 0 {
        assert(piece_texts(query_pieces(query)) =~= Seq::<Seq<char>>::empty());
        assert(query =~= Seq::<char>::empty());
    } else {
        split_joins(query, '&');
        assert(piece_texts(query_pieces(query)) =~= split(query, '&'));
    }
}

/// A complete URL without placeholders is used as it is, letter for letter,
/// when nothing is to be added to it.
pub proof fn full_url_is_verbatim(
    url: Seq<char>,
    capability_path: Seq<char>,
    model: Seq<char>,
    method: Option<Seq<char>>,
)
    requires
        !contains(url, "{model}"@),
        !contains(url, "{method}"@),
    ensures
        request_url_text(EndpointUrlV::Full(url), capability_path, model, method, Seq::empty(), Seq::empty()) == Ok::<
            Seq<char>,
            ErrorV,
        >(url),
{
    reveal_strlit("?");
    assert("?"@ =~= seq!['?']);
    split_once_joins(url, '?');
    match split_once(url, '?') {
        Some((_, query)) => {
            own_query_is_joined(query);
        },
        None => {},
    }
}

/// The query of a base URL is kept, letter for letter, when nothing is to be
/// added to it.
pub proof fn base_query_is_kept(
    base: UriV,
    capability_path: Seq<char>,
    model: Seq<char>,
    method: Option<Seq<char>>,
)
    requires
        base.scheme is Some,
        base.authority is Some,
        filled_template(capability_path, model, method) is Ok,
    ensures
        ({
            let address = base.scheme->0 + "://"@ + base.authority->0 + trimmed_end(base.path, '/') + ("/"@
                + filled_template(capability_path, model, method)->Ok_0);
            request_url_text(EndpointUrlV::Base(base), capability_path, model, method, Seq::empty(), Seq::empty())
                == Ok::<Seq<char>, ErrorV>(
                match base.query {
                    Some(q) => address + "?"@ + q,
                    None => address,
                },
            )
        }),
{
    match base.query {
        Some(q) => {
            own_query_is_joined(q);
        },
        None => {},
    }
}

proof fn protected_keep_pieces(pieces: Seq<PieceV>, protected: Seq<PairV>, extra: Seq<PairV>, n: nat)
    requires
        n <= protected.len(),
        with_protected(pieces, protected, extra, n) is Ok,
    ensures
        with_protected(pieces, protected, extra, n)->Ok_0.len() == pieces.len() + n,
        forall|i: int|
            0 <= i < pieces.len() ==> #[trigger] with_protected(pieces, protected, extra, n)->Ok_0[i] == pieces[i],
    decreases n,
{
    if n > 0 {
        protected_keep_pieces(pieces, protected, extra, (n - 1) as nat);
        let all = with_protected(pieces, protected, extra, n)->Ok_0;
        let prev = with_protected(pieces, protected, extra, (n - 1) as nat)->Ok_0;
        assert forall|i: int| 0 <= i < pieces.len() implies #[trigger] all[i] == pieces[i] by {
            assert(all[i] == prev[i]);
        }
    }
}

proof fn extra_keeps_piece(pieces: Seq<PieceV>, extra: Seq<PairV>, n: nat, i: int)
    requires
        n <= extra.len(),
        0 <= i < pieces.len(),
        forall|j: int| 0 <= j < n ==> Some(percent_encoded((#[trigger] extra[j]).0)) != pieces[i].name,
    ensures
        i < with_extra(pieces, extra, n).len(),
        with_extra(pieces, extra, n)[i] == pieces[i],
    decreases n,
{
    if n > 0 {
        extra_keeps_piece(pieces, extra, (n - 1) as nat, i);
        let prev = with_extra(pieces, extra, (n - 1) as nat);
        key_from_props(prev, percent_encoded(extra[n - 1].0), 0);
        assert(Some(percent_encoded(extra[n - 1].0)) != pieces[i].name);
    }
}

/// A piece of the address's own query that no user parameter names stands in
/// the URL as it was and where it was, whatever is set or added beside it.
pub proof fn own_pieces_are_kept(query: Seq<char>, protected: Seq<PairV>, extra: Seq<PairV>, i: int)
    requires
        0 <= i < query_pieces(query).len(),
        with_protected(query_pieces(query), protected, extra, protected.len()) is Ok,
        forall|j: int|
            0 <= j < extra.len() ==> Some(percent_encoded((#[trigger] extra[j]).0)) != query_pieces(query)[i].name,
    ensures
        ({
            let all = with_protected(query_pieces(query), protected, extra, protected.len())->Ok_0;
            i < with_extra(all, extra, extra.len()).len() && with_extra(all, extra, extra.len())[i].text == split(
                query,
                '&',
            )[i]
        }),
{
    let pieces = query_pieces(query);
    protected_keep_pieces(pieces, protected, extra, protected.len());
    let all = with_protected(pieces, protected, extra, protected.len())->Ok_0;
    assert(all[i] == pieces[i]);
    extra_keeps_piece(all, extra, extra.len(), i);
}

} // verus!
