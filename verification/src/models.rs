//! Results of the secondary capabilities: models and token counts.

use vstd::prelude::*;
use crate::convert::{ConversionWarning, ConversionWarningV};
use crate::error::{Error, ErrorV};
use crate::json::{json_as_str, json_get, Json, JsonV};
use crate::model::{group_views, opt_view, views};

verus! {

broadcast use group_views;

/// When a model was created, as the provider says it.
#[derive(Debug, PartialEq, Eq)]
pub enum Created {
    /// Seconds since the Unix epoch.
    UnixSeconds(i64),
    /// An RFC 3339 time.
    Timestamp(String),
}

/// The mathematical value of a [`Created`].
pub enum CreatedV {
    UnixSeconds(i64),
    Timestamp(Seq<char>),
}

impl View for Created {
    type V = CreatedV;

    open spec fn view(&self) -> CreatedV {
        match self {
            Created::UnixSeconds(n) => CreatedV::UnixSeconds(*n),
            Created::Timestamp(s) => CreatedV::Timestamp(s@),
        }
    }
}

/// A model that a provider lists.
#[derive(Debug, PartialEq, Eq)]
pub struct Model {
    pub id: String,
    pub display_name: Option<String>,
    pub created: Option<Created>,
    /// The provider entry.
    pub raw: Json,
}

/// The mathematical value of a [`Model`].
pub struct ModelV {
    pub id: Seq<char>,
    pub display_name: Option<Seq<char>>,
    pub created: Option<CreatedV>,
    pub raw: JsonV,
}

impl View for Model {
    type V = ModelV;

    open spec fn view(&self) -> ModelV {
        ModelV {
            id: self.id@,
            display_name: opt_view(self.display_name),
            created: opt_view(self.created),
            raw: self.raw@,
        }
    }
}

impl Model {
    /// A model of which only the id is known.
    pub fn new(id: String, raw: Json) -> (r: Model)
        ensures
            r@ == (ModelV { id: id@, display_name: None, created: None, raw: raw@ }),
    {
        Model { id, display_name: None, created: None, raw }
    }
}

/// The size of a request in tokens.
#[derive(Debug, PartialEq, Eq)]
pub struct TokenCount {
    pub input_tokens: u64,
    /// The provider response.
    pub raw: Option<Json>,
    pub warnings: Vec<ConversionWarning>,
}

/// The mathematical value of a [`TokenCount`].
pub struct TokenCountV {
    pub input_tokens: u64,
    pub raw: Option<JsonV>,
    pub warnings: Seq<ConversionWarningV>,
}

impl View for TokenCount {
    type V = TokenCountV;

    open spec fn view(&self) -> TokenCountV {
        TokenCountV {
            input_tokens: self.input_tokens,
            raw: opt_view(self.raw),
            warnings: views(self.warnings@),
        }
    }
}

impl TokenCount {
    /// A bare count.
    pub fn new(input_tokens: u64) -> (r: TokenCount)
        ensures
            r@ == (TokenCountV { input_tokens, raw: None, warnings: Seq::empty() }),
    {
        let r = TokenCount { input_tokens, raw: None, warnings: Vec::new() };
        proof {
            assert(r@.warnings =~= Seq::<ConversionWarningV>::empty());
        }
        r
    }
}

/// One page of a model list and the cursor of the next page.
pub type PageV = (Seq<ModelV>, Option<Seq<char>>);

/// A parse error.
pub open spec fn bad_body(message: Seq<char>, body: Seq<u8>) -> ErrorV {
    ErrorV::Parse { message, raw: body }
}

/// The outcome of reading a page of models.
pub open spec fn page_view(r: Result<(Vec<Model>, Option<String>), Error>) -> Result<PageV, ErrorV> {
    match r {
        Ok(p) => Ok((views(p.0@), opt_view(p.1))),
        Err(e) => Err(e@),
    }
}

/// The outcome of reading a token count.
pub open spec fn count_view(r: Result<TokenCount, Error>) -> Result<TokenCountV, ErrorV> {
    match r {
        Ok(c) => Ok(c@),
        Err(e) => Err(e@),
    }
}

/// A parse error.
pub fn parse_problem(message: String, body: &[u8]) -> (r: Error)
    ensures
        r@ == bad_body(message@, body@),
{
    Error::parse(message.as_str(), body)
}

/// The text of a member.
pub fn text_member(j: &Json, k: &str) -> (r: Option<String>)
    ensures
        opt_view(r) == json_as_str(json_get(j@, k@)),
{
    match j.get(k) {
        Some(v) => match v.as_str() {
            Some(s) => Some(s.clone()),
            None => None,
        },
        None => None,
    }
}

} // verus!
