//! A unified intermediate representation for chat model APIs, with verified
//! conversion to and from provider wire formats.

pub mod model;
pub mod text;
pub mod scan;
pub mod json;
pub mod merge;
pub mod value;
pub mod ir;
pub mod convert;
pub mod error;
pub mod headers;
pub mod history;
pub mod history_laws;
pub mod mirror;
pub mod response;
pub mod sink;
pub mod loss;
pub mod built;
pub mod json_laws;
pub mod namespaces;
pub mod sweep;
pub mod assembly;
pub mod pointer;
pub mod display;
pub mod pipeline;
pub mod request;
pub mod models;
pub mod stream;
pub mod protocol;
pub mod turns;
pub mod format;
pub mod url;
pub mod api_error;
pub mod failure_laws;
pub mod decode;
pub mod formats;
pub mod accumulate;
pub mod accumulate_laws;
pub mod shown;
pub mod client;
