//! A converter for a small tree-shaped notes document: a record with a
//! required `title` and an optional list of child documents.  The
//! library decodes such a document from YAML text, re-encodes it as
//! compact JSON text, and plans single-file and directory-batch
//! conversions; reading and writing files is left to the caller.

mod codec;
mod convert;
mod encode;
mod error;
mod json;
mod laws;
mod model;
mod parse;
mod strings;
mod validate;

pub use codec::convert_text;
pub use codec::decode_json;
pub use codec::spec_decode;
pub use codec::yaml_json_of;
pub use convert::check_convert_preconditions;
pub use convert::derive_output_name;
pub use convert::is_eligible_name;
pub use convert::plan_directory;
pub use error::Error;
pub use json::Json;
pub use json::JsonSpec;
pub use laws::lemma_reject_missing_title;
pub use laws::lemma_reject_nonstring_title;
pub use laws::lemma_round_trip;
pub use model::DocSpec;
pub use model::Notes;
