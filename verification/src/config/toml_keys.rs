//! The one call into the `toml` parser that the library makes.

use vstd::prelude::*;

verus! {

/// What the `toml` crate makes of `text` as a document: the keys of its
/// top-level table, or the text of its parse error (which names the line
/// and column of the fault and quotes the offending line).
pub uninterp spec fn toml_document_keys(text: Seq<char>) -> Result<Seq<Seq<char>>, Seq<char>>;

/// Parse `text` as a TOML document with `toml::from_str::<toml::Table>`
/// and hand back the keys of its top-level table, or the parse error as
/// its `Display` text. The contract only names the result: it is whatever
/// the `toml` parser yields for `text`.
#[verifier::external_body]
pub(crate) fn parse_toml_top_level_keys(text: &str) -> (r: Result<Vec<String>, String>)
    ensures
        match r {
            Ok(keys) => toml_document_keys(text@) == Ok::<Seq<Seq<char>>, Seq<char>>(
                keys@.map_values(|k: String| k@),
            ),
            Err(detail) => toml_document_keys(text@) == Err::<Seq<Seq<char>>, Seq<char>>(detail@),
        },
{
    match toml::from_str::<toml::Table>(text) {
        Ok(table) => Ok(table.keys().cloned().collect()),
        Err(error) => Err(error.to_string()),
    }
}

} // verus!
