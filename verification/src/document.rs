//! What a task file holds, as far as the runner reads it, and the call
//! that gets it from the file's bytes.

use serde_yaml::Value;
use vstd::prelude::*;

use crate::steps::{RawItem, RawItemView, RawValue, RawValueView};

verus! {

/// One entry of a document's top-level mapping.
#[derive(Debug, Clone, PartialEq, Eq)]
pub struct RawEntry {
    pub key: RawItem,
    pub value: RawValue,
}

/// A decoded document, before its entries are known to be operations.
#[derive(Debug, Clone, PartialEq, Eq)]
pub enum RawDocument {
    /// A mapping at the top level, its entries in the order in which the
    /// reader keeps them.
    Table(Vec<RawEntry>),
    /// Anything else at the top level.
    Other,
}

/// A `RawEntry` by the views of its parts.
pub struct RawEntryView {
    pub key: RawItemView,
    pub value: RawValueView,
}

impl View for RawEntry {
    type V = RawEntryView;

    open spec fn view(&self) -> RawEntryView {
        RawEntryView { key: self.key@, value: self.value@ }
    }
}

/// The views of a sequence of entries.
pub open spec fn entry_views(entries: Seq<RawEntry>) -> Seq<RawEntryView> {
    entries.map_values(|entry: RawEntry| entry@)
}

/// A `RawDocument` by the views of its parts.
pub enum RawDocumentView {
    Table(Seq<RawEntryView>),
    Other,
}

impl View for RawDocument {
    type V = RawDocumentView;

    open spec fn view(&self) -> RawDocumentView {
        match *self {
            RawDocument::Table(entries) => RawDocumentView::Table(entry_views(entries@)),
            RawDocument::Other => RawDocumentView::Other,
        }
    }
}

/// What the YAML reader makes of a file's bytes: the document, or the
/// reader's own words on why the bytes are no YAML, position included.
pub uninterp spec fn yaml_document(source: Seq<u8>) -> Result<RawDocumentView, Seq<char>>;

/// Reads `source` with `serde_yaml::from_slice` into a `serde_yaml::Value`
/// and copies what the runner looks at into a `RawDocument`: the entries of
/// a top-level mapping, in the order of the reader's `Mapping`, with the
/// text of each string and the items of each sequence. A refusal by the
/// reader comes back as the text that its error displays.
///
/// Believed, not proved: the outcome is a function of the bytes alone.
#[verifier::external_body]
pub(crate) fn read_document(source: &[u8]) -> (result: Result<RawDocument, String>)
    ensures
        match result {
            Ok(document) => yaml_document(source@) == Ok::<RawDocumentView, Seq<char>>(document@),
            Err(message) => yaml_document(source@) == Err::<RawDocumentView, Seq<char>>(message@),
        },
{
    let value = serde_yaml::from_slice::<Value>(source).map_err(|e| e.to_string())?;
    let Value::Mapping(mapping) = value else { return Ok(RawDocument::Other) };
    Ok(RawDocument::Table(mapping.into_iter().map(|(key, value)| RawEntry {
        key: match key { Value::String(text) => RawItem::Text(text), _ => RawItem::Other },
        value: match value {
            Value::String(text) => RawValue::Text(text),
            Value::Sequence(items) => RawValue::List(items.into_iter().map(|item| match item {
                Value::String(text) => RawItem::Text(text),
                _ => RawItem::Other,
            }).collect()),
            _ => RawValue::Other,
        },
    }).collect()))
}

} // verus!
