//! The upload envelope: one metadata part that says which file the bytes
//! come from, and one stream part that carries the bytes.

use vstd::prelude::*;
use crate::path::file_name;
use crate::path::file_name_of;
use crate::path::parent;
use crate::path::parent_of;
use crate::reader::chunk_bytes;
use crate::reader::concat;

verus! {

/// Why no envelope could be made.
#[derive(Clone, Copy, Debug, PartialEq, Eq, Structural)]
pub enum FormDataError {
    /// The HTTP library refused a part.
    ReqwestError,
    /// The path has no parent directory or no file name to put into the
    /// metadata.
    NoFileName,
}

/// What `serde_json` writes for an object of two text members.
pub uninterp spec fn json_object_text(
    first_key: Seq<char>,
    first_value: Seq<char>,
    second_key: Seq<char>,
    second_value: Seq<char>,
) -> Seq<char>;

/// Has `serde_json` write an object of two text members as compact JSON.
/// Trusted: the text is serde_json's, known to the proofs only under the
/// name `json_object_text`.
#[verifier::external_body]
fn json_object(first_key: &str, first_value: &String, second_key: &str, second_value: &String) -> (text:
    String)
    ensures
        text@ == json_object_text(first_key@, first_value@, second_key@, second_value@),
{
    let mut object = serde_json::Map::new();
    object.insert(first_key.to_string(), serde_json::Value::String(first_value.clone()));
    object.insert(second_key.to_string(), serde_json::Value::String(second_value.clone()));
    serde_json::Value::Object(object).to_string()
}

/// The name of the part that carries the metadata.
pub const METADATA_PART: &'static str = "metadata";

/// The media type of the part that carries the metadata.
pub const METADATA_MIME: &'static str = "application/json";

/// The name of the part that carries the bytes.
pub const STREAM_PART: &'static str = "stream";

/// The media type of the part that carries the bytes.
pub const STREAM_MIME: &'static str = "application/octet-stream";

/// The metadata of the file at `path`: a JSON object that gives its parent
/// directory as `path` and its name as `file`. A path without a parent or
/// without a file name has none.
pub open spec fn metadata_text(path: Seq<char>) -> Option<Seq<char>> {
    match (parent_of(path), file_name_of(path)) {
        (Some(dir), Some(name)) => Some(json_object_text("path"@, dir, "file"@, name)),
        _ => None,
    }
}

/// The metadata of the file at `path`.
pub fn metadata_for(path: &String) -> (metadata: Option<String>)
    ensures
        metadata is Some <==> metadata_text(path@) is Some,
        metadata matches Some(m) ==> metadata_text(path@) == Some(m@),
{
    match parent(path) {
        Some(dir) => match file_name(path) {
            Some(name) => Some(json_object("path", &dir, "file", &name)),
            None => None,
        },
        None => None,
    }
}

/// What a part of a form carries.
pub enum PartBody {
    /// A text.
    Text(String),
    /// Bytes, streamed chunk by chunk.
    Stream(Vec<bytes::Bytes>),
}

/// One part of a multipart form.
pub struct FormPart {
    pub name: String,
    pub mime: String,
    pub body: PartBody,
}

/// The mathematical content of a `PartBody`.
pub enum PartBodyView {
    Text(Seq<char>),
    Stream(Seq<Seq<u8>>),
}

/// The mathematical content of a `FormPart`.
pub struct PartView {
    pub name: Seq<char>,
    pub mime: Seq<char>,
    pub body: PartBodyView,
}

impl View for FormPart {
    type V = PartView;

    open spec fn view(&self) -> PartView {
        PartView {
            name: self.name@,
            mime: self.mime@,
            body: match self.body {
                PartBody::Text(text) => PartBodyView::Text(text@),
                PartBody::Stream(chunks) => PartBodyView::Stream(chunk_bytes(chunks@)),
            },
        }
    }
}

/// The parts of the form that uploads the given metadata and chunks: first
/// the part `metadata`, a JSON text; then the part `stream`, the bytes.
pub open spec fn form_parts(metadata: Seq<char>, chunks: Seq<Seq<u8>>) -> Seq<PartView> {
    seq![
        PartView {
            name: METADATA_PART@,
            mime: METADATA_MIME@,
            body: PartBodyView::Text(metadata),
        },
        PartView { name: STREAM_PART@, mime: STREAM_MIME@, body: PartBodyView::Stream(chunks) },
    ]
}

/// What one upload carries: the metadata, and the newly read bytes as the
/// chunks that are streamed one after the other.
pub struct UploadEnvelope {
    pub metadata: String,
    pub stream: Vec<bytes::Bytes>,
}

impl UploadEnvelope {
    /// The bytes that the stream part carries, all chunks put together.
    pub open spec fn body(&self) -> Seq<u8> {
        concat(chunk_bytes(self.stream@))
    }

    /// The parts of the form that the envelope is sent as, in order.
    pub open spec fn parts(&self) -> Seq<PartView> {
        form_parts(self.metadata@, chunk_bytes(self.stream@))
    }

    /// The parts of the form that the envelope is sent as, in order.
    pub fn into_parts(self) -> (parts: Vec<FormPart>)
        ensures
            parts@.map_values(|part: FormPart| part@) == self.parts(),
    {
        let mut parts: Vec<FormPart> = Vec::new();
        parts.push(
            FormPart {
                name: METADATA_PART.to_owned(),
                mime: METADATA_MIME.to_owned(),
                body: PartBody::Text(self.metadata),
            },
        );
        parts.push(
            FormPart {
                name: STREAM_PART.to_owned(),
                mime: STREAM_MIME.to_owned(),
                body: PartBody::Stream(self.stream),
            },
        );
        assert(parts@.map_values(|part: FormPart| part@) == self.parts());
        parts
    }
}

/// The envelope of the given metadata and chunks. It is sent as a form of
/// two parts: `metadata`, of type `application/json`, which holds the
/// metadata, and then `stream`, of type `application/octet-stream`, which
/// holds the chunks.
pub fn create_form_data(metadata: String, stream: Vec<bytes::Bytes>) -> (envelope: UploadEnvelope)
    ensures
        envelope.metadata == metadata,
        envelope.stream == stream,
        envelope.parts() == form_parts(metadata@, chunk_bytes(stream@)),
{
    UploadEnvelope { metadata, stream }
}

} // verus!
