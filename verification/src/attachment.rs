//! The attachment classifier: a closed enumeration of supported attachment
//! categories, each with one fixed MIME string and one fixed file extension,
//! plus the `IntoAttachment` conversion for supported payload shapes.

use vstd::prelude::*;

verus! {

/// Every attachment category the recorder supports. Classification is the
/// caller's burden: there is no sniffing and no fallback beyond the defaults
/// that the `IntoAttachment` implementations choose.
#[derive(Clone, Copy, Debug, PartialEq, Eq, Structural)]
pub enum AttachmentType {
    Text,
    Html,
    Xml,
    Json,
    Yaml,
    Csv,
    Tsv,
    UriList,
    Png,
    Jpeg,
    Gif,
    Bmp,
    Tiff,
    Svg,
    ImageDiff,
    Mp4,
    Ogg,
    Webm,
}

impl AttachmentType {
    /// The MIME string of this category, as a mathematical value.
    pub open spec fn spec_mime_type(self) -> Seq<char> {
        match self {
            AttachmentType::Text => "text/plain"@,
            AttachmentType::Html => "text/html"@,
            AttachmentType::Xml => "application/xml"@,
            AttachmentType::Json => "application/json"@,
            AttachmentType::Yaml => "application/yaml"@,
            AttachmentType::Csv => "text/csv"@,
            AttachmentType::Tsv => "text/tab-separated-values"@,
            AttachmentType::UriList => "text/uri-list"@,
            AttachmentType::Png => "image/png"@,
            AttachmentType::Jpeg => "image/jpeg"@,
            AttachmentType::Gif => "image/gif"@,
            AttachmentType::Bmp => "image/bmp"@,
            AttachmentType::Tiff => "image/tiff"@,
            AttachmentType::Svg => "image/svg+xml"@,
            AttachmentType::ImageDiff => "application/vnd.allure.image.diff"@,
            AttachmentType::Mp4 => "video/mp4"@,
            AttachmentType::Ogg => "video/ogg"@,
            AttachmentType::Webm => "video/webm"@,
        }
    }

    /// The file extension of this category, as a mathematical value.
    pub open spec fn spec_extension(self) -> Seq<char> {
        match self {
            AttachmentType::Text => "txt"@,
            AttachmentType::Html => "html"@,
            AttachmentType::Xml => "xml"@,
            AttachmentType::Json => "json"@,
            AttachmentType::Yaml => "yaml"@,
            AttachmentType::Csv => "csv"@,
            AttachmentType::Tsv => "tsv"@,
            AttachmentType::UriList => "uri"@,
            AttachmentType::Png => "png"@,
            AttachmentType::Jpeg => "jpg"@,
            AttachmentType::Gif => "gif"@,
            AttachmentType::Bmp => "bmp"@,
            AttachmentType::Tiff => "tiff"@,
            AttachmentType::Svg => "svg"@,
            AttachmentType::ImageDiff => "diff.png"@,
            AttachmentType::Mp4 => "mp4"@,
            AttachmentType::Ogg => "ogg"@,
            AttachmentType::Webm => "webm"@,
        }
    }

    /// The MIME string embedded in the result document for this category.
    pub fn mime_type(&self) -> (r: &'static str)
        ensures
            r@ == self.spec_mime_type(),
    {
        match self {
            AttachmentType::Text => "text/plain",
            AttachmentType::Html => "text/html",
            AttachmentType::Xml => "application/xml",
            AttachmentType::Json => "application/json",
            AttachmentType::Yaml => "application/yaml",
            AttachmentType::Csv => "text/csv",
            AttachmentType::Tsv => "text/tab-separated-values",
            AttachmentType::UriList => "text/uri-list",
            AttachmentType::Png => "image/png",
            AttachmentType::Jpeg => "image/jpeg",
            AttachmentType::Gif => "image/gif",
            AttachmentType::Bmp => "image/bmp",
            AttachmentType::Tiff => "image/tiff",
            AttachmentType::Svg => "image/svg+xml",
            AttachmentType::ImageDiff => "application/vnd.allure.image.diff",
            AttachmentType::Mp4 => "video/mp4",
            AttachmentType::Ogg => "video/ogg",
            AttachmentType::Webm => "video/webm",
        }
    }

    /// The file extension used when persisting an attachment of this category.
    pub fn extension(&self) -> (r: &'static str)
        ensures
            r@ == self.spec_extension(),
    {
        match self {
            AttachmentType::Text => "txt",
            AttachmentType::Html => "html",
            AttachmentType::Xml => "xml",
            AttachmentType::Json => "json",
            AttachmentType::Yaml => "yaml",
            AttachmentType::Csv => "csv",
            AttachmentType::Tsv => "tsv",
            AttachmentType::UriList => "uri",
            AttachmentType::Png => "png",
            AttachmentType::Jpeg => "jpg",
            AttachmentType::Gif => "gif",
            AttachmentType::Bmp => "bmp",
            AttachmentType::Tiff => "tiff",
            AttachmentType::Svg => "svg",
            AttachmentType::ImageDiff => "diff.png",
            AttachmentType::Mp4 => "mp4",
            AttachmentType::Ogg => "ogg",
            AttachmentType::Webm => "webm",
        }
    }
}

/// A payload that can be registered as an attachment: it classifies itself
/// into an `AttachmentType` and yields the raw bytes to persist.
pub trait IntoAttachment {
    /// The category this payload classifies itself as.
    spec fn spec_attachment_type(&self) -> AttachmentType;

    /// The bytes this payload persists as, where they are a function of
    /// the payload alone; a payload whose bytes only an outside crate can
    /// produce leaves them unconstrained (`None`).
    spec fn spec_bytes(&self) -> Option<Seq<u8>>;

    /// The category this payload classifies itself as; raw text and byte
    /// payloads default to plain text, parsed structured values to JSON.
    fn attachment_type(&self) -> (t: AttachmentType)
        ensures
            t == self.spec_attachment_type(),
    ;

    /// The raw bytes handed to the persistence layer.
    fn into_bytes(self) -> (r: Vec<u8>)
        ensures
            self.spec_bytes() is Some ==> r@ == self.spec_bytes()->0,
    ;
}

impl IntoAttachment for &str {
    open spec fn spec_attachment_type(&self) -> AttachmentType {
        AttachmentType::Text
    }

    open spec fn spec_bytes(&self) -> Option<Seq<u8>> {
        Some(vstd::utf8::encode_utf8(self@))
    }

    fn attachment_type(&self) -> (t: AttachmentType)
        ensures
            t == self.spec_attachment_type(),
    {
        AttachmentType::Text
    }

    fn into_bytes(self) -> (r: Vec<u8>)
        ensures
            self.spec_bytes() is Some ==> r@ == self.spec_bytes()->0,
    {
        vstd::slice::slice_to_vec(self.as_bytes())
    }
}

impl IntoAttachment for String {
    open spec fn spec_attachment_type(&self) -> AttachmentType {
        AttachmentType::Text
    }

    open spec fn spec_bytes(&self) -> Option<Seq<u8>> {
        Some(vstd::utf8::encode_utf8(self@))
    }

    fn attachment_type(&self) -> (t: AttachmentType)
        ensures
            t == self.spec_attachment_type(),
    {
        AttachmentType::Text
    }

    fn into_bytes(self) -> (r: Vec<u8>)
        ensures
            self.spec_bytes() is Some ==> r@ == self.spec_bytes()->0,
    {
        vstd::slice::slice_to_vec(self.as_str().as_bytes())
    }
}

impl IntoAttachment for &[u8] {
    open spec fn spec_attachment_type(&self) -> AttachmentType {
        AttachmentType::Text
    }

    open spec fn spec_bytes(&self) -> Option<Seq<u8>> {
        Some(self@)
    }

    fn attachment_type(&self) -> (t: AttachmentType)
        ensures
            t == self.spec_attachment_type(),
    {
        AttachmentType::Text
    }

    fn into_bytes(self) -> (r: Vec<u8>)
        ensures
            self.spec_bytes() is Some ==> r@ == self.spec_bytes()->0,
    {
        vstd::slice::slice_to_vec(self)
    }
}

impl IntoAttachment for Vec<u8> {
    open spec fn spec_attachment_type(&self) -> AttachmentType {
        AttachmentType::Text
    }

    open spec fn spec_bytes(&self) -> Option<Seq<u8>> {
        Some(self@)
    }

    fn attachment_type(&self) -> (t: AttachmentType)
        ensures
            t == self.spec_attachment_type(),
    {
        AttachmentType::Text
    }

    fn into_bytes(self) -> (r: Vec<u8>)
        ensures
            self.spec_bytes() is Some ==> r@ == self.spec_bytes()->0,
    {
        self
    }
}

#[verifier::external_type_specification]
#[verifier::external_body]
pub struct ExJsonValue(serde_json::Value);

/// Relies on serde_json::to_string_pretty: pretty-prints the value as JSON
/// text; a value that cannot be serialized falls back to an empty object.
/// Nothing is claimed of the bytes produced.
#[verifier::external_body]
fn json_pretty_bytes(v: &serde_json::Value) -> Vec<u8> {
    serde_json::to_string_pretty(v).unwrap_or_else(|_| "{}".to_string()).into_bytes()
}

impl IntoAttachment for serde_json::Value {
    open spec fn spec_attachment_type(&self) -> AttachmentType {
        AttachmentType::Json
    }

    open spec fn spec_bytes(&self) -> Option<Seq<u8>> {
        None
    }

    fn attachment_type(&self) -> (t: AttachmentType)
        ensures
            t == self.spec_attachment_type(),
    {
        AttachmentType::Json
    }

    fn into_bytes(self) -> (r: Vec<u8>)
        ensures
            self.spec_bytes() is Some ==> r@ == self.spec_bytes()->0,
    {
        json_pretty_bytes(&self)
    }
}

/// A payload paired with an explicit category, overriding the default
/// classification of the inner payload.
pub struct TypedAttachment<T> {
    pub content: T,
    pub attachment_type: AttachmentType,
}

impl<T: IntoAttachment> IntoAttachment for TypedAttachment<T> {
    open spec fn spec_attachment_type(&self) -> AttachmentType {
        self.attachment_type
    }

    open spec fn spec_bytes(&self) -> Option<Seq<u8>> {
        self.content.spec_bytes()
    }

    fn attachment_type(&self) -> (t: AttachmentType)
        ensures
            t == self.spec_attachment_type(),
    {
        self.attachment_type
    }

    fn into_bytes(self) -> (r: Vec<u8>)
        ensures
            self.spec_bytes() is Some ==> r@ == self.spec_bytes()->0,
    {
        self.content.into_bytes()
    }
}

} // verus!
