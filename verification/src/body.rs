//! The payload model: a fully-materialized request/response body.
//!
//! A body is exactly one of: empty, raw bytes, UTF-8 text, or a structured
//! (JSON) value.  The active variant fully determines how the body converts
//! to text, to bytes and to a structured value, and conversions are raised
//! lazily, at the point of conversion.

use vstd::prelude::*;
use vstd::string::StrSliceExecFns;
use vstd::utf8::{decode_utf8, encode_utf8, valid_utf8};

use crate::structured::{
    json_bytes_ok, json_repr, json_text_ok, parse_json_bytes, parse_json_text, to_json_text,
};

verus! {

/// A fully-materialized payload.
#[derive(Debug)]
pub enum InMemoryBody {
    Empty,
    Bytes(Vec<u8>),
    Text(String),
    Json(serde_json::Value),
}

/// The mathematical model of a body: the same four variants over sequences.
#[verifier::ext_equal]
pub enum BodyView {
    Empty,
    Bytes(Seq<u8>),
    Text(Seq<char>),
    Json(serde_json::Value),
}

impl View for InMemoryBody {
    type V = BodyView;

    open spec fn view(&self) -> BodyView {
        match self {
            InMemoryBody::Empty => BodyView::Empty,
            InMemoryBody::Bytes(b) => BodyView::Bytes(b@),
            InMemoryBody::Text(s) => BodyView::Text(s@),
            InMemoryBody::Json(v) => BodyView::Json(*v),
        }
    }
}

/// A body conversion failure.
#[derive(Clone, Copy, PartialEq, Eq, Structural, Debug)]
pub enum InMemoryError {
    /// Raw bytes were asked for as text but are not valid UTF-8.
    InvalidUtf8,
    /// Text or bytes were asked for as structured data but do not parse.
    MalformedJson,
    /// An empty body was asked for as structured data.
    EmptyBody,
}

impl BodyView {
    /// A tag distinguishing the four variants; the first ingredient of the
    /// content-identity hash.
    pub open spec fn tag(self) -> u8 {
        match self {
            BodyView::Empty => 0,
            BodyView::Bytes(_) => 1,
            BodyView::Text(_) => 2,
            BodyView::Json(_) => 3,
        }
    }

    /// What `is_empty` returns: structured data never counts as empty,
    /// even when the structured value itself is empty.
    pub open spec fn is_empty(self) -> bool {
        match self {
            BodyView::Empty => true,
            BodyView::Bytes(b) => b.len() == 0,
            BodyView::Text(s) => s.len() == 0,
            BodyView::Json(_) => false,
        }
    }

    /// What converting the body to text yields.
    pub open spec fn to_text(self) -> Result<Seq<char>, InMemoryError> {
        match self {
            BodyView::Empty => Ok(Seq::empty()),
            BodyView::Bytes(b) => if valid_utf8(b) {
                Ok(decode_utf8(b))
            } else {
                Err(InMemoryError::InvalidUtf8)
            },
            BodyView::Text(s) => Ok(s),
            BodyView::Json(v) => Ok(json_repr(v)),
        }
    }

    /// What converting the body to bytes yields; this conversion is total.
    pub open spec fn to_bytes(self) -> Seq<u8> {
        match self {
            BodyView::Empty => Seq::empty(),
            BodyView::Bytes(b) => b,
            BodyView::Text(s) => encode_utf8(s),
            BodyView::Json(v) => encode_utf8(json_repr(v)),
        }
    }

    /// Whether converting the body to a structured value succeeds.
    pub open spec fn json_ok(self) -> bool {
        match self {
            BodyView::Empty => false,
            BodyView::Bytes(b) => json_bytes_ok(b),
            BodyView::Text(s) => json_text_ok(s),
            BodyView::Json(_) => true,
        }
    }

    /// The content fed to the content-identity hash after the variant tag:
    /// the raw content for bytes and text, the canonical serialized form for
    /// structured data.  This coincides with the body's byte conversion.
    pub open spec fn hash_content(self) -> Seq<u8> {
        self.to_bytes()
    }

    /// The content-identity of a body: the variant tag first, then the
    /// tag-specific raw content.  Two bodies of different variants have
    /// different identities even on byte-identical content.
    pub open spec fn hash_identity(self) -> Seq<u8> {
        seq![self.tag()] + self.hash_content()
    }
}

/// A redaction policy over structured values: the sensitive-field policy
/// applied by [`InMemoryBody::sanitize`].  The policy is an external
/// collaborator; nothing is assumed about what it does to the value.
pub trait SanitizePolicy {
    /// Redact sensitive fields of the value, in place.
    fn redact(&self, value: &mut serde_json::Value);
}

impl InMemoryBody {
    /// A body of raw bytes.
    pub fn new_bytes(bytes: Vec<u8>) -> (r: Self)
        ensures
            r@ == BodyView::Bytes(bytes@),
    {
        InMemoryBody::Bytes(bytes)
    }

    /// A body of UTF-8 text.
    pub fn new_text(text: String) -> (r: Self)
        ensures
            r@ == BodyView::Text(text@),
    {
        InMemoryBody::Text(text)
    }

    /// A body holding a structured value.
    pub fn new_json(value: serde_json::Value) -> (r: Self)
        ensures
            r@ == BodyView::Json(value),
    {
        InMemoryBody::Json(value)
    }

    /// The empty body.
    pub fn new_empty() -> (r: Self)
        ensures
            r@ == BodyView::Empty,
    {
        InMemoryBody::Empty
    }

    /// True for the empty body and for bytes or text of zero length; always
    /// false for structured data, even an empty object.
    pub fn is_empty(&self) -> (r: bool)
        ensures
            r == self@.is_empty(),
    {
        match self {
            InMemoryBody::Empty => true,
            InMemoryBody::Bytes(b) => b.len() == 0,
            InMemoryBody::Text(s) => s.as_str().is_empty(),
            InMemoryBody::Json(_) => false,
        }
    }

    /// Convert the body to text: the empty string for the empty body, a
    /// UTF-8 decode of raw bytes (failing on invalid UTF-8), the text
    /// itself, or the serialized form of a structured value.
    pub fn text(self) -> (r: Result<String, InMemoryError>)
        ensures
            r is Ok <==> self@.to_text() is Ok,
            r matches Ok(s) ==> self@.to_text() == Ok::<Seq<char>, InMemoryError>(s@),
            r matches Err(e) ==> self@.to_text() == Err::<Seq<char>, InMemoryError>(e),
    {
        match self {
            InMemoryBody::Empty => Ok(String::new()),
            InMemoryBody::Bytes(b) => match string_from_utf8(b) {
                Some(s) => Ok(s),
                None => Err(InMemoryError::InvalidUtf8),
            },
            InMemoryBody::Text(s) => Ok(s),
            InMemoryBody::Json(v) => Ok(to_json_text(&v)),
        }
    }

    /// Convert the body to bytes; this conversion is total: the empty
    /// sequence, the bytes themselves, the UTF-8 encoding of text, or the
    /// UTF-8 encoding of the serialized form of a structured value.
    pub fn bytes(self) -> (r: Vec<u8>)
        ensures
            r@ == self@.to_bytes(),
    {
        match self {
            InMemoryBody::Empty => Vec::new(),
            InMemoryBody::Bytes(b) => b,
            InMemoryBody::Text(s) => s.as_str().as_bytes_vec(),
            InMemoryBody::Json(v) => to_json_text(&v).as_str().as_bytes_vec(),
        }
    }

    /// Convert the body to a structured value: the empty body always fails,
    /// raw bytes and text are parsed (failing on malformed input), and a
    /// structured value is returned as it is.
    pub fn json(self) -> (r: Result<serde_json::Value, InMemoryError>)
        ensures
            r is Ok <==> self@.json_ok(),
            self@ matches BodyView::Json(v) ==> r == Ok::<serde_json::Value, InMemoryError>(v),
            r matches Err(e) ==> e == (if self@ is Empty {
                InMemoryError::EmptyBody
            } else {
                InMemoryError::MalformedJson
            }),
    {
        match self {
            InMemoryBody::Empty => Err(InMemoryError::EmptyBody),
            InMemoryBody::Bytes(b) => match parse_json_bytes(b.as_slice()) {
                Some(v) => Ok(v),
                None => Err(InMemoryError::MalformedJson),
            },
            InMemoryBody::Text(s) => match parse_json_text(s.as_str()) {
                Some(v) => Ok(v),
                None => Err(InMemoryError::MalformedJson),
            },
            InMemoryBody::Json(v) => Ok(v),
        }
    }

    /// The content-identity of the body, used downstream for request
    /// fingerprinting and deduplication: the variant tag, then the variant's
    /// raw content.
    pub fn hash(&self) -> (r: Vec<u8>)
        ensures
            r@ == self@.hash_identity(),
    {
        let mut out: Vec<u8> = Vec::new();
        match self {
            InMemoryBody::Empty => {
                out.push(0u8);
            },
            InMemoryBody::Bytes(b) => {
                out.push(1u8);
                let mut i: usize = 0;
                while i < b.len()
                    invariant
                        i <= b.len(),
                        out@ == seq![1u8] + b@.subrange(0, i as int),
                    decreases b.len() - i,
                {
                    out.push(b[i]);
                    i += 1;
                    proof {
                        assert(seq![1u8] + b@.subrange(0, i as int) =~= (seq![1u8]
                            + b@.subrange(0, i - 1)).push(b@[i - 1]));
                    }
                }
                proof {
                    assert(b@.subrange(0, b@.len() as int) =~= b@);
                }
            },
            InMemoryBody::Text(s) => {
                out.push(2u8);
                let mut content = s.as_str().as_bytes_vec();
                out.append(&mut content);
            },
            InMemoryBody::Json(v) => {
                out.push(3u8);
                let mut content = to_json_text(v).as_str().as_bytes_vec();
                out.append(&mut content);
            },
        }
        proof {
            assert(out@ =~= self@.hash_identity());
        }
        out
    }

    /// Apply the sensitive-field policy to a structured body, in place.
    /// A no-op on every other variant; never changes the variant.
    pub fn sanitize<P: SanitizePolicy>(&mut self, policy: &P)
        ensures
            old(self)@ matches BodyView::Json(_) ==> final(self)@ matches BodyView::Json(_),
            !(old(self)@ matches BodyView::Json(_)) ==> final(self)@ == old(self)@,
    {
        match self {
            InMemoryBody::Json(v) => policy.redact(v),
            _ => {},
        }
    }
}

impl Default for InMemoryBody {
    /// The default body is the empty body.
    fn default() -> (r: Self)
        ensures
            r@ == BodyView::Empty,
    {
        InMemoryBody::Empty
    }
}

impl Clone for InMemoryBody {
    /// Bodies are cheaply duplicable values, so that retry and redirect can
    /// replay a request without aliasing mutable state.
    fn clone(&self) -> (r: Self)
        ensures
            r@ == self@,
    {
        match self {
            InMemoryBody::Empty => InMemoryBody::Empty,
            InMemoryBody::Bytes(b) => {
                let mut copy: Vec<u8> = Vec::new();
                let mut i: usize = 0;
                while i < b.len()
                    invariant
                        i <= b.len(),
                        copy@ == b@.subrange(0, i as int),
                    decreases b.len() - i,
                {
                    copy.push(b[i]);
                    i += 1;
                    proof {
                        assert(b@.subrange(0, i as int) =~= b@.subrange(0, i - 1).push(
                            b@[i - 1],
                        ));
                    }
                }
                proof {
                    assert(b@.subrange(0, b@.len() as int) =~= b@);
                }
                InMemoryBody::Bytes(copy)
            },
            InMemoryBody::Text(s) => InMemoryBody::Text(s.clone()),
            InMemoryBody::Json(v) => InMemoryBody::Json(v.clone()),
        }
    }
}

/// Relies on `String::from_utf8`: succeeds exactly on valid UTF-8 input, and
/// the returned string is the decoding of those bytes (std documents
/// `into_bytes` as its inverse).
#[verifier::external_body]
fn string_from_utf8(b: Vec<u8>) -> (r: Option<String>)
    ensures
        r is Some <==> valid_utf8(b@),
        r matches Some(s) ==> s@ == decode_utf8(b@),
{
    String::from_utf8(b).ok()
}

/// Converting text to bytes is the exact inverse of decoding: for every byte
/// string `b` that is valid UTF-8, a text body holding the decoding of `b`
/// converts back to exactly `b`.
pub proof fn lemma_text_bytes_round_trip(b: Seq<u8>)
    requires
        valid_utf8(b),
    ensures
        BodyView::Text(decode_utf8(b)).to_bytes() == b,
{
    vstd::utf8::decode_utf8_encode_utf8(b);
}

/// The content-identity hash distinguishes the variant before the content:
/// two bodies of different variants have different identities, even when
/// their raw content is byte-identical.
pub proof fn lemma_hash_distinguishes_variants(a: BodyView, b: BodyView)
    requires
        a.tag() != b.tag(),
    ensures
        a.hash_identity() != b.hash_identity(),
{
    assert(a.hash_identity()[0] == a.tag());
    assert(b.hash_identity()[0] == b.tag());
}

} // verus!
