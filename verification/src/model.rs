//! The record model: encoded strings, typed values, and the record itself
//! with its optional timestamp, level, logger, message and caller.

use vstd::prelude::*;
use crate::json::{json_decoded, lemma_unescape_nonempty, decode_json_into};
use crate::fmtbuf::extend_bytes;

verus! {

/// A string value that is either already decoded (raw) or still carries
/// JSON-style escapes that a decode pass resolves.
pub enum EncodedString {
    /// Already-decoded bytes, emitted verbatim.
    Raw(Vec<u8>),
    /// A whole JSON string token: quotes around an escaped interior.
    Json(Vec<u8>),
}

/// The source bytes of an encoded string, exactly as they arrived.
pub open spec fn enc_source(s: EncodedString) -> Seq<u8> {
    match s {
        EncodedString::Raw(v) => v@,
        EncodedString::Json(v) => v@,
    }
}

/// The decoded bytes of an encoded string; `None` when a JSON token is
/// malformed.
pub open spec fn enc_decoded(s: EncodedString) -> Option<Seq<u8>> {
    match s {
        EncodedString::Raw(v) => Some(v@),
        EncodedString::Json(v) => json_decoded(v@),
    }
}

/// The bytes an encoded string contributes once decoding has been tried:
/// the decoded bytes, or on a malformed token the source bytes unchanged.
pub open spec fn dec_or_source(s: EncodedString) -> Seq<u8> {
    match enc_decoded(s) {
        Some(d) => d,
        None => enc_source(s),
    }
}

/// True of an encoded string that holds no content: an empty raw string, or
/// a JSON token of nothing but its quotes.
pub open spec fn enc_is_empty(s: EncodedString) -> bool {
    match s {
        EncodedString::Raw(v) => v@.len() == 0,
        EncodedString::Json(v) => v@.len() <= 2,
    }
}

/// A non-empty encoded string decodes, if at all, to at least one byte.
pub proof fn lemma_nonempty_decode(s: EncodedString)
    requires
        !enc_is_empty(s),
        enc_decoded(s) is Some,
    ensures
        enc_decoded(s).unwrap().len() > 0,
{
    match s {
        EncodedString::Raw(v) => {},
        EncodedString::Json(v) => {
            let interior = v@.subrange(1, v@.len() - 1);
            assert(interior.len() > 0);
            lemma_unescape_nonempty(interior, 0);
        },
    }
}

impl EncodedString {
    /// True if the string holds no content.
    pub fn is_empty(&self) -> (r: bool)
        ensures
            r == enc_is_empty(*self),
    {
        match self {
            EncodedString::Raw(v) => v.len() == 0,
            EncodedString::Json(v) => v.len() <= 2,
        }
    }

    /// Appends the source bytes unchanged.
    pub fn append_source(&self, out: &mut Vec<u8>)
        ensures
            final(out)@ == old(out)@ + enc_source(*self),
    {
        match self {
            EncodedString::Raw(v) => extend_bytes(out, v.as_slice()),
            EncodedString::Json(v) => extend_bytes(out, v.as_slice()),
        }
    }

    /// Decodes into `out`. On success appends exactly the decoded bytes and
    /// reports true; on a malformed token leaves `out` as it was and
    /// reports false.
    pub fn decode_into(&self, out: &mut Vec<u8>) -> (ok: bool)
        ensures
            match enc_decoded(*self) {
                Some(d) => ok && final(out)@ == old(out)@ + d,
                None => !ok && final(out)@ == old(out)@,
            },
    {
        match self {
            EncodedString::Raw(v) => {
                extend_bytes(out, v.as_slice());
                true
            },
            EncodedString::Json(v) => decode_json_into(v.as_slice(), out),
        }
    }
}

/// The four record levels.
#[derive(Clone, Copy, PartialEq, Eq, Structural, Debug)]
pub enum Level {
    Debug,
    Info,
    Warning,
    Error,
}

/// The origin of a record: free text, or a file with an optional line.
pub enum Caller {
    /// Free caller text.
    Text(Vec<u8>),
    /// A file name and a line, the line possibly empty.
    FileLine(Vec<u8>, Vec<u8>),
}

/// A record timestamp: the raw bytes as they arrived, and the external
/// timestamp formatter's rendering where it produced one. When no rendering
/// is present the raw bytes are shown unchanged.
pub struct Timestamp {
    /// The raw timestamp bytes.
    pub raw: Vec<u8>,
    /// What the external timestamp formatter made of them, if anything.
    pub formatted: Option<Vec<u8>>,
}

/// A typed field value. Objects and arrays arrive already structured from
/// the external decoder; their members are rendered in order.
pub enum RawValue {
    /// A string value, possibly still escaped.
    String(EncodedString),
    /// A number: its original digit bytes, emitted verbatim.
    Number(Vec<u8>),
    /// A boolean.
    Boolean(bool),
    /// The null value.
    Null,
    /// An object: ordered fields, duplicate keys allowed.
    Object(Vec<(Vec<u8>, RawValue)>),
    /// An array of values.
    Array(Vec<RawValue>),
}

/// True of a value that holds no content: an empty string, an object with
/// no fields, or an array with no elements.
pub open spec fn value_is_empty(v: RawValue) -> bool {
    match v {
        RawValue::String(s) => enc_is_empty(s),
        RawValue::Object(fields) => fields@.len() == 0,
        RawValue::Array(elems) => elems@.len() == 0,
        _ => false,
    }
}

impl RawValue {
    /// True if the value holds no content.
    pub fn is_empty(&self) -> (r: bool)
        ensures
            r == value_is_empty(*self),
    {
        match self {
            RawValue::String(s) => s.is_empty(),
            RawValue::Object(fields) => fields.len() == 0,
            RawValue::Array(elems) => elems.len() == 0,
            _ => false,
        }
    }
}

/// Every key under `v` is shorter than the machine word can count: what a
/// key-path push must know before it sizes its byte delta.
pub open spec fn value_keys_fit(v: RawValue) -> bool
    decreases v, 0int,
{
    match v {
        RawValue::Object(fields) => fields_keys_fit(fields@, 0),
        RawValue::Array(elems) => elems_keys_fit(elems@, 0),
        _ => true,
    }
}

/// Every key of the fields from position `i` on, and under their values,
/// is shorter than the machine word can count.
pub open spec fn fields_keys_fit(fields: Seq<(Vec<u8>, RawValue)>, i: int) -> bool
    decreases fields, fields.len() - i,
{
    i >= fields.len() || (0 <= i && fields[i].0@.len() < usize::MAX && value_keys_fit(fields[i].1)
        && fields_keys_fit(fields, i + 1))
}

/// Every key under the elements from position `i` on is shorter than the
/// machine word can count.
pub open spec fn elems_keys_fit(elems: Seq<RawValue>, i: int) -> bool
    decreases elems, elems.len() - i,
{
    i >= elems.len() || (0 <= i && value_keys_fit(elems[i]) && elems_keys_fit(elems, i + 1))
}

/// One structured log record.
pub struct Record {
    /// The optional timestamp.
    pub ts: Option<Timestamp>,
    /// The optional level.
    pub level: Option<Level>,
    /// The optional logger name.
    pub logger: Option<Vec<u8>>,
    /// The optional message value.
    pub message: Option<RawValue>,
    /// The ordered field pairs; duplicate keys are rendered independently.
    pub fields: Vec<(Vec<u8>, RawValue)>,
    /// The optional caller.
    pub caller: Option<Caller>,
}

/// Every key of the record's fields and message fits the machine word.
pub open spec fn record_keys_fit(rec: Record) -> bool {
    fields_keys_fit(rec.fields@, 0) && match rec.message {
        Some(v) => value_keys_fit(v),
        None => true,
    }
}

/// A record together with its original source bytes, for the raw
/// pass-through formatter.
pub struct RecordWithSource {
    /// The structured record.
    pub record: Record,
    /// The record's source bytes, exactly as they arrived.
    pub source: Vec<u8>,
}

} // verus!
