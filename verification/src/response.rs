//! Lambda response conversion.

use crate::event::{EventResponse, LambdaBody};
use crate::text::utf8_text;
use crate::headers::{
    field_values, first_value_of, header_view, remove_field, str_views, values_of, without_field,
};
use vstd::prelude::*;
use vstd::utf8::{encode_utf8, valid_utf8};

verus! {

/// The digit that writes `d` (below 16) in lower-case hexadecimal.
pub open spec fn hex_digit(d: u8) -> u8 {
    if d < 10 {
        (48 + d) as u8
    } else {
        (87 + d) as u8
    }
}

/// How serde_json writes one byte of a string's UTF-8 bytes inside quotes:
/// `"` and `\` escaped with a backslash, backspace, tab, line feed, form
/// feed and carriage return as `\b \t \n \f \r`, any other byte below
/// 0x20 as `\u00` and two lower-case hex digits, every other byte as it is.
pub open spec fn json_escaped_byte(b: u8) -> Seq<u8> {
    if b == 0x22 {
        seq![0x5c, 0x22]
    } else if b == 0x5c {
        seq![0x5c, 0x5c]
    } else if b == 0x08 {
        seq![0x5c, 0x62]
    } else if b == 0x09 {
        seq![0x5c, 0x74]
    } else if b == 0x0a {
        seq![0x5c, 0x6e]
    } else if b == 0x0c {
        seq![0x5c, 0x66]
    } else if b == 0x0d {
        seq![0x5c, 0x72]
    } else if b < 0x20 {
        seq![0x5c, 0x75, 0x30, 0x30, hex_digit(b / 16), hex_digit(b % 16)]
    } else {
        seq![b]
    }
}

/// The escaped form of a byte sequence, byte by byte.
pub open spec fn json_escaped(bytes: Seq<u8>) -> Seq<u8>
    decreases bytes.len(),
{
    if bytes.len() == 0 {
        seq![]
    } else {
        json_escaped(bytes.drop_last()) + json_escaped_byte(bytes.last())
    }
}

/// A JSON string literal holding `text`, as serde_json writes it.
pub open spec fn json_string(text: Seq<char>) -> Seq<u8> {
    seq![0x22u8] + json_escaped(encode_utf8(text)) + seq![0x22u8]
}

/// The compact JSON text of an object with the one string member `key`:
/// `{"key":"value"}`.
pub open spec fn json_object(key: Seq<char>, value: Seq<char>) -> Seq<u8> {
    seq![0x7bu8] + json_string(key) + seq![0x3au8] + json_string(value) + seq![0x7du8]
}

/// Bytes with no quote, no backslash and no control byte below 0x20 are
/// written into a JSON string as they are.
pub proof fn law_json_escaped_plain(bytes: Seq<u8>)
    requires
        forall|i: int| 0 <= i < bytes.len() ==> {
            let b = #[trigger] bytes[i];
            b >= 0x20 && b != 0x22 && b != 0x5c
        },
    ensures
        json_escaped(bytes) == bytes,
    decreases bytes.len(),
{
    if bytes.len() > 0 {
        let prefix = bytes.drop_last();
        assert forall|i: int| 0 <= i < prefix.len() implies {
            let b = #[trigger] prefix[i];
            b >= 0x20 && b != 0x22 && b != 0x5c
        } by {
            assert(prefix[i] == bytes[i]);
        }
        law_json_escaped_plain(prefix);
        let last = bytes[bytes.len() - 1];
        assert(json_escaped_byte(last) == seq![last]);
        assert(prefix + seq![last] =~= bytes);
    }
}

/// A byte that may stand in an HTTP header name: an ASCII letter or digit,
/// or one of ``! # $ % & ' * + - . ^ _ ` | ~``.
pub open spec fn header_name_byte(b: u8) -> bool {
    ||| 48 <= b <= 57
    ||| 65 <= b <= 90
    ||| 97 <= b <= 122
    ||| b == 33
    ||| 35 <= b <= 39
    ||| b == 42
    ||| b == 43
    ||| b == 45
    ||| b == 46
    ||| 94 <= b <= 96
    ||| b == 124
    ||| b == 126
}

/// Whether `http::HeaderName::from_bytes` accepts the UTF-8 bytes of `name`:
/// from 1 to 65535 bytes, each a header name byte.
pub open spec fn header_name_accepted(name: Seq<char>) -> bool {
    &&& 0 < encode_utf8(name).len() <= 65535
    &&& forall|i: int| 0 <= i < encode_utf8(name).len() ==> header_name_byte(#[trigger] encode_utf8(name)[i])
}

/// A byte that may stand in an HTTP header value: visible ASCII, any byte
/// from 128 up, or a horizontal tab.
pub open spec fn header_value_byte(b: u8) -> bool {
    (b >= 32 && b != 127) || b == 9
}

/// Whether `http::HeaderValue::from_bytes` accepts the UTF-8 bytes of `value`.
pub open spec fn header_value_accepted(value: Seq<char>) -> bool {
    forall|i: int| 0 <= i < encode_utf8(value).len() ==> header_value_byte(#[trigger] encode_utf8(value)[i])
}

/// A status code that `http::StatusCode` can represent.
pub open spec fn status_accepted(status: u16) -> bool {
    100 <= status <= 999
}

/// The header can be put into an `http` header map.
pub open spec fn header_accepted(header: (Seq<char>, Seq<char>)) -> bool {
    header_name_accepted(header.0) && header_value_accepted(header.1)
}

/// Every header of the list can be put into an `http` header map.
pub open spec fn headers_accepted(headers: Seq<(Seq<char>, Seq<char>)>) -> bool {
    forall|i: int| 0 <= i < headers.len() ==> #[trigger] header_accepted(headers[i])
}

/// `body` is what a response with the given bytes and base64 flag sends:
/// the bytes as binary when the flag is set or when they are not UTF-8, and
/// as the text they encode otherwise.
pub open spec fn sent_body(body: LambdaBody, bytes: Seq<u8>, base64: bool) -> bool {
    match body {
        LambdaBody::Binary(b) => (base64 || !valid_utf8(bytes)) && b@ == bytes,
        LambdaBody::Text(s) => !base64 && valid_utf8(bytes) && encode_utf8(s@) == bytes,
        LambdaBody::Empty => false,
    }
}

/// The bytes a sent body carries: the UTF-8 bytes of a text body, the bytes
/// of a binary one.
pub open spec fn sent_bytes(body: LambdaBody) -> Seq<u8> {
    match body {
        LambdaBody::Empty => seq![],
        LambdaBody::Text(s) => encode_utf8(s@),
        LambdaBody::Binary(b) => b@,
    }
}

/// The body a response sends carries exactly the response's bytes, and it is
/// text exactly when the response is not marked base64 and its bytes are
/// UTF-8.
pub proof fn law_sent_body_keeps_bytes(body: LambdaBody, bytes: Seq<u8>, base64: bool)
    requires
        sent_body(body, bytes, base64),
    ensures
        sent_bytes(body) == bytes,
        body is Text <==> (!base64 && valid_utf8(bytes)),
        body is Binary <==> (base64 || !valid_utf8(bytes)),
{
}

/// A response goes out as it is exactly when its status is from 100 to 999
/// and every header has a name and a value that HTTP accepts; nothing else
/// about the status or the headers matters.
pub proof fn law_response_acceptance(r: LambdaResponse)
    ensures
        r.spec_accepted() <==> {
            &&& 100 <= r.status <= 999
            &&& forall|i: int|
                0 <= i < r.headers@.len() ==> header_name_accepted(#[trigger] r.headers@[i].0@)
                    && header_value_accepted(r.headers@[i].1@)
        },
{
    let view = r.spec_headers();
    assert forall|i: int| 0 <= i < r.headers@.len() implies view[i] == (r.headers@[i].0@, r.headers@[i].1@) by {}
    if headers_accepted(view) {
        assert forall|i: int| 0 <= i < r.headers@.len() implies header_name_accepted(#[trigger] r.headers@[i].0@)
            && header_value_accepted(r.headers@[i].1@) by {
            assert(header_accepted(view[i]));
        }
    }
    if forall|i: int|
        0 <= i < r.headers@.len() ==> header_name_accepted(#[trigger] r.headers@[i].0@)
            && header_value_accepted(r.headers@[i].1@) {
        assert forall|i: int| 0 <= i < view.len() implies #[trigger] header_accepted(view[i]) by {
            assert(header_name_accepted(r.headers@[i].0@) && header_value_accepted(r.headers@[i].1@));
        }
    }
}

/// The response sent in place of one that cannot be represented.
pub open spec fn is_fallback_response(r: EventResponse) -> bool {
    &&& r.status == 500
    &&& r.headers@.len() == 0
    &&& r.body matches LambdaBody::Text(s) && s@ == "Internal Server Error"@
}

/// Calls `serde_json::to_vec` on a JSON object with the one string member
/// `key`, whose value is `value`: serde_json's compact writer gives
/// `{"key":"value"}` with both strings escaped as `json_escaped` says, and
/// writes only UTF-8. Serializing such an object cannot fail.
#[verifier::external_body]
fn json_object_document(key: &str, value: &str) -> (res: Vec<u8>)
    ensures
        res@ == json_object(key@, value@),
        valid_utf8(res@),
{
    let mut object = serde_json::Map::new();
    object.insert(key.to_string(), serde_json::Value::String(value.to_string()));
    serde_json::to_vec(&serde_json::Value::Object(object)).unwrap_or_default()
}

/// Calls `http::StatusCode::from_u16`, which accepts 100 to 999.
#[verifier::external_body]
fn status_is_accepted(status: u16) -> (res: bool)
    ensures
        res == status_accepted(status),
{
    http::StatusCode::from_u16(status).is_ok()
}

/// Calls `http::HeaderName::from_bytes` on the name's bytes, which accepts
/// from 1 to 65535 bytes that are all header name bytes.
#[verifier::external_body]
fn name_is_accepted(name: &str) -> (res: bool)
    ensures
        res == header_name_accepted(name@),
{
    http::HeaderName::from_bytes(name.as_bytes()).is_ok()
}

/// Calls `http::HeaderValue::from_bytes` on the value's bytes, which accepts
/// them when each is a header value byte.
#[verifier::external_body]
fn value_is_accepted(value: &str) -> (res: bool)
    ensures
        res == header_value_accepted(value@),
{
    http::HeaderValue::from_bytes(value.as_bytes()).is_ok()
}

fn all_headers_accepted(headers: &Vec<(String, String)>) -> (res: bool)
    ensures
        res == headers_accepted(header_view(headers@)),
{
    let len = headers.len();
    let ghost view = header_view(headers@);
    let mut i: usize = 0;
    while i < len
        invariant
            0 <= i <= len,
            len == headers@.len(),
            view == header_view(headers@),
            forall|j: int| 0 <= j < i ==> #[trigger] header_accepted(view[j]),
        decreases len - i,
    {
        let entry = &headers[i];
        assert(view[i as int] == (entry.0@, entry.1@));
        let name_ok = name_is_accepted(entry.0.as_str());
        let value_ok = value_is_accepted(entry.1.as_str());
        if !(name_ok && value_ok) {
            assert(!header_accepted(view[i as int]));
            return false;
        }
        assert(header_accepted(view[i as int]));
        i += 1;
    }
    true
}

/// Lambda HTTP response.
pub struct LambdaResponse {
    /// Status code.
    pub status: u16,
    /// Response headers, in emission order.
    ///
    /// A list rather than a map because HTTP allows the same field name to
    /// appear more than once and a handler must be able to use that — most
    /// importantly to emit several `Set-Cookie` lines, which cannot legally be
    /// folded into one.
    pub headers: Vec<(String, String)>,
    /// Response body.
    pub body: Vec<u8>,
    /// Whether body is base64 encoded.
    pub is_base64: bool,
}

impl LambdaResponse {
    /// The headers as `(name, value)` character sequences.
    pub open spec fn spec_headers(&self) -> Seq<(Seq<char>, Seq<char>)> {
        header_view(self.headers@)
    }

    /// The response can be handed to the Lambda runtime as it is.
    pub open spec fn spec_accepted(&self) -> bool {
        status_accepted(self.status) && headers_accepted(self.spec_headers())
    }

    /// Create a new response.
    pub fn new(status: u16, body: Vec<u8>) -> (res: Self)
        ensures
            res.status == status,
            res.headers@.len() == 0,
            res.body == body,
            !res.is_base64,
    {
        LambdaResponse { status, headers: Vec::new(), body, is_base64: false }
    }

    /// Create an OK response.
    pub fn ok(body: Vec<u8>) -> (res: Self)
        ensures
            res.status == 200,
            res.headers@.len() == 0,
            res.body == body,
            !res.is_base64,
    {
        Self::new(200, body)
    }

    /// Create a JSON response from a serialized JSON document.
    pub fn json(document: Vec<u8>) -> (res: Self)
        ensures
            res.status == 200,
            res.spec_headers() == seq![("content-type"@, "application/json"@)],
            res.body == document,
            !res.is_base64,
    {
        Self::new(200, document).header("content-type", "application/json")
    }

    /// Create an error response: the JSON object `{"error": message}`.
    pub fn error(status: u16, message: &str) -> (res: Self)
        ensures
            res.status == status,
            res.spec_headers() == seq![("content-type"@, "application/json"@)],
            res.body@ == json_object("error"@, message@),
            valid_utf8(res.body@),
            !res.is_base64,
    {
        Self::new(status, json_object_document("error", message)).header("content-type", "application/json")
    }

    /// Create a not found response.
    pub fn not_found() -> (res: Self)
        ensures
            res.status == 404,
            res.spec_headers() == seq![("content-type"@, "application/json"@)],
            res.body@ == json_object("error"@, "Not Found"@),
            valid_utf8(res.body@),
            !res.is_base64,
    {
        Self::error(404, "Not Found")
    }

    /// Create an internal server error response.
    pub fn internal_error(message: &str) -> (res: Self)
        ensures
            res.status == 500,
            res.spec_headers() == seq![("content-type"@, "application/json"@)],
            res.body@ == json_object("error"@, message@),
            valid_utf8(res.body@),
            !res.is_base64,
    {
        Self::error(500, message)
    }

    /// Append a header.
    ///
    /// Appends rather than replaces, so calling this twice with the same name
    /// emits two header lines (e.g. two `Set-Cookie`s). Use `set_header` to
    /// replace instead.
    pub fn header(self, name: &str, value: &str) -> (res: Self)
        ensures
            res.status == self.status,
            res.spec_headers() == self.spec_headers().push((name@, value@)),
            res.body == self.body,
            res.is_base64 == self.is_base64,
    {
        let mut res = self;
        let ghost before = res.headers@;
        res.headers.push((String::from_str(name), String::from_str(value)));
        assert(header_view(res.headers@) =~= header_view(before).push((name@, value@)));
        res
    }

    /// Set a header, removing any existing lines with the same name.
    pub fn set_header(self, name: &str, value: &str) -> (res: Self)
        ensures
            res.status == self.status,
            res.spec_headers() == without_field(self.spec_headers(), name@).push((name@, value@)),
            res.body == self.body,
            res.is_base64 == self.is_base64,
    {
        let mut res = self;
        res.headers = remove_field(&res.headers, name);
        let ghost before = res.headers@;
        res.headers.push((String::from_str(name), String::from_str(value)));
        assert(header_view(res.headers@) =~= header_view(before).push((name@, value@)));
        res
    }

    /// The first value for `name`, matched case-insensitively.
    pub fn header_value(&self, name: &str) -> (res: Option<&str>)
        ensures
            res is Some <==> field_values(self.spec_headers(), name@).len() > 0,
            res matches Some(v) ==> v@ == field_values(self.spec_headers(), name@)[0],
    {
        first_value_of(&self.headers, name)
    }

    /// Every value for `name`, in emission order, matched case-insensitively.
    pub fn header_values(&self, name: &str) -> (res: Vec<&str>)
        ensures
            str_views(res@) == field_values(self.spec_headers(), name@),
    {
        values_of(&self.headers, name)
    }

    /// Set content type.
    pub fn content_type(self, content_type: &str) -> (res: Self)
        ensures
            res.status == self.status,
            res.spec_headers() == without_field(self.spec_headers(), "content-type"@).push(
                ("content-type"@, content_type@),
            ),
            res.body == self.body,
            res.is_base64 == self.is_base64,
    {
        self.set_header("content-type", content_type)
    }

    /// Mark body as base64 encoded.
    pub fn base64(self) -> (res: Self)
        ensures
            res.status == self.status,
            res.headers == self.headers,
            res.body == self.body,
            res.is_base64,
    {
        LambdaResponse { is_base64: true, ..self }
    }

    /// Convert to the response handed to the Lambda runtime.
    ///
    /// The status and the headers, in order and with repeated names kept, go
    /// out as they are. The body goes out as binary when it is marked base64
    /// or is not UTF-8, and as text otherwise. A response whose status or a
    /// header cannot be represented in HTTP becomes a plain-text 500.
    pub fn into_lambda_response(self) -> (res: EventResponse)
        ensures
            self.spec_accepted() ==> {
                &&& res.status == self.status
                &&& header_view(res.headers@) == self.spec_headers()
                &&& sent_body(res.body, self.body@, self.is_base64)
            },
            !self.spec_accepted() ==> is_fallback_response(res),
    {
        if status_is_accepted(self.status) && all_headers_accepted(&self.headers) {
            let body = if self.is_base64 {
                LambdaBody::Binary(self.body)
            } else {
                match utf8_text(self.body.as_slice()) {
                    Some(text) => LambdaBody::Text(text),
                    None => LambdaBody::Binary(self.body),
                }
            };
            EventResponse { status: self.status, headers: self.headers, body }
        } else {
            let text = String::from_str("Internal Server Error");
            EventResponse { status: 500, headers: Vec::new(), body: LambdaBody::Text(text) }
        }
    }
}

impl Default for LambdaResponse {
    fn default() -> (res: Self)
        ensures
            res.status == 200,
            res.headers@.len() == 0,
            res.body@.len() == 0,
            !res.is_base64,
    {
        Self::new(200, Vec::new())
    }
}

} // verus!
