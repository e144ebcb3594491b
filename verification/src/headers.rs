//! HTTP headers for tool servers reached over HTTP.

use crate::string_map::StringMap;
use vstd::prelude::*;
use vstd::utf8::encode_utf8;

verus! {

/// `http::header::InvalidHeaderName`, carried through as an opaque value.
#[verifier::external_type_specification]
#[verifier::external_body]
pub struct ExInvalidHeaderName(http::header::InvalidHeaderName);

/// `http::header::InvalidHeaderValue`, carried through as an opaque value.
#[verifier::external_type_specification]
#[verifier::external_body]
pub struct ExInvalidHeaderValue(http::header::InvalidHeaderValue);

/// A byte that a header name may hold (a `tchar`): an ASCII letter or
/// digit, or one of ``!#$%&'*+-.^_`|~``.
pub open spec fn header_name_byte_valid(b: u8) -> bool {
    ||| (97 <= b && b <= 122)  // a-z
    ||| (65 <= b && b <= 90)  // A-Z
    ||| (48 <= b && b <= 57)  // 0-9
    ||| b == 33 || b == 35 || b == 36 || b == 37 || b == 38 || b == 39  // ! # $ % & '
    ||| b == 42 || b == 43 || b == 45 || b == 46 || b == 94 || b == 95  // * + - . ^ _
    ||| b == 96 || b == 124 || b == 126  // ` | ~
}

/// Whether `http` accepts these bytes as a header name: from 1 to 65535
/// bytes, each one that a header name may hold.
pub open spec fn header_name_bytes_valid(bytes: Seq<u8>) -> bool {
    &&& 1 <= bytes.len() <= 65535
    &&& forall|i: int| 0 <= i < bytes.len() ==> header_name_byte_valid(#[trigger] bytes[i])
}

/// The byte with an ASCII capital letter turned into its small letter.
pub open spec fn ascii_lowercase_byte(b: u8) -> u8 {
    if 65 <= b && b <= 90 {
        (b + 32) as u8
    } else {
        b
    }
}

/// The bytes with every ASCII capital letter turned into its small letter.
pub open spec fn ascii_lowercase(bytes: Seq<u8>) -> Seq<u8> {
    bytes.map_values(|b: u8| ascii_lowercase_byte(b))
}

/// A byte that a header value may hold: a tab, or a byte from 32 up, but
/// not 127.
pub open spec fn header_value_byte_valid(b: u8) -> bool {
    (b >= 32 && b != 127) || b == 9
}

/// Whether every byte is one that a header value may hold.
pub open spec fn header_value_valid(bytes: Seq<u8>) -> bool {
    forall|i: int| 0 <= i < bytes.len() ==> header_value_byte_valid(#[trigger] bytes[i])
}

/// Whether a header name of this text is accepted.
pub open spec fn header_name_text_valid(name: Seq<char>) -> bool {
    header_name_bytes_valid(encode_utf8(name))
}

/// Whether a header value of this text is accepted.
pub open spec fn header_value_text_valid(value: Seq<char>) -> bool {
    header_value_valid(encode_utf8(value))
}

/// Whether the header is accepted, name and value.
pub open spec fn header_valid(header: (Seq<char>, Seq<char>)) -> bool {
    header_name_text_valid(header.0) && header_value_text_valid(header.1)
}

/// All headers before index `i` are accepted.
pub open spec fn headers_valid_before(headers: Seq<(Seq<char>, Seq<char>)>, i: int) -> bool {
    forall|k: int| 0 <= k < i ==> header_valid(#[trigger] headers[k])
}

/// The configured headers as texts, in order.
pub open spec fn header_texts(headers: &StringMap<String>) -> Seq<(Seq<char>, Seq<char>)> {
    headers.entries_view().map_values(|e: (Seq<char>, String)| (e.0, e.1@))
}

/// Calls `http::HeaderName::from_bytes` on the bytes of `name` and gives
/// back the text of the `HeaderName`. Claims what its source shows: it
/// succeeds exactly when the name is from 1 to 65535 bytes, each a `tchar`
/// (the `HEADER_CHARS` table), and the name it keeps is those bytes with the
/// capital letters made small.
#[verifier::external_body]
fn normalized_header_name(name: &str) -> (res: Result<String, http::header::InvalidHeaderName>)
    ensures
        res is Ok == header_name_bytes_valid(encode_utf8(name@)),
        res matches Ok(t) ==> encode_utf8(t@) == ascii_lowercase(encode_utf8(name@)),
{
    match http::HeaderName::from_bytes(name.as_bytes()) {
        Ok(header_name) => Ok(header_name.as_str().to_owned()),
        Err(e) => Err(e),
    }
}

/// Calls `http::HeaderValue::from_str`. Claims that it succeeds exactly when
/// every byte of `value` is a tab, or 32 or more but not 127, as the
/// function checks; the value it would hold is the bytes of `value`, so only
/// the outcome of the check is handed back.
#[verifier::external_body]
fn check_header_value(value: &str) -> (res: Result<(), http::header::InvalidHeaderValue>)
    ensures
        res is Ok == header_value_valid(encode_utf8(value@)),
{
    match http::HeaderValue::from_str(value) {
        Ok(_) => Ok(()),
        Err(e) => Err(e),
    }
}

/// Why a header was refused.
#[derive(Debug)]
pub enum HeaderError {
    /// The name is not a valid HTTP header name.
    Name(http::header::InvalidHeaderName),
    /// The value holds a byte that a header value may not hold.
    Value(http::header::InvalidHeaderValue),
}

/// Checks the configured headers for an HTTP connection, in order, and
/// gives each one back with its name as HTTP keeps it (capital letters made
/// small) and its value unchanged. The first header that is refused stops
/// the work and decides the error: its name is checked before its value.
pub fn parse_headers(headers: &StringMap<String>) -> (res: Result<
    Vec<(String, String)>,
    HeaderError,
>)
    ensures
        ({
            let hs = header_texts(headers);
            &&& res is Ok <==> headers_valid_before(hs, hs.len() as int)
            &&& res matches Ok(v) ==> {
                &&& v.len() == hs.len()
                &&& forall|i: int|
                    0 <= i < v.len() ==> encode_utf8(#[trigger] v[i].0@) == ascii_lowercase(
                        encode_utf8(hs[i].0),
                    ) && v[i].1@ == hs[i].1
            }
            &&& res matches Err(HeaderError::Name(_)) ==> exists|i: int|
                0 <= i < hs.len() && headers_valid_before(hs, i) && !header_name_text_valid(
                    #[trigger] hs[i].0,
                )
            &&& res matches Err(HeaderError::Value(_)) ==> exists|i: int|
                0 <= i < hs.len() && headers_valid_before(hs, i) && header_name_text_valid(
                    #[trigger] hs[i].0,
                ) && !header_value_text_valid(hs[i].1)
        }),
{
    let ghost hs = header_texts(headers);
    let entries = headers.as_slice();
    let n = entries.len();
    let mut parsed: Vec<(String, String)> = Vec::new();
    let mut i: usize = 0;
    assert(hs =~= entries@.map_values(|e: (String, String)| (e.0@, e.1@)));
    while i < n
        invariant
            n == entries@.len(),
            hs == header_texts(headers),
            hs == entries@.map_values(|e: (String, String)| (e.0@, e.1@)),
            0 <= i <= n,
            parsed@.len() == i,
            headers_valid_before(hs, i as int),
            forall|k: int|
                0 <= k < i ==> encode_utf8(#[trigger] parsed@[k].0@) == ascii_lowercase(
                    encode_utf8(hs[k].0),
                ) && parsed@[k].1@ == hs[k].1,
        decreases n - i,
    {
        let name = entries[i].0.as_str();
        let value = entries[i].1.as_str();
        assert(hs[i as int] == (name@, value@));
        let header_name = match normalized_header_name(name) {
            Ok(h) => h,
            Err(e) => {
                assert(!header_valid(hs[i as int]));
                assert(!headers_valid_before(hs, hs.len() as int));
                assert(!header_name_text_valid(hs[i as int].0));
                return Err(HeaderError::Name(e));
            },
        };
        match check_header_value(value) {
            Ok(()) => {},
            Err(e) => {
                assert(header_name_text_valid(hs[i as int].0));
                assert(!header_valid(hs[i as int]));
                assert(!headers_valid_before(hs, hs.len() as int));
                assert(!header_value_text_valid(hs[i as int].1));
                return Err(HeaderError::Value(e));
            },
        }
        parsed.push((header_name, entries[i].1.clone()));
        i = i + 1;
    }
    Ok(parsed)
}

} // verus!
