//! What the library takes from other crates and, where `vstd` is silent, from `std`.
//!
//! Verus believes the contracts in this module; everything else is proved from them.
use crate::dav::Method;
#[allow(unused_imports)]
use crate::webpath::is_url_char;
use headers::authorization::Basic;
use headers::{Authorization, HeaderMapExt};
use http::header::{HeaderMap, HeaderValue, AUTHORIZATION};
use http::uri::PathAndQuery;
use http::StatusCode;
use vstd::prelude::*;
#[allow(unused_imports)]
use vstd::utf8::{decode_utf8, encode_utf8, valid_utf8};
use webdav_handler::davpath::DavPath;
use webdav_handler::{DavMethod, DavMethodSet};

verus! {

/// Adds one character to the end of a string (`String::push`).
pub assume_specification[ String::push ](s: &mut String, c: char)
    ensures
        final(s)@ == old(s)@.push(c),
;

/// What `DavPath::new` makes of the path of a request: the path, normalized and decoded, or nothing
/// where the path is refused.
pub uninterp spec fn normalized_path(path: Seq<char>) -> Option<Seq<u8>>;

/// Normalizes and decodes the path of a request (`webdav_handler::davpath::DavPath::new`).
///
/// The result is a function of the path alone. A path that is accepted begins with a slash, and
/// so does what comes out.
#[verifier::external_body]
pub(crate) fn normalize_path(path: &str) -> (res: Option<Vec<u8>>)
    ensures
        res matches Some(full) ==> normalized_path(path@) == Some(full@),
        res is None ==> normalized_path(path@) is None,
        res is Some ==> path@.len() > 0 && path@[0] == '/',
        res matches Some(full) ==> full@.len() > 0 && full@[0] == 0x2f,
{
    match DavPath::new(path) {
        Ok(dav_path) => Some(dav_path.with_prefix().as_bytes().to_vec()),
        Err(_) => None,
    }
}

/// Reads bytes as UTF-8 (`std::str::from_utf8`): succeeds exactly on valid UTF-8, and the text
/// encodes to the bytes.
#[verifier::external_body]
pub(crate) fn utf8_text(bytes: &[u8]) -> (res: Option<String>)
    ensures
        res is Some <==> valid_utf8(bytes@),
        res matches Some(text) ==> encode_utf8(text@) == bytes@,
{
    match std::str::from_utf8(bytes) {
        Ok(text) => Some(text.to_owned()),
        Err(_) => None,
    }
}

/// What `String::from_utf8_lossy` makes of bytes.
pub uninterp spec fn lossy_text(bytes: Seq<u8>) -> Seq<char>;

/// Reads bytes as UTF-8, with a replacement character in place of each invalid sequence
/// (`String::from_utf8_lossy`).
///
/// Valid UTF-8 is decoded as it is, and an ASCII byte at the start is always kept.
#[verifier::external_body]
pub(crate) fn utf8_text_lossy(bytes: &[u8]) -> (text: String)
    ensures
        text@ == lossy_text(bytes@),
        valid_utf8(bytes@) ==> text@ == decode_utf8(bytes@),
        bytes@.len() > 0 && bytes@[0] < 0x80 ==> text@.len() > 0 && text@[0] == bytes@[0] as char,
{
    String::from_utf8_lossy(bytes).into_owned()
}

/// Whether a byte is visible ASCII, a space or a tab.
pub open spec fn is_visible(byte: u8) -> bool {
    (32 <= byte && byte < 127) || byte == 9
}

/// The value of a header as text (`http::header::HeaderValue::to_str`): succeeds exactly where
/// every byte is visible ASCII, a space or a tab, and keeps each as the character it stands for.
#[verifier::external_body]
pub(crate) fn header_text(value: &[u8]) -> (res: Option<String>)
    ensures
        res is Some <==> (forall|i: int| 0 <= i < value@.len() ==> is_visible(#[trigger] value@[i])),
        res matches Some(text) ==> text@ == value@.map_values(|byte: u8| byte as char),
{
    match HeaderValue::from_bytes(value) {
        Ok(value) => match value.to_str() {
            Ok(text) => Some(text.to_owned()),
            Err(_) => None,
        },
        Err(_) => None,
    }
}

/// The user name and the password that an `Authorization` header of the `Basic` scheme decodes
/// to, or nothing where the header does not decode.
pub uninterp spec fn decoded_basic(value: Seq<u8>) -> Option<(Seq<char>, Seq<char>)>;

/// Decodes the value of an `Authorization` header
/// (`headers::HeaderMapExt::typed_get::<Authorization<Basic>>`).
///
/// The result is a function of the value alone. A value that does not begin with `Basic` and a
/// space does not decode, and the user name holds no colon.
#[verifier::external_body]
pub(crate) fn basic_credentials(value: &[u8]) -> (res: Option<(String, String)>)
    ensures
        res matches Some((user, pass)) ==> decoded_basic(value@) == Some((user@, pass@)),
        res is None ==> decoded_basic(value@) is None,
        res is Some ==> seq![0x42u8, 0x61u8, 0x73u8, 0x69u8, 0x63u8, 0x20u8].is_prefix_of(value@),
        res matches Some((user, _)) ==> !user@.contains(':'),
{
    let mut map = HeaderMap::new();
    map.insert(AUTHORIZATION, HeaderValue::from_bytes(value).ok()?);
    let basic = map.typed_get::<Authorization<Basic>>()?;
    Some((basic.username().to_owned(), basic.password().to_owned()))
}

/// The standard phrase for a status code, if it has one.
pub uninterp spec fn reason_phrase(code: u16) -> Option<Seq<char>>;

/// The standard phrase for a status code (`http::StatusCode::canonical_reason`).
///
/// The result is a function of the code alone; the phrases of the codes that this server answers
/// errors with are spelled out.
#[verifier::external_body]
pub(crate) fn canonical_reason(code: u16) -> (res: Option<&'static str>)
    ensures
        res matches Some(phrase) ==> reason_phrase(code) == Some(phrase@),
        res is None ==> reason_phrase(code) is None,
        code == 400 ==> res is Some && res->0@ == "Bad Request"@,
        code == 401 ==> res is Some && res->0@ == "Unauthorized"@,
        code == 404 ==> res is Some && res->0@ == "Not Found"@,
{
    match StatusCode::from_u16(code) {
        Ok(status) => status.canonical_reason(),
        Err(_) => None,
    }
}

/// What `http::uri::PathAndQuery` keeps of a text that is to become the path and query of a URI,
/// or nothing where it refuses the text.
pub uninterp spec fn accepted_path(text: Seq<char>) -> Option<Seq<char>>;

/// Checks a text that is to become the path and query of a URI
/// (`http::uri::PathAndQuery::try_from`).
///
/// The result is a function of the text alone. A text made of letters, digits, slashes, percent
/// signs and `-._~`, and not empty, is accepted and kept as it is.
#[verifier::external_body]
pub(crate) fn path_and_query(text: &str) -> (res: Option<String>)
    ensures
        res matches Some(kept) ==> accepted_path(text@) == Some(kept@),
        res is None ==> accepted_path(text@) is None,
        text@.len() > 0 && (forall|i: int| 0 <= i < text@.len() ==> is_url_char(#[trigger] text@[i]))
            ==> res is Some && res->0@ == text@,
{
    match PathAndQuery::try_from(text) {
        Ok(accepted) => Some(accepted.as_str().to_owned()),
        Err(_) => None,
    }
}

/// A set of WebDAV methods (`webdav_handler::DavMethodSet`).
#[verifier::external_type_specification]
#[verifier::external_body]
pub struct ExDavMethodSet(DavMethodSet);

/// The methods that a set holds.
pub uninterp spec fn method_set(set: DavMethodSet) -> Set<Method>;

/// The set without methods (`webdav_handler::DavMethodSet::none`).
#[verifier::external_body]
pub(crate) fn no_methods() -> (set: DavMethodSet)
    ensures
        method_set(set) == Set::<Method>::empty(),
{
    DavMethodSet::none()
}

/// Adds a method to a set (`webdav_handler::DavMethodSet::add`): the set holds it, and what it
/// held before.
#[verifier::external_body]
pub(crate) fn add_method(set: &mut DavMethodSet, method: Method)
    ensures
        method_set(*final(set)) == method_set(*old(set)).insert(method),
{
    set.add(match method {
        Method::Head => DavMethod::Head,
        Method::Get => DavMethod::Get,
        Method::Put => DavMethod::Put,
        Method::Patch => DavMethod::Patch,
        Method::Options => DavMethod::Options,
        Method::PropFind => DavMethod::PropFind,
        Method::PropPatch => DavMethod::PropPatch,
        Method::MkCol => DavMethod::MkCol,
        Method::Copy => DavMethod::Copy,
        Method::Move => DavMethod::Move,
        Method::Delete => DavMethod::Delete,
        Method::Lock => DavMethod::Lock,
        Method::Unlock => DavMethod::Unlock,
    });
}

} // verus!
