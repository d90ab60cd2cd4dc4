//! The responses that the server makes itself.
use crate::outside::canonical_reason;
#[allow(unused_imports)]
use crate::outside::reason_phrase;
#[allow(unused_imports)]
use crate::text::opt_text;
use vstd::prelude::*;

verus! {

pub const BAD_REQUEST: u16 = 400;

pub const UNAUTHORIZED: u16 = 401;

pub const NOT_FOUND: u16 = 404;

/// A response.
pub struct Response {
    pub status: u16,
    pub headers: Vec<(String, String)>,
    pub body: String,
}

/// The model of a response.
#[verifier::ext_equal]
pub struct ResponseView {
    pub status: u16,
    pub headers: Seq<(Seq<char>, Seq<char>)>,
    pub body: Seq<char>,
}

impl View for Response {
    type V = ResponseView;

    open spec fn view(&self) -> ResponseView {
        ResponseView {
            status: self.status,
            headers: self.headers@.map_values(|header: (String, String)| (header.0@, header.1@)),
            body: self.body@,
        }
    }
}

/// The decimal digits of a number.
pub open spec fn decimal(n: nat) -> Seq<char>
    decreases n,
{
    let digit = (0x30 + n % 10) as char;
    if n < 10 {
        seq![digit]
    } else {
        decimal(n / 10).push(digit)
    }
}

/// The decimal digits of a number.
fn decimal_text(n: u16) -> (text: String)
    ensures
        text@ == decimal(n as nat),
    decreases n,
{
    let digit = (0x30 + (n % 10) as u8) as char;
    let mut text = if n < 10 {
        String::new()
    } else {
        decimal_text(n / 10)
    };
    text.push(digit);
    assert(n < 10 ==> text@ =~= seq![digit]);
    text
}

/// The realm that is shown where the configuration names none.
pub open spec fn default_realm() -> Seq<char> {
    "Webdav Server"@
}

/// An error response: the code and a phrase. One that refuses a client for want of
/// authentication names the realm to log in to.
pub open spec fn error_page(
    code: u16,
    phrase: Seq<char>,
    realm: Option<Seq<char>>,
) -> ResponseView {
    let shown = match realm {
        Some(realm) => realm,
        None => default_realm(),
    };
    let kind = seq![("Content-Type"@, "text/xml"@)];
    ResponseView {
        status: code,
        headers: if code == UNAUTHORIZED {
            kind.push(("WWW-Authenticate"@, "Basic realm=\""@ + shown + "\""@))
        } else {
            kind
        },
        body: "<error>"@ + decimal(code as nat) + " "@ + phrase + "</error>\n"@,
    }
}

/// The error response for a code: its phrase is the standard one, if there is one.
pub open spec fn error_response(code: u16, realm: Option<Seq<char>>) -> ResponseView {
    error_page(
        code,
        match reason_phrase(code) {
            Some(phrase) => phrase,
            None => ""@,
        },
        realm,
    )
}

/// A response that sends the client to another path.
pub open spec fn redirect_response(location: Seq<char>) -> ResponseView {
    ResponseView {
        status: 302,
        headers: seq![("content-type"@, "text/plain"@), ("location"@, location)],
        body: "302 Moved\n"@,
    }
}

/// Makes the error response for a code.
pub(crate) fn make_error(code: u16, realm: &Option<String>) -> (response: Response)
    ensures
        response@ == error_response(code, opt_text(*realm)),
        code == BAD_REQUEST ==> response@.body == "<error>400 Bad Request</error>\n"@,
        code == UNAUTHORIZED ==> response@.body == "<error>401 Unauthorized</error>\n"@,
        code == NOT_FOUND ==> response@.body == "<error>404 Not Found</error>\n"@,
{
    let phrase: &str = match canonical_reason(code) {
        Some(phrase) => phrase,
        None => "",
    };
    proof {
        lemma_error_bodies();
    }
    Response::error(code, phrase, realm)
}

/// The bodies of the errors that the server answers with.
proof fn lemma_error_bodies()
    ensures
        "<error>"@ + decimal(400) + " "@ + "Bad Request"@ + "</error>\n"@
            == "<error>400 Bad Request</error>\n"@,
        "<error>"@ + decimal(401) + " "@ + "Unauthorized"@ + "</error>\n"@
            == "<error>401 Unauthorized</error>\n"@,
        "<error>"@ + decimal(404) + " "@ + "Not Found"@ + "</error>\n"@
            == "<error>404 Not Found</error>\n"@,
{
    reveal_with_fuel(decimal, 3);
    reveal_strlit("<error>");
    reveal_strlit(" ");
    reveal_strlit("</error>\n");
    reveal_strlit("Bad Request");
    reveal_strlit("Unauthorized");
    reveal_strlit("Not Found");
    reveal_strlit("<error>400 Bad Request</error>\n");
    reveal_strlit("<error>401 Unauthorized</error>\n");
    reveal_strlit("<error>404 Not Found</error>\n");
    assert("<error>"@ + decimal(400) + " "@ + "Bad Request"@ + "</error>\n"@
        =~= "<error>400 Bad Request</error>\n"@);
    assert("<error>"@ + decimal(401) + " "@ + "Unauthorized"@ + "</error>\n"@
        =~= "<error>401 Unauthorized</error>\n"@);
    assert("<error>"@ + decimal(404) + " "@ + "Not Found"@ + "</error>\n"@
        =~= "<error>404 Not Found</error>\n"@);
}

impl Response {
    /// Makes an error response from a code and a phrase.
    pub fn error(code: u16, phrase: &str, realm: &Option<String>) -> (response: Response)
        ensures
            response@ == error_page(code, phrase@, opt_text(*realm)),
    {
        let mut body = "<error>".to_owned();
        body.append(decimal_text(code).as_str());
        body.append(" ");
        body.append(phrase);
        body.append("</error>\n");
        let mut headers: Vec<(String, String)> = Vec::new();
        headers.push(("Content-Type".to_owned(), "text/xml".to_owned()));
        if code == UNAUTHORIZED {
            let shown: &str = match realm {
                Some(realm) => realm.as_str(),
                None => "Webdav Server",
            };
            let mut challenge = "Basic realm=\"".to_owned();
            challenge.append(shown);
            challenge.append("\"");
            headers.push(("WWW-Authenticate".to_owned(), challenge));
        }
        let response = Response { status: code, headers, body };
        assert(response@.headers =~= error_page(code, phrase@, opt_text(*realm)).headers);
        response
    }
}

/// Makes a response that sends the client to another path.
pub(crate) fn make_redirect(location: String) -> (response: Response)
    ensures
        response@ == redirect_response(location@),
{
    let mut headers: Vec<(String, String)> = Vec::new();
    headers.push(("content-type".to_owned(), "text/plain".to_owned()));
    headers.push(("location".to_owned(), location));
    let response = Response { status: 302, headers, body: "302 Moved\n".to_owned() };
    assert(response@.headers =~= redirect_response(location@).headers);
    response
}

} // verus!
