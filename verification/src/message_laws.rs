//! What is read of a request, and what stands in a response.
use crate::outside::{decoded_basic, reason_phrase};
use crate::request::Request;
use crate::response::{decimal, error_response, redirect_response, Response};
use crate::server::Server;
use vstd::prelude::*;

verus! {

/// Whether a value is made of visible ASCII, spaces and tabs.
pub open spec fn is_text(value: Seq<u8>) -> bool {
    forall|i: int|
        0 <= i < value.len() ==> (0x20 <= #[trigger] value[i] <= 0x7e || value[i] == 0x09)
}

/// A client that is not on the same host has its own address, whatever a header says.
pub proof fn law_remote_client(req: &Request, ip: Option<String>)
    requires
        call_ensures(Request::client_ip, (req,), ip),
        !req.loopback,
    ensures
        ip matches Some(ip) && ip@ == req.remote_ip@,
{
}

/// A client on the same host has the address that the header names, byte by byte; where there is
/// no header, or one that is not text, no address is known.
pub proof fn law_proxied_client(req: &Request, ip: Option<String>)
    requires
        call_ensures(Request::client_ip, (req,), ip),
        req.loopback,
    ensures
        ip is Some <==> (req.x_real_ip matches Some(value) && is_text(value@)),
        ip matches Some(ip) ==> {
            let value = (req.x_real_ip->0)@;
            &&& ip@.len() == value.len()
            &&& forall|i: int| 0 <= i < value.len() ==> #[trigger] ip@[i] as int == value[i]
        },
{
    if let Some(value) = req.x_real_ip {
        let v = value@;
        if is_text(v) {
            assert forall|i: int| 0 <= i < v.len() implies crate::outside::is_visible(
                #[trigger] v[i],
            ) by {}
        } else {
            let i = choose|i: int|
                0 <= i < v.len() && !(0x20 <= #[trigger] v[i] <= 0x7e || v[i] == 0x09);
            assert(!crate::outside::is_visible(v[i]));
        }
    }
}

/// The user name and the password of a request are what its header decodes to; without a header
/// there are none.
pub proof fn law_credentials(req: &Request, found: Option<(String, String)>)
    requires
        call_ensures(Request::credentials, (req,), found),
    ensures
        req.authorization is None ==> found is None,
        req.authorization matches Some(value) ==> (found is Some <==> decoded_basic(
            value@,
        ) is Some),
        found matches Some((name, password)) ==> (req.authorization matches Some(value)
            && decoded_basic(value@) matches Some((n, p)) && name@ == n && password@ == p),
{
}

/// Of all methods two only read a file, and case counts.
pub proof fn law_reading_methods(req: &Request, yes: bool)
    requires
        call_ensures(Request::is_get_or_head, (req,), yes),
    ensures
        yes <==> (req.method@ == seq!['G', 'E', 'T'] || req.method@ == seq!['H', 'E', 'A', 'D']),
{
    reveal_strlit("GET");
    reveal_strlit("HEAD");
    assert("GET"@ =~= seq!['G', 'E', 'T']);
    assert("HEAD"@ =~= seq!['H', 'E', 'A', 'D']);
}

/// Whether a response is an error page: the code, its standard phrase, and, for a client that has
/// to log in and no other, the challenge to log in to the realm.
pub open spec fn is_error_page(response: Response, code: u16, realm: Option<String>) -> bool {
    let phrase = match reason_phrase(code) {
        Some(phrase) => phrase,
        None => ""@,
    };
    let shown = match realm {
        Some(realm) => realm@,
        None => "Webdav Server"@,
    };
    &&& response.status == code
    &&& response.body@ == "<error>"@ + decimal(code as nat) + " "@ + phrase + "</error>\n"@
    &&& response.headers@.len() == (if code == 401 {
        2int
    } else {
        1int
    })
    &&& response.headers@[0].0@ == "Content-Type"@
    &&& response.headers@[0].1@ == "text/xml"@
    &&& code == 401 ==> {
        &&& response.headers@[1].0@ == "WWW-Authenticate"@
        &&& response.headers@[1].1@ == "Basic realm=\""@ + shown + "\""@
    }
}

/// Whether a response sends the client to another path.
pub open spec fn is_redirect(response: Response, location: Seq<char>) -> bool {
    &&& response.status == 302
    &&& response.body@ == "302 Moved\n"@
    &&& response.headers@.len() == 2
    &&& response.headers@[0].0@ == "content-type"@
    &&& response.headers@[0].1@ == "text/plain"@
    &&& response.headers@[1].0@ == "location"@
    &&& response.headers@[1].1@ == location
}

/// A response with the model of an error is an error page.
pub proof fn lemma_error_page(response: Response, code: u16, realm: Option<String>)
    requires
        response@ == error_response(code, crate::text::opt_text(realm)),
    ensures
        is_error_page(response, code, realm),
{
    let headers = response@.headers;
    assert(headers.len() == response.headers@.len());
    assert(headers[0] == (response.headers@[0].0@, response.headers@[0].1@));
    if code == 401 {
        assert(headers[1] == (response.headers@[1].0@, response.headers@[1].1@));
    }
}

/// A response with the model of a redirect is one.
pub proof fn lemma_redirect(response: Response, location: Seq<char>)
    requires
        response@ == redirect_response(location),
    ensures
        is_redirect(response, location),
{
    let headers = response@.headers;
    assert(headers.len() == response.headers@.len());
    assert(headers[0] == (response.headers@[0].0@, response.headers@[0].1@));
    assert(headers[1] == (response.headers@[1].0@, response.headers@[1].1@));
}

/// The server answers an error with a page that holds the code and its phrase, and challenges the
/// client exactly where it has to log in. The pages of the errors that it answers with by itself
/// are spelled out.
pub proof fn law_error(server: &Server, code: u16, response: Response)
    requires
        call_ensures(Server::error, (server, code), response),
    ensures
        is_error_page(response, code, server@.accounts.realm),
        code == 400 ==> response.body@ == "<error>400 Bad Request</error>\n"@,
        code == 401 ==> response.body@ == "<error>401 Unauthorized</error>\n"@,
        code == 404 ==> response.body@ == "<error>404 Not Found</error>\n"@,
{
    lemma_error_page(response, code, server@.accounts.realm);
}

/// The server sends a client to exactly the path that is asked for.
pub proof fn law_redirect_response(server: &Server, path: String, response: Response)
    requires
        call_ensures(Server::redirect, (server, path), response),
    ensures
        is_redirect(response, path@),
{
    lemma_redirect(response, path@);
}

} // verus!
