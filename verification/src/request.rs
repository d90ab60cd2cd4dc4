//! What is read of a request.
use crate::outside::{basic_credentials, header_text};
#[allow(unused_imports)]
use crate::outside::{decoded_basic, is_visible};
use crate::text::same_text;
#[allow(unused_imports)]
use crate::text::opt_text;
use vstd::prelude::*;

verus! {

/// A request, as far as decisions are taken on it.
pub struct Request {
    /// The method, as it stands in the request.
    pub method: String,
    /// The path of the URI, as it stands in the request.
    pub uri_path: String,
    /// The value of the first `Authorization` header.
    pub authorization: Option<Vec<u8>>,
    /// The value of the first `X-Real-IP` header.
    pub x_real_ip: Option<Vec<u8>>,
    /// Whether the client has a loopback address.
    pub loopback: bool,
    /// The address of the client.
    pub remote_ip: String,
}

/// The address of the client on whose behalf a request is made. A reverse proxy on the same host
/// names it in a header; a value that is not plain text is passed over.
pub open spec fn client_ip(req: Request) -> Option<Seq<char>> {
    if !req.loopback {
        Some(req.remote_ip@)
    } else {
        match req.x_real_ip {
            Some(value) => if forall|i: int| 0 <= i < value@.len() ==> is_visible(#[trigger] value@[i]) {
                Some(value@.map_values(|byte: u8| byte as char))
            } else {
                None
            },
            None => None,
        }
    }
}

/// The user name and the password that a request carries.
pub open spec fn credentials(req: Request) -> Option<(Seq<char>, Seq<char>)> {
    match req.authorization {
        Some(value) => decoded_basic(value@),
        None => None,
    }
}

/// Whether a method only reads a file.
pub open spec fn is_get_or_head(method: Seq<char>) -> bool {
    method == "GET"@ || method == "HEAD"@
}

impl Request {
    /// The address of the client on whose behalf the request is made.
    pub fn client_ip(&self) -> (ip: Option<String>)
        ensures
            opt_text(ip) == client_ip(*self),
    {
        if self.loopback {
            match &self.x_real_ip {
                Some(value) => header_text(value.as_slice()),
                None => None,
            }
        } else {
            Some(self.remote_ip.clone())
        }
    }

    /// The user name and the password that the request carries.
    pub fn credentials(&self) -> (res: Option<(String, String)>)
        ensures
            res matches Some((user, pass)) ==> credentials(*self) == Some((user@, pass@)),
            res is None ==> credentials(*self) is None,
    {
        match &self.authorization {
            Some(value) => basic_credentials(value.as_slice()),
            None => None,
        }
    }

    /// Whether the request only reads a file.
    pub fn is_get_or_head(&self) -> (yes: bool)
        ensures
            yes == is_get_or_head(self.method@),
    {
        same_text(self.method.as_str(), "GET") || same_text(self.method.as_str(), "HEAD")
    }
}

} // verus!
