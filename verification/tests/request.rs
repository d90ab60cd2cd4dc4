use headers::{Authorization, HeaderMapExt};
use http::header::{HeaderMap, AUTHORIZATION};
use webdav_server::request::Request;

fn request() -> Request {
    Request {
        method: "GET".to_string(),
        uri_path: "/".to_string(),
        authorization: None,
        x_real_ip: None,
        loopback: false,
        remote_ip: "192.0.2.1".to_string(),
    }
}

fn authorized(value: &[u8]) -> Option<(String, String)> {
    let mut req = request();
    req.authorization = Some(value.to_vec());
    req.credentials()
}

#[test]
fn a_remote_client_has_its_own_address() {
    let mut req = request();
    req.x_real_ip = Some(b"203.0.113.9".to_vec());
    assert_eq!(req.client_ip().as_deref(), Some("192.0.2.1"));
}

#[test]
fn a_proxy_on_the_same_host_names_the_client() {
    let mut req = request();
    req.loopback = true;
    req.remote_ip = "127.0.0.1".to_string();
    assert_eq!(req.client_ip(), None);
    req.x_real_ip = Some(b"203.0.113.9".to_vec());
    assert_eq!(req.client_ip().as_deref(), Some("203.0.113.9"));
    req.x_real_ip = Some(b"a\tb ~".to_vec());
    assert_eq!(req.client_ip().as_deref(), Some("a\tb ~"));
    req.x_real_ip = Some(vec![0x61, 0xe9]);
    assert_eq!(req.client_ip(), None);
    req.x_real_ip = Some(vec![0x61, 0x7f]);
    assert_eq!(req.client_ip(), None);
    req.x_real_ip = Some(vec![]);
    assert_eq!(req.client_ip().as_deref(), Some(""));
}

#[test]
fn credentials_are_decoded() {
    assert_eq!(
        authorized(b"Basic QWxhZGRpbjpvcGVuIHNlc2FtZQ=="),
        Some(("Aladdin".to_string(), "open sesame".to_string()))
    );
    assert_eq!(
        authorized(b"Basic QWxhZGRpbjo="),
        Some(("Aladdin".to_string(), "".to_string()))
    );
}

#[test]
fn the_first_colon_ends_the_user_name() {
    let mut map = HeaderMap::new();
    map.typed_insert(Authorization::basic("mike", "a:b"));
    assert_eq!(
        authorized(map[AUTHORIZATION].as_bytes()),
        Some(("mike".to_string(), "a:b".to_string()))
    );
}

#[test]
fn other_headers_carry_no_credentials() {
    assert_eq!(request().credentials(), None);
    assert_eq!(authorized(b""), None);
    assert_eq!(authorized(b"Basic"), None);
    assert_eq!(authorized(b"Basic ***"), None);
    assert_eq!(authorized(b"Bearer QWxhZGRpbjo="), None);
    // no colon.
    assert_eq!(authorized(b"Basic QWxhZGRpbg=="), None);
}

#[test]
fn get_and_head_only_read() {
    let mut req = request();
    assert!(req.is_get_or_head());
    req.method = "HEAD".to_string();
    assert!(req.is_get_or_head());
    req.method = "PROPFIND".to_string();
    assert!(!req.is_get_or_head());
    req.method = "get".to_string();
    assert!(!req.is_get_or_head());
}
