use webdav_handler::davpath::DavPath;
use webdav_server::server::is_one_level_deep;
use webdav_server::webpath::WebPath;

fn path(uri_path: &str, prefix: &str) -> WebPath {
    WebPath::from_uri(uri_path, prefix).unwrap()
}

#[test]
fn star_is_a_path_of_one_segment() {
    let star = path("*", "/files");
    assert_eq!(star.as_bytes(), b"*");
    assert_eq!(star.num_segments(), 1);
    assert!(!star.is_collection());
    assert_eq!(star.as_utf8_string_with_prefix(), "*");
}

#[test]
fn paths_are_normalized_and_decoded() {
    let p = path("/a//b/./c/../d%20e?query", "");
    assert_eq!(p.as_bytes(), b"/a/b/d e");
    assert_eq!(p.as_utf8_string_with_prefix(), "/a/b/d e");
    assert_eq!(p.as_url_string_with_prefix(), "/a/b/d%20e");
}

#[test]
fn unreadable_paths_are_refused() {
    assert!(WebPath::from_uri("", "").is_none());
    assert!(WebPath::from_uri("relative", "").is_none());
    assert!(WebPath::from_uri("/..", "").is_none());
    assert!(WebPath::from_uri("/a%2fb", "").is_none());
    assert!(WebPath::from_uri("/a%00b", "").is_none());
    assert!(WebPath::from_uri("/a#b", "").is_none());
}

#[test]
fn a_prefix_is_hidden() {
    assert_eq!(path("/files/a", "/files").as_bytes(), b"/a");
    assert_eq!(path("/files/a", "/files/").as_bytes(), b"/a");
    assert_eq!(path("/files/", "/files/").as_bytes(), b"/");
    assert_eq!(path("/files", "/files").as_bytes(), b"/");
    assert_eq!(path("/files", "/files").as_utf8_string_with_prefix(), "/files/");
    assert_eq!(path("/a", "/").as_bytes(), b"/a");
    assert_eq!(path("/files/a", "/files").prefix(), b"/files");
    assert_eq!(path("/files/a", "/files/").prefix(), b"/files");
    assert_eq!(path("/a", "/").prefix(), b"");
    assert!(WebPath::from_uri("/other", "/files").is_none());
    assert!(WebPath::from_uri("/files", "/files/").is_none());
}

#[test]
fn a_prefix_is_hidden_as_the_handler_hides_it() {
    for uri_path in ["/", "/a", "/a/", "/a/b", "/ab", "/%C3%A9/x"] {
        for prefix in ["", "/", "/a", "/a/", "/é", "x"] {
            let mut dav = DavPath::new(uri_path).unwrap();
            let hidden = dav.set_prefix(prefix).is_ok();
            let ours = WebPath::from_uri(uri_path, prefix);
            assert_eq!(ours.is_some(), hidden);
            if let Some(ours) = ours {
                assert_eq!(ours.as_bytes(), dav.as_bytes());
                assert_eq!(ours.is_collection(), dav.is_collection());
                assert_eq!(
                    ours.as_url_string_with_prefix(),
                    dav.with_prefix().as_url_string()
                );
            }
        }
    }
}

#[test]
fn segments_are_counted() {
    assert_eq!(path("/", "").num_segments(), 0);
    assert_eq!(path("/a", "").num_segments(), 1);
    assert_eq!(path("/a/", "").num_segments(), 1);
    assert_eq!(path("/a/bc/d", "").num_segments(), 3);
    assert_eq!(path("/a/bc/d", "/a").num_segments(), 2);
    let odd = WebPath::from_decoded(b"a//bc///d".to_vec(), "").unwrap();
    assert_eq!(odd.num_segments(), 3);
    assert_eq!(odd.file_name(), b"d");
}

#[test]
fn the_file_name_is_the_last_segment() {
    assert_eq!(path("/", "").file_name(), b"");
    assert_eq!(path("/a/bc", "").file_name(), b"bc");
    assert_eq!(path("/a/bc/", "").file_name(), b"bc");
    assert_eq!(path("/a", "/a").file_name(), b"");
}

#[test]
fn only_files_in_the_root_are_one_level_deep() {
    assert!(is_one_level_deep(&path("/", "")));
    assert!(is_one_level_deep(&path("/a", "")));
    assert!(!is_one_level_deep(&path("/a/", "")));
    assert!(!is_one_level_deep(&path("/a/b", "")));
    assert!(is_one_level_deep(&path("/a/b", "/a")));
}

#[test]
fn a_segment_is_pushed_after_a_slash() {
    let p = path("/", "").push_segment(b"index.html");
    assert_eq!(p.as_bytes(), b"/index.html");
    let p = path("/a", "").push_segment(b"b");
    assert_eq!(p.as_bytes(), b"/a/b");
    let p = path("/x", "/x").push_segment(b"b");
    assert_eq!(p.as_utf8_string_with_prefix(), "/x/b");
    assert_eq!(p.as_bytes(), b"/b");
}

#[test]
fn every_byte_is_encoded_as_the_handler_encodes_it() {
    for byte in 1..=255u8 {
        if byte == b'/' {
            continue;
        }
        let encoded = format!("/x%{:02X}", byte);
        let dav = DavPath::new(&encoded).unwrap();
        let ours = path(&encoded, "");
        assert_eq!(ours.as_bytes(), &[b'/', b'x', byte]);
        assert_eq!(
            ours.as_url_string_with_prefix(),
            dav.with_prefix().as_url_string()
        );
        // what is encoded can be read back.
        let again = path(&ours.as_url_string_with_prefix(), "");
        assert_eq!(again.as_bytes(), &[b'/', b'x', byte]);
    }
}

#[test]
fn text_that_is_not_utf8_is_replaced() {
    assert_eq!(path("/%C3%A9", "").as_utf8_string_with_prefix(), "/é");
    assert_eq!(path("/a%FFb", "").as_utf8_string_with_prefix(), "/a\u{fffd}b");
}
