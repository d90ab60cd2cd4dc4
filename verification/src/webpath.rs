//! The path of a request, split into a hidden prefix and the path below it.
use crate::outside::{normalize_path, utf8_text_lossy};
#[allow(unused_imports)]
use crate::outside::{lossy_text, normalized_path};
use crate::text::same_text;
use vstd::prelude::*;
#[allow(unused_imports)]
use vstd::utf8::encode_utf8;

verus! {

/// The byte `/`.
pub const SLASH: u8 = 0x2f;

/// A decoded path: `prefix` is hidden from a file system that is served below it.
#[verifier::ext_equal]
pub struct WebPathView {
    pub prefix: Seq<u8>,
    pub path: Seq<u8>,
}

impl WebPathView {
    /// The whole path.
    pub open spec fn full(self) -> Seq<u8> {
        self.prefix + self.path
    }

    /// Whether the path names a collection: it ends in a slash.
    pub open spec fn is_collection(self) -> bool {
        self.path.len() > 0 && self.path.last() == SLASH
    }

    /// The last segment below the prefix, empty if there is none.
    pub open spec fn file_name(self) -> Seq<u8> {
        let all = segments(self.path);
        if all.len() > 0 {
            all.last()
        } else {
            Seq::empty()
        }
    }

    /// The path with `segment` added at its end.
    pub open spec fn push_segment(self, segment: Seq<u8>) -> WebPathView {
        let base = if self.is_collection() {
            self.path
        } else {
            self.path.push(SLASH)
        };
        WebPathView { prefix: self.prefix, path: base + segment }
    }
}

/// The segments of a path: the longest runs of bytes other than a slash.
pub open spec fn segments(path: Seq<u8>) -> Seq<Seq<u8>>
    decreases path.len(),
{
    if path.len() == 0 {
        Seq::empty()
    } else {
        let before = segments(path.drop_last());
        if path.last() == SLASH {
            before
        } else if path.len() == 1 || path[path.len() - 2] == SLASH {
            before.push(seq![path.last()])
        } else {
            before.drop_last().push(before.last().push(path.last()))
        }
    }
}

/// `full` with `prefix` hidden; a slash at the end of `prefix` belongs to the path below it, and
/// the path below is at least a slash.
pub open spec fn hide_prefix(full: Seq<u8>, prefix: Seq<u8>) -> Option<WebPathView> {
    if !prefix.is_prefix_of(full) {
        None
    } else if prefix.len() > 0 && prefix.last() == SLASH {
        Some(WebPathView { prefix: prefix.drop_last(), path: full.skip(prefix.len() - 1) })
    } else if prefix.len() == full.len() {
        Some(WebPathView { prefix, path: seq![SLASH] })
    } else {
        Some(WebPathView { prefix, path: full.skip(prefix.len() as int) })
    }
}

/// The path of a request whose URI has the path `uri_path`, seen below `prefix`: `*` stands for
/// the server as a whole, every other path is normalized first.
pub open spec fn web_path(uri_path: Seq<char>, prefix: Seq<char>) -> Option<WebPathView> {
    if uri_path == "*"@ {
        Some(WebPathView { prefix: Seq::empty(), path: seq![0x2au8] })
    } else {
        match normalized_path(uri_path) {
            Some(full) => hide_prefix(full, encode_utf8(prefix)),
            None => None,
        }
    }
}

/// Whether a byte stands for itself in a URL path.
pub open spec fn is_plain(byte: u8) -> bool {
    ||| 0x41 <= byte <= 0x5a
    ||| 0x61 <= byte <= 0x7a
    ||| 0x30 <= byte <= 0x39
    ||| byte == 0x2d
    ||| byte == 0x5f
    ||| byte == 0x2e
    ||| byte == 0x7e
    ||| byte == SLASH
}

/// Whether a character occurs in a percent-encoded path.
pub open spec fn is_url_char(c: char) -> bool {
    ||| 'A' <= c <= 'Z'
    ||| 'a' <= c <= 'z'
    ||| '0' <= c <= '9'
    ||| c == '-'
    ||| c == '_'
    ||| c == '.'
    ||| c == '~'
    ||| c == '/'
    ||| c == '%'
}

/// The hexadecimal digit, in upper case, of a number below sixteen.
pub open spec fn hex_digit(n: u8) -> char {
    if n < 10 {
        (0x30 + n) as char
    } else {
        (0x37 + n) as char
    }
}

/// A byte in a URL path: itself, or a percent sign and its two hexadecimal digits.
pub open spec fn encode_byte(byte: u8) -> Seq<char> {
    if is_plain(byte) {
        seq![byte as char]
    } else {
        seq!['%', hex_digit(byte / 16), hex_digit(byte % 16)]
    }
}

/// A path, percent-encoded byte by byte.
pub open spec fn encode_path(path: Seq<u8>) -> Seq<char>
    decreases path.len(),
{
    if path.len() == 0 {
        Seq::empty()
    } else {
        encode_path(path.drop_last()) + encode_byte(path.last())
    }
}

/// The path of a request.
pub struct WebPath {
    full: Vec<u8>,
    pfxlen: usize,
}

impl View for WebPath {
    type V = WebPathView;

    closed spec fn view(&self) -> WebPathView {
        WebPathView {
            prefix: self.full@.take(self.pfxlen as int),
            path: self.full@.skip(self.pfxlen as int),
        }
    }
}

/// The model of an optional path.
pub open spec fn opt_path_view(path: Option<WebPath>) -> Option<WebPathView> {
    match path {
        Some(path) => Some(path@),
        None => None,
    }
}

/// Whether `bytes` begins with `prefix`.
fn bytes_start_with(bytes: &[u8], prefix: &[u8]) -> (yes: bool)
    ensures
        yes == prefix@.is_prefix_of(bytes@),
{
    let n: usize = prefix.len();
    if n > bytes.len() {
        return false;
    }
    for i in 0..n
        invariant
            n == prefix@.len(),
            n <= bytes@.len(),
            forall|j: int| 0 <= j < i ==> prefix@[j] == bytes@[j],
    {
        if bytes[i] != prefix[i] {
            assert(bytes@.take(n as int)[i as int] != prefix@[i as int]);
            return false;
        }
    }
    assert(prefix@ =~= bytes@.take(n as int));
    true
}

impl WebPath {
    /// The prefix ends within the path.
    #[verifier::type_invariant]
    spec fn inv(self) -> bool {
        self.pfxlen <= self.full@.len()
    }

    /// The path of a request, from the path of its URI, seen below a prefix. None where the path
    /// is refused or does not lie below the prefix.
    pub fn from_uri(uri_path: &str, prefix: &str) -> (res: Option<WebPath>)
        ensures
            opt_path_view(res) == web_path(uri_path@, prefix@),
            res matches Some(path) ==> path@.full().len() > 0 && (path@.full()[0] == SLASH
                || path@.full() == seq![0x2au8]),
    {
        if same_text(uri_path, "*") {
            let mut star: Vec<u8> = Vec::new();
            star.push(0x2a);
            let path = WebPath { full: star, pfxlen: 0 };
            assert(path@ =~= WebPathView { prefix: Seq::empty(), path: seq![0x2au8] });
            assert(path@.full() =~= seq![0x2au8]);
            return Some(path);
        }
        match normalize_path(uri_path) {
            Some(full) => {
                proof {
                    lemma_hide_prefix_full(full@, encode_utf8(prefix@));
                }
                WebPath::from_decoded(full, prefix)
            },
            None => None,
        }
    }

    /// A decoded path, seen below a prefix. None where it does not lie below the prefix.
    pub fn from_decoded(full: Vec<u8>, prefix: &str) -> (res: Option<WebPath>)
        ensures
            opt_path_view(res) == hide_prefix(full@, encode_utf8(prefix@)),
    {
        let mut full = full;
        let hidden = prefix.as_bytes();
        let n: usize = hidden.len();
        if !bytes_start_with(full.as_slice(), hidden) {
            return None;
        }
        if n > 0 && hidden[n - 1] == SLASH {
            let path = WebPath { full, pfxlen: n - 1 };
            assert(path@.prefix =~= hidden@.drop_last());
            return Some(path);
        }
        if full.len() == n {
            full.push(SLASH);
        }
        let path = WebPath { full, pfxlen: n };
        assert(path@.prefix =~= hidden@);
        assert(full@.len() > n);
        Some(path)
    }

    /// Number of segments below the prefix.
    pub fn num_segments(&self) -> (n: usize)
        ensures
            n == segments(self@.path).len(),
    {
        proof {
            use_type_invariant(self);
        }
        let ghost path = self@.path;
        let mut n: usize = 0;
        let mut i: usize = self.pfxlen;
        assert(path.take(0) =~= Seq::empty());
        while i < self.full.len()
            invariant
                self.pfxlen <= i <= self.full@.len(),
                path == self.full@.skip(self.pfxlen as int),
                n == segments(path.take(i - self.pfxlen)).len(),
                n <= i - self.pfxlen,
            decreases self.full@.len() - i,
        {
            proof {
                lemma_segments_grow(path, i - self.pfxlen);
            }
            if self.full[i] != SLASH && (i == self.pfxlen || self.full[i - 1] == SLASH) {
                n = n + 1;
            }
            i = i + 1;
        }
        assert(path.take(path.len() as int) =~= path);
        n
    }

    /// Whether the path ends in a slash.
    pub fn is_collection(&self) -> (yes: bool)
        ensures
            yes == self@.is_collection(),
    {
        proof {
            use_type_invariant(self);
        }
        let n: usize = self.full.len();
        n > self.pfxlen && self.full[n - 1] == SLASH
    }

    /// The last segment below the prefix. Can be empty.
    pub fn file_name(&self) -> (name: Vec<u8>)
        ensures
            name@ == self@.file_name(),
    {
        proof {
            use_type_invariant(self);
        }
        let ghost path = self@.path;
        let mut name: Vec<u8> = Vec::new();
        let mut i: usize = self.pfxlen;
        assert(path.take(0) =~= Seq::empty());
        while i < self.full.len()
            invariant
                self.pfxlen <= i <= self.full@.len(),
                path == self.full@.skip(self.pfxlen as int),
                segments(path.take(i - self.pfxlen)).len() == 0 ==> name@.len() == 0,
                segments(path.take(i - self.pfxlen)).len() > 0 ==> name@ == segments(
                    path.take(i - self.pfxlen),
                ).last(),
            decreases self.full@.len() - i,
        {
            proof {
                lemma_segments_grow(path, i - self.pfxlen);
            }
            if self.full[i] != SLASH {
                if i == self.pfxlen || self.full[i - 1] == SLASH {
                    name.clear();
                }
                name.push(self.full[i]);
            }
            i = i + 1;
        }
        assert(path.take(path.len() as int) =~= path);
        name
    }

    /// Adds a segment to the end of the path.
    pub fn push_segment(self, segment: &[u8]) -> (path: WebPath)
        ensures
            path@ == self@.push_segment(segment@),
    {
        proof {
            use_type_invariant(&self);
        }
        let collection = self.is_collection();
        let pfxlen: usize = self.pfxlen;
        let mut full = self.full;
        if !collection {
            full.push(SLASH);
        }
        let ghost base = full@;
        let n: usize = segment.len();
        for i in 0..n
            invariant
                n == segment@.len(),
                full@ == base + segment@.take(i as int),
        {
            full.push(segment[i]);
            assert(segment@.take(i + 1) =~= segment@.take(i as int).push(segment@[i as int]));
        }
        assert(segment@.take(n as int) =~= segment@);
        let path = WebPath { full, pfxlen };
        assert(path@ =~= self@.push_segment(segment@));
        path
    }

    /// The whole path as text. Bytes that are not valid UTF-8 become replacement characters.
    pub fn as_utf8_string_with_prefix(&self) -> (text: String)
        ensures
            text@ == lossy_text(self@.full()),
            self@.full().len() > 0 && self@.full()[0] < 0x80 ==> text@.len() > 0 && text@[0]
                == self@.full()[0] as char,
    {
        proof {
            use_type_invariant(self);
        }
        assert(self@.full() =~= self.full@);
        utf8_text_lossy(self.full.as_slice())
    }

    /// The whole path, percent-encoded.
    pub fn as_url_string_with_prefix(&self) -> (url: String)
        ensures
            url@ == encode_path(self@.full()),
    {
        proof {
            use_type_invariant(self);
        }
        assert(self@.full() =~= self.full@);
        let mut url = String::new();
        let n: usize = self.full.len();
        assert(self.full@.take(0) =~= Seq::empty());
        for i in 0..n
            invariant
                n == self.full@.len(),
                url@ == encode_path(self.full@.take(i as int)),
        {
            let byte: u8 = self.full[i];
            assert(self.full@.take(i + 1).drop_last() =~= self.full@.take(i as int));
            push_encoded(&mut url, byte);
        }
        assert(self.full@.take(n as int) =~= self.full@);
        url
    }

    /// The prefix, decoded.
    pub fn prefix(&self) -> (bytes: &[u8])
        ensures
            bytes@ == self@.prefix,
    {
        proof {
            use_type_invariant(self);
        }
        vstd::slice::slice_subrange(self.full.as_slice(), 0, self.pfxlen)
    }

    /// The path below the prefix, decoded.
    pub fn as_bytes(&self) -> (bytes: &[u8])
        ensures
            bytes@ == self@.path,
    {
        proof {
            use_type_invariant(self);
        }
        vstd::slice::slice_subrange(self.full.as_slice(), self.pfxlen, self.full.len())
    }
}

/// The hexadecimal digit, in upper case, of a number below sixteen.
fn hex_char(n: u8) -> (c: char)
    requires
        n < 16,
    ensures
        c == hex_digit(n),
{
    if n < 10 {
        (0x30 + n) as char
    } else {
        (0x37 + n) as char
    }
}

/// Adds a byte to a URL path.
fn push_encoded(url: &mut String, byte: u8)
    ensures
        final(url)@ == old(url)@ + encode_byte(byte),
{
    let plain = (byte >= 0x41 && byte <= 0x5a) || (byte >= 0x61 && byte <= 0x7a) || (byte >= 0x30
        && byte <= 0x39) || byte == 0x2d || byte == 0x5f || byte == 0x2e || byte == 0x7e || byte
        == SLASH;
    if plain {
        url.push(byte as char);
    } else {
        url.push('%');
        url.push(hex_char(byte / 16));
        url.push(hex_char(byte % 16));
    }
}

/// One byte more of a path starts a segment, continues the last one, or is a slash.
proof fn lemma_segments_grow(path: Seq<u8>, i: int)
    requires
        0 <= i < path.len(),
    ensures
        ({
            let before = segments(path.take(i));
            let after = segments(path.take(i + 1));
            &&& path[i] == SLASH ==> after == before
            &&& path[i] != SLASH && (i == 0 || path[i - 1] == SLASH) ==> after == before.push(
                seq![path[i]],
            )
            &&& path[i] != SLASH && i > 0 && path[i - 1] != SLASH ==> before.len() > 0 && after
                == before.drop_last().push(before.last().push(path[i]))
        }),
    decreases i,
{
    assert(path.take(i + 1).drop_last() =~= path.take(i));
    if i > 0 {
        lemma_segments_grow(path, i - 1);
    }
}

/// Hiding a prefix loses nothing of a path; a path that is the prefix gets a slash.
pub proof fn lemma_hide_prefix_full(full: Seq<u8>, prefix: Seq<u8>)
    ensures
        hide_prefix(full, prefix) is Some <==> prefix.is_prefix_of(full),
        hide_prefix(full, prefix) matches Some(path) ==> path.path.len() > 0 && (path.full() == full
            || (full == prefix && path.full() == full.push(SLASH))),
{
}

/// A percent-encoded path holds only characters that stand for themselves in a URL, and is not
/// empty unless the path is.
pub proof fn lemma_encode_path_chars(path: Seq<u8>)
    ensures
        forall|i: int|
            0 <= i < encode_path(path).len() ==> is_url_char(#[trigger] encode_path(path)[i]),
        encode_path(path).len() >= path.len(),
    decreases path.len(),
{
    if path.len() > 0 {
        lemma_encode_path_chars(path.drop_last());
        let byte = path.last();
        assert(byte / 16 < 16 && byte % 16 < 16);
        assert forall|i: int| 0 <= i < encode_byte(byte).len() implies is_url_char(
            #[trigger] encode_byte(byte)[i],
        ) by {}
    }
}

} // verus!
