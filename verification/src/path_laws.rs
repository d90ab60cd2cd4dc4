//! What holds of paths: their segments, the prefix that is hidden and their percent-encoded form.
use crate::model::one_level_deep;
use crate::outside::normalized_path;
use crate::server::is_one_level_deep;
use crate::webpath::{
    encode_byte, encode_path, hide_prefix, lemma_hide_prefix_full, segments, web_path, WebPath,
    WebPathView,
};
use vstd::prelude::*;
use vstd::utf8::encode_utf8;

verus! {

/// Whether no slash follows a byte that is none: a path of slashes, and a name after them.
pub open spec fn only_a_name(path: Seq<u8>) -> bool {
    forall|i: int, j: int|
        0 <= i < j < path.len() && #[trigger] path[i] != 0x2f ==> #[trigger] path[j] != 0x2f
}

/// A path is taken apart at its slashes: one more slash at its end makes no difference, and a name
/// after a slash is one more segment. A name alone is the only segment, and nothing has none.
pub proof fn law_segments_join(path: Seq<u8>, name: Seq<u8>)
    requires
        name.len() > 0,
        !name.contains(0x2f),
    ensures
        segments(Seq::empty()) == Seq::<Seq<u8>>::empty(),
        segments(path.push(0x2f)) == segments(path),
        segments(path.push(0x2f) + name) == segments(path).push(name),
        segments(name) == seq![name],
    decreases name.len(),
{
    let open = path.push(0x2f);
    let whole = open + name;
    let start = name.drop_last();
    assert(open.drop_last() =~= path);
    assert(whole.drop_last() =~= open + start);
    assert(name.contains(name.last()));
    assert(segments(open) == segments(path));
    if start.len() == 0 {
        assert(whole.last() == name.last() && whole[whole.len() - 2] == 0x2f);
        assert(open + start =~= open);
        assert(seq![name.last()] =~= name);
        assert(segments(whole) =~= segments(path).push(name));
        assert(segments(start) =~= Seq::<Seq<u8>>::empty());
        assert(segments(name) =~= seq![name]);
    } else {
        assert(!start.contains(0x2f)) by {
            if start.contains(0x2f) {
                assert(name.contains(name[start.index_of(0x2f)]));
            }
        }
        law_segments_join(path, start);
        assert(name.contains(name[name.len() - 2]));
        assert(start.push(name.last()) =~= name);
        assert(segments(whole) =~= segments(path).push(name));
        assert(segments(name) =~= seq![name]);
    }
}

/// A path without segments is made of slashes.
proof fn lemma_no_segments(path: Seq<u8>)
    ensures
        segments(path).len() == 0 <==> (forall|i: int| 0 <= i < path.len() ==> path[i] == 0x2f),
    decreases path.len(),
{
    if path.len() > 0 {
        lemma_no_segments(path.drop_last());
        let before = path.drop_last();
        if path.last() == 0x2f {
            assert forall|i: int| segments(path).len() == 0 && 0 <= i < path.len() implies path[i]
                == 0x2f by {
                if i < path.len() - 1 {
                    assert(before[i] == 0x2f);
                }
            }
            assert forall|i: int|
                (forall|k: int| 0 <= k < path.len() ==> path[k] == 0x2f) && 0 <= i
                    < before.len() implies before[i] == 0x2f by {
                assert(path[i] == 0x2f);
            }
        } else {
            assert(path[path.len() - 1] != 0x2f);
            assert(segments(path).len() > 0);
        }
    }
}

/// A path below a prefix is at most one level deep exactly where it is made of slashes, with at
/// most a name after them and no slash after the name.
pub proof fn law_one_level_deep(path: WebPathView)
    ensures
        one_level_deep(path) <==> only_a_name(path.path),
{
    lemma_one_level_deep(path.path);
}

/// The same, by the number of segments.
proof fn lemma_one_level_deep(path: Seq<u8>)
    ensures
        only_a_name(path) <==> (segments(path).len() == 0 || (segments(path).len() == 1
            && path.last() != 0x2f)),
    decreases path.len(),
{
    if path.len() > 0 {
        let before = path.drop_last();
        let n = path.len() - 1;
        lemma_one_level_deep(before);
        lemma_no_segments(before);
        lemma_no_segments(path);
        if only_a_name(path) {
            assert forall|i: int, j: int|
                0 <= i < j < before.len() && #[trigger] before[i] != 0x2f implies
                #[trigger] before[j] != 0x2f by {
                assert(path[i] != 0x2f);
                assert(path[j] != 0x2f);
            }
        }
        if path.last() == 0x2f {
            if only_a_name(path) {
                assert forall|i: int| 0 <= i < before.len() implies before[i] == 0x2f by {
                    assert(path[i] == 0x2f || path[n] != 0x2f);
                }
            }
            if segments(path).len() == 0 {
                assert(only_a_name(path));
            }
        } else {
            if only_a_name(before) {
                assert forall|i: int, j: int|
                    0 <= i < j < path.len() && #[trigger] path[i] != 0x2f implies
                    #[trigger] path[j] != 0x2f by {
                    if j < n {
                        assert(before[i] != 0x2f);
                        assert(before[j] != 0x2f);
                    }
                }
            }
            if before.len() > 0 && before.last() != 0x2f {
                assert(before[before.len() - 1] != 0x2f);
            }
        }
    }
}

/// A path is found to be at most one level deep exactly where no slash follows a name in it.
pub proof fn law_is_one_level_deep(path: &WebPath, yes: bool)
    requires
        call_ensures(is_one_level_deep, (path,), yes),
    ensures
        yes <==> only_a_name(path@.path),
{
    law_one_level_deep(path@);
}

/// The file name is what follows the last slash; slashes at the end do not count. A path of
/// slashes has none.
pub proof fn law_file_name(prefix: Seq<u8>, path: Seq<u8>, name: Seq<u8>)
    requires
        name.len() > 0,
        !name.contains(0x2f),
    ensures
        (WebPathView { prefix, path: path.push(0x2f) + name }).file_name() == name,
        (WebPathView { prefix, path: name }).file_name() == name,
        (WebPathView { prefix, path: path.push(0x2f) }).file_name() == (WebPathView {
            prefix,
            path,
        }).file_name(),
        (WebPathView { prefix, path }).file_name().len() == 0 <==> (forall|i: int|
            0 <= i < path.len() ==> path[i] == 0x2f),
{
    law_segments_join(path, name);
    lemma_no_segments(path);
    if segments(path).len() > 0 {
        crate::laws::law_segments(path, segments(path).len() - 1);
    }
}

/// A path is that of a collection exactly where it ends in a slash.
pub proof fn law_is_collection(prefix: Seq<u8>, path: Seq<u8>, byte: u8)
    ensures
        (WebPathView { prefix, path: path.push(byte) }).is_collection() <==> byte == 0x2f,
        !(WebPathView { prefix, path: Seq::empty() }).is_collection(),
{
}

/// A name that is added to a path stands after a slash, which is put there only where there is
/// none; the rest of the path and the prefix are kept, and the name is then the file name.
pub proof fn law_push_segment(prefix: Seq<u8>, path: Seq<u8>, name: Seq<u8>)
    ensures
        ({
            let pushed = WebPathView { prefix, path }.push_segment(name);
            &&& pushed.prefix == prefix
            &&& pushed.full() == prefix + pushed.path
            &&& path.len() > 0 && path.last() == 0x2f ==> pushed.path == path + name
            &&& path.len() == 0 || path.last() != 0x2f ==> pushed.path == path.push(0x2f) + name
            &&& name.len() > 0 && !name.contains(0x2f) ==> pushed.file_name() == name
                && segments(pushed.path) == segments(path).push(name)
        }),
{
    if name.len() > 0 && !name.contains(0x2f) {
        law_file_name(prefix, path, name);
        law_segments_join(path, name);
        if path.len() > 0 && path.last() == 0x2f {
            let start = path.drop_last();
            assert(start.push(0x2f) =~= path);
            law_file_name(prefix, start, name);
            law_segments_join(start, name);
        }
    }
}

/// A prefix is hidden where a path begins with it: what follows is the path below it, or a slash
/// where nothing follows. The slash that a prefix ends with belongs to the path below it.
pub proof fn law_hide_prefix(prefix: Seq<u8>, rest: Seq<u8>, full: Seq<u8>)
    ensures
        prefix.len() > 0 && prefix.last() == 0x2f ==> hide_prefix(prefix + rest, prefix) == Some(
            WebPathView { prefix: prefix.drop_last(), path: seq![0x2fu8] + rest },
        ),
        (prefix.len() == 0 || prefix.last() != 0x2f) && rest.len() > 0 ==> hide_prefix(
            prefix + rest,
            prefix,
        ) == Some(WebPathView { prefix, path: rest }),
        prefix.len() == 0 || prefix.last() != 0x2f ==> hide_prefix(prefix, prefix) == Some(
            WebPathView { prefix, path: seq![0x2fu8] },
        ),
        hide_prefix(full, prefix) is Some ==> full == prefix + full.skip(prefix.len() as int),
{
    let whole = prefix + rest;
    assert(whole.take(prefix.len() as int) =~= prefix);
    assert(prefix.take(prefix.len() as int) =~= prefix);
    assert(whole.skip(prefix.len() as int) =~= rest);
    if prefix.len() > 0 && prefix.last() == 0x2f {
        assert(whole.skip(prefix.len() - 1) =~= seq![0x2fu8] + rest);
    }
    if hide_prefix(full, prefix) is Some {
        assert(full.take(prefix.len() as int) + full.skip(prefix.len() as int) =~= full);
    }
}

/// The path of a request is its normalized path, seen below the prefix. It can be read exactly
/// where the path can be normalized and begins with the prefix, and nothing of it is lost. `*`
/// stands for itself, below every prefix.
pub proof fn law_web_path(uri_path: Seq<char>, prefix: Seq<char>)
    ensures
        uri_path == seq!['*'] ==> web_path(uri_path, prefix) == Some(
            WebPathView { prefix: Seq::empty(), path: seq![0x2au8] },
        ),
        uri_path != seq!['*'] ==> (web_path(uri_path, prefix) is Some <==> (normalized_path(
            uri_path,
        ) matches Some(full) && encode_utf8(prefix).is_prefix_of(full))),
        uri_path != seq!['*'] ==> (web_path(uri_path, prefix) matches Some(path) ==> {
            let full = normalized_path(uri_path)->0;
            let hidden = encode_utf8(prefix);
            &&& path.path.len() > 0
            &&& path.prefix + path.path == full || (full == hidden && path.prefix + path.path
                == full.push(0x2f))
            &&& path.prefix == hidden || path.prefix.push(0x2f) == hidden
            &&& hidden.len() > 0 && hidden.last() == 0x2f ==> path.prefix.push(0x2f) == hidden
        }),
{
    reveal_strlit("*");
    assert("*"@ =~= seq!['*']);
    if let Some(full) = normalized_path(uri_path) {
        let hidden = encode_utf8(prefix);
        if hidden.is_prefix_of(full) {
            law_hide_prefix(hidden, full.skip(hidden.len() as int), full);
            if hidden.len() > 0 {
                assert(hidden.drop_last().push(hidden.last()) =~= hidden);
                assert(hidden.drop_last() + (seq![hidden.last()] + full.skip(hidden.len() as int))
                    =~= full);
            }
            assert(hidden + full.skip(hidden.len() as int) =~= full);
            assert(hidden + seq![0x2fu8] =~= hidden.push(0x2f));
            if full.skip(hidden.len() as int).len() == 0 {
                assert(full =~= hidden);
            }
        }
    }
}

/// A decoded path that is seen below a prefix can be put together again from its prefix and the
/// path below it; a path that is the prefix gets a slash. It can be seen below the prefix exactly
/// where it begins with it.
pub proof fn law_parts_of_a_path(
    full: Vec<u8>,
    hidden: &str,
    seen: Option<WebPath>,
    prefix: &[u8],
    below: &[u8],
)
    requires
        call_ensures(WebPath::from_decoded, (full, hidden), seen),
        seen matches Some(path) ==> call_ensures(WebPath::prefix, (&path,), prefix),
        seen matches Some(path) ==> call_ensures(WebPath::as_bytes, (&path,), below),
    ensures
        seen is Some <==> encode_utf8(hidden@).is_prefix_of(full@),
        seen is Some ==> prefix@ + below@ == full@ || (full@ == encode_utf8(hidden@) && prefix@
            + below@ == full@.push(0x2f)),
        seen is Some ==> prefix@ == encode_utf8(hidden@) || prefix@.push(0x2f) == encode_utf8(
            hidden@,
        ),
        seen is Some ==> below@.len() > 0,
{
    let h = encode_utf8(hidden@);
    lemma_hide_prefix_full(full@, h);
    if let Some(path) = seen {
        assert(path@.full() =~= prefix@ + below@);
        if h.len() > 0 {
            assert(h.drop_last().push(h.last()) =~= h);
        }
    }
}

/// The characters that stand for themselves in a URL path.
pub open spec fn unreserved() -> Seq<char> {
    "ABCDEFGHIJKLMNOPQRSTUVWXYZabcdefghijklmnopqrstuvwxyz0123456789-_.~/"@
}

/// A letter, a digit, a slash and each of `-_.~` stands for itself in a URL path; every other byte
/// is a percent sign and two hexadecimal digits in upper case, the higher one first.
pub proof fn law_encoded_byte(byte: u8)
    ensures
        unreserved().contains(byte as char) ==> encode_path(seq![byte]) == seq![byte as char],
        !unreserved().contains(byte as char) ==> encode_path(seq![byte]) == seq![
            '%',
            "0123456789ABCDEF"@[byte as int / 16],
            "0123456789ABCDEF"@[byte as int % 16],
        ],
{
    reveal_strlit("ABCDEFGHIJKLMNOPQRSTUVWXYZabcdefghijklmnopqrstuvwxyz0123456789-_.~/");
    reveal_strlit("0123456789ABCDEF");
    let all = unreserved();
    let c = byte as char;
    assert(seq![byte].drop_last() =~= Seq::empty());
    assert(encode_path(Seq::<u8>::empty()) =~= Seq::<char>::empty());
    assert(encode_path(seq![byte]) =~= encode_byte(byte));
    if 0x41 <= byte <= 0x5a {
        assert(all[byte - 0x41] == c);
    } else if 0x61 <= byte <= 0x7a {
        assert(all[byte - 0x61 + 26] == c);
    } else if 0x30 <= byte <= 0x39 {
        assert(all[byte - 0x30 + 52] == c);
    } else if byte == 0x2d {
        assert(all[62] == c);
    } else if byte == 0x5f {
        assert(all[63] == c);
    } else if byte == 0x2e {
        assert(all[64] == c);
    } else if byte == 0x7e {
        assert(all[65] == c);
    } else if byte == 0x2f {
        assert(all[66] == c);
    }
}

/// A path is encoded piece by piece.
pub proof fn law_encoded_pieces(a: Seq<u8>, b: Seq<u8>)
    ensures
        encode_path(a + b) == encode_path(a) + encode_path(b),
    decreases b.len(),
{
    if b.len() == 0 {
        assert(a + b =~= a);
        assert(encode_path(a) + encode_path(b) =~= encode_path(a));
    } else {
        assert((a + b).drop_last() =~= a + b.drop_last());
        law_encoded_pieces(a, b.drop_last());
        assert(encode_path(a + b) =~= encode_path(a) + encode_path(b));
    }
}

} // verus!
