//! What a node serves over HTTP: its information and the files of the web
//! client.

use vstd::prelude::*;

use crate::text::{is_prefix, starts_with};

verus! {

/// Node information as the node's API answers it.
pub struct NodeObject {
    /// Installation path of the node.
    pub install_path: String,
    /// The client's IP address.
    pub client_ip: String,
    /// The node's local IP address.
    pub local_ip: String,
    /// The node's WebSocket address.
    pub web_socket_addr: String,
}

/// A file of the web client, named by its path.
pub struct StaticFile<T>(pub T);

/// `s` without its leading `c`s.
pub open spec fn strip_leading(s: Seq<char>, c: char) -> Seq<char>
    decreases s.len(),
{
    if s.len() > 0 && s[0] == c {
        strip_leading(s.drop_first(), c)
    } else {
        s
    }
}

/// `s` with every occurrence of `p` removed, scanning from the left
/// (as `str::replace(p, "")`).
pub open spec fn remove_all(s: Seq<char>, p: Seq<char>) -> Seq<char>
    recommends
        p.len() > 0,
    decreases s.len(),
{
    if s.len() == 0 || p.len() == 0 {
        s
    } else if is_prefix(p, s) {
        remove_all(s.subrange(p.len() as int, s.len() as int), p)
    } else {
        seq![s[0]] + remove_all(s.drop_first(), p)
    }
}

/// The asset a request path names: the path without its leading slashes,
/// and, when it then starts with `dist/`, with every `dist/` removed.
pub open spec fn asset_path_of(path: Seq<char>) -> Seq<char> {
    let p = strip_leading(path, '/');
    if is_prefix("dist/"@, p) {
        remove_all(p, "dist/"@)
    } else {
        p
    }
}

fn trim_leading_slashes(path: &str) -> (r: String)
    ensures
        r@ == strip_leading(path@, '/'),
{
    let n = path.unicode_len();
    let mut i: usize = 0;
    assert(path@.subrange(0, n as int) =~= path@);
    while i < n && path.get_char(i) == '/'
        invariant
            n == path@.len(),
            i <= n,
            strip_leading(path@, '/') == strip_leading(path@.subrange(i as int, n as int), '/'),
        decreases n - i,
    {
        let ghost t = path@.subrange(i as int, n as int);
        assert(t.drop_first() =~= path@.subrange(i as int + 1, n as int));
        i = i + 1;
    }
    let rest = path.substring_char(i, n);
    proof {
        let t = path@.subrange(i as int, n as int);
        assert(t.len() == 0 || t[0] != '/');
    }
    String::from_str(rest)
}

fn remove_dist(s: &str) -> (r: String)
    ensures
        r@ == remove_all(s@, "dist/"@),
{
    proof {
        reveal_strlit("dist/");
    }
    let n = s.unicode_len();
    let mut out = String::new();
    let mut i: usize = 0;
    assert(s@.subrange(0, n as int) =~= s@);
    while i < n
        invariant
            n == s@.len(),
            i <= n,
            remove_all(s@, "dist/"@) == out@ + remove_all(s@.subrange(i as int, n as int), "dist/"@),
            "dist/"@.len() == 5,
        decreases n - i,
    {
        let rest = s.substring_char(i, n);
        let ghost t = s@.subrange(i as int, n as int);
        if starts_with(rest, "dist/") {
            assert(t.subrange(5, t.len() as int) =~= s@.subrange(i as int + 5, n as int));
            i = i + 5;
        } else {
            let one = s.substring_char(i, i + 1);
            assert(t.drop_first() =~= s@.subrange(i as int + 1, n as int));
            assert(one@ =~= seq![t[0]]);
            let ghost before = out@;
            out.append(one);
            assert(out@ + remove_all(s@.subrange(i as int + 1, n as int), "dist/"@) =~= before + (seq![t[0]]
                + remove_all(t.drop_first(), "dist/"@)));
            i = i + 1;
        }
    }
    assert(s@.subrange(n as int, n as int) =~= Seq::<char>::empty());
    assert(out@ + Seq::<char>::empty() =~= out@);
    out
}

/// The asset that a request path names (see `asset_path_of`).
pub fn asset_path(uri_path: &str) -> (r: String)
    ensures
        r@ == asset_path_of(uri_path@),
{
    let path = trim_leading_slashes(uri_path);
    if starts_with(path.as_str(), "dist/") {
        remove_dist(path.as_str())
    } else {
        path
    }
}

/// The MIME type that `mime_guess` gives a path by its extension, or
/// `application/octet-stream` where it knows none.
pub uninterp spec fn guessed_mime(path: Seq<char>) -> Seq<char>;

/// Calls `mime_guess::from_path(path).first_or_octet_stream()` and takes the
/// type's text. Claimed: the text is `guessed_mime(path)`, which depends on
/// the path alone (the guess looks at the extension only), and a path with
/// no `.` has no extension, so it gets `application/octet-stream`.
#[verifier::external_body]
fn guess_mime(path: &str) -> (m: String)
    ensures
        m@ == guessed_mime(path@),
        !path@.contains('.') ==> m@ == "application/octet-stream"@,
{
    let mime = mime_guess::from_path(path).first_or_octet_stream();
    mime.as_ref().to_string()
}

/// The headers of the answer for a file of the web client.
pub struct AssetHeaders {
    pub content_type: String,
    pub cache_control: Option<String>,
}

/// How a request for the file at `path` is answered: a file that exists
/// goes with the type guessed from its path and a week of caching; for any
/// other path the client's index page is sent, as HTML.
pub fn static_file_headers(path: &str, found: bool) -> (h: AssetHeaders)
    ensures
        found ==> h.content_type@ == guessed_mime(path@) && (h.cache_control matches Some(c) && c@
            == "max-age=604800"@),
        !found ==> h.content_type@ == "text/html"@ && h.cache_control is None,
{
    if found {
        AssetHeaders { content_type: guess_mime(path), cache_control: Some(String::from_str("max-age=604800")) }
    } else {
        AssetHeaders { content_type: String::from_str("text/html"), cache_control: None }
    }
}

} // verus!
