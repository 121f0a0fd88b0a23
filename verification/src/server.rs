//! The static-asset server's decisions: how a request URL routes, and which
//! content type a file is served with.
//!
//! The sockets, the filesystem reads and the HTTP framing are the runner's
//! work; the routing, the extension table and the response shape are
//! decided here.

use vstd::prelude::*;

use crate::codec::str_eq;

verus! {

/// Where a request URL routes: the home page, or an asset by path.
#[derive(Debug, Clone, PartialEq, Eq)]
pub enum Route {
    /// The root URL: serve `index.html`.
    Home,
    /// Any other URL: serve the named asset, leading slash stripped.
    Asset(String),
}

/// Routes one request URL.
pub fn handle_req(url: &str) -> (r: Route)
    ensures
        url@ == "/"@ ==> r is Home,
        url@ != "/"@ && url@.len() > 0 && url@[0] == '/' ==> (r matches Route::Asset(p) && p@
            == url@.skip(1)),
        url@ != "/"@ && !(url@.len() > 0 && url@[0] == '/') ==> (r matches Route::Asset(p) && p@
            == url@),
{
    proof {
        reveal_strlit("/");
    }
    if str_eq(url, "/") {
        Route::Home
    } else {
        let n = url.unicode_len();
        if n > 0 && url.get_char(0) == '/' {
            let rest = url.substring_char(1, n);
            assert(rest@ =~= url@.skip(1));
            Route::Asset(rest.to_owned())
        } else {
            Route::Asset(url.to_owned())
        }
    }
}

/// The position after the last dot of `p`, or zero when it has none.
pub open spec fn ext_start(p: Seq<char>) -> int
    decreases p.len(),
{
    if p.len() == 0 {
        0
    } else if p.last() == '.' {
        p.len() as int
    } else {
        ext_start(p.drop_last())
    }
}

/// The extension of a path: what follows its last dot.
pub open spec fn ext_of(p: Seq<char>) -> Seq<char> {
    if ext_start(p) > 0 {
        p.skip(ext_start(p))
    } else {
        Seq::empty()
    }
}

/// The content type served for an extension, by the fixed table; anything
/// unknown is served as a plain octet stream.
pub open spec fn mime_of(ext: Seq<char>) -> Seq<char> {
    if ext == "html"@ || ext == "htm"@ {
        "text/html"@
    } else if ext == "css"@ {
        "text/css"@
    } else if ext == "js"@ {
        "text/javascript"@
    } else if ext == "txt"@ {
        "text/plain"@
    } else if ext == "json"@ {
        "application/json"@
    } else if ext == "png"@ {
        "image/png"@
    } else if ext == "jpeg"@ || ext == "jpg"@ {
        "image/jpeg"@
    } else if ext == "ico"@ {
        "image/vnd.microsoft.icon"@
    } else if ext == "pdf"@ {
        "application/pdf"@
    } else if ext == "gif"@ {
        "image/gif"@
    } else if ext == "mpeg"@ {
        "video/mpeg"@
    } else if ext == "mp3"@ {
        "audio/mpeg"@
    } else if ext == "ttf"@ {
        "font/ttf"@
    } else {
        "application/octet-stream"@
    }
}

/// A path with no dot beyond position `k` has its extension start there.
proof fn lemma_ext_start(p: Seq<char>, k: int)
    requires
        0 <= k <= p.len(),
        k > 0 ==> p[k - 1] == '.',
        forall|j: int| k <= j < p.len() ==> p[j] != '.',
    ensures
        ext_start(p) == if k > 0 { k } else { 0 },
    decreases p.len(),
{
    if p.len() == 0 {
    } else if k == p.len() {
    } else {
        assert(p.last() != '.');
        lemma_ext_start(p.drop_last(), k);
    }
}

/// Looks up the content type a file is served with, from the extension of
/// its path.
pub fn get_mime_type(path: &str) -> (r: &str)
    ensures
        r@ == mime_of(ext_of(path@)),
{
    let n = path.unicode_len();
    let mut k: usize = n;
    while k > 0
        invariant
            k <= n,
            n == path@.len(),
            forall|j: int| k <= j < n ==> path@[j] != '.',
        decreases k,
    {
        if path.get_char(k - 1) == '.' {
            proof {
                lemma_ext_start(path@, k as int);
            }
            let ext = path.substring_char(k, n);
            proof {
                assert(ext@ == ext_of(path@));
            }
            return mime_lookup(ext);
        }
        k = k - 1;
    }
    proof {
        lemma_ext_start(path@, 0);
        assert(ext_of(path@) =~= Seq::<char>::empty());
        reveal_strlit("");
        assert(""@ =~= Seq::<char>::empty());
    }
    mime_lookup("")
}

/// The extension table itself.
fn mime_lookup(ext: &str) -> (r: &str)
    ensures
        r@ == mime_of(ext@),
{
    if str_eq(ext, "html") || str_eq(ext, "htm") {
        "text/html"
    } else if str_eq(ext, "css") {
        "text/css"
    } else if str_eq(ext, "js") {
        "text/javascript"
    } else if str_eq(ext, "txt") {
        "text/plain"
    } else if str_eq(ext, "json") {
        "application/json"
    } else if str_eq(ext, "png") {
        "image/png"
    } else if str_eq(ext, "jpeg") || str_eq(ext, "jpg") {
        "image/jpeg"
    } else if str_eq(ext, "ico") {
        "image/vnd.microsoft.icon"
    } else if str_eq(ext, "pdf") {
        "application/pdf"
    } else if str_eq(ext, "gif") {
        "image/gif"
    } else if str_eq(ext, "mpeg") {
        "video/mpeg"
    } else if str_eq(ext, "mp3") {
        "audio/mpeg"
    } else if str_eq(ext, "ttf") {
        "font/ttf"
    } else {
        "application/octet-stream"
    }
}

/// One response of the asset server, as the runner sends it.
#[derive(Debug, Clone, PartialEq, Eq)]
pub struct AssetResponse {
    /// The HTTP status code.
    pub status: u16,
    /// The `Content-type` header's value.
    pub content_type: String,
    /// The `Access-Control-Allow-Origin` header's value: always every origin.
    pub allow_origin: String,
    /// The body served.
    pub body: Vec<u8>,
}

/// Builds the response for an asset path the runner tried to read: the file
/// with its looked-up content type, or a plain not-found.
pub fn serve_assets(path: &str, file: Option<Vec<u8>>) -> (r: AssetResponse)
    ensures
        r.allow_origin@ == "*"@,
        file matches Some(data) ==> r.status == 200 && r.body == data && r.content_type@
            == mime_of(ext_of(path@)),
        file is None ==> r.status == 404 && r.body@.len() == 0,
{
    match file {
        Some(data) => {
            let mime = get_mime_type(path);
            AssetResponse {
                status: 200,
                content_type: mime.to_owned(),
                allow_origin: "*".to_owned(),
                body: data,
            }
        },
        None => AssetResponse {
            status: 404,
            content_type: "application/octet-stream".to_owned(),
            allow_origin: "*".to_owned(),
            body: Vec::new(),
        },
    }
}

/// Builds the home-page response: `index.html`'s contents as HTML.
pub fn home_screen(index_html: Vec<u8>) -> (r: AssetResponse)
    ensures
        r.status == 200,
        r.allow_origin@ == "*"@,
        r.content_type@ == "text/html"@,
        r.body == index_html,
{
    AssetResponse {
        status: 200,
        content_type: "text/html".to_owned(),
        allow_origin: "*".to_owned(),
        body: index_html,
    }
}

} // verus!
