//! Which embedded file answers an HTTP path.
use vstd::prelude::*;
use vstd::string::*;

use crate::text;

verus! {

/// The page of the web interface.
pub open spec fn index_chars() -> Seq<char> {
    "index.html"@
}

/// A path without the slashes that it begins with.
pub open spec fn stripped(path: Seq<char>) -> Seq<char>
    decreases path.len(),
{
    if path.len() > 0 && path[0] == '/' {
        stripped(path.skip(1))
    } else {
        path
    }
}

/// The file that a path stands for.
pub open spec fn asset_path(path: Seq<char>) -> Seq<char> {
    if stripped(path).len() == 0 {
        index_chars()
    } else {
        stripped(path)
    }
}

/// How long a browser may keep a file: for ever where its name holds a hash of
/// its content.
pub open spec fn cache_chars(path: Seq<char>) -> Seq<char> {
    if "assets/"@.is_prefix_of(path) {
        "public, max-age=31536000, immutable"@
    } else {
        "no-cache"@
    }
}

/// The media type that a file name stands for.
pub uninterp spec fn mime_chars(path: Seq<char>) -> Seq<char>;

/// The media type of a file, by its name. Calls `mime_guess::from_path` and
/// takes the first guess, or `application/octet-stream`; the contract names
/// the result.
#[verifier::external_body]
fn mime_of(path: &str) -> (r: String)
    ensures
        r@ == mime_chars(path@),
{
    mime_guess::from_path(path).first_or_octet_stream().as_ref().to_owned()
}

/// An answer from the embedded files.
#[derive(Debug, Clone, PartialEq, Eq)]
pub enum StaticReply {
    /// Serve this file.
    Serve { path: String, content_type: String, cache: String },
    /// There is nothing to serve.
    Unavailable { msg: String },
}

/// The content of a [`StaticReply`].
#[verifier::ext_equal]
pub enum StaticView {
    Serve { path: Seq<char>, content_type: Seq<char>, cache: Seq<char> },
    Unavailable { msg: Seq<char> },
}

impl DeepView for StaticReply {
    type V = StaticView;

    open spec fn deep_view(&self) -> StaticView {
        match self {
            StaticReply::Serve { path, content_type, cache } => StaticView::Serve {
                path: path@,
                content_type: content_type@,
                cache: cache@,
            },
            StaticReply::Unavailable { msg } => StaticView::Unavailable { msg: msg@ },
        }
    }
}

/// A file, served with the media type `mime`.
pub open spec fn served(path: Seq<char>, mime: Seq<char>) -> StaticView {
    StaticView::Serve { path: path, content_type: mime, cache: cache_chars(path) }
}

/// The file to serve: the one asked for, where it is there, else the page of
/// the web interface, which knows its own paths.
pub open spec fn chosen(path: Seq<char>, there: bool, index_there: bool) -> Option<Seq<char>> {
    if there {
        Some(asset_path(path))
    } else if index_there {
        Some(index_chars())
    } else {
        None
    }
}

/// The answer to a path. `there` says whether the file it stands for is
/// embedded, and `index_there` whether the page is.
pub open spec fn static_reply(path: Seq<char>, there: bool, index_there: bool) -> StaticView {
    match chosen(path, there, index_there) {
        Some(p) => served(p, mime_chars(p)),
        None => StaticView::Unavailable {
            msg: "WebUI assets not embedded — run `npm run build` in web/ then rebuild"@,
        },
    }
}

/// The file that a path stands for.
pub fn asset_name(path: &str) -> (r: String)
    ensures
        r@ == asset_path(path@),
{
    let n: usize = path.unicode_len();
    let mut i: usize = 0;
    assert(path@.skip(0) =~= path@);
    while i < n && path.get_char(i) == '/'
        invariant
            0 <= i <= n,
            n == path@.len(),
            stripped(path@) == stripped(path@.skip(i as int)),
        decreases n - i,
    {
        assert(path@.skip(i as int).skip(1) =~= path@.skip(i + 1));
        i += 1;
    }
    let rest = path.substring_char(i, n);
    assert(rest@ =~= path@.skip(i as int));
    if rest.is_empty() {
        "index.html".to_owned()
    } else {
        rest.to_owned()
    }
}

/// Serves a file with a given media type.
pub fn serve(path: &str, mime: String) -> (r: StaticReply)
    ensures
        r.deep_view() == served(path@, mime@),
{
    let cache = if text::begins_with(path, "assets/") {
        "public, max-age=31536000, immutable"
    } else {
        "no-cache"
    };
    StaticReply::Serve {
        path: path.to_owned(),
        content_type: mime,
        cache: cache.to_owned(),
    }
}

/// The answer to a path.
pub fn handler(path: &str, there: bool, index_there: bool) -> (r: StaticReply)
    ensures
        r.deep_view() == static_reply(path@, there, index_there),
{
    if there {
        let p = asset_name(path);
        let m = mime_of(p.as_str());
        serve(p.as_str(), m)
    } else if index_there {
        let m = mime_of("index.html");
        serve("index.html", m)
    } else {
        StaticReply::Unavailable {
            msg: "WebUI assets not embedded — run `npm run build` in web/ then rebuild".to_owned(),
        }
    }
}

/// Any path is answered with a page where the page is there.
pub proof fn law_deep_links_are_served(path: Seq<char>, there: bool)
    ensures
        static_reply(path, there, true) matches StaticView::Serve {
            path: p,
            content_type,
            cache,
        } && p == if there {
            asset_path(path)
        } else {
            index_chars()
        },
{
}

/// A path stands for the file that it names, without the slashes in front; and
/// for the page where it names none.
pub proof fn law_paths_are_stripped(path: Seq<char>)
    ensures
        path.len() > 0 && path[0] == '/' ==> asset_path(path) == asset_path(path.skip(1)),
        path.len() > 0 && path[0] != '/' ==> asset_path(path) == path,
        asset_path(Seq::empty()) == "index.html"@,
{
}

/// A file is served with its own media type, and may be kept for ever where it
/// is an asset, and not otherwise. Nothing is served where neither the file nor
/// the page is there.
pub proof fn law_served_files(path: Seq<char>, there: bool, index_there: bool)
    ensures
        static_reply(path, there, index_there) is Unavailable <==> !there && !index_there,
        static_reply(path, there, index_there) matches StaticView::Serve {
            path: p,
            content_type,
            cache,
        } ==> content_type == mime_chars(p) && cache == (if "assets/"@.is_prefix_of(p) {
            "public, max-age=31536000, immutable"@
        } else {
            "no-cache"@
        }) && p == (if there {
            asset_path(path)
        } else {
            "index.html"@
        }),
{
}

} // verus!
