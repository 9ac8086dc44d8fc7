//! The cover image's file extension. Source-independent: every site needs
//! the same media-type-to-extension mapping.

use vstd::prelude::*;
use crate::text::{chars_of, concat, owned, str_eq, string_of};
use crate::urls::{parse_url, parsed_url};
use crate::utils::{trim, trim_str};

verus! {

/// Unicode lower case of `s`, as std's `str::to_lowercase` computes it.
pub uninterp spec fn lowercase(s: Seq<char>) -> Seq<char>;

/// std's `str::to_lowercase`.
#[verifier::external_body]
pub(crate) fn to_lowercase(s: &str) -> (r: String)
    ensures
        r@ == lowercase(s@),
{
    s.to_lowercase()
}

/// The extension std's `Path::extension` reads off the path `p`, as text.
pub uninterp spec fn path_extension(p: Seq<char>) -> Option<Seq<char>>;

/// std's `Path::new(p).extension()`, as text.
#[verifier::external_body]
pub(crate) fn extension_of(p: &str) -> (r: Option<String>)
    ensures
        r.deep_view() == path_extension(p@),
{
    std::path::Path::new(p).extension().map(|e| e.to_string_lossy().into_owned())
}

/// The canonical extension of an EPUB 3 core image media type: an explicit
/// table rather than a reverse MIME lookup, which returns aliases in
/// alphabetical order and so maps `image/jpeg` to `.jfif`.
pub open spec fn canonical_extension(media_type: Seq<char>) -> Option<Seq<char>> {
    let m = lowercase(trim(media_type));
    if m == "image/jpeg"@ {
        Some(".jpg"@)
    } else if m == "image/png"@ {
        Some(".png"@)
    } else if m == "image/gif"@ {
        Some(".gif"@)
    } else if m == "image/svg+xml"@ {
        Some(".svg"@)
    } else if m == "image/webp"@ {
        Some(".webp"@)
    } else {
        None
    }
}

/// Canonical extension for an EPUB 3 core image media type, `None` for
/// anything else.
pub fn canonical_extension_for_media_type(media_type: &str) -> (r: Option<&'static str>)
    ensures
        match r {
            Some(e) => canonical_extension(media_type@) == Some(e@),
            None => canonical_extension(media_type@) is None,
        },
{
    let t = trim_str(media_type);
    let m = to_lowercase(t.as_str());
    if str_eq(m.as_str(), "image/jpeg") {
        Some(".jpg")
    } else if str_eq(m.as_str(), "image/png") {
        Some(".png")
    } else if str_eq(m.as_str(), "image/gif") {
        Some(".gif")
    } else if str_eq(m.as_str(), "image/svg+xml") {
        Some(".svg")
    } else if str_eq(m.as_str(), "image/webp") {
        Some(".webp")
    } else {
        None
    }
}

/// The extensions a reader and `epubcheck` decode reliably.
pub open spec fn allowed_cover_extensions() -> Seq<Seq<char>> {
    seq![".jpg"@, ".jpeg"@, ".png"@, ".gif"@, ".svg"@, ".webp"@]
}

/// The extension of the cover's URL path, when it has one a reader knows.
pub open spec fn url_cover_extension(cover_url: Seq<char>) -> Option<Seq<char>> {
    match parsed_url(cover_url) {
        None => None,
        Some(p) => match path_extension(p.2) {
            None => None,
            Some(e) => {
                let ext = "."@ + lowercase(e);
                if allowed_cover_extensions().contains(ext) { Some(ext) } else { None }
            },
        },
    }
}

/// The cover extension: the media type's, else the URL path's, else `.jpg`.
pub open spec fn cover_extension(cover_url: Seq<char>, media_type: Seq<char>) -> Seq<char> {
    match canonical_extension(media_type) {
        Some(e) => e,
        None => match url_cover_extension(cover_url) {
            Some(e) => e,
            None => ".jpg"@,
        },
    }
}

/// Whether `ext` is one of [`allowed_cover_extensions`].
fn is_allowed_extension(ext: &str) -> (r: bool)
    ensures
        r == allowed_cover_extensions().contains(ext@),
{
    let names: [&str; 6] = [".jpg", ".jpeg", ".png", ".gif", ".svg", ".webp"];
    let ghost allowed = allowed_cover_extensions();
    let mut i: usize = 0;
    while i < 6
        invariant
            i <= 6,
            allowed == allowed_cover_extensions(),
            forall|k: int| 0 <= k < 6 ==> #[trigger] names@[k]@ == allowed[k],
            forall|k: int| 0 <= k < i ==> allowed[k] != ext@,
        decreases 6 - i,
    {
        if str_eq(names[i], ext) {
            proof {
                assert(allowed[i as int] == ext@);
            }
            return true;
        }
        i = i + 1;
    }
    proof {
        assert(!allowed.contains(ext@)) by {
            if allowed.contains(ext@) {
                let k = choose|k: int| 0 <= k < allowed.len() && allowed[k] == ext@;
            }
        }
    }
    false
}

/// Pick the file extension of the embedded cover image: the canonical
/// extension for the response's media type, else the URL path's extension
/// when a reader recognizes it, else `.jpg`.
pub fn pick_cover_extension(cover_url: &str, media_type: &str) -> (r: String)
    ensures
        r@ == cover_extension(cover_url@, media_type@),
{
    match canonical_extension_for_media_type(media_type) {
        Some(e) => return owned(e),
        None => {},
    }
    match parse_url(cover_url) {
        None => owned(".jpg"),
        Some(p) => match extension_of(p.path.as_str()) {
            None => owned(".jpg"),
            Some(e) => {
                let ext = concat(".", to_lowercase(e.as_str()).as_str());
                if is_allowed_extension(ext.as_str()) {
                    ext
                } else {
                    owned(".jpg")
                }
            },
        },
    }
}

} // verus!
