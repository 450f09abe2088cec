use vstd::prelude::*;

use base64::Engine;

use crate::error::{IoErrorKind, IoFailure};
use crate::logs::app_directory;
use crate::models::VisualNovel;
use crate::paths::{ComponentModel, LocalPath};
use crate::text::{chars_of, decimal, push_decimal};

verus! {

/// Where downloaded covers are cached, below the platform's data directory (`None`
/// when the platform has none). The directory is created by whoever writes a cover.
pub fn cover_cache_dir(data_dir: Option<LocalPath>) -> (r: Result<LocalPath, IoFailure>)
    ensures
        match data_dir {
            Some(d) => r is Ok && r->Ok_0@ == app_directory(d@).push(ComponentModel::Normal("covers"@)),
            None => r is Err && r->Err_0.model() == (IoErrorKind::NotFound, "Could not find an app data directory"@),
        },
{
    match data_dir {
        Some(d) => Ok(d.join_name("kakera".to_owned()).join_name("covers".to_owned())),
        None => Err(IoFailure::new(IoErrorKind::NotFound, "Could not find an app data directory")),
    }
}

/// The file that caches the cover of visual novel `vn_id`.
pub fn cover_file_path(cache_dir: &LocalPath, vn_id: u64) -> (r: LocalPath)
    ensures
        r@ == cache_dir@.push(ComponentModel::Normal(decimal(vn_id as nat) + ".jpg"@)),
{
    let mut name = String::new();
    push_decimal(&mut name, vn_id);
    name.append(".jpg");
    cache_dir.join_name(name)
}

/// Whether `c` is `d`, or the ASCII capital of `d`.
pub open spec fn same_ignoring_ascii_case(c: char, d: char) -> bool {
    c == d || ('A' <= c && c <= 'Z' && (c as u32) + 32 == (d as u32))
}

/// Whether `s` ends with `suffix`, ASCII capitals counting as their small letters.
pub open spec fn ends_with_ascii_lower(s: Seq<char>, suffix: Seq<char>) -> bool {
    suffix.len() <= s.len() && forall|i: int| 0 <= i < suffix.len() ==> same_ignoring_ascii_case(#[trigger] s[s.len() - suffix.len() + i], suffix[i])
}

fn same_char_ignoring_case(c: char, d: char) -> (r: bool)
    ensures
        r == same_ignoring_ascii_case(c, d),
{
    c == d || ('A' <= c && c <= 'Z' && (c as u32) + 32 == (d as u32))
}

fn ends_with_lower(s: &Vec<char>, suffix: &Vec<char>) -> (r: bool)
    ensures
        r == ends_with_ascii_lower(s@, suffix@),
{
    if suffix.len() > s.len() {
        return false;
    }
    let start = s.len() - suffix.len();
    let mut i: usize = 0;
    while i < suffix.len()
        invariant
            suffix.len() <= s.len(),
            start == s.len() - suffix.len(),
            i <= suffix.len(),
            forall|k: int| 0 <= k < i ==> same_ignoring_ascii_case(#[trigger] s@[s.len() - suffix.len() + k], suffix@[k]),
        decreases suffix.len() - i,
    {
        if !same_char_ignoring_case(s[start + i], suffix[i]) {
            return false;
        }
        i = i + 1;
    }
    true
}

/// The image type of a cover, told by its file extension in any case: PNG, WebP, or
/// else JPEG. (`str::to_lowercase` only turns non-ASCII characters into characters
/// outside these extensions, so comparing ASCII letters without case gives the same
/// answer.)
pub fn image_mime_type(path: &str) -> (r: &'static str)
    ensures
        r@ == if ends_with_ascii_lower(path@, ".png"@) {
            "image/png"@
        } else if ends_with_ascii_lower(path@, ".webp"@) {
            "image/webp"@
        } else {
            "image/jpeg"@
        },
{
    let p = chars_of(path);
    let png = chars_of(".png");
    let webp = chars_of(".webp");
    if ends_with_lower(&p, &png) {
        "image/png"
    } else if ends_with_lower(&p, &webp) {
        "image/webp"
    } else {
        "image/jpeg"
    }
}

/// The character of the standard Base64 alphabet (RFC 4648) for the six-bit value `v`.
pub open spec fn base64_digit(v: int) -> char {
    if v < 26 {
        (('A' as u32) + v) as char
    } else if v < 52 {
        (('a' as u32) + (v - 26)) as char
    } else if v < 62 {
        (('0' as u32) + (v - 52)) as char
    } else if v == 62 {
        '+'
    } else {
        '/'
    }
}

/// The standard Base64 spelling of `data` (RFC 4648): each group of three bytes becomes
/// four characters, and a last group of one or two bytes is padded with `=`.
pub open spec fn base64_text(data: Seq<u8>) -> Seq<char>
    decreases data.len(),
{
    let b0 = data[0] as int;
    let b1 = data[1] as int;
    let b2 = data[2] as int;
    if data.len() == 0 {
        Seq::empty()
    } else if data.len() == 1 {
        seq![base64_digit(b0 / 4), base64_digit((b0 % 4) * 16), '=', '=']
    } else if data.len() == 2 {
        seq![base64_digit(b0 / 4), base64_digit((b0 % 4) * 16 + b1 / 16), base64_digit((b1 % 16) * 4), '=']
    } else {
        seq![base64_digit(b0 / 4), base64_digit((b0 % 4) * 16 + b1 / 16),
            base64_digit((b1 % 16) * 4 + b2 / 64), base64_digit(b2 % 64)]
            + base64_text(data.skip(3))
    }
}

/// Calls `Engine::encode` on `base64::engine::general_purpose::STANDARD`, which spells
/// `data` in the RFC 4648 alphabet, padded with `=`; it panics only when the length of
/// the result (four characters for every three bytes begun) does not fit in `usize`.
#[verifier::external_body]
fn base64_standard(data: &[u8]) -> (r: String)
    requires
        4 * ((data@.len() + 2) / 3) <= usize::MAX,
    ensures
        r@ == base64_text(data@),
{
    base64::engine::general_purpose::STANDARD.encode(data)
}

/// A `data:` URL that shows the image bytes read from `path`.
pub open spec fn image_data_url(path: Seq<char>, image_bytes: Seq<u8>) -> Seq<char> {
    "data:"@ + (if ends_with_ascii_lower(path, ".png"@) {
        "image/png"@
    } else if ends_with_ascii_lower(path, ".webp"@) {
        "image/webp"@
    } else {
        "image/jpeg"@
    }) + ";base64,"@ + base64_text(image_bytes)
}

/// Turns the bytes read from a local image file (`None` when it could not be read)
/// into a `data:` URL that a web view can show.
pub fn local_path_to_data_url(path: &str, image_bytes: Option<Vec<u8>>) -> (r: Option<String>)
    requires
        image_bytes matches Some(b) ==> 4 * ((b@.len() + 2) / 3) <= usize::MAX,
    ensures
        match image_bytes {
            Some(b) => r is Some && r->Some_0@ == image_data_url(path@, b@),
            None => r is None,
        },
{
    match image_bytes {
        None => None,
        Some(bytes) => {
            let mut url = "data:".to_owned();
            url.append(image_mime_type(path));
            url.append(";base64,");
            let encoded = base64_standard(bytes.as_slice());
            url.append(encoded.as_str());
            Some(url)
        },
    }
}

/// The image source for a saved local cover: its bytes as a `data:` URL when they could
/// be read; otherwise the path itself, except on Windows, where a web view cannot load it.
pub open spec fn local_cover(path: Seq<char>, image_bytes: Option<Vec<u8>>, windows: bool) -> Option<Seq<char>> {
    match image_bytes {
        Some(b) => Some(image_data_url(path, b@)),
        None => if windows { None } else { Some(path) },
    }
}

/// Converts a saved local cover path into an image source for the web view.
pub fn local_cover_source(path: String, image_bytes: Option<Vec<u8>>, windows: bool) -> (r: Option<String>)
    requires
        image_bytes matches Some(b) ==> 4 * ((b@.len() + 2) / 3) <= usize::MAX,
    ensures
        match r {
            Some(s) => local_cover(path@, image_bytes, windows) == Some(s@),
            None => local_cover(path@, image_bytes, windows) is None,
        },
{
    match local_path_to_data_url(path.as_str(), image_bytes) {
        Some(url) => Some(url),
        None => {
            if windows {
                None
            } else {
                Some(path)
            }
        },
    }
}

/// The image source shown for a visual novel: its saved local cover (whose bytes, read
/// from `cover_path`, are `image_bytes`) when it has one, else its cover URL.
pub fn cover_source(vn: VisualNovel, image_bytes: Option<Vec<u8>>, windows: bool) -> (r: Option<String>)
    requires
        image_bytes matches Some(b) ==> 4 * ((b@.len() + 2) / 3) <= usize::MAX,
    ensures
        match vn.cover_path {
            Some(p) => match r {
                Some(s) => local_cover(p@, image_bytes, windows) == Some(s@),
                None => local_cover(p@, image_bytes, windows) is None,
            },
            None => r == vn.cover_url,
        },
{
    match vn.cover_path {
        Some(path) => local_cover_source(path, image_bytes, windows),
        None => vn.cover_url,
    }
}

} // verus!
