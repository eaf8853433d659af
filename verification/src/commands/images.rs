//! What the image commands decide: formats, payloads, names and places.

use vstd::prelude::*;
use vstd::string::StringExecFns;
use crate::encoding::{base64_bytes, base64_text, decode_standard, describe_decode_error, encode_standard};
use crate::path_resolver::{join_path, joined_path};
use crate::text::{
    begins_at, chars_of, find_char, has_prefix, index_of, lemma_index_of, lemma_run_until_is, prefixed, run_until,
    same_text, starts_with, string_between, subvec,
};

verus! {

/// The file extension for an image given as a data URL: that of the
/// format which the URL names, `png` where it names none that is known.
pub open spec fn image_format(data: Seq<char>) -> Seq<char> {
    if has_prefix(data, "data:image/png"@) {
        "png"@
    } else if has_prefix(data, "data:image/jpeg"@) || has_prefix(data, "data:image/jpg"@) {
        "jpg"@
    } else if has_prefix(data, "data:image/gif"@) {
        "gif"@
    } else if has_prefix(data, "data:image/webp"@) {
        "webp"@
    } else if has_prefix(data, "data:image/svg"@) {
        "svg"@
    } else {
        "png"@
    }
}

/// The file extension for an image given as a data URL. There always is
/// one.
pub fn detect_image_format(data: &str) -> (format: Option<&'static str>)
    ensures
        format is Some,
        format->Some_0@ == image_format(data@),
{
    if starts_with(data, "data:image/png") {
        Some("png")
    } else if starts_with(data, "data:image/jpeg") || starts_with(data, "data:image/jpg") {
        Some("jpg")
    } else if starts_with(data, "data:image/gif") {
        Some("gif")
    } else if starts_with(data, "data:image/webp") {
        Some("webp")
    } else if starts_with(data, "data:image/svg") {
        Some("svg")
    } else {
        Some("png")
    }
}

/// The base64 part of image data: what stands between the first comma and
/// the second, or the end; the whole where there is no comma.
pub open spec fn payload(data: Seq<char>) -> Seq<char> {
    match index_of(data, ',') {
        Some(i) => {
            let rest = data.skip(i + 1);
            rest.take(run_until(rest, ',') as int)
        },
        None => data,
    }
}

/// The base64 part of image data given as a data URL or bare.
pub fn image_payload(image_data: &str) -> (part: String)
    ensures
        part@ == payload(image_data@),
{
    let chars = chars_of(image_data);
    match find_char(&chars, ',') {
        Some(i) => {
            let rest = subvec(&chars, i + 1, chars.len());
            assert(rest@ =~= chars@.skip(i + 1));
            let end = match find_char(&rest, ',') {
                Some(j) => j,
                None => rest.len(),
            };
            proof {
                lemma_index_of(rest@, ',');
                lemma_run_until_is(rest@, ',', end as int);
            }
            let part = string_between(&rest, 0, end);
            assert(rest@.subrange(0, end as int) =~= rest@.take(end as int));
            part
        },
        None => String::from_str(image_data),
    }
}

/// The bytes of an image given as a data URL or as bare base64, or the
/// reason for which the data is refused. The message begins with
/// `Failed to decode base64 image: `; what follows are the decoder's own
/// words.
pub fn decode_image_data(image_data: &str) -> (r: Result<Vec<u8>, String>)
    ensures
        match base64_bytes(payload(image_data@)) {
            Some(bytes) => r is Ok && r->Ok_0@ == bytes,
            None => r is Err && has_prefix(r->Err_0@, "Failed to decode base64 image: "@),
        },
{
    let part = image_payload(image_data);
    match decode_standard(part.as_str()) {
        Ok(bytes) => Ok(bytes),
        Err(e) => {
            let words = describe_decode_error(&e);
            let message = prefixed("Failed to decode base64 image: ", words.as_str());
            proof {
                let lead = "Failed to decode base64 image: "@;
                assert(message@.take(lead.len() as int) =~= lead);
            }
            Err(message)
        },
    }
}

/// Name of the file for an image: its identifier, a full stop and the
/// extension of its format.
pub fn image_file_name(id: &str, format: &str) -> (name: String)
    ensures
        name@ == id@ + "."@ + format@,
{
    let mut name = String::from_str(id);
    name.append(".");
    name.append(format);
    name
}

/// The stored path of an image of a problem.
pub fn problem_image_path(development: bool, problem_id: &str, filename: &str) -> (path: String)
    ensures
        path@ == (if development {
            "dev-data"@
        } else {
            "app-data"@
        }) + "/images/problem_"@ + problem_id@ + "/"@ + filename@,
{
    let mut path = if development {
        String::from_str("dev-data")
    } else {
        String::from_str("app-data")
    };
    path.append("/images/problem_");
    path.append(problem_id);
    path.append("/");
    path.append(filename);
    path
}

/// The media type for a file extension; `image/png` for one that is
/// missing or unknown.
pub open spec fn media_type(extension: Option<Seq<char>>) -> Seq<char> {
    match extension {
        Some(e) => if e == "png"@ {
            "image/png"@
        } else if e == "jpg"@ || e == "jpeg"@ {
            "image/jpeg"@
        } else if e == "gif"@ {
            "image/gif"@
        } else if e == "webp"@ {
            "image/webp"@
        } else if e == "svg"@ {
            "image/svg+xml"@
        } else {
            "image/png"@
        },
        None => "image/png"@,
    }
}

/// The value of an optional extension.
pub open spec fn extension_view(extension: Option<&str>) -> Option<Seq<char>> {
    match extension {
        Some(e) => Some(e@),
        None => None,
    }
}

/// The media type for a file extension.
pub fn mime_type_for(extension: Option<&str>) -> (mime: &'static str)
    ensures
        mime@ == media_type(extension_view(extension)),
{
    match extension {
        Some(e) => {
            if same_text(e, "png") {
                "image/png"
            } else if same_text(e, "jpg") || same_text(e, "jpeg") {
                "image/jpeg"
            } else if same_text(e, "gif") {
                "image/gif"
            } else if same_text(e, "webp") {
                "image/webp"
            } else if same_text(e, "svg") {
                "image/svg+xml"
            } else {
                "image/png"
            }
        },
        None => "image/png",
    }
}

/// The data URL for content of the given media type that is given in
/// base64.
pub fn data_url(mime_type: &str, encoded: &str) -> (url: String)
    ensures
        url@ == "data:"@ + mime_type@ + ";base64,"@ + encoded@,
{
    let mut url = String::from_str("data:");
    url.append(mime_type);
    url.append(";base64,");
    url.append(encoded);
    url
}

/// The data URL for the bytes of an image of the given media type.
pub fn image_data_url(mime_type: &str, bytes: &[u8]) -> (url: String)
    requires
        bytes@.len() <= isize::MAX,
    ensures
        url@ == "data:"@ + mime_type@ + ";base64,"@ + base64_text(bytes@),
{
    let encoded = encode_standard(bytes);
    data_url(mime_type, encoded.as_str())
}

/// Where the file of a stored path lies, given the directory that the
/// application runs in and the directory of its data. A path stored for
/// development lies below the running directory as it stands; one stored
/// for production lies below the data directory, without its first
/// component; one that begins with `images/` is of the oldest kind and
/// lies below `attachments` in the running directory; any other below the
/// running directory.
pub open spec fn located(stored: Seq<char>, current_dir: Seq<char>, app_data_dir: Seq<char>) -> Seq<char> {
    if has_prefix(stored, "dev-data/"@) {
        joined_path(current_dir, stored)
    } else if has_prefix(stored, "app-data/"@) {
        joined_path(app_data_dir, stored.skip("app-data/"@.len() as int))
    } else if has_prefix(stored, "images/"@) {
        joined_path(joined_path(current_dir, "attachments"@), stored)
    } else {
        joined_path(current_dir, stored)
    }
}

/// Where the file of a stored path lies.
pub fn image_location(relative_path: &str, current_dir: &str, app_data_dir: &str) -> (path: String)
    ensures
        path@ == located(relative_path@, current_dir@, app_data_dir@),
{
    let chars = chars_of(relative_path);
    let production = chars_of("app-data/");
    assert(chars@.skip(0) =~= chars@);
    if starts_with(relative_path, "dev-data/") {
        join_path(current_dir, relative_path)
    } else if begins_at(&chars, 0, &production) {
        let rest = string_between(&chars, production.len(), chars.len());
        assert(rest@ =~= relative_path@.skip("app-data/"@.len() as int));
        join_path(app_data_dir, rest.as_str())
    } else if starts_with(relative_path, "images/") {
        let attachments = join_path(current_dir, "attachments");
        join_path(attachments.as_str(), relative_path)
    } else {
        join_path(current_dir, relative_path)
    }
}

/// The address under which the window loads the file at `path`.
pub fn asset_url(path: &str) -> (url: String)
    ensures
        url@ == "asset://localhost"@ + path@,
{
    prefixed("asset://localhost", path)
}

} // verus!
