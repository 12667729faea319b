//! Image attachment handling: parsing base64 data URLs, re-encoding images
//! to the smaller WebP format to bound message size, and choosing file
//! extensions for saved images. The encoding crates sit behind trusted
//! wrappers; everything around them is verified.

use vstd::prelude::*;

verus! {

use vstd::string::StringExecFns;
use vstd::string::StrSliceExecFns;
use crate::text::contains_sub;
use crate::text::spec_find;
use crate::text::str_contains;
use crate::text::str_starts_with;
use crate::text::str_eq;
use crate::text::find_char;
use crate::text::substring;
use crate::text::lemma_spec_find;
use base64::Engine;

/// What the base64 codec decodes from a standard-alphabet, padded string,
/// or nothing for a malformed one; depends on the characters alone.
pub uninterp spec fn b64_decode_of(s: Seq<char>) -> Option<Seq<u8>>;

/// What the base64 codec encodes a byte string to, with the standard
/// alphabet and padding; depends on the bytes alone.
pub uninterp spec fn b64_encode_of(b: Seq<u8>) -> Seq<char>;

/// What the image codec produces when it decodes an image byte stream and
/// re-encodes it as WebP, or nothing where decoding or re-encoding fails;
/// depends on the bytes alone.
pub uninterp spec fn webp_of(b: Seq<u8>) -> Option<Seq<u8>>;

/// Relies on `base64::Engine::decode` with the standard engine.
#[verifier::external_body]
pub fn base64_decode(s: &str) -> (r: Option<Vec<u8>>)
    ensures
        match r {
            Some(b) => b64_decode_of(s@) == Some(b@),
            None => b64_decode_of(s@) is None,
        },
{
    base64::engine::general_purpose::STANDARD.decode(s).ok()
}

/// Relies on `base64::Engine::encode` with the standard engine.
#[verifier::external_body]
pub fn base64_encode(b: &[u8]) -> (r: String)
    ensures
        r@ == b64_encode_of(b@),
{
    base64::engine::general_purpose::STANDARD.encode(b)
}

/// Relies on `image::load_from_memory` and `image::DynamicImage::write_to`:
/// decodes an image from bytes and re-encodes it as WebP.
#[verifier::external_body]
pub fn reencode_webp(bytes: &[u8]) -> (r: Option<Vec<u8>>)
    ensures
        match r {
            Some(w) => webp_of(bytes@) == Some(w@),
            None => webp_of(bytes@) is None,
        },
{
    let img = image::load_from_memory(bytes).ok()?;
    let mut buf = std::io::Cursor::new(Vec::new());
    img.write_to(&mut buf, image::ImageFormat::WebP).ok()?;
    Some(buf.into_inner())
}

/// Whether an image argument is a data URL with a payload separator.
pub open spec fn spec_is_data_url(img: Seq<char>) -> bool {
    img.len() >= 5 && img.subrange(0, 5) == "data:"@ && spec_find(img, ',') is Some
}

/// The media type of an image argument: the part of a data-URL header before
/// any parameter, or the PNG type for raw base64.
pub open spec fn spec_media_type_of(img: Seq<char>) -> Seq<char> {
    if spec_is_data_url(img) {
        let ci = spec_find(img, ',')->Some_0;
        let header = img.subrange(5, ci);
        match spec_find(header, ';') {
            Some(si) => header.take(si),
            None => header,
        }
    } else {
        "image/png"@
    }
}

/// The base64 payload of an image argument: what follows the separator of a
/// data URL, or the whole argument for raw base64.
pub open spec fn spec_payload_of(img: Seq<char>) -> Seq<char> {
    if spec_is_data_url(img) {
        img.skip(spec_find(img, ',')->Some_0 + 1)
    } else {
        img
    }
}

/// Split an image argument into its media type and base64 payload.
pub fn split_data_url(img: &str) -> (r: (String, String))
    ensures
        r.0@ == spec_media_type_of(img@),
        r.1@ == spec_payload_of(img@),
{
    let n: usize = img.unicode_len();
    if str_starts_with(img, "data:") {
        proof {
            reveal_strlit("data:");
            assert("data:"@.len() == 5);
        }
        match find_char(img, ',') {
            Some(ci) => {
                proof {
                    lemma_spec_find(img@, ',');
                    assert(ci >= 5) by {
                        reveal_strlit("data:");
                        assert(forall|j: int|
                            0 <= j < 5 ==> img@[j] == "data:"@.index(j));
                        assert("data:"@.index(4) == ':');
                    }
                }
                let header = substring(img, 5, ci);
                let data = substring(img, ci + 1, n);
                proof {
                    assert(img@.subrange(ci + 1, n as int) =~= img@.skip(ci + 1));
                }
                let mt = match find_char(header.as_str(), ';') {
                    Some(si) => {
                        proof {
                            lemma_spec_find(header@, ';');
                            assert(header@.subrange(0, si as int) =~= header@.take(si as int));
                        }
                        substring(header.as_str(), 0, si)
                    },
                    None => header,
                };
                (mt, data)
            },
            None => {
                proof {
                    assert(!spec_is_data_url(img@));
                }
                (String::from_str("image/png"), img.to_owned())
            },
        }
    } else {
        proof {
            reveal_strlit("data:");
            assert("data:"@.len() == 5);
            assert(!spec_is_data_url(img@));
        }
        (String::from_str("image/png"), img.to_owned())
    }
}

/// The media type and base64 payload after WebP conversion: an argument
/// already in WebP stays as it is; one whose payload does not decode, or
/// whose bytes the image codec rejects, is passed through unchanged; any
/// other is re-encoded as WebP and carried as WebP base64.
pub open spec fn spec_webp_converted(media_type: Seq<char>, data: Seq<char>) -> (Seq<char>, Seq<
    char,
>) {
    if media_type == "image/webp"@ {
        ("image/webp"@, data)
    } else {
        match b64_decode_of(data) {
            Some(bytes) => match webp_of(bytes) {
                Some(w) => ("image/webp"@, b64_encode_of(w)),
                None => (media_type, data),
            },
            None => (media_type, data),
        }
    }
}

/// Convert a base64 image to WebP for smaller size; on any failure the
/// original media type and payload are handed back unchanged.
pub fn convert_to_webp(base64_data: &str, original_media_type: &str) -> (r: (String, String))
    ensures
        (r.0@, r.1@) == spec_webp_converted(original_media_type@, base64_data@),
{
    if str_eq(original_media_type, "image/webp") {
        return (String::from_str("image/webp"), base64_data.to_owned());
    }
    match base64_decode(base64_data) {
        Some(bytes) => match reencode_webp(bytes.as_slice()) {
            Some(w) => (String::from_str("image/webp"), base64_encode(w.as_slice())),
            None => (original_media_type.to_owned(), base64_data.to_owned()),
        },
        None => (original_media_type.to_owned(), base64_data.to_owned()),
    }
}

/// The file extension chosen for a data-URL header when an image is saved
/// to disk: known types keep their own, anything else counts as PNG.
pub open spec fn spec_image_extension(header: Seq<char>) -> Seq<char> {
    if contains_sub(header, "image/png"@) {
        "png"@
    } else if contains_sub(header, "image/jpeg"@) || contains_sub(header, "image/jpg"@) {
        "jpg"@
    } else if contains_sub(header, "image/gif"@) {
        "gif"@
    } else if contains_sub(header, "image/webp"@) {
        "webp"@
    } else {
        "png"@
    }
}

/// Choose the file extension for a saved image from its data-URL header.
pub fn image_extension_of(header: &str) -> (r: String)
    ensures
        r@ == spec_image_extension(header@),
{
    if str_contains(header, "image/png") {
        String::from_str("png")
    } else if str_contains(header, "image/jpeg") || str_contains(header, "image/jpg") {
        String::from_str("jpg")
    } else if str_contains(header, "image/gif") {
        String::from_str("gif")
    } else if str_contains(header, "image/webp") {
        String::from_str("webp")
    } else {
        String::from_str("png")
    }
}

/// As `spec_image_extension`, with the BMP type also recognised; used when
/// an image is handed to the system viewer.
pub open spec fn spec_viewer_extension(header: Seq<char>) -> Seq<char> {
    if contains_sub(header, "image/png"@) {
        "png"@
    } else if contains_sub(header, "image/jpeg"@) || contains_sub(header, "image/jpg"@) {
        "jpg"@
    } else if contains_sub(header, "image/gif"@) {
        "gif"@
    } else if contains_sub(header, "image/webp"@) {
        "webp"@
    } else if contains_sub(header, "image/bmp"@) {
        "bmp"@
    } else {
        "png"@
    }
}

/// Choose the file extension for the system viewer from a data-URL header.
pub fn viewer_extension_of(header: &str) -> (r: String)
    ensures
        r@ == spec_viewer_extension(header@),
{
    if str_contains(header, "image/png") {
        String::from_str("png")
    } else if str_contains(header, "image/jpeg") || str_contains(header, "image/jpg") {
        String::from_str("jpg")
    } else if str_contains(header, "image/gif") {
        String::from_str("gif")
    } else if str_contains(header, "image/webp") {
        String::from_str("webp")
    } else if str_contains(header, "image/bmp") {
        String::from_str("bmp")
    } else {
        String::from_str("png")
    }
}

/// The name of the temporary file the image at `index` is saved under for
/// the second backend, inside the given directory.
pub open spec fn spec_temp_image_path(
    dir: Seq<char>,
    pid: nat,
    index: nat,
    ext: Seq<char>,
) -> Seq<char> {
    dir + "/mascot-codex-image-"@ + crate::text::dec_digits(pid) + "-"@ + crate::text::dec_digits(
        index,
    ) + "."@ + ext
}

/// Build the path a temporary image file is saved under.
pub fn temp_image_path(dir: &str, pid: u64, index: u64, ext: &str) -> (r: String)
    ensures
        r@ == spec_temp_image_path(dir@, pid as nat, index as nat, ext@),
{
    let r = dir.to_owned().concat("/mascot-codex-image-").concat(
        crate::text::u64_to_string(pid).as_str(),
    ).concat("-").concat(crate::text::u64_to_string(index).as_str()).concat(".").concat(ext);
    proof {
        assert(r@ =~= spec_temp_image_path(dir@, pid as nat, index as nat, ext@));
    }
    r
}

/// The name of the temporary file an image is saved under before it is
/// handed to the system viewer, inside the given directory.
pub fn viewer_image_path(dir: &str, pid: u64, ext: &str) -> (r: String)
    ensures
        r@ == dir@ + "/clawd-image-"@ + crate::text::dec_digits(pid as nat) + "."@ + ext@,
{
    let r = dir.to_owned().concat("/clawd-image-").concat(
        crate::text::u64_to_string(pid).as_str(),
    ).concat(".").concat(ext);
    proof {
        assert(r@ =~= dir@ + "/clawd-image-"@ + crate::text::dec_digits(pid as nat) + "."@
            + ext@);
    }
    r
}

} // verus!
