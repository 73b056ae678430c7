//! Validation of an upload: its bytes against the name it claims.

use vstd::prelude::*;
use crate::file_name::{extension_of, extension_start};
use crate::sniff::{category_of, kind_extension, sniff_category, sniffed_extension};
use crate::text::{chars_of, range_is_str, same_text};

verus! {

/// The extension under which the sniffer knows a kind, for the other
/// spellings in use: `jpeg` and `jpe` stand for `jpg`, `tiff` for `tif` and
/// `qt` for `mov`. Every other extension stands for itself.
pub open spec fn canonical_extension(ext: Seq<char>) -> Seq<char> {
    if ext == "jpeg"@ || ext == "jpe"@ {
        "jpg"@
    } else if ext == "tiff"@ {
        "tif"@
    } else if ext == "qt"@ {
        "mov"@
    } else {
        ext
    }
}

/// `name` has an extension, and it stands for `kind`. Case counts.
pub open spec fn name_claims(name: Seq<char>, kind: Seq<char>) -> bool {
    match extension_of(name) {
        Some(ext) => canonical_extension(ext) == kind,
        None => false,
    }
}

/// There are bytes, they are an image or a video, and `name` claims the
/// kind that the sniffer found for them.
pub open spec fn content_valid(bytes: Seq<u8>, name: Seq<char>) -> bool {
    &&& bytes.len() > 0
    &&& category_of(bytes) is Some
    &&& match sniffed_extension(bytes) {
        Some(kind) => name_claims(name, kind),
        None => false,
    }
}

/// The other spellings: a name that ends in `.jpeg` or `.jpe` claims the
/// kind `jpg`, one in `.tiff` the kind `tif`, one in `.qt` the kind `mov`.
/// Nothing is done to the kind: a name that ends in `.jpg` does not claim a
/// kind called `jpeg`.
pub proof fn lemma_other_spellings_claim_the_kind(name: Seq<char>)
    ensures
        extension_of(name) == Some("jpeg"@) || extension_of(name) == Some("jpe"@) ==> name_claims(
            name,
            "jpg"@,
        ),
        extension_of(name) == Some("tiff"@) ==> name_claims(name, "tif"@),
        extension_of(name) == Some("qt"@) ==> name_claims(name, "mov"@),
        extension_of(name) == Some("jpg"@) ==> name_claims(name, "jpg"@) && !name_claims(
            name,
            "jpeg"@,
        ),
{
    reveal_strlit("jpeg");
    reveal_strlit("jpe");
    reveal_strlit("jpg");
    reveal_strlit("tiff");
    reveal_strlit("tif");
    reveal_strlit("qt");
    reveal_strlit("mov");
    assert("jpg"@[2] != "jpe"@[2]);
    assert("tiff"@[0] != "jpeg"@[0]);
    assert("tiff"@.len() != "jpe"@.len());
    assert("qt"@.len() == 2 && "jpe"@.len() == 3 && "jpeg"@.len() == 4);
}

/// A name claims one kind only: content of one kind is refused under a
/// name that claims another, as a PNG is under a name that ends in `.jpg`.
pub proof fn lemma_name_claims_one_kind(name: Seq<char>, kind: Seq<char>, other: Seq<char>)
    requires
        name_claims(name, kind),
        other != kind,
    ensures
        !name_claims(name, other),
{
}

/// What is neither an image nor a video is refused under every name.
pub proof fn lemma_other_content_is_refused(bytes: Seq<u8>, name: Seq<char>)
    requires
        category_of(bytes) is None,
    ensures
        !content_valid(bytes, name),
{
}

/// A name without an extension is refused whatever the bytes are.
pub proof fn lemma_name_without_extension_is_refused(bytes: Seq<u8>, name: Seq<char>)
    requires
        extension_of(name) is None,
    ensures
        !content_valid(bytes, name),
{
}

/// Tells whether the extension of `path` stands for the kind whose own
/// extension is `kind`.
pub fn name_matches_kind(path: &String, kind: &str) -> (r: bool)
    ensures
        r == name_claims(path@, kind@),
{
    let chars = chars_of(path.as_str());
    let n: usize = chars.len();
    match extension_start(&chars) {
        None => false,
        Some(i) => {
            if range_is_str(&chars, i, n, "jpeg") || range_is_str(&chars, i, n, "jpe") {
                same_text("jpg", kind)
            } else if range_is_str(&chars, i, n, "tiff") {
                same_text("tif", kind)
            } else if range_is_str(&chars, i, n, "qt") {
                same_text("mov", kind)
            } else {
                range_is_str(&chars, i, n, kind)
            }
        },
    }
}

/// Tells whether `file` is an image or a video whose kind agrees with the
/// extension of `path`.
///
/// The bytes are sniffed first, and a file that is neither is refused
/// whatever its name says; so is a file without bytes. `path` is only read
/// as text: nothing is opened.
pub fn validate_file(file: &[u8], path: &String) -> (r: bool)
    ensures
        r == content_valid(file@, path@),
{
    if file.len() == 0 || sniff_category(file).is_none() {
        return false;
    }
    match kind_extension(file) {
        None => false,
        Some(kind) => name_matches_kind(path, kind.as_str()),
    }
}

} // verus!
