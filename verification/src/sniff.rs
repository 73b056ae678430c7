//! Content sniffing: the kind of a file, told from its leading bytes.
//!
//! The signatures are those of the `infer` crate. What it answers for given
//! bytes is taken on trust and has a name here; the rest of the library is
//! proved for whatever it answers.

use vstd::prelude::*;

verus! {

/// The coarse kind of an accepted upload.
#[derive(Clone, Copy, Debug, PartialEq, Eq, Structural)]
pub enum MediaCategory {
    Image,
    Video,
}

/// What `infer::is_image` answers for `bytes`.
pub uninterp spec fn sniffed_image(bytes: Seq<u8>) -> bool;

/// What `infer::is_video` answers for `bytes`.
pub uninterp spec fn sniffed_video(bytes: Seq<u8>) -> bool;

/// The extension of the kind that `infer::get` finds for `bytes`, or `None`
/// where it finds none.
pub uninterp spec fn sniffed_extension(bytes: Seq<u8>) -> Option<Seq<char>>;

/// `bytes` start with one of the two headers of a TIFF container.
pub open spec fn has_tiff_header(bytes: Seq<u8>) -> bool {
    &&& bytes.len() >= 4
    &&& (bytes[0] == 0x49 && bytes[1] == 0x49 && bytes[2] == 0x2A && bytes[3] == 0x00) || (bytes[0]
        == 0x4D && bytes[1] == 0x4D && bytes[2] == 0x00 && bytes[3] == 0x2A)
}

/// `bytes` are the first ten bytes of a Canon raw image and no more: a TIFF
/// header, and `CR` in the ninth and tenth place.
///
/// The signature of that kind goes on in the eleventh byte, which is not
/// there, and the outside matcher reads it without looking at the length.
/// Such bytes are therefore never handed to it; they are no image and no
/// video.
pub open spec fn is_cut_raw_header(bytes: Seq<u8>) -> bool {
    &&& bytes.len() == 10
    &&& has_tiff_header(bytes)
    &&& bytes[8] == 0x43
    &&& bytes[9] == 0x52
}

/// The category of `bytes`: an image where the sniffer says so, else a video
/// where it says so, else none. The first ten bytes of a Canon raw image
/// alone have none.
pub open spec fn category_of(bytes: Seq<u8>) -> Option<MediaCategory> {
    if is_cut_raw_header(bytes) {
        None
    } else if sniffed_image(bytes) {
        Some(MediaCategory::Image)
    } else if sniffed_video(bytes) {
        Some(MediaCategory::Video)
    } else {
        None
    }
}

/// Calls `infer::is_image`, which tells whether one of its image signatures
/// matches `bytes`. Trusted: the answer is the one named `sniffed_image`.
///
/// Its matcher for Canon raw images reads the eleventh byte of any input
/// that has more than nine bytes, a TIFF header and `CR` in the ninth and
/// tenth place. An input of just ten such bytes is left out: every other
/// matcher of images looks at the length before each byte it reads.
#[verifier::external_body]
pub(crate) fn is_image(bytes: &[u8]) -> (r: bool)
    requires
        !is_cut_raw_header(bytes@),
    ensures
        r == sniffed_image(bytes@),
{
    infer::is_image(bytes)
}

/// Calls `infer::is_video`, which tells whether one of its video signatures
/// matches `bytes`. Trusted: the answer is the one named `sniffed_video`.
#[verifier::external_body]
pub(crate) fn is_video(bytes: &[u8]) -> (r: bool)
    ensures
        r == sniffed_video(bytes@),
{
    infer::is_video(bytes)
}

/// Calls `infer::get`, which gives the first kind in its table whose
/// signature matches `bytes`, and takes that kind's extension. Trusted: the
/// answer is the one named `sniffed_extension`.
///
/// It is called for images and videos only. Their signatures stand early in
/// the table, so the search ends before it reaches the document kinds,
/// whose matchers compute offsets from the bytes. It passes the matcher for
/// Canon raw images on its way, so the ten bytes that `is_image` leaves out
/// are left out here too.
#[verifier::external_body]
pub(crate) fn kind_extension(bytes: &[u8]) -> (r: Option<String>)
    requires
        !is_cut_raw_header(bytes@),
        category_of(bytes@) is Some,
    ensures
        match r {
            Some(ext) => sniffed_extension(bytes@) == Some(ext@),
            None => sniffed_extension(bytes@) is None,
        },
{
    infer::get(bytes).map(|kind| kind.extension().to_string())
}

/// Tells whether `bytes` are the first ten bytes of a Canon raw image and no
/// more.
pub fn cut_raw_header(bytes: &[u8]) -> (r: bool)
    ensures
        r == is_cut_raw_header(bytes@),
{
    bytes.len() == 10 && ((bytes[0] == 0x49 && bytes[1] == 0x49 && bytes[2] == 0x2A && bytes[3]
        == 0x00) || (bytes[0] == 0x4D && bytes[1] == 0x4D && bytes[2] == 0x00 && bytes[3] == 0x2A))
        && bytes[8] == 0x43 && bytes[9] == 0x52
}

/// The category of `bytes`, or `None` where they are neither an image nor a
/// video.
pub fn sniff_category(bytes: &[u8]) -> (r: Option<MediaCategory>)
    ensures
        r == category_of(bytes@),
{
    if cut_raw_header(bytes) {
        None
    } else if is_image(bytes) {
        Some(MediaCategory::Image)
    } else if is_video(bytes) {
        Some(MediaCategory::Video)
    } else {
        None
    }
}

} // verus!
