//! The comic record served by the API, and its assembly from extracted page
//! data plus fetched image bytes.
use base64::Engine;
use vstd::prelude::*;

verus! {

/// One comic, as the API serves it.  Immutable once constructed.
#[derive(Clone, Debug)]
pub struct ComicRecord {
    /// The comic's id; `None` stands for the most recent comic.
    pub id: Option<u32>,
    /// The comic image's `title` attribute.
    pub title: String,
    /// The comic image's `src` attribute.
    pub image_url: String,
    /// The image bytes, base64-encoded for embedding in responses.
    pub image_base64: String,
}

/// What the standard base64 alphabet encodes `bytes` to.
pub uninterp spec fn base64_of(bytes: Seq<u8>) -> Seq<char>;

/// Relies on `base64::engine::general_purpose::STANDARD.encode`: the
/// encoding is a function of the input bytes alone, and no bytes encode to
/// the empty string.
#[verifier::external_body]
fn base64_encode(bytes: &Vec<u8>) -> (r: String)
    ensures
        r@ == base64_of(bytes@),
        bytes@.len() == 0 ==> r@.len() == 0,
{
    base64::engine::general_purpose::STANDARD.encode(bytes)
}

/// Assemble the record for `id` from the extracted title and image URL and
/// the fetched image bytes.
pub fn assemble_comic(id: Option<u32>, title: String, image_url: String, image_bytes: &Vec<u8>) -> (r:
    ComicRecord)
    ensures
        r.id == id,
        r.title == title,
        r.image_url == image_url,
        r.image_base64@ == base64_of(image_bytes@),
{
    let image_base64 = base64_encode(image_bytes);
    ComicRecord { id, title, image_url, image_base64 }
}

} // verus!
